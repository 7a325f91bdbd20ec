//! The file transform engine: split content into blocks, transform every
//! block with the selected cipher, and strip the trailing zero bytes of the
//! last transformed block.  The engine works on content bytes; reading and
//! rewriting the file around it is the callers' concern.

use vstd::prelude::*;
use vstd::slice::slice_subrange;
use vstd::slice::slice_to_vec;

use crate::blocks::count_trailing_zeros;
use crate::blocks::lemma_blockwise_eq;
use crate::blocks::lemma_padded_basics;
use crate::blocks::lemma_strip_then_pad;
use crate::blocks::lemma_tz_append_zeros;
use crate::blocks::lemma_tz_le_len;
use crate::blocks::lemma_tz_nonzero_last;
use crate::blocks::spec_chunk;
use crate::blocks::spec_num_blocks;
use crate::blocks::spec_padded;
use crate::blocks::spec_padded_len;
use crate::blocks::spec_strip;
use crate::blocks::spec_trailing_zeros;
use crate::blocks::spec_zeros;
use crate::errors::FishError;
use crate::fishers::Fishers;
use crate::keys::generate_key;
use crate::keys::spec_derived_key;
use crate::keys::spec_selected;
use crate::keys::spec_supported;

verus! {

/// The first `n` blocks of `c`, each transformed, laid end to end.
pub open spec fn spec_cat(f: Fishers, encrypt: bool, c: Seq<u8>, n: int) -> Seq<u8>
    decreases n,
{
    if n <= 0 {
        Seq::empty()
    } else {
        spec_cat(f, encrypt, c, n - 1) + f.spec_transform_block(
            encrypt,
            spec_chunk(c, f.spec_width(), n - 1),
        )
    }
}

/// The whole-content transform: pad the content up to a block boundary,
/// transform every block in the chosen direction, and strip the trailing
/// zero bytes of the last transformed block.
pub open spec fn spec_transformed(f: Fishers, encrypt: bool, c: Seq<u8>) -> Seq<u8> {
    let w = f.spec_width();
    let n = spec_num_blocks(c, w) as int;
    if n == 0 {
        Seq::empty()
    } else {
        spec_cat(f, encrypt, c, n - 1) + spec_strip(
            f.spec_transform_block(encrypt, spec_chunk(c, w, n - 1)),
        )
    }
}

/// Every encrypted block of `c` is exactly one block wide.
pub open spec fn spec_enc_widths_ok(f: Fishers, c: Seq<u8>) -> bool {
    forall|i: int|
        0 <= i < spec_num_blocks(c, f.spec_width()) ==> (#[trigger] f.spec_encrypt_block(
            spec_chunk(c, f.spec_width(), i),
        )).len() == f.spec_width()
}

/// The conditions under which decryption recovers exactly the original
/// content: the content must not end in a zero byte (the truncation rule
/// would strip it), and the last encrypted block must not consist of zero
/// bytes alone (the truncation rule would drop the whole block).
pub open spec fn spec_round_trip_ok(f: Fishers, c: Seq<u8>) -> bool {
    let w = f.spec_width();
    let n = spec_num_blocks(c, w) as int;
    c.len() == 0 || {
        &&& c.last() != 0
        &&& spec_enc_widths_ok(f, c)
        &&& spec_trailing_zeros(f.spec_encrypt_block(spec_chunk(c, w, n - 1))) < w
    }
}

/// The concatenation of `n` transformed blocks, when each is one block
/// wide, is `n` blocks long and holds each transformed block at its slot.
pub proof fn lemma_cat_props(f: Fishers, encrypt: bool, c: Seq<u8>, n: int)
    requires
        n >= 0,
        forall|i: int|
            0 <= i < n ==> (#[trigger] f.spec_transform_block(
                encrypt,
                spec_chunk(c, f.spec_width(), i),
            )).len() == f.spec_width(),
    ensures
        spec_cat(f, encrypt, c, n).len() == n * f.spec_width(),
        forall|j: int|
            0 <= j < n ==> #[trigger] spec_cat(f, encrypt, c, n).subrange(
                j * f.spec_width(),
                j * f.spec_width() + f.spec_width(),
            ) == f.spec_transform_block(encrypt, spec_chunk(c, f.spec_width(), j)),
    decreases n,
{
    let w = f.spec_width() as int;
    if n == 0 {
        assert(spec_cat(f, encrypt, c, 0).len() == 0);
    } else {
        lemma_cat_props(f, encrypt, c, n - 1);
        let prev = spec_cat(f, encrypt, c, n - 1);
        let blk = f.spec_transform_block(encrypt, spec_chunk(c, f.spec_width(), n - 1));
        let cat = spec_cat(f, encrypt, c, n);
        assert(cat == prev + blk);
        assert(blk.len() == w);
        assert(n * w == (n - 1) * w + w) by {
            vstd::arithmetic::mul::lemma_mul_is_distributive_sub_other_way(w, n, 1);
            vstd::arithmetic::mul::lemma_mul_basics(w);
        }
        assert(cat.len() == n * w);
        assert forall|j: int| 0 <= j < n implies #[trigger] cat.subrange(
            j * f.spec_width(),
            j * f.spec_width() + f.spec_width(),
        ) == f.spec_transform_block(encrypt, spec_chunk(c, f.spec_width(), j)) by {
            if j == n - 1 {
                assert(cat.subrange(j * w, j * w + w) =~= blk);
            } else {
                assert(j * w + w <= (n - 1) * w) by {
                    vstd::arithmetic::mul::lemma_mul_inequality(j + 1, n - 1, w);
                    vstd::arithmetic::mul::lemma_mul_is_distributive_add_other_way(w, j, 1);
                }
                assert(cat.subrange(j * w, j * w + w) =~= prev.subrange(j * w, j * w + w));
            }
        }
    }
}

/// Where encryption went well, the ciphertext splits back into exactly the
/// encrypted blocks: zero padding the ciphertext restores what the
/// trailing-zero rule stripped from the last encrypted block.
pub proof fn lemma_encrypt_layout(f: Fishers, c: Seq<u8>)
    requires
        c.len() > 0,
        spec_round_trip_ok(f, c),
    ensures
        spec_num_blocks(spec_transformed(f, true, c), f.spec_width()) == spec_num_blocks(
            c,
            f.spec_width(),
        ),
        forall|j: int|
            0 <= j < spec_num_blocks(c, f.spec_width()) ==> #[trigger] spec_chunk(
                spec_transformed(f, true, c),
                f.spec_width(),
                j,
            ) == f.spec_encrypt_block(spec_chunk(c, f.spec_width(), j)),
{
    let wn = f.spec_width();
    let w = wn as int;
    let n = spec_num_blocks(c, wn) as int;
    let ct = spec_transformed(f, true, c);
    lemma_padded_basics(c, wn);
    assert(n >= 1);
    assert forall|i: int| 0 <= i < n implies (#[trigger] f.spec_transform_block(
        true,
        spec_chunk(c, wn, i),
    )).len() == wn by {
        assert(f.spec_encrypt_block(spec_chunk(c, wn, i)).len() == wn);
    }
    lemma_cat_props(f, true, c, n);
    lemma_cat_props(f, true, c, n - 1);
    let blkn = f.spec_transform_block(true, spec_chunk(c, wn, n - 1));
    let t = spec_trailing_zeros(blkn) as int;
    lemma_tz_le_len(blkn);
    assert(t < w);
    assert(ct == spec_cat(f, true, c, n - 1) + spec_strip(blkn));
    assert((n - 1) * w + w == n * w) by {
        vstd::arithmetic::mul::lemma_mul_is_distributive_sub_other_way(w, n, 1);
        vstd::arithmetic::mul::lemma_mul_basics(w);
    }
    assert(ct.len() == n * w - t);
    if t == 0 {
        vstd::arithmetic::div_mod::lemma_mod_multiples_basic(n, w);
        assert(ct.len() as int % w == 0);
        assert(spec_padded_len(ct.len(), wn) == n * w);
    } else {
        assert(ct.len() as int % w == w - t) by {
            vstd::arithmetic::div_mod::lemma_mod_multiples_vanish(n - 1, w - t, w);
            vstd::arithmetic::mul::lemma_mul_is_commutative(n - 1, w);
            vstd::arithmetic::div_mod::lemma_small_mod((w - t) as nat, wn);
        }
        assert(spec_padded_len(ct.len(), wn) == ct.len() + t);
    }
    assert(spec_padded_len(ct.len(), wn) == n * w);
    lemma_strip_then_pad(blkn);
    assert(spec_padded(ct, wn) =~= spec_cat(f, true, c, n));
    lemma_padded_basics(ct, wn);
    assert(spec_num_blocks(ct, wn) == n) by {
        assert(spec_num_blocks(ct, wn) * w == n * w);
        vstd::arithmetic::mul::lemma_mul_is_commutative(spec_num_blocks(ct, wn) as int, w);
        vstd::arithmetic::mul::lemma_mul_is_commutative(n, w);
        vstd::arithmetic::mul::lemma_mul_equality_converse(w, spec_num_blocks(ct, wn) as int, n);
    }
    assert forall|j: int| 0 <= j < n implies #[trigger] spec_chunk(ct, wn, j)
        == f.spec_encrypt_block(spec_chunk(c, wn, j)) by {
        assert(spec_chunk(ct, wn, j) == spec_padded(ct, wn).subrange(j * w, j * w + w));
        assert(spec_cat(f, true, c, n).subrange(j * w, j * w + w) == f.spec_transform_block(
            true,
            spec_chunk(c, wn, j),
        ));
    }
}

/// Law (round trip): decrypting an encryption restores the original
/// content, provided the content does not end in a zero byte and the last
/// encrypted block does not consist of zero bytes alone.  Per-block
/// decryption must invert encryption, which the cipher contracts supply at
/// every call.
pub proof fn lemma_round_trip(f: Fishers, c: Seq<u8>)
    requires
        f.wf(),
        spec_round_trip_ok(f, c),
        forall|i: int|
            0 <= i < spec_num_blocks(c, f.spec_width()) ==> #[trigger] f.spec_decrypt_block(
                f.spec_encrypt_block(spec_chunk(c, f.spec_width(), i)),
            ) == spec_chunk(c, f.spec_width(), i),
    ensures
        spec_transformed(f, false, spec_transformed(f, true, c)) == c,
{
    let wn = f.spec_width();
    let w = wn as int;
    lemma_padded_basics(c, wn);
    if c.len() == 0 {
        assert(spec_num_blocks(c, wn) == 0);
        assert(spec_transformed(f, true, c) == Seq::<u8>::empty());
        lemma_padded_basics(Seq::<u8>::empty(), wn);
        assert(spec_transformed(f, false, spec_transformed(f, true, c)) =~= c);
    } else {
        let n = spec_num_blocks(c, wn) as int;
        let clen = c.len() as int;
        let ct = spec_transformed(f, true, c);
        lemma_encrypt_layout(f, c);
        assert((n - 1) * w + w == n * w) by {
            vstd::arithmetic::mul::lemma_mul_is_distributive_sub_other_way(w, n, 1);
            vstd::arithmetic::mul::lemma_mul_basics(w);
        }
        assert((n - 1) * w < clen <= n * w);
        assert forall|i: int| 0 <= i < n implies (#[trigger] f.spec_transform_block(
            false,
            spec_chunk(ct, wn, i),
        )).len() == wn by {
            assert(spec_chunk(ct, wn, i) == f.spec_encrypt_block(spec_chunk(c, wn, i)));
            assert(f.spec_decrypt_block(f.spec_encrypt_block(spec_chunk(c, wn, i)))
                == spec_chunk(c, wn, i));
        }
        lemma_cat_props(f, false, ct, n);
        lemma_cat_props(f, false, ct, n - 1);
        let catd = spec_cat(f, false, ct, n);
        assert forall|j: int|
            0 <= j < n implies #[trigger] catd.subrange(j * w, j * w + w) == spec_padded(
            c,
            wn,
        ).subrange(j * w, j * w + w) by {
            assert(catd.subrange(j * w, j * w + w) == f.spec_transform_block(
                false,
                spec_chunk(ct, wn, j),
            ));
            assert(spec_chunk(ct, wn, j) == f.spec_encrypt_block(spec_chunk(c, wn, j)));
            assert(f.spec_transform_block(false, spec_chunk(ct, wn, j)) == spec_chunk(c, wn, j));
        }
        lemma_blockwise_eq(catd, spec_padded(c, wn), wn, n as nat);
        let dblkn = f.spec_transform_block(false, spec_chunk(ct, wn, n - 1));
        assert(dblkn == spec_chunk(c, wn, n - 1));
        let pad = (n * w - clen) as nat;
        let x = c.subrange((n - 1) * w, clen);
        assert(spec_chunk(c, wn, n - 1) =~= x + spec_zeros(pad));
        lemma_tz_append_zeros(x, pad);
        assert(x.last() == c.last());
        lemma_tz_nonzero_last(x);
        assert(spec_trailing_zeros(spec_chunk(c, wn, n - 1)) == pad);
        assert(spec_strip(spec_chunk(c, wn, n - 1)) =~= x);
        assert(spec_num_blocks(ct, wn) == n);
        assert(spec_transformed(f, false, ct) == spec_cat(f, false, ct, n - 1) + spec_strip(
            dblkn,
        ));
        assert(catd == spec_cat(f, false, ct, n - 1) + dblkn);
        assert(spec_cat(f, false, ct, n - 1).len() == (n - 1) * w);
        assert forall|k: int| 0 <= k < (n - 1) * w implies spec_cat(f, false, ct, n - 1)[k] == c[k] by {
            assert(catd[k] == spec_cat(f, false, ct, n - 1)[k]);
            assert(spec_padded(c, wn)[k] == c[k]);
        }
        assert(spec_transformed(f, false, ct) =~= c);
    }
}

/// Law (boundary): content whose length is an exact multiple of the block
/// width gains no padding block — the padded form is the content itself —
/// yet the trailing-zero rule still strips the end of the last transformed
/// block.  The width hypothesis is what the cipher contracts supply at
/// every call.
pub proof fn lemma_boundary(f: Fishers, encrypt: bool, c: Seq<u8>)
    requires
        c.len() > 0,
        c.len() % f.spec_width() == 0,
        forall|i: int|
            0 <= i < spec_num_blocks(c, f.spec_width()) ==> (#[trigger] f.spec_transform_block(
                encrypt,
                spec_chunk(c, f.spec_width(), i),
            )).len() == f.spec_width(),
    ensures
        spec_padded(c, f.spec_width()) == c,
        spec_num_blocks(c, f.spec_width()) * f.spec_width() == c.len(),
        spec_transformed(f, encrypt, c).len() == c.len() - spec_trailing_zeros(
            f.spec_transform_block(
                encrypt,
                spec_chunk(c, f.spec_width(), spec_num_blocks(c, f.spec_width()) - 1),
            ),
        ),
{
    let wn = f.spec_width();
    let w = wn as int;
    let n = spec_num_blocks(c, wn) as int;
    lemma_padded_basics(c, wn);
    assert(spec_padded(c, wn) =~= c);
    assert(n >= 1);
    lemma_cat_props(f, encrypt, c, n - 1);
    let blkn = f.spec_transform_block(encrypt, spec_chunk(c, wn, n - 1));
    lemma_tz_le_len(blkn);
    assert((n - 1) * w + w == n * w) by {
        vstd::arithmetic::mul::lemma_mul_is_distributive_sub_other_way(w, n, 1);
        vstd::arithmetic::mul::lemma_mul_basics(w);
    }
    assert(spec_transformed(f, encrypt, c).len() == (n - 1) * w + (w - spec_trailing_zeros(
        blkn,
    )));
}

/// Law: the transform is deterministic.  The same key material, direction
/// and content bytes always name the same output bytes, so transforming
/// identical plaintext twice yields identical ciphertext.
pub proof fn lemma_transform_deterministic(
    f1: Fishers,
    f2: Fishers,
    encrypt: bool,
    c1: Seq<u8>,
    c2: Seq<u8>,
)
    requires
        f1 == f2,
        c1 == c2,
    ensures
        spec_transformed(f1, encrypt, c1) == spec_transformed(f2, encrypt, c2),
{
}

/// The configured transform engine: a keyed cipher plus the direction it
/// runs in.
pub struct Fisher {
    /// The keyed cipher variant, shared read-only by every worker.
    pub fisher: Fishers,
    /// True to encrypt, false to decrypt.
    pub crypt: bool,
}

impl Fisher {
    /// The engine holds well-formed key material.
    pub open spec fn wf(&self) -> bool {
        self.fisher.wf()
    }

    /// Build an engine: derive the key material for the selector pair and
    /// fix the direction for the whole run.
    pub fn new(algorithm: u8, crypt: bool, passphrase: &[u8], block_size: usize) -> (r: Result<
        Fisher,
        FishError,
    >)
        ensures
            r is Ok <==> spec_supported(algorithm, block_size),
            match r {
                Ok(fi) => {
                    &&& fi.wf()
                    &&& fi.crypt == crypt
                    &&& spec_selected(algorithm, block_size, fi.fisher)
                    &&& fi.fisher.spec_key() == spec_derived_key(
                        algorithm,
                        block_size,
                        passphrase@,
                    )
                },
                Err(e) => {
                    &&& (e == FishError::InvalidBlockSize <==> algorithm
                        == crate::keys::ALG_THREEFISH)
                    &&& (e == FishError::InvalidAlgorithm <==> algorithm
                        != crate::keys::ALG_THREEFISH)
                },
            },
    {
        let fisher = match generate_key(algorithm, block_size, passphrase) {
            Ok(f) => f,
            Err(e) => {
                return Err(e);
            },
        };
        Ok(Fisher { fisher, crypt })
    }

    /// Transform one file's content bytes in this engine's direction.
    pub fn modify_content(&self, content: &Vec<u8>) -> (r: Vec<u8>)
        requires
            self.wf(),
            content@.len() + self.fisher.spec_width() <= usize::MAX,
        ensures
            r@ == spec_transformed(self.fisher, self.crypt, content@),
            r@.len() < content@.len() + self.fisher.spec_width(),
            self.crypt ==> spec_enc_widths_ok(self.fisher, content@),
            !self.crypt ==> forall|orig: Seq<u8>|
                spec_round_trip_ok(self.fisher, orig) && content@ == spec_transformed(
                    self.fisher,
                    true,
                    orig,
                ) ==> r@ == orig,
    {
        transform_content(&self.fisher, self.crypt, content)
    }
}

/// Transform whole content bytes in the chosen direction.
///
/// The content is padded with zero bytes up to a block boundary (an exact
/// multiple of the block width gets no padding block), every block is
/// transformed in file order, and the trailing zero bytes of the last
/// transformed block are stripped.  When decrypting, any content that some
/// well-behaved encryption produced comes back as exactly that original.
pub fn transform_content(f: &Fishers, encrypt: bool, content: &Vec<u8>) -> (r: Vec<u8>)
    requires
        f.wf(),
        content@.len() + f.spec_width() <= usize::MAX,
    ensures
        r@ == spec_transformed(*f, encrypt, content@),
        r@.len() < content@.len() + f.spec_width(),
        encrypt ==> spec_enc_widths_ok(*f, content@),
        !encrypt ==> forall|orig: Seq<u8>|
            spec_round_trip_ok(*f, orig) && content@ == spec_transformed(*f, true, orig)
                ==> r@ == orig,
{
    let ghost cseq = content@;
    let w = f.width();
    proof {
        lemma_padded_basics(cseq, f.spec_width());
    }
    let mut padded: Vec<u8> = slice_to_vec(content.as_slice());
    let rem = padded.len() % w;
    if rem != 0 {
        let target = padded.len() + (w - rem);
        proof {
            assert(target == spec_padded_len(cseq.len(), f.spec_width()));
            assert(padded@ =~= cseq + spec_zeros(0));
        }
        while padded.len() < target
            invariant
                target == spec_padded_len(cseq.len(), f.spec_width()),
                cseq.len() <= padded@.len() <= target,
                target <= usize::MAX,
                padded@ == cseq + spec_zeros((padded@.len() - cseq.len()) as nat),
            decreases target - padded@.len(),
        {
            padded.push(0u8);
            proof {
                assert(padded@ =~= cseq + spec_zeros((padded@.len() - cseq.len()) as nat));
            }
        }
    }
    proof {
        assert(padded@ =~= spec_padded(cseq, f.spec_width()));
    }
    let n = padded.len() / w;
    proof {
        assert(n == spec_num_blocks(cseq, f.spec_width()));
        assert(n * w == padded@.len());
    }
    let mut out: Vec<u8> = Vec::new();
    let mut i: usize = 0;
    let mut start: usize = 0;
    while i < n
        invariant
            f.wf(),
            w == f.spec_width(),
            0 < w,
            i <= n,
            start == i * w,
            padded@ == spec_padded(cseq, f.spec_width()),
            n * w == padded@.len(),
            padded@.len() <= usize::MAX,
            out@ == spec_cat(*f, encrypt, cseq, i as int),
            out@.len() == i * w,
            forall|j: int|
                0 <= j < i ==> (#[trigger] f.spec_transform_block(
                    encrypt,
                    spec_chunk(cseq, f.spec_width(), j),
                )).len() == f.spec_width(),
            !encrypt ==> forall|j: int, p: Seq<u8>|
                #![trigger f.spec_encrypt_block(p), spec_chunk(cseq, f.spec_width(), j)]
                0 <= j < i && p.len() == f.spec_width() && spec_chunk(cseq, f.spec_width(), j)
                    == f.spec_encrypt_block(p) ==> f.spec_decrypt_block(
                    spec_chunk(cseq, f.spec_width(), j),
                ) == p,
        decreases n - i,
    {
        proof {
            assert(start + w <= padded@.len()) by {
                vstd::arithmetic::mul::lemma_mul_inequality(i as int + 1, n as int, w as int);
                vstd::arithmetic::mul::lemma_mul_is_distributive_add_other_way(
                    w as int,
                    i as int,
                    1,
                );
            }
        }
        let block_slice = slice_subrange(padded.as_slice(), start, start + w);
        let mut block: Vec<u8> = slice_to_vec(block_slice);
        proof {
            assert(block@ == spec_chunk(cseq, f.spec_width(), i as int));
        }
        let res = if encrypt {
            f.encrypt_block(&mut block)
        } else {
            f.decrypt_block(&mut block)
        };
        proof {
            assert(res is Ok);
            assert(block@ == f.spec_transform_block(encrypt, spec_chunk(cseq, f.spec_width(), i as int)));
            assert(block@.len() == w);
        }
        out.append(&mut block);
        proof {
            assert(out@ == spec_cat(*f, encrypt, cseq, i + 1));
        }
        i = i + 1;
        start = start + w;
        proof {
            assert(start == i * w) by {
                vstd::arithmetic::mul::lemma_mul_is_distributive_add_other_way(
                    w as int,
                    i as int - 1,
                    1,
                );
            }
            assert(out@.len() == i * w);
        }
    }
    proof {
        lemma_cat_props(*f, encrypt, cseq, n as int);
    }
    if n > 0 {
        let last_start = (n - 1) * w;
        let ghost blkn = f.spec_transform_block(
            encrypt,
            spec_chunk(cseq, f.spec_width(), n as int - 1),
        );
        proof {
            assert(last_start == (n as int - 1) * (w as int));
            assert(last_start + w == n * w) by {
                vstd::arithmetic::mul::lemma_mul_is_distributive_sub_other_way(
                    w as int,
                    n as int,
                    1,
                );
                vstd::arithmetic::mul::lemma_mul_basics(w as int);
            }
            assert(out@.subrange(last_start as int, last_start as int + w as int) == blkn);
        }
        let t = count_trailing_zeros(slice_subrange(out.as_slice(), last_start, last_start + w));
        proof {
            assert(t == spec_trailing_zeros(blkn));
            lemma_tz_le_len(blkn);
        }
        let newlen = out.len() - t;
        out.truncate(newlen);
        proof {
            lemma_cat_props(*f, encrypt, cseq, n as int - 1);
            assert(out@ =~= spec_cat(*f, encrypt, cseq, n as int - 1) + spec_strip(blkn));
            assert(out@ == spec_transformed(*f, encrypt, cseq));
        }
    } else {
        proof {
            assert(out@ =~= Seq::<u8>::empty());
            assert(out@ == spec_transformed(*f, encrypt, cseq));
        }
    }
    proof {
        if encrypt {
            assert forall|iq: int|
                0 <= iq < spec_num_blocks(cseq, f.spec_width()) implies (
            #[trigger] f.spec_encrypt_block(spec_chunk(cseq, f.spec_width(), iq))).len()
                == f.spec_width() by {
                assert(f.spec_transform_block(true, spec_chunk(cseq, f.spec_width(), iq)).len()
                    == f.spec_width());
            }
        } else {
            assert forall|orig: Seq<u8>|
                spec_round_trip_ok(*f, orig) && cseq == spec_transformed(
                    *f,
                    true,
                    orig,
                ) implies out@ == orig by {
                lemma_padded_basics(orig, f.spec_width());
                if orig.len() == 0 {
                    assert(cseq =~= Seq::<u8>::empty());
                    assert(out@ =~= orig);
                } else {
                    lemma_encrypt_layout(*f, orig);
                    assert forall|iq: int|
                        0 <= iq < spec_num_blocks(orig, f.spec_width()) implies
                    #[trigger] f.spec_decrypt_block(
                        f.spec_encrypt_block(spec_chunk(orig, f.spec_width(), iq)),
                    ) == spec_chunk(orig, f.spec_width(), iq) by {
                        let p = spec_chunk(orig, f.spec_width(), iq);
                        assert(p.len() == f.spec_width());
                        assert(spec_chunk(cseq, f.spec_width(), iq) == f.spec_encrypt_block(p));
                        assert(spec_num_blocks(cseq, f.spec_width()) == spec_num_blocks(
                            orig,
                            f.spec_width(),
                        ));
                        assert(f.spec_decrypt_block(spec_chunk(cseq, f.spec_width(), iq)) == p);
                    }
                    lemma_round_trip(*f, orig);
                }
            }
        }
    }
    out
}

} // verus!
