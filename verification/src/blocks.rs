//! The byte-level model of block chunking: zero padding up to a block
//! boundary, splitting into fixed-width blocks, and the trailing-zero
//! truncation rule applied to a final block.

use vstd::prelude::*;

verus! {

/// A run of `n` zero bytes.
pub open spec fn spec_zeros(n: nat) -> Seq<u8> {
    Seq::new(n, |i: int| 0u8)
}

/// `len` rounded up to the next multiple of `w`.
pub open spec fn spec_padded_len(len: nat, w: nat) -> nat
    recommends
        w > 0,
{
    if len % w == 0 {
        len
    } else {
        (len + (w - len % w)) as nat
    }
}

/// `c` extended with trailing zero bytes up to a multiple of `w`.  Content
/// whose length is already a multiple of `w` is unchanged; in particular no
/// extra all-zero block is ever added.
pub open spec fn spec_padded(c: Seq<u8>, w: nat) -> Seq<u8> {
    c + spec_zeros((spec_padded_len(c.len(), w) - c.len()) as nat)
}

/// How many `w`-wide blocks `c` splits into once padded.
pub open spec fn spec_num_blocks(c: Seq<u8>, w: nat) -> nat {
    spec_padded(c, w).len() / w
}

/// Block `i` of the padded content.
pub open spec fn spec_chunk(c: Seq<u8>, w: nat, i: int) -> Seq<u8> {
    spec_padded(c, w).subrange(i * w, i * w + w)
}

/// The number of consecutive zero bytes at the end of `b`.
pub open spec fn spec_trailing_zeros(b: Seq<u8>) -> nat
    decreases b.len(),
{
    if b.len() == 0 {
        0
    } else if b.last() == 0 {
        1 + spec_trailing_zeros(b.drop_last())
    } else {
        0
    }
}

/// `b` with its trailing run of zero bytes removed.
pub open spec fn spec_strip(b: Seq<u8>) -> Seq<u8> {
    b.take(b.len() - spec_trailing_zeros(b))
}

/// The trailing-zero count never exceeds the length.
pub proof fn lemma_tz_le_len(b: Seq<u8>)
    ensures
        spec_trailing_zeros(b) <= b.len(),
    decreases b.len(),
{
    if b.len() > 0 && b.last() == 0 {
        lemma_tz_le_len(b.drop_last());
    }
}

/// Every byte in the trailing run is zero.
pub proof fn lemma_tz_suffix_zero(b: Seq<u8>)
    ensures
        spec_trailing_zeros(b) <= b.len(),
        forall|j: int| b.len() - spec_trailing_zeros(b) <= j < b.len() ==> b[j] == 0,
    decreases b.len(),
{
    lemma_tz_le_len(b);
    if b.len() > 0 && b.last() == 0 {
        lemma_tz_suffix_zero(b.drop_last());
        assert forall|j: int|
            b.len() - spec_trailing_zeros(b) <= j < b.len() implies b[j] == 0 by {
            if j < b.len() - 1 {
                assert(b.drop_last()[j] == 0);
            }
        }
    }
}

/// A suffix of `t` zeros, preceded by a nonzero byte or the start of the
/// sequence, pins the trailing-zero count to exactly `t`.
pub proof fn lemma_tz_characterize(b: Seq<u8>, t: nat)
    requires
        t <= b.len(),
        forall|j: int| b.len() - t <= j < b.len() ==> b[j] == 0,
        t == b.len() || b[b.len() - t - 1] != 0,
    ensures
        spec_trailing_zeros(b) == t,
    decreases t,
{
    if t == 0 {
        if b.len() > 0 {
            assert(b.last() != 0);
        }
    } else {
        assert(b.last() == 0);
        let b2 = b.drop_last();
        assert forall|j: int| b2.len() - (t - 1) <= j < b2.len() implies b2[j] == 0 by {
            assert(b[j] == 0);
        }
        if t < b.len() {
            assert(b2[b2.len() - (t - 1) - 1] == b[b.len() - t - 1]);
        }
        lemma_tz_characterize(b2, (t - 1) as nat);
    }
}

/// Re-appending the stripped zeros restores the original sequence.
pub proof fn lemma_strip_then_pad(b: Seq<u8>)
    ensures
        spec_strip(b) + spec_zeros(spec_trailing_zeros(b)) == b,
{
    lemma_tz_suffix_zero(b);
    assert(spec_strip(b) + spec_zeros(spec_trailing_zeros(b)) =~= b);
}

/// Appending `k` zeros adds exactly `k` to the trailing-zero count.
pub proof fn lemma_tz_append_zeros(x: Seq<u8>, k: nat)
    ensures
        spec_trailing_zeros(x + spec_zeros(k)) == spec_trailing_zeros(x) + k,
    decreases k,
{
    if k == 0 {
        assert(x + spec_zeros(0) =~= x);
    } else {
        let y = x + spec_zeros(k);
        assert(y.last() == 0);
        assert(y.drop_last() =~= x + spec_zeros((k - 1) as nat));
        lemma_tz_append_zeros(x, (k - 1) as nat);
    }
}

/// A sequence ending in a nonzero byte has no trailing zeros.
pub proof fn lemma_tz_nonzero_last(x: Seq<u8>)
    requires
        x.len() > 0,
        x.last() != 0,
    ensures
        spec_trailing_zeros(x) == 0,
{
}

/// Basic facts about the padded form: its length is the block count times
/// the width, it begins with the original content, and it adds fewer than
/// `w` bytes.
pub proof fn lemma_padded_basics(c: Seq<u8>, w: nat)
    requires
        w > 0,
    ensures
        spec_padded(c, w).len() == spec_padded_len(c.len(), w),
        c.len() <= spec_padded(c, w).len() < c.len() + w,
        spec_padded(c, w).len() % w == 0,
        spec_padded(c, w).len() == spec_num_blocks(c, w) * w,
        spec_padded(c, w).take(c.len() as int) == c,
        spec_num_blocks(c, w) == 0 <==> c.len() == 0,
{
    let len = c.len() as int;
    let wi = w as int;
    let plen = spec_padded_len(c.len(), w) as int;
    let q = len / wi;
    let r = len % wi;
    vstd::arithmetic::div_mod::lemma_mod_bound(len, wi);
    vstd::arithmetic::div_mod::lemma_fundamental_div_mod(len, wi);
    vstd::arithmetic::div_mod::lemma_div_pos_is_pos(len, wi);
    assert(len == wi * q + r);
    if r == 0 {
        assert(plen == len);
        assert(plen == q * wi) by {
            vstd::arithmetic::mul::lemma_mul_is_commutative(q, wi);
        }
        vstd::arithmetic::div_mod::lemma_mod_multiples_basic(q, wi);
    } else {
        assert(plen == len + (wi - r));
        assert(plen == (q + 1) * wi) by {
            vstd::arithmetic::mul::lemma_mul_is_distributive_add_other_way(wi, q, 1);
            vstd::arithmetic::mul::lemma_mul_is_commutative(q, wi);
        }
        vstd::arithmetic::div_mod::lemma_mod_multiples_basic(q + 1, wi);
    }
    assert(spec_padded(c, w).len() == plen);
    assert(plen % wi == 0);
    vstd::arithmetic::div_mod::lemma_fundamental_div_mod(plen, wi);
    assert(plen == w * (plen / wi));
    assert(spec_num_blocks(c, w) * w == w * (plen / wi)) by {
        vstd::arithmetic::mul::lemma_mul_is_commutative(spec_num_blocks(c, w) as int, wi);
    }
    assert(spec_padded(c, w).take(len) =~= c);
    if len == 0 {
        assert(plen == 0);
        vstd::arithmetic::div_mod::lemma_div_of0(wi);
    } else {
        assert(plen >= 1);
        if plen < wi {
            vstd::arithmetic::div_mod::lemma_small_mod(plen as nat, w);
            assert(plen % wi == plen);
            assert(false);
        }
        vstd::arithmetic::div_mod::lemma_div_non_zero(plen, wi);
        assert(spec_num_blocks(c, w) > 0);
    }
}

/// Two sequences that agree block by block agree outright.
pub proof fn lemma_blockwise_eq(a: Seq<u8>, b: Seq<u8>, w: nat, n: nat)
    requires
        w > 0,
        a.len() == n * w,
        b.len() == n * w,
        forall|j: int|
            0 <= j < n ==> #[trigger] a.subrange(j * w, j * w + w) == b.subrange(
                j * w,
                j * w + w,
            ),
    ensures
        a == b,
{
    assert forall|k: int| 0 <= k < a.len() implies a[k] == b[k] by {
        let wi = w as int;
        let j = k / wi;
        let r = k % wi;
        vstd::arithmetic::div_mod::lemma_fundamental_div_mod(k, wi);
        vstd::arithmetic::div_mod::lemma_mod_bound(k, wi);
        vstd::arithmetic::div_mod::lemma_div_pos_is_pos(k, wi);
        assert(k == wi * j + r);
        assert(j * w <= k < j * w + w) by {
            vstd::arithmetic::mul::lemma_mul_is_commutative(wi, j);
        }
        assert(j < n) by {
            if j >= n {
                vstd::arithmetic::mul::lemma_mul_inequality(n as int, j, wi);
                assert(n * w <= j * w);
            }
        }
        assert(j * w + w <= n * w) by {
            vstd::arithmetic::mul::lemma_mul_inequality(j + 1, n as int, wi);
            vstd::arithmetic::mul::lemma_mul_is_distributive_add_other_way(wi, j, 1);
        }
        assert(a.subrange(j * w, j * w + w)[k - j * w] == b.subrange(j * w, j * w + w)[k - j
            * w]);
    }
    assert(a =~= b);
}

/// Count the zero bytes at the end of `b`.
pub fn count_trailing_zeros(b: &[u8]) -> (t: usize)
    ensures
        t == spec_trailing_zeros(b@),
{
    let len = b.len();
    let mut t: usize = 0;
    while t < len
        invariant_except_break
            t <= len,
            len == b@.len(),
            forall|j: int| len - t <= j < len ==> b@[j] == 0,
        ensures
            t <= len,
            len == b@.len(),
            forall|j: int| len - t <= j < len ==> b@[j] == 0,
            t == len || b@[len - t - 1] != 0,
        decreases len - t,
    {
        if b[len - 1 - t] != 0 {
            break ;
        }
        t = t + 1;
    }
    proof {
        lemma_tz_characterize(b@, t as nat);
    }
    t
}

} // verus!
