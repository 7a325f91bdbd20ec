use fisher::keys::generate_key;
use fisher::transform::transform_content;
use fisher::transform::Fisher;
use fisher::errors::FishError;

const SELECTORS: [(u8, usize); 5] = [(0, 8), (1, 16), (2, 32), (2, 64), (2, 128)];

#[test]
fn round_trip_partial_last_block() {
    for (alg, bs) in SELECTORS {
        let f = generate_key(alg, bs, b"round trip").unwrap();
        let content: Vec<u8> = b"The quick brown fox jumps over the lazy dog!".to_vec();
        let ct = transform_content(&f, true, &content);
        let back = transform_content(&f, false, &ct);
        assert_eq!(back, content);
    }
}

#[test]
fn round_trip_exact_multiple() {
    for (alg, bs) in SELECTORS {
        let f = generate_key(alg, bs, b"round trip").unwrap();
        let width = f.width();
        // Two full blocks, ending in a nonzero byte.
        let mut content: Vec<u8> = Vec::new();
        for i in 0..(2 * width) {
            content.push((i % 251 + 1) as u8);
        }
        let ct = transform_content(&f, true, &content);
        let back = transform_content(&f, false, &ct);
        assert_eq!(back, content);
    }
}

#[test]
fn round_trip_single_byte() {
    for (alg, bs) in SELECTORS {
        let f = generate_key(alg, bs, b"round trip").unwrap();
        let content: Vec<u8> = vec![0x5a];
        let ct = transform_content(&f, true, &content);
        let back = transform_content(&f, false, &ct);
        assert_eq!(back, content);
    }
}

#[test]
fn empty_content_stays_empty() {
    for (alg, bs) in SELECTORS {
        let f = generate_key(alg, bs, b"pw").unwrap();
        let content: Vec<u8> = Vec::new();
        let ct = transform_content(&f, true, &content);
        assert!(ct.is_empty());
        let back = transform_content(&f, false, &ct);
        assert!(back.is_empty());
    }
}

#[test]
fn ciphertext_differs_from_plaintext() {
    for (alg, bs) in SELECTORS {
        let f = generate_key(alg, bs, b"pw").unwrap();
        let content: Vec<u8> = b"some recognizable plaintext bytes".to_vec();
        let ct = transform_content(&f, true, &content);
        assert_ne!(ct, content);
    }
}

#[test]
fn encryption_is_deterministic() {
    for (alg, bs) in SELECTORS {
        let f1 = generate_key(alg, bs, b"pw").unwrap();
        let f2 = generate_key(alg, bs, b"pw").unwrap();
        let content: Vec<u8> = b"identical plaintext"[..].to_vec();
        let a = transform_content(&f1, true, &content);
        let b = transform_content(&f2, true, &content);
        assert_eq!(a, b);
    }
}

#[test]
fn exact_multiple_adds_no_padding_block() {
    // One full Blowfish block: the ciphertext is at most one block long,
    // never two.
    let f = generate_key(0, 8, b"pw").unwrap();
    let content: Vec<u8> = vec![9, 8, 7, 6, 5, 4, 3, 2];
    let ct = transform_content(&f, true, &content);
    assert!(ct.len() <= 8);
}

#[test]
fn trailing_zeros_of_original_are_lost() {
    // The truncation rule strips trailing zero bytes of the decrypted last
    // block whether they were padding or real content: a full block ending
    // in zero bytes comes back shortened.
    let f = generate_key(0, 8, b"pw").unwrap();
    let content: Vec<u8> = vec![1, 2, 0, 0, 0, 0, 0, 0];
    let ct = transform_content(&f, true, &content);
    let back = transform_content(&f, false, &ct);
    assert_eq!(back, vec![1, 2]);
}

#[test]
fn block_ops_invert_each_other() {
    for (alg, bs) in SELECTORS {
        let f = generate_key(alg, bs, b"pw").unwrap();
        let width = f.width();
        let mut block: Vec<u8> = Vec::new();
        for i in 0..width {
            block.push((i * 7 + 3) as u8);
        }
        let original = block.clone();
        assert_eq!(f.encrypt_block(&mut block), Ok(true));
        assert_ne!(block, original);
        assert_eq!(block.len(), width);
        assert_eq!(f.decrypt_block(&mut block), Ok(true));
        assert_eq!(block, original);
    }
}

#[test]
fn wrong_block_width_is_rejected() {
    let f = generate_key(1, 16, b"pw").unwrap();
    let mut block: Vec<u8> = vec![1, 2, 3];
    assert_eq!(f.encrypt_block(&mut block), Err(FishError::BlockSizeMismatch));
    assert_eq!(block, vec![1, 2, 3]);
    assert_eq!(f.decrypt_block(&mut block), Err(FishError::BlockSizeMismatch));
    assert_eq!(block, vec![1, 2, 3]);
}

#[test]
fn engine_runs_in_its_direction() {
    let enc = Fisher::new(2, true, b"pw", 32).unwrap();
    let dec = Fisher::new(2, false, b"pw", 32).unwrap();
    let content: Vec<u8> = b"engine level round trip".to_vec();
    let ct = enc.modify_content(&content);
    let back = dec.modify_content(&ct);
    assert_eq!(back, content);
    assert_ne!(ct, content);
}

fn expect_engine_err(r: Result<Fisher, FishError>) -> FishError {
    match r {
        Ok(_) => panic!("expected an error"),
        Err(e) => e,
    }
}

#[test]
fn engine_rejects_bad_selectors() {
    assert_eq!(expect_engine_err(Fisher::new(2, true, b"pw", 48)), FishError::InvalidBlockSize);
    assert_eq!(expect_engine_err(Fisher::new(9, true, b"pw", 8)), FishError::InvalidAlgorithm);
}
