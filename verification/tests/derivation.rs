use fisher::errors::FishError;
use fisher::fishers::Fishers;
use fisher::keys::generate_key;

fn expect_err(r: Result<Fishers, FishError>) -> FishError {
    match r {
        Ok(_) => panic!("expected an error"),
        Err(e) => e,
    }
}

fn sha256_bytes(data: &[u8]) -> Vec<u8> {
    let digest = <sha2::Sha256 as sha2::Digest>::digest(data);
    digest.to_vec()
}

fn sha512_bytes(data: &[u8]) -> Vec<u8> {
    let digest = <sha2::Sha512 as sha2::Digest>::digest(data);
    digest.to_vec()
}

#[test]
fn blowfish_key_is_sha512_prefix() {
    let f = generate_key(0, 0, b"correct horse").unwrap();
    let expected = &sha512_bytes(b"correct horse")[..56];
    match &f {
        Fishers::Blowfish(k) => assert_eq!(k.as_slice(), expected),
        _ => panic!("wrong variant"),
    }
    assert_eq!(f.key_bytes().len(), 56);
    assert_eq!(f.width(), 8);
}

#[test]
fn twofish_key_is_sha256() {
    let f = generate_key(1, 0, b"pw").unwrap();
    let expected = sha256_bytes(b"pw");
    match &f {
        Fishers::Twofish(k) => assert_eq!(k.as_slice(), expected.as_slice()),
        _ => panic!("wrong variant"),
    }
    assert_eq!(f.width(), 16);
}

#[test]
fn threefish256_key_is_sha256() {
    let f = generate_key(2, 32, b"pw").unwrap();
    let expected = sha256_bytes(b"pw");
    match &f {
        Fishers::Threefish256(k) => assert_eq!(k.as_slice(), expected.as_slice()),
        _ => panic!("wrong variant"),
    }
    assert_eq!(f.width(), 32);
}

#[test]
fn threefish512_key_is_sha512() {
    let f = generate_key(2, 64, b"pw").unwrap();
    let expected = sha512_bytes(b"pw");
    match &f {
        Fishers::Threefish512(k) => assert_eq!(k.as_slice(), expected.as_slice()),
        _ => panic!("wrong variant"),
    }
    assert_eq!(f.width(), 64);
}

#[test]
fn threefish1024_key_construction() {
    // For passphrase "x" the 128-byte key is H512("x") followed by
    // H512(H512("x")).
    let f = generate_key(2, 128, b"x").unwrap();
    let d1 = sha512_bytes(b"x");
    let d2 = sha512_bytes(d1.as_slice());
    let mut expected = d1.clone();
    expected.extend_from_slice(d2.as_slice());
    assert_eq!(expected.len(), 128);
    match &f {
        Fishers::Threefish1024(k) => assert_eq!(k.as_slice(), expected.as_slice()),
        _ => panic!("wrong variant"),
    }
    assert_eq!(f.width(), 128);
}

#[test]
fn derivation_is_deterministic() {
    for (alg, bs) in [(0u8, 0usize), (1, 0), (2, 32), (2, 64), (2, 128)] {
        let a = generate_key(alg, bs, b"same passphrase").unwrap();
        let b = generate_key(alg, bs, b"same passphrase").unwrap();
        assert_eq!(a.key_bytes(), b.key_bytes());
    }
}

#[test]
fn unsupported_threefish_block_size_is_rejected() {
    let r = generate_key(2, 48, b"pw");
    assert_eq!(expect_err(r), FishError::InvalidBlockSize);
    let r = generate_key(2, 0, b"pw");
    assert_eq!(expect_err(r), FishError::InvalidBlockSize);
    let r = generate_key(2, 127, b"pw");
    assert_eq!(expect_err(r), FishError::InvalidBlockSize);
}

#[test]
fn unknown_algorithm_is_rejected() {
    let r = generate_key(3, 128, b"pw");
    assert_eq!(expect_err(r), FishError::InvalidAlgorithm);
    let r = generate_key(255, 8, b"pw");
    assert_eq!(expect_err(r), FishError::InvalidAlgorithm);
}

#[test]
fn error_descriptions() {
    assert_eq!(FishError::InvalidAlgorithm.describe(), "invalid algorithm");
    assert_eq!(FishError::InvalidBlockSize.describe(), "invalid block size");
    assert_eq!(FishError::Io.describe(), "io failure");
    assert_eq!(FishError::BlockSizeMismatch.describe(), "block size mismatch");
}
