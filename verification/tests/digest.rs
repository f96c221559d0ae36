use contaddr::digest::settle;
use contaddr::{Address, Detail, Digester, ErrorKind, HashType, StoreError};
use openssl::error::ErrorStack;

fn digest_failure() -> StoreError {
    StoreError {
        kind: ErrorKind::Other,
        detail: Detail::Message("the digest could not be computed".to_string()),
    }
}

fn hex_digest(algorithm: HashType, pieces: &[&[u8]]) -> String {
    let mut digester = Digester::new(algorithm).unwrap();
    for piece in pieces {
        digester = digester.feed(piece).unwrap();
    }
    let digest = digester.finish().unwrap();
    Address::from_digest(&digest).unwrap().as_hex()
}

#[test]
fn md5_of_known_content() {
    assert_eq!(hex_digest(HashType::MD5, &[]), "d41d8cd98f00b204e9800998ecf8427e");
    assert_eq!(hex_digest(HashType::MD5, &[b"abc"]), "900150983cd24fb0d6963f7d28e17f72");
}

#[test]
fn sha1_of_known_content() {
    assert_eq!(hex_digest(HashType::SHA1, &[b"abc"]), "a9993e364706816aba3e25717850c26c9cd0d89d");
}

#[test]
fn sha224_of_known_content() {
    assert_eq!(
        hex_digest(HashType::SHA224, &[b"abc"]),
        "23097d223405d8228642a477bda255b32aadbce4bda0b3f7e36c9da7"
    );
}

#[test]
fn sha256_of_known_content() {
    assert_eq!(
        hex_digest(HashType::SHA256, &[b"abc"]),
        "ba7816bf8f01cfea414140de5dae2223b00361a396177a9cb410ff61f20015ad"
    );
    assert_eq!(
        hex_digest(HashType::SHA256, &[]),
        "e3b0c44298fc1c149afbf4c8996fb92427ae41e4649b934ca495991b7852b855"
    );
}

#[test]
fn sha384_of_known_content() {
    assert_eq!(
        hex_digest(HashType::SHA384, &[b"abc"]),
        "cb00753f45a35e8bb5a03d699ac65007272c32ab0eded1631a8b605a43ff5bed\
         8086072ba1e7cc2358baeca134c825a7"
    );
}

#[test]
fn sha512_of_known_content() {
    assert_eq!(
        hex_digest(HashType::SHA512, &[b"abc"]),
        "ddaf35a193617abacc417349ae20413112e6fa4e89a97ea20a9eeee64b55d39a\
         2192992a274fc1a836ba3c23a3feebbd454d4423643ce80e2a9ac94fa54ca49f"
    );
}

#[test]
fn ripemd160_gives_its_digest_or_the_digest_failure() {
    match Digester::new(HashType::RIPEMD160) {
        Ok(digester) => {
            let digest = digester.feed(b"abc").unwrap().finish().unwrap();
            assert_eq!(
                Address::from_digest(&digest).unwrap().as_hex(),
                "8eb208f7e05d987a9b044a8e98c6b087f15a0bfc"
            );
        }
        Err(e) => assert_eq!(e, digest_failure()),
    }
}

#[test]
fn the_pieces_content_comes_in_do_not_matter() {
    let whole = hex_digest(HashType::SHA256, &[b"hello world"]);
    assert_eq!(whole, "b94d27b9934d3e08a52e52d7da7dabfac484efe37a5380ee9088f7ace2efcde9");
    assert_eq!(hex_digest(HashType::SHA256, &[b"hello", b" ", b"world"]), whole);
    assert_eq!(hex_digest(HashType::SHA256, &[b"h", b"ello worl", b"d"]), whole);
    assert_eq!(hex_digest(HashType::SHA256, &[b"", b"hello world", b""]), whole);
}

#[test]
fn the_order_of_the_pieces_matters() {
    assert_ne!(
        hex_digest(HashType::SHA256, &[b"world", b"hello"]),
        hex_digest(HashType::SHA256, &[b"hello", b"world"])
    );
}

#[test]
fn digests_have_the_length_of_their_algorithm() {
    let lengths = [
        (HashType::MD5, 16),
        (HashType::SHA1, 20),
        (HashType::SHA224, 28),
        (HashType::SHA256, 32),
        (HashType::SHA384, 48),
        (HashType::SHA512, 64),
    ];
    for (algorithm, length) in lengths {
        let digest = Digester::new(algorithm).unwrap().feed(b"content").unwrap().finish().unwrap();
        assert_eq!(digest.len(), length);
        assert_eq!(Address::from_digest(&digest).unwrap().as_hex().len(), 2 * length);
    }
}

#[test]
fn a_value_from_openssl_is_kept() {
    assert_eq!(settle(Ok(vec![1u8, 2, 3])), Ok(vec![1u8, 2, 3]));
    assert_eq!(settle(Ok(())), Ok(()));
}

#[test]
fn an_error_stack_becomes_the_digest_failure() {
    let refused: Result<Vec<u8>, ErrorStack> = Err(ErrorStack::get());
    assert_eq!(settle(refused), Err(digest_failure()));
}
