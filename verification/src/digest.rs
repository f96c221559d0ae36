//! The digest the store names content by, computed by OpenSSL.
use crate::error::{described, ErrorKind, StoreError, StoreErrorView};
use vstd::prelude::*;

verus! {

/// The digest algorithms a store can be opened with.
#[derive(Clone, Copy, Debug, PartialEq, Eq, Structural)]
pub enum HashType {
    MD5,
    SHA1,
    SHA224,
    SHA256,
    SHA384,
    SHA512,
    RIPEMD160,
}

/// OpenSSL's hasher. Nothing inside it is seen here: it is handed to
/// OpenSSL and back.
#[verifier::external_type_specification]
#[verifier::external_body]
pub struct ExHasher(openssl::hash::Hasher);

/// The errors OpenSSL reports. Nothing inside it is seen here: an error of
/// OpenSSL becomes the digest failure of the store.
#[verifier::external_type_specification]
#[verifier::external_body]
pub struct ExErrorStack(openssl::error::ErrorStack);

/// The digest of `data` under `algorithm`: what OpenSSL's `Hasher::finish`
/// returns once a hasher made for `algorithm` has been fed exactly `data`.
pub uninterp spec fn digest_of(algorithm: HashType, data: Seq<u8>) -> Seq<u8>;

/// The bytes that `hasher` has been fed since it was made or last finished.
pub uninterp spec fn hasher_input(hasher: openssl::hash::Hasher) -> Seq<u8>;

/// The algorithm that `hasher` was made for.
pub uninterp spec fn hasher_algorithm(hasher: openssl::hash::Hasher) -> HashType;

/// `Hasher::new` of OpenSSL, given the message digest of OpenSSL that
/// `algorithm` names (`MessageDigest::md5()` for `MD5`, and so on). Where it
/// succeeds, the hasher is made for that algorithm and has been fed nothing.
/// Whether it succeeds is up to the OpenSSL at hand.
#[verifier::external_body]
fn hasher_new(algorithm: HashType) -> (made: Result<
    openssl::hash::Hasher,
    openssl::error::ErrorStack,
>)
    ensures
        made matches Ok(hasher) ==> hasher_algorithm(hasher) == algorithm && hasher_input(hasher)
            == Seq::<u8>::empty(),
{
    openssl::hash::Hasher::new(
        match algorithm {
            HashType::MD5 => openssl::hash::MessageDigest::md5(),
            HashType::SHA1 => openssl::hash::MessageDigest::sha1(),
            HashType::SHA224 => openssl::hash::MessageDigest::sha224(),
            HashType::SHA256 => openssl::hash::MessageDigest::sha256(),
            HashType::SHA384 => openssl::hash::MessageDigest::sha384(),
            HashType::SHA512 => openssl::hash::MessageDigest::sha512(),
            HashType::RIPEMD160 => openssl::hash::MessageDigest::ripemd160(),
        },
    )
}

/// `Hasher::update` of OpenSSL. Where it succeeds, `data` has been added after
/// what the hasher had been fed before, and its algorithm is what it was.
/// Nothing is claimed of a hasher whose update failed.
#[verifier::external_body]
fn hasher_update(hasher: &mut openssl::hash::Hasher, data: &[u8]) -> (fed: Result<
    (),
    openssl::error::ErrorStack,
>)
    ensures
        fed is Ok ==> hasher_input(*final(hasher)) == hasher_input(*old(hasher)) + data@,
        fed is Ok ==> hasher_algorithm(*final(hasher)) == hasher_algorithm(*old(hasher)),
{
    hasher.update(data)
}

/// `Hasher::finish` of OpenSSL, its bytes copied into a vector. Where it
/// succeeds, they are the digest, under the hasher's algorithm, of what the
/// hasher had been fed.
#[verifier::external_body]
fn hasher_finish(hasher: &mut openssl::hash::Hasher) -> (digest: Result<
    Vec<u8>,
    openssl::error::ErrorStack,
>)
    ensures
        digest matches Ok(bytes) ==> bytes@ == digest_of(
            hasher_algorithm(*old(hasher)),
            hasher_input(*old(hasher)),
        ),
{
    match hasher.finish() {
        Ok(bytes) => Ok(bytes.to_vec()),
        Err(stack) => Err(stack),
    }
}

/// The failure reported when OpenSSL refuses to make, feed or finish a hasher.
pub open spec fn digest_failure() -> StoreErrorView {
    described(ErrorKind::Other, "the digest could not be computed"@)
}

/// Turns what an OpenSSL call returned into a result of the store: a value is
/// kept as it is, an error stack becomes the store's digest failure.
pub fn settle<T>(outcome: Result<T, openssl::error::ErrorStack>) -> (settled: Result<T, StoreError>)
    ensures
        match outcome {
            Ok(value) => settled == Ok::<T, StoreError>(value),
            Err(_) => settled matches Err(e) && e@ == digest_failure(),
        },
{
    match outcome {
        Ok(value) => Ok(value),
        Err(_) => Err(StoreError::new(ErrorKind::Other, "the digest could not be computed")),
    }
}

/// A digest under way: content is fed piece by piece, and the digest of all of
/// it is taken at the end.
pub struct Digester {
    hasher: openssl::hash::Hasher,
}

impl Digester {
    /// The algorithm the digest is computed under.
    pub closed spec fn algorithm(&self) -> HashType {
        hasher_algorithm(self.hasher)
    }

    /// The content fed so far.
    pub closed spec fn input(&self) -> Seq<u8> {
        hasher_input(self.hasher)
    }

    /// Starts a digest under `algorithm`, with nothing fed yet. Fails with the
    /// digest failure where OpenSSL makes no hasher.
    pub fn new(algorithm: HashType) -> (made: Result<Digester, StoreError>)
        ensures
            match made {
                Ok(digester) => digester.algorithm() == algorithm && digester.input()
                    == Seq::<u8>::empty(),
                Err(e) => e@ == digest_failure(),
            },
    {
        match settle(hasher_new(algorithm)) {
            Ok(hasher) => Ok(Digester { hasher }),
            Err(e) => Err(e),
        }
    }

    /// Feeds `data` after what was fed before. Fails with the digest failure
    /// where OpenSSL takes no more.
    pub fn feed(self, data: &[u8]) -> (fed: Result<Digester, StoreError>)
        ensures
            match fed {
                Ok(digester) => digester.algorithm() == self.algorithm() && digester.input()
                    == self.input() + data@,
                Err(e) => e@ == digest_failure(),
            },
    {
        let mut hasher = self.hasher;
        match settle(hasher_update(&mut hasher, data)) {
            Ok(_) => Ok(Digester { hasher }),
            Err(e) => Err(e),
        }
    }

    /// Ends the digest: the digest, under the algorithm, of all that was fed.
    /// Fails with the digest failure where OpenSSL gives none.
    pub fn finish(self) -> (digest: Result<Vec<u8>, StoreError>)
        ensures
            match digest {
                Ok(bytes) => bytes@ == digest_of(self.algorithm(), self.input()),
                Err(e) => e@ == digest_failure(),
            },
    {
        let mut hasher = self.hasher;
        settle(hasher_finish(&mut hasher))
    }
}

} // verus!
