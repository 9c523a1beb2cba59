//! Incremental hash states: bytes go in piece by piece, the digest comes out once.
//!
//! The arithmetic of each algorithm is done by the `md5`, `sha1` and `sha2`
//! crates behind the `digest::DynDigest` interface. What this library relies
//! on is stated on the functions at the top of this file and is not proved:
//! a fresh state has taken in nothing, feeding a state appends to what it has
//! taken in, and the digest is determined by the algorithm and the bytes
//! taken in, with the algorithm's fixed length.

use crate::algorithms::HashKind;
use digest::Digest;
use vstd::prelude::*;

verus! {

/// A running hash computation of one of the outside crates, held as a boxed
/// `digest::DynDigest` trait object. Nothing inside it is visible to proofs:
/// all that is known of an engine is what the functions below say of it.
#[verifier::external_body]
pub struct Engine {
    inner: Box<dyn digest::DynDigest>,
}

/// The algorithm that an engine was created for.
pub uninterp spec fn engine_algorithm(engine: Engine) -> HashKind;

/// All the bytes that an engine has been fed since its creation, in order.
pub uninterp spec fn engine_absorbed(engine: Engine) -> Seq<u8>;

/// The digest that `algorithm` assigns to `message`, as computed by
/// `digest::DynDigest::finalize` on a state of that algorithm that was fed
/// exactly `message`.
pub uninterp spec fn digest_of(algorithm: HashKind, message: Seq<u8>) -> Seq<u8>;

/// `md5::Md5::new`: a fresh MD5 state, which has been fed nothing.
#[verifier::external_body]
fn md5_engine() -> (engine: Engine)
    ensures
        engine_algorithm(engine) == HashKind::Md5,
        engine_absorbed(engine) == Seq::<u8>::empty(),
{
    Engine { inner: Box::new(md5::Md5::new()) }
}

/// `sha1::Sha1::new`: a fresh SHA-1 state, which has been fed nothing.
#[verifier::external_body]
fn sha1_engine() -> (engine: Engine)
    ensures
        engine_algorithm(engine) == HashKind::Sha1,
        engine_absorbed(engine) == Seq::<u8>::empty(),
{
    Engine { inner: Box::new(sha1::Sha1::new()) }
}

/// `sha2::Sha224::new`: a fresh SHA-224 state, which has been fed nothing.
#[verifier::external_body]
fn sha224_engine() -> (engine: Engine)
    ensures
        engine_algorithm(engine) == HashKind::Sha224,
        engine_absorbed(engine) == Seq::<u8>::empty(),
{
    Engine { inner: Box::new(sha2::Sha224::new()) }
}

/// `sha2::Sha256::new`: a fresh SHA-256 state, which has been fed nothing.
#[verifier::external_body]
fn sha256_engine() -> (engine: Engine)
    ensures
        engine_algorithm(engine) == HashKind::Sha256,
        engine_absorbed(engine) == Seq::<u8>::empty(),
{
    Engine { inner: Box::new(sha2::Sha256::new()) }
}

/// `sha2::Sha384::new`: a fresh SHA-384 state, which has been fed nothing.
#[verifier::external_body]
fn sha384_engine() -> (engine: Engine)
    ensures
        engine_algorithm(engine) == HashKind::Sha384,
        engine_absorbed(engine) == Seq::<u8>::empty(),
{
    Engine { inner: Box::new(sha2::Sha384::new()) }
}

/// `sha2::Sha512::new`: a fresh SHA-512 state, which has been fed nothing.
#[verifier::external_body]
fn sha512_engine() -> (engine: Engine)
    ensures
        engine_algorithm(engine) == HashKind::Sha512,
        engine_absorbed(engine) == Seq::<u8>::empty(),
{
    Engine { inner: Box::new(sha2::Sha512::new()) }
}

/// `digest::DynDigest::update`: feeds `data` to the state. The state stays one
/// of the same algorithm, and `data` follows what it had been fed before;
/// the call can be repeated for a message that arrives in pieces.
#[verifier::external_body]
fn engine_update(engine: &mut Engine, data: &[u8])
    ensures
        engine_algorithm(*final(engine)) == engine_algorithm(*old(engine)),
        engine_absorbed(*final(engine)) == engine_absorbed(*old(engine)) + data@,
{
    engine.inner.update(data)
}

/// `digest::DynDigest::finalize`: consumes the state and gives the digest of
/// the bytes it was fed. The digest depends on the algorithm and those bytes
/// alone, and has the output size that the algorithm's crate declares
/// (16 bytes for MD5, 20 for SHA-1, 28, 32, 48 and 64 for the four of SHA-2).
#[verifier::external_body]
fn engine_finalize(engine: Engine) -> (digest: Vec<u8>)
    ensures
        digest@ == digest_of(engine_algorithm(engine), engine_absorbed(engine)),
        digest@.len() == engine_algorithm(engine).output_size(),
{
    engine.inner.finalize().into_vec()
}

/// An incremental hash state of a known algorithm.
///
/// A hasher is created empty, takes in any number of buffers and is
/// consumed when its digest is taken, so nothing can be fed to it afterwards.
pub struct Hasher {
    engine: Engine,
}

impl Hasher {
    /// The algorithm that this hasher computes.
    pub closed spec fn algorithm(self) -> HashKind {
        engine_algorithm(self.engine)
    }

    /// All the bytes fed to this hasher so far, in the order they came.
    pub closed spec fn absorbed(self) -> Seq<u8> {
        engine_absorbed(self.engine)
    }

    /// A hasher for `kind` that has taken in nothing yet.
    pub fn new(kind: HashKind) -> (hasher: Hasher)
        ensures
            hasher.algorithm() == kind,
            hasher.absorbed() == Seq::<u8>::empty(),
    {
        let engine = match kind {
            HashKind::Md5 => md5_engine(),
            HashKind::Sha1 => sha1_engine(),
            HashKind::Sha224 => sha224_engine(),
            HashKind::Sha256 => sha256_engine(),
            HashKind::Sha384 => sha384_engine(),
            HashKind::Sha512 => sha512_engine(),
        };
        Hasher { engine }
    }

    /// Feeds `data` to the hasher, after everything it was fed before.
    pub fn update(&mut self, data: &[u8])
        ensures
            final(self).algorithm() == old(self).algorithm(),
            final(self).absorbed() == old(self).absorbed() + data@,
    {
        engine_update(&mut self.engine, data);
    }

    /// Ends the computation: the digest of everything the hasher was fed,
    /// of the length that its algorithm fixes.
    pub fn finalize(self) -> (digest: Vec<u8>)
        ensures
            digest@ == digest_of(self.algorithm(), self.absorbed()),
            digest@.len() == self.algorithm().output_size(),
    {
        engine_finalize(self.engine)
    }
}

} // verus!
