//! The digest router: resolves an algorithm by name, drains a source of
//! buffers through it in order, and returns the finished digest.
//!
//! A source that lives in memory is drained by [`digest_from`]. A source
//! that has to be read from outside is driven by its reader: [`begin`]
//! resolves the algorithm before anything is read, and [`advance`] takes
//! what each read gave, one event at a time.

use crate::algorithms::{lookup, HashKind};
use crate::chunked_stream::ChunkedStream;
use crate::error::DigestError;
use crate::hasher::{digest_of, Hasher};
use vstd::prelude::*;
use vstd::string::*;

verus! {

/// What one request for the next buffer of a source gave.
#[derive(Debug)]
pub enum SourceEvent {
    /// The next buffer of the source.
    Chunk(Vec<u8>),
    /// The source is exhausted.
    End,
    /// Reading failed; carries the cause as text.
    Failed(String),
}

/// Where a computation stands after an event.
pub enum Progress {
    /// The buffer was taken in; the computation awaits the next event.
    Absorbing(Hasher),
    /// The source ended; this is the digest of all that it gave.
    Finished(Vec<u8>),
    /// Reading failed; there is no digest.
    Aborted(DigestError),
}

/// The digest of a sequence of buffers under `kind`: that of their bytes in
/// order, wherever one buffer ends and the next begins.
pub open spec fn digest_of_chunks(kind: HashKind, chunks: Seq<Seq<u8>>) -> Seq<u8> {
    digest_of(kind, chunks.flatten())
}

/// The bytes of a sequence of buffers are those of its first buffer followed
/// by those of the others.
proof fn lemma_flatten_first(chunks: Seq<Seq<u8>>)
    requires
        chunks.len() > 0,
    ensures
        chunks.flatten() == chunks.first() + chunks.drop_first().flatten(),
{
}

/// A single buffer holds just its own bytes.
pub proof fn lemma_flatten_single(chunk: Seq<u8>)
    ensures
        seq![chunk].flatten() == chunk,
{
    let one = seq![chunk];
    assert(one.drop_first() =~= Seq::<Seq<u8>>::empty());
    assert(one.drop_first().flatten() =~= Seq::<u8>::empty());
    assert(one.flatten() =~= chunk);
}

/// Two sequences of buffers that hold the same bytes have the same digest
/// under every algorithm: it does not matter how the bytes are cut up.
pub proof fn lemma_chunking_is_irrelevant(kind: HashKind, one: Seq<Seq<u8>>, other: Seq<Seq<u8>>)
    requires
        one.flatten() == other.flatten(),
    ensures
        digest_of_chunks(kind, one) == digest_of_chunks(kind, other),
{
}

/// Resolves `algorithm` and creates its hasher, before any byte of the input
/// is looked at. A name that is no leaf of the registry is handed back as
/// an unknown algorithm.
pub fn begin(algorithm: &str) -> (started: Result<Hasher, DigestError>)
    ensures
        match HashKind::named(algorithm@) {
            Some(kind) => started matches Ok(hasher) && hasher.algorithm() == kind
                && hasher.absorbed() == Seq::<u8>::empty(),
            None => started matches Err(DigestError::UnknownAlgorithm(unknown)) && unknown@
                == algorithm@,
        },
{
    match lookup(algorithm) {
        Ok(kind) => Ok(Hasher::new(kind)),
        Err(unknown) => Err(unknown),
    }
}

/// Takes one event of the source into the computation.
///
/// A buffer is fed to the hasher after all earlier ones. The end of the
/// source finishes the hasher and gives the digest of everything fed. A
/// failed read ends the computation with an I/O error and no digest.
pub fn advance(hasher: Hasher, event: SourceEvent) -> (progress: Progress)
    ensures
        match event {
            SourceEvent::Chunk(buffer) => progress matches Progress::Absorbing(next)
                && next.algorithm() == hasher.algorithm() && next.absorbed() == hasher.absorbed()
                + buffer@,
            SourceEvent::End => progress matches Progress::Finished(digest) && digest@
                == digest_of(hasher.algorithm(), hasher.absorbed()) && digest@.len()
                == hasher.algorithm().output_size(),
            SourceEvent::Failed(cause) => progress matches Progress::Aborted(
                DigestError::Io(message),
            ) && message@ == cause@,
        },
{
    match event {
        SourceEvent::Chunk(buffer) => {
            let mut next = hasher;
            next.update(buffer.as_slice());
            Progress::Absorbing(next)
        },
        SourceEvent::End => Progress::Finished(hasher.finalize()),
        SourceEvent::Failed(cause) => Progress::Aborted(DigestError::Io(cause)),
    }
}

/// Computes the digest of everything `data` has yet to hand out, under the
/// algorithm that `algorithm` names.
///
/// The name is resolved first: an unknown name fails before a single buffer
/// is requested. Otherwise every buffer is fed to the hasher in the order
/// the source gives them, and the digest has the algorithm's fixed length.
pub fn digest_from(data: ChunkedStream, algorithm: &str) -> (digest: Result<Vec<u8>, DigestError>)
    ensures
        match HashKind::named(algorithm@) {
            Some(kind) => digest matches Ok(bytes) && bytes@ == digest_of_chunks(
                kind,
                data.remaining(),
            ) && bytes@.len() == kind.output_size(),
            None => digest matches Err(DigestError::UnknownAlgorithm(unknown)) && unknown@
                == algorithm@,
        },
{
    let mut hasher = match begin(algorithm) {
        Ok(hasher) => hasher,
        Err(unknown) => {
            return Err(unknown);
        },
    };
    let ghost kind = hasher.algorithm();
    let ghost all = data.remaining();
    let mut source = data;
    loop
        invariant
            hasher.algorithm() == kind,
            hasher.absorbed() + source.remaining().flatten() == all.flatten(),
        ensures
            hasher.algorithm() == kind,
            hasher.absorbed() == all.flatten(),
        decreases source.remaining().len(),
    {
        let ghost before = source.remaining();
        let ghost fed = hasher.absorbed();
        match source.next_chunk() {
            Some(buffer) => {
                hasher.update(buffer.as_slice());
                proof {
                    lemma_flatten_first(before);
                    assert((fed + buffer@) + before.drop_first().flatten() =~= fed + (buffer@
                        + before.drop_first().flatten()));
                }
            },
            None => {
                proof {
                    assert(before.flatten() =~= Seq::<u8>::empty());
                    assert(fed + Seq::<u8>::empty() =~= fed);
                }
                break ;
            },
        }
    }
    Ok(hasher.finalize())
}

} // verus!
