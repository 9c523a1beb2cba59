use digester::chunked_stream::ChunkedStream;
use digester::error::DigestError;
use digester::post_process::{hex_encode, Encoding};
use digester::router::{advance, begin, digest_from, Progress, SourceEvent};

fn streamed(algorithm: &str, buffers: &[&[u8]]) -> Vec<u8> {
    let mut hasher = match begin(algorithm) {
        Ok(hasher) => hasher,
        Err(error) => panic!("{:?}", error),
    };
    for buffer in buffers {
        hasher = match advance(hasher, SourceEvent::Chunk(buffer.to_vec())) {
            Progress::Absorbing(next) => next,
            _ => panic!("a buffer must be absorbed"),
        };
    }
    match advance(hasher, SourceEvent::End) {
        Progress::Finished(digest) => digest,
        _ => panic!("the end must finish the digest"),
    }
}

#[test]
fn a_string_source_gives_one_buffer_once() {
    let mut source = ChunkedStream::from_string("héllo");
    assert_eq!(source.next_chunk(), Some("héllo".as_bytes().to_vec()));
    assert_eq!(source.next_chunk(), None);
    assert_eq!(source.next_chunk(), None);
}

#[test]
fn an_empty_string_source_gives_one_empty_buffer() {
    let mut source = ChunkedStream::from_string("");
    assert_eq!(source.next_chunk(), Some(Vec::new()));
    assert_eq!(source.next_chunk(), None);
}

#[test]
fn a_buffer_source_gives_its_buffers_in_order() {
    let mut source = ChunkedStream::from_buffers(vec![vec![1, 2], vec![], vec![3]]);
    assert_eq!(source.next_chunk(), Some(vec![1, 2]));
    assert_eq!(source.next_chunk(), Some(vec![]));
    assert_eq!(source.next_chunk(), Some(vec![3]));
    assert_eq!(source.next_chunk(), None);
    assert_eq!(ChunkedStream::from_buffers(Vec::new()).next_chunk(), None);
}

#[test]
fn digest_of_a_string_source() {
    let digest = digest_from(ChunkedStream::from_string("abc"), "sha256").unwrap();
    assert_eq!(
        hex_encode(&digest),
        "ba7816bf8f01cfea414140de5dae2223b00361a396177a9cb410ff61f20015ad"
    );
    let digest = digest_from(ChunkedStream::from_string("héllo"), "sha256").unwrap();
    assert_eq!(
        hex_encode(&digest),
        "3c48591d8d098a4538f5e013dfcf406e948eac4d3277b10bf614e295d6068179"
    );
}

#[test]
fn digest_of_the_empty_string() {
    let digest = digest_from(ChunkedStream::from_string(""), "md5").unwrap();
    assert_eq!(hex_encode(&digest), "d41d8cd98f00b204e9800998ecf8427e");
    assert_eq!(Encoding::Base64.encode(digest), "1B2M2Y8AsgTpgAmY7PhCfg==");
}

#[test]
fn digest_of_a_partly_drained_source_covers_what_is_left() {
    let mut source = ChunkedStream::from_buffers(vec![b"skipped".to_vec(), b"ab".to_vec(), b"c".to_vec()]);
    assert_eq!(source.next_chunk(), Some(b"skipped".to_vec()));
    let digest = digest_from(source, "sha1").unwrap();
    assert_eq!(hex_encode(&digest), "a9993e364706816aba3e25717850c26c9cd0d89d");
}

#[test]
fn the_cut_of_the_buffers_does_not_matter() {
    let content = "The quick brown fox jumps over the lazy dog";
    for algorithm in ["md5", "sha1", "sha224", "sha256", "sha384", "sha512"] {
        let from_string = digest_from(ChunkedStream::from_string(content), algorithm).unwrap();
        for size in [1, 2, 7, 16, 43, 64] {
            let buffers: Vec<Vec<u8>> = content.as_bytes().chunks(size).map(|c| c.to_vec()).collect();
            let pieces: Vec<&[u8]> = content.as_bytes().chunks(size).collect();
            let from_buffers = digest_from(ChunkedStream::from_buffers(buffers), algorithm).unwrap();
            assert_eq!(from_buffers, from_string);
            assert_eq!(streamed(algorithm, &pieces), from_string);
            for encoding in [Encoding::Hex, Encoding::Base64] {
                assert_eq!(encoding.encode(from_buffers.clone()), encoding.encode(from_string.clone()));
            }
        }
    }
}

#[test]
fn an_unknown_algorithm_fails_before_the_source_is_read() {
    assert_eq!(
        digest_from(ChunkedStream::from_string("abc"), "not-a-real-algorithm"),
        Err(DigestError::UnknownAlgorithm("not-a-real-algorithm".to_string()))
    );
    assert_eq!(
        digest_from(ChunkedStream::from_string("abc"), "sha2"),
        Err(DigestError::UnknownAlgorithm("sha2".to_string()))
    );
    assert!(matches!(
        begin("not-a-real-algorithm"),
        Err(DigestError::UnknownAlgorithm(name)) if name == "not-a-real-algorithm"
    ));
}

#[test]
fn a_failed_read_aborts_without_a_digest() {
    let hasher = begin("sha256").unwrap_or_else(|error| panic!("{:?}", error));
    let hasher = match advance(hasher, SourceEvent::Chunk(b"ab".to_vec())) {
        Progress::Absorbing(next) => next,
        _ => panic!("a buffer must be absorbed"),
    };
    match advance(hasher, SourceEvent::Failed("disk on fire".to_string())) {
        Progress::Aborted(error) => assert_eq!(error, DigestError::Io("disk on fire".to_string())),
        _ => panic!("a failed read must abort"),
    }
}

#[test]
fn the_end_without_buffers_gives_the_empty_digest() {
    assert_eq!(
        hex_encode(&streamed("sha256", &[])),
        "e3b0c44298fc1c149afbf4c8996fb92427ae41e4649b934ca495991b7852b855"
    );
}

#[test]
fn digests_have_the_length_of_the_algorithm() {
    let sizes = [("md5", 16), ("sha1", 20), ("sha224", 28), ("sha256", 32), ("sha384", 48), ("sha512", 64)];
    for (algorithm, size) in sizes {
        for text in ["", "abc", "a longer input than the others"] {
            assert_eq!(digest_from(ChunkedStream::from_string(text), algorithm).unwrap().len(), size);
        }
    }
}
