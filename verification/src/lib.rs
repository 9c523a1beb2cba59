//! Digests of strings and streamed byte sources under a runtime-selected
//! hash algorithm, rendered in a selectable text encoding.

pub mod algorithms;
pub mod chunked_stream;
pub mod cli;
pub mod error;
pub mod hasher;
pub mod post_process;
pub mod router;
pub mod text;
