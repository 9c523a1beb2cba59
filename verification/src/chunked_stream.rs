//! A one-shot source of byte buffers: each buffer is handed out once, in
//! order, and the source is exhausted after one traversal.

use std::collections::VecDeque;
use vstd::prelude::*;
use vstd::string::*;
use vstd::utf8::*;

verus! {

/// The contents of each of `buffers`, in order.
pub open spec fn buffer_views(buffers: Seq<Vec<u8>>) -> Seq<Seq<u8>> {
    buffers.map_values(|buffer: Vec<u8>| buffer@)
}

/// A finite sequence of byte buffers that can be traversed once.
pub struct ChunkedStream {
    pending: VecDeque<Vec<u8>>,
}

impl ChunkedStream {
    /// The buffers that the source has yet to hand out, next first.
    pub closed spec fn remaining(self) -> Seq<Seq<u8>> {
        buffer_views(self.pending@)
    }

    /// A source that hands out the UTF-8 bytes of `text` as a single buffer.
    pub fn from_string(text: &str) -> (source: ChunkedStream)
        ensures
            source.remaining() == seq![encode_utf8(text@)],
    {
        let mut pending: VecDeque<Vec<u8>> = VecDeque::new();
        pending.push_back(text.as_bytes_vec());
        assert(buffer_views(pending@) =~= seq![encode_utf8(text@)]);
        ChunkedStream { pending }
    }

    /// A source that hands out `buffers` one by one, first to last.
    pub fn from_buffers(buffers: Vec<Vec<u8>>) -> (source: ChunkedStream)
        ensures
            source.remaining() == buffer_views(buffers@),
    {
        let ghost all = buffers@;
        let mut rest = buffers;
        let mut pending: VecDeque<Vec<u8>> = VecDeque::new();
        loop
            invariant
                rest@ + pending@ =~= all,
            ensures
                pending@ =~= all,
            decreases rest@.len(),
        {
            match rest.pop() {
                Some(buffer) => {
                    pending.push_front(buffer);
                },
                None => {
                    break ;
                },
            }
        }
        ChunkedStream { pending }
    }

    /// Hands out the next buffer, or nothing once the source is exhausted.
    /// A buffer that was handed out is gone from the source.
    pub fn next_chunk(&mut self) -> (chunk: Option<Vec<u8>>)
        ensures
            match chunk {
                Some(buffer) => old(self).remaining().len() > 0 && buffer@ == old(
                    self,
                ).remaining().first() && final(self).remaining() == old(
                    self,
                ).remaining().drop_first(),
                None => old(self).remaining().len() == 0 && final(self).remaining() == old(
                    self,
                ).remaining(),
            },
    {
        let chunk = self.pending.pop_front();
        proof {
            if chunk is Some {
                assert(buffer_views(self.pending@) =~= buffer_views(
                    old(self).pending@,
                ).drop_first());
            }
        }
        chunk
    }
}

} // verus!
