//! A chunk of another buffer.
//!
//! A chunk addresses the `n`-th block of `len` frames of the wrapped
//! buffer: its own frame count is what the wrapped buffer spans beyond the
//! first `n` blocks, clamped at zero, and a resize request is translated
//! back into whole blocks before it is passed on.

use vstd::prelude::*;
use crate::buf::{BufInfo, ResizableBuf};

verus! {

/// A chunk of another buffer: block `n`, each block `len` frames long.
pub struct Chunk<B> {
    buf: B,
    n: usize,
    len: usize,
}

impl<B> Chunk<B> {
    /// The wrapped buffer.
    pub closed spec fn spec_buf(&self) -> B {
        self.buf
    }

    /// Which block the chunk addresses.
    pub closed spec fn spec_n(&self) -> int {
        self.n as int
    }

    /// How many frames one block spans.
    pub closed spec fn spec_len(&self) -> int {
        self.len as int
    }

    /// Construct a new limited buffer addressing block `n` of `len` frames.
    pub fn new(buf: B, n: usize, len: usize) -> (chunk: Chunk<B>)
        ensures
            chunk.spec_buf() == buf,
            chunk.spec_n() == n as int,
            chunk.spec_len() == len as int,
    {
        Chunk { buf, n, len }
    }
}

impl<B: BufInfo> BufInfo for Chunk<B> {
    /// The frames the wrapped buffer spans beyond the first `n` blocks,
    /// clamped at zero.
    closed spec fn spec_frames(&self) -> int {
        if self.buf.spec_frames() > self.spec_n() * self.spec_len() {
            self.buf.spec_frames() - self.spec_n() * self.spec_len()
        } else {
            0
        }
    }

    closed spec fn spec_channels(&self) -> int {
        self.buf.spec_channels()
    }

    fn buf_info_frames(&self) -> (frames: usize) {
        let parent = self.buf.buf_info_frames();
        match self.n.checked_mul(self.len) {
            Some(skipped) => parent.saturating_sub(skipped),
            None => 0,
        }
    }

    fn buf_info_channels(&self) -> (channels: usize) {
        self.buf.buf_info_channels()
    }
}

impl<B: ResizableBuf> ResizableBuf for Chunk<B> {
    fn resize(&mut self, frames: usize) {
        let frames = match frames.checked_add(self.n) {
            Some(blocks) => match blocks.checked_mul(self.len) {
                Some(target) => target,
                None => usize::MAX,
            },
            None => usize::MAX,
        };
        self.buf.resize(frames);
    }

    fn resize_topology(&mut self, channels: usize, frames: usize) {
        let frames = match frames.checked_add(self.n) {
            Some(blocks) => match blocks.checked_mul(self.len) {
                Some(target) => target,
                None => usize::MAX,
            },
            None => usize::MAX,
        };
        self.buf.resize_topology(channels, frames);
    }
}

/// What a chunk spans: the channels of the wrapped buffer, and its frames
/// past the first `n` blocks of `len` frames, clamped at zero.
pub proof fn lemma_chunk_shape<B: BufInfo>(chunk: &Chunk<B>)
    ensures
        chunk.spec_channels() == chunk.spec_buf().spec_channels(),
        chunk.spec_frames() == if chunk.spec_buf().spec_frames() > chunk.spec_n()
            * chunk.spec_len() {
            chunk.spec_buf().spec_frames() - chunk.spec_n() * chunk.spec_len()
        } else {
            0
        },
{
}

} // verus!
