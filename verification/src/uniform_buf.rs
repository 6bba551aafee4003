//! Buffers with a uniform channel size.
//!
//! Every channel of such a buffer spans the same frames, so a whole frame —
//! one sample per channel, all taken at the same offset — is a meaningful
//! unit to read across the channels.

use vstd::prelude::*;
use crate::buf::{Buf, BufInfo, Sample, Sequential};

verus! {

/// A buffer which has a uniform channel size.
pub trait UniformBuf<T: Sample>: Buf<T> {
    /// Get a single frame at the given offset: one sample per channel, or
    /// `None` past the end of the buffer.
    fn get_frame(&self, frame: usize) -> (samples: Option<Vec<T>>)
        requires
            self.spec_wf(),
        ensures
            (frame as int) < self.spec_frames() ==> {
                &&& samples is Some
                &&& samples->Some_0@.len() == self.spec_channels()
                &&& forall|c: int|
                    0 <= c < self.spec_channels() ==> samples->Some_0@[c]
                        == self.spec_data()[c][frame as int]
            },
            (frame as int) >= self.spec_frames() ==> samples is None,
    ;

    /// All the frames in the buffer, in order: frame by frame, one sample
    /// per channel.
    fn iter_frames(&self) -> (frames: Vec<Vec<T>>)
        requires
            self.spec_wf(),
        ensures
            frames@.len() == self.spec_frames(),
            forall|f: int|
                0 <= f < self.spec_frames() ==> (#[trigger] frames@[f])@.len()
                    == self.spec_channels(),
            forall|f: int, c: int|
                0 <= f < self.spec_frames() && 0 <= c < self.spec_channels()
                    ==> #[trigger] frames@[f]@[c] == self.spec_data()[c][f],
    ;
}

impl<T: Sample> UniformBuf<T> for Sequential<T> {
    fn get_frame(&self, frame: usize) -> (samples: Option<Vec<T>>) {
        let frames = self.buf_info_frames();
        if frame >= frames {
            return None;
        }
        let channels = self.buf_info_channels();
        let mut taken: Vec<T> = Vec::new();
        let mut c: usize = 0;
        while c < channels
            invariant
                c <= channels,
                self.spec_wf(),
                channels as int == self.spec_channels(),
                (frame as int) < self.spec_frames(),
                taken@.len() == c,
                forall|k: int| 0 <= k < c ==> taken@[k] == self.spec_data()[k][frame as int],
            decreases channels - c,
        {
            taken.push(self.sample_at(c, frame));
            c = c + 1;
        }
        Some(taken)
    }

    fn iter_frames(&self) -> (frames: Vec<Vec<T>>) {
        let total = self.buf_info_frames();
        let channels = self.buf_info_channels();
        let mut frames: Vec<Vec<T>> = Vec::new();
        let mut f: usize = 0;
        while f < total
            invariant
                f <= total,
                self.spec_wf(),
                total as int == self.spec_frames(),
                channels as int == self.spec_channels(),
                frames@.len() == f,
                forall|k: int|
                    0 <= k < f ==> (#[trigger] frames@[k])@.len() == self.spec_channels(),
                forall|k: int, c: int|
                    0 <= k < f && 0 <= c < self.spec_channels() ==> #[trigger] frames@[k]@[c]
                        == self.spec_data()[c][k],
            decreases total - f,
        {
            let mut row: Vec<T> = Vec::new();
            let mut c: usize = 0;
            while c < channels
                invariant
                    c <= channels,
                    f < total,
                    self.spec_wf(),
                    total as int == self.spec_frames(),
                    channels as int == self.spec_channels(),
                    row@.len() == c,
                    forall|k: int| 0 <= k < c ==> row@[k] == self.spec_data()[k][f as int],
                decreases channels - c,
            {
                row.push(self.sample_at(c, f));
                c = c + 1;
            }
            frames.push(row);
            f = f + 1;
        }
        frames
    }
}

} // verus!
