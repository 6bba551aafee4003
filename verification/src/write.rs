//! Writer and reader adapters that keep track of how many frames are left.
//!
//! [`Write`] wraps a buffer and counts the frames still available to write;
//! each `copy` or `translate` fills the tail of the buffer — its last
//! `available` frames — from the front of a source, and shrinks the count
//! by how many frames were taken. [`Read`] is the matching source adapter:
//! it wraps a buffer and counts the frames not yet consumed.

use vstd::prelude::*;
use crate::buf::{Buf, BufInfo, BufMut, ReadBuf, Sample, Translate};

verus! {

/// The smaller of two frame counts.
pub open spec fn min_frames(a: int, b: int) -> int {
    if a <= b {
        a
    } else {
        b
    }
}

/// A writer abstraction allowing a caller to keep track of how many frames
/// are remaining to write in the wrapped buffer.
pub struct Write<B> {
    buf: B,
    available: usize,
}

impl<B: BufInfo> Write<B> {
    /// The wrapped buffer.
    pub closed spec fn spec_buf(&self) -> B {
        self.buf
    }

    /// Frames still available to write.
    pub closed spec fn spec_available(&self) -> int {
        self.available as int
    }

    /// The writer never has more frames available than its buffer spans.
    pub open spec fn wf(&self) -> bool {
        self.spec_available() <= self.spec_buf().spec_frames()
    }

    /// Wrap a buffer; the whole of it is available to write.
    pub fn new(buf: B) -> (writer: Write<B>)
        ensures
            writer.wf(),
            writer.spec_buf() == buf,
            writer.spec_available() == buf.spec_frames(),
    {
        let available = buf.buf_info_frames();
        Write { buf, available }
    }

    /// Access the underlying buffer immutably.
    pub fn as_ref(&self) -> (buf: &B)
        ensures
            *buf == self.spec_buf(),
    {
        &self.buf
    }

    /// Access the underlying buffer mutably. The count of available frames
    /// is not adjusted: growing or shrinking the buffer through this
    /// reference is the caller's affair.
    pub fn as_mut(&mut self) -> (buf: &mut B)
        ensures
            *buf == old(self).spec_buf(),
            final(self).spec_buf() == *final(buf),
            final(self).spec_available() == old(self).spec_available(),
    {
        &mut self.buf
    }

    /// Test if the buffer has remaining frames to write.
    pub fn has_remaining_mut(&self) -> (more: bool)
        ensures
            more == (self.spec_available() > 0),
    {
        self.available > 0
    }

    /// Remaining number of frames available to write.
    pub fn remaining_mut(&self) -> (frames: usize)
        ensures
            frames as int == self.spec_available(),
    {
        self.available
    }

    /// Write to the underlying buffer: fill its tail — the last `available`
    /// frames — from the front of `buf`, channel by channel, and consume
    /// the frames taken. The number of frames taken is the smaller of the
    /// frames available here and the frames of `buf`; channels beyond those
    /// both buffers share, and every sample outside the filled region, keep
    /// their old values.
    pub fn copy<T, I>(&mut self, buf: I) where B: BufMut<T>, T: Sample, I: ReadBuf + Buf<T>
        requires
            old(self).wf(),
            old(self).spec_buf().spec_wf(),
            buf.spec_wf(),
        ensures
            final(self).wf(),
            final(self).spec_buf().spec_wf(),
            final(self).spec_available() == old(self).spec_available() - min_frames(
                old(self).spec_available(),
                buf.spec_frames(),
            ),
            final(self).spec_buf().spec_frames() == old(self).spec_buf().spec_frames(),
            final(self).spec_buf().spec_channels() == old(self).spec_buf().spec_channels(),
            forall|c: int, i: int|
                0 <= c < min_frames(old(self).spec_buf().spec_channels(), buf.spec_channels())
                    && 0 <= i < min_frames(old(self).spec_available(), buf.spec_frames())
                    ==> final(self).spec_buf().spec_data()[c][old(self).spec_buf().spec_frames()
                    - old(self).spec_available() + i] == buf.spec_data()[c][i],
            forall|c: int, i: int|
                0 <= c < old(self).spec_buf().spec_channels() && 0 <= i < old(
                    self,
                ).spec_buf().spec_frames() && !(c < buf.spec_channels() && old(
                    self,
                ).spec_buf().spec_frames() - old(self).spec_available() <= i < old(
                    self,
                ).spec_buf().spec_frames() - old(self).spec_available() + min_frames(
                    old(self).spec_available(),
                    buf.spec_frames(),
                )) ==> final(self).spec_buf().spec_data()[c][i] == old(
                    self,
                ).spec_buf().spec_data()[c][i],
    {
        let mut buf = buf;
        let avail = self.available;
        let dst_frames = self.buf.buf_info_frames();
        let src_frames = buf.buf_info_frames();
        let taken = if avail < src_frames {
            avail
        } else {
            src_frames
        };
        let start = dst_frames - avail;
        let dst_channels = self.buf.buf_info_channels();
        let src_channels = buf.buf_info_channels();
        let shared = if dst_channels < src_channels {
            dst_channels
        } else {
            src_channels
        };
        let ghost dst0 = self.buf;
        let mut c: usize = 0;
        while c < shared
            invariant
                c <= shared,
                (shared as int) == min_frames(dst0.spec_channels(), buf.spec_channels()),
                (taken as int) == min_frames(avail as int, buf.spec_frames()),
                (avail as int) <= dst0.spec_frames(),
                dst0.spec_frames() <= usize::MAX as int,
                (start as int) == dst0.spec_frames() - avail,
                dst0.spec_wf(),
                buf.spec_wf(),
                self.buf.spec_wf(),
                self.buf.spec_frames() == dst0.spec_frames(),
                self.buf.spec_channels() == dst0.spec_channels(),
                self.available == avail,
                forall|cc: int, ii: int|
                    0 <= cc < c && 0 <= ii < taken ==> self.buf.spec_data()[cc][start + ii]
                        == buf.spec_data()[cc][ii],
                forall|cc: int, ii: int|
                    0 <= cc < dst0.spec_channels() && 0 <= ii < dst0.spec_frames() && !(cc < c
                        && start <= ii < start + taken) ==> self.buf.spec_data()[cc][ii]
                        == dst0.spec_data()[cc][ii],
            decreases shared - c,
        {
            let mut i: usize = 0;
            while i < taken
                invariant
                    c < shared,
                    i <= taken,
                    (shared as int) == min_frames(dst0.spec_channels(), buf.spec_channels()),
                    (taken as int) == min_frames(avail as int, buf.spec_frames()),
                    (avail as int) <= dst0.spec_frames(),
                    dst0.spec_frames() <= usize::MAX as int,
                    (start as int) == dst0.spec_frames() - avail,
                    dst0.spec_wf(),
                    buf.spec_wf(),
                    self.buf.spec_wf(),
                    self.buf.spec_frames() == dst0.spec_frames(),
                    self.buf.spec_channels() == dst0.spec_channels(),
                    self.available == avail,
                    forall|cc: int, ii: int|
                        0 <= cc < c && 0 <= ii < taken ==> self.buf.spec_data()[cc][start + ii]
                            == buf.spec_data()[cc][ii],
                    forall|ii: int|
                        0 <= ii < i ==> self.buf.spec_data()[c as int][start + ii]
                            == buf.spec_data()[c as int][ii],
                    forall|cc: int, ii: int|
                        0 <= cc < dst0.spec_channels() && 0 <= ii < dst0.spec_frames() && !(cc < c
                            && start <= ii < start + taken) && !(cc == c && start <= ii < start
                            + i) ==> self.buf.spec_data()[cc][ii] == dst0.spec_data()[cc][ii],
                decreases taken - i,
            {
                proof {
                    self.buf.data_shape();
                    buf.data_shape();
                }
                let sample = buf.sample_at(c, i);
                self.buf.set_sample(c, start + i, sample);
                proof {
                    self.buf.data_shape();
                }
                i = i + 1;
            }
            c = c + 1;
        }
        self.available = avail - taken;
        buf.advance(taken);
    }

    /// Write translated samples to the underlying buffer: as `copy`, but
    /// each sample taken from `buf` is translated into the destination's
    /// sample type on the way, and the number of frames taken is the
    /// smaller of the frames available here and the frames `buf` has left
    /// to read.
    pub fn translate<T, I, U>(&mut self, buf: I) where
        B: BufMut<T>,
        T: Sample + Translate<U>,
        I: ReadBuf + Buf<U>,
        U: Sample,

        requires
            old(self).wf(),
            old(self).spec_buf().spec_wf(),
            buf.spec_wf(),
            buf.spec_remaining() <= buf.spec_frames(),
        ensures
            final(self).wf(),
            final(self).spec_buf().spec_wf(),
            final(self).spec_available() == old(self).spec_available() - min_frames(
                old(self).spec_available(),
                buf.spec_remaining(),
            ),
            final(self).spec_buf().spec_frames() == old(self).spec_buf().spec_frames(),
            final(self).spec_buf().spec_channels() == old(self).spec_buf().spec_channels(),
            forall|c: int, i: int|
                0 <= c < min_frames(old(self).spec_buf().spec_channels(), buf.spec_channels())
                    && 0 <= i < min_frames(old(self).spec_available(), buf.spec_remaining())
                    ==> final(self).spec_buf().spec_data()[c][old(self).spec_buf().spec_frames()
                    - old(self).spec_available() + i] == T::spec_translate(
                    buf.spec_data()[c][i],
                ),
            forall|c: int, i: int|
                0 <= c < old(self).spec_buf().spec_channels() && 0 <= i < old(
                    self,
                ).spec_buf().spec_frames() && !(c < buf.spec_channels() && old(
                    self,
                ).spec_buf().spec_frames() - old(self).spec_available() <= i < old(
                    self,
                ).spec_buf().spec_frames() - old(self).spec_available() + min_frames(
                    old(self).spec_available(),
                    buf.spec_remaining(),
                )) ==> final(self).spec_buf().spec_data()[c][i] == old(
                    self,
                ).spec_buf().spec_data()[c][i],
    {
        let mut buf = buf;
        let avail = self.available;
        let dst_frames = self.buf.buf_info_frames();
        let src_left = buf.remaining();
        let taken = if avail < src_left {
            avail
        } else {
            src_left
        };
        let start = dst_frames - avail;
        let dst_channels = self.buf.buf_info_channels();
        let src_channels = buf.buf_info_channels();
        let shared = if dst_channels < src_channels {
            dst_channels
        } else {
            src_channels
        };
        let ghost dst0 = self.buf;
        let mut c: usize = 0;
        while c < shared
            invariant
                c <= shared,
                (shared as int) == min_frames(dst0.spec_channels(), buf.spec_channels()),
                (taken as int) == min_frames(avail as int, buf.spec_remaining()),
                (taken as int) <= buf.spec_frames(),
                (avail as int) <= dst0.spec_frames(),
                dst0.spec_frames() <= usize::MAX as int,
                (start as int) == dst0.spec_frames() - avail,
                dst0.spec_wf(),
                buf.spec_wf(),
                self.buf.spec_wf(),
                self.buf.spec_frames() == dst0.spec_frames(),
                self.buf.spec_channels() == dst0.spec_channels(),
                self.available == avail,
                forall|cc: int, ii: int|
                    0 <= cc < c && 0 <= ii < taken ==> self.buf.spec_data()[cc][start + ii]
                        == T::spec_translate(buf.spec_data()[cc][ii]),
                forall|cc: int, ii: int|
                    0 <= cc < dst0.spec_channels() && 0 <= ii < dst0.spec_frames() && !(cc < c
                        && start <= ii < start + taken) ==> self.buf.spec_data()[cc][ii]
                        == dst0.spec_data()[cc][ii],
            decreases shared - c,
        {
            let mut i: usize = 0;
            while i < taken
                invariant
                    c < shared,
                    i <= taken,
                    (shared as int) == min_frames(dst0.spec_channels(), buf.spec_channels()),
                    (taken as int) == min_frames(avail as int, buf.spec_remaining()),
                    (taken as int) <= buf.spec_frames(),
                    (avail as int) <= dst0.spec_frames(),
                    dst0.spec_frames() <= usize::MAX as int,
                    (start as int) == dst0.spec_frames() - avail,
                    dst0.spec_wf(),
                    buf.spec_wf(),
                    self.buf.spec_wf(),
                    self.buf.spec_frames() == dst0.spec_frames(),
                    self.buf.spec_channels() == dst0.spec_channels(),
                    self.available == avail,
                    forall|cc: int, ii: int|
                        0 <= cc < c && 0 <= ii < taken ==> self.buf.spec_data()[cc][start + ii]
                            == T::spec_translate(buf.spec_data()[cc][ii]),
                    forall|ii: int|
                        0 <= ii < i ==> self.buf.spec_data()[c as int][start + ii]
                            == T::spec_translate(buf.spec_data()[c as int][ii]),
                    forall|cc: int, ii: int|
                        0 <= cc < dst0.spec_channels() && 0 <= ii < dst0.spec_frames() && !(cc < c
                            && start <= ii < start + taken) && !(cc == c && start <= ii < start
                            + i) ==> self.buf.spec_data()[cc][ii] == dst0.spec_data()[cc][ii],
                decreases taken - i,
            {
                proof {
                    self.buf.data_shape();
                    buf.data_shape();
                }
                let sample = T::translate(buf.sample_at(c, i));
                self.buf.set_sample(c, start + i, sample);
                proof {
                    self.buf.data_shape();
                }
                i = i + 1;
            }
            c = c + 1;
        }
        self.available = avail - taken;
        buf.advance(taken);
    }
}

/// A reader over a buffer, tracking how many frames are left to read.
pub struct Read<B> {
    buf: B,
    available: usize,
}

impl<B: BufInfo> Read<B> {
    /// The wrapped buffer.
    pub closed spec fn spec_buf(&self) -> B {
        self.buf
    }

    /// Wrap a buffer; the whole of it is there to read.
    pub fn new(buf: B) -> (reader: Read<B>)
        ensures
            reader.spec_buf() == buf,
            reader.spec_remaining() == buf.spec_frames(),
    {
        let available = buf.buf_info_frames();
        Read { buf, available }
    }
}

impl<B: BufInfo> ReadBuf for Read<B> {
    closed spec fn spec_remaining(&self) -> int {
        self.available as int
    }

    fn remaining(&self) -> (frames: usize) {
        self.available
    }

    fn has_remaining(&self) -> (more: bool) {
        self.available > 0
    }

    fn advance(&mut self, frames: usize) {
        self.available = self.available.saturating_sub(frames);
    }
}

impl<B: BufInfo> BufInfo for Read<B> {
    closed spec fn spec_frames(&self) -> int {
        self.buf.spec_frames()
    }

    closed spec fn spec_channels(&self) -> int {
        self.buf.spec_channels()
    }

    fn buf_info_frames(&self) -> (frames: usize) {
        self.buf.buf_info_frames()
    }

    fn buf_info_channels(&self) -> (channels: usize) {
        self.buf.buf_info_channels()
    }
}

impl<T: Sample, B: Buf<T>> Buf<T> for Read<B> {
    closed spec fn spec_wf(&self) -> bool {
        self.buf.spec_wf()
    }

    closed spec fn spec_data(&self) -> Seq<Seq<T>> {
        self.buf.spec_data()
    }

    proof fn data_shape(&self) {
        self.buf.data_shape();
    }

    fn sample_at(&self, channel: usize, frame: usize) -> (sample: T) {
        self.buf.sample_at(channel, frame)
    }
}

} // verus!
