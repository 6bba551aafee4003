//! Buffer traits and a concrete sequential buffer.
//!
//! These are the collaborators layered beside the executor: shapes of audio
//! buffers described by frame and channel counts, with their contents
//! modelled as one sequence of samples per channel. [`Sequential`] stores
//! every channel as its own run of samples and implements the whole family
//! of traits, so the adapters in the neighbouring modules have a verified
//! buffer to wrap.

use vstd::prelude::*;

verus! {

/// A sample value: the element type an audio buffer stores.
pub trait Sample: Copy + Sized {
    /// The silent sample, used to fill freshly grown regions.
    fn zero() -> Self;
}

impl Sample for i16 {
    fn zero() -> i16 {
        0
    }
}

impl Sample for i32 {
    fn zero() -> i32 {
        0
    }
}

/// A sample type that can be built from another sample type.
pub trait Translate<U: Sample>: Sized {
    /// What translating each source sample yields.
    spec fn spec_translate(value: U) -> Self;

    /// Translate one sample.
    fn translate(value: U) -> (translated: Self)
        ensures
            translated == Self::spec_translate(value),
    ;
}

impl Translate<i16> for i16 {
    open spec fn spec_translate(value: i16) -> i16 {
        value
    }

    fn translate(value: i16) -> (translated: i16) {
        value
    }
}

impl Translate<i16> for i32 {
    open spec fn spec_translate(value: i16) -> i32 {
        (value * 65536) as i32
    }

    fn translate(value: i16) -> (translated: i32) {
        (value as i32) * 65536
    }
}

/// Frame and channel bookkeeping common to every buffer shape.
pub trait BufInfo {
    /// How many frames the buffer spans.
    spec fn spec_frames(&self) -> int;

    /// How many channels the buffer holds.
    spec fn spec_channels(&self) -> int;

    /// The number of frames in the buffer.
    fn buf_info_frames(&self) -> (frames: usize)
        ensures
            frames as int == self.spec_frames(),
    ;

    /// The number of channels in the buffer.
    fn buf_info_channels(&self) -> (channels: usize)
        ensures
            channels as int == self.spec_channels(),
    ;
}

/// A readable buffer: its contents as one sequence of samples per channel.
pub trait Buf<T: Sample>: BufInfo {
    /// Whether the stored data agrees with the advertised shape.
    spec fn spec_wf(&self) -> bool;

    /// The stored samples, channel by channel.
    spec fn spec_data(&self) -> Seq<Seq<T>>;

    /// A well-shaped buffer has one row per channel and one sample per
    /// frame in every row.
    proof fn data_shape(&self)
        requires
            self.spec_wf(),
        ensures
            self.spec_data().len() == self.spec_channels(),
            forall|c: int|
                0 <= c < self.spec_data().len() ==> (#[trigger] self.spec_data()[c]).len()
                    == self.spec_frames(),
    ;

    /// Read one sample.
    fn sample_at(&self, channel: usize, frame: usize) -> (sample: T)
        requires
            self.spec_wf(),
            (channel as int) < self.spec_channels(),
            (frame as int) < self.spec_frames(),
        ensures
            sample == self.spec_data()[channel as int][frame as int],
    ;
}

/// A writable buffer.
pub trait BufMut<T: Sample>: Buf<T> {
    /// Overwrite one sample, leaving the shape and every other sample as
    /// they were.
    fn set_sample(&mut self, channel: usize, frame: usize, sample: T)
        requires
            old(self).spec_wf(),
            (channel as int) < old(self).spec_channels(),
            (frame as int) < old(self).spec_frames(),
        ensures
            final(self).spec_wf(),
            final(self).spec_channels() == old(self).spec_channels(),
            final(self).spec_frames() == old(self).spec_frames(),
            final(self).spec_data() == old(self).spec_data().update(
                channel as int,
                old(self).spec_data()[channel as int].update(frame as int, sample),
            ),
    ;
}

/// A reader over a buffer: tracks how many frames are left to read.
pub trait ReadBuf {
    /// Frames not yet consumed.
    spec fn spec_remaining(&self) -> int;

    /// The number of frames remaining.
    fn remaining(&self) -> (frames: usize)
        ensures
            frames as int == self.spec_remaining(),
    ;

    /// Whether any frames remain.
    fn has_remaining(&self) -> (more: bool)
        ensures
            more == (self.spec_remaining() > 0),
    ;

    /// Consume `frames` frames, or all of them when fewer remain.
    fn advance(&mut self, frames: usize)
        ensures
            final(self).spec_remaining() == if frames as int <= old(self).spec_remaining() {
                old(self).spec_remaining() - frames as int
            } else {
                0
            },
    ;
}

/// A buffer whose shape can be changed in place.
pub trait ResizableBuf: BufInfo {
    /// Ask for room for `frames` frames, keeping the channel count. An
    /// adapter may translate the requested count into its own terms, so
    /// only the channel count is promised here.
    fn resize(&mut self, frames: usize)
        ensures
            final(self).spec_channels() == old(self).spec_channels(),
    ;

    /// Ask for room for `channels` channels of `frames` frames each.
    fn resize_topology(&mut self, channels: usize, frames: usize)
        ensures
            final(self).spec_channels() == channels as int,
    ;
}

/// A sequential buffer: every channel stored as its own run of samples.
pub struct Sequential<T> {
    channels: Vec<Vec<T>>,
    frames: usize,
}

impl<T: Sample> Sequential<T> {
    /// Build a buffer of `channels` channels, each `frames` silent samples.
    pub fn new(channels: usize, frames: usize) -> (buf: Sequential<T>)
        ensures
            buf.spec_wf(),
            buf.spec_channels() == channels as int,
            buf.spec_frames() == frames as int,
    {
        let mut rows: Vec<Vec<T>> = Vec::new();
        let mut c: usize = 0;
        while c < channels
            invariant
                c <= channels,
                rows@.len() == c,
                forall|k: int| 0 <= k < c ==> (#[trigger] rows@[k])@.len() == frames as int,
            decreases channels - c,
        {
            let mut row: Vec<T> = Vec::new();
            let mut f: usize = 0;
            while f < frames
                invariant
                    f <= frames,
                    row@.len() == f,
                decreases frames - f,
            {
                row.push(T::zero());
                f = f + 1;
            }
            rows.push(row);
            c = c + 1;
        }
        Sequential { channels: rows, frames }
    }
}

impl<T: Sample> BufInfo for Sequential<T> {
    closed spec fn spec_frames(&self) -> int {
        self.frames as int
    }

    closed spec fn spec_channels(&self) -> int {
        self.channels@.len() as int
    }

    fn buf_info_frames(&self) -> (frames: usize) {
        self.frames
    }

    fn buf_info_channels(&self) -> (channels: usize) {
        self.channels.len()
    }
}

impl<T: Sample> Buf<T> for Sequential<T> {
    closed spec fn spec_wf(&self) -> bool {
        forall|c: int|
            0 <= c < self.channels@.len() ==> (#[trigger] self.channels@[c])@.len()
                == self.frames as int
    }

    closed spec fn spec_data(&self) -> Seq<Seq<T>> {
        self.channels@.map_values(|row: Vec<T>| row@)
    }

    proof fn data_shape(&self) {
    }

    fn sample_at(&self, channel: usize, frame: usize) -> (sample: T) {
        self.channels[channel][frame]
    }
}

impl<T: Sample> BufMut<T> for Sequential<T> {
    fn set_sample(&mut self, channel: usize, frame: usize, sample: T) {
        self.channels[channel][frame] = sample;
        proof {
            assert(self.spec_data() =~= old(self).spec_data().update(
                channel as int,
                old(self).spec_data()[channel as int].update(frame as int, sample),
            ));
        }
    }
}

impl<T: Sample> ResizableBuf for Sequential<T> {
    fn resize(&mut self, frames: usize) {
        let total = self.channels.len();
        let mut c: usize = 0;
        while c < total
            invariant
                c <= total,
                self.channels@.len() == total,
                self.frames == old(self).frames,
                forall|k: int| 0 <= k < c ==> (#[trigger] self.channels@[k])@.len() == frames as int,
            decreases total - c,
        {
            self.channels[c].resize(frames, T::zero());
            c = c + 1;
        }
        self.frames = frames;
    }

    fn resize_topology(&mut self, channels: usize, frames: usize) {
        while self.channels.len() > channels
            invariant
                self.frames == old(self).frames,
            decreases self.channels@.len(),
        {
            self.channels.pop();
        }
        while self.channels.len() < channels
            invariant
                self.channels@.len() <= channels,
                self.frames == old(self).frames,
            decreases channels - self.channels@.len(),
        {
            self.channels.push(Vec::new());
        }
        let mut c: usize = 0;
        while c < channels
            invariant
                c <= channels,
                self.channels@.len() == channels,
                self.frames == old(self).frames,
            decreases channels - c,
        {
            self.channels[c].resize(frames, T::zero());
            c = c + 1;
        }
        self.frames = frames;
    }
}

} // verus!
