//! Iteration over the channels of a sequentially stored buffer.
//!
//! A sequentially stored buffer keeps its channels one after another in a
//! single run of samples. [`Iter`] and [`IterMut`] split such a run into
//! its complete channels of `frames` samples each — any trailing partial
//! channel is ignored — and hand the channels out from either end.

use vstd::prelude::*;
use vstd::arithmetic::div_mod::lemma_fundamental_div_mod_converse;

verus! {

/// Split `data` into its complete chunks of `frames` samples each.
fn split_chunks<T: Copy>(data: &Vec<T>, frames: usize) -> (chunks: Vec<Vec<T>>)
    requires
        frames >= 1,
    ensures
        chunks@.len() == data@.len() as int / frames as int,
        forall|k: int|
            0 <= k < chunks@.len() ==> (#[trigger] chunks@[k])@ == data@.subrange(
                k * (frames as int),
                (k + 1) * (frames as int),
            ),
{
    let total = data.len();
    let mut chunks: Vec<Vec<T>> = Vec::new();
    let mut pos: usize = 0;
    proof {
        assert(chunks@.len() * (frames as int) == 0) by (nonlinear_arith)
            requires chunks@.len() == 0;
    }
    while total - pos >= frames
        invariant
            frames >= 1,
            pos <= total,
            total == data@.len(),
            pos as int == chunks@.len() * (frames as int),
            forall|k: int|
                0 <= k < chunks@.len() ==> (#[trigger] chunks@[k])@ == data@.subrange(
                    k * (frames as int),
                    (k + 1) * (frames as int),
                ),
        decreases total - pos,
    {
        let mut chunk: Vec<T> = Vec::new();
        let mut j: usize = 0;
        while j < frames
            invariant
                j <= frames,
                frames <= total - pos,
                pos <= total,
                total == data@.len(),
                chunk@ == data@.subrange(pos as int, pos as int + j as int),
            decreases frames - j,
        {
            chunk.push(data[pos + j]);
            proof {
                assert(chunk@ =~= data@.subrange(pos as int, pos as int + j as int + 1));
            }
            j = j + 1;
        }
        let ghost filled = chunks@.len() as int;
        chunks.push(chunk);
        proof {
            assert((filled + 1) * (frames as int) == filled * (frames as int) + frames as int)
                by (nonlinear_arith);
        }
        pos = pos + frames;
    }
    proof {
        let n = chunks@.len() as int;
        let f = frames as int;
        let t = total as int;
        assert(n * f <= t < n * f + f);
        lemma_fundamental_div_mod_converse(t, f, n, t - n * f);
    }
    chunks
}

/// An iterator over the channels in a sequentially stored buffer.
pub struct Iter<T> {
    chunks: Vec<Vec<T>>,
    front: usize,
    back: usize,
}

impl<T: Copy> Iter<T> {
    /// Whether the window of channels not yet handed out is in bounds.
    pub closed spec fn wf(&self) -> bool {
        self.front <= self.back <= self.chunks@.len()
    }

    /// The channels not yet handed out, front first.
    pub closed spec fn remaining(&self) -> Seq<Seq<T>> {
        Seq::new(
            (self.back - self.front) as nat,
            |k: int| self.chunks@[self.front + k]@,
        )
    }

    /// Split `data` into its complete channels of `frames` samples each.
    pub fn new(data: Vec<T>, frames: usize) -> (iter: Iter<T>)
        requires
            frames >= 1,
        ensures
            iter.wf(),
            iter.remaining().len() == data@.len() as int / frames as int,
            forall|k: int|
                0 <= k < iter.remaining().len() ==> iter.remaining()[k] == data@.subrange(
                    k * (frames as int),
                    (k + 1) * (frames as int),
                ),
    {
        let chunks = split_chunks(&data, frames);
        let back = chunks.len();
        Iter { chunks, front: 0, back }
    }

    /// The next channel from the front, or `None` when none are left.
    pub fn next(&mut self) -> (channel: Option<Vec<T>>)
        requires
            old(self).wf(),
        ensures
            final(self).wf(),
            old(self).remaining().len() == 0 ==> channel is None && final(self).remaining()
                == old(self).remaining(),
            old(self).remaining().len() > 0 ==> {
                &&& channel is Some
                &&& channel->Some_0@ == old(self).remaining()[0]
                &&& final(self).remaining() == old(self).remaining().skip(1)
            },
    {
        if self.front < self.back {
            let channel = copy_row(&self.chunks[self.front]);
            self.front = self.front + 1;
            proof {
                assert(final(self).remaining() =~= old(self).remaining().skip(1));
            }
            Some(channel)
        } else {
            proof {
                assert(final(self).remaining() =~= old(self).remaining());
            }
            None
        }
    }

    /// The next channel from the back, or `None` when none are left.
    pub fn next_back(&mut self) -> (channel: Option<Vec<T>>)
        requires
            old(self).wf(),
        ensures
            final(self).wf(),
            old(self).remaining().len() == 0 ==> channel is None && final(self).remaining()
                == old(self).remaining(),
            old(self).remaining().len() > 0 ==> {
                &&& channel is Some
                &&& channel->Some_0@ == old(self).remaining().last()
                &&& final(self).remaining() == old(self).remaining().drop_last()
            },
    {
        if self.front < self.back {
            self.back = self.back - 1;
            let channel = copy_row(&self.chunks[self.back]);
            proof {
                assert(final(self).remaining() =~= old(self).remaining().drop_last());
            }
            Some(channel)
        } else {
            proof {
                assert(final(self).remaining() =~= old(self).remaining());
            }
            None
        }
    }

    /// The `n`-th channel from the back, consuming it and everything
    /// behind it; `None`, and nothing left, when fewer than `n + 1` remain.
    pub fn nth_back(&mut self, n: usize) -> (channel: Option<Vec<T>>)
        requires
            old(self).wf(),
        ensures
            final(self).wf(),
            old(self).remaining().len() <= n ==> channel is None && final(self).remaining().len()
                == 0,
            old(self).remaining().len() > n ==> {
                &&& channel is Some
                &&& channel->Some_0@ == old(self).remaining()[old(self).remaining().len() - 1
                    - n]
                &&& final(self).remaining() == old(self).remaining().take(
                    old(self).remaining().len() - 1 - n,
                )
            },
    {
        if self.back - self.front > n {
            self.back = self.back - n - 1;
            let channel = copy_row(&self.chunks[self.back]);
            proof {
                assert(final(self).remaining() =~= old(self).remaining().take(
                    old(self).remaining().len() - 1 - n,
                ));
            }
            Some(channel)
        } else {
            self.front = self.back;
            None
        }
    }

    /// How many channels are left.
    pub fn len(&self) -> (channels: usize)
        requires
            self.wf(),
        ensures
            channels as int == self.remaining().len(),
    {
        self.back - self.front
    }
}

/// Copy one channel out of the store.
fn copy_row<T: Copy>(row: &Vec<T>) -> (copied: Vec<T>)
    ensures
        copied@ == row@,
{
    let mut copied: Vec<T> = Vec::new();
    let mut j: usize = 0;
    while j < row.len()
        invariant
            j <= row@.len(),
            copied@ == row@.subrange(0, j as int),
        decreases row@.len() - j,
    {
        copied.push(row[j]);
        proof {
            assert(copied@ =~= row@.subrange(0, j as int + 1));
        }
        j = j + 1;
    }
    proof {
        assert(copied@ =~= row@);
    }
    copied
}

/// A mutable iterator over the channels in a sequentially stored buffer:
/// it takes the samples by value, so the channels it hands out are the
/// caller's to change.
pub struct IterMut<T> {
    chunks: Vec<Vec<T>>,
    front: usize,
    back: usize,
}

impl<T: Copy> IterMut<T> {
    /// Whether the window of channels not yet handed out is in bounds.
    pub closed spec fn wf(&self) -> bool {
        self.front <= self.back <= self.chunks@.len()
    }

    /// The channels not yet handed out, front first.
    pub closed spec fn remaining(&self) -> Seq<Seq<T>> {
        Seq::new(
            (self.back - self.front) as nat,
            |k: int| self.chunks@[self.front + k]@,
        )
    }

    /// Split `data` into its complete channels of `frames` samples each.
    pub fn new(data: Vec<T>, frames: usize) -> (iter: IterMut<T>)
        requires
            frames >= 1,
        ensures
            iter.wf(),
            iter.remaining().len() == data@.len() as int / frames as int,
            forall|k: int|
                0 <= k < iter.remaining().len() ==> iter.remaining()[k] == data@.subrange(
                    k * (frames as int),
                    (k + 1) * (frames as int),
                ),
    {
        let chunks = split_chunks(&data, frames);
        let back = chunks.len();
        IterMut { chunks, front: 0, back }
    }

    /// The next channel from the front, or `None` when none are left.
    pub fn next(&mut self) -> (channel: Option<Vec<T>>)
        requires
            old(self).wf(),
        ensures
            final(self).wf(),
            old(self).remaining().len() == 0 ==> channel is None && final(self).remaining()
                == old(self).remaining(),
            old(self).remaining().len() > 0 ==> {
                &&& channel is Some
                &&& channel->Some_0@ == old(self).remaining()[0]
                &&& final(self).remaining() == old(self).remaining().skip(1)
            },
    {
        if self.front < self.back {
            let channel = copy_row(&self.chunks[self.front]);
            self.front = self.front + 1;
            proof {
                assert(final(self).remaining() =~= old(self).remaining().skip(1));
            }
            Some(channel)
        } else {
            proof {
                assert(final(self).remaining() =~= old(self).remaining());
            }
            None
        }
    }

    /// The next channel from the back, or `None` when none are left.
    pub fn next_back(&mut self) -> (channel: Option<Vec<T>>)
        requires
            old(self).wf(),
        ensures
            final(self).wf(),
            old(self).remaining().len() == 0 ==> channel is None && final(self).remaining()
                == old(self).remaining(),
            old(self).remaining().len() > 0 ==> {
                &&& channel is Some
                &&& channel->Some_0@ == old(self).remaining().last()
                &&& final(self).remaining() == old(self).remaining().drop_last()
            },
    {
        if self.front < self.back {
            self.back = self.back - 1;
            let channel = copy_row(&self.chunks[self.back]);
            proof {
                assert(final(self).remaining() =~= old(self).remaining().drop_last());
            }
            Some(channel)
        } else {
            proof {
                assert(final(self).remaining() =~= old(self).remaining());
            }
            None
        }
    }

    /// The `n`-th channel from the back, consuming it and everything
    /// behind it; `None`, and nothing left, when fewer than `n + 1` remain.
    pub fn nth_back(&mut self, n: usize) -> (channel: Option<Vec<T>>)
        requires
            old(self).wf(),
        ensures
            final(self).wf(),
            old(self).remaining().len() <= n ==> channel is None && final(self).remaining().len()
                == 0,
            old(self).remaining().len() > n ==> {
                &&& channel is Some
                &&& channel->Some_0@ == old(self).remaining()[old(self).remaining().len() - 1
                    - n]
                &&& final(self).remaining() == old(self).remaining().take(
                    old(self).remaining().len() - 1 - n,
                )
            },
    {
        if self.back - self.front > n {
            self.back = self.back - n - 1;
            let channel = copy_row(&self.chunks[self.back]);
            proof {
                assert(final(self).remaining() =~= old(self).remaining().take(
                    old(self).remaining().len() - 1 - n,
                ));
            }
            Some(channel)
        } else {
            self.front = self.back;
            None
        }
    }

    /// How many channels are left.
    pub fn len(&self) -> (channels: usize)
        requires
            self.wf(),
        ensures
            channels as int == self.remaining().len(),
    {
        self.back - self.front
    }
}

} // verus!
