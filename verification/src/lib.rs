//! A single-thread execution primitive and the buffer helpers around it.
//!
//! The heart of the crate is [`lock_free_stack`]: a LIFO hand-off channel
//! between many producers and one consumer, whose `push` reports the
//! empty-to-nonempty transition so that exactly one producer wakes the
//! consumer. On top of it, [`exec`] gives the submission and drain protocol
//! of a dedicated worker: batches are drained in one pass, reversed into
//! submission order, executed one by one, and every submission observes its
//! own outcome.
//!
//! Beside the executor stand the audio buffer helpers that collaborating
//! code layers on top: the buffer traits and the sequential store in
//! [`buf`], the frame-tracking adapters in [`write`], block addressing in
//! [`chunk`], channel iteration in [`iter`], and whole-frame access in
//! [`uniform_buf`].

pub mod buf;
pub mod chunk;
pub mod exec;
pub mod iter;
pub mod lock_free_stack;
pub mod uniform_buf;
pub mod write;
