//! A LIFO stack of caller-built nodes, used as the hand-off channel between
//! submitting threads and a single consuming worker.
//!
//! The stack is a chain of nodes hanging off a single head; `push` installs a
//! node as the new head and reports whether the stack was empty immediately
//! before, which is the one signal a producer needs to decide whether it must
//! wake the consumer. `pop` removes the head, so a drain returns nodes newest
//! first. The whole contract is stated over the view `self@`: the sequence of
//! stored values, oldest (bottom) first.
//!
//! A node is moved into the stack whole and handed back whole by `pop`:
//! the safe counterpart of an intrusive structure's contract that a node
//! stays untouched and alive for as long as it is linked in.

use vstd::prelude::*;

verus! {

/// One element of the stack: the stack-internal link to the element below it,
/// and the caller-supplied value it carries.
pub struct Node<T> {
    next: Option<Box<Node<T>>>,
    pub value: T,
}

impl<T> Node<T> {
    /// The caller-supplied value this node carries.
    pub closed spec fn spec_value(self) -> T {
        self.value
    }

    /// The values carried by this node and the chain below it, oldest first.
    pub closed spec fn chain(self) -> Seq<T>
        decreases self,
    {
        match self.next {
            None => seq![self.value],
            Some(below) => below.chain().push(self.value),
        }
    }

    /// Take the carried value out of the node, once it has left the stack.
    pub fn into_value(self) -> (value: T)
        ensures
            value == self.spec_value(),
    {
        self.value
    }

    /// Construct a new wait node.
    pub fn new(value: T) -> (node: Node<T>)
        ensures
            node.chain() == seq![value],
            node.spec_value() == value,
    {
        Node { next: None, value }
    }
}

/// A LIFO stack with one head; many producers push, a single consumer pops.
pub struct LockFreeStack<T> {
    head: Option<Box<Node<T>>>,
}

impl<T> View for LockFreeStack<T> {
    type V = Seq<T>;

    closed spec fn view(&self) -> Seq<T> {
        match self.head {
            None => Seq::empty(),
            Some(node) => node.chain(),
        }
    }
}

impl<T> LockFreeStack<T> {
    /// Construct an empty stack.
    pub fn new() -> (stack: LockFreeStack<T>)
        ensures
            stack@ == Seq::<T>::empty(),
    {
        LockFreeStack { head: None }
    }

    /// Push to the head of the stack.
    ///
    /// Returns `true` if the stack was empty immediately before this push
    /// took effect, `false` otherwise: the sole signal by which a producer
    /// decides that it is the one responsible for waking the consumer.
    pub fn push(&mut self, node: Node<T>) -> (was_empty: bool)
        ensures
            final(self)@ == old(self)@.push(node.spec_value()),
            was_empty == (old(self)@.len() == 0),
    {
        let mut node = node;
        let was_empty = self.head.is_none();
        node.next = self.head.take();
        self.head = Some(Box::new(node));
        was_empty
    }

    /// Pop the head of the stack.
    ///
    /// Returns the most recently pushed node not yet popped, or `None` when
    /// the stack is empty. Only one thread may drive `pop` at a time: the
    /// single-consumer discipline is a caller obligation, and it is what
    /// rules out the ABA hazard of a general lock-free stack.
    pub fn pop(&mut self) -> (popped: Option<Node<T>>)
        ensures
            old(self)@.len() == 0 ==> popped is None && final(self)@ == old(self)@,
            old(self)@.len() > 0 ==> {
                &&& popped is Some
                &&& popped->Some_0.spec_value() == old(self)@.last()
                &&& popped->Some_0.chain() == seq![old(self)@.last()]
                &&& final(self)@ == old(self)@.drop_last()
            },
    {
        match self.head.take() {
            None => None,
            Some(boxed) => {
                let mut node = *boxed;
                self.head = node.next.take();
                Some(node)
            }
        }
    }
}

/// The LIFO law at the level of the view: pushing a value and popping at once
/// hands the very value back and restores the stack that was there before.
/// Together with the contracts of `push` and `pop` this pins the behaviour of
/// any interleaving a single consumer can observe: each `pop` returns the most
/// recently pushed value not yet popped.
pub proof fn lemma_lifo_round_trip<T>(values: Seq<T>, value: T)
    ensures
        values.push(value).len() == values.len() + 1,
        values.push(value).last() == value,
        values.push(value).drop_last() == values,
{
    assert(values.push(value).drop_last() =~= values);
}

} // verus!
