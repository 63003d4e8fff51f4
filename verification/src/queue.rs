//! The transmit queue of a channel: a bounded first-in, first-out sequence
//! of words, filled by the producer and drained by the engine.

use std::collections::VecDeque;
use vstd::prelude::*;

verus! {

/// Number of words that a transmit queue holds.
pub const QUEUE_DEPTH: usize = 8;

/// A transmit queue. Its view is the sequence of queued words, head first.
pub struct TransmitQueue {
    words: VecDeque<u32>,
}

impl View for TransmitQueue {
    type V = Seq<u32>;

    closed spec fn view(&self) -> Seq<u32> {
        self.words@
    }
}

impl TransmitQueue {
    /// A queue never holds more than `QUEUE_DEPTH` words.
    pub open spec fn wf(&self) -> bool {
        self@.len() <= QUEUE_DEPTH
    }

    /// An empty queue.
    pub fn new() -> (queue: TransmitQueue)
        ensures
            queue@ == Seq::<u32>::empty(),
            queue.wf(),
    {
        TransmitQueue { words: VecDeque::new() }
    }

    /// Number of queued words.
    pub fn len(&self) -> (count: usize)
        ensures
            count == self@.len(),
    {
        self.words.len()
    }

    /// Whether the queue holds no word.
    pub fn is_empty(&self) -> (empty: bool)
        ensures
            empty == (self@.len() == 0),
    {
        self.words.len() == 0
    }

    /// Whether the queue can take no further word.
    pub fn is_full(&self) -> (full: bool)
        ensures
            full == (self@.len() >= QUEUE_DEPTH),
    {
        self.words.len() >= QUEUE_DEPTH
    }

    /// Puts `word` at the tail if the queue is not full, and says whether it
    /// did. A full queue is left as it is.
    pub fn try_push(&mut self, word: u32) -> (taken: bool)
        requires
            old(self).wf(),
        ensures
            final(self).wf(),
            taken == (old(self)@.len() < QUEUE_DEPTH),
            taken ==> final(self)@ == old(self)@.push(word),
            !taken ==> final(self)@ == old(self)@,
    {
        if self.words.len() < QUEUE_DEPTH {
            self.words.push_back(word);
            true
        } else {
            false
        }
    }

    /// Takes the word at the head, if there is one. The words behind it move
    /// up and keep their order.
    pub fn pop(&mut self) -> (head: Option<u32>)
        requires
            old(self).wf(),
        ensures
            final(self).wf(),
            old(self)@.len() == 0 ==> head.is_none() && final(self)@ == old(self)@,
            old(self)@.len() > 0 ==> head == Some(old(self)@[0]) && final(self)@ == old(
                self,
            )@.subrange(1, old(self)@.len() as int),
    {
        self.words.pop_front()
    }
}

} // verus!
