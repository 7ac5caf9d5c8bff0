//! The queue of input waiting to be written to the process, one buffer at
//! a time, each possibly in several writes.
use vstd::prelude::*;

use std::collections::VecDeque;

verus! {

/// How far a buffer has been written.
pub struct Writing {
    source: Vec<u8>,
    written: usize,
}

impl Writing {
    /// The bytes to write.
    pub closed spec fn source_view(&self) -> Seq<u8> {
        self.source@
    }

    /// How many of them are written.
    pub closed spec fn written_view(&self) -> nat {
        self.written as nat
    }

    /// A buffer of which nothing is written yet.
    pub fn new(c: Vec<u8>) -> (w: Writing)
        ensures
            w.source_view() == c@,
            w.written_view() == 0,
    {
        Writing { source: c, written: 0 }
    }

    /// `n` more bytes are written.
    pub fn advance(&mut self, n: usize)
        requires
            old(self).written_view() + n <= usize::MAX,
        ensures
            final(self).source_view() == old(self).source_view(),
            final(self).written_view() == old(self).written_view() + n,
    {
        self.written = self.written + n;
    }

    /// The bytes not written yet.
    pub fn remaining_bytes(&self) -> (r: &[u8])
        requires
            self.written_view() <= self.source_view().len(),
        ensures
            r@ == self.source_view().skip(self.written_view() as int),
    {
        let s = self.source.as_slice();
        let r = vstd::slice::slice_subrange(s, self.written, s.len());
        assert(r@ =~= self.source@.skip(self.written as int));
        r
    }

    /// Whether every byte is written.
    pub fn finished(&self) -> (r: bool)
        ensures
            r == (self.written_view() >= self.source_view().len()),
    {
        self.written >= self.source.len()
    }
}

/// The queue without its first buffer (empty stays empty).
pub open spec fn queue_rest(q: Seq<Seq<u8>>) -> Seq<Seq<u8>> {
    if q.len() == 0 {
        q
    } else {
        q.drop_first()
    }
}

/// The first queued buffer, nothing of it written; `None` for an empty
/// queue.
pub open spec fn queue_head(q: Seq<Seq<u8>>) -> Option<(Seq<u8>, nat)> {
    if q.len() == 0 {
        None
    } else {
        Some((q[0], 0nat))
    }
}

/// The input waiting to be written: the buffer being written, then the
/// queued ones in order.
pub struct State {
    write_list: VecDeque<Vec<u8>>,
    writing: Option<Writing>,
}

impl State {
    /// The queued buffers, oldest first.
    pub closed spec fn queue(&self) -> Seq<Seq<u8>> {
        self.write_list@.map_values(|b: Vec<u8>| b@)
    }

    /// The buffer being written, as its bytes and how many are written.
    pub closed spec fn current(&self) -> Option<(Seq<u8>, nat)> {
        match self.writing {
            Some(w) => Some((w.source_view(), w.written_view())),
            None => None,
        }
    }

    /// Nothing queued, nothing being written.
    pub fn new() -> (s: State)
        ensures
            s.queue().len() == 0,
            s.current() is None,
    {
        let s = State { write_list: VecDeque::new(), writing: None };
        assert(s.queue() =~= Seq::<Seq<u8>>::empty());
        s
    }

    /// Queues `input` after the other buffers.
    pub fn push_input(&mut self, input: Vec<u8>)
        ensures
            final(self).queue() == old(self).queue().push(input@),
            final(self).current() == old(self).current(),
    {
        self.write_list.push_back(input);
        assert(self.queue() =~= old(self).queue().push(input@));
    }

    /// Starts on the next buffer if none is being written.
    pub fn ensure_next(&mut self)
        ensures
            old(self).current() is Some ==> *final(self) == *old(self),
            old(self).current() is None ==> final(self).queue() == queue_rest(old(self).queue())
                && final(self).current() == queue_head(old(self).queue()),
    {
        if self.writing.is_none() {
            self.goto_next();
        }
    }

    /// Starts on the next queued buffer (none when the queue is empty).
    pub fn goto_next(&mut self)
        ensures
            final(self).queue() == queue_rest(old(self).queue()),
            final(self).current() == queue_head(old(self).queue()),
    {
        match self.write_list.pop_front() {
            Some(b) => {
                self.writing = Some(Writing::new(b));
                assert(self.queue() =~= old(self).queue().drop_first());
            },
            None => {
                self.writing = None;
            },
        }
    }

    /// Takes the buffer being written out of the state.
    pub fn take_current(&mut self) -> (r: Option<Writing>)
        ensures
            final(self).queue() == old(self).queue(),
            final(self).current() is None,
            (match r {
                Some(w) => old(self).current() == Some((w.source_view(), w.written_view())),
                None => old(self).current() is None,
            }),
    {
        let mut r: Option<Writing> = None;
        std::mem::swap(&mut r, &mut self.writing);
        r
    }

    /// Whether anything is left to write.
    pub fn needs_write(&self) -> (r: bool)
        ensures
            r == (self.current() is Some || self.queue().len() > 0),
    {
        self.writing.is_some() || self.write_list.len() > 0
    }

    /// Puts `new` back as the buffer being written.
    pub fn set_current(&mut self, new: Option<Writing>)
        ensures
            final(self).queue() == old(self).queue(),
            final(self).current() == (match new {
                Some(w) => Some((w.source_view(), w.written_view())),
                None => None,
            }),
    {
        self.writing = new;
    }

    /// Whether a buffer is being written.
    pub fn is_writing(&self) -> (r: bool)
        ensures
            r == self.current() is Some,
    {
        self.writing.is_some()
    }
}

impl Default for State {
    /// Nothing queued, nothing being written.
    fn default() -> (s: State)
        ensures
            s.queue().len() == 0,
            s.current() is None,
    {
        State::new()
    }
}

} // verus!
