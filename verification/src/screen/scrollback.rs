//! The lines that left the screen, in a ring that overwrites the oldest.

use vstd::prelude::*;

use crate::screen::cell::Cell;
use crate::screen::model::keep_last;

verus! {

/// The latest lines that scrolled off the screen. Adding one never moves the
/// others.
pub struct ScrollbackRing {
    lines: Vec<Vec<Cell>>,
    head: usize,
    len: usize,
    cap: usize,
}

impl View for ScrollbackRing {
    type V = Seq<Seq<Cell>>;

    /// The lines held, oldest first.
    closed spec fn view(&self) -> Seq<Seq<Cell>> {
        Seq::new(self.len as nat, |i: int| self.lines@[self.slot(i)]@)
    }
}

impl ScrollbackRing {
    /// The slot of the line that is `i` lines younger than the oldest.
    spec fn slot(&self, i: int) -> int {
        if self.head + i < self.cap {
            self.head + i
        } else {
            self.head + i - self.cap
        }
    }

    pub closed spec fn wf(&self) -> bool {
        &&& self.cap >= 1
        &&& self.lines@.len() == self.cap
        &&& self.head < self.cap
        &&& self.len <= self.cap
    }

    /// How many lines are kept.
    pub closed spec fn capacity(&self) -> usize {
        self.cap
    }

    /// The ring never holds more than it keeps, and it keeps at least one line.
    pub proof fn lemma_bounds(&self)
        requires
            self.wf(),
        ensures
            self@.len() <= self.capacity(),
            self.capacity() >= 1,
    {
    }

    pub fn new(cap: usize) -> (ring: Self)
        ensures
            ring.wf(),
            ring@ == Seq::<Seq<Cell>>::empty(),
            ring.capacity() == (if cap == 0 {
                1
            } else {
                cap
            }),
    {
        let cap: usize = cap.max(1);
        let ring = ScrollbackRing { lines: vec![Vec::new(); cap], head: 0, len: 0, cap };
        assert(ring@ =~= Seq::<Seq<Cell>>::empty());
        ring
    }

    /// Adds a line; when the ring is full the oldest one goes.
    pub fn push(&mut self, line: Vec<Cell>)
        requires
            old(self).wf(),
        ensures
            final(self).wf(),
            final(self).capacity() == old(self).capacity(),
            final(self)@ == keep_last(old(self)@.push(line@), old(self).capacity() as int),
    {
        let ghost target = keep_last(self@.push(line@), self.cap as int);
        if self.len < self.cap {
            let index: usize = if self.len < self.cap - self.head {
                self.head + self.len
            } else {
                self.len - (self.cap - self.head)
            };
            self.lines[index] = line;
            self.len = self.len + 1;
        } else {
            self.lines[self.head] = line;
            self.head = if self.head + 1 < self.cap {
                self.head + 1
            } else {
                0
            };
        }
        assert(self@ =~= target);
    }

    /// How many lines are held.
    pub fn len(&self) -> (len: usize)
        requires
            self.wf(),
        ensures
            len == self@.len(),
    {
        self.len
    }

    /// The line that is `index` lines younger than the oldest.
    pub fn get(&self, index: usize) -> (line: Option<&Vec<Cell>>)
        requires
            self.wf(),
        ensures
            line is Some <==> index < self@.len(),
            line matches Some(found) ==> found@ == self@[index as int],
    {
        if index >= self.len {
            return None;
        }
        let slot: usize = if index < self.cap - self.head {
            self.head + index
        } else {
            index - (self.cap - self.head)
        };
        Some(&self.lines[slot])
    }
}

} // verus!
