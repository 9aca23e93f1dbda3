//! A rewindable character cursor.
//!
//! [`Memory`] walks a sequence of characters and adds exactly one step of
//! lookahead-undo: after [`Memory::next`] has produced a character, the
//! caller may ask with [`Memory::rewind`] that the same character be
//! reissued on the following [`Memory::next`]. Every sub-scanner of the
//! tokenizer reads until a predicate fails and then puts the one failing
//! character back; a single-slot rewind is all the grammar ever needs.
//!
//! The abstract state is the stream of characters still to be produced,
//! [`Memory::future`]; a pending rewind is part of that stream.

use vstd::prelude::*;

verus! {

/// A cursor over a sequence of characters with one slot of lookahead-undo.
pub struct Memory {
    chars: Vec<char>,
    pos: usize,
    last_item: Option<char>,
    rewind: bool,
}

impl Memory {
    /// The cursor's bookkeeping is consistent: the position is within the
    /// text, and a rewind pending with nothing produced can only mean the
    /// text was exhausted.
    pub closed spec fn wf(self) -> bool {
        &&& self.pos <= self.chars@.len()
        &&& (self.rewind && self.last_item is None ==> self.pos == self.chars@.len())
    }

    /// The characters the cursor has yet to produce, a pending rewound
    /// character included.
    pub closed spec fn future(self) -> Seq<char> {
        if self.rewind && self.last_item is Some {
            seq![self.last_item->0] + self.chars@.skip(self.pos as int)
        } else {
            self.chars@.skip(self.pos as int)
        }
    }

    /// The most recently produced character, or `None` before the first
    /// read and after exhaustion.
    pub closed spec fn last(self) -> Option<char> {
        self.last_item
    }

    /// Whether a rewind is pending.
    pub closed spec fn pending(self) -> bool {
        self.rewind
    }

    /// A fresh cursor over `chars`, nothing produced yet.
    pub fn new(chars: Vec<char>) -> (m: Memory)
        ensures
            m.wf(),
            m.future() == chars@,
            m.last() is None,
            !m.pending(),
    {
        Memory { chars, pos: 0, last_item: None, rewind: false }
    }

    /// Produce the next character: the rewound one if a rewind is pending,
    /// otherwise the next from the text; `None` once the text is exhausted.
    pub fn next(&mut self) -> (r: Option<char>)
        requires
            old(self).wf(),
        ensures
            final(self).wf(),
            !final(self).pending(),
            final(self).last() == r,
            old(self).future().len() > 0 ==> r == Some(old(self).future()[0])
                && final(self).future() == old(self).future().skip(1),
            old(self).future().len() == 0 ==> r is None && final(self).future().len() == 0,
    {
        proof {
            assert(self.future().len() > 0 && self.rewind && self.last_item is Some ==> (seq![
                self.last_item->0,
            ] + self.chars@.skip(self.pos as int)).skip(1) =~= self.chars@.skip(self.pos as int));
        }
        if !self.rewind {
            if self.pos < self.chars.len() {
                self.last_item = Some(self.chars[self.pos]);
                self.pos = self.pos + 1;
                proof {
                    assert(old(self).future().skip(1) =~= self.chars@.skip(self.pos as int));
                }
            } else {
                self.last_item = None;
            }
        } else {
            self.rewind = false;
        }
        self.last_item
    }

    /// Mark the most recently produced character to be reissued by the
    /// next [`Memory::next`]. At most one rewind may be outstanding; the
    /// caller must also know that a `None` was produced only at
    /// exhaustion, which every producing call guarantees.
    pub fn rewind(&mut self)
        requires
            old(self).wf(),
            !old(self).pending(),
            old(self).last() is None ==> old(self).future().len() == 0,
        ensures
            final(self).wf(),
            final(self).pending(),
            final(self).last() == old(self).last(),
            final(self).future() == (match old(self).last() {
                Some(c) => seq![c] + old(self).future(),
                None => old(self).future(),
            }),
    {
        self.rewind = true;
        proof {
            if self.last_item is None {
                assert(self.future() =~= old(self).future());
            }
        }
    }

    /// The most recently produced character, without advancing; the
    /// sub-scanners use it to see which character ended a consuming run.
    pub fn previous(&self) -> (r: Option<char>)
        ensures
            r == self.last(),
    {
        self.last_item
    }
}

} // verus!
