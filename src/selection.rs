use vstd::prelude::*;

use crate::geometry::{Point, Screen};
use crate::grid::{
    lemma_primary_lookup_unique, lemma_sub_lookup_unique, primary_cell_of, resolve_primary_pair,
    resolve_sub_pair, sub_cell_of, Cell,
};

verus! {

/// Whether a primary cell has been chosen yet.
#[derive(Clone, Copy, Debug, PartialEq, Eq, Structural)]
pub enum SelectionState {
    NoSelection,
    CellPinned(Cell),
}

/// What feeding one character produced.
#[derive(Clone, Copy, Debug, PartialEq, Eq, Structural)]
pub enum Outcome {
    /// The character waits in the buffer for its partner.
    Buffered,
    /// A primary label matched: the sub-grid is now drawn inside this cell.
    Pinned(Cell),
    /// A sub-grid label matched: the pointer goes to `target`.
    Placed { sub: Cell, target: Point },
    /// The two buffered characters matched no label at the current level.
    Invalid,
}

/// The selection state machine: typed characters in, cells and pointer targets out.
///
/// The input buffer holds at most one character between calls, so it is kept
/// as `pending`.
#[derive(Clone, Copy, Debug, PartialEq, Eq, Structural)]
pub struct Selector {
    pub screen: Screen,
    pub state: SelectionState,
    pub pending: Option<char>,
}

impl Selector {
    /// A pinned cell always lies in the primary grid.
    pub open spec fn wf(self) -> bool {
        match self.state {
            SelectionState::CellPinned(cell) => cell.in_primary(),
            SelectionState::NoSelection => true,
        }
    }

    /// The characters waiting in the input buffer.
    pub open spec fn buffer(self) -> Seq<char> {
        match self.pending {
            Some(c) => seq![c],
            None => Seq::empty(),
        }
    }

    /// The selector after `self` is reset: nothing pinned, nothing buffered.
    pub open spec fn cleared(self) -> Selector {
        Selector { screen: self.screen, state: SelectionState::NoSelection, pending: None }
    }

    /// One character fed to the state machine: the next selector and what it produced.
    pub open spec fn step(self, c: char) -> (Selector, Outcome) {
        match self.pending {
            None => (Selector { pending: Some(c), ..self }, Outcome::Buffered),
            Some(first) => {
                let code = seq![first, c];
                let emptied = Selector { pending: None, ..self };
                match self.state {
                    SelectionState::NoSelection => match primary_cell_of(code) {
                        Some(cell) => (
                            Selector { state: SelectionState::CellPinned(cell), ..emptied },
                            Outcome::Pinned(cell),
                        ),
                        None => (emptied, Outcome::Invalid),
                    },
                    SelectionState::CellPinned(pinned) => match sub_cell_of(code) {
                        Some(sub) => (
                            emptied,
                            Outcome::Placed { sub, target: self.screen.target_of(pinned, sub) },
                        ),
                        None => (emptied, Outcome::Invalid),
                    },
                }
            },
        }
    }

    /// The characters `cs` fed one after another: the final selector and every outcome in order.
    pub open spec fn feed_all(self, cs: Seq<char>) -> (Selector, Seq<Outcome>)
        decreases cs.len(),
    {
        if cs.len() == 0 {
            (self, Seq::empty())
        } else {
            let (s, outs) = self.feed_all(cs.drop_last());
            let (s2, o) = s.step(cs.last());
            (s2, outs.push(o))
        }
    }

    /// A fresh selector for `screen`: nothing pinned, nothing buffered.
    pub fn new(screen: Screen) -> (r: Selector)
        ensures
            r.wf(),
            r.screen == screen,
            r.state == SelectionState::NoSelection,
            r.buffer().len() == 0,
    {
        Selector { screen, state: SelectionState::NoSelection, pending: None }
    }

    /// Forgets the pinned cell and the buffered character, as a cancel key or a hide does.
    pub fn reset(&mut self)
        ensures
            *final(self) == old(self).cleared(),
            final(self).wf(),
            final(self).state == SelectionState::NoSelection,
            final(self).buffer().len() == 0,
    {
        self.state = SelectionState::NoSelection;
        self.pending = None;
    }

    /// Feeds one typed character.
    pub fn feed_char(&mut self, c: char) -> (o: Outcome)
        requires
            old(self).wf(),
        ensures
            final(self).wf(),
            (*final(self), o) == old(self).step(c),
    {
        match self.pending {
            None => {
                self.pending = Some(c);
                Outcome::Buffered
            },
            Some(first) => {
                self.pending = None;
                match self.state {
                    SelectionState::NoSelection => {
                        let found = resolve_primary_pair(first, c);
                        proof {
                            lemma_primary_lookup_unique(seq![first, c], found);
                        }
                        match found {
                            Some(cell) => {
                                self.state = SelectionState::CellPinned(cell);
                                Outcome::Pinned(cell)
                            },
                            None => Outcome::Invalid,
                        }
                    },
                    SelectionState::CellPinned(pinned) => {
                        let found = resolve_sub_pair(first, c);
                        proof {
                            lemma_sub_lookup_unique(seq![first, c], found);
                        }
                        match found {
                            Some(sub) => {
                                let target = self.screen.sub_target(pinned, sub);
                                Outcome::Placed { sub, target }
                            },
                            None => Outcome::Invalid,
                        }
                    },
                }
            },
        }
    }

    /// Feeds every character of one text-input event, in order.
    pub fn feed_text(&mut self, text: &str) -> (outs: Vec<Outcome>)
        requires
            old(self).wf(),
        ensures
            final(self).wf(),
            (*final(self), outs@) == old(self).feed_all(text@),
    {
        let n = text.unicode_len();
        let mut outs: Vec<Outcome> = Vec::new();
        let mut i: usize = 0;
        while i < n
            invariant
                self.wf(),
                0 <= i <= n,
                n == text@.len(),
                (*self, outs@) == old(self).feed_all(text@.subrange(0, i as int)),
            decreases n - i,
        {
            let c = text.get_char(i);
            let o = self.feed_char(c);
            outs.push(o);
            proof {
                let next = text@.subrange(0, i + 1);
                assert(next.drop_last() =~= text@.subrange(0, i as int));
                assert(next.last() == c);
            }
            i = i + 1;
        }
        assert(text@.subrange(0, n as int) =~= text@);
        outs
    }
}

/// Typing a text in two parts gives the same selector and the same outcomes, in
/// the same order, as typing it in one: the buffer carries over between events.
pub proof fn lemma_feed_split(s: Selector, a: Seq<char>, b: Seq<char>)
    ensures
        s.feed_all(a + b) == ({
            let (mid, first) = s.feed_all(a);
            let (end, second) = mid.feed_all(b);
            (end, first + second)
        }),
    decreases b.len(),
{
    let (mid, first) = s.feed_all(a);
    if b.len() == 0 {
        assert(a + b =~= a);
        assert(first + Seq::<Outcome>::empty() =~= first);
    } else {
        assert((a + b).drop_last() =~= a + b.drop_last());
        assert((a + b).last() == b.last());
        lemma_feed_split(s, a, b.drop_last());
        let (end0, second0) = mid.feed_all(b.drop_last());
        let (end, o) = end0.step(b.last());
        assert((first + second0).push(o) =~= first + second0.push(o));
    }
}

} // verus!
