use vstd::prelude::*;

use crate::control::Visibility;
use crate::geometry::PixelRect;
use crate::grid::{primary_code, primary_label, sub_code, sub_label, Cell};
use crate::selection::{Outcome, SelectionState, Selector};

verus! {

/// Pause between two frames of the render loop, in milliseconds: long enough to
/// avoid spinning, short enough that a two-key selection feels immediate.
pub const FRAME_INTERVAL_MS: u64 = 100;

/// Number of cells in the primary grid.
pub const PRIMARY_CELLS: usize = 169;

/// Number of cells in the sub-grid.
pub const SUB_CELLS: usize = 24;

/// An input event, as far as the render loop cares.
pub enum InputEvent {
    /// The cancel key was pressed.
    Cancel,
    /// Text was typed; one event may carry several characters.
    Text(String),
    /// Anything else.
    Other,
}

/// What the render loop does after one event.
pub enum Reaction {
    /// Leave the loop.
    Stop,
    /// Keep going; these are the outcomes of the characters fed, in order.
    Continue(Vec<Outcome>),
}

/// One cell to paint: its border and the label centered in it.
pub struct LabeledRect {
    pub rect: PixelRect,
    pub label: String,
}

/// The primary cell painted in position `k` of a frame.
pub open spec fn primary_cell_at(k: int) -> Cell {
    Cell { row: (k / 13) as usize, col: (k % 13) as usize }
}

/// The sub-grid cell painted in position `k` of the sub-grid part of a frame.
pub open spec fn sub_cell_at(k: int) -> Cell {
    Cell { row: (k / 6) as usize, col: (k % 6) as usize }
}

/// Applies one input event to the selection and, on a cancel, to the visibility flag.
pub fn handle_event(sel: &mut Selector, vis: &mut Visibility, ev: &InputEvent) -> (r: Reaction)
    requires
        old(sel).wf(),
    ensures
        final(sel).wf(),
        match ev {
            InputEvent::Cancel => {
                &&& r is Stop
                &&& !final(vis).shown
                &&& *final(sel) == old(sel).cleared()
            },
            InputEvent::Text(t) => {
                &&& *final(vis) == *old(vis)
                &&& r matches Reaction::Continue(outs) && (*final(sel), outs@) == old(sel).feed_all(
                    t@,
                )
            },
            InputEvent::Other => {
                &&& *final(vis) == *old(vis)
                &&& *final(sel) == *old(sel)
                &&& r matches Reaction::Continue(outs) && outs@.len() == 0
            },
        },
{
    match ev {
        InputEvent::Cancel => {
            vis.hide_overlay();
            sel.reset();
            Reaction::Stop
        },
        InputEvent::Text(t) => {
            let outs = sel.feed_text(t.as_str());
            Reaction::Continue(outs)
        },
        InputEvent::Other => Reaction::Continue(Vec::new()),
    }
}

/// Where a text of the given size goes so that it is centered in `rect`.
pub fn centered_text(rect: PixelRect, text_width: u32, text_height: u32) -> (p: (i64, i64))
    ensures
        p.0 == rect.x + rect.width / 2 - text_width / 2,
        p.1 == rect.y + rect.height / 2 - text_height / 2,
{
    (
        rect.x as i64 + (rect.width / 2) as i64 - (text_width / 2) as i64,
        rect.y as i64 + (rect.height / 2) as i64 - (text_height / 2) as i64,
    )
}

impl Selector {
    /// The cells of one frame: every primary cell row by row, then, when a
    /// cell is pinned, every sub-grid cell inside it row by row.
    pub fn frame(&self) -> (out: Vec<LabeledRect>)
        requires
            self.wf(),
        ensures
            out@.len() == PRIMARY_CELLS + if self.state is CellPinned {
                SUB_CELLS as int
            } else {
                0
            },
            forall|k: int|
                0 <= k < PRIMARY_CELLS ==> {
                    &&& (#[trigger] out@[k]).rect == self.screen.primary_rect_of(
                        primary_cell_at(k),
                    )
                    &&& out@[k].label@ == primary_code(primary_cell_at(k))
                },
            match self.state {
                SelectionState::CellPinned(pinned) => forall|k: int|
                    0 <= k < SUB_CELLS ==> {
                        &&& (#[trigger] out@[PRIMARY_CELLS + k]).rect == self.screen.sub_rect_of(
                            pinned,
                            sub_cell_at(k),
                        )
                        &&& out@[PRIMARY_CELLS + k].label@ == sub_code(sub_cell_at(k))
                        &&& self.screen.primary_rect_of(pinned).contains_rect(
                            out@[PRIMARY_CELLS + k].rect,
                        )
                    },
                SelectionState::NoSelection => true,
            },
    {
        let mut out: Vec<LabeledRect> = Vec::new();
        let mut k: usize = 0;
        while k < PRIMARY_CELLS
            invariant
                0 <= k <= PRIMARY_CELLS,
                out@.len() == k,
                forall|m: int|
                    0 <= m < k ==> {
                        &&& (#[trigger] out@[m]).rect == self.screen.primary_rect_of(
                            primary_cell_at(m),
                        )
                        &&& out@[m].label@ == primary_code(primary_cell_at(m))
                    },
            decreases PRIMARY_CELLS - k,
        {
            let cell = Cell { row: k / 13, col: k % 13 };
            let rect = self.screen.primary_rect(cell);
            let label = primary_label(cell);
            out.push(LabeledRect { rect, label });
            k = k + 1;
        }
        if let SelectionState::CellPinned(pinned) = self.state {
            let mut k: usize = 0;
            while k < SUB_CELLS
                invariant
                    0 <= k <= SUB_CELLS,
                    pinned.in_primary(),
                    self.state == SelectionState::CellPinned(pinned),
                    out@.len() == PRIMARY_CELLS + k,
                    forall|m: int|
                        0 <= m < PRIMARY_CELLS ==> {
                            &&& (#[trigger] out@[m]).rect == self.screen.primary_rect_of(
                                primary_cell_at(m),
                            )
                            &&& out@[m].label@ == primary_code(primary_cell_at(m))
                        },
                    forall|m: int|
                        0 <= m < k ==> {
                            &&& (#[trigger] out@[PRIMARY_CELLS + m]).rect
                                == self.screen.sub_rect_of(pinned, sub_cell_at(m))
                            &&& out@[PRIMARY_CELLS + m].label@ == sub_code(sub_cell_at(m))
                            &&& self.screen.primary_rect_of(pinned).contains_rect(
                                out@[PRIMARY_CELLS + m].rect,
                            )
                        },
                decreases SUB_CELLS - k,
            {
                let sub = Cell { row: k / 6, col: k % 6 };
                let rect = self.screen.sub_rect(pinned, sub);
                let label = sub_label(sub);
                out.push(LabeledRect { rect, label });
                proof {
                    assert(out@[PRIMARY_CELLS + k as int].rect == rect);
                }
                k = k + 1;
            }
        }
        out
    }
}

} // verus!
