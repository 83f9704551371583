//! Text selection with the mouse. Positions are pairs of row and column.

use vstd::prelude::*;

use crate::screen::model::{max, min, ScreenModel};
use crate::screen::terminal_screen::Screen;
use crate::screen::text::{copied_text, covered, in_order};

verus! {

/// A selection from one position to another, in either order, with both ends
/// part of it.
#[derive(Clone, Copy, Debug, PartialEq, Eq)]
pub struct SelectionRange {
    pub start: (usize, usize),
    pub end: (usize, usize),
}

impl SelectionRange {
    /// The end that comes first in reading order.
    pub open spec fn first(self) -> (usize, usize) {
        if in_order(self.start, self.end) {
            self.start
        } else {
            self.end
        }
    }

    /// The end that comes last in reading order.
    pub open spec fn last(self) -> (usize, usize) {
        if in_order(self.start, self.end) {
            self.end
        } else {
            self.start
        }
    }
}

/// Where a drag began and where it has come to.
#[derive(Clone, Copy, Debug, PartialEq, Eq)]
pub struct SelectionState {
    pub anchor: Option<(usize, usize)>,
    pub head: Option<(usize, usize)>,
    pub dragging: bool,
}

impl Default for SelectionState {
    fn default() -> (selection: Self)
        ensures
            selection == SelectionState::none(),
    {
        SelectionState { anchor: None, head: None, dragging: false }
    }
}

impl SelectionState {
    /// Nothing selected and no drag going on.
    pub open spec fn none() -> SelectionState {
        SelectionState { anchor: None, head: None, dragging: false }
    }

    /// Whether more than a single position is selected.
    pub open spec fn is_range(self) -> bool {
        self.anchor is Some && self.head is Some && self.anchor != self.head
    }

    /// The selected range, when both ends are known.
    pub open spec fn range_of(self) -> Option<SelectionRange> {
        if self.anchor is Some && self.head is Some {
            Some(SelectionRange { start: self.anchor->0, end: self.head->0 })
        } else {
            None
        }
    }

    /// Whether both ends lie in one of the first `rows` rows.
    pub open spec fn within(self, rows: int) -> bool {
        match self.range_of() {
            Some(range) => range.start.0 < rows && range.end.0 < rows,
            None => true,
        }
    }

    /// The selection after the pointer came to another position.
    pub open spec fn dragged_to(self, position: (usize, usize)) -> SelectionState {
        if self.dragging {
            SelectionState { head: Some(position), ..self }
        } else {
            self
        }
    }

    pub fn clear(&mut self)
        ensures
            *final(self) == SelectionState::none(),
    {
        self.anchor = None;
        self.head = None;
        self.dragging = false;
    }

    pub fn set_anchor(&mut self, position: (usize, usize))
        ensures
            *final(self) == (SelectionState {
                anchor: Some(position),
                head: Some(position),
                dragging: true,
            }),
    {
        self.anchor = Some(position);
        self.head = Some(position);
        self.dragging = true;
    }

    pub fn update_head(&mut self, position: (usize, usize))
        ensures
            *final(self) == old(self).dragged_to(position),
    {
        if self.dragging {
            self.head = Some(position);
        }
    }

    pub fn end_drag(&mut self)
        ensures
            *final(self) == (SelectionState { dragging: false, ..*old(self) }),
    {
        self.dragging = false;
    }

    pub fn range(&self) -> (range: Option<SelectionRange>)
        ensures
            range == self.range_of(),
    {
        match (self.anchor, self.head) {
            (Some(start), Some(end)) => Some(SelectionRange { start, end }),
            _ => None,
        }
    }

    pub fn has_selection(&self) -> (selected: bool)
        ensures
            selected == self.is_range(),
    {
        match (self.anchor, self.head) {
            (Some(anchor), Some(head)) => anchor.0 != head.0 || anchor.1 != head.1,
            _ => false,
        }
    }

    /// Whether both ends lie in one of the first `rows` rows.
    pub fn fits(&self, rows: usize) -> (fits: bool)
        ensures
            fits == self.within(rows as int),
    {
        match self.range() {
            Some(range) => range.start.0 < rows && range.end.0 < rows,
            None => true,
        }
    }
}

/// The columns `from..=to` of one row.
#[derive(Clone, Copy, Debug, PartialEq, Eq, Structural)]
pub struct Span {
    pub row: usize,
    pub from: usize,
    pub to: usize,
}

/// The part of a row that a selection covers.
pub open spec fn span_in_row(range: SelectionRange, row: int, cols: int) -> Span {
    let (from, to) = covered(range.first(), range.last(), row, cols);
    Span { row: row as usize, from: from as usize, to: to as usize }
}

/// The parts of the screen that a selection covers, from top to bottom; rows
/// that do not exist are left out.
pub open spec fn spans_of(range: SelectionRange, cols: int, rows: int) -> Seq<Span> {
    let first = range.first().0 as int;
    let last = min(range.last().0 as int, rows - 1);
    Seq::new(max(last + 1 - first, 0) as nat, |i: int| span_in_row(range, first + i, cols))
}

/// The parts of the screen to highlight for a selection.
pub fn selection_spans(screen: &Screen, range: SelectionRange) -> (spans: Vec<Span>)
    requires
        screen.wf(),
    ensures
        spans@ == spans_of(range, screen@.cols as int, screen@.rows as int),
{
    let ordered: bool = range.start.0 < range.end.0 || (range.start.0 == range.end.0
        && range.start.1 <= range.end.1);
    let first: (usize, usize) = if ordered {
        range.start
    } else {
        range.end
    };
    let last: (usize, usize) = if ordered {
        range.end
    } else {
        range.start
    };
    let last_col: usize = screen.cols() - 1;
    let last_row: usize = last.0.min(screen.rows() - 1);
    let mut spans: Vec<Span> = Vec::new();
    let mut row: usize = first.0;
    while row <= last_row
        invariant
            screen.wf(),
            first == range.first(),
            last == range.last(),
            last_col == screen@.cols - 1,
            last_row == min(last.0 as int, screen@.rows - 1),
            first.0 <= row,
            row <= last_row + 1 || row == first.0,
            spans@ == Seq::new(
                (row - first.0) as nat,
                |i: int| span_in_row(range, first.0 + i, screen@.cols as int),
            ),
        decreases last_row + 1 - row,
    {
        let from: usize = if row == first.0 {
            first.1.min(last_col)
        } else {
            0
        };
        let to: usize = if row == last.0 {
            last.1.min(last_col)
        } else {
            last_col
        };
        spans.push(Span { row, from, to });
        row = row + 1;
        assert(spans@ =~= Seq::new(
            (row - first.0) as nat,
            |i: int| span_in_row(range, first.0 + i, screen@.cols as int),
        ));
    }
    spans
}

/// The text of some parts of the screen, with line breaks between them.
pub open spec fn text_of_spans(screen: ScreenModel, spans: Seq<Span>) -> Seq<char>
    decreases spans.len(),
{
    if spans.len() == 0 {
        Seq::empty()
    } else {
        let span = spans.last();
        let text = copied_text(
            screen.active().lines[span.row as int],
            span.from as int,
            span.to as int,
        );
        if spans.len() == 1 {
            text
        } else {
            text_of_spans(screen, spans.drop_last()).push('\n') + text
        }
    }
}

} // verus!
