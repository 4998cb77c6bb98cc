//! What is drawn: the rows of the list with the selected one marked, the
//! title, and the place of the line of instructions.

use crate::navigation::ViewModel;
use crate::text::{texts, Text};
use vstd::prelude::*;

verus! {

/// A rectangle of terminal cells.
#[derive(Clone, Copy, Debug, PartialEq, Eq, Structural)]
pub struct Area {
    pub x: u16,
    pub y: u16,
    pub width: u16,
    pub height: u16,
}

impl Area {
    /// Whether the rectangle lies within the coordinates that a terminal
    /// can have.
    pub open spec fn fits(self) -> bool {
        self.x + self.width <= u16::MAX && self.y + self.height <= u16::MAX
    }

    /// Whether the rectangle lies within the coordinates that a terminal can
    /// have.
    pub fn is_fitting(&self) -> (r: bool)
        ensures
            r == self.fits(),
    {
        self.width <= u16::MAX - self.x && self.height <= u16::MAX - self.y
    }
}

/// The bottom line of `area`: as wide as the area, one cell high, on its
/// last row; on its first row where the area has no height.
pub open spec fn bottom_line(area: Area) -> Area {
    Area {
        x: area.x,
        y: if area.height > 0 {
            (area.y + area.height - 1) as u16
        } else {
            area.y
        },
        width: area.width,
        height: 1,
    }
}

/// Where the line of instructions goes in a frame of the given area.
pub fn instruction_area(area: Area) -> (r: Area)
    requires
        area.fits(),
    ensures
        r == bottom_line(area),
{
    let below: u16 = if area.height > 0 {
        area.height - 1
    } else {
        0
    };
    Area { x: area.x, y: area.y + below, width: area.width, height: 1 }
}

/// One row of the list.
#[derive(Debug, PartialEq, Eq)]
pub struct Row {
    pub text: String,
    /// Whether the cursor stands on this row.
    pub selected: bool,
}

/// The mathematical value of a [`Row`].
pub struct RowModel {
    pub text: Text,
    pub selected: bool,
}

impl View for Row {
    type V = RowModel;

    open spec fn view(&self) -> RowModel {
        RowModel { text: self.text@, selected: self.selected }
    }
}

/// The rows that show `items` with the cursor on item `cursor`: one row for
/// each item, in order, and the row of the cursor the only one selected.
pub open spec fn rows_of(items: Seq<Text>, cursor: nat) -> Seq<RowModel> {
    Seq::new(items.len(), |i: int| RowModel { text: items[i], selected: i == cursor })
}

/// The mathematical values of a sequence of rows.
pub open spec fn row_models(rows: Seq<Row>) -> Seq<RowModel> {
    Seq::new(rows.len(), |i: int| rows[i]@)
}

/// The rows that show `items` with the cursor on item `cursor`.
pub fn rows(items: Vec<String>, cursor: usize) -> (out: Vec<Row>)
    ensures
        row_models(out@) == rows_of(texts(items@), cursor as nat),
{
    let mut out: Vec<Row> = Vec::new();
    let mut i: usize = 0;
    while i < items.len()
        invariant
            0 <= i <= items.len(),
            out@.len() == i,
            forall|j: int|
                0 <= j < i ==> (#[trigger] out@[j])@ == (RowModel {
                    text: items@[j]@,
                    selected: j == cursor,
                }),
        decreases items.len() - i,
    {
        out.push(Row { text: items[i].clone(), selected: i == cursor });
        i = i + 1;
    }
    proof {
        assert(row_models(out@) =~= rows_of(texts(items@), cursor as nat));
    }
    out
}

/// The title of the list: a fixed one over the flat list, the server's name
/// over its drill-down.
pub open spec fn title_of(view: ViewModel) -> Text {
    match view {
        ViewModel::Flat => "SSH Clients"@,
        ViewModel::DrillDown { server } => server,
    }
}

/// The line of instructions.
pub open spec fn instructions_text() -> Text {
    "Navigation: ↑/↓ or j/k to move | Enter to select | q to quit"@
}

/// The line of instructions.
pub fn instructions() -> (s: String)
    ensures
        s@ == instructions_text(),
{
    "Navigation: ↑/↓ or j/k to move | Enter to select | q to quit".to_owned()
}

} // verus!
