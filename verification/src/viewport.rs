//! The visible window into a document.

use ratatui::prelude::Rect;
use vstd::prelude::*;

verus! {

/// `Rect` of the `ratatui` crate: a rectangle of cells, with its four public
/// fields.
#[verifier::external_type_specification]
pub struct ExRect(ratatui::prelude::Rect);

/// The visible window into a document: where it starts and how large it is.
///
/// The anchor may lie outside the document; the layout clamps it. The column
/// anchor is carried but not applied: the layout never scrolls horizontally.
#[derive(Clone, Copy, Debug, PartialEq, Eq)]
pub struct Viewport {
    /// The document column at the viewport's left edge.
    pub anchor_col: i32,
    /// The source row at the viewport's top edge.
    pub anchor_row: i32,
    /// The columns that the viewport shows.
    pub width: u16,
    /// The display rows that the viewport shows.
    pub height: u16,
}

/// `target` moved into the row indices of a document of `row_count` rows:
/// a negative target becomes the first row, one past the end the last row.
pub open spec fn clamp_row(target: int, row_count: nat) -> int
    recommends
        row_count > 0,
{
    if target < 0 {
        0
    } else if target >= row_count {
        row_count - 1
    } else {
        target
    }
}

/// The first source row that a viewport shows of a document of `row_count`
/// rows.
pub open spec fn first_row(row_count: nat, viewport: Viewport) -> int
    recommends
        row_count > 0,
{
    clamp_row(viewport.anchor_row as int, row_count)
}

/// The last source row that a viewport reaches in a document of `row_count`
/// rows.
pub open spec fn last_row(row_count: nat, viewport: Viewport) -> int
    recommends
        row_count > 0,
{
    clamp_row(viewport.anchor_row + viewport.height, row_count)
}

/// `target` moved into the row indices of a document of `row_count` rows.
fn clamp_row_index(target: i64, row_count: usize) -> (r: usize)
    requires
        row_count > 0,
    ensures
        r == clamp_row(target as int, row_count as nat),
{
    if target < 0 {
        0
    } else if target as u64 >= row_count as u64 {
        row_count - 1
    } else {
        target as usize
    }
}

impl Viewport {
    /// A viewport of the given extent anchored at the document's origin.
    pub fn with_size(width: u16, height: u16) -> (r: Self)
        ensures
            r == (Viewport { anchor_col: 0, anchor_row: 0, width, height }),
    {
        Viewport { anchor_col: 0, anchor_row: 0, width, height }
    }

    /// The first and the last source row that the viewport reaches in a
    /// document of `row_count` rows, or `None` for a document without rows.
    pub fn row_range(&self, row_count: usize) -> (r: Option<(usize, usize)>)
        ensures
            row_count == 0 ==> r is None,
            row_count > 0 ==> r == Some(
                (
                    first_row(row_count as nat, *self) as usize,
                    last_row(row_count as nat, *self) as usize,
                ),
            ),
            r matches Some((first, last)) ==> first <= last < row_count,
    {
        if row_count == 0 {
            None
        } else {
            let first = clamp_row_index(self.anchor_row as i64, row_count);
            let last = clamp_row_index(self.anchor_row as i64 + self.height as i64, row_count);
            Some((first, last))
        }
    }
}

impl From<Rect> for Viewport {
    /// The viewport of the extent of `value`, anchored at the document's
    /// origin.
    fn from(value: Rect) -> (r: Self)
        ensures
            r == (Viewport { anchor_col: 0, anchor_row: 0, width: value.width, height: value.height }),
    {
        Viewport { anchor_col: 0, anchor_row: 0, width: value.width, height: value.height }
    }
}

impl vstd::std_specs::convert::FromSpecImpl<Rect> for Viewport {
    open spec fn obeys_from_spec() -> bool {
        true
    }

    open spec fn from_spec(v: Rect) -> Self {
        Viewport { anchor_col: 0, anchor_row: 0, width: v.width, height: v.height }
    }
}

impl Default for Viewport {
    /// The empty viewport at the document's origin.
    fn default() -> (r: Self)
        ensures
            r == (Viewport { anchor_col: 0, anchor_row: 0, width: 0, height: 0 }),
    {
        Viewport { anchor_col: 0, anchor_row: 0, width: 0, height: 0 }
    }
}

} // verus!
