//! From a character position in a row to the display column it starts at.

use crate::content::Content;
use crate::width::{columns_before, prefix_columns, prefix_columns_fit};
use vstd::prelude::*;

verus! {

/// A position in a document: `x` counts characters in the row, `y` rows.
#[derive(Clone, Copy, Debug, PartialEq, Eq)]
pub struct Cursor {
    /// The index of the character in its row.
    pub x: usize,
    /// The index of the row.
    pub y: usize,
}

impl Default for Cursor {
    /// The cursor at the document's first character.
    fn default() -> (r: Self)
        ensures
            r.x == 0,
            r.y == 0,
    {
        Cursor { x: 0, y: 0 }
    }
}

/// The display column at which character `cursor_x` of row `row_idx` starts:
/// the columns of the characters before it. No column is defined for an
/// absent row, nor at or past the end of a row.
pub open spec fn column_at(rows: Seq<Seq<char>>, cursor_x: int, row_idx: int) -> Option<nat> {
    if 0 <= row_idx < rows.len() && 0 <= cursor_x < rows[row_idx].len() {
        Some(columns_before(rows[row_idx], cursor_x))
    } else {
        None
    }
}

impl Cursor {
    /// The display column at which character `cursor_x` of row `row_idx`
    /// starts, or `None` where the row is absent or has no character at
    /// `cursor_x`. The column must fit a `usize`.
    pub fn calc_col_at_char_pos(cursor_x: usize, content: &Content, row_idx: usize) -> (r: Option<
        usize,
    >)
        requires
            column_at(content@.rows, cursor_x as int, row_idx as int) matches Some(col) ==> col
                <= usize::MAX,
        ensures
            r == match column_at(content@.rows, cursor_x as int, row_idx as int) {
                Some(col) => Some(col as usize),
                None => None,
            },
    {
        match content.get_row(row_idx) {
            Some(row) => {
                if row.len() <= cursor_x {
                    None
                } else {
                    Some(prefix_columns(row, cursor_x))
                }
            },
            None => None,
        }
    }

    /// The display column at which character `cursor_x` of row `row_idx`
    /// starts, or `None` where the row is absent, has no character at
    /// `cursor_x`, or the column does not fit a `usize`.
    pub fn checked_col_at_char_pos(cursor_x: usize, content: &Content, row_idx: usize) -> (r:
        Option<usize>)
        ensures
            r == match column_at(content@.rows, cursor_x as int, row_idx as int) {
                Some(col) if col <= usize::MAX => Some(col as usize),
                _ => None,
            },
    {
        match content.get_row(row_idx) {
            Some(row) => {
                if cursor_x < row.len() && prefix_columns_fit(row, cursor_x) {
                    Cursor::calc_col_at_char_pos(cursor_x, content, row_idx)
                } else {
                    None
                }
            },
            None => None,
        }
    }
}

} // verus!
