//! The document: rows of characters and the line terminator in use.

use crate::width::{prefix_columns, prefix_columns_fit, row_columns};
use vstd::prelude::*;
use vstd::string::StringExecFns;

verus! {

/// A line terminator convention.
#[derive(Clone, Copy, Debug, PartialEq, Eq)]
pub enum LineFeed {
    /// A lone line feed.
    Lf,
    /// A carriage return followed by a line feed.
    CrLf,
}

impl LineFeed {
    /// The characters of the terminator.
    pub open spec fn text(self) -> Seq<char> {
        match self {
            LineFeed::Lf => seq!['\n'],
            LineFeed::CrLf => seq!['\r', '\n'],
        }
    }

    /// The terminator as an owned string.
    pub fn to_text(self) -> (r: String)
        ensures
            r@ == self.text(),
    {
        match self {
            LineFeed::Lf => {
                proof {
                    reveal_strlit("\n");
                }
                String::from_str("\n")
            },
            LineFeed::CrLf => {
                proof {
                    reveal_strlit("\r\n");
                }
                String::from_str("\r\n")
            },
        }
    }
}

/// The index of the first line feed in `text`, or the length of `text` where
/// it holds none.
pub open spec fn first_newline(text: Seq<char>) -> nat
    decreases text.len(),
{
    if text.len() == 0 || text[0] == '\n' {
        0
    } else {
        1 + first_newline(text.drop_first())
    }
}

/// Whether `text` holds no line feed.
pub open spec fn newline_free(text: Seq<char>) -> bool {
    forall|i: int| 0 <= i < text.len() ==> text[i] != '\n'
}

/// `row` without one trailing carriage return.
pub open spec fn without_cr(row: Seq<char>) -> Seq<char> {
    if row.len() > 0 && row.last() == '\r' {
        row.drop_last()
    } else {
        row
    }
}

/// The rows of `text`: what stands before each line feed, less one trailing
/// carriage return, and what follows the last line feed where that is not
/// empty.
pub open spec fn split_rows(text: Seq<char>) -> Seq<Seq<char>>
    decreases text.len(),
{
    let n = first_newline(text);
    if text.len() == 0 {
        seq![]
    } else if n >= text.len() {
        seq![text]
    } else {
        seq![without_cr(text.take(n as int))] + split_rows(text.skip(n as int + 1))
    }
}

/// The terminator that `text` uses first, if it uses any.
pub open spec fn first_line_feed(text: Seq<char>) -> Option<LineFeed> {
    let n = first_newline(text);
    if n >= text.len() {
        None
    } else if n > 0 && text[n - 1] == '\r' {
        Some(LineFeed::CrLf)
    } else {
        Some(LineFeed::Lf)
    }
}

/// The number of line feeds in `text`.
pub open spec fn newline_count(text: Seq<char>) -> nat
    decreases text.len(),
{
    if text.len() == 0 {
        0
    } else {
        newline_count(text.drop_first()) + if text[0] == '\n' {
            1nat
        } else {
            0nat
        }
    }
}

/// The number of rows that `text` is split into: one for each line feed, and
/// one more where `text` is not empty and does not end in a line feed.
pub open spec fn row_count(text: Seq<char>) -> nat {
    newline_count(text) + if text.len() > 0 && text.last() != '\n' {
        1nat
    } else {
        0nat
    }
}

/// The terminator recorded for `text`: the one it uses first, or `fallback`
/// where it uses none.
pub open spec fn line_feed_of(text: Seq<char>, fallback: LineFeed) -> LineFeed {
    match first_line_feed(text) {
        Some(line_feed) => line_feed,
        None => fallback,
    }
}

/// The rows that `lines` hold, each as a sequence of characters.
pub open spec fn rows_of(lines: Seq<Vec<char>>) -> Seq<Seq<char>> {
    lines.map_values(|row: Vec<char>| row@)
}

/// What a document holds, as mathematical values.
pub struct ContentView {
    /// The rows, without their terminators.
    pub rows: Seq<Seq<char>>,
    /// The document's terminator, once one is known.
    pub line_feed: Option<Seq<char>>,
}

/// A document: its rows and the line terminator it uses.
pub struct Content {
    /// The rows, without their terminators.
    pub lines: Vec<Vec<char>>,
    /// The document's terminator, once one is known.
    pub line_feed: Option<String>,
}

impl View for Content {
    type V = ContentView;

    open spec fn view(&self) -> ContentView {
        ContentView {
            rows: rows_of(self.lines@),
            line_feed: match self.line_feed {
                Some(s) => Some(s@),
                None => None,
            },
        }
    }
}

impl Content {
    /// The empty document, with no terminator known.
    pub fn new() -> (r: Self)
        ensures
            r@.rows == Seq::<Seq<char>>::empty(),
            r@.line_feed is None,
    {
        let r = Content { lines: Vec::new(), line_feed: None };
        r
    }

    /// Splits `text` into rows and records its terminator, or `fallback`
    /// where `text` holds no line feed.
    pub fn from_text(text: &str, fallback: LineFeed) -> (r: Self)
        ensures
            r@.rows == split_rows(text@),
            r@.rows.len() == row_count(text@),
            r@.line_feed == Some(line_feed_of(text@, fallback).text()),
    {
        let mut line_feed: Option<LineFeed> = None;
        let mut lines: Vec<Vec<char>> = Vec::new();
        let mut temp_line: Vec<char> = Vec::new();
        proof {
            assert(temp_line@ + text@.skip(0) =~= text@);
        }
        for ch in it: text.chars()
            invariant
                it.seq() == text@,
                newline_free(temp_line@),
                split_rows(text@) == rows_of(lines@) + split_rows(
                    temp_line@ + text@.skip(it.index() as int),
                ),
                line_feed is None ==> temp_line@ == text@.take(it.index() as int),
                line_feed is Some ==> line_feed == first_line_feed(text@),
        {
            let ghost at = it.index() as int;
            let ghost open_row = temp_line@;
            if ch == '\n' {
                let n = temp_line.len();
                let curr_line_feed = if n > 0 && temp_line[n - 1] == '\r' {
                    temp_line.pop();
                    LineFeed::CrLf
                } else {
                    LineFeed::Lf
                };
                proof {
                    let rest = text@.skip(at);
                    let joined = open_row + rest;
                    lemma_first_newline_after(open_row, rest);
                    assert(joined.take(open_row.len() as int) =~= open_row);
                    assert(joined.skip(open_row.len() as int + 1) =~= text@.skip(at + 1));
                    if line_feed is None {
                        assert(joined =~= text@);
                    }
                }
                if line_feed.is_none() {
                    line_feed = Some(curr_line_feed);
                }
                lines.push(temp_line);
                temp_line = Vec::new();
            } else {
                temp_line.push(ch);
                assert(temp_line@ + text@.skip(at + 1) =~= open_row + text@.skip(at));
            }
        }
        proof {
            lemma_first_newline_after(temp_line@, Seq::<char>::empty());
        }
        if temp_line.len() > 0 {
            lines.push(temp_line);
        }
        let line_feed = match line_feed {
            Some(line_feed) => line_feed,
            None => fallback,
        };
        proof {
            lemma_split_rows_len(text@);
        }
        Content { lines, line_feed: Some(line_feed.to_text()) }
    }

    /// The number of characters in a row, or `None` where the row is absent.
    pub fn row_char_len(&self, row_idx: usize) -> (r: Option<usize>)
        ensures
            r == if row_idx < self@.rows.len() {
                Some(self@.rows[row_idx as int].len() as usize)
            } else {
                None
            },
    {
        if row_idx < self.lines.len() {
            Some(self.lines[row_idx].len())
        } else {
            None
        }
    }

    /// The columns that a row takes, or `None` where the row is absent. The
    /// columns of the row must fit a `usize`.
    pub fn row_char_unicode_width(&self, row_idx: usize) -> (r: Option<usize>)
        requires
            row_idx < self@.rows.len() ==> row_columns(self@.rows[row_idx as int]) <= usize::MAX,
        ensures
            r == if row_idx < self@.rows.len() {
                Some(row_columns(self@.rows[row_idx as int]) as usize)
            } else {
                None
            },
    {
        if row_idx < self.lines.len() {
            let line = &self.lines[row_idx];
            Some(prefix_columns(line, line.len()))
        } else {
            None
        }
    }

    /// The columns that a row takes, or `None` where the row is absent or
    /// its columns do not fit a `usize`.
    pub fn checked_row_char_unicode_width(&self, row_idx: usize) -> (r: Option<usize>)
        ensures
            r == if row_idx < self@.rows.len() && row_columns(self@.rows[row_idx as int])
                <= usize::MAX {
                Some(row_columns(self@.rows[row_idx as int]) as usize)
            } else {
                None
            },
    {
        if row_idx < self.lines.len() {
            let line = &self.lines[row_idx];
            if prefix_columns_fit(line, line.len()) {
                self.row_char_unicode_width(row_idx)
            } else {
                None
            }
        } else {
            None
        }
    }

    /// A row, or `None` where it is absent.
    pub fn get_row(&self, row_idx: usize) -> (r: Option<&Vec<char>>)
        ensures
            r == if row_idx < self.lines@.len() {
                Some(&self.lines@[row_idx as int])
            } else {
                None
            },
    {
        if row_idx < self.lines.len() {
            Some(&self.lines[row_idx])
        } else {
            None
        }
    }
}

impl Default for Content {
    /// The empty document, with no terminator known.
    fn default() -> (r: Self)
        ensures
            r@.rows == Seq::<Seq<char>>::empty(),
            r@.line_feed is None,
    {
        Content::new()
    }
}

impl<'a> From<&'a str> for Content {
    /// Splits `value` into rows and records its terminator, or a lone line
    /// feed where `value` holds none.
    fn from(value: &'a str) -> (r: Self)
        ensures
            r@.rows == split_rows(value@),
            r@.rows.len() == row_count(value@),
            r@.line_feed == Some(line_feed_of(value@, LineFeed::Lf).text()),
    {
        Content::from_text(value, LineFeed::Lf)
    }
}

impl<'a> vstd::std_specs::convert::FromSpecImpl<&'a str> for Content {
    /// Two documents with the same rows are not the same value, so the
    /// conversion is specified by its `ensures` and not by `from_spec`.
    open spec fn obeys_from_spec() -> bool {
        false
    }

    open spec fn from_spec(v: &'a str) -> Self {
        choose|r: Self|
            r@.rows == split_rows(v@) && r@.line_feed == Some(
                line_feed_of(v@, LineFeed::Lf).text(),
            )
    }
}

/// `first_newline` is an index into `text` or its length, no line feed stands
/// before it, and a line feed stands at it where it is an index.
pub proof fn lemma_first_newline(text: Seq<char>)
    ensures
        first_newline(text) <= text.len(),
        newline_free(text.take(first_newline(text) as int)),
        first_newline(text) < text.len() ==> text[first_newline(text) as int] == '\n',
    decreases text.len(),
{
    if text.len() == 0 || text[0] == '\n' {
    } else {
        let rest = text.drop_first();
        lemma_first_newline(rest);
        let n = first_newline(rest) as int;
        let head = text.take(n + 1);
        assert forall|i: int| 0 <= i < head.len() implies head[i] != '\n' by {
            if i > 0 {
                assert(rest.take(n)[i - 1] == head[i]);
            }
        }
    }
}

/// Behind a prefix without line feeds, the first line feed is that of the rest.
pub proof fn lemma_first_newline_after(head: Seq<char>, rest: Seq<char>)
    requires
        newline_free(head),
    ensures
        first_newline(head + rest) == head.len() + first_newline(rest),
    decreases head.len(),
{
    if head.len() > 0 {
        assert((head + rest).drop_first() =~= head.drop_first() + rest);
        lemma_first_newline_after(head.drop_first(), rest);
    }
}

/// Behind its first line feed, `text` holds one line feed less; without a
/// line feed it holds none.
pub proof fn lemma_newline_count_step(text: Seq<char>)
    ensures
        first_newline(text) >= text.len() ==> newline_count(text) == 0,
        first_newline(text) < text.len() ==> newline_count(text) == 1 + newline_count(
            text.skip(first_newline(text) as int + 1),
        ),
    decreases text.len(),
{
    if text.len() > 0 && text[0] != '\n' {
        let rest = text.drop_first();
        lemma_newline_count_step(rest);
        if first_newline(rest) < rest.len() {
            assert(rest.skip(first_newline(rest) as int + 1) =~= text.skip(
                first_newline(text) as int + 1,
            ));
        }
    }
}

/// A text is split into as many rows as it holds line feeds, and one more
/// where it is not empty and does not end in a line feed.
pub proof fn lemma_split_rows_len(text: Seq<char>)
    ensures
        split_rows(text).len() == row_count(text),
    decreases text.len(),
{
    lemma_first_newline(text);
    lemma_newline_count_step(text);
    let n = first_newline(text) as int;
    if text.len() == 0 {
    } else if n >= text.len() {
        assert(text.take(n) =~= text);
    } else {
        lemma_split_rows_len(text.skip(n + 1));
    }
}

/// No row holds a line feed.
pub proof fn lemma_split_rows_newline_free(text: Seq<char>)
    ensures
        forall|i: int|
            0 <= i < split_rows(text).len() ==> newline_free(#[trigger] split_rows(text)[i]),
    decreases text.len(),
{
    lemma_first_newline(text);
    let n = first_newline(text) as int;
    if text.len() == 0 {
    } else if n >= text.len() {
        assert(text.take(n) =~= text);
    } else {
        let rest = text.skip(n + 1);
        let head = without_cr(text.take(n));
        lemma_split_rows_newline_free(rest);
        assert(newline_free(head));
        assert forall|i: int| 0 <= i < split_rows(text).len() implies newline_free(
            #[trigger] split_rows(text)[i],
        ) by {
            if i > 0 {
                assert(split_rows(text)[i] == split_rows(rest)[i - 1]);
            }
        }
    }
}

} // verus!
