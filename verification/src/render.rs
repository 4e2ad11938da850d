//! Render terms, display rows and the layout of a document in a viewport.

use crate::content::Content;
use crate::viewport::Viewport;
use crate::width::{char_width, columns_for, columns_of, is_control_code, unicode_width};
use crate::wrap::{
    first_lines, layout, lemma_first_lines_concat, lemma_layout_lines, lemma_wrap_rows_split,
    lemma_wrap_terms_nonempty, lines_fit, lines_ordered, row_terms, terms_width, wrap_row,
    wrap_rows, wrap_terms,
};
use vstd::prelude::*;
use vstd::string::StrSliceExecFns;

verus! {

/// How a character is shown.
#[derive(Copy, Clone, Debug, PartialEq, Eq)]
pub enum CharType {
    /// The character is painted as itself.
    Normal,
    /// The character is painted as a substitute text.
    Invisible,
}

/// What a render term holds, as mathematical values.
pub struct TermView {
    pub src_char: char,
    pub char_type: CharType,
    pub render_text: Seq<char>,
    pub render_width: nat,
}

/// One character as it is painted: its text on screen and the columns that
/// the layout accounts for it.
#[derive(Clone, Debug, PartialEq, Eq)]
pub struct RenderTerm {
    /// The character of the document.
    pub src_char: char,
    /// Whether the character is painted as itself.
    pub char_type: CharType,
    /// The text painted for the character.
    pub render_text: String,
    /// The columns that the layout accounts for the painted text.
    pub render_width: usize,
}

impl View for RenderTerm {
    type V = TermView;

    open spec fn view(&self) -> TermView {
        TermView {
            src_char: self.src_char,
            char_type: self.char_type,
            render_text: self.render_text@,
            render_width: self.render_width as nat,
        }
    }
}

/// The upper-case hexadecimal digit of value `d`.
pub open spec fn hex_digit(d: nat) -> char
    recommends
        d < 16,
{
    if d < 10 {
        (0x30 + d) as char
    } else {
        (0x41 + d - 10) as char
    }
}

/// `n` in upper-case hexadecimal, without leading zeros.
pub open spec fn upper_hex(n: nat) -> Seq<char>
    decreases n,
{
    if n < 16 {
        seq![hex_digit(n)]
    } else {
        upper_hex(n / 16).push(hex_digit(n % 16))
    }
}

/// The escape painted for a control code: `U+` and its code point in
/// upper-case hexadecimal.
pub open spec fn escape_text(c: char) -> Seq<char> {
    seq!['U', '+'] + upper_hex(c as nat)
}

/// A run of `n` spaces.
pub open spec fn spaces(n: nat) -> Seq<char> {
    Seq::new(n, |i: int| ' ')
}

/// The render term of `c` under tabs of `tab_width` columns, where `width` is
/// the width defined for `c`, if any. A tab is painted as `tab_width` spaces,
/// another control code as its escape, with one column for each character of
/// the escape, and any other character as itself.
pub open spec fn term_for(c: char, tab_width: nat, width: Option<usize>) -> TermView {
    if c == '\t' {
        TermView {
            src_char: c,
            char_type: CharType::Invisible,
            render_text: spaces(tab_width),
            render_width: tab_width,
        }
    } else if is_control_code(c) {
        TermView {
            src_char: c,
            char_type: CharType::Invisible,
            render_text: escape_text(c),
            render_width: escape_text(c).len(),
        }
    } else {
        TermView {
            src_char: c,
            char_type: CharType::Normal,
            render_text: seq![c],
            render_width: columns_for(width),
        }
    }
}

/// The render term of `c` under tabs of `tab_width` columns.
pub open spec fn term_of(c: char, tab_width: nat) -> TermView {
    term_for(c, tab_width, char_width(c))
}

/// `String::push` of the standard library. Trusted: it appends `c` to `s`.
#[verifier::external_body]
fn push_char(s: &mut String, c: char)
    ensures
        final(s)@ == old(s)@.push(c),
{
    s.push(c);
}

/// The upper-case hexadecimal digit of value `d`.
fn hex_digit_char(d: u32) -> (r: char)
    requires
        d < 16,
    ensures
        r == hex_digit(d as nat),
{
    if d < 10 {
        (0x30 + d as u8) as char
    } else {
        (0x41 + (d as u8 - 10)) as char
    }
}

/// Appends `n` in upper-case hexadecimal to `s`.
fn push_upper_hex(s: &mut String, n: u32)
    ensures
        final(s)@ == old(s)@ + upper_hex(n as nat),
    decreases n,
{
    if n >= 16 {
        push_upper_hex(s, n / 16);
    }
    push_char(s, hex_digit_char(n % 16));
}

/// The escape painted for the control code `c`.
pub fn get_unicode_string(c: char) -> (r: String)
    ensures
        r@ == escape_text(c),
{
    let mut text = String::new();
    push_char(&mut text, 'U');
    push_char(&mut text, '+');
    push_upper_hex(&mut text, c as u32);
    text
}

/// A run of `n` spaces.
fn spaces_string(n: usize) -> (r: String)
    ensures
        r@ == spaces(n as nat),
{
    let mut text = String::new();
    let mut i: usize = 0;
    while i < n
        invariant
            i <= n,
            text@ == spaces(i as nat),
        decreases n - i,
    {
        push_char(&mut text, ' ');
        i += 1;
    }
    text
}

/// The render term of `c` under tabs of `tab_width` columns, where `width` is
/// the width defined for `c`, if any.
pub fn convert_char_to_render_term(c: char, tab_width: usize, width: Option<usize>) -> (r:
    RenderTerm)
    ensures
        r@ == term_for(c, tab_width as nat, width),
{
    if c == '\t' {
        RenderTerm {
            src_char: c,
            char_type: CharType::Invisible,
            render_text: spaces_string(tab_width),
            render_width: tab_width,
        }
    } else if c.is_control() {
        let render_text = get_unicode_string(c);
        let render_width = render_text.as_str().unicode_len();
        RenderTerm { src_char: c, char_type: CharType::Invisible, render_text, render_width }
    } else {
        let mut render_text = String::new();
        push_char(&mut render_text, c);
        RenderTerm {
            src_char: c,
            char_type: CharType::Normal,
            render_text,
            render_width: columns_of(width),
        }
    }
}

/// The terms of a display row, as mathematical values.
pub open spec fn terms_view(terms: Seq<RenderTerm>) -> Seq<TermView> {
    terms.map_values(|term: RenderTerm| term@)
}

impl RenderTerm {
    /// The render term of `src_char` under tabs of `tab_width` columns.
    pub fn from_char(src_char: char, tab_width: usize) -> (r: Self)
        ensures
            r@ == term_of(src_char, tab_width as nat),
            r.char_type == CharType::Normal ==> char_width(src_char) == Some(r.render_width),
    {
        convert_char_to_render_term(src_char, tab_width, unicode_width(src_char))
    }

    /// The render terms of a source row under tabs of `tab_width` columns.
    pub fn from_row(row: &Vec<char>, tab_width: usize) -> (r: Vec<Self>)
        ensures
            terms_view(r@) == row_terms(row@, tab_width as nat),
    {
        let mut terms: Vec<RenderTerm> = Vec::new();
        let mut i: usize = 0;
        while i < row.len()
            invariant
                i <= row@.len(),
                terms@.len() == i,
                forall|k: int|
                    0 <= k < i ==> (#[trigger] terms@[k])@ == term_of(row@[k], tab_width as nat),
            decreases row@.len() - i,
        {
            terms.push(RenderTerm::from_char(row[i], tab_width));
            i += 1;
        }
        terms
    }
}

/// What a display row holds, as mathematical values.
pub struct LineView {
    pub terms: Seq<TermView>,
    pub src_line_index: nat,
}

/// One display row: its terms and the index of the source row they come from.
#[derive(Clone, Debug, PartialEq, Eq)]
pub struct RenderLine {
    /// The terms of the row, from left to right.
    pub terms: Vec<RenderTerm>,
    /// The index of the source row that the terms come from.
    pub src_line_index: usize,
}

impl View for RenderLine {
    type V = LineView;

    open spec fn view(&self) -> LineView {
        LineView { terms: terms_view(self.terms@), src_line_index: self.src_line_index as nat }
    }
}

/// Display rows, as mathematical values.
pub open spec fn lines_view(lines: Seq<RenderLine>) -> Seq<LineView> {
    lines.map_values(|line: RenderLine| line@)
}

impl RenderLine {
    /// Packs the terms of source row `src_line_index` into display rows of at
    /// most `width` columns, and returns the first `max_lines` of them. A
    /// term wider than `width` stands alone in its row.
    pub fn wrap(terms: Vec<RenderTerm>, width: u16, src_line_index: usize, max_lines: usize) -> (r:
        Vec<RenderLine>)
        ensures
            lines_view(r@) == first_lines(
                wrap_terms(
                    terms_view(terms@),
                    width as nat,
                    src_line_index as nat,
                    Seq::empty(),
                ),
                max_lines as nat,
            ),
    {
        let ghost all_terms = terms_view(terms@);
        let ghost all = wrap_terms(all_terms, width as nat, src_line_index as nat, Seq::empty());
        let mut lines: Vec<RenderLine> = Vec::new();
        let mut current: Vec<RenderTerm> = Vec::new();
        let mut used: usize = 0;
        proof {
            assert(all_terms.skip(0) =~= all_terms);
            assert(terms_view(current@) =~= Seq::<TermView>::empty());
        }
        for term in it: terms
            invariant
                it.seq() == terms@,
                all_terms == terms_view(terms@),
                all == wrap_terms(all_terms, width as nat, src_line_index as nat, Seq::empty()),
                used == terms_width(terms_view(current@)),
                lines@.len() <= max_lines,
                all == lines_view(lines@) + wrap_terms(
                    all_terms.skip(it.index() as int),
                    width as nat,
                    src_line_index as nat,
                    terms_view(current@),
                ),
        {
            let term_width = term.render_width;
            let ghost open_row = terms_view(current@);
            let ghost rest = all_terms.skip(it.index() + 1);
            assert(all_terms.skip(it.index() as int).drop_first() =~= rest);
            if term_width <= width as usize && used <= width as usize - term_width {
                current.push(term);
                used += term_width;
                assert(terms_view(current@) =~= open_row.push(term@));
                assert(terms_view(current@).drop_last() =~= open_row);
            } else {
                if lines.len() >= max_lines {
                    proof {
                        lemma_wrap_terms_nonempty(
                            rest,
                            width as nat,
                            src_line_index as nat,
                            seq![term@],
                        );
                    }
                    return lines;
                }
                lines.push(RenderLine { terms: current, src_line_index });
                current = Vec::new();
                current.push(term);
                used = term_width;
                assert(terms_view(current@) =~= seq![term@]);
                assert(terms_view(current@).drop_last() =~= Seq::<TermView>::empty());
            }
        }
        if lines.len() >= max_lines {
            return lines;
        }
        lines.push(RenderLine { terms: current, src_line_index });
        lines
    }
}

/// The display rows that a viewport shows of a document.
#[derive(Clone, Debug, PartialEq, Eq)]
pub struct RenderContent {
    /// The display rows, from top to bottom.
    pub lines: Vec<RenderLine>,
}

impl View for RenderContent {
    type V = Seq<LineView>;

    open spec fn view(&self) -> Seq<LineView> {
        lines_view(self.lines@)
    }
}

impl RenderContent {
    /// Lays the document out in the viewport: wraps each source row, from the
    /// first that the viewport shows to the last that it reaches, into
    /// display rows of at most the viewport's width, and stops after as many
    /// display rows as the viewport is high.
    pub fn from_src_content_with_view_break(
        src_content: &Content,
        viewport: &Viewport,
        tab_width: usize,
    ) -> (r: Self)
        ensures
            r@ == layout(src_content@.rows, *viewport, tab_width as nat),
            r@.len() <= viewport.height,
            lines_fit(r@, viewport.width as nat),
            lines_ordered(r@),
            forall|i: int|
                0 <= i < r@.len() ==> (#[trigger] r@[i]).src_line_index < src_content@.rows.len(),
    {
        proof {
            lemma_layout_lines(src_content@.rows, *viewport, tab_width as nat);
        }
        let mut render_lines: Vec<RenderLine> = Vec::new();
        let (start_row, end_row) = match viewport.row_range(src_content.lines.len()) {
            Some(range) => range,
            None => {
                return RenderContent { lines: render_lines };
            },
        };
        let ghost rows = src_content@.rows;
        let ghost tab = tab_width as nat;
        let ghost width = viewport.width as nat;
        let ghost height = viewport.height as nat;
        let ghost all = wrap_rows(rows, tab, width, start_row as int, end_row + 1);
        let mut fill_rows: usize = viewport.height as usize;
        let mut row = start_row;
        while row <= end_row && fill_rows > 0
            invariant
                start_row <= row <= end_row + 1,
                end_row < src_content.lines@.len(),
                end_row < usize::MAX,
                rows == src_content@.rows,
                tab == tab_width as nat,
                width == viewport.width as nat,
                height == viewport.height as nat,
                all == wrap_rows(rows, tab, width, start_row as int, end_row + 1),
                lines_view(render_lines@) == first_lines(
                    wrap_rows(rows, tab, width, start_row as int, row as int),
                    height,
                ),
                render_lines@.len() + fill_rows == height,
                fill_rows > 0 ==> wrap_rows(rows, tab, width, start_row as int, row as int).len()
                    <= height,
            decreases end_row + 1 - row,
        {
            let terms = RenderTerm::from_row(&src_content.lines[row], tab_width);
            let mut lines = RenderLine::wrap(terms, viewport.width, row, fill_rows);
            proof {
                let before = wrap_rows(rows, tab, width, start_row as int, row as int);
                let these = wrap_row(rows[row as int], tab, width, row as nat);
                lemma_wrap_terms_nonempty(
                    row_terms(rows[row as int], tab),
                    width,
                    row as nat,
                    Seq::empty(),
                );
                lemma_first_lines_concat(before, these, height);
            }
            fill_rows -= lines.len();
            render_lines.append(&mut lines);
            row += 1;
        }
        proof {
            let shown = wrap_rows(rows, tab, width, start_row as int, row as int);
            let beyond = wrap_rows(rows, tab, width, row as int, end_row + 1);
            lemma_wrap_rows_split(rows, tab, width, start_row as int, row as int, end_row + 1);
            lemma_first_lines_concat(shown, beyond, height);
        }
        RenderContent { lines: render_lines }
    }
}

} // verus!
