//! From display rows to the text widget that a host paints.

use crate::render::{LineView, RenderContent, RenderLine, RenderTerm, TermView};
use ratatui::text::{Line, Span};
use ratatui::widgets::Paragraph;
use vstd::prelude::*;

verus! {

/// `Span` of the `ratatui` crate: a run of text in one style. Opaque here.
#[verifier::external_type_specification]
#[verifier::external_body]
pub struct ExSpan<'a>(ratatui::text::Span<'a>);

/// `Line` of the `ratatui` crate: the spans of one row. Opaque here.
#[verifier::external_type_specification]
#[verifier::external_body]
pub struct ExLine<'a>(ratatui::text::Line<'a>);

/// `Paragraph` of the `ratatui` crate: a widget that paints lines of text.
/// Opaque here.
#[verifier::external_type_specification]
#[verifier::external_body]
pub struct ExParagraph<'a>(ratatui::widgets::Paragraph<'a>);

/// The characters that a span holds: those of its `content`.
pub uninterp spec fn span_text(span: Span) -> Seq<char>;

/// Whether a span is plain: its style is the default style.
pub uninterp spec fn span_plain(span: Span) -> bool;

/// The spans that a line holds, in order, each as its characters.
pub uninterp spec fn line_spans(line: Line) -> Seq<Seq<char>>;

/// Whether a line is plain: it has the default style and no alignment of its
/// own, and each of its spans is plain.
pub uninterp spec fn line_plain(line: Line) -> bool;

/// The lines of the text that a paragraph paints, in order, each as the
/// characters of its spans.
pub uninterp spec fn paragraph_lines(paragraph: Paragraph) -> Seq<Seq<Seq<char>>>;

/// Whether a paragraph is plain: it has no block, no wrapping, no scroll
/// offset and the default style and alignment, its text has the default
/// style and no alignment of its own, and each of its lines is plain.
pub uninterp spec fn paragraph_plain(paragraph: Paragraph) -> bool;

/// The texts painted for `terms`, in order.
pub open spec fn term_texts(terms: Seq<TermView>) -> Seq<Seq<char>> {
    terms.map_values(|term: TermView| term.render_text)
}

/// The texts painted for `lines`, row by row.
pub open spec fn line_texts(lines: Seq<LineView>) -> Seq<Seq<Seq<char>>> {
    lines.map_values(|line: LineView| term_texts(line.terms))
}

impl RenderTerm {
    /// Builds a `Span` of the `ratatui` crate from an owned copy of the
    /// painted text and the default style. Trusted: the span holds the
    /// term's painted text and is plain, whatever the term's class.
    #[verifier::external_body]
    pub fn to_span(&self) -> (r: Span<'_>)
        ensures
            span_text(r) == self@.render_text,
            span_plain(r),
    {
        Span { content: self.render_text.to_owned().into(), style: Default::default() }
    }
}

/// Calls `Line::from` of the `ratatui` crate on a vector of spans. Trusted:
/// the line holds these spans, in order, and adds no style or alignment of
/// its own, so that it is plain exactly where each of the spans is.
#[verifier::external_body]
fn line_from_spans<'a>(spans: Vec<Span<'a>>) -> (r: Line<'a>)
    ensures
        line_spans(r) == spans@.map_values(|span: Span| span_text(span)),
        line_plain(r) == (forall|i: int|
            0 <= i < spans@.len() ==> span_plain(#[trigger] spans@[i])),
{
    Line::from(spans)
}

/// Calls `Paragraph::new` of the `ratatui` crate on a vector of lines.
/// Trusted: the paragraph holds these lines, in order, and adds no block,
/// wrapping, scroll offset, style or alignment of its own, so that it is
/// plain exactly where each of the lines is.
#[verifier::external_body]
fn paragraph_from_lines<'a>(lines: Vec<Line<'a>>) -> (r: Paragraph<'a>)
    ensures
        paragraph_lines(r) == lines@.map_values(|line: Line| line_spans(line)),
        paragraph_plain(r) == (forall|i: int|
            0 <= i < lines@.len() ==> line_plain(#[trigger] lines@[i])),
{
    Paragraph::new(lines)
}

impl RenderLine {
    /// The row as a plain line of spans, one span for each term, whatever
    /// the classes of the terms.
    pub fn to_line(&self) -> (r: Line<'_>)
        ensures
            line_spans(r) == term_texts(self@.terms),
            line_plain(r),
    {
        let mut spans: Vec<Span> = Vec::new();
        let mut i: usize = 0;
        while i < self.terms.len()
            invariant
                i <= self.terms@.len(),
                spans@.len() == i,
                forall|k: int|
                    0 <= k < i ==> span_text(#[trigger] spans@[k]) == self.terms@[k]@.render_text
                        && span_plain(spans@[k]),
            decreases self.terms@.len() - i,
        {
            spans.push(self.terms[i].to_span());
            i += 1;
        }
        line_from_spans(spans)
    }
}

impl RenderContent {
    /// The display rows as a plain paragraph: one line for each row, one
    /// span for each term. What it paints goes by the painted texts alone.
    pub fn to_paragraph(&self) -> (r: Paragraph<'_>)
        ensures
            paragraph_lines(r) == line_texts(self@),
            paragraph_plain(r),
    {
        let mut tui_lines: Vec<Line> = Vec::new();
        let mut i: usize = 0;
        while i < self.lines.len()
            invariant
                i <= self.lines@.len(),
                tui_lines@.len() == i,
                forall|k: int|
                    0 <= k < i ==> line_spans(#[trigger] tui_lines@[k]) == term_texts(
                        self.lines@[k]@.terms,
                    ) && line_plain(tui_lines@[k]),
            decreases self.lines@.len() - i,
        {
            tui_lines.push(self.lines[i].to_line());
            i += 1;
        }
        paragraph_from_lines(tui_lines)
    }
}

/// What is painted goes by the painted texts alone: display rows whose
/// terms have the same texts, row by row, are painted alike, whatever the
/// classes, the characters and the source rows of the terms.
pub proof fn lemma_line_texts_by_text_alone(a: Seq<LineView>, b: Seq<LineView>)
    requires
        a.len() == b.len(),
        forall|i: int| 0 <= i < a.len() ==> (#[trigger] a[i]).terms.len() == b[i].terms.len(),
        forall|i: int, k: int|
            0 <= i < a.len() && 0 <= k < a[i].terms.len() ==> (#[trigger] a[i].terms[k]).render_text
                == b[i].terms[k].render_text,
    ensures
        line_texts(a) == line_texts(b),
{
    assert forall|i: int| 0 <= i < a.len() implies term_texts(#[trigger] a[i].terms) == term_texts(
        b[i].terms,
    ) by {
        assert(term_texts(a[i].terms) =~= term_texts(b[i].terms));
    }
    assert(line_texts(a) =~= line_texts(b));
}

} // verus!
