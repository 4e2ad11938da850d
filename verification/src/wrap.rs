//! Soft wrapping as mathematics: which display rows a document gives in a
//! viewport, and what holds of them.

use crate::render::{term_of, LineView, TermView};
use crate::viewport::{first_row, last_row, Viewport};
use vstd::prelude::*;

verus! {

/// The columns that `terms` take together.
pub open spec fn terms_width(terms: Seq<TermView>) -> nat
    decreases terms.len(),
{
    if terms.len() == 0 {
        0
    } else {
        terms_width(terms.drop_last()) + terms.last().render_width
    }
}

/// The render terms of a source row.
pub open spec fn row_terms(chars: Seq<char>, tab_width: nat) -> Seq<TermView> {
    chars.map_values(|c: char| term_of(c, tab_width))
}

/// The display rows that `terms` give when `current` is the row in progress.
/// A term joins the row in progress where the row with it takes no more than
/// `width` columns; otherwise the row is closed and the term starts the next
/// one. The row in progress is closed when the terms are exhausted.
pub open spec fn wrap_terms(
    terms: Seq<TermView>,
    width: nat,
    row: nat,
    current: Seq<TermView>,
) -> Seq<LineView>
    decreases terms.len(),
{
    if terms.len() == 0 {
        seq![LineView { terms: current, src_line_index: row }]
    } else if terms_width(current) + terms[0].render_width <= width {
        wrap_terms(terms.drop_first(), width, row, current.push(terms[0]))
    } else {
        seq![LineView { terms: current, src_line_index: row }] + wrap_terms(
            terms.drop_first(),
            width,
            row,
            seq![terms[0]],
        )
    }
}

/// The display rows of source row `row`, which holds `chars`.
pub open spec fn wrap_row(chars: Seq<char>, tab_width: nat, width: nat, row: nat) -> Seq<
    LineView,
> {
    wrap_terms(row_terms(chars, tab_width), width, row, Seq::empty())
}

/// The display rows of the source rows from `from` up to, not including,
/// `to`, in order.
pub open spec fn wrap_rows(
    rows: Seq<Seq<char>>,
    tab_width: nat,
    width: nat,
    from: int,
    to: int,
) -> Seq<LineView>
    decreases to - from,
{
    if to <= from {
        Seq::empty()
    } else {
        wrap_rows(rows, tab_width, width, from, to - 1) + wrap_row(
            rows[to - 1],
            tab_width,
            width,
            (to - 1) as nat,
        )
    }
}

/// The first `limit` of `lines`, or all of them where they are fewer.
pub open spec fn first_lines(lines: Seq<LineView>, limit: nat) -> Seq<LineView> {
    if lines.len() <= limit {
        lines
    } else {
        lines.take(limit as int)
    }
}

/// The display rows of a document in a viewport: the rows that its source
/// rows from the first shown to the last reached give, cut off after as many
/// as the viewport is high. A document without rows gives none.
pub open spec fn layout(rows: Seq<Seq<char>>, viewport: Viewport, tab_width: nat) -> Seq<
    LineView,
> {
    if rows.len() == 0 {
        Seq::empty()
    } else {
        first_lines(
            wrap_rows(
                rows,
                tab_width,
                viewport.width as nat,
                first_row(rows.len(), viewport),
                last_row(rows.len(), viewport) + 1,
            ),
            viewport.height as nat,
        )
    }
}

/// Whether a display row keeps to `width` columns. A row of a single term
/// does in any case: a term wider than the viewport stands alone.
pub open spec fn line_fits(line: LineView, width: nat) -> bool {
    terms_width(line.terms) <= width || line.terms.len() == 1
}

/// Whether every row of `lines` keeps to `width` columns or holds a single
/// term.
pub open spec fn lines_fit(lines: Seq<LineView>, width: nat) -> bool {
    forall|i: int| 0 <= i < lines.len() ==> line_fits(#[trigger] lines[i], width)
}

/// Whether every row of `lines` carries the index of a source row from
/// `from` up to, not including, `to`.
pub open spec fn lines_within(lines: Seq<LineView>, from: int, to: int) -> bool {
    forall|i: int| 0 <= i < lines.len() ==> from <= (#[trigger] lines[i]).src_line_index < to
}

/// Whether the rows of `lines` follow the order of their source rows.
pub open spec fn lines_ordered(lines: Seq<LineView>) -> bool {
    forall|i: int, j: int|
        0 <= i <= j < lines.len() ==> (#[trigger] lines[i]).src_line_index <= (
        #[trigger] lines[j]).src_line_index
}

/// Whether each row of `lines` but the last was closed for want of room:
/// the row after it is not empty, and its first term would have taken the
/// row over `width` columns.
pub open spec fn lines_packed(lines: Seq<LineView>, width: nat) -> bool {
    forall|i: int|
        0 <= i < lines.len() - 1 ==> (#[trigger] lines[i + 1]).terms.len() > 0 && terms_width(
            lines[i].terms,
        ) + lines[i + 1].terms[0].render_width > width
}

/// The terms of `lines`, joined in order.
pub open spec fn joined_terms(lines: Seq<LineView>) -> Seq<TermView>
    decreases lines.len(),
{
    if lines.len() == 0 {
        Seq::empty()
    } else {
        joined_terms(lines.drop_last()) + lines.last().terms
    }
}

/// The display rows of a range of source rows are those of its first part
/// followed by those of the rest.
pub proof fn lemma_wrap_rows_split(
    rows: Seq<Seq<char>>,
    tab_width: nat,
    width: nat,
    from: int,
    mid: int,
    to: int,
)
    requires
        from <= mid <= to,
    ensures
        wrap_rows(rows, tab_width, width, from, to) == wrap_rows(rows, tab_width, width, from, mid)
            + wrap_rows(rows, tab_width, width, mid, to),
    decreases to - mid,
{
    if mid < to {
        lemma_wrap_rows_split(rows, tab_width, width, from, mid, to - 1);
    }
}

/// Wrapping closes at least one display row.
pub proof fn lemma_wrap_terms_nonempty(
    terms: Seq<TermView>,
    width: nat,
    row: nat,
    current: Seq<TermView>,
)
    ensures
        wrap_terms(terms, width, row, current).len() >= 1,
    decreases terms.len(),
{
    if terms.len() > 0 {
        lemma_wrap_terms_nonempty(terms.drop_first(), width, row, current.push(terms[0]));
        lemma_wrap_terms_nonempty(terms.drop_first(), width, row, seq![terms[0]]);
    }
}

/// Cutting off two runs of rows laid end to end: where the first run fills
/// the limit, the second adds nothing; where it does not, the second is cut
/// off at what the first leaves.
pub proof fn lemma_first_lines_concat(head: Seq<LineView>, tail: Seq<LineView>, limit: nat)
    ensures
        head.len() >= limit ==> first_lines(head + tail, limit) == first_lines(head, limit),
        head.len() <= limit ==> first_lines(head + tail, limit) == head + first_lines(
            tail,
            (limit - head.len()) as nat,
        ),
{
}

/// Joining the terms of two runs of rows laid end to end joins what each
/// run gives.
pub proof fn lemma_joined_terms_concat(head: Seq<LineView>, tail: Seq<LineView>)
    ensures
        joined_terms(head + tail) == joined_terms(head) + joined_terms(tail),
    decreases tail.len(),
{
    if tail.len() > 0 {
        lemma_joined_terms_concat(head, tail.drop_last());
        assert((head + tail).drop_last() =~= head + tail.drop_last());
    }
}

/// Wrapping keeps the terms and their order: the display rows, joined, are
/// the row in progress followed by the terms that were still to place.
pub proof fn lemma_wrap_terms_joined(
    terms: Seq<TermView>,
    width: nat,
    row: nat,
    current: Seq<TermView>,
)
    ensures
        joined_terms(wrap_terms(terms, width, row, current)) == current + terms,
    decreases terms.len(),
{
    let closed = seq![LineView { terms: current, src_line_index: row }];
    assert(joined_terms(closed.drop_last()) =~= Seq::<TermView>::empty());
    if terms.len() > 0 {
        if terms_width(current) + terms[0].render_width <= width {
            lemma_wrap_terms_joined(terms.drop_first(), width, row, current.push(terms[0]));
        } else {
            let tail = wrap_terms(terms.drop_first(), width, row, seq![terms[0]]);
            lemma_wrap_terms_joined(terms.drop_first(), width, row, seq![terms[0]]);
            lemma_joined_terms_concat(closed, tail);
        }
    }
}

/// Where the row in progress keeps to the width, so does every display row
/// that wrapping closes, and each carries the index of the source row.
pub proof fn lemma_wrap_terms_lines(
    terms: Seq<TermView>,
    width: nat,
    row: nat,
    current: Seq<TermView>,
)
    requires
        terms_width(current) <= width || current.len() == 1,
    ensures
        lines_fit(wrap_terms(terms, width, row, current), width),
        lines_within(wrap_terms(terms, width, row, current), row as int, row as int + 1),
    decreases terms.len(),
{
    if terms.len() > 0 {
        if terms_width(current) + terms[0].render_width <= width {
            let joined = current.push(terms[0]);
            assert(joined.drop_last() =~= current);
            lemma_wrap_terms_lines(terms.drop_first(), width, row, joined);
        } else {
            lemma_wrap_terms_lines(terms.drop_first(), width, row, seq![terms[0]]);
        }
    }
}

/// The display row that wrapping closes first begins with the row in
/// progress.
pub proof fn lemma_wrap_terms_first_line(
    terms: Seq<TermView>,
    width: nat,
    row: nat,
    current: Seq<TermView>,
)
    ensures
        wrap_terms(terms, width, row, current).len() >= 1,
        current.is_prefix_of(wrap_terms(terms, width, row, current)[0].terms),
    decreases terms.len(),
{
    if terms.len() > 0 && terms_width(current) + terms[0].render_width <= width {
        lemma_wrap_terms_first_line(terms.drop_first(), width, row, current.push(terms[0]));
    }
}

/// Wrapping is greedy: a display row is closed only where the next term
/// does not fit, and that term begins the row after it.
pub proof fn lemma_wrap_terms_packed(
    terms: Seq<TermView>,
    width: nat,
    row: nat,
    current: Seq<TermView>,
)
    ensures
        lines_packed(wrap_terms(terms, width, row, current), width),
    decreases terms.len(),
{
    if terms.len() > 0 {
        if terms_width(current) + terms[0].render_width <= width {
            lemma_wrap_terms_packed(terms.drop_first(), width, row, current.push(terms[0]));
        } else {
            let closed = seq![LineView { terms: current, src_line_index: row }];
            let tail = wrap_terms(terms.drop_first(), width, row, seq![terms[0]]);
            let all = closed + tail;
            lemma_wrap_terms_packed(terms.drop_first(), width, row, seq![terms[0]]);
            lemma_wrap_terms_first_line(terms.drop_first(), width, row, seq![terms[0]]);
            assert forall|i: int| 0 <= i < all.len() - 1 implies (#[trigger] all[i + 1]).terms.len()
                > 0 && terms_width(all[i].terms) + all[i + 1].terms[0].render_width > width by {
                if i > 0 {
                    assert(all[i + 1] == tail[(i - 1) + 1]);
                }
            }
        }
    }
}

/// The columns of a run of terms are at least those of each of its terms.
pub proof fn lemma_terms_width_bounds(terms: Seq<TermView>, k: int)
    requires
        0 <= k < terms.len(),
    ensures
        terms[k].render_width <= terms_width(terms),
    decreases terms.len(),
{
    if k < terms.len() - 1 {
        lemma_terms_width_bounds(terms.drop_last(), k);
    }
}

/// Every display row of a range of source rows keeps to the width or holds a
/// single term, carries the index of a source row of the range, and follows
/// the display rows of the source rows before its own.
pub proof fn lemma_wrap_rows_lines(
    rows: Seq<Seq<char>>,
    tab_width: nat,
    width: nat,
    from: int,
    to: int,
)
    requires
        0 <= from,
        to <= rows.len(),
    ensures
        lines_fit(wrap_rows(rows, tab_width, width, from, to), width),
        lines_within(wrap_rows(rows, tab_width, width, from, to), from, to),
        lines_ordered(wrap_rows(rows, tab_width, width, from, to)),
    decreases to - from,
{
    if from < to {
        lemma_wrap_rows_lines(rows, tab_width, width, from, to - 1);
        lemma_wrap_terms_lines(
            row_terms(rows[to - 1], tab_width),
            width,
            (to - 1) as nat,
            Seq::empty(),
        );
    }
}

/// Soft wrapping alters nothing: the display rows of a source row, joined,
/// hold the render terms of the row's characters, in order.
pub proof fn lemma_wrap_row_keeps_terms(chars: Seq<char>, tab_width: nat, width: nat, row: nat)
    ensures
        joined_terms(wrap_row(chars, tab_width, width, row)) == row_terms(chars, tab_width),
{
    lemma_wrap_terms_joined(row_terms(chars, tab_width), width, row, Seq::empty());
}

/// The display rows of a source row are packed greedily: each keeps to the
/// width or holds a single term, and each but the last is followed by a
/// term that did not fit in it.
pub proof fn lemma_wrap_row_packed(chars: Seq<char>, tab_width: nat, width: nat, row: nat)
    ensures
        lines_fit(wrap_row(chars, tab_width, width, row), width),
        lines_packed(wrap_row(chars, tab_width, width, row), width),
{
    lemma_wrap_terms_lines(row_terms(chars, tab_width), width, row, Seq::empty());
    lemma_wrap_terms_packed(row_terms(chars, tab_width), width, row, Seq::empty());
}

/// A layout has no more display rows than the viewport is high.
pub proof fn lemma_layout_height(rows: Seq<Seq<char>>, viewport: Viewport, tab_width: nat)
    ensures
        layout(rows, viewport, tab_width).len() <= viewport.height,
{
}

/// A viewport without height shows nothing, whatever the document.
pub proof fn lemma_layout_zero_height(rows: Seq<Seq<char>>, viewport: Viewport, tab_width: nat)
    requires
        viewport.height == 0,
    ensures
        layout(rows, viewport, tab_width) == Seq::<LineView>::empty(),
{
}

/// In a viewport without width a term that takes a column stands alone in
/// its display row.
pub proof fn lemma_layout_zero_width(
    rows: Seq<Seq<char>>,
    viewport: Viewport,
    tab_width: nat,
    i: int,
    k: int,
)
    requires
        viewport.width == 0,
        0 <= i < layout(rows, viewport, tab_width).len(),
        0 <= k < layout(rows, viewport, tab_width)[i].terms.len(),
        layout(rows, viewport, tab_width)[i].terms[k].render_width > 0,
    ensures
        layout(rows, viewport, tab_width)[i].terms.len() == 1,
{
    lemma_layout_lines(rows, viewport, tab_width);
    lemma_terms_width_bounds(layout(rows, viewport, tab_width)[i].terms, k);
}

/// A layout is a function of the rows, the row anchor, the extent and the
/// tab width: laying out again gives the same display rows, and the column
/// anchor has no part in it.
pub proof fn lemma_layout_deterministic(
    rows_a: Seq<Seq<char>>,
    viewport_a: Viewport,
    tab_width_a: nat,
    rows_b: Seq<Seq<char>>,
    viewport_b: Viewport,
    tab_width_b: nat,
)
    requires
        rows_a == rows_b,
        viewport_a.anchor_row == viewport_b.anchor_row,
        viewport_a.width == viewport_b.width,
        viewport_a.height == viewport_b.height,
        tab_width_a == tab_width_b,
    ensures
        layout(rows_a, viewport_a, tab_width_a) == layout(rows_b, viewport_b, tab_width_b),
{
}

/// Every display row of a layout keeps to the viewport's width or holds a
/// single term, and carries the index of a source row between the first
/// shown and the last reached; the display rows follow the order of the
/// source rows.
pub proof fn lemma_layout_lines(rows: Seq<Seq<char>>, viewport: Viewport, tab_width: nat)
    ensures
        lines_fit(layout(rows, viewport, tab_width), viewport.width as nat),
        lines_within(
            layout(rows, viewport, tab_width),
            first_row(rows.len(), viewport),
            last_row(rows.len(), viewport) + 1,
        ),
        lines_ordered(layout(rows, viewport, tab_width)),
{
    if rows.len() > 0 {
        lemma_wrap_rows_lines(
            rows,
            tab_width,
            viewport.width as nat,
            first_row(rows.len(), viewport),
            last_row(rows.len(), viewport) + 1,
        );
    }
}

} // verus!
