//! Display widths of characters and of row prefixes.

use unicode_width::UnicodeWidthChar;
use vstd::prelude::*;

verus! {

/// Whether `c` is a control code, that is, a character of Unicode's general
/// category Cc: U+0000 to U+001F and U+007F to U+009F.
pub open spec fn is_control_code(c: char) -> bool {
    let code = c as u32;
    code <= 0x1f || (0x7f <= code && code <= 0x9f)
}

/// The answer of the `unicode-width` crate for `c`: the columns that `c`
/// takes on a terminal, or `None` where the crate defines no width.
pub uninterp spec fn char_width(c: char) -> Option<usize>;

/// The columns that the library accounts for a character of the given width:
/// the width where one is defined, and one column where none is.
pub open spec fn columns_for(width: Option<usize>) -> nat {
    match width {
        Some(w) => w as nat,
        None => 1,
    }
}

/// The columns that the library accounts for `c`.
pub open spec fn columns(c: char) -> nat {
    columns_for(char_width(c))
}

/// The columns taken by the first `n` characters of `row`.
pub open spec fn columns_before(row: Seq<char>, n: int) -> nat
    decreases n,
{
    if n <= 0 {
        0
    } else {
        columns_before(row, n - 1) + columns(row[n - 1])
    }
}

/// The columns taken by the whole of `row`.
pub open spec fn row_columns(row: Seq<char>) -> nat {
    columns_before(row, row.len() as int)
}

/// Calls `UnicodeWidthChar::width` of the `unicode-width` crate. Trusted: the
/// result is the crate's answer for `c`, which is `None` exactly for the
/// control codes.
#[verifier::external_body]
pub(crate) fn unicode_width(c: char) -> (r: Option<usize>)
    ensures
        r == char_width(c),
        r is None <==> is_control_code(c),
{
    c.width()
}

/// `char::is_control` of the standard library. Trusted: it holds exactly of
/// the characters of general category Cc.
pub assume_specification[ char::is_control ](c: char) -> (r: bool)
    ensures
        r == is_control_code(c),
;

/// The columns that the library accounts for a character of the given width.
pub fn columns_of(width: Option<usize>) -> (r: usize)
    ensures
        r == columns_for(width),
{
    match width {
        Some(w) => w,
        None => 1,
    }
}

/// The columns taken by the first `n` characters of `row`.
pub(crate) fn prefix_columns(row: &Vec<char>, n: usize) -> (r: usize)
    requires
        n <= row@.len(),
        columns_before(row@, n as int) <= usize::MAX,
    ensures
        r == columns_before(row@, n as int),
{
    let mut total: usize = 0;
    let mut i: usize = 0;
    while i < n
        invariant
            i <= n <= row@.len(),
            total == columns_before(row@, i as int),
            columns_before(row@, n as int) <= usize::MAX,
        decreases n - i,
    {
        proof {
            lemma_columns_before_monotone(row@, i + 1, n as int);
        }
        total = total + columns_of(unicode_width(row[i]));
        i += 1;
    }
    total
}

/// Whether the columns taken by the first `n` characters of `row` fit a
/// `usize`.
pub(crate) fn prefix_columns_fit(row: &Vec<char>, n: usize) -> (r: bool)
    requires
        n <= row@.len(),
    ensures
        r == (columns_before(row@, n as int) <= usize::MAX),
{
    let mut total: usize = 0;
    let mut i: usize = 0;
    while i < n
        invariant
            i <= n <= row@.len(),
            total == columns_before(row@, i as int),
        decreases n - i,
    {
        match total.checked_add(columns_of(unicode_width(row[i]))) {
            Some(sum) => {
                total = sum;
            },
            None => {
                proof {
                    lemma_columns_before_monotone(row@, i + 1, n as int);
                }
                return false;
            },
        }
        i += 1;
    }
    true
}

/// Along a row the columns never decrease: a longer prefix takes at least
/// the columns of a shorter one.
pub proof fn lemma_columns_before_monotone(row: Seq<char>, m: int, n: int)
    requires
        m <= n,
    ensures
        columns_before(row, m) <= columns_before(row, n),
    decreases n - m,
{
    if m < n {
        lemma_columns_before_monotone(row, m, n - 1);
    }
}

} // verus!
