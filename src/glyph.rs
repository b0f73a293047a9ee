//! Display width of glyphs.
use vstd::prelude::*;

verus! {

/// Columns that a terminal gives to `c`, as the Unicode width tables have
/// it; `None` for a control character.
pub uninterp spec fn char_columns(c: char) -> Option<usize>;

/// Relies on `unicode_width::UnicodeWidthChar::width`: the columns that `c`
/// occupies, `None` for control characters, one for printable ASCII, and never
/// more than three.
#[verifier::external_body]
fn char_width(c: char) -> (r: Option<usize>)
    ensures
        r == char_columns(c),
        r matches Some(w) ==> w <= 3,
        ' ' <= c <= '~' ==> r == Some(1usize),
{
    unicode_width::UnicodeWidthChar::width(c)
}

/// Columns that a cell showing `c` occupies: a control character takes none.
pub open spec fn glyph_cols(c: char) -> nat {
    match char_columns(c) {
        Some(w) => w as nat,
        None => 0,
    }
}

/// Columns that a cell showing `c` occupies.
pub fn glyph_width(c: char) -> (r: usize)
    ensures
        r == glyph_cols(c),
        r <= 3,
        ' ' <= c <= '~' ==> r == 1,
{
    match char_width(c) {
        Some(w) => w,
        None => 0,
    }
}

} // verus!
