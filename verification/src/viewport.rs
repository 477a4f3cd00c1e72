//! Page-based viewport arithmetic: which page of the document is on screen,
//! and how wide the line-number gutter is.

use vstd::prelude::*;

verus! {

/// The width of the line-number gutter for a document of `line_count`
/// lines: two more than the number of decimal digits needed beyond the
/// first for the last row number.
pub open spec fn gutter_width_of(line_count: int) -> int {
    log10_floor(
        if line_count - 1 >= 1 {
            line_count - 1
        } else {
            1
        },
    ) + 2
}

/// The power of ten of `x`: how many times `x` can be divided by ten before
/// it becomes a single digit.
pub open spec fn log10_floor(x: int) -> int
    recommends
        x >= 1,
    decreases x,
{
    if x < 10 {
        0
    } else {
        1 + log10_floor(x / 10)
    }
}

/// The first document row of the page the cursor is on.  The view scrolls a
/// whole page at a time: the offset is the greatest multiple of the usable
/// height (`rows - 1`; the bottom row is reserved for the status line) that
/// is no greater than the cursor's row.
pub fn viewport_offset(cursor_row: usize, rows: u16) -> (offset: usize)
    requires
        rows >= 2,
    ensures
        offset == (cursor_row as int / (rows - 1)) * (rows - 1),
        offset <= cursor_row,
        cursor_row - offset < rows - 1,
        offset as int % (rows - 1) == 0,
{
    let usable = (rows - 1) as usize;
    let q = cursor_row / usable;
    proof {
        vstd::arithmetic::div_mod::lemma_fundamental_div_mod(cursor_row as int, usable as int);
        vstd::arithmetic::div_mod::lemma_remainder_upper(cursor_row as int, usable as int);
        vstd::arithmetic::div_mod::lemma_remainder_lower(cursor_row as int, usable as int);
        assert(cursor_row as int == usable * (cursor_row as int / usable as int) + cursor_row as int
            % usable as int);
        assert((q as int) * (usable as int) <= cursor_row);
        vstd::arithmetic::div_mod::lemma_mod_multiples_basic(q as int, usable as int);
    }
    q * usable
}

/// The gutter's width in character cells, as `gutter_width_of` counts it.
pub fn gutter_width(line_count: usize) -> (w: usize)
    requires
        line_count >= 1,
    ensures
        w == gutter_width_of(line_count as int),
{
    let base: usize = if line_count >= 2 {
        line_count - 1
    } else {
        1
    };
    let mut x = base;
    let mut d: usize = 0;
    while x >= 10
        invariant
            x >= 1,
            log10_floor(base as int) == d + log10_floor(x as int),
            9 * d + x <= base,
        decreases x,
    {
        proof {
            vstd::arithmetic::div_mod::lemma_fundamental_div_mod(x as int, 10);
            vstd::arithmetic::div_mod::lemma_remainder_upper(x as int, 10);
            vstd::arithmetic::div_mod::lemma_remainder_lower(x as int, 10);
            assert(x as int / 10 <= x - 9);
            assert(x as int / 10 >= 1);
        }
        x = x / 10;
        d += 1;
    }
    d + 2
}

} // verus!
