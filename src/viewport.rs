//! The row virtualizer: from the scroll position and the height of the
//! viewport, the band of rows that must be drawn, computed directly rather
//! than by laying out every row. All lengths are in one integer unit of the
//! host's choosing (for instance hundredths of a point).
use vstd::prelude::*;

verus! {

/// The rows `first_row .. last_row` (half-open) of a scroll area.
#[derive(Clone, Copy, Debug, PartialEq, Eq, Structural)]
pub struct RowWindow {
    pub first_row: usize,
    pub last_row: usize,
}

/// Row `row`, which spans `[row * line_height, (row + 1) * line_height)`,
/// meets the viewport `[scroll_offset, scroll_offset + viewport_height)`.
pub open spec fn row_visible(row: int, line_height: int, scroll_offset: int, viewport_height: int) -> bool {
    &&& viewport_height > 0
    &&& row * line_height < scroll_offset + viewport_height
    &&& scroll_offset < (row + 1) * line_height
}

pub open spec fn min_int(a: int, b: int) -> int {
    if a < b {
        a
    } else {
        b
    }
}

/// The first row that the viewport shows, or `total_rows` when it shows none
/// for being scrolled past the end.
/// Rows of no height show nowhere: then the window is empty.
pub open spec fn spec_first_row(total_rows: int, line_height: int, scroll_offset: int) -> int {
    if line_height == 0 {
        0
    } else {
        min_int(scroll_offset / line_height, total_rows)
    }
}

/// One past the last row that the viewport shows.
pub open spec fn spec_last_row(
    total_rows: int,
    line_height: int,
    scroll_offset: int,
    viewport_height: int,
) -> int {
    if viewport_height == 0 || line_height == 0 {
        spec_first_row(total_rows, line_height, scroll_offset)
    } else {
        min_int((scroll_offset + viewport_height + line_height - 1) / line_height, total_rows)
    }
}

proof fn lemma_below_next_row(x: int, d: int, row: int)
    requires
        x >= 0,
        d > 0,
    ensures
        (x < (row + 1) * d) == (x / d <= row),
{
    let q = x / d;
    let m = x % d;
    assert(x == q * d + m && 0 <= m < d) by {
        vstd::arithmetic::div_mod::lemma_fundamental_div_mod(x, d);
    }
    assert((x < (row + 1) * d) == (q <= row)) by (nonlinear_arith)
        requires
            x == q * d + m,
            0 <= m < d,
            d > 0,
    ;
}

proof fn lemma_above_row_start(y: int, d: int, row: int)
    requires
        y > 0,
        d > 0,
        row >= 0,
    ensures
        (row * d < y) == (row < (y + d - 1) / d),
{
    let z = y - 1;
    let q = z / d;
    let m = z % d;
    assert(z == q * d + m && 0 <= m < d) by {
        vstd::arithmetic::div_mod::lemma_fundamental_div_mod(z, d);
    }
    assert((y + d - 1) / d == q + 1) by {
        vstd::arithmetic::div_mod::lemma_fundamental_div_mod(y + d - 1, d);
        vstd::arithmetic::div_mod::lemma_div_plus_one(z, d);
    }
    assert((row * d < y) == (row < q + 1)) by (nonlinear_arith)
        requires
            y - 1 == q * d + m,
            0 <= m < d,
            d > 0,
    ;
}

/// The rows of a scroll area of `total_rows` rows, each `line_height` high,
/// that meet the viewport: exactly those whose extent intersects it, clamped
/// to `[0, total_rows)`. Nothing is scanned: the bounds are computed.
pub fn visible_rows(total_rows: usize, line_height: u32, scroll_offset: u64, viewport_height: u64) -> (r:
    RowWindow)
    ensures
        r.first_row <= r.last_row <= total_rows,
        r.first_row == spec_first_row(total_rows as int, line_height as int, scroll_offset as int),
        r.last_row == spec_last_row(
            total_rows as int,
            line_height as int,
            scroll_offset as int,
            viewport_height as int,
        ),
        forall|row: int|
            0 <= row < total_rows ==> ((r.first_row <= row < r.last_row) <==> row_visible(
                row,
                line_height as int,
                scroll_offset as int,
                viewport_height as int,
            )),
{
    if line_height == 0 {
        return RowWindow { first_row: 0, last_row: 0 };
    }
    let lh = line_height as u128;
    let first_wide = scroll_offset as u128 / lh;
    let first: usize = if first_wide < total_rows as u128 {
        first_wide as usize
    } else {
        total_rows
    };
    let last: usize = if viewport_height == 0 {
        first
    } else {
        let end = scroll_offset as u128 + viewport_height as u128;
        let last_wide = (end + lh - 1) / lh;
        if last_wide < total_rows as u128 {
            last_wide as usize
        } else {
            total_rows
        }
    };
    proof {
        let d = line_height as int;
        let off = scroll_offset as int;
        let h = viewport_height as int;
        if h > 0 {
            assert(off / d <= (off + h + d - 1) / d) by {
                vstd::arithmetic::div_mod::lemma_div_is_ordered(off, off + h + d - 1, d);
            }
        }
        assert forall|row: int| 0 <= row < total_rows implies ((first <= row < last) <==> row_visible(
            row,
            d,
            off,
            h,
        )) by {
            lemma_below_next_row(off, d, row);
            if h > 0 {
                lemma_above_row_start(off + h, d, row);
            }
        }
    }
    RowWindow { first_row: first, last_row: last }
}

/// The height of the whole scrollable content, so that the scroll bar keeps
/// its proportions whatever band of rows is drawn.
pub fn content_height(total_rows: usize, line_height: u32) -> (r: u128)
    ensures
        r == total_rows * line_height,
{
    assert(total_rows * line_height <= u128::MAX) by (nonlinear_arith)
        requires
            total_rows <= usize::MAX,
            usize::MAX <= u64::MAX,
            line_height <= u32::MAX,
    ;
    total_rows as u128 * line_height as u128
}

} // verus!
