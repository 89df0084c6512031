//! Row geometry of one address region: how many rows it takes, how each row
//! is cut into column chunks, and which addresses a row shows.
use vstd::prelude::*;

verus! {

/// The most columns that one chunk of a row holds.
pub const CHUNK_COLUMNS: usize = 8;

/// The least and the most columns that a row may have.
pub const MIN_COLUMNS: usize = 1;
pub const MAX_COLUMNS: usize = 64;

/// `a / b`, rounded up.
pub open spec fn ceil_div(a: int, b: int) -> int {
    (a + b - 1) / b
}

/// Relies on `num::Integer::div_ceil` for `usize`: the quotient rounded up
/// (it computes `a / b + (a % b != 0)`, and panics only when `b` is zero).
#[verifier::external_body]
fn div_ceil_usize(a: usize, b: usize) -> (r: usize)
    requires
        b > 0,
    ensures
        r == ceil_div(a as int, b as int),
{
    num::Integer::div_ceil(&a, &b)
}

/// The number of rows that `range_len` bytes take at `column_count` bytes a row.
pub fn row_count(range_len: usize, column_count: usize) -> (r: usize)
    requires
        column_count >= 1,
    ensures
        r == ceil_div(range_len as int, column_count as int),
{
    div_ceil_usize(range_len, column_count)
}

/// The number of chunks that a row of `column_count` columns is cut into.
pub fn chunk_count(column_count: usize) -> (r: usize)
    ensures
        r == ceil_div(column_count as int, CHUNK_COLUMNS as int),
{
    div_ceil_usize(column_count, CHUNK_COLUMNS)
}

/// The number of columns in chunk `chunk` of a row: eight, or what is left
/// for the last chunk.
pub fn chunk_width(column_count: usize, chunk: usize) -> (r: usize)
    requires
        chunk < ceil_div(column_count as int, CHUNK_COLUMNS as int),
    ensures
        r as int == if column_count - CHUNK_COLUMNS * chunk < CHUNK_COLUMNS {
            column_count - CHUNK_COLUMNS * chunk
        } else {
            CHUNK_COLUMNS as int
        },
        1 <= r <= CHUNK_COLUMNS,
{
    assert(CHUNK_COLUMNS * chunk < column_count) by (nonlinear_arith)
        requires
            chunk < (column_count + 8 - 1) / 8,
            CHUNK_COLUMNS == 8,
    ;
    let left = column_count - CHUNK_COLUMNS * chunk;
    if left < CHUNK_COLUMNS {
        left
    } else {
        CHUNK_COLUMNS
    }
}

/// The addresses that row `row` of the region `[start, end)` shows: the row
/// begins at `start + row * column_count` and holds up to `column_count`
/// consecutive addresses, cut short at `end`.
pub open spec fn row_addresses(start: int, end: int, column_count: int, row: int) -> Seq<int> {
    let first = start + row * column_count;
    let n = if end - first < column_count {
        if end - first < 0 {
            0
        } else {
            end - first
        }
    } else {
        column_count
    };
    Seq::new(n as nat, |i: int| first + i)
}

/// The addresses of the rows `first_row .. last_row`, row after row.
pub open spec fn rows_addresses(
    start: int,
    end: int,
    column_count: int,
    first_row: int,
    last_row: int,
) -> Seq<int>
    decreases last_row - first_row,
{
    if last_row <= first_row {
        Seq::empty()
    } else {
        rows_addresses(start, end, column_count, first_row, last_row - 1) + row_addresses(
            start,
            end,
            column_count,
            last_row - 1,
        )
    }
}

/// The addresses that row `row` of the region `[start, end)` shows.
pub fn row_cell_addresses(start: usize, end: usize, column_count: usize, row: usize) -> (r: Vec<
    usize,
>)
    requires
        start <= end,
        column_count >= 1,
        row < ceil_div(end - start, column_count as int),
    ensures
        r@.map_values(|a: usize| a as int) == row_addresses(
            start as int,
            end as int,
            column_count as int,
            row as int,
        ),
{
    assert(row * column_count < end - start) by (nonlinear_arith)
        requires
            row < (end - start + column_count - 1) / column_count as int,
            column_count >= 1,
            start <= end,
    ;
    let first = start + row * column_count;
    let ghost n = row_addresses(start as int, end as int, column_count as int, row as int).len();
    let mut r: Vec<usize> = Vec::new();
    let mut i: usize = 0;
    while i < column_count && first + i < end
        invariant
            first == start + row * column_count,
            first < end,
            i <= column_count,
            first + i <= end,
            i <= n,
            n == (if end - first < column_count { end - first } else { column_count as int }),
            r@.len() == i,
            forall|k: int| 0 <= k < i ==> r@[k] == first + k,
        decreases column_count - i,
    {
        r.push(first + i);
        i = i + 1;
    }
    assert(r@.map_values(|a: usize| a as int) =~= row_addresses(
        start as int,
        end as int,
        column_count as int,
        row as int,
    ));
    r
}

/// The addresses that the rows `first_row .. last_row` of the region
/// `[start, end)` show, row after row: every address that a frame reads.
pub fn rows_cell_addresses(
    start: usize,
    end: usize,
    column_count: usize,
    first_row: usize,
    last_row: usize,
) -> (r: Vec<usize>)
    requires
        start <= end,
        column_count >= 1,
        first_row <= last_row <= ceil_div(end - start, column_count as int),
    ensures
        r@.map_values(|a: usize| a as int) == rows_addresses(
            start as int,
            end as int,
            column_count as int,
            first_row as int,
            last_row as int,
        ),
{
    let mut r: Vec<usize> = Vec::new();
    let mut row: usize = first_row;
    while row < last_row
        invariant
            start <= end,
            column_count >= 1,
            first_row <= row <= last_row <= ceil_div(end - start, column_count as int),
            r@.map_values(|a: usize| a as int) == rows_addresses(
                start as int,
                end as int,
                column_count as int,
                first_row as int,
                row as int,
            ),
        decreases last_row - row,
    {
        let mut cells = row_cell_addresses(start, end, column_count, row);
        let ghost before = r@;
        r.append(&mut cells);
        assert(r@.map_values(|a: usize| a as int) =~= before.map_values(|a: usize| a as int)
            + row_addresses(start as int, end as int, column_count as int, row as int));
        row = row + 1;
    }
    r
}

/// Every row of a region but the last is full, and the last holds exactly
/// what is left: `len - (rows - 1) * column_count` addresses, none past the
/// region's end.
pub proof fn lemma_last_row_cells(start: int, len: int, column_count: int)
    requires
        0 <= start,
        0 < len,
        MIN_COLUMNS <= column_count <= MAX_COLUMNS,
    ensures
        ({
            let rows = ceil_div(len, column_count);
            &&& rows >= 1
            &&& forall|row: int|
                0 <= row < rows - 1 ==> #[trigger] row_addresses(
                    start,
                    start + len,
                    column_count,
                    row,
                ).len() == column_count
            &&& row_addresses(start, start + len, column_count, rows - 1).len() == len - (rows - 1)
                * column_count
            &&& row_addresses(start, start + len, column_count, rows).len() == 0
        }),
{
    let rows = ceil_div(len, column_count);
    assert(rows >= 1 && (rows - 1) * column_count < len && len <= rows * column_count)
        by (nonlinear_arith)
        requires
            rows == (len + column_count - 1) / column_count,
            column_count >= 1,
            len > 0,
    ;
    assert forall|row: int| 0 <= row < rows - 1 implies #[trigger] row_addresses(
        start,
        start + len,
        column_count,
        row,
    ).len() == column_count by {
        assert((row + 1) * column_count <= (rows - 1) * column_count) by (nonlinear_arith)
            requires
                row + 1 <= rows - 1,
                column_count >= 1,
        ;
        assert((row + 1) * column_count == row * column_count + column_count) by (nonlinear_arith);
    }
    assert(len - (rows - 1) * column_count <= column_count) by (nonlinear_arith)
        requires
            len <= rows * column_count,
    ;
}

/// The addresses of any band of rows lie in the region `[start, end)`.
pub proof fn lemma_rows_addresses_in_region(
    start: int,
    end: int,
    column_count: int,
    first_row: int,
    last_row: int,
)
    requires
        start <= end,
        column_count >= 1,
        first_row >= 0,
    ensures
        forall|k: int|
            0 <= k < rows_addresses(start, end, column_count, first_row, last_row).len() ==> start
                <= #[trigger] rows_addresses(start, end, column_count, first_row, last_row)[k]
                < end,
    decreases last_row - first_row,
{
    if last_row > first_row {
        lemma_rows_addresses_in_region(start, end, column_count, first_row, last_row - 1);
        let row = last_row - 1;
        assert(row * column_count >= 0) by (nonlinear_arith)
            requires
                row >= 0,
                column_count >= 1,
        ;
        let a = rows_addresses(start, end, column_count, first_row, last_row - 1);
        let b = row_addresses(start, end, column_count, row);
        assert(rows_addresses(start, end, column_count, first_row, last_row) == a + b);
        assert forall|k: int| 0 <= k < (a + b).len() implies start <= #[trigger] (a + b)[k] < end by {
            if k >= a.len() {
                assert((a + b)[k] == b[k - a.len()]);
            } else {
                assert((a + b)[k] == a[k]);
            }
        }
    }
}

} // verus!
