//! Bitmaps: the row-major form that elements hold, the column format of
//! `ESC *`, and the conversion from the one to the other.

use vstd::prelude::*;
use vstd::arithmetic::div_mod::lemma_fundamental_div_mod;
use vstd::arithmetic::div_mod::lemma_fundamental_div_mod_converse;
use vstd::arithmetic::div_mod::lemma_multiply_divide_lt;
use crate::grammar::row_bytes;

verus! {

/// The dot in column `c`, row `y` of a column-format image: 1 for black.
/// Each column holds `height / 8` bytes, the most significant bit topmost;
/// a dot outside the image or the data is white.
pub open spec fn column_dot(columns: Seq<u8>, width: nat, height: nat, c: int, y: int) -> u8 {
    let k = c * (height / 8) + y / 8;
    if 0 <= c < width && 0 <= y < (height / 8) * 8 && k < columns.len() {
        (columns[k] >> ((7 - y % 8) as u8)) & 1u8
    } else {
        0u8
    }
}

/// Eight dots as a byte, the first in the most significant bit.
pub open spec fn pack_dots(d0: u8, d1: u8, d2: u8, d3: u8, d4: u8, d5: u8, d6: u8, d7: u8) -> u8 {
    (d0 << 7u8) | (d1 << 6u8) | (d2 << 5u8) | (d3 << 4u8) | (d4 << 3u8) | (d5 << 2u8) | (d6 << 1u8)
        | d7
}

/// Byte `k` of the row-major bitmap of a column-format image.
pub open spec fn raster_byte(columns: Seq<u8>, width: nat, height: nat, k: int) -> u8 {
    let y = k / (row_bytes(width) as int);
    let c = (k % (row_bytes(width) as int)) * 8;
    pack_dots(
        column_dot(columns, width, height, c, y),
        column_dot(columns, width, height, c + 1, y),
        column_dot(columns, width, height, c + 2, y),
        column_dot(columns, width, height, c + 3, y),
        column_dot(columns, width, height, c + 4, y),
        column_dot(columns, width, height, c + 5, y),
        column_dot(columns, width, height, c + 6, y),
        column_dot(columns, width, height, c + 7, y),
    )
}

/// The row-major bitmap of a column-format image: `height` rows of
/// `row_bytes(width)` bytes, most significant bit leftmost, the bits past
/// the last column white.
pub open spec fn column_raster(columns: Seq<u8>, width: nat, height: nat) -> Seq<u8> {
    Seq::new(row_bytes(width) * height, |k: int| raster_byte(columns, width, height, k))
}

/// Bytes that hold a row of `width` dots.
pub fn bytes_per_row(width: usize) -> (n: usize)
    ensures
        n == row_bytes(width as nat),
{
    if width % 8 == 0 {
        width / 8
    } else {
        width / 8 + 1
    }
}

/// Whether the dot at `(x, y)` of a row-major bitmap is black. A dot whose
/// byte lies outside the data is white.
pub open spec fn raster_dot(data: Seq<u8>, bytes_per_line: nat, x: nat, y: nat) -> bool {
    let k = y * bytes_per_line + x / 8;
    k < data.len() && (data[k as int] >> ((7 - x % 8) as u8)) & 1u8 == 1u8
}

/// Reads the dot at `(x, y)` of a row-major bitmap, most significant bit
/// leftmost.
pub fn pixel_at(data: &[u8], bytes_per_line: usize, x: usize, y: usize) -> (black: bool)
    ensures
        black == raster_dot(data@, bytes_per_line as nat, x as nat, y as nat),
{
    let len: usize = data.len();
    match y.checked_mul(bytes_per_line) {
        None => false,
        Some(row) => match row.checked_add(x / 8) {
            None => false,
            Some(k) => {
                if k < len {
                    let shift: u8 = (7 - x % 8) as u8;
                    (data[k] >> shift) & 1u8 == 1u8
                } else {
                    false
                }
            },
        },
    }
}

/// Each of eight dots can be read back from the byte they were packed into.
proof fn lemma_unpack(d0: u8, d1: u8, d2: u8, d3: u8, d4: u8, d5: u8, d6: u8, d7: u8)
    by (bit_vector)
    requires
        d0 <= 1,
        d1 <= 1,
        d2 <= 1,
        d3 <= 1,
        d4 <= 1,
        d5 <= 1,
        d6 <= 1,
        d7 <= 1,
    ensures
        (pack_dots(d0, d1, d2, d3, d4, d5, d6, d7) >> 7u8) & 1u8 == d0,
        (pack_dots(d0, d1, d2, d3, d4, d5, d6, d7) >> 6u8) & 1u8 == d1,
        (pack_dots(d0, d1, d2, d3, d4, d5, d6, d7) >> 5u8) & 1u8 == d2,
        (pack_dots(d0, d1, d2, d3, d4, d5, d6, d7) >> 4u8) & 1u8 == d3,
        (pack_dots(d0, d1, d2, d3, d4, d5, d6, d7) >> 3u8) & 1u8 == d4,
        (pack_dots(d0, d1, d2, d3, d4, d5, d6, d7) >> 2u8) & 1u8 == d5,
        (pack_dots(d0, d1, d2, d3, d4, d5, d6, d7) >> 1u8) & 1u8 == d6,
        (pack_dots(d0, d1, d2, d3, d4, d5, d6, d7) >> 0u8) & 1u8 == d7,
{
}

/// A dot of a column-format image is 0 or 1.
proof fn lemma_dot_is_a_bit(columns: Seq<u8>, width: nat, height: nat, c: int, y: int)
    ensures
        column_dot(columns, width, height, c, y) <= 1,
{
    let k = c * (height / 8) + y / 8;
    if 0 <= c < width && 0 <= y < (height / 8) * 8 && k < columns.len() {
        let b = columns[k];
        let s = (7 - y % 8) as u8;
        assert((b >> s) & 1u8 <= 1) by (bit_vector);
    }
}

/// The conversion keeps every dot in its place: the dot at `(x, y)` of the
/// bitmap that a column-format image is converted to is black exactly where
/// the image has a dot in column `x`, row `y`.
pub proof fn lemma_converted_dot(columns: Seq<u8>, width: nat, height: nat, x: nat, y: nat)
    requires
        x < row_bytes(width) * 8,
        y < height,
    ensures
        raster_dot(column_raster(columns, width, height), row_bytes(width), x, y) == (column_dot(
            columns,
            width,
            height,
            x as int,
            y as int,
        ) == 1u8),
{
    let per_row = row_bytes(width) as int;
    let bx = (x / 8) as int;
    let k = y * per_row + bx;
    lemma_row_index(per_row, y as int, bx, height as int, 0);
    lemma_fundamental_div_mod_converse(k, per_row, y as int, bx);
    let c = bx * 8;
    lemma_dot_is_a_bit(columns, width, height, c, y as int);
    lemma_dot_is_a_bit(columns, width, height, c + 1, y as int);
    lemma_dot_is_a_bit(columns, width, height, c + 2, y as int);
    lemma_dot_is_a_bit(columns, width, height, c + 3, y as int);
    lemma_dot_is_a_bit(columns, width, height, c + 4, y as int);
    lemma_dot_is_a_bit(columns, width, height, c + 5, y as int);
    lemma_dot_is_a_bit(columns, width, height, c + 6, y as int);
    lemma_dot_is_a_bit(columns, width, height, c + 7, y as int);
    lemma_unpack(
        column_dot(columns, width, height, c, y as int),
        column_dot(columns, width, height, c + 1, y as int),
        column_dot(columns, width, height, c + 2, y as int),
        column_dot(columns, width, height, c + 3, y as int),
        column_dot(columns, width, height, c + 4, y as int),
        column_dot(columns, width, height, c + 5, y as int),
        column_dot(columns, width, height, c + 6, y as int),
        column_dot(columns, width, height, c + 7, y as int),
    );
    assert(column_raster(columns, width, height)[k] == raster_byte(columns, width, height, k));
}

/// Gray level, 0 for black, in which an image of the given print density is
/// drawn: the three lightest densities are drawn in lighter grays.
pub fn ink_gray(density: u8) -> (gray: u8)
    ensures
        gray == (if density == 0 {
            180u8
        } else if density == 1 {
            130u8
        } else if density == 2 {
            80u8
        } else {
            0u8
        }),
{
    match density {
        0 => 180,
        1 => 130,
        2 => 80,
        _ => 0,
    }
}

/// A dot while the conversion is under way: the dot itself once its
/// column lies before `col`, or its column is `col` and its row lies before
/// `rows`; white until then.
pub open spec fn scattered_dot(
    columns: Seq<u8>,
    width: nat,
    height: nat,
    c: int,
    y: int,
    col: int,
    rows: int,
) -> u8 {
    if c < col || (c == col && y < rows) {
        column_dot(columns, width, height, c, y)
    } else {
        0u8
    }
}

/// Byte `bx` of row `y` while the conversion is under way.
pub open spec fn scattered_byte(
    columns: Seq<u8>,
    width: nat,
    height: nat,
    bx: int,
    y: int,
    col: int,
    rows: int,
) -> u8 {
    pack_dots(
        scattered_dot(columns, width, height, bx * 8, y, col, rows),
        scattered_dot(columns, width, height, bx * 8 + 1, y, col, rows),
        scattered_dot(columns, width, height, bx * 8 + 2, y, col, rows),
        scattered_dot(columns, width, height, bx * 8 + 3, y, col, rows),
        scattered_dot(columns, width, height, bx * 8 + 4, y, col, rows),
        scattered_dot(columns, width, height, bx * 8 + 5, y, col, rows),
        scattered_dot(columns, width, height, bx * 8 + 6, y, col, rows),
        scattered_dot(columns, width, height, bx * 8 + 7, y, col, rows),
    )
}

/// Byte `bx` of row `y` of a bitmap of `per_row` bytes a row.
pub open spec fn row_byte_at(raster: Seq<u8>, per_row: int, bx: int, y: int) -> u8 {
    raster[y * per_row + bx]
}

/// Whether the bitmap holds the dots of the columns before `col` and of
/// column `col` in the rows before `rows`, and is white elsewhere.
pub open spec fn scattered(
    raster: Seq<u8>,
    columns: Seq<u8>,
    width: nat,
    height: nat,
    col: int,
    rows: int,
) -> bool {
    &&& raster.len() == row_bytes(width) * height
    &&& forall|y: int, bx: int|
        0 <= y < height && 0 <= bx < row_bytes(width) ==> #[trigger] row_byte_at(
            raster,
            row_bytes(width) as int,
            bx,
            y,
        ) == scattered_byte(columns, width, height, bx, y, col, rows)
}

/// Setting one dot of eight that was white is a bitwise or.
pub(crate) proof fn lemma_pack_or(d0: u8, d1: u8, d2: u8, d3: u8, d4: u8, d5: u8, d6: u8, d7: u8, p: u8)
    by (bit_vector)
    ensures
        pack_dots(0, d1, d2, d3, d4, d5, d6, d7) | (p << 7u8) == pack_dots(
            p,
            d1,
            d2,
            d3,
            d4,
            d5,
            d6,
            d7,
        ),
        pack_dots(d0, 0, d2, d3, d4, d5, d6, d7) | (p << 6u8) == pack_dots(
            d0,
            p,
            d2,
            d3,
            d4,
            d5,
            d6,
            d7,
        ),
        pack_dots(d0, d1, 0, d3, d4, d5, d6, d7) | (p << 5u8) == pack_dots(
            d0,
            d1,
            p,
            d3,
            d4,
            d5,
            d6,
            d7,
        ),
        pack_dots(d0, d1, d2, 0, d4, d5, d6, d7) | (p << 4u8) == pack_dots(
            d0,
            d1,
            d2,
            p,
            d4,
            d5,
            d6,
            d7,
        ),
        pack_dots(d0, d1, d2, d3, 0, d5, d6, d7) | (p << 3u8) == pack_dots(
            d0,
            d1,
            d2,
            d3,
            p,
            d5,
            d6,
            d7,
        ),
        pack_dots(d0, d1, d2, d3, d4, 0, d6, d7) | (p << 2u8) == pack_dots(
            d0,
            d1,
            d2,
            d3,
            d4,
            p,
            d6,
            d7,
        ),
        pack_dots(d0, d1, d2, d3, d4, d5, 0, d7) | (p << 1u8) == pack_dots(
            d0,
            d1,
            d2,
            d3,
            d4,
            d5,
            p,
            d7,
        ),
        pack_dots(d0, d1, d2, d3, d4, d5, d6, 0) | (p << 0u8) == pack_dots(
            d0,
            d1,
            d2,
            d3,
            d4,
            d5,
            d6,
            p,
        ),
        pack_dots(0, 0, 0, 0, 0, 0, 0, 0) == 0,
{
}

/// Two bytes of a bitmap lie at the same index only if they are the same
/// byte of the same row.
pub(crate) proof fn lemma_row_index(per_row: int, y: int, bx: int, y0: int, bx0: int)
    requires
        0 <= bx < per_row,
        0 <= bx0 < per_row,
        0 <= y,
        0 <= y0,
    ensures
        y * per_row + bx == y0 * per_row + bx0 ==> y == y0 && bx == bx0,
        0 <= y * per_row + bx,
        y < y0 ==> y * per_row + bx < y0 * per_row,
        y0 * per_row == per_row * y0,
{
    assert(y0 * per_row == per_row * y0) by (nonlinear_arith);
    assert(0 <= y * per_row) by (nonlinear_arith)
        requires
            0 <= y,
            0 <= per_row,
    ;
    if y < y0 {
        assert((y + 1) * per_row <= y0 * per_row) by (nonlinear_arith)
            requires
                y + 1 <= y0,
                0 <= per_row,
        ;
        assert((y + 1) * per_row == y * per_row + per_row) by (nonlinear_arith);
    }
    if y0 < y {
        assert((y0 + 1) * per_row <= y * per_row) by (nonlinear_arith)
            requires
                y0 + 1 <= y,
                0 <= per_row,
        ;
        assert((y0 + 1) * per_row == y0 * per_row + per_row) by (nonlinear_arith);
    }
}

/// A bitmap that is all white holds the dots of no column.
pub(crate) proof fn lemma_scatter_begins(raster: Seq<u8>, columns: Seq<u8>, width: nat, height: nat)
    requires
        raster.len() == row_bytes(width) * height,
        forall|k: int| 0 <= k < raster.len() ==> raster[k] == 0,
    ensures
        scattered(raster, columns, width, height, 0, 0),
{
    let per_row = row_bytes(width) as int;
    lemma_pack_or(0, 0, 0, 0, 0, 0, 0, 0, 0);
    assert forall|y: int, bx: int| 0 <= y < height && 0 <= bx < per_row implies #[trigger] row_byte_at(
        raster,
        per_row,
        bx,
        y,
    ) == scattered_byte(columns, width, height, bx, y, 0, 0) by {
        lemma_row_index(per_row, y, bx, height as int, 0);
    }
}

/// Once the rows of column `col` that are left hold no black dot, the
/// column is done.
pub(crate) proof fn lemma_scatter_next_column(
    raster: Seq<u8>,
    columns: Seq<u8>,
    width: nat,
    height: nat,
    col: int,
    rows: int,
)
    requires
        scattered(raster, columns, width, height, col, rows),
        forall|y: int| rows <= y ==> column_dot(columns, width, height, col, y) == 0,
    ensures
        scattered(raster, columns, width, height, col + 1, 0),
{
    let per_row = row_bytes(width) as int;
    assert forall|y: int, bx: int| 0 <= y < height && 0 <= bx < per_row implies #[trigger] row_byte_at(
        raster,
        per_row,
        bx,
        y,
    ) == scattered_byte(columns, width, height, bx, y, col + 1, 0) by {
        assert(row_byte_at(raster, per_row, bx, y) == scattered_byte(
            columns,
            width,
            height,
            bx,
            y,
            col,
            rows,
        ));
    }
}

/// Or-ing the dot of column `col`, row `rows` into its byte takes the
/// conversion one row further.
pub(crate) proof fn lemma_scatter_step(
    before: Seq<u8>,
    after: Seq<u8>,
    columns: Seq<u8>,
    width: nat,
    height: nat,
    col: int,
    rows: int,
)
    requires
        scattered(before, columns, width, height, col, rows),
        0 <= col < width,
        0 <= rows < height,
        ({
            let k = rows * row_bytes(width) + col / 8;
            after == before.update(
                k,
                before[k] | (column_dot(columns, width, height, col, rows) << ((7 - col % 8) as u8)),
            )
        }),
    ensures
        scattered(after, columns, width, height, col, rows + 1),
{
    let per_row = row_bytes(width) as int;
    let k = rows * per_row + col / 8;
    let p = column_dot(columns, width, height, col, rows);
    lemma_row_index(per_row, rows, col / 8, height as int, 0);
    assert forall|y: int, bx: int| 0 <= y < height && 0 <= bx < per_row implies #[trigger] row_byte_at(
        after,
        per_row,
        bx,
        y,
    ) == scattered_byte(columns, width, height, bx, y, col, rows + 1) by {
        lemma_row_index(per_row, y, bx, rows, col / 8);
        lemma_row_index(per_row, y, bx, height as int, 0);
        assert(row_byte_at(before, per_row, bx, y) == scattered_byte(
            columns,
            width,
            height,
            bx,
            y,
            col,
            rows,
        ));
        if y == rows && bx == col / 8 {
            let c = bx * 8;
            lemma_pack_or(
                scattered_dot(columns, width, height, c, y, col, rows),
                scattered_dot(columns, width, height, c + 1, y, col, rows),
                scattered_dot(columns, width, height, c + 2, y, col, rows),
                scattered_dot(columns, width, height, c + 3, y, col, rows),
                scattered_dot(columns, width, height, c + 4, y, col, rows),
                scattered_dot(columns, width, height, c + 5, y, col, rows),
                scattered_dot(columns, width, height, c + 6, y, col, rows),
                scattered_dot(columns, width, height, c + 7, y, col, rows),
                p,
            );
        }
    }
}

/// When every column is done the bitmap is the image.
pub(crate) proof fn lemma_scatter_ends(raster: Seq<u8>, columns: Seq<u8>, width: nat, height: nat)
    requires
        scattered(raster, columns, width, height, width as int, 0),
    ensures
        raster == column_raster(columns, width, height),
{
    let per_row = row_bytes(width) as int;
    let image = column_raster(columns, width, height);
    assert forall|k: int| 0 <= k < raster.len() implies raster[k] == image[k] by {
        assert(per_row > 0) by (nonlinear_arith)
            requires
                0 <= k < per_row * height,
                per_row >= 0,
        ;
        let y = k / per_row;
        let bx = k % per_row;
        lemma_fundamental_div_mod(k, per_row);
        lemma_multiply_divide_lt(k, per_row, height as int);
        assert(k == y * per_row + bx) by (nonlinear_arith)
            requires
                k == per_row * y + bx,
        ;
        assert(row_byte_at(raster, per_row, bx, y) == scattered_byte(
            columns,
            width,
            height,
            bx,
            y,
            width as int,
            0,
        ));
    }
    assert(raster =~= image);
}

} // verus!
