//! Pure transforms between the logical 34x9 grid and the module's wire formats.

use crate::widget::Shape;
use crate::widget::UpdatableWidget;
use vstd::prelude::*;

verus! {

/// Why a widget's output cannot be placed into a frame.
#[derive(Clone, Copy, Debug, PartialEq, Eq, Structural)]
pub enum PlacementError {
    /// The widget would reach beyond the 34x9 frame.
    OutOfBounds,
    /// The number of brightness values is not width times height.
    ShapeMismatch,
}

/// A `shape` placed with its top left corner at column `x`, row `y` lies
/// within the frame.
pub open spec fn within_frame(shape: Shape, x: int, y: int) -> bool {
    x + shape.x <= 9 && y + shape.y <= 34
}

/// `len` brightness values of the given `shape` can be placed at column `x`,
/// row `y`.
pub open spec fn placeable(len: int, shape: Shape, x: int, y: int) -> bool {
    within_frame(shape, x, y) && len == shape.x * shape.y
}

/// Cell `(row, col)` of a frame after `values` of the given `shape` were
/// placed at column `x`, row `y`: the widget's value inside its rectangle,
/// and outside it `under`, what the frame held there before.
pub open spec fn placed_cell(
    under: u8,
    values: Seq<u8>,
    shape: Shape,
    x: int,
    y: int,
    row: int,
    col: int,
) -> u8 {
    if y <= row < y + shape.y && x <= col < x + shape.x {
        values[(row - y) * shape.x + (col - x)]
    } else {
        under
    }
}

/// `out` is `frame` with `values` placed at column `x`, row `y`.
pub open spec fn is_placement(
    out: [[u8; 9]; 34],
    frame: [[u8; 9]; 34],
    values: Seq<u8>,
    shape: Shape,
    x: int,
    y: int,
) -> bool {
    forall|row: int, col: int|
        0 <= row < 34 && 0 <= col < 9 ==> #[trigger] out[row][col] == placed_cell(
            frame[row][col],
            values,
            shape,
            x,
            y,
            row,
            col,
        )
}

/// Number of LED rows of the module.
pub const ROWS: usize = 34;

/// Number of LED columns of the module.
pub const COLS: usize = 9;

/// Length in bytes of a bit-packed frame.
pub const PACKED_LEN: usize = 39;

/// Bit `i` of a packed byte sequence: bit `i % 8` (least significant first)
/// of byte `i / 8`.
pub open spec fn packed_bit(bytes: Seq<u8>, i: int) -> bool {
    (bytes[i / 8] >> ((i % 8) as u8)) & 1u8 == 1u8
}

/// All bits of a byte sequence, in wire order.
pub open spec fn bits_of(bytes: Seq<u8>) -> Seq<bool> {
    Seq::new(8 * bytes.len(), |i: int| packed_bit(bytes, i))
}

/// The LEDs of a grid as one sequence, row after row.
pub open spec fn led_bits(grid: [[bool; 9]; 34]) -> Seq<bool> {
    Seq::new(306, |i: int| grid[i / 9][i % 9])
}

/// The bits of a packed frame that shows `grid`: LED `(row, col)` is bit
/// `row * 9 + col`, and the six bits after the last LED are clear.
pub open spec fn frame_bits(grid: [[bool; 9]; 34]) -> Seq<bool> {
    led_bits(grid) + Seq::new(6, |i: int| false)
}

/// The grid as a sequence of rows.
pub open spec fn grid_view<const W: usize, const H: usize>(grid: [[u8; W]; H]) -> Seq<Seq<u8>> {
    Seq::new(H as nat, |r: int| grid[r]@)
}

/// The transpose of a rectangular sequence of rows that are `width` long.
pub open spec fn transposed(rows: Seq<Seq<u8>>, width: nat) -> Seq<Seq<u8>> {
    Seq::new(width, |c: int| Seq::new(rows.len(), |r: int| rows[r][c]))
}

/// Every row of `rows` is `width` long.
pub open spec fn rectangular(rows: Seq<Seq<u8>>, width: nat) -> bool {
    forall|r: int| 0 <= r < rows.len() ==> (#[trigger] rows[r]).len() == width
}

proof fn lemma_set_bit(x: u8, k: u8, j: u8)
    by (bit_vector)
    requires
        k < 8,
        j < 8,
    ensures
        (((x | (1u8 << k)) >> j) & 1u8 == 1u8) == (j == k || (x >> j) & 1u8 == 1u8),
{
}

proof fn lemma_zero_bit(j: u8)
    by (bit_vector)
    requires
        j < 8,
    ensures
        (0u8 >> j) & 1u8 != 1u8,
{
}

proof fn lemma_byte_from_bits(x: u8, y: u8)
    by (bit_vector)
    requires
        ((x >> 0u8) & 1u8 == 1u8) == ((y >> 0u8) & 1u8 == 1u8),
        ((x >> 1u8) & 1u8 == 1u8) == ((y >> 1u8) & 1u8 == 1u8),
        ((x >> 2u8) & 1u8 == 1u8) == ((y >> 2u8) & 1u8 == 1u8),
        ((x >> 3u8) & 1u8 == 1u8) == ((y >> 3u8) & 1u8 == 1u8),
        ((x >> 4u8) & 1u8 == 1u8) == ((y >> 4u8) & 1u8 == 1u8),
        ((x >> 5u8) & 1u8 == 1u8) == ((y >> 5u8) & 1u8 == 1u8),
        ((x >> 6u8) & 1u8 == 1u8) == ((y >> 6u8) & 1u8 == 1u8),
        ((x >> 7u8) & 1u8 == 1u8) == ((y >> 7u8) & 1u8 == 1u8),
    ensures
        x == y,
{
}

/// Packs an on/off grid into the 39 bytes of the monochrome draw command.
pub fn encode(mat: [[bool; 9]; 34]) -> (out: [u8; 39])
    ensures
        bits_of(out@) == frame_bits(mat),
{
    let mut out: [u8; 39] = [0u8; 39];
    proof {
        assert forall|j: int| 0 <= j < 312 implies !packed_bit(out@, j) by {
            lemma_zero_bit((j % 8) as u8);
        }
    }
    let mut i: usize = 0;
    while i < 306
        invariant
            i <= 306,
            forall|j: int| 0 <= j < i ==> #[trigger] packed_bit(out@, j) == mat[j / 9][j % 9],
            forall|j: int| i <= j < 312 ==> !#[trigger] packed_bit(out@, j),
        decreases 306 - i,
    {
        let row: usize = i / 9;
        let col: usize = i % 9;
        if mat[row][col] {
            let byte: usize = i / 8;
            let shift: u8 = (i % 8) as u8;
            let before: u8 = out[byte];
            let ghost prev = out@;
            out[byte] = before | (1u8 << shift);
            proof {
                assert forall|j: int| 0 <= j < 312 implies #[trigger] packed_bit(out@, j) == (j
                    == i || packed_bit(prev, j)) by {
                    if j / 8 == byte as int {
                        lemma_set_bit(before, shift, (j % 8) as u8);
                    }
                }
            }
        }
        i += 1;
    }
    proof {
        assert(bits_of(out@) =~= frame_bits(mat));
    }
    out
}

/// Unpacks the 39 bytes of a monochrome frame into the on/off grid they show.
pub fn decode(bytes: [u8; 39]) -> (out: [[bool; 9]; 34])
    ensures
        led_bits(out) == bits_of(bytes@).take(306),
{
    let mut out: [[bool; 9]; 34] = [[false; 9]; 34];
    let mut i: usize = 0;
    while i < 306
        invariant
            i <= 306,
            forall|j: int| 0 <= j < i ==> out[j / 9][j % 9] == packed_bit(bytes@, j),
        decreases 306 - i,
    {
        let row: usize = i / 9;
        let col: usize = i % 9;
        let on: bool = (bytes[i / 8] >> ((i % 8) as u8)) & 1u8 == 1u8;
        let ghost prev = out;
        out[row][col] = on;
        proof {
            assert forall|j: int| 0 <= j < i + 1 implies out[j / 9][j % 9] == packed_bit(
                bytes@,
                j,
            ) by {
                if j < i {
                    assert(prev[j / 9][j % 9] == packed_bit(bytes@, j));
                }
            }
        }
        i += 1;
    }
    proof {
        assert(led_bits(out) =~= bits_of(bytes@).take(306));
    }
    out
}

/// Reindexes the 34 rows of 9 brightness values as 9 columns of 34, the order
/// in which the column-draw protocol addresses the module.
pub fn transpose(mat: [[u8; 9]; 34]) -> (out: [[u8; 34]; 9])
    ensures
        grid_view(out) == transposed(grid_view(mat), 9),
{
    let mut out: [[u8; 34]; 9] = [[0u8; 34]; 9];
    let mut c: usize = 0;
    while c < 9
        invariant
            c <= 9,
            forall|a: int, b: int| 0 <= a < c && 0 <= b < 34 ==> #[trigger] out[a][b] == mat[b][a],
        decreases 9 - c,
    {
        let mut r: usize = 0;
        while r < 34
            invariant
                c < 9,
                r <= 34,
                forall|a: int, b: int|
                    0 <= a < c && 0 <= b < 34 ==> #[trigger] out[a][b] == mat[b][a],
                forall|b: int| 0 <= b < r ==> #[trigger] out[c as int][b] == mat[b][c as int],
            decreases 34 - r,
        {
            out[c][r] = mat[r][c];
            r += 1;
        }
        c += 1;
    }
    proof {
        assert forall|a: int| 0 <= a < 9 implies grid_view(out)[a] =~= transposed(
            grid_view(mat),
            9,
        )[a] by {}
        assert(grid_view(out) =~= transposed(grid_view(mat), 9));
    }
    out
}

/// Reindexes 9 columns of 34 brightness values as 34 rows of 9: the inverse of
/// [`transpose`].
pub fn transpose_columns(cols: [[u8; 34]; 9]) -> (out: [[u8; 9]; 34])
    ensures
        grid_view(out) == transposed(grid_view(cols), 34),
{
    let mut out: [[u8; 9]; 34] = [[0u8; 9]; 34];
    let mut r: usize = 0;
    while r < 34
        invariant
            r <= 34,
            forall|a: int, b: int| 0 <= a < r && 0 <= b < 9 ==> #[trigger] out[a][b] == cols[b][a],
        decreases 34 - r,
    {
        let mut c: usize = 0;
        while c < 9
            invariant
                r < 34,
                c <= 9,
                forall|a: int, b: int|
                    0 <= a < r && 0 <= b < 9 ==> #[trigger] out[a][b] == cols[b][a],
                forall|b: int| 0 <= b < c ==> #[trigger] out[r as int][b] == cols[b][r as int],
            decreases 9 - c,
        {
            out[r][c] = cols[c][r];
            c += 1;
        }
        r += 1;
    }
    proof {
        assert forall|a: int| 0 <= a < 34 implies grid_view(out)[a] =~= transposed(
            grid_view(cols),
            34,
        )[a] by {}
        assert(grid_view(out) =~= transposed(grid_view(cols), 34));
    }
    out
}

/// Whether `len` brightness values of the given `shape` can be placed at
/// column `x`, row `y`, and if not, why: a shape that leaves the frame is
/// out of bounds, whatever the number of values.
pub open spec fn placement_verdict(len: int, shape: Shape, x: int, y: int) -> Result<
    (),
    PlacementError,
> {
    if !within_frame(shape, x, y) {
        Err(PlacementError::OutOfBounds)
    } else if len != shape.x * shape.y {
        Err(PlacementError::ShapeMismatch)
    } else {
        Ok(())
    }
}

/// `out` is what placing `values` of the given `shape` into `frame` at
/// column `x`, row `y` comes to: the frame with the values placed where they
/// fit, and else what is wrong with them.
pub open spec fn placement_outcome(
    out: Result<[[u8; 9]; 34], PlacementError>,
    frame: [[u8; 9]; 34],
    values: Seq<u8>,
    shape: Shape,
    x: int,
    y: int,
) -> bool {
    match out {
        Ok(placed) => placeable(values.len() as int, shape, x, y) && is_placement(
            placed,
            frame,
            values,
            shape,
            x,
            y,
        ),
        Err(e) => placement_verdict(values.len() as int, shape, x, y) == Err::<(), PlacementError>(e),
    }
}

/// Tells whether `len` brightness values of the given `shape` can be placed at
/// column `x`, row `y`, and if not, why.
pub fn check_placement(len: usize, shape: Shape, x: usize, y: usize) -> (out: Result<
    (),
    PlacementError,
>)
    ensures
        out == placement_verdict(len as int, shape, x as int, y as int),
        out is Ok <==> placeable(len as int, shape, x as int, y as int),
{
    if x > 9 || shape.x > 9 - x || y > 34 || shape.y > 34 - y {
        return Err(PlacementError::OutOfBounds);
    }
    assert(shape.x * shape.y <= 306) by (nonlinear_arith)
        requires
            shape.x <= 9,
            shape.y <= 34,
    ;
    if len != shape.x * shape.y {
        return Err(PlacementError::ShapeMismatch);
    }
    Ok(())
}

/// Copies `values`, laid out row after row in the given `shape`, into the
/// frame with their top left corner at column `x`, row `y`. The rest of the
/// frame is kept.
pub fn place(matrix: [[u8; 9]; 34], values: &Vec<u8>, shape: Shape, x: usize, y: usize) -> (out:
    [[u8; 9]; 34])
    requires
        placeable(values@.len() as int, shape, x as int, y as int),
    ensures
        is_placement(out, matrix, values@, shape, x as int, y as int),
{
    let mut out: [[u8; 9]; 34] = matrix;
    let mut r: usize = 0;
    while r < shape.y
        invariant
            r <= shape.y,
            placeable(values@.len() as int, shape, x as int, y as int),
            forall|row: int, col: int|
                0 <= row < 34 && 0 <= col < 9 ==> #[trigger] out[row][col] == (if row < y + r {
                    placed_cell(matrix[row][col], values@, shape, x as int, y as int, row, col)
                } else {
                    matrix[row][col]
                }),
        decreases shape.y - r,
    {
        let mut c: usize = 0;
        while c < shape.x
            invariant
                r < shape.y,
                c <= shape.x,
                placeable(values@.len() as int, shape, x as int, y as int),
                forall|row: int, col: int|
                    0 <= row < 34 && 0 <= col < 9 ==> #[trigger] out[row][col] == (if row < y + r
                        || (row == y + r && col < x + c) {
                        placed_cell(matrix[row][col], values@, shape, x as int, y as int, row, col)
                    } else {
                        matrix[row][col]
                    }),
            decreases shape.x - c,
        {
            assert(r * shape.x + c < shape.x * shape.y) by (nonlinear_arith)
                requires
                    r < shape.y,
                    c < shape.x,
            ;
            assert(r * shape.x <= 306) by (nonlinear_arith)
                requires
                    r < 34,
                    shape.x <= 9,
            ;
            out[y + r][x + c] = values[r * shape.x + c];
            c += 1;
        }
        r += 1;
    }
    out
}

/// Asks the widget for its output and places it at column `x`, row `y`.
///
/// The result is what placing the values that the widget's `get_matrix`
/// returned, in the shape that its `get_shape` returned, comes to: the frame
/// with the values placed where they fit, and else the reason why they do
/// not. A corner beyond the frame is out of bounds whatever the widget draws.
pub fn emplace<W: UpdatableWidget>(matrix: [[u8; 9]; 34], widget: &W, x: usize, y: usize) -> (out:
    Result<[[u8; 9]; 34], PlacementError>)
    ensures
        exists|values: Vec<u8>, shape: Shape|
            call_ensures(W::get_matrix, (widget,), values) && call_ensures(
                W::get_shape,
                (widget,),
                shape,
            ) && #[trigger] placement_outcome(out, matrix, values@, shape, x as int, y as int),
        x > 9 || y > 34 ==> out == Err::<[[u8; 9]; 34], PlacementError>(PlacementError::OutOfBounds),
{
    let values = widget.get_matrix();
    let shape = widget.get_shape();
    let out = match check_placement(values.len(), shape, x, y) {
        Ok(()) => Ok(place(matrix, &values, shape, x, y)),
        Err(e) => Err(e),
    };
    assert(placement_outcome(out, matrix, values@, shape, x as int, y as int));
    out
}

/// A grid is settled by its rows: two grids with the same view are the same.
pub proof fn lemma_grid_view_injective<const W: usize, const H: usize>(
    a: [[u8; W]; H],
    b: [[u8; W]; H],
)
    requires
        grid_view(a) == grid_view(b),
    ensures
        a == b,
{
    assert forall|r: int| 0 <= r < H implies a[r] == b[r] by {
        assert(grid_view(a)[r] == grid_view(b)[r]);
        assert(a[r]@ == b[r]@);
        assert(a[r] =~= b[r]);
    }
    assert(a =~= b);
}

/// Transposing twice gives back the rows one started from, for every
/// rectangular sequence of rows.
pub proof fn lemma_transpose_involution(rows: Seq<Seq<u8>>, width: nat)
    requires
        rectangular(rows, width),
    ensures
        transposed(transposed(rows, width), rows.len()) == rows,
{
    let back = transposed(transposed(rows, width), rows.len());
    assert forall|r: int| 0 <= r < rows.len() implies back[r] =~= rows[r] by {
        assert(rows[r].len() == width);
    }
    assert(back =~= rows);
}

/// A grid that goes through [`transpose`] and then [`transpose_columns`]
/// comes out unchanged.
pub proof fn lemma_transpose_round_trip(
    grid: [[u8; 9]; 34],
    cols: [[u8; 34]; 9],
    back: [[u8; 9]; 34],
)
    requires
        grid_view(cols) == transposed(grid_view(grid), 9),
        grid_view(back) == transposed(grid_view(cols), 34),
    ensures
        back == grid,
{
    assert(rectangular(grid_view(grid), 9));
    lemma_transpose_involution(grid_view(grid), 9);
    lemma_grid_view_injective(back, grid);
}

/// The bytes of a packed frame are settled by their bits.
pub proof fn lemma_bits_determine_bytes(a: Seq<u8>, b: Seq<u8>)
    requires
        bits_of(a) == bits_of(b),
    ensures
        a == b,
{
    assert(bits_of(a).len() == 8 * a.len());
    assert(bits_of(b).len() == 8 * b.len());
    assert(a.len() == b.len());
    assert forall|k: int| 0 <= k < a.len() implies a[k] == b[k] by {
        assert forall|i: int| 0 <= i < 8 * a.len() implies packed_bit(a, i) == packed_bit(b, i) by {
            assert(bits_of(a)[i] == packed_bit(a, i));
            assert(bits_of(b)[i] == packed_bit(b, i));
        }
        assert(packed_bit(a, 8 * k + 0) == packed_bit(b, 8 * k + 0));
        assert(packed_bit(a, 8 * k + 1) == packed_bit(b, 8 * k + 1));
        assert(packed_bit(a, 8 * k + 2) == packed_bit(b, 8 * k + 2));
        assert(packed_bit(a, 8 * k + 3) == packed_bit(b, 8 * k + 3));
        assert(packed_bit(a, 8 * k + 4) == packed_bit(b, 8 * k + 4));
        assert(packed_bit(a, 8 * k + 5) == packed_bit(b, 8 * k + 5));
        assert(packed_bit(a, 8 * k + 6) == packed_bit(b, 8 * k + 6));
        assert(packed_bit(a, 8 * k + 7) == packed_bit(b, 8 * k + 7));
        lemma_byte_from_bits(a[k], b[k]);
    }
    assert(a =~= b);
}

/// An on/off grid is settled by its LEDs taken row after row.
pub proof fn lemma_led_bits_determine_grid(a: [[bool; 9]; 34], b: [[bool; 9]; 34])
    requires
        led_bits(a) == led_bits(b),
    ensures
        a == b,
{
    assert forall|r: int| 0 <= r < 34 implies a[r] == b[r] by {
        assert forall|c: int| 0 <= c < 9 implies a[r][c] == b[r][c] by {
            let i = r * 9 + c;
            assert(i / 9 == r && i % 9 == c);
            assert(led_bits(a)[i] == a[i / 9][i % 9]);
            assert(led_bits(b)[i] == b[i / 9][i % 9]);
        }
        assert(a[r] =~= b[r]);
    }
    assert(a =~= b);
}

/// Decoding what [`encode`] made of a grid gives that grid back.
pub proof fn lemma_decode_inverts_encode(
    grid: [[bool; 9]; 34],
    bytes: [u8; 39],
    back: [[bool; 9]; 34],
)
    requires
        bits_of(bytes@) == frame_bits(grid),
        led_bits(back) == bits_of(bytes@).take(306),
    ensures
        back == grid,
{
    assert(frame_bits(grid).take(306) =~= led_bits(grid));
    lemma_led_bits_determine_grid(back, grid);
}

} // verus!
