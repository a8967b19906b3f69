//! Ordered dithering of a density field into instance positions.
use vstd::prelude::*;

use crate::field::DensityField;

verus! {

/// The smallest chunk area that can be dithered, in millionths of a square unit.
pub const MIN_AREA: i64 = 100;

/// Why a density field could not be dithered.
#[derive(PartialEq, Eq, Structural, Clone, Copy, Debug)]
pub enum DitherComputeError {
    /// The field cannot be read as a single-channel intensity image.
    ImageFormat,
    /// The density is negative; it is stored in the error, in thousandths.
    DensityToSmall(i32),
    /// The chunk area `width * depth` is below `MIN_AREA`; it is stored in the error,
    /// in millionths of a square unit.
    ChunkAreaToSmall(i64),
}

/// The footprint, in thousandths of a unit, that a density field is stretched across.
#[derive(PartialEq, Eq, Structural, Clone, Copy, Debug)]
pub struct FieldExtent {
    pub width: i32,
    pub depth: i32,
}

/// A position in the horizontal plane, in thousandths of a unit.
#[derive(PartialEq, Eq, Structural, Clone, Copy, Debug)]
pub struct Position {
    pub x: i32,
    pub z: i32,
}

/// The positions that dithering a density field produced, in the order of the sweep.
#[derive(Clone, Debug)]
pub struct DitheredBuffer {
    pub positions: Vec<Position>,
}

/// The 8 by 8 ordered-dither matrix: a permutation of `0..64` that spreads neighbouring
/// thresholds as far apart as possible.
pub open spec fn bayer_rows() -> Seq<Seq<int>> {
    seq![
        seq![0, 32, 8, 40, 2, 34, 10, 42],
        seq![48, 16, 56, 24, 50, 18, 58, 26],
        seq![12, 44, 4, 36, 14, 46, 6, 38],
        seq![60, 28, 52, 20, 62, 30, 54, 22],
        seq![3, 35, 11, 43, 1, 33, 9, 41],
        seq![51, 19, 59, 27, 49, 17, 57, 25],
        seq![15, 47, 7, 39, 13, 45, 5, 37],
        seq![63, 31, 55, 23, 61, 29, 53, 21],
    ]
}

/// The threshold of grid cell `(i, j)`.
pub open spec fn bayer(i: int, j: int) -> int {
    bayer_rows()[i % 8][j % 8]
}

pub open spec fn abs(v: int) -> int {
    if v < 0 {
        -v
    } else {
        v
    }
}

/// The area of an extent, in millionths of a square unit.
pub open spec fn area(e: FieldExtent) -> int {
    e.width as int * e.depth as int
}

/// How many grid lines a density (per unit) gives along a side: `floor(|density * side|)`.
pub open spec fn grid_count(density: int, side: int) -> int {
    abs(density * side) / 1_000_000
}

/// `k / n` of a side of length `len`, rounded toward zero.
pub open spec fn scaled(k: int, n: int, len: int) -> int {
    if len >= 0 {
        (k * len) / n
    } else {
        -((k * -len) / n)
    }
}

/// Whether grid cell `(i, j)` of an `ic` by `jc` grid keeps an instance: the nearest pixel
/// of the field is brighter than four times the cell's threshold.
pub open spec fn accepted(f: DensityField, ic: int, jc: int, i: int, j: int) -> bool {
    f.intensity((i * f.width) / ic, (j * f.height) / jc) as int > 4 * bayer(i, j)
}

/// The position of grid cell `(i, j)` of an `ic` by `jc` grid stretched over `e`.
pub open spec fn position_at(e: FieldExtent, ic: int, jc: int, i: int, j: int) -> Position {
    Position { x: scaled(i, ic, e.width as int) as i32, z: scaled(j, jc, e.depth as int) as i32 }
}

/// The positions kept in row `i` among its first `n` cells.
pub open spec fn row_positions(
    f: DensityField,
    e: FieldExtent,
    ic: int,
    jc: int,
    i: int,
    n: int,
) -> Seq<Position>
    decreases n,
{
    if n <= 0 {
        seq![]
    } else {
        let prev = row_positions(f, e, ic, jc, i, n - 1);
        if accepted(f, ic, jc, i, n - 1) {
            prev.push(position_at(e, ic, jc, i, n - 1))
        } else {
            prev
        }
    }
}

/// The positions kept in the first `m` rows, row by row.
pub open spec fn grid_positions(f: DensityField, e: FieldExtent, ic: int, jc: int, m: int) -> Seq<
    Position,
>
    decreases m,
{
    if m <= 0 {
        seq![]
    } else {
        grid_positions(f, e, ic, jc, m - 1) + row_positions(f, e, ic, jc, m - 1, jc)
    }
}

/// What dithering `f` at `density` (thousandths) over `e` yields.
pub open spec fn dither_spec(f: DensityField, density: int, e: FieldExtent) -> Result<
    Seq<Position>,
    DitherComputeError,
> {
    if density < 0 {
        Err(DitherComputeError::DensityToSmall(density as i32))
    } else if area(e) < MIN_AREA {
        Err(DitherComputeError::ChunkAreaToSmall(area(e) as i64))
    } else if !f.wf() {
        Err(DitherComputeError::ImageFormat)
    } else {
        let ic = grid_count(density, e.width as int);
        let jc = grid_count(density, e.depth as int);
        Ok(grid_positions(f, e, ic, jc, ic))
    }
}

/// The threshold of grid cell `(i, j)`.
fn bayer_threshold(i: u64, j: u64) -> (t: u8)
    ensures
        t as int == bayer(i as int, j as int),
        t < 64,
{
    let m: [[u8; 8]; 8] = [
        [0, 32, 8, 40, 2, 34, 10, 42],
        [48, 16, 56, 24, 50, 18, 58, 26],
        [12, 44, 4, 36, 14, 46, 6, 38],
        [60, 28, 52, 20, 62, 30, 54, 22],
        [3, 35, 11, 43, 1, 33, 9, 41],
        [51, 19, 59, 27, 49, 17, 57, 25],
        [15, 47, 7, 39, 13, 45, 5, 37],
        [63, 31, 55, 23, 61, 29, 53, 21],
    ];
    assert(m@ =~= seq![m[0], m[1], m[2], m[3], m[4], m[5], m[6], m[7]]);
    m[(i % 8) as usize][(j % 8) as usize]
}

/// `floor(|density * side| )` grid lines, as an integer.
fn grid_lines(density: i32, side: i32) -> (n: u64)
    ensures
        n as int == grid_count(density as int, side as int),
        n < 0x1_0000_0000_0000,
{
    proof {
        crate::arith::lemma_mul_i32(density as int, side as int);
    }
    let p: i64 = (density as i64) * (side as i64);
    let a: u64 = if p < 0 {
        (-p) as u64
    } else {
        p as u64
    };
    a / 1_000_000
}

/// `k / n` of a side of length `len`, rounded toward zero.
fn scaled_coord(k: u64, n: u64, len: i32) -> (c: i32)
    requires
        k < n,
    ensures
        c as int == scaled(k as int, n as int, len as int),
{
    let mag: i128 = if len < 0 {
        -(len as i128)
    } else {
        len as i128
    };
    if mag == 0 {
        assert(k as int * 0 == 0);
        return 0;
    }
    proof {
        crate::arith::lemma_scaled_index_below(k as int, n as int, mag as int);
        crate::arith::lemma_mul_le(k as int, mag as int, u64::MAX as int, 0x8000_0000);
    }
    let q: i128 = ((k as u128) * (mag as u128) / (n as u128)) as i128;
    if len < 0 {
        -(q as i32)
    } else {
        q as i32
    }
}

/// Dithers a density field into instance positions.
///
/// The grid has `floor(|density * width|)` by `floor(|density * depth|)` cells; cell `(i, j)`
/// reads the nearest pixel of the field and keeps an instance at `(i / ic * width,
/// j / jc * depth)` when that pixel is brighter than four times the cell's ordered-dither
/// threshold. Positions come row by row. A negative density, an area below `MIN_AREA` and a
/// field without pixels are refused, in that order.
pub fn dither_density_map(field: DensityField, density: i32, field_size: FieldExtent) -> (r:
    Result<DitheredBuffer, DitherComputeError>)
    ensures
        r matches Ok(b) ==> dither_spec(field, density as int, field_size) == Ok::<
            Seq<Position>,
            DitherComputeError,
        >(b.positions@),
        r matches Err(e) ==> dither_spec(field, density as int, field_size) == Err::<
            Seq<Position>,
            DitherComputeError,
        >(e),
{
    if density < 0 {
        return Err(DitherComputeError::DensityToSmall(density));
    }
    proof {
        crate::arith::lemma_mul_i32(field_size.width as int, field_size.depth as int);
        crate::arith::lemma_mul_le(
            field.width as int,
            field.height as int,
            u32::MAX as int,
            u32::MAX as int,
        );
    }
    let area: i64 = (field_size.width as i64) * (field_size.depth as i64);
    if area < MIN_AREA {
        return Err(DitherComputeError::ChunkAreaToSmall(area));
    }
    if field.width == 0 || field.height == 0 || (field.samples.len() as u128) < (
    field.width as u128) * (field.height as u128) {
        return Err(DitherComputeError::ImageFormat);
    }
    let ic = grid_lines(density, field_size.width);
    let jc = grid_lines(density, field_size.depth);
    let ghost f = field;
    let ghost e = field_size;
    let mut positions: Vec<Position> = Vec::new();
    let mut i: u64 = 0;
    while i < ic
        invariant
            f == field,
            e == field_size,
            field.wf(),
            i <= ic,
            ic as int == grid_count(density as int, e.width as int),
            jc as int == grid_count(density as int, e.depth as int),
            positions@ == grid_positions(f, e, ic as int, jc as int, i as int),
        decreases ic - i,
    {
        let mut j: u64 = 0;
        while j < jc
            invariant
                f == field,
                e == field_size,
                field.wf(),
                i < ic,
                j <= jc,
                positions@ == grid_positions(f, e, ic as int, jc as int, i as int)
                    + row_positions(f, e, ic as int, jc as int, i as int, j as int),
            decreases jc - j,
        {
            let ghost before = positions@;
            let threshold = bayer_threshold(i, j);
            proof {
                crate::arith::lemma_scaled_index_below(i as int, ic as int, field.width as int);
                crate::arith::lemma_scaled_index_below(j as int, jc as int, field.height as int);
                crate::arith::lemma_mul_le(i as int, field.width as int, u64::MAX as int, u32::MAX as int);
                crate::arith::lemma_mul_le(j as int, field.height as int, u64::MAX as int, u32::MAX as int);
            }
            let px = ((i as u128) * (field.width as u128) / (ic as u128)) as u32;
            let py = ((j as u128) * (field.height as u128) / (jc as u128)) as u32;
            let v = field.intensity_at(px, py);
            if (v as u16) > 4 * (threshold as u16) {
                let x = scaled_coord(i, ic, field_size.width);
                let z = scaled_coord(j, jc, field_size.depth);
                positions.push(Position { x, z });
                assert(positions@ =~= grid_positions(f, e, ic as int, jc as int, i as int)
                    + row_positions(f, e, ic as int, jc as int, i as int, j + 1));
            } else {
                assert(positions@ =~= grid_positions(f, e, ic as int, jc as int, i as int)
                    + row_positions(f, e, ic as int, jc as int, i as int, j + 1));
            }
            j = j + 1;
        }
        assert(grid_positions(f, e, ic as int, jc as int, i + 1) == grid_positions(
            f,
            e,
            ic as int,
            jc as int,
            i as int,
        ) + row_positions(f, e, ic as int, jc as int, i as int, jc as int));
        i = i + 1;
    }
    Ok(DitheredBuffer { positions })
}

/// Every threshold of the dither matrix lies in `0..64`.
pub proof fn lemma_bayer_range(i: int, j: int)
    ensures
        0 <= bayer(i, j) < 64,
{
    let rows = bayer_rows();
    let r = i % 8;
    let c = j % 8;
    assert(0 <= r < 8 && 0 <= c < 8);
    assert(rows.len() == 8);
    assert(forall|k: int| 0 <= k < 8 ==> #[trigger] rows[k].len() == 8);
    assert(forall|k: int, t: int| 0 <= k < 8 && 0 <= t < 8 ==> 0 <= #[trigger] rows[k][t] < 64);
}

/// The pixel that grid cell `(i, j)` reads lies inside the field.
proof fn lemma_cell_pixel_inside(f: DensityField, ic: int, jc: int, i: int, j: int)
    requires
        f.wf(),
        0 <= i < ic,
        0 <= j < jc,
    ensures
        0 <= (i * f.width) / ic < f.width,
        0 <= (j * f.height) / jc < f.height,
{
    crate::arith::lemma_scaled_index_below(i, ic, f.width as int);
    crate::arith::lemma_scaled_index_below(j, jc, f.height as int);
}

/// A row whose first `n` cells are all kept holds `n` positions; one whose cells are all
/// dropped holds none.
proof fn lemma_row_len(f: DensityField, e: FieldExtent, ic: int, jc: int, i: int, n: int, keep: bool)
    requires
        0 <= n,
        forall|j: int| 0 <= j < n ==> #[trigger] accepted(f, ic, jc, i, j) == keep,
    ensures
        row_positions(f, e, ic, jc, i, n).len() == if keep {
            n
        } else {
            0
        },
    decreases n,
{
    if n > 0 {
        lemma_row_len(f, e, ic, jc, i, n - 1, keep);
    }
}

/// A grid whose first `m` rows keep every cell holds `m * jc` positions; one that keeps no
/// cell holds none.
proof fn lemma_grid_len(f: DensityField, e: FieldExtent, ic: int, jc: int, m: int, keep: bool)
    requires
        0 <= m,
        0 <= jc,
        forall|i: int, j: int| 0 <= i < m && 0 <= j < jc ==> #[trigger] accepted(f, ic, jc, i, j)
            == keep,
    ensures
        grid_positions(f, e, ic, jc, m).len() == if keep {
            m * jc
        } else {
            0
        },
    decreases m,
{
    if m > 0 {
        lemma_grid_len(f, e, ic, jc, m - 1, keep);
        assert forall|j: int| 0 <= j < jc implies #[trigger] accepted(f, ic, jc, m - 1, j)
            == keep by {}
        lemma_row_len(f, e, ic, jc, m - 1, jc, keep);
        assert((m - 1) * jc + jc == m * jc) by (nonlinear_arith);
    }
}

/// Dithering is a pure function of its inputs: two runs on the same field, density and
/// extent give the same outcome, position for position.
pub proof fn lemma_dither_deterministic(
    f: DensityField,
    density: int,
    e: FieldExtent,
    first: Result<Seq<Position>, DitherComputeError>,
    second: Result<Seq<Position>, DitherComputeError>,
)
    requires
        first == dither_spec(f, density, e),
        second == dither_spec(f, density, e),
    ensures
        first == second,
{
}

/// On a uniformly white field every grid cell keeps an instance: dithering at density `d`
/// over a `w` by `h` extent yields `floor(|d * w|) * floor(|d * h|)` positions.
pub proof fn lemma_white_field_count(f: DensityField, density: int, e: FieldExtent)
    requires
        f.wf(),
        f.is_uniform(255),
        density >= 0,
        area(e) >= MIN_AREA,
    ensures
        dither_spec(f, density, e) is Ok,
        dither_spec(f, density, e)->Ok_0.len() == grid_count(density, e.width as int)
            * grid_count(density, e.depth as int),
{
    let ic = grid_count(density, e.width as int);
    let jc = grid_count(density, e.depth as int);
    assert forall|i: int, j: int| 0 <= i < ic && 0 <= j < jc implies #[trigger] accepted(
        f,
        ic,
        jc,
        i,
        j,
    ) == true by {
        lemma_cell_pixel_inside(f, ic, jc, i, j);
        lemma_bayer_range(i, j);
    }
    lemma_grid_len(f, e, ic, jc, ic, true);
}

/// On an all-black field no grid cell keeps an instance, whatever the density and extent.
pub proof fn lemma_black_field_empty(f: DensityField, density: int, e: FieldExtent)
    requires
        f.wf(),
        f.is_uniform(0),
        density >= 0,
        area(e) >= MIN_AREA,
    ensures
        dither_spec(f, density, e) is Ok,
        dither_spec(f, density, e)->Ok_0.len() == 0,
{
    let ic = grid_count(density, e.width as int);
    let jc = grid_count(density, e.depth as int);
    assert forall|i: int, j: int| 0 <= i < ic && 0 <= j < jc implies #[trigger] accepted(
        f,
        ic,
        jc,
        i,
        j,
    ) == false by {
        lemma_cell_pixel_inside(f, ic, jc, i, j);
        lemma_bayer_range(i, j);
    }
    lemma_grid_len(f, e, ic, jc, ic, false);
}

} // verus!
