//! The grid sampler and the sample buffer it produces.
//!
//! For each located symbol the sampler walks a `side × side` lattice of
//! module centers over the raster, reads the nearest pixel at each lattice
//! point, and packs the values row-major into a [`QRData`]. A zero step
//! vector or a lattice point outside the raster fails that one location with
//! an error naming it; other locations of the same batch are unaffected.

use vstd::prelude::*;

use crate::geometry::{lemma_abs_mul_le, QRLocation};
use crate::raster::{gray_height, gray_pixels, gray_width, Raster};

verus! {

/// The sampled module values of one symbol: a row-major `side * side` byte
/// buffer with the symbol's version, where `side == 4 * version + 17`.
#[derive(Debug)]
pub struct QRData {
    pub data: Vec<u8>,
    pub version: u32,
    pub side: u32,
}

/// Why one location could not be extracted; each variant names the location.
#[derive(Clone, Copy, Debug, PartialEq, Eq, Structural)]
pub enum ExtractError {
    /// Two finder centers coincide, so a per-module step vector is zero.
    DegenerateGeometry(QRLocation),
    /// Some module's sample point rounds to a pixel outside the raster.
    OutOfBounds(QRLocation),
}

impl QRData {
    /// The constructor's invariant: the side is derived from the version and
    /// the buffer holds one byte per module.
    pub open spec fn wf(self) -> bool {
        &&& 1 <= self.version <= 40
        &&& self.side == 4 * self.version + 17
        &&& self.data@.len() == self.side * self.side
    }

    /// Packs a row-major buffer of `side * side` module values with its
    /// version; the side length is derived, never set independently.
    pub fn new(data: Vec<u8>, version: u32) -> (r: QRData)
        requires
            1 <= version <= 40,
            data@.len() == (4 * version + 17) * (4 * version + 17),
        ensures
            r.wf(),
            r.version == version,
            r.side == 4 * version + 17,
            r.data@ == data@,
    {
        let side: u32 = 4 * version + 17;
        QRData { data, version, side }
    }

    /// Bounds-checked accessor: the value of module (row, col), at row-major
    /// offset `row * side + col`, defined exactly on the `side × side` grid.
    pub fn get(&self, row: usize, col: usize) -> (r: Option<u8>)
        requires
            self.wf(),
        ensures
            row < self.side && col < self.side ==> r == Some(self.data@[row * self.side + col]),
            !(row < self.side && col < self.side) ==> r == None::<u8>,
    {
        if row < self.side as usize && col < self.side as usize {
            proof {
                lemma_row_major(row as int, col as int, self.side as int);
                assert(row * (self.side as int) + col < 31330) by (nonlinear_arith)
                    requires
                        row < self.side && col < self.side && self.side <= 177,
                ;
            }
            Some(self.data[row * (self.side as usize) + col])
        } else {
            None
        }
    }

    /// Two-index accessor over the grid; callers stay inside it.
    pub fn index(&self, index: (usize, usize)) -> (r: u8)
        requires
            self.wf(),
            index.0 < self.side,
            index.1 < self.side,
        ensures
            r == self.data@[index.0 * self.side + index.1],
    {
        proof {
            lemma_row_major(index.0 as int, index.1 as int, self.side as int);
            assert(index.0 * (self.side as int) + index.1 < 31330) by (nonlinear_arith)
                requires
                    index.0 < self.side && index.1 < self.side && self.side <= 177,
            ;
        }
        self.data[index.0 * (self.side as usize) + index.1]
    }
}

/// The value sampled for module (row, col): the raster pixel nearest the
/// exact lattice point.
pub open spec fn sample_value(loc: QRLocation, pixels: Map<(int, int), u8>, row: int, col: int) -> u8 {
    pixels[(loc.sample_x(row, col), loc.sample_y(row, col))]
}

/// The full row-major sample sequence of a location over the given raster
/// contents.
pub open spec fn grid_seq(loc: QRLocation, pixels: Map<(int, int), u8>) -> Seq<u8> {
    Seq::new(
        (loc.side() * loc.side()) as nat,
        |i: int| sample_value(loc, pixels, i / loc.side(), i % loc.side()),
    )
}

/// What extracting one location returns, as a function of the location and
/// the raster's dimensions and contents alone: the unique admissible outcome.
pub open spec fn extract_spec_holds(
    loc: QRLocation,
    width: int,
    height: int,
    pixels: Map<(int, int), u8>,
    r: Result<QRData, ExtractError>,
) -> bool {
    match r {
        Ok(qd) => {
            &&& !loc.degenerate()
            &&& loc.all_in_bounds(width, height)
            &&& qd.wf()
            &&& qd.version == loc.version
            &&& qd.side == loc.side()
            &&& qd.data@ == grid_seq(loc, pixels)
        },
        Err(e) => match e {
            ExtractError::DegenerateGeometry(l) => l == loc && loc.degenerate(),
            ExtractError::OutOfBounds(l) => l == loc && !loc.degenerate() && !loc.all_in_bounds(
                width,
                height,
            ),
        },
    }
}

/// Law (determinism): extraction is a pure function of the location and the
/// raster's dimensions and contents. Any two results the extractor's
/// contract admits for the same inputs agree: the same failure, or sample
/// buffers equal in version, side and contents.
pub proof fn lemma_extract_deterministic(
    loc: QRLocation,
    width: int,
    height: int,
    pixels: Map<(int, int), u8>,
    r1: Result<QRData, ExtractError>,
    r2: Result<QRData, ExtractError>,
)
    requires
        extract_spec_holds(loc, width, height, pixels, r1),
        extract_spec_holds(loc, width, height, pixels, r2),
    ensures
        match (r1, r2) {
            (Ok(a), Ok(b)) => a.version == b.version && a.side == b.side && a.data@ == b.data@,
            (Err(a), Err(b)) => a == b,
            _ => false,
        },
{
}

/// An exactly axis-aligned location for a symbol drawn at 2*k pixels per
/// module with its true top-left corner at (x0, y0): each finder center sits
/// 3.5 modules in from that corner along both axes.
pub open spec fn axis_aligned(loc: QRLocation, x0: int, y0: int, k: int) -> bool {
    &&& loc.top_left.x == x0 + 7 * k
    &&& loc.top_left.y == y0 + 7 * k
    &&& loc.top_right.x == x0 + 7 * k + 2 * k * loc.den()
    &&& loc.top_right.y == y0 + 7 * k
    &&& loc.bottom_left.x == x0 + 7 * k
    &&& loc.bottom_left.y == y0 + 7 * k + 2 * k * loc.den()
}

/// Law (round trip): over a raster that draws a module pattern on an exact,
/// axis-aligned grid of 2*k pixels per module, every sampled value is the
/// drawn pattern value of its own module — the sample sequence reproduces
/// the pattern byte for byte.
pub proof fn lemma_axis_aligned_roundtrip(
    loc: QRLocation,
    pixels: Map<(int, int), u8>,
    pattern: Map<(int, int), u8>,
    x0: int,
    y0: int,
    k: int,
    row: int,
    col: int,
)
    requires
        loc.wf(),
        k >= 1,
        axis_aligned(loc, x0, y0, k),
        0 <= row < loc.side(),
        0 <= col < loc.side(),
        forall|x: int, y: int|
            x0 <= x < x0 + 2 * k * loc.side() && y0 <= y < y0 + 2 * k * loc.side()
                ==> #[trigger] pixels[(x, y)] == pattern[((y - y0) / (2 * k), (x - x0) / (2 * k))],
    ensures
        grid_seq(loc, pixels)[row * loc.side() + col] == pattern[(row, col)],
{
    let den = loc.den();
    let sx = x0 + 2 * k * col + k;
    let sy = y0 + 2 * k * row + k;
    assert(loc.num_x(row, col) == sx * den) by (nonlinear_arith)
        requires
            loc.top_left.x == x0 + 7 * k,
            loc.top_right.x == x0 + 7 * k + 2 * k * den,
            loc.bottom_left.x == x0 + 7 * k,
            loc.num_x(row, col) == loc.top_left.x * den + (col - 3) * (loc.top_right.x
                - loc.top_left.x) + (row - 3) * (loc.bottom_left.x - loc.top_left.x),
            sx == x0 + 2 * k * col + k,
    ;
    assert(loc.num_y(row, col) == sy * den) by (nonlinear_arith)
        requires
            loc.top_left.y == y0 + 7 * k,
            loc.top_right.y == y0 + 7 * k,
            loc.bottom_left.y == y0 + 7 * k + 2 * k * den,
            loc.num_y(row, col) == loc.top_left.y * den + (col - 3) * (loc.top_right.y
                - loc.top_left.y) + (row - 3) * (loc.bottom_left.y - loc.top_left.y),
            sy == y0 + 2 * k * row + k,
    ;
    crate::geometry::lemma_round_exact(sx, den);
    crate::geometry::lemma_round_exact(sy, den);
    assert(loc.sample_x(row, col) == sx);
    assert(loc.sample_y(row, col) == sy);
    assert(x0 <= sx < x0 + 2 * k * loc.side() && y0 <= sy < y0 + 2 * k * loc.side())
        by (nonlinear_arith)
        requires
            k >= 1 && 0 <= col < loc.side() && 0 <= row < loc.side() && sx == x0 + 2 * k * col + k
                && sy == y0 + 2 * k * row + k,
    ;
    assert(pixels[(sx, sy)] == pattern[((sy - y0) / (2 * k), (sx - x0) / (2 * k))]);
    assert(2 * k * col + k == col * (2 * k) + k && 2 * k * row + k == row * (2 * k) + k)
        by (nonlinear_arith);
    vstd::arithmetic::div_mod::lemma_fundamental_div_mod_converse(2 * k * col + k, 2 * k, col, k);
    vstd::arithmetic::div_mod::lemma_fundamental_div_mod_converse(2 * k * row + k, 2 * k, row, k);
    assert((sx - x0) / (2 * k) == col);
    assert((sy - y0) / (2 * k) == row);
    lemma_row_major(row, col, loc.side());
    assert(grid_seq(loc, pixels)[row * loc.side() + col] == sample_value(loc, pixels, row, col));
}

/// Law (scale invariance): doubling every corner coordinate doubles each
/// exact lattice numerator and keeps the denominator, so each doubled sample
/// point is exactly twice the original; read against a raster doubled by
/// pixel replication, every module whose sample point keeps a quarter-pixel
/// margin above its pixel's lower edges yields the same value as before.
pub proof fn lemma_scale_invariance(
    loc: QRLocation,
    loc2: QRLocation,
    pixels: Map<(int, int), u8>,
    pixels2: Map<(int, int), u8>,
    row: int,
    col: int,
)
    requires
        loc2.version == loc.version,
        loc2.top_left.x == 2 * loc.top_left.x,
        loc2.top_left.y == 2 * loc.top_left.y,
        loc2.top_right.x == 2 * loc.top_right.x,
        loc2.top_right.y == 2 * loc.top_right.y,
        loc2.bottom_left.x == 2 * loc.bottom_left.x,
        loc2.bottom_left.y == 2 * loc.bottom_left.y,
        loc.num_x(row, col) >= 0,
        loc.num_y(row, col) >= 0,
        2 * ((2 * loc.num_x(row, col) + loc.den()) % (2 * loc.den())) >= loc.den(),
        2 * ((2 * loc.num_y(row, col) + loc.den()) % (2 * loc.den())) >= loc.den(),
        forall|x: int, y: int|
            0 <= x && 0 <= y ==> #[trigger] pixels2[(x, y)] == pixels[(x / 2, y / 2)],
    ensures
        sample_value(loc2, pixels2, row, col) == sample_value(loc, pixels, row, col),
{
    let den = loc.den();
    assert(loc2.num_x(row, col) == 2 * loc.num_x(row, col)) by (nonlinear_arith)
        requires
            loc2.top_left.x == 2 * loc.top_left.x,
            loc2.top_right.x == 2 * loc.top_right.x,
            loc2.bottom_left.x == 2 * loc.bottom_left.x,
            loc2.num_x(row, col) == loc2.top_left.x * den + (col - 3) * (loc2.top_right.x
                - loc2.top_left.x) + (row - 3) * (loc2.bottom_left.x - loc2.top_left.x),
            loc.num_x(row, col) == loc.top_left.x * den + (col - 3) * (loc.top_right.x
                - loc.top_left.x) + (row - 3) * (loc.bottom_left.x - loc.top_left.x),
    ;
    assert(loc2.num_y(row, col) == 2 * loc.num_y(row, col)) by (nonlinear_arith)
        requires
            loc2.top_left.y == 2 * loc.top_left.y,
            loc2.top_right.y == 2 * loc.top_right.y,
            loc2.bottom_left.y == 2 * loc.bottom_left.y,
            loc2.num_y(row, col) == loc2.top_left.y * den + (col - 3) * (loc2.top_right.y
                - loc2.top_left.y) + (row - 3) * (loc2.bottom_left.y - loc2.top_left.y),
            loc.num_y(row, col) == loc.top_left.y * den + (col - 3) * (loc.top_right.y
                - loc.top_left.y) + (row - 3) * (loc.bottom_left.y - loc.top_left.y),
    ;
    crate::geometry::lemma_scale_rounding(loc.num_x(row, col), den);
    crate::geometry::lemma_scale_rounding(loc.num_y(row, col), den);
    let sx2 = loc2.sample_x(row, col);
    let sy2 = loc2.sample_y(row, col);
    assert(sx2 >= 0 && sy2 >= 0);
    assert(pixels2[(sx2, sy2)] == pixels[(sx2 / 2, sy2 / 2)]);
}

/// Row-major offsets: `row * side + col` decomposes uniquely.
pub proof fn lemma_row_major(row: int, col: int, side: int)
    requires
        0 <= row,
        0 <= col < side,
    ensures
        (row * side + col) / side == row,
        (row * side + col) % side == col,
        0 <= row * side + col,
        row < side ==> row * side + col < side * side,
{
    vstd::arithmetic::div_mod::lemma_fundamental_div_mod_converse(row * side + col, side, row, col);
    assert(0 <= row * side + col) by (nonlinear_arith)
        requires
            0 <= row && 0 <= col && col < side,
    ;
    assert(row < side ==> row * side + col < side * side) by (nonlinear_arith)
        requires
            0 <= row && 0 <= col && col < side,
    ;
}

/// Extracts sample buffers from a raster, one per located symbol.
pub trait Extract<T> {
    /// One result per location, in order: each location's own success or
    /// failure, independent of the others in the batch.
    fn extract(&self, threshold: &T, locs: Vec<QRLocation>) -> (r: Vec<
        Result<QRData, ExtractError>,
    >)
        requires
            forall|i: int| 0 <= i < locs@.len() ==> (#[trigger] locs@[i]).wf(),
        ensures
            r@.len() == locs@.len(),
    ;
}

/// The stateless grid sampler.
pub struct QRExtractor {}

impl QRExtractor {
    pub fn new() -> (r: QRExtractor) {
        QRExtractor {}
    }

    /// Extracts the sample buffer of one located symbol, or says why the
    /// location fails: degenerate geometry, or a sample point outside the
    /// raster (never clamped).
    #[verifier::loop_isolation(false)]
    pub fn extract_location(&self, threshold: &Raster, loc: &QRLocation) -> (r: Result<
        QRData,
        ExtractError,
    >)
        requires
            loc.wf(),
        ensures
            extract_spec_holds(
                *loc,
                gray_width(*threshold) as int,
                gray_height(*threshold) as int,
                gray_pixels(*threshold),
                r,
            ),
    {
        if loc.top_right == loc.top_left || loc.bottom_left == loc.top_left {
            return Err(ExtractError::DegenerateGeometry(*loc));
        }
        let size: u32 = 4 * loc.version + 17;
        let den: i128 = (4 * loc.version + 10) as i128;
        let w = threshold.width();
        let h = threshold.height();
        let side: usize = size as usize;
        let mut data: Vec<u8> = Vec::new();
        for row in 0..side
            invariant
                data@.len() == row * side,
                forall|i: int|
                    0 <= i < data@.len() ==> #[trigger] data@[i] == sample_value(
                        *loc,
                        gray_pixels(*threshold),
                        i / loc.side(),
                        i % loc.side(),
                    ),
                forall|r2: int, c2: int|
                    0 <= r2 < row && 0 <= c2 < loc.side() ==> #[trigger] loc.in_bounds_at(
                        r2,
                        c2,
                        w as int,
                        h as int,
                    ),
        {
            for col in 0..side
                invariant
                    data@.len() == row * side + col,
                    forall|i: int|
                        0 <= i < data@.len() ==> #[trigger] data@[i] == sample_value(
                            *loc,
                            gray_pixels(*threshold),
                            i / loc.side(),
                            i % loc.side(),
                        ),
                    forall|r2: int, c2: int|
                        0 <= r2 < row && 0 <= c2 < loc.side() ==> #[trigger] loc.in_bounds_at(
                            r2,
                            c2,
                            w as int,
                            h as int,
                        ),
                    forall|c2: int|
                        0 <= c2 < col ==> #[trigger] loc.in_bounds_at(
                            row as int,
                            c2,
                            w as int,
                            h as int,
                        ),
            {
                let (nx, ny) = sample_numerators(loc, row, col);
                let sx = crate::geometry::round_div(nx, den);
                let sy = crate::geometry::round_div(ny, den);
                if sx < 0 || sy < 0 || sx >= w as i128 || sy >= h as i128 {
                    assert(!loc.in_bounds_at(row as int, col as int, w as int, h as int));
                    assert(!loc.all_in_bounds(gray_width(*threshold) as int, gray_height(*threshold) as int));
                    return Err(ExtractError::OutOfBounds(*loc));
                }
                let p = threshold.pixel_at(sx as u32, sy as u32);
                proof {
                    lemma_row_major(row as int, col as int, side as int);
                }
                data.push(p);
            }
            proof {
                assert((row + 1) * side == row * side + side) by (nonlinear_arith);
            }
        }
        proof {
            assert(loc.all_in_bounds(gray_width(*threshold) as int, gray_height(*threshold) as int));
            assert(data@ =~= grid_seq(*loc, gray_pixels(*threshold)));
        }
        Ok(QRData::new(data, loc.version))
    }
}

impl Extract<Raster> for QRExtractor {
    #[verifier::loop_isolation(false)]
    fn extract(&self, threshold: &Raster, locs: Vec<QRLocation>) -> (r: Vec<
        Result<QRData, ExtractError>,
    >)
        ensures
            forall|i: int|
                0 <= i < locs@.len() ==> extract_spec_holds(
                    locs@[i],
                    gray_width(*threshold) as int,
                    gray_height(*threshold) as int,
                    gray_pixels(*threshold),
                    #[trigger] r@[i],
                ),
    {
        let mut out: Vec<Result<QRData, ExtractError>> = Vec::new();
        let n = locs.len();
        for i in 0..n
            invariant
                out@.len() == i,
                forall|j: int|
                    0 <= j < i ==> extract_spec_holds(
                        locs@[j],
                        gray_width(*threshold) as int,
                        gray_height(*threshold) as int,
                        gray_pixels(*threshold),
                        #[trigger] out@[j],
                    ),
        {
            let item = self.extract_location(threshold, &locs[i]);
            out.push(item);
        }
        out
    }
}

/// The exact lattice-point numerators of module (row, col), over the common
/// denominator `loc.den()`, computed without overflow.
fn sample_numerators(loc: &QRLocation, row: usize, col: usize) -> (r: (i128, i128))
    requires
        loc.wf(),
        row < loc.side(),
        col < loc.side(),
    ensures
        r.0 == loc.num_x(row as int, col as int),
        r.1 == loc.num_y(row as int, col as int),
        -0x100000000000000000000 <= r.0 <= 0x100000000000000000000,
        -0x100000000000000000000 <= r.1 <= 0x100000000000000000000,
{
    let den: i128 = (4 * loc.version + 10) as i128;
    let tlx: i128 = loc.top_left.x as i128;
    let tly: i128 = loc.top_left.y as i128;
    let dxx: i128 = loc.top_right.x as i128 - tlx;
    let dxy: i128 = loc.top_right.y as i128 - tly;
    let dyx: i128 = loc.bottom_left.x as i128 - tlx;
    let dyy: i128 = loc.bottom_left.y as i128 - tly;
    let cf: i128 = col as i128 - 3;
    let rf: i128 = row as i128 - 3;
    proof {
        lemma_abs_mul_le(tlx as int, den as int, 0x8000000000000000, 170);
        lemma_abs_mul_le(tly as int, den as int, 0x8000000000000000, 170);
        lemma_abs_mul_le(cf as int, dxx as int, 174, 0x20000000000000000);
        lemma_abs_mul_le(cf as int, dxy as int, 174, 0x20000000000000000);
        lemma_abs_mul_le(rf as int, dyx as int, 174, 0x20000000000000000);
        lemma_abs_mul_le(rf as int, dyy as int, 174, 0x20000000000000000);
    }
    let nx: i128 = tlx * den + cf * dxx + rf * dyx;
    let ny: i128 = tly * den + cf * dxy + rf * dyy;
    (nx, ny)
}

} // verus!
