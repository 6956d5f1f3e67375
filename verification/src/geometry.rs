//! Geometry of the sampling lattice.
//!
//! The three finder-pattern corners of a located symbol sit 3.5 modules in
//! from the symbol's true corners, so the vector between two adjacent finder
//! centers spans `side - 7` modules. Dividing that vector by `side - 7` gives
//! the per-module step along each symbol axis, and backing off three modules
//! from the top-left finder center gives the center of module (0, 0). All of
//! this is kept as exact rational arithmetic: the position of the sample for
//! module (row, col) is a pair of integer numerators over the common
//! denominator `side - 7`, rounded to the nearest pixel only at the very end.

use vstd::prelude::*;

verus! {

/// A point in image pixel coordinates.
#[derive(Clone, Copy, Debug, PartialEq, Eq, Structural)]
pub struct Point {
    pub x: i64,
    pub y: i64,
}

/// A located symbol: the three finder-pattern corner centers and the version
/// estimated by the locator.
#[derive(Clone, Copy, Debug, PartialEq, Eq, Structural)]
pub struct QRLocation {
    pub top_left: Point,
    pub top_right: Point,
    pub bottom_left: Point,
    pub version: u32,
}

/// `n / d` rounded to the nearest integer, halves away from zero.
/// Meaningful for `d > 0`.
pub open spec fn round_to_nearest(n: int, d: int) -> int
    recommends
        d > 0,
{
    if n >= 0 {
        (2 * n + d) / (2 * d)
    } else {
        -((2 * (-n) + d) / (2 * d))
    }
}

impl QRLocation {
    /// A location the resolver accepts: a version of the standard's range.
    pub open spec fn wf(self) -> bool {
        1 <= self.version <= 40
    }

    /// Modules per symbol edge.
    pub open spec fn side(self) -> int {
        4 * self.version + 17
    }

    /// Common denominator of the per-module steps: the two finder-center
    /// vectors each span `side - 7` modules.
    pub open spec fn den(self) -> int {
        4 * self.version + 10
    }

    /// A zero step vector along either axis leaves the lattice degenerate.
    pub open spec fn degenerate(self) -> bool {
        self.top_right == self.top_left || self.bottom_left == self.top_left
    }

    /// Numerator (over `den()`) of the exact x coordinate of the sample for
    /// module (row, col): `top_left + (col - 3)*dx + (row - 3)*dy`, scaled
    /// by the common denominator.
    pub open spec fn num_x(self, row: int, col: int) -> int {
        self.top_left.x * self.den() + (col - 3) * (self.top_right.x - self.top_left.x) + (row - 3)
            * (self.bottom_left.x - self.top_left.x)
    }

    /// Numerator (over `den()`) of the exact y coordinate of the sample for
    /// module (row, col).
    pub open spec fn num_y(self, row: int, col: int) -> int {
        self.top_left.y * self.den() + (col - 3) * (self.top_right.y - self.top_left.y) + (row - 3)
            * (self.bottom_left.y - self.top_left.y)
    }

    /// Pixel x coordinate sampled for module (row, col).
    pub open spec fn sample_x(self, row: int, col: int) -> int {
        round_to_nearest(self.num_x(row, col), self.den())
    }

    /// Pixel y coordinate sampled for module (row, col).
    pub open spec fn sample_y(self, row: int, col: int) -> int {
        round_to_nearest(self.num_y(row, col), self.den())
    }

    /// The sample for module (row, col) lands inside a raster of the given
    /// dimensions.
    pub open spec fn in_bounds_at(self, row: int, col: int, width: int, height: int) -> bool {
        &&& 0 <= self.sample_x(row, col) < width
        &&& 0 <= self.sample_y(row, col) < height
    }

    /// Every module's sample lands inside a raster of the given dimensions.
    pub open spec fn all_in_bounds(self, width: int, height: int) -> bool {
        forall|row: int, col: int|
            0 <= row < self.side() && 0 <= col < self.side() ==> #[trigger] self.in_bounds_at(
                row,
                col,
                width,
                height,
            )
    }
}

/// Rounding an exact multiple of the denominator returns the quotient.
pub proof fn lemma_round_exact(m: int, d: int)
    requires
        d >= 1,
    ensures
        round_to_nearest(m * d, d) == m,
{
    if m >= 0 {
        assert(2 * (m * d) + d == m * (2 * d) + d) by (nonlinear_arith);
        vstd::arithmetic::div_mod::lemma_fundamental_div_mod_converse(m * (2 * d) + d, 2 * d, m, d);
    } else {
        assert(2 * (-(m * d)) + d == (-m) * (2 * d) + d) by (nonlinear_arith);
        vstd::arithmetic::div_mod::lemma_fundamental_div_mod_converse(
            (-m) * (2 * d) + d,
            2 * d,
            -m,
            d,
        );
        assert(m * d < 0) by (nonlinear_arith)
            requires
                m < 0 && d >= 1,
        ;
    }
}

/// Law (scale invariance of nearest-pixel rounding): a nonnegative exact
/// position `n / d` that sits at least a quarter pixel above the lower edge
/// of its nearest pixel rounds, after doubling, into that pixel's 2×2 block
/// in a raster of doubled resolution. A position closer than a quarter pixel
/// to the lower edge can cross into the block below, so those are left out.
pub proof fn lemma_scale_rounding(n: int, d: int)
    requires
        d >= 1,
        n >= 0,
        2 * ((2 * n + d) % (2 * d)) >= d,
    ensures
        round_to_nearest(2 * n, d) / 2 == round_to_nearest(n, d),
{
    let dd = 2 * d;
    let q = (2 * n + d) / dd;
    let t = (2 * n + d) % dd;
    vstd::arithmetic::div_mod::lemma_fundamental_div_mod(2 * n + d, dd);
    assert(round_to_nearest(n, d) == q);
    if 2 * t - d < dd {
        assert(2 * (2 * n) + d == dd * (2 * q) + (2 * t - d)) by (nonlinear_arith)
            requires
                2 * n + d == dd * q + t && dd == 2 * d,
        ;
        vstd::arithmetic::div_mod::lemma_fundamental_div_mod_converse(
            2 * (2 * n) + d,
            dd,
            2 * q,
            2 * t - d,
        );
        assert(round_to_nearest(2 * n, d) == 2 * q);
        vstd::arithmetic::div_mod::lemma_fundamental_div_mod_converse(2 * q, 2, q, 0);
    } else {
        assert(2 * (2 * n) + d == dd * (2 * q + 1) + (2 * t - 3 * d)) by (nonlinear_arith)
            requires
                2 * n + d == dd * q + t && dd == 2 * d,
        ;
        vstd::arithmetic::div_mod::lemma_fundamental_div_mod_converse(
            2 * (2 * n) + d,
            dd,
            2 * q + 1,
            2 * t - 3 * d,
        );
        assert(round_to_nearest(2 * n, d) == 2 * q + 1);
        vstd::arithmetic::div_mod::lemma_fundamental_div_mod_converse(2 * q + 1, 2, q, 1);
    }
}

/// Bound on a product from bounds on both factors.
pub proof fn lemma_abs_mul_le(a: int, b: int, am: int, bm: int)
    requires
        -am <= a <= am,
        -bm <= b <= bm,
        0 <= am,
        0 <= bm,
    ensures
        -(am * bm) <= a * b <= am * bm,
{
    assert(-(am * bm) <= a * b <= am * bm) by (nonlinear_arith)
        requires
            -am <= a <= am && -bm <= b <= bm && 0 <= am && 0 <= bm,
    ;
}

/// Executable rounding to the nearest integer, halves away from zero, for a
/// positive denominator. The bounds keep `2 * n + d` inside `i128`.
pub fn round_div(n: i128, d: i128) -> (r: i128)
    requires
        1 <= d <= 0x10000,
        -0x100000000000000000000 <= n <= 0x100000000000000000000,
    ensures
        r == round_to_nearest(n as int, d as int),
{
    let dd: u128 = (2 * d) as u128;
    if n >= 0 {
        let m: u128 = (2 * n + d) as u128;
        let q: u128 = m / dd;
        assert(q <= m);
        q as i128
    } else {
        let m: u128 = (2 * (-n) + d) as u128;
        let q: u128 = m / dd;
        assert(q <= m);
        -(q as i128)
    }
}

} // verus!
