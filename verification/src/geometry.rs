//! Two-dimensional vectors and axis-aligned rectangles.

use vstd::prelude::*;
use crate::units::{abs, sign, signum, unitish, EXTENT, FIELD, ONE};

verus! {

/// Largest magnitude of a component of a vector that can be normalised:
/// 2^30.
pub const NORMALIZE_MAX: i64 = 0x4000_0000;

/// The integer square root of `n`: the largest `r` with `r * r <= n`.
pub open spec fn sqrt_floor(n: nat) -> nat
    decreases n,
{
    if n == 0 {
        0
    } else {
        let r = sqrt_floor((n - 1) as nat);
        if (r + 1) * (r + 1) <= n {
            r + 1
        } else {
            r
        }
    }
}

/// The square of the integer square root is at most `n`, and the next square
/// is beyond it.
pub proof fn lemma_sqrt_floor_bounds(n: nat)
    ensures
        sqrt_floor(n) * sqrt_floor(n) <= n < (sqrt_floor(n) + 1) * (sqrt_floor(n) + 1),
    decreases n,
{
    let s = sqrt_floor(n);
    if n > 0 {
        lemma_sqrt_floor_bounds((n - 1) as nat);
        let r = sqrt_floor((n - 1) as nat);
        if (r + 1) * (r + 1) <= n {
            assert(s * s <= n < (s + 1) * (s + 1)) by (nonlinear_arith)
                requires
                    s == r + 1,
                    (r + 1) * (r + 1) <= n,
                    n - 1 < (r + 1) * (r + 1),
            ;
        } else {
            assert(s == r);
        }
    } else {
        assert(s * s <= n < (s + 1) * (s + 1)) by (nonlinear_arith)
            requires
                s == 0,
                n == 0,
        ;
    }
}

/// Only one number lies between the two squares.
pub proof fn lemma_sqrt_floor_unique(n: nat, r: nat)
    requires
        r * r <= n < (r + 1) * (r + 1),
    ensures
        r == sqrt_floor(n),
{
    lemma_sqrt_floor_bounds(n);
    let s = sqrt_floor(n);
    assert(r + 1 <= s ==> (r + 1) * (r + 1) <= s * s) by (nonlinear_arith);
    assert(s + 1 <= r ==> (s + 1) * (s + 1) <= r * r) by (nonlinear_arith);
}

/// Component `c` of a vector of length `len`, rescaled to a vector of length
/// [`ONE`] and rounded towards zero.
pub open spec fn scaled(c: int, len: int) -> int {
    if c < 0 {
        -((-c) * ONE / len)
    } else {
        c * ONE / len
    }
}

/// The integer square root of `n`.
pub fn isqrt(n: u64) -> (r: u64)
    ensures
        r == sqrt_floor(n as nat),
{
    let mut lo: u64 = 0;
    let mut hi: u64 = 0x1_0000_0000;
    while hi - lo > 1
        invariant
            lo < hi <= 0x1_0000_0000,
            lo * lo <= n,
            n < hi * hi,
        decreases hi - lo,
    {
        let mid: u64 = lo + (hi - lo) / 2;
        assert(mid * mid <= 0xFFFF_FFFF * 0xFFFF_FFFF) by (nonlinear_arith)
            requires
                0 <= mid <= 0xFFFF_FFFF,
        ;
        if mid * mid <= n {
            lo = mid;
        } else {
            hi = mid;
        }
    }
    proof {
        lemma_sqrt_floor_unique(n as nat, lo as nat);
    }
    lo
}

/// A vector of two mathematical integers: the model of a [`Vector`].
pub struct VectorView {
    pub x: int,
    pub y: int,
}

impl VectorView {
    /// Component-wise sign.
    pub open spec fn signum(self) -> VectorView {
        VectorView { x: sign(self.x), y: sign(self.y) }
    }

    /// Component-wise difference.
    pub open spec fn minus(self, other: VectorView) -> VectorView {
        VectorView { x: self.x - other.x, y: self.y - other.y }
    }

    /// The Euclidean length, rounded down.
    pub open spec fn length(self) -> nat {
        sqrt_floor((self.x * self.x + self.y * self.y) as nat)
    }

    /// The vector rescaled to length [`ONE`]: each component times [`ONE`],
    /// divided by the length and rounded towards zero.
    pub open spec fn normalized(self) -> VectorView {
        VectorView {
            x: scaled(self.x, self.length() as int),
            y: scaled(self.y, self.length() as int),
        }
    }

    /// Both components no larger in magnitude than [`ONE`].
    pub open spec fn unitish(self) -> bool {
        unitish(self.x) && unitish(self.y)
    }
}

/// An axis-aligned rectangle over the mathematical integers: the model of a
/// [`Rect`]. `y` grows downwards, so `(x, y)` is the top-left corner.
pub struct RectView {
    pub x: int,
    pub y: int,
    pub w: int,
    pub h: int,
}

impl RectView {
    pub open spec fn right(self) -> int {
        self.x + self.w
    }

    pub open spec fn bottom(self) -> int {
        self.y + self.h
    }

    /// Every coordinate within [`EXTENT`] of the origin, every size between
    /// zero and [`EXTENT`].
    pub open spec fn bounded(self) -> bool {
        &&& -EXTENT <= self.x <= EXTENT
        &&& -EXTENT <= self.y <= EXTENT
        &&& 0 <= self.w <= EXTENT
        &&& 0 <= self.h <= EXTENT
    }

    /// Every coordinate within [`FIELD`] of the origin, every size between
    /// zero and [`FIELD`]: what a session asks of its paddle and blocks.
    pub open spec fn on_field(self) -> bool {
        &&& -FIELD <= self.x <= FIELD
        &&& -FIELD <= self.y <= FIELD
        &&& 0 <= self.w <= FIELD
        &&& 0 <= self.h <= FIELD
    }

    /// Twice the centre. The centre itself is `(x + w/2, y + h/2)`; doubling
    /// it keeps the value integral so that centres compare exactly.
    pub open spec fn center_twice(self) -> VectorView {
        VectorView { x: 2 * self.x + self.w, y: 2 * self.y + self.h }
    }

    /// The centre, each half rounded down.
    pub open spec fn center(self) -> VectorView {
        VectorView { x: self.x + self.w / 2, y: self.y + self.h / 2 }
    }

    /// Width of the horizontal stretch shared with `other`; zero or negative
    /// when there is none.
    pub open spec fn overlap_w(self, other: RectView) -> int {
        vstd::math::min(self.right(), other.right()) - vstd::math::max(self.x, other.x)
    }

    /// Height of the vertical stretch shared with `other`; zero or negative
    /// when there is none.
    pub open spec fn overlap_h(self, other: RectView) -> int {
        vstd::math::min(self.bottom(), other.bottom()) - vstd::math::max(self.y, other.y)
    }

    /// Two rectangles overlap when they share a stretch of positive extent
    /// on both axes. Rectangles that only touch along an edge or at a corner
    /// do not overlap.
    pub open spec fn overlaps(self, other: RectView) -> bool {
        self.overlap_w(other) > 0 && self.overlap_h(other) > 0
    }

    /// The rectangle shared with `other`, if the two overlap.
    pub open spec fn intersect(self, other: RectView) -> Option<RectView> {
        if self.overlaps(other) {
            Some(
                RectView {
                    x: vstd::math::max(self.x, other.x),
                    y: vstd::math::max(self.y, other.y),
                    w: self.overlap_w(other),
                    h: self.overlap_h(other),
                },
            )
        } else {
            None
        }
    }

    /// Direction from the centre of `self` towards the centre of `other`:
    /// the component-wise sign of the difference of the centres.
    pub open spec fn toward(self, other: RectView) -> VectorView {
        other.center_twice().minus(self.center_twice()).signum()
    }
}

/// A vector with two `i64` components.
#[derive(Clone, Copy, Debug, PartialEq, Eq, Structural)]
pub struct Vector {
    pub x: i64,
    pub y: i64,
}

impl View for Vector {
    type V = VectorView;

    open spec fn view(&self) -> VectorView {
        VectorView { x: self.x as int, y: self.y as int }
    }
}

impl Vector {
    pub fn new(x: i64, y: i64) -> (v: Vector)
        ensures
            v.x == x,
            v.y == y,
    {
        Vector { x, y }
    }

    /// Component-wise sign: each component becomes -1, 0 or 1.
    pub fn signum(&self) -> (s: Vector)
        ensures
            s@ == self@.signum(),
    {
        Vector { x: signum(self.x), y: signum(self.y) }
    }

    /// The vector rescaled to length [`ONE`], in thousandths. The vector
    /// must not be zero.
    pub fn normalize(&self) -> (n: Vector)
        requires
            -NORMALIZE_MAX <= self.x <= NORMALIZE_MAX,
            -NORMALIZE_MAX <= self.y <= NORMALIZE_MAX,
            self.x != 0 || self.y != 0,
        ensures
            n@ == self@.normalized(),
            n@.unitish(),
    {
        let ax: u64 = abs(self.x) as u64;
        let ay: u64 = abs(self.y) as u64;
        assert(ax * ax <= 0x4000_0000 * 0x4000_0000 && ax * ax == self.x * self.x) by (nonlinear_arith)
            requires
                0 <= ax <= 0x4000_0000,
                ax == self.x || ax == -self.x,
        ;
        assert(ay * ay <= 0x4000_0000 * 0x4000_0000 && ay * ay == self.y * self.y) by (nonlinear_arith)
            requires
                0 <= ay <= 0x4000_0000,
                ay == self.y || ay == -self.y,
        ;
        assert(ax * ax + ay * ay >= 1) by (nonlinear_arith)
            requires
                ax >= 1 || ay >= 1,
                0 <= ax,
                0 <= ay,
        ;
        let square: u64 = ax * ax + ay * ay;
        let len: u64 = isqrt(square);
        proof {
            lemma_sqrt_floor_bounds(square as nat);
            assert(ax <= len && ay <= len && len >= 1) by (nonlinear_arith)
                requires
                    0 <= ax,
                    0 <= ay,
                    0 <= len,
                    square >= 1,
                    square == ax * ax + ay * ay,
                    len * len <= square < (len + 1) * (len + 1),
            ;
            assert(ax * 1000 / (len as int) <= 1000 && ay * 1000 / (len as int) <= 1000)
                by (nonlinear_arith)
                requires
                    0 <= ax <= len,
                    0 <= ay <= len,
                    len >= 1,
            ;
        }
        let nx: i64 = (ax * 1000 / len) as i64;
        let ny: i64 = (ay * 1000 / len) as i64;
        Vector {
            x: if self.x < 0 {
                -nx
            } else {
                nx
            },
            y: if self.y < 0 {
                -ny
            } else {
                ny
            },
        }
    }
}

/// An axis-aligned rectangle: top-left corner and size, in ticks.
#[derive(Clone, Copy, Debug, PartialEq, Eq, Structural)]
pub struct Rect {
    pub x: i64,
    pub y: i64,
    pub w: i64,
    pub h: i64,
}

impl View for Rect {
    type V = RectView;

    open spec fn view(&self) -> RectView {
        RectView { x: self.x as int, y: self.y as int, w: self.w as int, h: self.h as int }
    }
}

impl Rect {
    pub fn new(x: i64, y: i64, w: i64, h: i64) -> (r: Rect)
        ensures
            r.x == x,
            r.y == y,
            r.w == w,
            r.h == h,
    {
        Rect { x, y, w, h }
    }

    /// See [`RectView::bounded`].
    pub open spec fn bounded(&self) -> bool {
        self@.bounded()
    }

    /// Whether every coordinate and size is in the range the geometry
    /// accepts.
    pub fn is_bounded(&self) -> (b: bool)
        ensures
            b == self.bounded(),
    {
        -EXTENT <= self.x && self.x <= EXTENT && -EXTENT <= self.y && self.y <= EXTENT && 0
            <= self.w && self.w <= EXTENT && 0 <= self.h && self.h <= EXTENT
    }

    /// Whether the rectangle satisfies [`RectView::on_field`].
    pub fn is_on_field(&self) -> (b: bool)
        ensures
            b == self@.on_field(),
    {
        -FIELD <= self.x && self.x <= FIELD && -FIELD <= self.y && self.y <= FIELD && 0 <= self.w
            && self.w <= FIELD && 0 <= self.h && self.h <= FIELD
    }

    /// The top-left corner.
    pub fn point(&self) -> (p: Vector)
        ensures
            p.x == self.x,
            p.y == self.y,
    {
        Vector { x: self.x, y: self.y }
    }

    /// The size as a vector.
    pub fn size(&self) -> (s: Vector)
        ensures
            s.x == self.w,
            s.y == self.h,
    {
        Vector { x: self.w, y: self.h }
    }

    /// The centre: the corner plus half the size, each half rounded down.
    pub fn center(&self) -> (c: Vector)
        requires
            self.bounded(),
        ensures
            c@ == self@.center(),
    {
        Vector { x: self.x + self.w / 2, y: self.y + self.h / 2 }
    }

    /// Twice the centre, which is exact.
    pub fn center_twice(&self) -> (c: Vector)
        requires
            self.bounded(),
        ensures
            c@ == self@.center_twice(),
    {
        Vector { x: 2 * self.x + self.w, y: 2 * self.y + self.h }
    }

    /// The rectangle shared by `self` and `other`, or `None` when they do not
    /// overlap. Touching edges are no overlap.
    pub fn intersect(&self, other: Rect) -> (r: Option<Rect>)
        requires
            self.bounded(),
            other.bounded(),
        ensures
            r is Some <==> self@.overlaps(other@),
            r matches Some(i) ==> Some(i@) == self@.intersect(other@),
            r matches Some(i) ==> i.bounded(),
    {
        let left: i64 = if self.x > other.x { self.x } else { other.x };
        let top: i64 = if self.y > other.y { self.y } else { other.y };
        let self_right: i64 = self.x + self.w;
        let other_right: i64 = other.x + other.w;
        let right: i64 = if self_right < other_right { self_right } else { other_right };
        let self_bottom: i64 = self.y + self.h;
        let other_bottom: i64 = other.y + other.h;
        let bottom: i64 = if self_bottom < other_bottom { self_bottom } else { other_bottom };
        if right <= left || bottom <= top {
            return None;
        }
        Some(Rect { x: left, y: top, w: right - left, h: bottom - top })
    }
}

} // verus!
