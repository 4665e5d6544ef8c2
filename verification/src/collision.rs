//! Collision of a moving rectangle with a static one.
//!
//! A collision is resolved along one axis only. When the shared area is wider
//! than it is high the moving body has come from above or below and is pushed
//! vertically; otherwise it is pushed horizontally. The push is as long as
//! the shared area is deep on that axis and leads away from the centre of the
//! static rectangle.

use vstd::prelude::*;
use crate::units::{abs, magnitude};
use crate::geometry::{Rect, RectView, Vector, VectorView};

verus! {

/// What resolving a collision leaves behind: the moving rectangle, its
/// velocity, and whether the two rectangles had overlapped.
pub struct Resolution {
    pub rect: RectView,
    pub vel: VectorView,
    pub hit: bool,
}

/// Coordinate `c` moved by `depth` against the direction `dir`: that is
/// `c - dir * depth` for a direction of -1, 0 or 1.
pub open spec fn pushed(c: int, dir: int, depth: int) -> int {
    if dir > 0 {
        c - depth
    } else if dir < 0 {
        c + depth
    } else {
        c
    }
}

/// Rectangle `a` moving with velocity `v` meets the static rectangle `b`.
///
/// Without overlap nothing changes. With overlap, `to` being the direction
/// from the centre of `a` to the centre of `b`:
///
/// * shared area wider than high: `a` is pushed vertically against `to.y`
///   by the shared height, and `v.y` becomes `-|v.y|` when `b` lies below
///   (`to.y > 0`), else `|v.y|`;
/// * otherwise: `a` is pushed horizontally against `to.x` by the shared
///   width; when `b` lies to the left (`to.x < 0`) `v.x` becomes `|v.x|`,
///   else `v.y` becomes `-|v.x|` and `v.x` stays as it is.
///
/// The last rule is not the mirror image of the others: a body that meets a
/// target on its right keeps moving right and is sent upwards instead.
pub open spec fn resolve(a: RectView, v: VectorView, b: RectView) -> Resolution {
    if !a.overlaps(b) {
        Resolution { rect: a, vel: v, hit: false }
    } else {
        let to = a.toward(b);
        if a.overlap_w(b) > a.overlap_h(b) {
            Resolution {
                rect: RectView { x: a.x, y: pushed(a.y, to.y, a.overlap_h(b)), w: a.w, h: a.h },
                vel: VectorView {
                    x: v.x,
                    y: if to.y > 0 {
                        -magnitude(v.y)
                    } else {
                        magnitude(v.y)
                    },
                },
                hit: true,
            }
        } else {
            Resolution {
                rect: RectView { x: pushed(a.x, to.x, a.overlap_w(b)), y: a.y, w: a.w, h: a.h },
                vel: if to.x < 0 {
                    VectorView { x: magnitude(v.x), y: v.y }
                } else {
                    VectorView { x: v.x, y: -magnitude(v.x) }
                },
                hit: true,
            }
        }
    }
}

/// Resolves the collision of the moving rectangle `a`, whose velocity is
/// `vel`, with the static rectangle `b`. Returns whether the two overlapped;
/// if they did not, `a` and `vel` are left as they were.
pub fn resolve_collision(a: &mut Rect, vel: &mut Vector, b: &Rect) -> (hit: bool)
    requires
        old(a).bounded(),
        b.bounded(),
        old(vel).x > i64::MIN,
        old(vel).y > i64::MIN,
    ensures
        hit == old(a)@.overlaps(b@),
        !hit ==> *final(a) == *old(a) && *final(vel) == *old(vel),
        final(a)@ == resolve(old(a)@, old(vel)@, b@).rect,
        final(vel)@ == resolve(old(a)@, old(vel)@, b@).vel,
        hit == resolve(old(a)@, old(vel)@, b@).hit,
        final(a).w == old(a).w,
        final(a).h == old(a).h,
{
    let intersection: Rect = match a.intersect(*b) {
        Some(intersection) => intersection,
        None => {
            return false;
        },
    };
    let a_center: Vector = a.center_twice();
    let b_center: Vector = b.center_twice();
    let to: Vector = Vector { x: b_center.x - a_center.x, y: b_center.y - a_center.y };
    let to_signum: Vector = to.signum();
    if intersection.w > intersection.h {
        if to_signum.y > 0 {
            a.y = a.y - intersection.h;
            vel.y = -abs(vel.y);
        } else {
            if to_signum.y < 0 {
                a.y = a.y + intersection.h;
            }
            vel.y = abs(vel.y);
        }
    } else {
        if to_signum.x < 0 {
            a.x = a.x + intersection.w;
            vel.x = abs(vel.x);
        } else {
            if to_signum.x > 0 {
                a.x = a.x - intersection.w;
            }
            vel.y = -abs(vel.x);
        }
    }
    true
}

/// The moving rectangle's vertical extent reaches over exactly one of the
/// horizontal edges of `b`, or ends on them: it neither strictly contains the
/// vertical extent of `b` nor lies strictly inside it, and the two centres
/// are at different heights.
pub open spec fn crosses_one_horizontal_edge(a: RectView, b: RectView) -> bool {
    &&& a.center_twice().y != b.center_twice().y
    &&& (a.y <= b.y && a.bottom() <= b.bottom()) || (a.y >= b.y && a.bottom() >= b.bottom())
}

/// Rectangles that do not overlap are left alone: no hit is reported and
/// neither the rectangle nor the velocity changes.
pub proof fn lemma_no_overlap_no_change(a: RectView, v: VectorView, b: RectView)
    requires
        !a.overlaps(b),
    ensures
        !resolve(a, v, b).hit,
        resolve(a, v, b).rect == a,
        resolve(a, v, b).vel == v,
{
}

/// A hit is reported exactly when the rectangles overlap, and resolving
/// never changes the size of the moving rectangle.
pub proof fn lemma_hit_iff_overlap(a: RectView, v: VectorView, b: RectView)
    ensures
        resolve(a, v, b).hit == a.overlaps(b),
        resolve(a, v, b).rect.w == a.w,
        resolve(a, v, b).rect.h == a.h,
{
}

/// When the shared area is wider than high, the moving rectangle is shifted
/// vertically only, and the vertical velocity afterwards leads away from the
/// centre of `b`: upwards (not positive) when `b` lies below, downwards (not
/// negative) when `b` lies above, with its magnitude kept. After the shift
/// the two rectangles share no height exactly when the moving rectangle had
/// crossed one horizontal edge of `b`.
pub proof fn lemma_vertical_resolution(a: RectView, v: VectorView, b: RectView)
    requires
        a.overlaps(b),
        a.overlap_w(b) > a.overlap_h(b),
    ensures
        resolve(a, v, b).hit,
        resolve(a, v, b).rect.x == a.x,
        resolve(a, v, b).vel.x == v.x,
        magnitude(resolve(a, v, b).vel.y) == magnitude(v.y),
        a.toward(b).y > 0 ==> resolve(a, v, b).vel.y <= 0,
        a.toward(b).y < 0 ==> resolve(a, v, b).vel.y >= 0,
        crosses_one_horizontal_edge(a, b) <==> resolve(a, v, b).rect.overlap_h(b) <= 0,
        crosses_one_horizontal_edge(a, b) ==> !resolve(a, v, b).rect.overlaps(b),
        crosses_one_horizontal_edge(a, b) ==> resolve(a, v, b).rect.overlap_h(b) == 0,
{
}

/// When the shared area is no wider than high, the moving rectangle is
/// shifted horizontally only. With `b` to the left it is pushed right by the
/// shared width, to the right edge of `b` at most, and its horizontal
/// velocity turns right. With `b` to the right, or with the centres in line,
/// the horizontal velocity stays and the vertical velocity becomes minus the
/// magnitude of the horizontal one.
pub proof fn lemma_horizontal_resolution(a: RectView, v: VectorView, b: RectView)
    requires
        a.overlaps(b),
        a.overlap_w(b) <= a.overlap_h(b),
    ensures
        resolve(a, v, b).hit,
        resolve(a, v, b).rect.y == a.y,
        a.toward(b).x < 0 ==> resolve(a, v, b).rect.x == a.x + a.overlap_w(b) && resolve(
            a,
            v,
            b,
        ).rect.x <= b.right() && resolve(a, v, b).vel == (VectorView {
            x: magnitude(v.x),
            y: v.y,
        }),
        a.toward(b).x > 0 ==> resolve(a, v, b).rect.x == a.x - a.overlap_w(b),
        a.toward(b).x == 0 ==> resolve(a, v, b).rect.x == a.x,
        a.toward(b).x >= 0 ==> resolve(a, v, b).vel == (VectorView {
            x: v.x,
            y: -magnitude(v.x),
        }),
{
}

} // verus!
