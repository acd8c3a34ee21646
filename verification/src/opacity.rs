//! How visible the popup is for a mouse position: fully opaque near the
//! popup, fading linearly with the distance from its nearest edge, and gone
//! beyond the fade margin.  Opacity is counted in steps of 1/128, so every
//! value the popup shows is exact.

use vstd::prelude::*;

verus! {

/// Within this many pixels of the popup it is fully opaque.
pub const POPUP_VISIBLE_MARGIN: u32 = 12;

/// At this many pixels from the popup, or more, it hides.
pub const POPUP_FADE_MARGIN: u32 = 140;

/// Opacity is counted in 1/128 steps: `OPACITY_STEPS` is fully opaque.
/// It is also the width of the fade zone, `POPUP_FADE_MARGIN -
/// POPUP_VISIBLE_MARGIN`.
pub const OPACITY_STEPS: u32 = 128;

/// The smallest change of opacity, in steps, that is worth reporting: the
/// first whole number of 1/128 steps above 0.04.
pub const OPACITY_REPORT_STEP: u32 = 6;

/// The outer rectangle of the popup window, in physical pixels.
#[derive(Clone, Copy, Debug, PartialEq, Eq)]
pub struct PopupGeometry {
    pub x: i32,
    pub y: i32,
    pub width: i32,
    pub height: i32,
}

/// The gap between a coordinate and the span `[lo, lo + extent]` on one
/// axis: zero inside it.
pub open spec fn axis_gap(p: int, lo: int, extent: int) -> int {
    if p < lo {
        lo - p
    } else if p > lo + extent {
        p - (lo + extent)
    } else {
        0
    }
}

/// The square of the distance from a point to the popup's rectangle.
pub open spec fn squared_distance(g: PopupGeometry, x: int, y: int) -> int {
    let dx = axis_gap(x, g.x as int, g.width as int);
    let dy = axis_gap(y, g.y as int, g.height as int);
    dx * dx + dy * dy
}

/// The integer square root, rounded down.
pub open spec fn floor_sqrt(n: nat) -> nat
    decreases n,
{
    if n == 0 {
        0
    } else {
        let r = floor_sqrt((n - 1) as nat);
        if (r + 1) * (r + 1) <= n {
            r + 1
        } else {
            r
        }
    }
}

/// The distance in whole pixels, rounded down, from a point to the popup.
pub open spec fn popup_distance(g: PopupGeometry, x: int, y: int) -> nat {
    floor_sqrt(squared_distance(g, x, y) as nat)
}

/// The opacity, in 1/128 steps, at a distance from the popup: full within
/// the visible margin, zero from the fade margin on, falling by one step
/// per pixel in between.
pub open spec fn opacity_level(dist: nat) -> nat {
    if dist >= POPUP_FADE_MARGIN {
        0
    } else if dist <= POPUP_VISIBLE_MARGIN {
        OPACITY_STEPS as nat
    } else {
        (OPACITY_STEPS - (dist - POPUP_VISIBLE_MARGIN)) as nat
    }
}

proof fn lemma_square_monotone(a: nat, b: nat)
    requires
        a <= b,
    ensures
        a * a <= b * b,
{
    assert(a * a <= b * b) by (nonlinear_arith)
        requires
            a <= b,
    ;
}

/// The rounded-down square root is the `r` with `r * r <= n < (r + 1) * (r + 1)`.
pub proof fn lemma_floor_sqrt_bounds(n: nat)
    ensures
        floor_sqrt(n) * floor_sqrt(n) <= n,
        n < (floor_sqrt(n) + 1) * (floor_sqrt(n) + 1),
    decreases n,
{
    if n == 0 {
        let s = floor_sqrt(n);
        assert(s == 0);
        assert((s + 1) * (s + 1) == 1) by (nonlinear_arith)
            requires
                s == 0,
        ;
    } else {
        lemma_floor_sqrt_bounds((n - 1) as nat);
        let r = floor_sqrt((n - 1) as nat);
        let s = floor_sqrt(n);
        if (r + 1) * (r + 1) <= n {
            assert(s == r + 1);
            assert(n <= (r + 1) * (r + 1));
            assert((r + 1) * (r + 1) < (r + 2) * (r + 2)) by (nonlinear_arith);
            assert(s * s <= n);
            assert(n < (s + 1) * (s + 1));
        } else {
            assert(s == r);
            assert(s * s <= n);
            assert(n < (s + 1) * (s + 1));
        }
    }
}

/// Only one number has the bounds of the rounded-down square root.
pub proof fn lemma_floor_sqrt_unique(n: nat, r: nat)
    requires
        r * r <= n,
        n < (r + 1) * (r + 1),
    ensures
        floor_sqrt(n) == r,
{
    lemma_floor_sqrt_bounds(n);
    let s = floor_sqrt(n);
    if s < r {
        lemma_square_monotone(s + 1, r);
    } else if r < s {
        lemma_square_monotone(r + 1, s);
    }
}

/// The rounded-down square root reaches `k` exactly when `n` reaches `k * k`.
pub proof fn lemma_floor_sqrt_at_least(n: nat, k: nat)
    ensures
        floor_sqrt(n) >= k <==> n >= k * k,
{
    lemma_floor_sqrt_bounds(n);
    let s = floor_sqrt(n);
    if s >= k {
        lemma_square_monotone(k, s);
    } else {
        lemma_square_monotone(s + 1, k);
    }
}

/// The rounded-down square root of `n`.
pub fn floor_sqrt_u32(n: u32) -> (r: u32)
    ensures
        r == floor_sqrt(n as nat),
{
    let mut r: u64 = 0;
    loop
        invariant
            r * r <= n,
            r <= 65535,
        ensures
            r * r <= n,
            n < (r + 1) * (r + 1),
        decreases 65536 - r,
    {
        let next = r + 1;
        assert(next * next <= 0x1_0000_0000u64) by (nonlinear_arith)
            requires
                next <= 65536,
        ;
        if next * next > n as u64 {
            break;
        }
        assert(next <= 65535) by (nonlinear_arith)
            requires
                next * next <= n,
                n <= 0xffff_ffffu64,
        ;
        r = next;
    }
    proof {
        lemma_floor_sqrt_unique(n as nat, r as nat);
    }
    r as u32
}

/// The gap between a coordinate and the popup's span on one axis.
pub fn axis_gap_exec(p: i32, lo: i32, extent: i32) -> (r: i64)
    ensures
        r == axis_gap(p as int, lo as int, extent as int),
        r >= 0,
{
    let p = p as i64;
    let lo = lo as i64;
    let hi = lo + extent as i64;
    if p < lo {
        lo - p
    } else if p > hi {
        p - hi
    } else {
        0
    }
}

/// The distance in whole pixels from a point to the popup, when it is less
/// than the fade margin; `None` when the point is at the fade margin or
/// farther.
pub fn distance_within_fade(g: PopupGeometry, x: i32, y: i32) -> (r: Option<u32>)
    ensures
        match r {
            Some(d) => d == popup_distance(g, x as int, y as int) && d < POPUP_FADE_MARGIN,
            None => popup_distance(g, x as int, y as int) >= POPUP_FADE_MARGIN,
        },
{
    let dx = axis_gap_exec(x, g.x, g.width);
    let dy = axis_gap_exec(y, g.y, g.height);
    let ghost sq = squared_distance(g, x as int, y as int);
    assert(sq == dx * dx + dy * dy);
    assert(dx * dx >= 0 && dy * dy >= 0) by (nonlinear_arith);
    if dx >= 140 || dy >= 140 {
        proof {
            if dx >= 140 {
                lemma_square_monotone(140, dx as nat);
            } else {
                lemma_square_monotone(140, dy as nat);
            }
            lemma_floor_sqrt_at_least(sq as nat, 140);
        }
        return None;
    }
    proof {
        lemma_square_monotone(dx as nat, 139);
        lemma_square_monotone(dy as nat, 139);
    }
    let sq_exec = (dx * dx + dy * dy) as u32;
    let d = floor_sqrt_u32(sq_exec);
    if d >= 140 {
        None
    } else {
        Some(d)
    }
}

/// The opacity, in 1/128 steps, at a distance from the popup.
pub fn opacity_for_distance(dist: u32) -> (r: u32)
    ensures
        r == opacity_level(dist as nat),
{
    if dist >= POPUP_FADE_MARGIN {
        0
    } else if dist <= POPUP_VISIBLE_MARGIN {
        OPACITY_STEPS
    } else {
        OPACITY_STEPS - (dist - POPUP_VISIBLE_MARGIN)
    }
}

/// The farther the mouse is from the popup, the fainter the popup: opacity
/// never grows with the distance.
pub proof fn lemma_opacity_fades_with_distance(near: nat, far: nat)
    requires
        near <= far,
    ensures
        opacity_level(far) <= opacity_level(near),
{
}

/// Near the popup it is fully opaque, from the fade margin on it is gone,
/// and in between it loses one 1/128 step per pixel.
pub proof fn lemma_opacity_zones(dist: nat)
    ensures
        dist <= POPUP_VISIBLE_MARGIN ==> opacity_level(dist) == OPACITY_STEPS,
        dist >= POPUP_FADE_MARGIN ==> opacity_level(dist) == 0,
        POPUP_VISIBLE_MARGIN <= dist < POPUP_FADE_MARGIN ==> opacity_level(dist) + dist
            == OPACITY_STEPS + POPUP_VISIBLE_MARGIN,
        dist < POPUP_FADE_MARGIN ==> 1 <= opacity_level(dist) <= OPACITY_STEPS,
{
}

/// A mouse on or inside the popup's rectangle is at distance zero.
pub proof fn lemma_inside_is_opaque(g: PopupGeometry, x: int, y: int)
    requires
        g.x <= x <= g.x + g.width,
        g.y <= y <= g.y + g.height,
    ensures
        popup_distance(g, x, y) == 0,
        opacity_level(popup_distance(g, x, y)) == OPACITY_STEPS,
{
    assert(squared_distance(g, x, y) == 0);
    assert(floor_sqrt(0) == 0);
}

} // verus!
