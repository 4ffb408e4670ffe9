use vstd::prelude::*;

verus! {

/// Distances inside the compositor are measured in sixteenths of a pixel.
pub const SUBPIXELS: i64 = 16;

/// Largest integer whose square does not exceed `n`.
pub open spec fn floor_sqrt(n: nat) -> nat
    decreases n,
{
    if n == 0 {
        0
    } else {
        let r = floor_sqrt((n - 1) as nat);
        if (r + 1) * (r + 1) <= n {
            r + 1
        } else {
            r
        }
    }
}

pub proof fn lemma_floor_sqrt_bracket(n: nat)
    ensures
        floor_sqrt(n) * floor_sqrt(n) <= n,
        n < (floor_sqrt(n) + 1) * (floor_sqrt(n) + 1),
    decreases n,
{
    if n == 0 {
        let z = floor_sqrt(n);
        assert(z == 0);
        assert(z * z == 0 && (z + 1) * (z + 1) == 1) by (nonlinear_arith)
            requires
                z == 0,
        ;
    } else {
        lemma_floor_sqrt_bracket((n - 1) as nat);
        let r = floor_sqrt((n - 1) as nat);
        if (r + 1) * (r + 1) <= n {
            assert(floor_sqrt(n) == r + 1);
            assert(n < (r + 2) * (r + 2)) by (nonlinear_arith)
                requires
                    n - 1 < (r + 1) * (r + 1),
            ;
            assert(n < (floor_sqrt(n) + 1) * (floor_sqrt(n) + 1));
        } else {
            assert(floor_sqrt(n) == r);
            assert(r * r <= n);
            assert(n < (floor_sqrt(n) + 1) * (floor_sqrt(n) + 1));
        }
    }
}

pub proof fn lemma_floor_sqrt_unique(n: nat, r: nat)
    requires
        r * r <= n,
        n < (r + 1) * (r + 1),
    ensures
        r == floor_sqrt(n),
{
    lemma_floor_sqrt_bracket(n);
    let s = floor_sqrt(n);
    if r < s {
        assert((r + 1) * (r + 1) <= s * s) by (nonlinear_arith)
            requires
                r + 1 <= s,
        ;
    } else if s < r {
        assert((s + 1) * (s + 1) <= r * r) by (nonlinear_arith)
            requires
                s + 1 <= r,
        ;
    }
}

pub proof fn lemma_floor_sqrt_square(v: nat)
    ensures
        floor_sqrt(v * v) == v,
{
    assert(v * v < (v + 1) * (v + 1)) by (nonlinear_arith);
    lemma_floor_sqrt_unique(v * v, v);
}

/// Integer square root, rounded down.
pub fn isqrt(n: u128) -> (r: u64)
    requires
        n < 0x1_0000_0000_0000_0000_0000_0000,
    ensures
        r as nat == floor_sqrt(n as nat),
        r as nat * r as nat <= n,
{
    let mut lo: u128 = 0;
    let mut hi: u128 = 0x4_0000_0000_0000;
    assert(hi * hi == 0x10_0000_0000_0000_0000_0000_0000);
    while hi - lo > 1
        invariant
            lo < hi <= 0x4_0000_0000_0000,
            lo * lo <= n,
            n < hi * hi,
        decreases hi - lo,
    {
        let mid = lo + (hi - lo) / 2;
        assert(mid * mid <= 0x10_0000_0000_0000_0000_0000_0000) by (nonlinear_arith)
            requires
                mid <= 0x4_0000_0000_0000,
        ;
        if mid * mid <= n {
            lo = mid;
        } else {
            hi = mid;
        }
    }
    assert(hi == lo + 1);
    proof {
        lemma_floor_sqrt_unique(n as nat, lo as nat);
    }
    lo as u64
}

pub open spec fn abs(v: int) -> int {
    if v < 0 {
        -v
    } else {
        v
    }
}

pub open spec fn max(a: int, b: int) -> int {
    if a < b {
        b
    } else {
        a
    }
}

pub open spec fn min(a: int, b: int) -> int {
    if a < b {
        a
    } else {
        b
    }
}

/// Corner radius in sixteenths of a pixel: the ring thickness times the
/// ratio given in thousandths, rounded down.
pub open spec fn corner_radius_of(thickness: int, ratio: int) -> int {
    SUBPIXELS * thickness * ratio / 1000
}

/// Signed distance from the point `(x, y)` (in sixteenths of a pixel) to the
/// boundary of the rounded rectangle inset by `inset` pixels on every side
/// of a `w` by `h` surface: negative inside, positive towards the edges.
/// The corner radius (sixteenths) is clamped to half the rectangle's width
/// and height. A rectangle with no area yields one hundred pixels.
pub open spec fn ring_distance(x: int, y: int, w: int, h: int, inset: int, radius: int) -> int {
    let left = SUBPIXELS * inset;
    let right = SUBPIXELS * (w - inset);
    let top = SUBPIXELS * inset;
    let bottom = SUBPIXELS * (h - inset);
    if right <= left || bottom <= top {
        100 * SUBPIXELS
    } else {
        let half_w = (right - left) / 2;
        let half_h = (bottom - top) / 2;
        let r = max(min(min(radius, half_w), half_h), 0);
        box_distance(abs(x - (left + right) / 2), abs(y - (top + bottom) / 2), half_w, half_h, r)
    }
}

/// Signed distance from a point at offsets `(px, py)` from the center of a
/// box with half extents `half_w`, `half_h` and corner radius `r`.
pub open spec fn box_distance(px: int, py: int, half_w: int, half_h: int, r: int) -> int {
    let qx = px - (half_w - r);
    let qy = py - (half_h - r);
    let ox = max(qx, 0);
    let oy = max(qy, 0);
    floor_sqrt((ox * ox + oy * oy) as nat) + min(max(qx, qy), 0) - r
}

/// Computes `ring_distance` for a point of the surface.
pub fn distance_to_inner_rounded_border(
    x: i64,
    y: i64,
    w: u32,
    h: u32,
    inset: u64,
    radius: u128,
) -> (d: i64)
    requires
        0 <= x <= SUBPIXELS * w,
        0 <= y <= SUBPIXELS * h,
        inset <= 0x2_0000_0000,
    ensures
        d == ring_distance(x as int, y as int, w as int, h as int, inset as int, radius as int),
{
    let left: i64 = SUBPIXELS * inset as i64;
    let right: i64 = SUBPIXELS * (w as i64 - inset as i64);
    let top: i64 = SUBPIXELS * inset as i64;
    let bottom: i64 = SUBPIXELS * (h as i64 - inset as i64);
    if right <= left || bottom <= top {
        return 100 * SUBPIXELS;
    }
    let half_w: i64 = (right - left) / 2;
    let half_h: i64 = (bottom - top) / 2;
    let mut r: i64 = if radius < half_w as u128 {
        radius as i64
    } else {
        half_w
    };
    if half_h < r {
        r = half_h;
    }
    let cx: i64 = (left + right) / 2;
    let cy: i64 = (top + bottom) / 2;
    let px: i64 = if x < cx {
        cx - x
    } else {
        x - cx
    };
    let py: i64 = if y < cy {
        cy - y
    } else {
        y - cy
    };
    rounded_box_distance(px, py, half_w, half_h, r)
}

fn rounded_box_distance(px: i64, py: i64, half_w: i64, half_h: i64, r: i64) -> (d: i64)
    requires
        0 <= px <= 0x10_0000_0000,
        0 <= py <= 0x10_0000_0000,
        0 <= r <= half_w <= 0x8_0000_0000,
        r <= half_h <= 0x8_0000_0000,
    ensures
        d == box_distance(px as int, py as int, half_w as int, half_h as int, r as int),
{
    let qx: i64 = px - (half_w - r);
    let qy: i64 = py - (half_h - r);
    let ox: i64 = if qx > 0 {
        qx
    } else {
        0
    };
    let oy: i64 = if qy > 0 {
        qy
    } else {
        0
    };
    assert(0 <= ox <= 0x10_0000_0000 && 0 <= oy <= 0x10_0000_0000);
    let outside: i64 = if ox == 0 {
        proof {
            lemma_floor_sqrt_square(oy as nat);
        }
        oy
    } else if oy == 0 {
        proof {
            lemma_floor_sqrt_square(ox as nat);
        }
        ox
    } else {
        assert(ox * ox <= 0x100_0000_0000_0000_0000) by (nonlinear_arith)
            requires
                0 <= ox <= 0x10_0000_0000,
        ;
        assert(oy * oy <= 0x100_0000_0000_0000_0000) by (nonlinear_arith)
            requires
                0 <= oy <= 0x10_0000_0000,
        ;
        let s: u128 = (ox as u128) * (ox as u128) + (oy as u128) * (oy as u128);
        let root = isqrt(s);
        assert(root < 0x100_0000_0000) by (nonlinear_arith)
            requires
                root as nat * root as nat <= s,
                s <= 0x200_0000_0000_0000_0000,
        ;
        root as i64
    };
    assert(0 <= outside <= 0x100_0000_0000);
    let inside: i64 = if qx > qy {
        if qx < 0 {
            qx
        } else {
            0
        }
    } else {
        if qy < 0 {
            qy
        } else {
            0
        }
    };
    outside + inside - r
}

} // verus!
