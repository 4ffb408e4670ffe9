use vstd::prelude::*;
use crate::animation::{rainbow_color, rainbow_of, AnimationMode};
use crate::registry::{enabled_in, has_id, lemma_disabled_reads_disabled, unique_ids, with_enabled, Entry};
use crate::store::Snapshot;
use crate::geometry::{
    corner_radius_of, distance_to_inner_rounded_border, lemma_floor_sqrt_square, min,
    ring_distance, SUBPIXELS,
};

verus! {

/// Shape of the ring: thickness and glow in pixels, corner radius as a
/// multiple of the thickness in thousandths.
#[derive(Clone, Copy, Debug)]
pub struct RingStyle {
    pub thickness: u32,
    pub glow: u32,
    pub corner_ratio: u32,
}

/// What one frame paints: a color and an opacity in thousandths.
#[derive(Clone, Copy, Debug)]
pub struct Look {
    pub color: (u8, u8, u8),
    pub opacity: u32,
}

/// Alpha byte at signed distance `d` (sixteenths of a pixel) from the inner
/// edge: nothing inside, a cubic ease across the glow band, then the full
/// opacity (thousandths, at most one) beyond it.
pub open spec fn glow_alpha_of(d: int, glow: int, opacity: int) -> int {
    let op = min(opacity, 1000);
    let g = SUBPIXELS * glow;
    if d <= 0 {
        0
    } else if d > g {
        255 * op / 1000
    } else {
        255 * op * (d * d * d) / (1000 * (g * g * g))
    }
}

/// A color channel scaled by an alpha byte.
pub open spec fn premultiplied(c: u8, a: int) -> int {
    c as int * a / 255
}

/// Alpha byte of the pixel at column `x`, row `y` of a `w` by `h` surface.
pub open spec fn pixel_alpha(w: int, h: int, style: RingStyle, look: Look, x: int, y: int) -> int {
    let inset = style.thickness + style.glow;
    let radius = corner_radius_of(style.thickness as int, style.corner_ratio as int);
    glow_alpha_of(
        ring_distance(SUBPIXELS * x, SUBPIXELS * y, w, h, inset, radius),
        style.glow as int,
        look.opacity as int,
    )
}

/// Pixel `j` of a canvas holds the premultiplied color with alpha `a`, as
/// the little-endian bytes of a 32-bit value with alpha in its top byte.
pub open spec fn pixel_written(c: Seq<u8>, j: int, a: int, color: (u8, u8, u8)) -> bool {
    &&& c[4 * j] as int == premultiplied(color.2, a)
    &&& c[4 * j + 1] as int == premultiplied(color.1, a)
    &&& c[4 * j + 2] as int == premultiplied(color.0, a)
    &&& c[4 * j + 3] as int == a
}

proof fn lemma_glow_alpha_range(d: int, glow: int, opacity: int)
    requires
        glow >= 0,
        opacity >= 0,
    ensures
        0 <= glow_alpha_of(d, glow, opacity) <= 255 * min(opacity, 1000) / 1000,
{
    let op = min(opacity, 1000);
    let g = SUBPIXELS * glow;
    assert(0 <= 255 * op / 1000 <= 255);
    if d > 0 && d <= g {
        let num = 255 * op * (d * d * d);
        let den = 1000 * (g * g * g);
        assert(d * d * d <= g * g * g && 0 < d * d * d) by (nonlinear_arith)
            requires
                0 < d <= g,
        ;
        assert(den > 0) by (nonlinear_arith)
            requires
                den == 1000 * (g * g * g),
                g > 0,
        ;
        assert(0 <= num <= 255 * op * (g * g * g)) by (nonlinear_arith)
            requires
                0 <= op,
                0 < d * d * d <= g * g * g,
                num == 255 * op * (d * d * d),
        ;
        assert(num / den <= 255 * op / 1000) by (nonlinear_arith)
            requires
                0 <= num <= 255 * op * (g * g * g),
                den == 1000 * (g * g * g),
                g > 0,
                op >= 0,
        ;
        assert(num / den >= 0) by (nonlinear_arith)
            requires
                num >= 0,
                den > 0,
        ;
    }
}

/// Alpha byte for a distance from the ring's inner edge.
pub fn glow_alpha(d: i64, glow: u32, opacity: u32) -> (a: u8)
    ensures
        a as int == glow_alpha_of(d as int, glow as int, opacity as int),
{
    proof {
        lemma_glow_alpha_range(d as int, glow as int, opacity as int);
    }
    let op: u128 = if opacity > 1000 {
        1000
    } else {
        opacity as u128
    };
    let g: u128 = 16 * glow as u128;
    if d <= 0 {
        0
    } else if d as u128 > g {
        (255 * op / 1000) as u8
    } else {
        let dd: u128 = d as u128;
        assert(dd * dd <= 0x100_0000_0000_0000_0000 && g * g <= 0x100_0000_0000_0000_0000)
            by (nonlinear_arith)
            requires
                0 < dd <= g,
                g <= 0x10_0000_0000,
        ;
        let sq: u128 = dd * dd;
        let gsq: u128 = g * g;
        assert(sq * dd <= 0x1000_0000_0000_0000_0000_0000_0000 && gsq * g
            <= 0x1000_0000_0000_0000_0000_0000_0000 && gsq * g > 0) by (nonlinear_arith)
            requires
                0 < dd <= g,
                g <= 0x10_0000_0000,
                sq == dd * dd,
                gsq == g * g,
        ;
        let cube: u128 = sq * dd;
        let gcube: u128 = gsq * g;
        let k: u128 = 255 * op;
        assert(k * cube <= 0x4_0000 * 0x1000_0000_0000_0000_0000_0000_0000) by (nonlinear_arith)
            requires
                k <= 255000,
                cube <= 0x1000_0000_0000_0000_0000_0000_0000,
        ;
        let num: u128 = k * cube;
        let den: u128 = 1000 * gcube;
        (num / den) as u8
    }
}

/// Alpha never decreases as a pixel lies further out from the inner edge,
/// and at the outer end of the glow band it already equals the full
/// opacity, so the band meets the solid part without a jump.
pub proof fn lemma_glow_alpha_monotone(d1: int, d2: int, glow: int, opacity: int)
    requires
        d1 <= d2,
        glow >= 0,
        opacity >= 0,
    ensures
        glow_alpha_of(d1, glow, opacity) <= glow_alpha_of(d2, glow, opacity),
        glow > 0 ==> glow_alpha_of(SUBPIXELS * glow, glow, opacity) == glow_alpha_of(
            SUBPIXELS * glow + 1,
            glow,
            opacity,
        ),
{
    lemma_glow_alpha_range(d1, glow, opacity);
    lemma_glow_alpha_range(d2, glow, opacity);
    let op = min(opacity, 1000);
    let g = SUBPIXELS * glow;
    if 0 < d1 && d2 <= g {
        let den = 1000 * (g * g * g);
        assert(den > 0) by (nonlinear_arith)
            requires
                den == 1000 * (g * g * g),
                g > 0,
        ;
        assert(255 * op * (d1 * d1 * d1) <= 255 * op * (d2 * d2 * d2)) by (nonlinear_arith)
            requires
                0 < d1 <= d2,
                op >= 0,
        ;
        vstd::arithmetic::div_mod::lemma_div_is_ordered(
            255 * op * (d1 * d1 * d1),
            255 * op * (d2 * d2 * d2),
            den,
        );
    }
    if glow > 0 {
        let k = 255 * op;
        assert(k * (g * g * g) / (1000 * (g * g * g)) == k / 1000) by (nonlinear_arith)
            requires
                g > 0,
                k >= 0,
        ;
    }
}

fn premultiply(c: u8, a: u8) -> (p: u8)
    ensures
        p as int == premultiplied(c, a as int),
{
    assert(c as int * a as int / 255 <= 255) by (nonlinear_arith)
        requires
            c <= 255,
            a <= 255,
    ;
    ((c as u32) * (a as u32) / 255) as u8
}

/// Paints one frame of the ring into a `width` by `height` canvas of
/// 32-bit pixels, row by row.
pub fn render_frame(canvas: &mut [u8], width: u32, height: u32, style: RingStyle, look: Look)
    requires
        old(canvas)@.len() == 4 * (width as int) * (height as int),
    ensures
        final(canvas)@.len() == old(canvas)@.len(),
        forall|j: int|
            0 <= j < (width as int) * (height as int) ==> #[trigger] pixel_written(
                final(canvas)@,
                j,
                pixel_alpha(width as int, height as int, style, look, j % width as int, j / width as int),
                look.color,
            ),
{
    let ghost w = width as int;
    let ghost h = height as int;
    let len: usize = canvas.len();
    let n: usize = len / 4;
    assert(n as int == w * h && len as int == 4 * n) by (nonlinear_arith)
        requires
            n as int == canvas@.len() / 4,
            len == canvas@.len(),
            canvas@.len() == 4 * w * h,
    ;
    let inset: u64 = style.thickness as u64 + style.glow as u64;
    assert(16 * (style.thickness as u128) * (style.corner_ratio as u128) <= 0x10_0000_0000
        * 0x1_0000_0000) by (nonlinear_arith);
    let radius: u128 = 16 * (style.thickness as u128) * (style.corner_ratio as u128) / 1000;
    assert(16 * (style.thickness as u128) * (style.corner_ratio as u128) == SUBPIXELS
        * style.thickness as int * style.corner_ratio as int);
    let mut i: usize = 0;
    while i < n
        invariant
            n as int == w * h,
            len as int == 4 * n,
            w == width,
            h == height,
            canvas@.len() == len,
            i <= n,
            inset == style.thickness + style.glow,
            radius as int == corner_radius_of(style.thickness as int, style.corner_ratio as int),
            forall|j: int|
                0 <= j < i ==> #[trigger] pixel_written(
                    canvas@,
                    j,
                    pixel_alpha(w, h, style, look, j % w, j / w),
                    look.color,
                ),
        decreases n - i,
    {
        assert(w > 0);
        let x: usize = i % (width as usize);
        let y: usize = i / (width as usize);
        assert(y < h && x < w) by (nonlinear_arith)
            requires
                y as int == i as int / w,
                x as int == i as int % w,
                i < w * h,
                w > 0,
        ;
        let d = distance_to_inner_rounded_border(
            16 * x as i64,
            16 * y as i64,
            width,
            height,
            inset,
            radius,
        );
        let a = glow_alpha(d, style.glow, look.opacity);
        let (r, g, b) = look.color;
        let k: usize = 4 * i;
        let ghost before = canvas@;
        canvas[k] = premultiply(b, a);
        canvas[k + 1] = premultiply(g, a);
        canvas[k + 2] = premultiply(r, a);
        canvas[k + 3] = a;
        proof {
            assert(a as int == pixel_alpha(w, h, style, look, i as int % w, i as int / w));
            assert(pixel_written(canvas@, i as int, a as int, look.color));
            assert forall|j: int| 0 <= j < i + 1 implies #[trigger] pixel_written(
                canvas@,
                j,
                pixel_alpha(w, h, style, look, j % w, j / w),
                look.color,
            ) by {
                if j < i {
                    assert(pixel_written(
                        before,
                        j,
                        pixel_alpha(w, h, style, look, j % w, j / w),
                        look.color,
                    ));
                }
            }
        }
        i = i + 1;
    }
}

/// Color and opacity of the next frame. A hidden ring or a disabled display
/// gets a fully transparent frame. Pulse and breathe scale the opacity by
/// `wave` (thousandths, at most one), the caller's sample of that mode's
/// wave at this frame; rainbow replaces the color by the rainbow's.
pub open spec fn look_of(
    visible: bool,
    enabled: bool,
    mode: AnimationMode,
    frame: u32,
    speed: u32,
    color: (u8, u8, u8),
    opacity: u32,
    wave: u32,
) -> (((int, int, int), int)) {
    if !visible || !enabled {
        ((0, 0, 0), 0)
    } else {
        match mode {
            AnimationMode::Static => ((color.0 as int, color.1 as int, color.2 as int), opacity as int),
            AnimationMode::Rainbow => (rainbow_of(frame as int, speed as int), opacity as int),
            _ => (
                (color.0 as int, color.1 as int, color.2 as int),
                opacity as int * min(wave as int, 1000) / 1000,
            ),
        }
    }
}

pub open spec fn look_matches(look: Look, spec: ((int, int, int), int)) -> bool {
    &&& look.color.0 as int == spec.0.0
    &&& look.color.1 as int == spec.0.1
    &&& look.color.2 as int == spec.0.2
    &&& look.opacity as int == spec.1
}

/// Computes the look of the next frame from the configuration read for it.
pub fn frame_look(
    visible: bool,
    enabled: bool,
    mode: AnimationMode,
    frame: u32,
    speed: u32,
    color: (u8, u8, u8),
    opacity: u32,
    wave: u32,
) -> (look: Look)
    ensures
        look_matches(look, look_of(visible, enabled, mode, frame, speed, color, opacity, wave)),
{
    if !visible || !enabled {
        return Look { color: (0, 0, 0), opacity: 0 };
    }
    match mode {
        AnimationMode::Static => Look { color, opacity },
        AnimationMode::Rainbow => Look { color: rainbow_color(frame, speed), opacity },
        _ => {
            let f: u64 = if wave > 1000 {
                1000
            } else {
                wave as u64
            };
            assert(opacity as u64 * f / 1000 <= opacity) by (nonlinear_arith)
                requires
                    f <= 1000,
            ;
            Look { color, opacity: (opacity as u64 * f / 1000) as u32 }
        },
    }
}

/// At the exact center of a surface wider and taller than twice the ring
/// (thickness plus glow), the ring paints nothing.
pub proof fn lemma_center_is_clear(
    w: int,
    h: int,
    thickness: int,
    glow: int,
    corner_ratio: int,
    opacity: int,
)
    requires
        thickness >= 0,
        glow >= 0,
        corner_ratio >= 0,
        w > 2 * (thickness + glow),
        h > 2 * (thickness + glow),
    ensures
        glow_alpha_of(
            ring_distance(
                SUBPIXELS * w / 2,
                SUBPIXELS * h / 2,
                w,
                h,
                thickness + glow,
                corner_radius_of(thickness, corner_ratio),
            ),
            glow,
            opacity,
        ) == 0,
{
    lemma_floor_sqrt_square(0);
    assert(0 * 0 + 0 * 0 == 0);
}

/// Shape and look of the next frame on a display, from the settings read
/// for it, whether the display is enabled, the frame counter and the wave
/// sample of the animation.
pub fn plan_frame(snap: &Snapshot, enabled: bool, frame: u32, wave: u32) -> (r: (RingStyle, Look))
    ensures
        r.0.thickness == snap.thickness,
        r.0.glow == snap.glow,
        r.0.corner_ratio == snap.corner_radius,
        look_matches(
            r.1,
            look_of(
                snap.visible,
                enabled,
                snap.animation,
                frame,
                snap.animation_speed,
                snap.color,
                snap.opacity,
                wave,
            ),
        ),
{
    let style = RingStyle {
        thickness: snap.thickness,
        glow: snap.glow,
        corner_ratio: snap.corner_radius,
    };
    let look = frame_look(
        snap.visible,
        enabled,
        snap.animation,
        frame,
        snap.animation_speed,
        snap.color,
        snap.opacity,
        wave,
    );
    (style, look)
}

/// A frame for a disabled display, or while the ring is hidden, has alpha
/// zero and all color bytes zero at every pixel, whatever the rest of the
/// configuration.
pub proof fn lemma_hidden_frame_is_transparent(
    visible: bool,
    enabled: bool,
    mode: AnimationMode,
    frame: u32,
    speed: u32,
    color: (u8, u8, u8),
    opacity: u32,
    wave: u32,
    look: Look,
    w: int,
    h: int,
    style: RingStyle,
    x: int,
    y: int,
)
    requires
        !visible || !enabled,
        look_matches(look, look_of(visible, enabled, mode, frame, speed, color, opacity, wave)),
    ensures
        pixel_alpha(w, h, style, look, x, y) == 0,
        premultiplied(look.color.0, 0) == 0,
        premultiplied(look.color.1, 0) == 0,
        premultiplied(look.color.2, 0) == 0,
{
    lemma_glow_alpha_range(
        ring_distance(
            SUBPIXELS * x,
            SUBPIXELS * y,
            w,
            h,
            style.thickness + style.glow,
            corner_radius_of(style.thickness as int, style.corner_ratio as int),
        ),
        style.glow as int,
        0,
    );
}

} // verus!

verus! {

/// Once a registered display is disabled, every pixel of its next frame is
/// fully transparent, even while the ring is visible.
pub proof fn lemma_disabled_display_is_transparent(
    displays: Seq<Entry>,
    id: Seq<char>,
    visible: bool,
    mode: AnimationMode,
    frame: u32,
    speed: u32,
    color: (u8, u8, u8),
    opacity: u32,
    wave: u32,
    look: Look,
    w: int,
    h: int,
    style: RingStyle,
    x: int,
    y: int,
)
    requires
        unique_ids(displays),
        has_id(displays, id),
        look_matches(
            look,
            look_of(
                visible,
                enabled_in(with_enabled(displays, id, false), id),
                mode,
                frame,
                speed,
                color,
                opacity,
                wave,
            ),
        ),
    ensures
        pixel_alpha(w, h, style, look, x, y) == 0,
        premultiplied(look.color.0, 0) == 0,
        premultiplied(look.color.1, 0) == 0,
        premultiplied(look.color.2, 0) == 0,
{
    lemma_disabled_reads_disabled(displays, id);
    lemma_hidden_frame_is_transparent(
        visible,
        false,
        mode,
        frame,
        speed,
        color,
        opacity,
        wave,
        look,
        w,
        h,
        style,
        x,
        y,
    );
}

} // verus!
