use hypr_ringlight::animation::AnimationMode;
use hypr_ringlight::geometry::{distance_to_inner_rounded_border, isqrt};
use hypr_ringlight::render::{frame_look, glow_alpha, plan_frame, render_frame, Look, RingStyle};
use hypr_ringlight::store::Snapshot;

#[test]
fn integer_square_root() {
    assert_eq!(isqrt(0), 0);
    assert_eq!(isqrt(15), 3);
    assert_eq!(isqrt(16), 4);
    assert_eq!(isqrt(12800), 113);
}

#[test]
fn distance_at_center_and_corner() {
    // 1000 x 1000 surface, ring of 80 + 80 px, corner radius 200 px
    assert_eq!(distance_to_inner_rounded_border(8000, 8000, 1000, 1000, 160, 3200), -5440);
    assert_eq!(distance_to_inner_rounded_border(0, 8000, 1000, 1000, 160, 3200), 2560);
    // no inner area left: one hundred pixels
    assert_eq!(distance_to_inner_rounded_border(0, 0, 100, 100, 160, 3200), 1600);
}

#[test]
fn alpha_falloff() {
    assert_eq!(glow_alpha(0, 80, 1000), 0);
    assert_eq!(glow_alpha(-5, 80, 1000), 0);
    assert_eq!(glow_alpha(640, 80, 1000), 31);
    assert_eq!(glow_alpha(1280, 80, 1000), 255);
    assert_eq!(glow_alpha(1281, 80, 1000), 255);
    assert_eq!(glow_alpha(5000, 80, 500), 127);
    assert_eq!(glow_alpha(5000, 80, 4000), 255);
    assert_eq!(glow_alpha(1, 0, 1000), 255);
}

#[test]
fn alpha_monotone_across_band() {
    let mut last = 0u8;
    for d in -100i64..2000 {
        let a = glow_alpha(d, 80, 900);
        assert!(a >= last);
        last = a;
    }
    assert_eq!(glow_alpha(1280, 80, 900), glow_alpha(1281, 80, 900));
}

#[test]
fn center_is_clear() {
    let style = RingStyle { thickness: 80, glow: 80, corner_ratio: 2500 };
    let look = Look { color: (255, 255, 255), opacity: 1000 };
    let (w, h) = (400u32, 360u32);
    let mut canvas = vec![7u8; (4 * w * h) as usize];
    render_frame(&mut canvas, w, h, style, look);
    let center = ((h / 2) * w + w / 2) as usize;
    assert_eq!(&canvas[4 * center..4 * center + 4], &[0, 0, 0, 0]);
    assert_eq!(&canvas[0..4], &[255, 255, 255, 255]);
}

#[test]
fn small_frame_pixels() {
    let style = RingStyle { thickness: 2, glow: 0, corner_ratio: 2500 };
    let look = Look { color: (200, 100, 50), opacity: 1000 };
    let mut canvas = vec![9u8; 4 * 20 * 10];
    render_frame(&mut canvas, 20, 10, style, look);
    assert_eq!(&canvas[0..4], &[50, 100, 200, 255]);
    let center = 5 * 20 + 10;
    assert_eq!(&canvas[4 * center..4 * center + 4], &[0, 0, 0, 0]);
}

#[test]
fn half_opacity_premultiplies() {
    let style = RingStyle { thickness: 2, glow: 0, corner_ratio: 0 };
    let look = Look { color: (255, 128, 0), opacity: 500 };
    let mut canvas = vec![0u8; 4 * 8 * 8];
    render_frame(&mut canvas, 8, 8, style, look);
    assert_eq!(&canvas[0..4], &[0, 63, 127, 127]);
}

#[test]
fn disabled_display_frame_is_transparent() {
    let snap = Snapshot {
        color: (255, 255, 255),
        thickness: 80,
        opacity: 1000,
        glow: 80,
        corner_radius: 2500,
        animation: AnimationMode::Static,
        animation_speed: 120,
        visible: true,
    };
    let (style, look) = plan_frame(&snap, false, 42, 1000);
    let mut canvas = vec![0xabu8; 4 * 300 * 200];
    render_frame(&mut canvas, 300, 200, style, look);
    assert!(canvas.iter().all(|b| *b == 0));
}

#[test]
fn hidden_ring_is_transparent() {
    let look = frame_look(false, true, AnimationMode::Rainbow, 3, 120, (1, 2, 3), 800, 1000);
    assert_eq!((look.color, look.opacity), ((0, 0, 0), 0));
}

#[test]
fn looks_per_mode() {
    let c = (10, 20, 30);
    let l = frame_look(true, true, AnimationMode::Static, 5, 120, c, 800, 300);
    assert_eq!((l.color, l.opacity), (c, 800));
    let l = frame_look(true, true, AnimationMode::Pulse, 5, 120, c, 800, 500);
    assert_eq!((l.color, l.opacity), (c, 400));
    let l = frame_look(true, true, AnimationMode::Breathe, 5, 120, c, 800, 5000);
    assert_eq!((l.color, l.opacity), (c, 800));
    let l = frame_look(true, true, AnimationMode::Rainbow, 0, 120, c, 800, 0);
    assert_eq!((l.color, l.opacity), ((255, 0, 0), 800));
}
