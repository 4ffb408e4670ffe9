use hypr_ringlight::animation::{
    animation_from_lowercase, animation_from_string, animation_to_string, rainbow_color,
    AnimationMode,
};

#[test]
fn animation_names_any_case() {
    assert_eq!(animation_from_string("PULSE"), 1);
    assert_eq!(animation_from_string("Rainbow"), 2);
    assert_eq!(animation_from_string("breathe"), 3);
    assert_eq!(animation_from_string("none"), 0);
    assert_eq!(animation_from_string("sparkle"), 0);
    assert_eq!(animation_from_lowercase("Pulse"), 0);
}

#[test]
fn animation_codes() {
    assert_eq!(animation_to_string(1), "pulse");
    assert_eq!(animation_to_string(2), "rainbow");
    assert_eq!(animation_to_string(3), "breathe");
    assert_eq!(animation_to_string(0), "none");
    assert_eq!(animation_to_string(9), "none");
    assert_eq!(AnimationMode::from_code(9), AnimationMode::Static);
    assert_eq!(AnimationMode::from_code(2).code(), 2);
}

#[test]
fn rainbow_values() {
    assert_eq!(rainbow_color(0, 120), (255, 0, 0));
    assert_eq!(rainbow_color(10, 120), (255, 127, 0));
    assert_eq!(rainbow_color(20, 120), (255, 255, 0));
    assert_eq!(rainbow_color(40, 120), (0, 255, 0));
    assert_eq!(rainbow_color(80, 120), (0, 0, 255));
    assert_eq!(rainbow_color(5, 0), (0, 0, 0));
}

#[test]
fn rainbow_periodic_and_saturated() {
    for speed in [1u32, 7, 120, 1000] {
        for frame in 0u32..300 {
            let c = rainbow_color(frame, speed);
            assert_eq!(c, rainbow_color(frame + speed, speed));
            let hi = c.0.max(c.1).max(c.2);
            let lo = c.0.min(c.1).min(c.2);
            assert_eq!((hi, lo), (255, 0));
        }
    }
}
