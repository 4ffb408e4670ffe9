use hypr_ringlight::config::{bar_margin, initial_color, BarPosition, Config};

#[test]
fn defaults() {
    let c = Config::default();
    assert_eq!(c.color, "ffffff");
    assert_eq!((c.thickness, c.opacity, c.glow, c.corner_radius), (80, 1000, 80, 2500));
    assert_eq!((c.animation.as_str(), c.animation_speed), ("none", 120));
    assert_eq!((c.bar_height, c.bar_position.as_str()), (35, "top"));
    assert!(c.disabled_monitors.is_empty());
}

#[test]
fn names_in_any_case() {
    let mut c = Config::default();
    c.animation = "Breathe".to_string();
    c.bar_position = "BOTTOM".to_string();
    assert_eq!(c.animation_mode(), 3);
    assert_eq!(c.bar_position_enum(), BarPosition::Bottom);
    c.bar_position = "middle".to_string();
    assert_eq!(c.bar_position_enum(), BarPosition::Top);
}

#[test]
fn margins() {
    assert_eq!(bar_margin(BarPosition::Top, 35), (35, 0, 0, 0));
    assert_eq!(bar_margin(BarPosition::Right, 35), (0, 35, 0, 0));
    assert_eq!(bar_margin(BarPosition::Bottom, 35), (0, 0, 35, 0));
    assert_eq!(bar_margin(BarPosition::Left, 35), (0, 0, 0, 35));
    assert_eq!(bar_margin(BarPosition::Top, u32::MAX), (i32::MAX, 0, 0, 0));
}

#[test]
fn starting_color() {
    let accent = Some((1, 2, 3));
    assert_eq!(initial_color(false, "ffffff", accent), (1, 2, 3));
    assert_eq!(initial_color(true, "ffffff", accent), (255, 255, 255));
    assert_eq!(initial_color(false, "ff0000", accent), (255, 0, 0));
    assert_eq!(initial_color(false, "ffffff", None), (255, 255, 255));
}
