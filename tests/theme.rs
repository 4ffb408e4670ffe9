use hypr_ringlight::parse_hex_color;
use hypr_ringlight::theme::{get_accent_color, OmarchyColors};

#[test]
fn test_parse_hex_color() {
    assert_eq!(parse_hex_color("#89b4fa"), (137, 180, 250));
    assert_eq!(parse_hex_color("89b4fa"), (137, 180, 250));
    assert_eq!(parse_hex_color("#ff0000"), (255, 0, 0));
}

#[test]
fn accent_color_comes_from_theme() {
    let colors = OmarchyColors {
        accent: Some("#cba6f7".to_string()),
        background: None,
        foreground: Some("cdd6f4".to_string()),
    };
    assert_eq!(get_accent_color(Some(colors)), Some((203, 166, 247)));
    let no_accent = OmarchyColors { accent: None, background: None, foreground: None };
    assert_eq!(get_accent_color(Some(no_accent)), None);
    assert_eq!(get_accent_color(None), None);
}
