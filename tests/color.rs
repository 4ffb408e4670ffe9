use hypr_ringlight::{color_to_hex, parse_hex_color};

#[test]
fn short_input_is_white() {
    assert_eq!(parse_hex_color(""), (255, 255, 255));
    assert_eq!(parse_hex_color("#12345"), (255, 255, 255));
    assert_eq!(parse_hex_color("###"), (255, 255, 255));
}

#[test]
fn bad_pairs_read_as_full() {
    assert_eq!(parse_hex_color("zz0000"), (255, 0, 0));
    assert_eq!(parse_hex_color("00-100"), (0, 255, 0));
    assert_eq!(parse_hex_color("+f0000"), (15, 0, 0));
}

#[test]
fn markers_and_case() {
    assert_eq!(parse_hex_color("##AbCdEf"), (171, 205, 239));
    assert_eq!(parse_hex_color("12345678"), (18, 52, 86));
}

#[test]
fn hex_encoding() {
    assert_eq!(color_to_hex(255, 0, 16), "ff0010");
    assert_eq!(color_to_hex(0, 0, 0), "000000");
    assert_eq!(color_to_hex(137, 180, 250), "89b4fa");
}

#[test]
fn hex_round_trip() {
    for s in ["#89B4FA", "89b4fa", "##A6E3A1", "f38ba8ff", "000000"] {
        let (r, g, b) = parse_hex_color(s);
        let digits: String = s.trim_start_matches('#').chars().take(6).collect();
        assert_eq!(color_to_hex(r, g, b), digits.to_lowercase());
    }
}
