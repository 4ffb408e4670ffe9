use hypr_ringlight::surfaces::{display_name, output_id, Surfaces};

#[test]
fn output_ids() {
    assert_eq!(output_id(Some("DP-2".to_string()), 7), "DP-2");
    assert_eq!(output_id(None, 42), "output-42");
    assert_eq!(output_id(None, 0), "output-0");
}

#[test]
fn display_names() {
    assert_eq!(display_name("Dell", "U2720Q", "DP-1"), "Dell U2720Q");
    assert_eq!(display_name("Dell", "", "DP-1"), "Dell");
    assert_eq!(display_name("", "U2720Q", "DP-1"), "U2720Q");
    assert_eq!(display_name("", "", "DP-1"), "DP-1");
}

#[test]
fn surface_lifecycle() {
    let mut s = Surfaces::new();
    s.attach(3, "DP-1".to_string());
    s.attach(4, "HDMI-1".to_string());
    assert_eq!(s.drawable(3), None);
    assert_eq!(s.lookup(3), Some((0, 0, "DP-1".to_string())));
    assert!(s.configure(3, 1920, 1080));
    assert!(!s.configure(9, 10, 10));
    assert_eq!(s.lookup(3), Some((1920, 1080, "DP-1".to_string())));
    assert_eq!(s.drawable(3), Some((1920, 1080, "DP-1".to_string())));
    assert!(s.configure(4, 0, 600));
    assert_eq!(s.drawable(4), None);
    s.attach(5, "DP-1".to_string());
    assert_eq!(s.len(), 2);
    assert_eq!(s.lookup(3), None);
    assert_eq!(s.detach_output("HDMI-1"), Some(4));
    assert_eq!(s.detach_output("HDMI-1"), None);
    assert_eq!(s.lookup(4), None);
    assert!(s.close(5));
}
