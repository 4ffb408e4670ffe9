use hypr_ringlight::registry::Registry;

#[test]
fn upsert_twice_keeps_one_entry() {
    let mut reg = Registry::new(Vec::new());
    reg.upsert("DP-2".to_string(), "A".to_string());
    reg.toggle("DP-2");
    reg.upsert("DP-2".to_string(), "B".to_string());
    let list = reg.list();
    assert_eq!(list.len(), 1);
    assert_eq!(list[0].id, "DP-2");
    assert_eq!(list[0].display_name, "B");
    assert!(!list[0].enabled);
}

#[test]
fn unknown_display_is_enabled() {
    let reg = Registry::new(Vec::new());
    assert!(reg.is_enabled("HDMI-1"));
}

#[test]
fn toggle_and_remember() {
    let mut reg = Registry::new(vec!["HDMI-1".to_string()]);
    reg.upsert("HDMI-1".to_string(), "LG".to_string());
    reg.upsert("DP-1".to_string(), "Dell".to_string());
    assert!(!reg.is_enabled("HDMI-1"));
    assert!(reg.is_enabled("DP-1"));
    reg.toggle("DP-1");
    assert!(!reg.is_enabled("DP-1"));
    assert_eq!(reg.disabled_ids(), vec!["HDMI-1".to_string(), "DP-1".to_string()]);
    reg.remove("DP-1");
    assert_eq!(reg.list().len(), 1);
    assert!(reg.is_enabled("DP-1"));
    reg.upsert("DP-1".to_string(), "Dell".to_string());
    assert!(!reg.is_enabled("DP-1"));
    reg.set_enabled("HDMI-1", true);
    assert!(reg.is_enabled("HDMI-1"));
    assert_eq!(reg.disabled_ids(), vec!["DP-1".to_string()]);
    reg.toggle("nowhere");
    assert_eq!(reg.list().len(), 2);
}
