use hypr_ringlight::animation::AnimationMode;
use hypr_ringlight::config::Config;
use hypr_ringlight::protocol::{handle_command, update_for, Command, Reply};
use hypr_ringlight::registry::Registry;
use hypr_ringlight::store::{IpcState, Update};

fn default_store() -> IpcState {
    IpcState::new((255, 255, 255), 80, 1000, 80, 2500, 0, 120)
}

#[test]
fn set_color_then_get_state() {
    let store = default_store();
    let mut reg = Registry::new(Vec::new());
    let r = handle_command(&store, &mut reg, &Command::SetColor("ff0000".to_string()));
    assert!(matches!(r, Reply::Changed));
    match handle_command(&store, &mut reg, &Command::GetState) {
        Reply::State(s) => {
            assert_eq!(s.color, "ff0000");
            assert_eq!(s.thickness, 80);
            assert_eq!(s.opacity, 1000);
            assert_eq!(s.glow, 80);
            assert_eq!(s.corner_radius, 2500);
            assert_eq!(s.animation, "none");
            assert_eq!(s.animation_speed, 120);
            assert!(s.visible);
        }
        _ => panic!("expected a state answer"),
    }
}

#[test]
fn quit_stops() {
    let store = default_store();
    let mut reg = Registry::new(Vec::new());
    assert!(matches!(handle_command(&store, &mut reg, &Command::Quit), Reply::Quit));
}

#[test]
fn monitor_commands() {
    let store = default_store();
    let mut reg = Registry::new(Vec::new());
    reg.upsert("DP-1".to_string(), "Dell".to_string());
    let r = handle_command(&store, &mut reg, &Command::SetMonitorEnabled("DP-1".to_string(), false));
    assert!(matches!(r, Reply::Changed));
    assert!(!reg.is_enabled("DP-1"));
    match handle_command(&store, &mut reg, &Command::GetMonitors) {
        Reply::Monitors(v) => {
            assert_eq!(v.len(), 1);
            assert_eq!(v[0].display_name, "Dell");
            assert!(!v[0].enabled);
        }
        _ => panic!("expected a monitor list"),
    }
}

#[test]
fn updates_decoded() {
    assert_eq!(update_for(&Command::SetColor("#00ff80".to_string())), Some(Update::Color(0, 255, 128)));
    assert_eq!(update_for(&Command::SetAnimation("RAINBOW".to_string())), Some(Update::Animation(2)));
    assert_eq!(update_for(&Command::SetVisible(false)), Some(Update::Visible(false)));
    assert_eq!(update_for(&Command::GetState), None);
}

#[test]
fn set_then_get_each_setting() {
    let store = default_store();
    store.set_color(1, 2, 3);
    assert_eq!(store.get_color(), (1, 2, 3));
    store.set_thickness(12);
    assert_eq!(store.get_thickness(), 12);
    store.set_opacity(750);
    assert_eq!(store.get_opacity(), 750);
    store.set_glow(0);
    assert_eq!(store.get_glow(), 0);
    store.set_corner_radius(1250);
    assert_eq!(store.get_corner_radius(), 1250);
    store.set_animation_mode(3);
    assert_eq!(store.get_animation_mode(), 3);
    store.set_animation_speed(60);
    assert_eq!(store.get_animation_speed(), 60);
    store.set_visible(false);
    assert!(!store.is_visible());
    let snap = store.snapshot();
    assert_eq!(snap.animation, AnimationMode::Breathe);
    assert_eq!((snap.thickness, snap.opacity, snap.visible), (12, 750, false));
}

#[test]
fn snapshot_to_config_keeps_bar() {
    let store = default_store();
    store.set_animation_mode(1);
    let mut existing = Config::default();
    existing.bar_height = 50;
    existing.bar_position = "left".to_string();
    let c = store.snapshot().to_config(&existing, vec!["DP-3".to_string()]);
    assert_eq!(c.color, "ffffff");
    assert_eq!(c.animation, "pulse");
    assert_eq!((c.bar_height, c.bar_position.as_str()), (50, "left"));
    assert_eq!(c.disabled_monitors, vec!["DP-3".to_string()]);
}
