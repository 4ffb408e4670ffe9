use vstd::prelude::*;
use crate::animation::{animation_from_string, code_of_name};
use crate::color::{color_of, parse_hex_color};
use crate::text::{lower_of, lowercase, same_text};

verus! {

/// Edge of the screen that holds the status bar.
#[derive(Debug, Clone, Copy, PartialEq, Eq, Structural, Default)]
pub enum BarPosition {
    #[default]
    Top,
    Bottom,
    Left,
    Right,
}

/// Bar position named by a lowercase name; unknown names mean the top.
pub open spec fn position_of_name(name: Seq<char>) -> BarPosition {
    if name == "bottom"@ {
        BarPosition::Bottom
    } else if name == "left"@ {
        BarPosition::Left
    } else if name == "right"@ {
        BarPosition::Right
    } else {
        BarPosition::Top
    }
}

/// Bar position of an already lowercased name.
pub fn bar_position_from_lowercase(name: &str) -> (p: BarPosition)
    ensures
        p == position_of_name(name@),
{
    if same_text(name, "bottom") {
        BarPosition::Bottom
    } else if same_text(name, "left") {
        BarPosition::Left
    } else if same_text(name, "right") {
        BarPosition::Right
    } else {
        BarPosition::Top
    }
}

/// Margins (top, right, bottom, left) of a ring surface: the bar's height
/// on the bar's edge, nothing elsewhere. Heights beyond `i32::MAX` are
/// taken as `i32::MAX`.
pub open spec fn margin_of(position: BarPosition, height: int) -> (int, int, int, int) {
    let m = if height > i32::MAX {
        i32::MAX as int
    } else {
        height
    };
    match position {
        BarPosition::Top => (m, 0, 0, 0),
        BarPosition::Right => (0, m, 0, 0),
        BarPosition::Bottom => (0, 0, m, 0),
        BarPosition::Left => (0, 0, 0, m),
    }
}

pub fn bar_margin(position: BarPosition, height: u32) -> (m: (i32, i32, i32, i32))
    ensures
        (m.0 as int, m.1 as int, m.2 as int, m.3 as int) == margin_of(position, height as int),
{
    let v: i32 = if height > i32::MAX as u32 {
        i32::MAX
    } else {
        height as i32
    };
    match position {
        BarPosition::Top => (v, 0, 0, 0),
        BarPosition::Right => (0, v, 0, 0),
        BarPosition::Bottom => (0, 0, v, 0),
        BarPosition::Left => (0, 0, 0, v),
    }
}

pub fn default_color() -> (s: String)
    ensures
        s@ == "ffffff"@,
{
    String::from_str("ffffff")
}

pub fn default_thickness() -> (v: u32)
    ensures
        v == 80,
{
    80
}

/// Full opacity, in thousandths.
pub fn default_opacity() -> (v: u32)
    ensures
        v == 1000,
{
    1000
}

pub fn default_glow() -> (v: u32)
    ensures
        v == 80,
{
    80
}

/// Two and a half times the thickness, in thousandths.
pub fn default_corner_radius() -> (v: u32)
    ensures
        v == 2500,
{
    2500
}

pub fn default_animation() -> (s: String)
    ensures
        s@ == "none"@,
{
    String::from_str("none")
}

pub fn default_animation_speed() -> (v: u32)
    ensures
        v == 120,
{
    120
}

pub fn default_bar_height() -> (v: u32)
    ensures
        v == 35,
{
    35
}

pub fn default_bar_position() -> (s: String)
    ensures
        s@ == "top"@,
{
    String::from_str("top")
}

/// Settings as kept in the configuration file. Opacity and corner radius
/// are in thousandths.
#[derive(Debug, Clone)]
pub struct Config {
    pub color: String,
    pub thickness: u32,
    pub opacity: u32,
    pub glow: u32,
    pub corner_radius: u32,
    pub animation: String,
    pub animation_speed: u32,
    pub bar_height: u32,
    pub bar_position: String,
    pub disabled_monitors: Vec<String>,
}

impl Default for Config {
    fn default() -> (c: Config)
        ensures
            c.color@ == "ffffff"@,
            c.thickness == 80,
            c.opacity == 1000,
            c.glow == 80,
            c.corner_radius == 2500,
            c.animation@ == "none"@,
            c.animation_speed == 120,
            c.bar_height == 35,
            c.bar_position@ == "top"@,
            c.disabled_monitors@.len() == 0,
    {
        Config {
            color: default_color(),
            thickness: default_thickness(),
            opacity: default_opacity(),
            glow: default_glow(),
            corner_radius: default_corner_radius(),
            animation: default_animation(),
            animation_speed: default_animation_speed(),
            bar_height: default_bar_height(),
            bar_position: default_bar_position(),
            disabled_monitors: Vec::new(),
        }
    }
}

impl Config {
    /// Storage code of the configured animation, in any letter case.
    pub fn animation_mode(&self) -> (code: u8)
        ensures
            code == code_of_name(lower_of(self.animation@)),
    {
        animation_from_string(self.animation.as_str())
    }

    /// Configured bar position, in any letter case.
    pub fn bar_position_enum(&self) -> (p: BarPosition)
        ensures
            p == position_of_name(lower_of(self.bar_position@)),
    {
        let lower = lowercase(self.bar_position.as_str());
        bar_position_from_lowercase(lower.as_str())
    }
}

/// Color the ring starts with: a theme accent replaces the configured color
/// only when no color was given explicitly and the configured one is the
/// default white.
pub open spec fn initial_color_of(
    explicit: bool,
    configured: Seq<char>,
    accent: Option<(u8, u8, u8)>,
) -> (u8, u8, u8) {
    if !explicit && configured == "ffffff"@ && accent is Some {
        accent->0
    } else {
        color_of(configured)
    }
}

pub fn initial_color(explicit: bool, configured: &str, accent: Option<(u8, u8, u8)>) -> (c: (
    u8,
    u8,
    u8,
))
    ensures
        c == initial_color_of(explicit, configured@, accent),
{
    if !explicit && same_text(configured, "ffffff") {
        if let Some(a) = accent {
            return a;
        }
    }
    parse_hex_color(configured)
}

} // verus!
