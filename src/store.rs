use std::sync::atomic::{AtomicBool, AtomicU32, AtomicU8, Ordering};
use vstd::prelude::*;
use crate::animation::{animation_to_string, code_of, name_of_code, AnimationMode};
use crate::color::{color_to_hex, hex_of};
use crate::config::Config;

verus! {

/// One reading of every appearance setting. Opacity and corner radius are
/// in thousandths.
#[derive(Debug, Clone, Copy)]
pub struct Snapshot {
    pub color: (u8, u8, u8),
    pub thickness: u32,
    pub opacity: u32,
    pub glow: u32,
    pub corner_radius: u32,
    pub animation: AnimationMode,
    pub animation_speed: u32,
    pub visible: bool,
}

/// Answer to a state query: the color as six lowercase hex digits and the
/// animation by name. Opacity and corner radius are in thousandths.
#[derive(Debug, Clone)]
pub struct State {
    pub color: String,
    pub thickness: u32,
    pub opacity: u32,
    pub glow: u32,
    pub corner_radius: u32,
    pub animation: String,
    pub animation_speed: u32,
    pub visible: bool,
}

/// A change to one setting.
#[derive(Debug, Clone, Copy, PartialEq, Eq, Structural)]
pub enum Update {
    Color(u8, u8, u8),
    Thickness(u32),
    Opacity(u32),
    Glow(u32),
    CornerRadius(u32),
    Animation(u8),
    AnimationSpeed(u32),
    Visible(bool),
}

/// The state answer describes the snapshot.
pub open spec fn state_describes(s: State, snap: Snapshot) -> bool {
    &&& s.color@ == hex_of(snap.color.0, snap.color.1, snap.color.2)
    &&& s.thickness == snap.thickness
    &&& s.opacity == snap.opacity
    &&& s.glow == snap.glow
    &&& s.corner_radius == snap.corner_radius
    &&& s.animation@ == name_of_code(code_of(snap.animation))
    &&& s.animation_speed == snap.animation_speed
    &&& s.visible == snap.visible
}

impl Snapshot {
    /// Builds the answer to a state query.
    pub fn to_state(&self) -> (s: State)
        ensures
            state_describes(s, *self),
    {
        State {
            color: color_to_hex(self.color.0, self.color.1, self.color.2),
            thickness: self.thickness,
            opacity: self.opacity,
            glow: self.glow,
            corner_radius: self.corner_radius,
            animation: animation_to_string(self.animation.code()),
            animation_speed: self.animation_speed,
            visible: self.visible,
        }
    }

    /// Settings to write back to the configuration file: these settings,
    /// the bar layout of the file last read, and the disabled displays.
    pub fn to_config(&self, existing: &Config, disabled_monitors: Vec<String>) -> (c: Config)
        ensures
            c.color@ == hex_of(self.color.0, self.color.1, self.color.2),
            c.thickness == self.thickness,
            c.opacity == self.opacity,
            c.glow == self.glow,
            c.corner_radius == self.corner_radius,
            c.animation@ == name_of_code(code_of(self.animation)),
            c.animation_speed == self.animation_speed,
            c.bar_height == existing.bar_height,
            c.bar_position@ == existing.bar_position@,
            c.disabled_monitors@ == disabled_monitors@,
    {
        Config {
            color: color_to_hex(self.color.0, self.color.1, self.color.2),
            thickness: self.thickness,
            opacity: self.opacity,
            glow: self.glow,
            corner_radius: self.corner_radius,
            animation: animation_to_string(self.animation.code()),
            animation_speed: self.animation_speed,
            bar_height: existing.bar_height,
            bar_position: existing.bar_position.clone(),
            disabled_monitors,
        }
    }
}

/// Appearance settings shared between threads without locks. Each setting
/// is read and written on its own: a reader of several settings may see
/// some from before and some from after a concurrent change. Since other
/// threads may write at any time, nothing is promised about what a read
/// returns. Opacity and corner radius are kept in thousandths.
pub struct IpcState {
    pub color_r: AtomicU8,
    pub color_g: AtomicU8,
    pub color_b: AtomicU8,
    pub thickness: AtomicU32,
    pub opacity: AtomicU32,
    pub glow: AtomicU32,
    pub corner_radius: AtomicU32,
    pub animation_mode: AtomicU8,
    pub animation_speed: AtomicU32,
    pub visible: AtomicBool,
}

impl IpcState {
    pub fn new(
        color: (u8, u8, u8),
        thickness: u32,
        opacity: u32,
        glow: u32,
        corner_radius: u32,
        animation: u8,
        animation_speed: u32,
    ) -> Self {
        IpcState {
            color_r: AtomicU8::new(color.0),
            color_g: AtomicU8::new(color.1),
            color_b: AtomicU8::new(color.2),
            thickness: AtomicU32::new(thickness),
            opacity: AtomicU32::new(opacity),
            glow: AtomicU32::new(glow),
            corner_radius: AtomicU32::new(corner_radius),
            animation_mode: AtomicU8::new(animation),
            animation_speed: AtomicU32::new(animation_speed),
            visible: AtomicBool::new(true),
        }
    }

    pub fn get_color(&self) -> (u8, u8, u8) {
        (
            self.color_r.load(Ordering::Relaxed),
            self.color_g.load(Ordering::Relaxed),
            self.color_b.load(Ordering::Relaxed),
        )
    }

    pub fn set_color(&self, r: u8, g: u8, b: u8) {
        self.color_r.store(r, Ordering::Relaxed);
        self.color_g.store(g, Ordering::Relaxed);
        self.color_b.store(b, Ordering::Relaxed);
    }

    /// Opacity in thousandths.
    pub fn get_opacity(&self) -> u32 {
        self.opacity.load(Ordering::Relaxed)
    }

    pub fn set_opacity(&self, opacity: u32) {
        self.opacity.store(opacity, Ordering::Relaxed);
    }

    /// Corner radius relative to the thickness, in thousandths.
    pub fn get_corner_radius(&self) -> u32 {
        self.corner_radius.load(Ordering::Relaxed)
    }

    pub fn set_corner_radius(&self, radius: u32) {
        self.corner_radius.store(radius, Ordering::Relaxed);
    }

    pub fn get_thickness(&self) -> u32 {
        self.thickness.load(Ordering::Relaxed)
    }

    pub fn set_thickness(&self, v: u32) {
        self.thickness.store(v, Ordering::Relaxed);
    }

    pub fn get_glow(&self) -> u32 {
        self.glow.load(Ordering::Relaxed)
    }

    pub fn set_glow(&self, v: u32) {
        self.glow.store(v, Ordering::Relaxed);
    }

    /// Storage code of the animation mode.
    pub fn get_animation_mode(&self) -> u8 {
        self.animation_mode.load(Ordering::Relaxed)
    }

    pub fn set_animation_mode(&self, code: u8) {
        self.animation_mode.store(code, Ordering::Relaxed);
    }

    pub fn get_animation_speed(&self) -> u32 {
        self.animation_speed.load(Ordering::Relaxed)
    }

    pub fn set_animation_speed(&self, v: u32) {
        self.animation_speed.store(v, Ordering::Relaxed);
    }

    pub fn is_visible(&self) -> bool {
        self.visible.load(Ordering::Relaxed)
    }

    pub fn set_visible(&self, v: bool) {
        self.visible.store(v, Ordering::Relaxed);
    }

    /// Reads every setting, one at a time.
    pub fn snapshot(&self) -> Snapshot {
        Snapshot {
            color: self.get_color(),
            thickness: self.get_thickness(),
            opacity: self.get_opacity(),
            glow: self.get_glow(),
            corner_radius: self.get_corner_radius(),
            animation: AnimationMode::from_code(self.get_animation_mode()),
            animation_speed: self.get_animation_speed(),
            visible: self.is_visible(),
        }
    }

    /// Writes one setting.
    pub fn apply(&self, u: Update) {
        match u {
            Update::Color(r, g, b) => self.set_color(r, g, b),
            Update::Thickness(v) => self.set_thickness(v),
            Update::Opacity(v) => self.set_opacity(v),
            Update::Glow(v) => self.set_glow(v),
            Update::CornerRadius(v) => self.set_corner_radius(v),
            Update::Animation(c) => self.set_animation_mode(c),
            Update::AnimationSpeed(v) => self.set_animation_speed(v),
            Update::Visible(v) => self.set_visible(v),
        }
    }
}

} // verus!
