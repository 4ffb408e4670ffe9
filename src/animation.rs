use vstd::prelude::*;
use crate::text::{lower_of, lowercase, same_text};

verus! {

/// How the ring's color or opacity changes over time; `Static` is the
/// mode named "none".
#[derive(Clone, Copy, Debug, PartialEq, Eq, Structural)]
pub enum AnimationMode {
    Static,
    Pulse,
    Rainbow,
    Breathe,
}

/// Storage code of each mode.
pub open spec fn code_of(mode: AnimationMode) -> u8 {
    match mode {
        AnimationMode::Static => 0,
        AnimationMode::Pulse => 1,
        AnimationMode::Rainbow => 2,
        AnimationMode::Breathe => 3,
    }
}

/// Mode of a storage code; unknown codes mean no animation.
pub open spec fn mode_of_code(code: u8) -> AnimationMode {
    if code == 1 {
        AnimationMode::Pulse
    } else if code == 2 {
        AnimationMode::Rainbow
    } else if code == 3 {
        AnimationMode::Breathe
    } else {
        AnimationMode::Static
    }
}

/// Storage code named by a lowercase mode name; unknown names mean none.
pub open spec fn code_of_name(name: Seq<char>) -> u8 {
    if name == "pulse"@ {
        1
    } else if name == "rainbow"@ {
        2
    } else if name == "breathe"@ {
        3
    } else {
        0
    }
}

/// Name of the mode a storage code stands for.
pub open spec fn name_of_code(code: u8) -> Seq<char> {
    if code == 1 {
        "pulse"@
    } else if code == 2 {
        "rainbow"@
    } else if code == 3 {
        "breathe"@
    } else {
        "none"@
    }
}

impl AnimationMode {
    pub fn from_code(code: u8) -> (m: AnimationMode)
        ensures
            m == mode_of_code(code),
    {
        if code == 1 {
            AnimationMode::Pulse
        } else if code == 2 {
            AnimationMode::Rainbow
        } else if code == 3 {
            AnimationMode::Breathe
        } else {
            AnimationMode::Static
        }
    }

    pub fn code(self) -> (c: u8)
        ensures
            c == code_of(self),
    {
        match self {
            AnimationMode::Static => 0,
            AnimationMode::Pulse => 1,
            AnimationMode::Rainbow => 2,
            AnimationMode::Breathe => 3,
        }
    }
}

/// Decoding a stored mode gives back the mode that was stored.
pub proof fn lemma_mode_code_round_trip(mode: AnimationMode)
    ensures
        mode_of_code(code_of(mode)) == mode,
{
}

/// Storage code of an already lowercased mode name.
pub fn animation_from_lowercase(name: &str) -> (code: u8)
    ensures
        code == code_of_name(name@),
{
    if same_text(name, "pulse") {
        1
    } else if same_text(name, "rainbow") {
        2
    } else if same_text(name, "breathe") {
        3
    } else {
        0
    }
}

/// Storage code of a mode name, in any letter case.
pub fn animation_from_string(s: &str) -> (code: u8)
    ensures
        code == code_of_name(lower_of(s@)),
{
    let lower = lowercase(s);
    animation_from_lowercase(lower.as_str())
}

/// Name of the mode a storage code stands for.
pub fn animation_to_string(mode: u8) -> (s: String)
    ensures
        s@ == name_of_code(mode),
{
    if mode == 1 {
        String::from_str("pulse")
    } else if mode == 2 {
        String::from_str("rainbow")
    } else if mode == 3 {
        String::from_str("breathe")
    } else {
        String::from_str("none")
    }
}

/// Naming a stored mode and reading the name back gives the same mode.
pub proof fn lemma_mode_name_round_trip(code: u8)
    ensures
        mode_of_code(code_of_name(name_of_code(code))) == mode_of_code(code),
{
    reveal_strlit("pulse");
    reveal_strlit("rainbow");
    reveal_strlit("breathe");
    reveal_strlit("none");
    assert("pulse"@.len() == 5 && "none"@.len() == 4);
    assert("rainbow"@.len() == 7 && "breathe"@.len() == 7);
    assert("rainbow"@[0] != "breathe"@[0]);
}

/// One RGB channel of a fully saturated, half-light color, where the
/// channel's hue position is `m / (3 d)` of the way round the wheel.
pub open spec fn hue_channel(m: int, d: int) -> int {
    if 2 * m < d {
        510 * m / d
    } else if 2 * m < 3 * d {
        255
    } else if m < 2 * d {
        510 * (2 * d - m) / d
    } else {
        0
    }
}

/// Hue positions (in thirds of `speed`) of the red, green and blue channels
/// at a frame: the hue is `(frame mod speed) / speed`.
pub open spec fn red_position(frame: int, speed: int) -> int {
    let h = 3 * (frame % speed);
    if h + speed > 3 * speed {
        h + speed - 3 * speed
    } else {
        h + speed
    }
}

pub open spec fn green_position(frame: int, speed: int) -> int {
    3 * (frame % speed)
}

pub open spec fn blue_position(frame: int, speed: int) -> int {
    let h = 3 * (frame % speed);
    if h < speed {
        h - speed + 3 * speed
    } else {
        h - speed
    }
}

/// Rainbow color at a frame: the hue goes once round the wheel every
/// `speed` frames at full saturation and half lightness; a speed of zero
/// gives black.
pub open spec fn rainbow_of(frame: int, speed: int) -> (int, int, int) {
    if speed <= 0 {
        (0, 0, 0)
    } else {
        (
            hue_channel(red_position(frame, speed), speed),
            hue_channel(green_position(frame, speed), speed),
            hue_channel(blue_position(frame, speed), speed),
        )
    }
}

proof fn lemma_hue_channel_range(m: int, d: int)
    requires
        d > 0,
        0 <= m <= 3 * d,
    ensures
        0 <= hue_channel(m, d) <= 255,
{
    if 2 * m < d {
        assert(0 <= 510 * m / d <= 255) by (nonlinear_arith)
            requires
                2 * m < d,
                0 <= m,
                d > 0,
        ;
    } else if 2 * m < 3 * d {
    } else if m < 2 * d {
        assert(0 <= 510 * (2 * d - m) / d <= 255) by (nonlinear_arith)
            requires
                2 * d - m > 0,
                2 * m >= 3 * d,
                d > 0,
        ;
    }
}

fn hue_to_channel(m: u64, d: u64) -> (c: u8)
    requires
        d > 0,
        m <= 3 * d,
        d <= 0xffff_ffff,
    ensures
        c as int == hue_channel(m as int, d as int),
{
    proof {
        lemma_hue_channel_range(m as int, d as int);
    }
    if 2 * m < d {
        (510 * m / d) as u8
    } else if 2 * m < 3 * d {
        255
    } else if m < 2 * d {
        (510 * (2 * d - m) / d) as u8
    } else {
        0
    }
}

/// Color of the rainbow animation at a frame.
pub fn rainbow_color(frame: u32, speed: u32) -> (rgb: (u8, u8, u8))
    ensures
        rgb.0 as int == rainbow_of(frame as int, speed as int).0,
        rgb.1 as int == rainbow_of(frame as int, speed as int).1,
        rgb.2 as int == rainbow_of(frame as int, speed as int).2,
{
    if speed == 0 {
        return (0, 0, 0);
    }
    let d = speed as u64;
    let h: u64 = 3 * ((frame % speed) as u64);
    let red: u64 = if h + d > 3 * d {
        h + d - 3 * d
    } else {
        h + d
    };
    let blue: u64 = if h < d {
        h + 2 * d
    } else {
        h - d
    };
    (hue_to_channel(red, d), hue_to_channel(h, d), hue_to_channel(blue, d))
}

/// The rainbow repeats every `speed` frames, and at every frame one channel
/// is full and another is off: full saturation at half lightness.
pub proof fn lemma_rainbow_periodic_and_saturated(frame: nat, speed: nat)
    requires
        speed > 0,
    ensures
        rainbow_of(frame + speed as int, speed as int) == rainbow_of(frame as int, speed as int),
        ({
            let (r, g, b) = rainbow_of(frame as int, speed as int);
            &&& 0 <= r <= 255
            &&& 0 <= g <= 255
            &&& 0 <= b <= 255
            &&& (r == 255 || g == 255 || b == 255)
            &&& (r == 0 || g == 0 || b == 0)
        }),
{
    let f = frame as int;
    let s = speed as int;
    assert((f + s) % s == f % s) by (nonlinear_arith)
        requires
            s > 0,
            f >= 0,
    ;
    let n = f % s;
    assert(0 <= n < s);
    lemma_hue_channel_range(red_position(f, s), s);
    lemma_hue_channel_range(green_position(f, s), s);
    lemma_hue_channel_range(blue_position(f, s), s);
}

} // verus!
