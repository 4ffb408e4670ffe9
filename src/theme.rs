use vstd::prelude::*;
use crate::color::{color_of, parse_hex_color};

verus! {

/// Colors of the desktop theme; each may be missing.
#[derive(Debug, Clone)]
pub struct OmarchyColors {
    pub accent: Option<String>,
    pub background: Option<String>,
    pub foreground: Option<String>,
}

/// The theme's accent color, when a theme was read and names one.
pub fn get_accent_color(colors: Option<OmarchyColors>) -> (c: Option<(u8, u8, u8)>)
    ensures
        c == match colors {
            Some(t) => match t.accent {
                Some(a) => Some(color_of(a@)),
                None => None,
            },
            None => None,
        },
{
    match colors {
        Some(t) => match t.accent {
            Some(a) => Some(parse_hex_color(a.as_str())),
            None => None,
        },
        None => None,
    }
}

} // verus!
