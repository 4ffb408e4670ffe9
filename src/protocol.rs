use vstd::prelude::*;
use crate::animation::{animation_from_string, code_of_name};
use crate::color::{color_of, parse_hex_color};
use crate::registry::{entries_of, remembered, with_enabled, MonitorState, Registry};
use crate::store::{state_describes, IpcState, Snapshot, State, Update};
use crate::text::lower_of;

verus! {

/// A request on the control channel. Opacity and corner radius are in
/// thousandths.
#[derive(Debug, Clone)]
pub enum Command {
    SetColor(String),
    SetThickness(u32),
    SetOpacity(u32),
    SetGlow(u32),
    SetCornerRadius(u32),
    SetAnimation(String),
    SetAnimationSpeed(u32),
    SetVisible(bool),
    SetMonitorEnabled(String, bool),
    GetState,
    GetMonitors,
    Quit,
}

/// What the control channel does after a request: nothing to send back
/// after a change, an answer to send, or stop the whole process.
#[derive(Debug, Clone)]
pub enum Reply {
    Changed,
    State(State),
    Monitors(Vec<MonitorState>),
    Quit,
}

/// The setting a request changes, if it changes one.
pub open spec fn update_of(cmd: Command) -> Option<Update> {
    match cmd {
        Command::SetColor(hex) => {
            let c = color_of(hex@);
            Some(Update::Color(c.0, c.1, c.2))
        },
        Command::SetThickness(v) => Some(Update::Thickness(v)),
        Command::SetOpacity(v) => Some(Update::Opacity(v)),
        Command::SetGlow(v) => Some(Update::Glow(v)),
        Command::SetCornerRadius(v) => Some(Update::CornerRadius(v)),
        Command::SetAnimation(name) => Some(Update::Animation(code_of_name(lower_of(name@)))),
        Command::SetAnimationSpeed(v) => Some(Update::AnimationSpeed(v)),
        Command::SetVisible(v) => Some(Update::Visible(v)),
        _ => None,
    }
}

/// Decodes the setting change a request asks for.
pub fn update_for(cmd: &Command) -> (u: Option<Update>)
    ensures
        u == update_of(*cmd),
{
    match cmd {
        Command::SetColor(hex) => {
            let (r, g, b) = parse_hex_color(hex.as_str());
            Some(Update::Color(r, g, b))
        },
        Command::SetThickness(v) => Some(Update::Thickness(*v)),
        Command::SetOpacity(v) => Some(Update::Opacity(*v)),
        Command::SetGlow(v) => Some(Update::Glow(*v)),
        Command::SetCornerRadius(v) => Some(Update::CornerRadius(*v)),
        Command::SetAnimation(name) => Some(Update::Animation(animation_from_string(name.as_str()))),
        Command::SetAnimationSpeed(v) => Some(Update::AnimationSpeed(*v)),
        Command::SetVisible(v) => Some(Update::Visible(*v)),
        _ => None,
    }
}

/// Carries out one request: setting changes go to the store, display
/// changes to the registry, queries are answered from what is read.
pub fn handle_command(state: &IpcState, registry: &mut Registry, cmd: &Command) -> (r: Reply)
    requires
        old(registry).wf(),
    ensures
        final(registry).wf(),
        update_of(*cmd) is Some ==> r is Changed && final(registry).entries() == old(
            registry,
        ).entries() && final(registry).disabled() == old(registry).disabled(),
        cmd matches Command::SetMonitorEnabled(id, v) ==> {
            &&& r is Changed
            &&& final(registry).entries() == with_enabled(old(registry).entries(), id@, *v)
            &&& final(registry).disabled() == remembered(old(registry).disabled(), id@, *v)
        },
        cmd is GetState ==> r is State,
        cmd is GetState ==> exists|snap: Snapshot| state_describes(r->State_0, snap),
        cmd is GetState ==> final(registry).entries() == old(registry).entries(),
        cmd is GetState ==> final(registry).disabled() == old(registry).disabled(),
        cmd is GetMonitors ==> {
            &&& r matches Reply::Monitors(v) && entries_of(v@) == old(registry).entries()
            &&& final(registry).entries() == old(registry).entries()
            &&& final(registry).disabled() == old(registry).disabled()
        },
        cmd is Quit ==> {
            &&& r is Quit
            &&& final(registry).entries() == old(registry).entries()
            &&& final(registry).disabled() == old(registry).disabled()
        },
{
    match cmd {
        Command::SetMonitorEnabled(id, v) => {
            registry.set_enabled(id.as_str(), *v);
            Reply::Changed
        },
        Command::GetState => {
            let snap = state.snapshot();
            let s = snap.to_state();
            assert(state_describes(s, snap));
            assert(exists|x: Snapshot| state_describes(s, x));
            let r = Reply::State(s);
            assert(r->State_0 == s);
            r
        },
        Command::GetMonitors => Reply::Monitors(registry.list()),
        Command::Quit => Reply::Quit,
        _ => {
            if let Some(u) = update_for(cmd) {
                state.apply(u);
            }
            Reply::Changed
        },
    }
}

} // verus!
