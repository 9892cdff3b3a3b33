//! The help popup: shows the controller's keys and lights up the notes played.

use vstd::prelude::*;
use crate::action::Action;
use crate::text::owned;

verus! {

/// The help popup's state: its title and the note-on actions seen.
#[derive(Debug)]
pub struct HelpState {
    pub title: String,
    pub active: Vec<Action>,
}

/// The notes seen after an action: every note-on is kept.
pub open spec fn active_after(active: Seq<Action>, a: Action) -> Seq<Action> {
    match a {
        Action::NoteOn(k, v) => active.push(Action::NoteOn(k, v)),
        _ => active,
    }
}

/// Applies an action to the help popup's state.
pub fn reduce(state: HelpState, action: &Action) -> (r: HelpState)
    ensures
        r.title == state.title,
        r.active@ == active_after(state.active@, *action),
{
    let mut active = state.active;
    if let Action::NoteOn(k, v) = action {
        active.push(Action::NoteOn(*k, *v));
    }
    HelpState { title: state.title, active }
}

/// The help popup.
#[derive(Debug)]
pub struct Help {
    pub x: u16,
    pub y: u16,
    pub width: u16,
    pub height: u16,
    pub state: HelpState,
}

impl Help {
    /// The help popup over this window, titled "KEYBOARD".
    pub fn new(x: u16, y: u16, width: u16, height: u16) -> (r: Self)
        ensures
            r.x == x && r.y == y && r.width == width && r.height == height,
            r.state.title@ == "KEYBOARD"@,
            r.state.active@.len() == 0,
    {
        Help { x, y, width, height, state: HelpState { title: owned("KEYBOARD"), active: Vec::new() } }
    }

    /// Records the notes played; Back or the red key close the popup.
    pub fn dispatch(&mut self, action: Action) -> (r: Action)
        ensures
            final(self).state.title == old(self).state.title,
            final(self).state.active@ == active_after(old(self).state.active@, action),
            r == (if action is Back || action is SelectR { Action::Cancel } else { Action::Noop }),
            final(self).x == old(self).x && final(self).y == old(self).y,
            final(self).width == old(self).width && final(self).height == old(self).height,
    {
        let mut state = HelpState { title: String::new(), active: Vec::new() };
        std::mem::swap(&mut state, &mut self.state);
        self.state = reduce(state, &action);
        match action {
            Action::Back | Action::SelectR => Action::Cancel,
            _ => Action::Noop,
        }
    }

    /// The help popup lets what is under it show.
    pub fn alpha(&self) -> (r: bool)
        ensures
            r,
    {
        true
    }
}

} // verus!
