//! The keyboard module: plays notes at an octave, shift and velocity.

use vstd::prelude::*;
use crate::action::{Action, Anchor, Level};
use crate::text::owned;
use crate::views::keys::{keys_after, press};

verus! {

/// The keyboard's state: the notes held, the octave, the shift and the velocity.
#[derive(Debug)]
pub struct KeyboardState {
    pub keys_active: Vec<Action>,
    pub octave: usize,
    pub shift: i8,
    pub velocity: Level,
}

/// The octave after an action.
pub open spec fn octave_after(octave: usize, a: Action) -> int {
    match a {
        Action::PitchUp => octave + 1,
        Action::PitchDown => octave - 1,
        _ => octave as int,
    }
}

/// The octave stays within `usize`.
pub open spec fn octave_defined(octave: usize, a: Action) -> bool {
    0 <= octave_after(octave, a) <= usize::MAX
}

/// Applies an action to the keyboard's state.
pub fn reduce(state: KeyboardState, action: &Action) -> (r: KeyboardState)
    requires
        octave_defined(state.octave, *action),
    ensures
        r.octave == octave_after(state.octave, *action),
        r.keys_active@ == keys_after(state.keys_active@, *action),
        r.shift == state.shift,
        r.velocity == state.velocity,
{
    let octave = match action {
        Action::PitchUp => state.octave + 1,
        Action::PitchDown => state.octave - 1,
        _ => state.octave,
    };
    KeyboardState { keys_active: press(state.keys_active, action), octave, shift: state.shift, velocity: state.velocity }
}

/// The keyboard.
#[derive(Debug)]
pub struct Keyboard {
    pub x: u16,
    pub y: u16,
    pub width: u16,
    pub height: u16,
    pub state: KeyboardState,
}

impl Keyboard {
    /// A keyboard over this window with no notes held.
    pub fn new(x: u16, y: u16, width: u16, height: u16, octave: usize, shift: i8, velocity: Level) -> (r: Self)
        ensures
            r.x == x && r.y == y && r.width == width && r.height == height,
            r.state.keys_active@.len() == 0,
            r.state.octave == octave && r.state.shift == shift && r.state.velocity == velocity,
    {
        Keyboard { x, y, width, height, state: KeyboardState { keys_active: Vec::new(), octave, shift, velocity } }
    }

    /// Holds and lets go of notes and changes octave; asked for its anchors
    /// it offers its keys as an output; Up and Down go to the main loop.
    pub fn dispatch(&mut self, action: Action) -> (r: Action)
        requires
            octave_defined(old(self).state.octave, action),
        ensures
            final(self).state.octave == octave_after(old(self).state.octave, action),
            final(self).state.keys_active@ == keys_after(old(self).state.keys_active@, action),
            final(self).state.shift == old(self).state.shift,
            final(self).state.velocity == old(self).state.velocity,
            action is Route ==> (r matches Action::ShowAnchors(v) && v@.len() == 1 && v@[0].index == 0
                && v@[0].module_id == 0 && v@[0].name@ == "Keys"@ && !v@[0].input),
            action is Up ==> r is Up,
            action is Down ==> r is Down,
            !(action is Route || action is Up || action is Down) ==> r is Noop,
    {
        let mut state = KeyboardState { keys_active: Vec::new(), octave: 0, shift: 0, velocity: Level { bits: 0 } };
        std::mem::swap(&mut state, &mut self.state);
        self.state = reduce(state, &action);
        match action {
            Action::Route => {
                let mut v: Vec<Anchor> = Vec::new();
                v.push(Anchor { index: 0, module_id: 0, name: owned("Keys"), input: false });
                Action::ShowAnchors(v)
            },
            Action::Up => Action::Up,
            Action::Down => Action::Down,
            _ => Action::Noop,
        }
    }

    /// Whether `dispatch` can take this action: the octave stays within `usize`.
    pub fn can_dispatch(&self, action: &Action) -> (r: bool)
        ensures
            r == octave_defined(self.state.octave, *action),
    {
        match action {
            Action::PitchUp => self.state.octave < usize::MAX,
            Action::PitchDown => self.state.octave > 0,
            _ => true,
        }
    }

    /// The keyboard hides what is under it.
    pub fn alpha(&self) -> (r: bool)
        ensures
            !r,
    {
        false
    }
}

} // verus!
