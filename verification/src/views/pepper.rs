//! The pepper game: a hidden credits screen with a pepper and an artist.

use vstd::prelude::*;
use crate::action::Action;
use crate::text::owned;

verus! {

/// The game's state: the credits, where the pepper and the artist stand,
/// the sneeze meter, the score, the health and the pepper flag.
#[derive(Debug)]
pub struct PepperState {
    pub credits: Vec<String>,
    pub pepper_x: usize,
    pub artist_x: usize,
    pub snot: usize,
    pub score: usize,
    pub health: usize,
    pub pepper: usize,
}

/// The action can be applied without leaving `usize`.
pub open spec fn pepper_defined(s: PepperState, a: Action) -> bool {
    &&& (a is Left ==> s.pepper_x > 0)
    &&& (a is Right ==> s.pepper_x < usize::MAX)
    &&& (a is Tick ==> s.artist_x < usize::MAX)
}

/// Applies an action: Left and Right move the pepper, a tick moves the
/// artist, red flips every bit of the pepper flag.
pub fn reduce(state: PepperState, action: &Action) -> (r: PepperState)
    requires
        pepper_defined(state, *action),
    ensures
        r.credits == state.credits,
        r.pepper_x == match *action {
            Action::Left => state.pepper_x - 1,
            Action::Right => state.pepper_x + 1,
            _ => state.pepper_x as int,
        },
        r.artist_x == if *action is Tick { state.artist_x + 1 } else { state.artist_x as int },
        r.pepper == if *action is SelectR { !state.pepper } else { state.pepper },
        r.snot == state.snot && r.score == state.score && r.health == state.health,
{
    let pepper_x = match action {
        Action::Left => state.pepper_x - 1,
        Action::Right => state.pepper_x + 1,
        _ => state.pepper_x,
    };
    let artist_x = match action {
        Action::Tick => state.artist_x + 1,
        _ => state.artist_x,
    };
    let pepper = match action {
        Action::SelectR => !state.pepper,
        _ => state.pepper,
    };
    PepperState {
        credits: state.credits,
        pepper_x,
        artist_x,
        snot: state.snot,
        score: state.score,
        health: state.health,
        pepper,
    }
}

/// The pepper game.
#[derive(Debug)]
pub struct Pepper {
    pub x: u16,
    pub y: u16,
    pub width: u16,
    pub height: u16,
    pub state: PepperState,
    pub pepper: bool,
}

impl Pepper {
    /// A new game: the credits, the pepper at the left, the artist at the
    /// fifth of six places, full health.
    pub fn new(x: u16, y: u16, width: u16, height: u16) -> (r: Self)
        ensures
            r.x == x && r.y == y && r.width == width && r.height == height,
            r.state.credits@.len() == 3,
            r.state.credits@[0]@ == "Designed by James Kolsby"@,
            r.state.credits@[1]@ == "ASCII art by"@,
            r.state.credits@[2]@ == "asciiart.com"@,
            r.state.pepper_x == 0 && r.state.artist_x == 4 && r.state.snot == 0,
            r.state.score == 0 && r.state.health == 5 && r.state.pepper == 0,
            !r.pepper,
    {
        let mut credits: Vec<String> = Vec::new();
        credits.push(owned("Designed by James Kolsby"));
        credits.push(owned("ASCII art by"));
        credits.push(owned("asciiart.com"));
        let state = PepperState { credits, pepper_x: 0, artist_x: 4, snot: 0, score: 0, health: 5, pepper: 0 };
        Pepper { x, y, width, height, state, pepper: false }
    }

    /// Plays a move; red leaves the game.
    pub fn dispatch(&mut self, action: Action) -> (r: Action)
        requires
            pepper_defined(old(self).state, action),
        ensures
            final(self).state.credits == old(self).state.credits,
            final(self).state.pepper_x == match action {
                Action::Left => old(self).state.pepper_x - 1,
                Action::Right => old(self).state.pepper_x + 1,
                _ => old(self).state.pepper_x as int,
            },
            final(self).state.artist_x == if action is Tick { old(self).state.artist_x + 1 } else {
                old(self).state.artist_x as int },
            final(self).state.pepper == if action is SelectR { !old(self).state.pepper } else { old(self).state.pepper },
            final(self).state.snot == old(self).state.snot,
            final(self).state.score == old(self).state.score,
            final(self).state.health == old(self).state.health,
            r == (if action is SelectR { Action::Back } else { Action::Noop }),
    {
        let mut state = PepperState { credits: Vec::new(), pepper_x: 0, artist_x: 0, snot: 0, score: 0, health: 0, pepper: 0 };
        std::mem::swap(&mut state, &mut self.state);
        self.state = reduce(state, &action);
        match action {
            Action::SelectR => Action::Back,
            _ => Action::Noop,
        }
    }

    /// Whether `dispatch` can take this action: the pepper and the artist
    /// stay within `usize`.
    pub fn can_dispatch(&self, action: &Action) -> (r: bool)
        ensures
            r == pepper_defined(self.state, *action),
    {
        match action {
            Action::Left => self.state.pepper_x > 0,
            Action::Right => self.state.pepper_x < usize::MAX,
            Action::Tick => self.state.artist_x < usize::MAX,
            _ => true,
        }
    }

    /// The game hides what is under it.
    pub fn alpha(&self) -> (r: bool)
        ensures
            !r,
    {
        false
    }
}

} // verus!
