//! Shared plain types and screen layout constants.

use vstd::prelude::*;

verus! {

/// Compass directions, used to draw sliders and arrows.
#[derive(Clone, Copy, Debug, PartialEq, Eq, Structural)]
pub enum Direction {
    North,
    South,
    East,
    West,
    NW,
    NE,
    SW,
    SE,
}

/// A rectangle of the terminal, in character cells (origin at 1, 1).
#[derive(Clone, Copy, Debug, PartialEq, Eq, Structural)]
pub struct Window {
    pub x: u16,
    pub y: u16,
    pub w: u16,
    pub h: u16,
}

/// The colours the views paint with.
#[derive(Clone, Copy, Debug, PartialEq, Eq, Structural)]
pub enum Color {
    Red,
    Pink,
    Blue,
    Green,
    Yellow,
    White,
    Black,
    Beige,
    Transparent,
}

/// Column of the track header controls in the timeline.
pub const TRACKS_X: u16 = 3;
/// Column where regions start in the timeline.
pub const REGIONS_X: u16 = 12;
/// Row of the ruler in the timeline.
pub const TIMELINE_Y: u16 = 5;
/// Margins of the patch bay popup.
pub const MARGIN_D0: (u16, u16) = (4, 2);
/// Margins of the help popup.
pub const MARGIN_D1: (u16, u16) = (8, 4);
/// Margins of nested popups.
pub const MARGIN_D2: (u16, u16) = (12, 6);

/// How many regions a track can hold: a region's global id is its track id
/// times this plus its id within the track.
pub const REGIONS_PER_TRACK: u16 = 100;

} // verus!
