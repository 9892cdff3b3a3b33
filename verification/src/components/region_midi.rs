//! The cell of a MIDI region in the timeline: move.

use vstd::prelude::*;
use crate::action::Action;
use crate::focus::{Focus, FocusType, ID, MultiFocus, void_id};
use crate::timeline::{TimelineFocus, TimelineState, beat_defined, beat_samples, beat_length, beat_ready};
use crate::timing::offset_char;

verus! {

/// The cell of MIDI region `region_id`; every control answers to the region.
pub fn new(region_id: u16) -> (r: MultiFocus<TimelineFocus>)
    ensures
        r == spec_new(region_id),
{
    MultiFocus {
        kind: TimelineFocus::MidiRegion,
        w_id: ID(FocusType::Region, region_id),
        r_id: void_id(),
        g_id: void_id(),
        y_id: void_id(),
        p_id: void_id(),
        b_id: void_id(),
        active: None,
    }
}

/// The cell of a MIDI region.
pub open spec fn spec_new(region_id: u16) -> MultiFocus<TimelineFocus> {
    MultiFocus {
        kind: TimelineFocus::MidiRegion,
        w_id: ID(FocusType::Region, region_id),
        r_id: ID(FocusType::Void, 0),
        g_id: ID(FocusType::Void, 0),
        y_id: ID(FocusType::Void, 0),
        p_id: ID(FocusType::Void, 0),
        b_id: ID(FocusType::Void, 0),
        active: None,
    }
}

/// What the held control of a MIDI region makes of an action: green moves
/// the region one beat.
pub open spec fn spec_transform(slot: Focus, id: ID, a: Action, s: TimelineState) -> Action {
    let d = beat_samples(s);
    let reg = s.midi_regions@[id.1];
    match slot {
        Focus::Green => match a {
            Action::Right => Action::MoveRegion(id.1, reg.track, (reg.offset + d) as u32),
            Action::Left => Action::MoveRegion(id.1, reg.track, (reg.offset - d) as u32),
            _ => Action::Noop,
        },
        _ => a,
    }
}

/// The region's transform finds its region and stays within 32 bits.
pub open spec fn transform_defined(slot: Focus, id: ID, a: Action, s: TimelineState) -> bool {
    match slot {
        Focus::Green => beat_defined(s) && ((a is Right || a is Left) ==> s.midi_regions@.contains_key(id.1))
            && (a is Right ==> s.midi_regions@[id.1].offset + beat_samples(s) <= u32::MAX)
            && (a is Left ==> s.midi_regions@[id.1].offset >= beat_samples(s)),
        _ => true,
    }
}

/// What the held control of a MIDI region makes of an action; `None` when
/// it hands the action on unchanged.
pub fn transform_ref(slot: Focus, id: ID, a: &Action, s: &TimelineState) -> (r: Option<Action>)
    requires
        transform_defined(slot, id, *a, *s),
    ensures
        match r {
            Some(t) => t == spec_transform(slot, id, *a, *s),
            None => spec_transform(slot, id, *a, *s) == *a,
        },
{
    match slot {
        Focus::Green => {
            let d = offset_char(1, s.sample_rate, s.tempo, s.zoom);
            match a {
                Action::Right => {
                    let r = s.midi_regions.get(id.1).unwrap();
                    Some(Action::MoveRegion(id.1, r.track, r.offset + d))
                },
                Action::Left => {
                    let r = s.midi_regions.get(id.1).unwrap();
                    Some(Action::MoveRegion(id.1, r.track, r.offset - d))
                },
                _ => Some(Action::Noop),
            }
        },
        _ => None,
    }
}

/// Applies the held control of a MIDI region.
pub fn transform(slot: Focus, id: ID, a: Action, s: &TimelineState) -> (r: Action)
    requires
        transform_defined(slot, id, a, *s),
    ensures
        r == spec_transform(slot, id, a, *s),
{
    match transform_ref(slot, id, &a, s) {
        Some(t) => t,
        None => a,
    }
}

/// Whether the held control can act on its region; see `transform_defined`.
pub fn transform_ok(slot: Focus, id: ID, a: &Action, s: &TimelineState) -> (r: bool)
    ensures
        r == transform_defined(slot, id, *a, *s),
{
    match slot {
        Focus::Green => beat_ready(s) && match a {
            Action::Right => match s.midi_regions.get(id.1) {
                Some(reg) => reg.offset <= u32::MAX - beat_length(s),
                None => false,
            },
            Action::Left => match s.midi_regions.get(id.1) {
                Some(reg) => reg.offset >= beat_length(s),
                None => false,
            },
            _ => true,
        },
        _ => true,
    }
}

} // verus!
