//! The transport cell of the timeline: record, loop switch and loop markers.

use vstd::prelude::*;
use crate::action::Action;
use crate::focus::{Focus, FocusType, ID, MultiFocus, void_id};
use crate::timeline::{TimelineFocus, TimelineState, beat_defined, beat_samples, beat_length, beat_ready};
use crate::timing::offset_char;

verus! {

/// The transport cell: red records, yellow switches looping, green and pink
/// move the loop's out and in markers by one beat.
pub fn new() -> (r: MultiFocus<TimelineFocus>)
    ensures
        r == spec_new(),
{
    MultiFocus {
        kind: TimelineFocus::Nav,
        w_id: void_id(),
        r_id: ID(FocusType::Button, 0),
        y_id: ID(FocusType::Button, 0),
        g_id: ID(FocusType::Button, 0),
        p_id: ID(FocusType::Button, 1),
        b_id: void_id(),
        active: None,
    }
}

/// The transport cell.
pub open spec fn spec_new() -> MultiFocus<TimelineFocus> {
    MultiFocus {
        kind: TimelineFocus::Nav,
        w_id: ID(FocusType::Void, 0),
        r_id: ID(FocusType::Button, 0),
        y_id: ID(FocusType::Button, 0),
        g_id: ID(FocusType::Button, 0),
        p_id: ID(FocusType::Button, 1),
        b_id: ID(FocusType::Void, 0),
        active: None,
    }
}

/// What the held control of the transport cell makes of an action.
pub open spec fn spec_transform(slot: Focus, a: Action, s: TimelineState) -> Action {
    let o1 = beat_samples(s);
    match slot {
        Focus::Red => match a {
            Action::SelectR => Action::Record,
            Action::AddMidiRegion(_, _, _, _) | Action::AddNote(_, _) => a,
            _ => Action::Noop,
        },
        Focus::Yellow => match a {
            Action::Up | Action::Down | Action::SelectY => Action::LoopMode(!s.loop_mode),
            _ => Action::Noop,
        },
        Focus::Green => match a {
            Action::Left => Action::SetLoop(
                s.loop_in,
                if s.loop_out >= o1 { (s.loop_out - o1) as u32 } else { s.loop_out },
            ),
            Action::Right => Action::SetLoop(s.loop_in, (s.loop_out + o1) as u32),
            _ => Action::Noop,
        },
        Focus::Pink => match a {
            Action::Left => Action::SetLoop(
                if s.loop_in >= o1 { (s.loop_in - o1) as u32 } else { s.loop_in },
                s.loop_out,
            ),
            Action::Right => Action::SetLoop((s.loop_in + o1) as u32, s.loop_out),
            _ => Action::Noop,
        },
        Focus::Blue => a,
    }
}

/// The transport cell's transform runs without overflow.
pub open spec fn transform_defined(slot: Focus, a: Action, s: TimelineState) -> bool {
    match slot {
        Focus::Green => beat_defined(s) && (a is Right ==> s.loop_out + beat_samples(s) <= u32::MAX),
        Focus::Pink => beat_defined(s) && (a is Right ==> s.loop_in + beat_samples(s) <= u32::MAX),
        _ => true,
    }
}

/// What the held control of the transport cell makes of an action; `None`
/// when it hands the action on unchanged.
pub fn transform_ref(slot: Focus, a: &Action, s: &TimelineState) -> (r: Option<Action>)
    requires
        transform_defined(slot, *a, *s),
    ensures
        match r {
            Some(t) => t == spec_transform(slot, *a, *s),
            None => spec_transform(slot, *a, *s) == *a,
        },
{
    match slot {
        Focus::Red => match a {
            Action::SelectR => Some(Action::Record),
            Action::AddMidiRegion(_, _, _, _) | Action::AddNote(_, _) => None,
            _ => Some(Action::Noop),
        },
        Focus::Yellow => match a {
            Action::Up | Action::Down | Action::SelectY => Some(Action::LoopMode(!s.loop_mode)),
            _ => Some(Action::Noop),
        },
        Focus::Green => {
            let o1 = offset_char(1, s.sample_rate, s.tempo, s.zoom);
            match a {
                Action::Left => Some(Action::SetLoop(
                    s.loop_in,
                    if s.loop_out >= o1 { s.loop_out - o1 } else { s.loop_out },
                )),
                Action::Right => Some(Action::SetLoop(s.loop_in, s.loop_out + o1)),
                _ => Some(Action::Noop),
            }
        },
        Focus::Pink => {
            let o1 = offset_char(1, s.sample_rate, s.tempo, s.zoom);
            match a {
                Action::Left => Some(Action::SetLoop(
                    if s.loop_in >= o1 { s.loop_in - o1 } else { s.loop_in },
                    s.loop_out,
                )),
                Action::Right => Some(Action::SetLoop(s.loop_in + o1, s.loop_out)),
                _ => Some(Action::Noop),
            }
        },
        Focus::Blue => None,
    }
}

/// Applies the held control of the transport cell.
pub fn transform(slot: Focus, a: Action, s: &TimelineState) -> (r: Action)
    requires
        transform_defined(slot, a, *s),
    ensures
        r == spec_transform(slot, a, *s),
{
    match transform_ref(slot, &a, s) {
        Some(t) => t,
        None => a,
    }
}

/// Whether the held control can act without overflow; see `transform_defined`.
pub fn transform_ok(slot: Focus, a: &Action, s: &TimelineState) -> (r: bool)
    ensures
        r == transform_defined(slot, *a, *s),
{
    match slot {
        Focus::Green => beat_ready(s) && match a {
            Action::Right => s.loop_out <= u32::MAX - beat_length(s),
            _ => true,
        },
        Focus::Pink => beat_ready(s) && match a {
            Action::Right => s.loop_in <= u32::MAX - beat_length(s),
            _ => true,
        },
        _ => true,
    }
}

} // verus!
