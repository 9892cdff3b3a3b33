//! The tempo, zoom and meter cell of the timeline.

use vstd::prelude::*;
use crate::action::Action;
use crate::focus::{Focus, FocusType, ID, MultiFocus, void_id};
use crate::timeline::{TimelineFocus, TimelineState, effective_tempo, effective_zoom};

verus! {

/// The meter cell: red dials the tempo, yellow the zoom, green the beats
/// per bar and pink the note value.
pub fn new() -> (r: MultiFocus<TimelineFocus>)
    ensures
        r == spec_new(),
{
    MultiFocus {
        kind: TimelineFocus::Meter,
        w_id: void_id(),
        b_id: void_id(),
        y_id: ID(FocusType::Param, 0),
        r_id: ID(FocusType::Param, 0),
        g_id: ID(FocusType::Param, 0),
        p_id: ID(FocusType::Param, 0),
        active: None,
    }
}

/// The meter cell.
pub open spec fn spec_new() -> MultiFocus<TimelineFocus> {
    MultiFocus {
        kind: TimelineFocus::Meter,
        w_id: ID(FocusType::Void, 0),
        b_id: ID(FocusType::Void, 0),
        y_id: ID(FocusType::Param, 0),
        r_id: ID(FocusType::Param, 0),
        g_id: ID(FocusType::Param, 0),
        p_id: ID(FocusType::Param, 0),
        active: None,
    }
}

/// What the held control of the meter cell makes of an action. Tempo and
/// zoom are dialled from the value being dialled in, if any.
pub open spec fn spec_transform(slot: Focus, a: Action, s: TimelineState) -> Action {
    match slot {
        Focus::Yellow => {
            let zoom = effective_zoom(s);
            match a {
                Action::Up => Action::Zoom((zoom + 1) as usize),
                Action::Down => if zoom > 1 { Action::Zoom((zoom - 1) as usize) } else { Action::Noop },
                _ => Action::Noop,
            }
        },
        Focus::Red => {
            let tempo = effective_tempo(s);
            match a {
                Action::Up => Action::SetTempo((tempo + 1) as u16),
                Action::Down => if tempo > 0 { Action::SetTempo((tempo - 1) as u16) } else { Action::Noop },
                _ => Action::Noop,
            }
        },
        Focus::Green => match a {
            Action::Up => Action::SetMeter((s.meter_beat + 1) as u16, s.meter_note),
            Action::Down => Action::SetMeter((s.meter_beat - 1) as u16, s.meter_note),
            _ => Action::Noop,
        },
        Focus::Pink => match a {
            Action::Up => Action::SetMeter(s.meter_beat, (s.meter_note + 1) as u16),
            Action::Down => Action::SetMeter(s.meter_beat, (s.meter_note - 1) as u16),
            _ => Action::Noop,
        },
        Focus::Blue => a,
    }
}

/// The meter cell's transform runs without overflow.
pub open spec fn transform_defined(slot: Focus, a: Action, s: TimelineState) -> bool {
    match slot {
        Focus::Yellow => a is Up ==> effective_zoom(s) < usize::MAX,
        Focus::Red => a is Up ==> effective_tempo(s) < u16::MAX,
        Focus::Green => (a is Up ==> s.meter_beat < u16::MAX) && (a is Down ==> s.meter_beat > 0),
        Focus::Pink => (a is Up ==> s.meter_note < u16::MAX) && (a is Down ==> s.meter_note > 0),
        Focus::Blue => true,
    }
}

/// What the held control of the meter cell makes of an action; `None` when
/// it hands the action on unchanged.
pub fn transform_ref(slot: Focus, a: &Action, s: &TimelineState) -> (r: Option<Action>)
    requires
        transform_defined(slot, *a, *s),
    ensures
        match r {
            Some(t) => t == spec_transform(slot, *a, *s),
            None => spec_transform(slot, *a, *s) == *a,
        },
{
    match slot {
        Focus::Yellow => {
            let zoom = match s.temp_zoom { Some(z) => z, None => s.zoom };
            match a {
                Action::Up => Some(Action::Zoom(zoom + 1)),
                Action::Down => if zoom > 1 { Some(Action::Zoom(zoom - 1)) } else { Some(Action::Noop) },
                _ => Some(Action::Noop),
            }
        },
        Focus::Red => {
            let tempo = match s.temp_tempo { Some(t) => t, None => s.tempo };
            match a {
                Action::Up => Some(Action::SetTempo(tempo + 1)),
                Action::Down => if tempo > 0 { Some(Action::SetTempo(tempo - 1)) } else { Some(Action::Noop) },
                _ => Some(Action::Noop),
            }
        },
        Focus::Green => match a {
            Action::Up => Some(Action::SetMeter(s.meter_beat + 1, s.meter_note)),
            Action::Down => Some(Action::SetMeter(s.meter_beat - 1, s.meter_note)),
            _ => Some(Action::Noop),
        },
        Focus::Pink => match a {
            Action::Up => Some(Action::SetMeter(s.meter_beat, s.meter_note + 1)),
            Action::Down => Some(Action::SetMeter(s.meter_beat, s.meter_note - 1)),
            _ => Some(Action::Noop),
        },
        Focus::Blue => None,
    }
}

/// Applies the held control of the meter cell.
pub fn transform(slot: Focus, a: Action, s: &TimelineState) -> (r: Action)
    requires
        transform_defined(slot, a, *s),
    ensures
        r == spec_transform(slot, a, *s),
{
    match transform_ref(slot, &a, s) {
        Some(t) => t,
        None => a,
    }
}

/// Whether the held control can act without overflow; see `transform_defined`.
pub fn transform_ok(slot: Focus, a: &Action, s: &TimelineState) -> (r: bool)
    ensures
        r == transform_defined(slot, *a, *s),
{
    match slot {
        Focus::Yellow => match a {
            Action::Up => (match s.temp_zoom { Some(z) => z, None => s.zoom }) < usize::MAX,
            _ => true,
        },
        Focus::Red => match a {
            Action::Up => (match s.temp_tempo { Some(t) => t, None => s.tempo }) < u16::MAX,
            _ => true,
        },
        Focus::Green => match a {
            Action::Up => s.meter_beat < u16::MAX,
            Action::Down => s.meter_beat > 0,
            _ => true,
        },
        Focus::Pink => match a {
            Action::Up => s.meter_note < u16::MAX,
            Action::Down => s.meter_note > 0,
            _ => true,
        },
        Focus::Blue => true,
    }
}

} // verus!
