//! The header cell of a timeline track: record, mute, solo switches.

use vstd::prelude::*;
use crate::action::Action;
use crate::focus::{Focus, FocusType, ID, MultiFocus, void_id};
use crate::timeline::{TimelineFocus, TimelineState, Track, state_reduced};

verus! {

/// The header cell of track `track_id`; every control answers to the track.
pub fn new(track_id: u16) -> (r: MultiFocus<TimelineFocus>)
    ensures
        r == spec_new(track_id),
{
    MultiFocus {
        kind: TimelineFocus::TrackHeader,
        w_id: ID(FocusType::Button, track_id),
        r_id: void_id(),
        g_id: void_id(),
        b_id: void_id(),
        p_id: void_id(),
        y_id: void_id(),
        active: None,
    }
}

/// The header cell of a track.
pub open spec fn spec_new(track_id: u16) -> MultiFocus<TimelineFocus> {
    MultiFocus {
        kind: TimelineFocus::TrackHeader,
        w_id: ID(FocusType::Button, track_id),
        r_id: ID(FocusType::Void, 0),
        g_id: ID(FocusType::Void, 0),
        b_id: ID(FocusType::Void, 0),
        p_id: ID(FocusType::Void, 0),
        y_id: ID(FocusType::Void, 0),
        active: None,
    }
}

/// What the held control of a track header makes of an action: red steps
/// the record mode through 0, 1, 2; green toggles mute; blue (and pink, on
/// the blue key) toggles solo.
pub open spec fn spec_transform(slot: Focus, id: ID, a: Action, s: TimelineState) -> Action {
    let t = s.tracks@[id.1];
    match slot {
        Focus::Red => match a {
            Action::SelectR => Action::RecordTrack(id.1, ((t.record + 1) % 3) as u8),
            _ => Action::Noop,
        },
        Focus::Green => match a {
            Action::SelectG => Action::MuteTrack(id.1, !t.mute),
            _ => Action::Noop,
        },
        Focus::Blue => match a {
            Action::SelectB => Action::SoloTrack(id.1, !t.solo),
            _ => Action::Noop,
        },
        Focus::Pink => match a {
            Action::SelectB => Action::SoloTrack(id.1, !t.solo),
            _ => Action::Noop,
        },
        Focus::Yellow => a,
    }
}

/// The header's transform finds its track and does not overflow.
pub open spec fn transform_defined(slot: Focus, id: ID, a: Action, s: TimelineState) -> bool {
    match slot {
        Focus::Red => a is SelectR ==> s.tracks@.contains_key(id.1) && s.tracks@[id.1].record < u8::MAX,
        Focus::Green => a is SelectG ==> s.tracks@.contains_key(id.1),
        Focus::Blue | Focus::Pink => a is SelectB ==> s.tracks@.contains_key(id.1),
        Focus::Yellow => true,
    }
}

/// What the held control of a track header makes of an action; `None`
/// when it hands the action on unchanged.
pub fn transform_ref(slot: Focus, id: ID, a: &Action, s: &TimelineState) -> (r: Option<Action>)
    requires
        transform_defined(slot, id, *a, *s),
    ensures
        match r {
            Some(t) => t == spec_transform(slot, id, *a, *s),
            None => spec_transform(slot, id, *a, *s) == *a,
        },
{
    match slot {
        Focus::Red => match a {
            Action::SelectR => {
                let t = s.tracks.get(id.1).unwrap();
                Some(Action::RecordTrack(id.1, (t.record + 1) % 3))
            },
            _ => Some(Action::Noop),
        },
        Focus::Green => match a {
            Action::SelectG => Some(Action::MuteTrack(id.1, !s.tracks.get(id.1).unwrap().mute)),
            _ => Some(Action::Noop),
        },
        Focus::Blue | Focus::Pink => match a {
            Action::SelectB => Some(Action::SoloTrack(id.1, !s.tracks.get(id.1).unwrap().solo)),
            _ => Some(Action::Noop),
        },
        Focus::Yellow => None,
    }
}

/// Applies the held control of a track header.
pub fn transform(slot: Focus, id: ID, a: Action, s: &TimelineState) -> (r: Action)
    requires
        transform_defined(slot, id, a, *s),
    ensures
        r == spec_transform(slot, id, a, *s),
{
    match transform_ref(slot, id, &a, s) {
        Some(t) => t,
        None => a,
    }
}

/// Whether the held control can act on its track; see `transform_defined`.
pub fn transform_ok(slot: Focus, id: ID, a: &Action, s: &TimelineState) -> (r: bool)
    ensures
        r == transform_defined(slot, id, *a, *s),
{
    match slot {
        Focus::Red => match a {
            Action::SelectR => match s.tracks.get(id.1) {
                Some(t) => t.record < u8::MAX,
                None => false,
            },
            _ => true,
        },
        Focus::Green => match a {
            Action::SelectG => s.tracks.contains_key(id.1),
            _ => true,
        },
        Focus::Blue | Focus::Pink => match a {
            Action::SelectB => s.tracks.contains_key(id.1),
            _ => true,
        },
        Focus::Yellow => true,
    }
}

/// Pressing the green control of a track header mutes an unmuted track and
/// unmutes a muted one, leaving the rest of the track as it was; pressing
/// it twice gives back the tracks there were.
pub proof fn law_green_toggles_mute(s: TimelineState, id: ID, s1: TimelineState, s2: TimelineState)
    requires
        s.tracks@.contains_key(id.1),
        state_reduced(s, spec_transform(Focus::Green, id, Action::SelectG, s), s1),
        state_reduced(s1, spec_transform(Focus::Green, id, Action::SelectG, s1), s2),
    ensures
        s1.tracks@.contains_key(id.1),
        s1.tracks@[id.1] == (Track { mute: !s.tracks@[id.1].mute, ..s.tracks@[id.1] }),
        s2.tracks@ == s.tracks@,
{
    assert(s2.tracks@ =~= s.tracks@);
}

/// Pressing the blue control (or pink, on the blue key) of a track header
/// turns solo on when it was off and off when it was on, leaving the rest
/// of the track as it was; pressing it twice gives back the tracks there
/// were.
pub proof fn law_blue_toggles_solo(s: TimelineState, id: ID, slot: Focus, s1: TimelineState, s2: TimelineState)
    requires
        slot is Blue || slot is Pink,
        s.tracks@.contains_key(id.1),
        state_reduced(s, spec_transform(slot, id, Action::SelectB, s), s1),
        state_reduced(s1, spec_transform(slot, id, Action::SelectB, s1), s2),
    ensures
        s1.tracks@.contains_key(id.1),
        s1.tracks@[id.1] == (Track { solo: !s.tracks@[id.1].solo, ..s.tracks@[id.1] }),
        s2.tracks@ == s.tracks@,
{
    assert(s2.tracks@ =~= s.tracks@);
}

/// Pressing the red control of a track header steps its record mode to
/// the next of 0, 1 and 2 (after 2 comes 0), leaving the rest of the track
/// as it was; three presses from any of the three modes give back the
/// tracks there were.
pub proof fn law_red_cycles_record(s: TimelineState, id: ID, s1: TimelineState, s2: TimelineState, s3: TimelineState)
    requires
        s.tracks@.contains_key(id.1),
        s.tracks@[id.1].record < 3,
        state_reduced(s, spec_transform(Focus::Red, id, Action::SelectR, s), s1),
        state_reduced(s1, spec_transform(Focus::Red, id, Action::SelectR, s1), s2),
        state_reduced(s2, spec_transform(Focus::Red, id, Action::SelectR, s2), s3),
    ensures
        s1.tracks@.contains_key(id.1),
        s1.tracks@[id.1] == (Track { record: (if s.tracks@[id.1].record == 2 { 0u8 } else { (s.tracks@[id.1].record + 1) as u8 }), ..s.tracks@[id.1] }),
        s3.tracks@ == s.tracks@,
{
    assert(s3.tracks@ =~= s.tracks@);
}

} // verus!
