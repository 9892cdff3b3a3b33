//! The organ (drawbar piano): nine drawbars set in whole steps, and the notes played.

use vstd::prelude::*;
use crate::action::{Action, Anchor};
use crate::document::XmlElement;
use crate::focus::{FocusTransform, FocusType, Focus, ID, MultiFocus, focus_dispatch, grid, in_grid, held_after, shift_ready,
    spec_focus_dispatch, grid_after, cell_transform_defined, spec_cell_transform, shift_defined};
use crate::modules::param_map;
use crate::modules::timeline::{last_index, lookup_index};
use crate::text::{owned, parse_i16, spec_i16};
use crate::views::drawbars::{names_ok, stop_index, stop_name, stop_names, stop_of};
use crate::views::keys::{keep_notes, same};

verus! {

/// Drawbar levels with one replaced.
pub fn set_stop(eq: [i16; 9], i: usize, v: i16) -> (r: [i16; 9])
    requires
        i < 9,
    ensures
        r@ == eq@.update(i as int, v),
{
    let r = [
        if i == 0 { v } else { eq[0] },
        if i == 1 { v } else { eq[1] },
        if i == 2 { v } else { eq[2] },
        if i == 3 { v } else { eq[3] },
        if i == 4 { v } else { eq[4] },
        if i == 5 { v } else { eq[5] },
        if i == 6 { v } else { eq[6] },
        if i == 7 { v } else { eq[7] },
        if i == 8 { v } else { eq[8] },
    ];
    assert(r@ =~= eq@.update(i as int, v));
    r
}

/// The two focus cells of the organ: the low drawbars and the high ones.
#[derive(Clone, Copy, Debug, PartialEq, Eq, Structural)]
pub enum PianoCell {
    Low,
    High,
}

/// The drawbar a control of a cell sets.
pub open spec fn piano_stop(kind: PianoCell, slot: Focus) -> Option<int> {
    match kind {
        PianoCell::Low => match slot {
            Focus::Green => Some(0),
            Focus::Yellow => Some(1),
            Focus::Pink => Some(2),
            Focus::Blue => Some(3),
            _ => None,
        },
        PianoCell::High => match slot {
            Focus::Green => Some(4),
            Focus::Yellow => Some(5),
            Focus::Pink => Some(6),
            Focus::Blue => Some(7),
            Focus::Red => Some(8),
        },
    }
}

/// The organ's state: the focused cell, the notes held, the drawbar levels
/// and the drawbars' names.
#[derive(Debug)]
pub struct PianoState {
    pub focus: (usize, usize),
    pub notes: Vec<Action>,
    pub eq: [i16; 9],
    pub names: Vec<String>,
}

/// The notes held after an action: a note-on is added; a note-off keeps
/// only the notes of its own key.
pub open spec fn piano_notes_after(notes: Seq<Action>, a: Action) -> Seq<Action> {
    match a {
        Action::NoteOn(k, v) => notes.push(Action::NoteOn(k, v)),
        Action::NoteOff(k) => same(notes, k),
        _ => notes,
    }
}

/// The drawbar levels after an action: setting a drawbar by name.
pub open spec fn eq_after(eq: Seq<i16>, a: Action) -> Seq<i16> {
    match a {
        Action::SetIntParam(key, v) => match stop_index(key@) {
            Some(i) => eq.update(i, v),
            None => eq,
        },
        _ => eq,
    }
}

/// Applies an action to the organ's state.
pub fn reduce(state: PianoState, action: &Action) -> (r: PianoState)
    ensures
        r.focus == state.focus,
        r.names == state.names,
        r.notes@ == piano_notes_after(state.notes@, *action),
        r.eq@ == eq_after(state.eq@, *action),
{
    let notes = match action {
        Action::NoteOn(k, v) => {
            let mut n = state.notes;
            n.push(Action::NoteOn(*k, *v));
            n
        },
        Action::NoteOff(k) => keep_notes(&state.notes, *k, true),
        _ => state.notes,
    };
    let eq = match action {
        Action::SetIntParam(key, v) => match stop_of(key.as_str()) {
            Some(i) => set_stop(state.eq, i, *v),
            None => state.eq,
        },
        _ => state.eq,
    };
    PianoState { focus: state.focus, notes, eq, names: state.names }
}

/// What a held drawbar control makes of an action: Up and Down move its
/// drawbar a step; anything else does nothing.
pub open spec fn spec_piano_transform(s: PianoState, kind: PianoCell, slot: Focus, a: Action) -> Action {
    match piano_stop(kind, slot) {
        Some(i) => match a {
            Action::Up => Action::SetIntParam(s.names@[i], (s.eq@[i] + 1) as i16),
            Action::Down => Action::SetIntParam(s.names@[i], (s.eq@[i] - 1) as i16),
            _ => Action::Noop,
        },
        None => Action::Noop,
    }
}

/// The column of a colour control on each cell of this organ, left to
/// right: green, yellow, pink, blue, then red (on the high cell only).
pub open spec fn piano_column(slot: Focus) -> int {
    match slot {
        Focus::Green => 0,
        Focus::Yellow => 1,
        Focus::Pink => 2,
        Focus::Blue => 3,
        Focus::Red => 4,
    }
}

/// Each held drawbar control steps the drawbar under it: on the low cell
/// the control in column c sets drawbar c, on the high cell drawbar 4 + c;
/// Up sets it, by its name, to its level plus one, Down to its level minus
/// one (when that fits an `i16`, as the organ asks), and anything else
/// does nothing. Red on the low cell sets nothing.
pub proof fn law_piano_drawbar_controls(s: PianoState, kind: PianoCell, slot: Focus, id: ID, a: Action)
    requires
        names_ok(s.names@),
        piano_transform_defined(s, kind, slot, a),
    ensures
        ({
            let i = (if kind is Low { 0int } else { 4int }) + piano_column(slot);
            let r = s.spec_transform(kind, slot, id, a);
            &&& (kind is Low && slot is Red) || !(a is Up || a is Down) ==> r is Noop
            &&& !(kind is Low && slot is Red) && a is Up ==> (r matches Action::SetIntParam(name, v)
                && name@ == stop_name(i) && v == s.eq@[i] + 1)
            &&& !(kind is Low && slot is Red) && a is Down ==> (r matches Action::SetIntParam(name, v)
                && name@ == stop_name(i) && v == s.eq@[i] - 1)
        }),
{
    let i = (if kind is Low { 0int } else { 4int }) + piano_column(slot);
    if !(kind is Low && slot is Red) {
        assert(0 <= i < 9);
        assert(s.names@[i]@ == stop_name(i));
    }
}

/// A drawbar step stays within `i16`.
pub open spec fn piano_transform_defined(s: PianoState, kind: PianoCell, slot: Focus, a: Action) -> bool {
    match piano_stop(kind, slot) {
        Some(i) => {
            &&& s.names@.len() == 9
            &&& (a is Up ==> s.eq@[i] < i16::MAX)
            &&& (a is Down ==> s.eq@[i] > i16::MIN)
        },
        None => true,
    }
}

impl FocusTransform<PianoCell> for PianoState {
    open spec fn spec_transform(&self, kind: PianoCell, slot: Focus, id: ID, a: Action) -> Action {
        spec_piano_transform(*self, kind, slot, a)
    }

    open spec fn transform_defined(&self, kind: PianoCell, slot: Focus, id: ID, a: Action) -> bool {
        piano_transform_defined(*self, kind, slot, a)
    }

    fn transform(&self, kind: &PianoCell, slot: Focus, id: ID, a: Action) -> (r: Action) {
        let stop: Option<usize> = match kind {
            PianoCell::Low => match slot {
                Focus::Green => Some(0),
                Focus::Yellow => Some(1),
                Focus::Pink => Some(2),
                Focus::Blue => Some(3),
                _ => None,
            },
            PianoCell::High => match slot {
                Focus::Green => Some(4),
                Focus::Yellow => Some(5),
                Focus::Pink => Some(6),
                Focus::Blue => Some(7),
                Focus::Red => Some(8),
            },
        };
        match stop {
            Some(i) => match a {
                Action::Up => Action::SetIntParam(self.names[i].clone(), self.eq[i] + 1),
                Action::Down => Action::SetIntParam(self.names[i].clone(), self.eq[i] - 1),
                _ => Action::Noop,
            },
            None => Action::Noop,
        }
    }
}

/// The organ's focus grid: one row of two cells, the low drawbars on the
/// green, yellow, pink and blue controls, the high ones on those and red.
pub open spec fn piano_grid(g: Seq<Seq<MultiFocus<PianoCell>>>) -> bool {
    let b = ID(FocusType::Button, 0);
    let v = ID(FocusType::Void, 0);
    &&& g.len() == 1
    &&& g[0].len() == 2
    &&& g[0][0] == MultiFocus { kind: PianoCell::Low, w_id: v, r_id: v, g_id: b, y_id: b, p_id: b, b_id: b, active: None }
    &&& g[0][1] == MultiFocus { kind: PianoCell::High, w_id: v, r_id: b, g_id: b, y_id: b, p_id: b, b_id: b, active: None }
}

/// The organ.
#[derive(Debug)]
pub struct Piano {
    pub x: u16,
    pub y: u16,
    pub width: u16,
    pub height: u16,
    pub state: PianoState,
    pub focii: Vec<Vec<MultiFocus<PianoCell>>>,
}

/// The drawbar levels a module element gives: each drawbar's parameter,
/// read as an `i16`.
pub open spec fn stops_of(params: Seq<(String, String)>) -> Option<Seq<i16>>
    decreases 9int,
{
    stops_from(params, 0)
}

/// The levels of drawbars `i` to 8.
pub open spec fn stops_from(params: Seq<(String, String)>, i: int) -> Option<Seq<i16>>
    decreases 9 - i,
{
    if i >= 9 || i < 0 {
        Some(Seq::empty())
    } else {
        match (lookup_index(params, stop_name(i)), stops_from(params, i + 1)) {
            (Some(j), Some(rest)) => match spec_i16(params[j].1@) {
                Some(v) => Some(seq![v] + rest),
                None => None,
            },
            _ => None,
        }
    }
}

/// Placing the organ at the bottom centre of this window stays on the screen.
pub open spec fn piano_fits(x: u16, y: u16, width: u16, height: u16) -> bool {
    &&& 35 <= x + width / 2 <= u16::MAX
    &&& 30 <= y + height <= u16::MAX
}

/// The organ's anchors: its speaker output and its MIDI input.
pub open spec fn organ_anchors(v: Seq<Anchor>) -> bool {
    &&& v.len() == 2
    &&& v[0].index == 0 && v[0].module_id == 0 && v[0].name@ == "Speaker"@ && !v[0].input
    &&& v[1].index == 1 && v[1].module_id == 0 && v[1].name@ == "MIDI In"@ && v[1].input
}

/// The organ's speaker output and MIDI input.
pub fn organ_anchor_list() -> (r: Vec<Anchor>)
    ensures
        organ_anchors(r@),
{
    let mut v: Vec<Anchor> = Vec::new();
    v.push(Anchor { index: 0, module_id: 0, name: owned("Speaker"), input: false });
    v.push(Anchor { index: 1, module_id: 0, name: owned("MIDI In"), input: true });
    v
}

/// The organ can handle the action: the held control's step stays in `i16`
/// and the focus moves within the grid.
pub open spec fn piano_dispatch_defined(p: Piano, a: Action) -> bool {
    let f = p.state.focus;
    let g = grid(p.focii);
    &&& in_grid(f, g) ==> cell_transform_defined(g[f.1 as int][f.0 as int], a, p.state)
    &&& in_grid(f, g) ==> shift_defined(f, grid_after(f, g, a), spec_cell_transform(g[f.1 as int][f.0 as int], a, p.state))
}

impl Piano {
    /// The organ for a module element: the drawbar levels are its
    /// parameters named after the drawbars. `None` when a parameter is
    /// malformed, or a drawbar's is missing or not an `i16`.
    pub fn new(x: u16, y: u16, width: u16, height: u16, doc: XmlElement) -> (r: Option<Self>)
        requires
            piano_fits(x, y, width, height),
        ensures
            r is Some <==> (crate::modules::pairs_of(crate::document::named(doc.children@, "param"@)) matches Some(p)
                && stops_of(p) is Some),
            r matches Some(p) ==> {
                &&& p.x == x + width / 2 - 35
                &&& p.y == y + height - 30
                &&& p.width == width && p.height == height
                &&& p.state.eq@ == stops_of(crate::modules::pairs_of(crate::document::named(doc.children@, "param"@)).unwrap()).unwrap()
                &&& p.state.notes@.len() == 0
                &&& p.state.focus == (0usize, 0usize)
                &&& names_ok(p.state.names@)
                &&& piano_grid(grid(p.focii))
            },
    {
        let params = match param_map(doc) {
            Some((_, p)) => p,
            None => return None,
        };
        let mut levels: Vec<i16> = Vec::new();
        let names = stop_names();
        let mut i: usize = 0;
        assert(Seq::<i16>::empty() + stops_from(params@, 0).unwrap_or(Seq::empty()) =~= stops_from(params@, 0).unwrap_or(Seq::empty()));
        while i < 9
            invariant
                i <= 9,
                names_ok(names@),
                levels@.len() == i,
                crate::modules::pairs_of(crate::document::named(doc.children@, "param"@)) == Some(params@),
                stops_of(params@) == (match stops_from(params@, i as int) {
                    Some(rest) => Some(levels@ + rest),
                    None => None::<Seq<i16>>,
                }),
            decreases 9 - i,
        {
            let t = match last_index(&params, names[i].as_str()) {
                Some(j) => j,
                None => return None,
            };
            proof { crate::modules::timeline::lemma_lookup_index(params@, stop_name(i as int)); }
            let v = match parse_i16(params[t].1.as_str()) {
                Some(v) => v,
                None => return None,
            };
            proof {
                if let Some(rest) = stops_from(params@, i + 1) {
                    assert(levels@.push(v) + rest =~= levels@ + (seq![v] + rest));
                }
            }
            levels.push(v);
            i = i + 1;
        }
        assert(levels@ + Seq::<i16>::empty() =~= levels@);
        let eq: [i16; 9] = [levels[0], levels[1], levels[2], levels[3], levels[4], levels[5], levels[6], levels[7], levels[8]];
        let b = ID(FocusType::Button, 0);
        let v = ID(FocusType::Void, 0);
        let mut row: Vec<MultiFocus<PianoCell>> = Vec::new();
        row.push(MultiFocus { kind: PianoCell::Low, w_id: v, r_id: v, g_id: b, y_id: b, p_id: b, b_id: b, active: None });
        row.push(MultiFocus { kind: PianoCell::High, w_id: v, r_id: b, g_id: b, y_id: b, p_id: b, b_id: b, active: None });
        let mut focii: Vec<Vec<MultiFocus<PianoCell>>> = Vec::new();
        focii.push(row);
        Some(Piano {
            x: x + width / 2 - 35,
            y: y + height - 30,
            width,
            height,
            state: PianoState { focus: (0, 0), notes: Vec::new(), eq, names },
            focii,
        })
    }
    /// Runs an action through the focused drawbar cell: a held drawbar
    /// control turns Up and Down into a step of its drawbar. What comes out
    /// (unless it is an arrow the grid moves the focus with) is applied to
    /// the state and handed back when it is Up, Down or a drawbar setting;
    /// asked for its anchors the organ offers its speaker and MIDI input.
    pub fn dispatch(&mut self, action: Action) -> (r: Action)
        requires
            piano_dispatch_defined(*old(self), action),
        ensures
            ({
                let s0 = old(self).state;
                let f = s0.focus;
                let g = grid(old(self).focii);
                let o = spec_focus_dispatch(f, g, s0, action);
                &&& final(self).x == old(self).x && final(self).y == old(self).y
                &&& final(self).width == old(self).width && final(self).height == old(self).height
                &&& grid(final(self).focii) == grid_after(f, g, action)
                &&& final(self).state.focus == o.0
                &&& final(self).state.names == s0.names
                &&& match o.1 {
                    None => {
                        &&& r is Noop
                        &&& final(self).state.notes == s0.notes
                        &&& final(self).state.eq == s0.eq
                    },
                    Some(d) => {
                        &&& final(self).state.notes@ == piano_notes_after(s0.notes@, d)
                        &&& final(self).state.eq@ == eq_after(s0.eq@, d)
                        &&& match d {
                            Action::Route => r matches Action::ShowAnchors(v) && organ_anchors(v@),
                            Action::Up | Action::Down | Action::SetIntParam(_, _) => r == d,
                            _ => r is Noop,
                        }
                    },
                }
            }),
    {
        let (focus, default) = focus_dispatch(self.state.focus, &mut self.focii, &self.state, action);
        self.state.focus = focus;
        match default {
            Some(d) => {
                let mut state = PianoState { focus: (0, 0), notes: Vec::new(), eq: [0; 9], names: Vec::new() };
                std::mem::swap(&mut state, &mut self.state);
                self.state = reduce(state, &d);
                match d {
                    Action::Route => Action::ShowAnchors(organ_anchor_list()),
                    Action::Up => Action::Up,
                    Action::Down => Action::Down,
                    Action::SetIntParam(k, v) => Action::SetIntParam(k, v),
                    _ => Action::Noop,
                }
            },
            None => Action::Noop,
        }
    }

    /// Whether `dispatch` can take this action: a drawbar step must stay
    /// within `i16`, and the focus must not move into an empty row.
    pub fn can_dispatch(&self, action: &Action) -> (r: bool)
        ensures
            r == piano_dispatch_defined(*self, *action),
    {
        let f = self.state.focus;
        if f.1 >= self.focii.len() || f.0 >= self.focii[f.1].len() {
            return true;
        }
        let cell = self.focii[f.1][f.0];
        let stop_ok = match held_after(&cell, action) {
            Some(c) => {
                let stop: Option<usize> = match cell.kind {
                    PianoCell::Low => match c {
                        Focus::Green => Some(0),
                        Focus::Yellow => Some(1),
                        Focus::Pink => Some(2),
                        Focus::Blue => Some(3),
                        _ => None,
                    },
                    PianoCell::High => match c {
                        Focus::Green => Some(4),
                        Focus::Yellow => Some(5),
                        Focus::Pink => Some(6),
                        Focus::Blue => Some(7),
                        Focus::Red => Some(8),
                    },
                };
                match stop {
                    Some(i) => self.state.names.len() == 9 && match action {
                        Action::Up => self.state.eq[i] < i16::MAX,
                        Action::Down => self.state.eq[i] > i16::MIN,
                        _ => true,
                    },
                    None => true,
                }
            },
            None => true,
        };
        stop_ok && shift_ready(f, &self.focii, &self.state, action)
    }

    /// The organ hides what is under it.
    pub fn alpha(&self) -> (r: bool)
        ensures
            !r,
    {
        false
    }
}

} // verus!
