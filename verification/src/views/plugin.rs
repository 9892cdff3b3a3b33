//! A Faust plugin: the parameters the plugin declares, five to a focus
//! cell, set within their bounds, and the audio anchors it declares.

use vstd::prelude::*;
use crate::action::{Action, Anchor, Level};
use crate::document::{XmlElement, named};
use crate::focus::{FocusTransform, FocusType, Focus, ID, MultiFocus, grid, in_grid, shift_focus, spec_shift, held_after, shift_ready_for,
    shift_defined, active_after, slot_id, spec_cell_transform, cell_transform_defined};
use crate::modules::{param_map, pairs_of};
use crate::text::{decimal, labeled, owned, str_eq};

verus! {

/// A parameter a plugin declares: its label, initial value, bounds, step and value.
#[derive(Debug)]
pub struct FaustParam {
    pub label: String,
    pub init: Level,
    pub min: Level,
    pub max: Level,
    pub step: Level,
    pub value: Level,
}

/// The plugin's state: its parameters, its audio anchors (name and whether
/// an input) and the focus.
#[derive(Debug)]
pub struct PluginState {
    pub params: Vec<FaustParam>,
    pub faust_anchors: Vec<(String, bool)>,
    pub focus: (usize, usize),
}

/// Position of the first parameter with this label.
pub open spec fn label_index(ps: Seq<FaustParam>, key: Seq<char>) -> Option<int>
    decreases ps.len(),
{
    if ps.len() == 0 {
        None
    } else {
        match label_index(ps.drop_last(), key) {
            Some(i) => Some(i),
            None => if ps.last().label@ == key { Some(ps.len() - 1) } else { None },
        }
    }
}

proof fn lemma_label_index(ps: Seq<FaustParam>, key: Seq<char>)
    ensures
        label_index(ps, key) matches Some(i) ==> 0 <= i < ps.len() && ps[i].label@ == key
            && forall|j: int| 0 <= j < i ==> ps[j].label@ != key,
        label_index(ps, key) is None ==> forall|j: int| 0 <= j < ps.len() ==> ps[j].label@ != key,
    decreases ps.len(),
{
    if ps.len() > 0 {
        lemma_label_index(ps.drop_last(), key);
        assert forall|j: int| 0 <= j < ps.len() - 1 implies ps.drop_last()[j] == ps[j] by {}
    }
}

proof fn lemma_label_index_first(ps: Seq<FaustParam>, key: Seq<char>, i: int)
    requires
        0 <= i < ps.len(),
        ps[i].label@ == key,
        forall|j: int| 0 <= j < i ==> ps[j].label@ != key,
    ensures
        label_index(ps, key) == Some(i),
    decreases ps.len(),
{
    if i < ps.len() - 1 {
        lemma_label_index_first(ps.drop_last(), key, i);
    } else {
        lemma_label_index(ps.drop_last(), key);
    }
}

/// The name of an audio anchor: "Audio Out 3", "Audio In 0".
pub open spec fn anchor_name(input: bool, i: int) -> Seq<char> {
    (if input { "Audio In "@ } else { "Audio Out "@ }) + decimal(i as nat)
}

/// The audio anchors declared for `ins` input and `outs` output channels:
/// one per pair of channels, the outputs first.
pub open spec fn declared_anchors(a: Seq<(String, bool)>, ins: u16, outs: u16) -> bool {
    &&& a.len() == outs / 2 + ins / 2
    &&& forall|i: int| 0 <= i < outs / 2 ==> (#[trigger] a[i]).0@ == anchor_name(false, i) && !a[i].1
    &&& forall|i: int| outs / 2 <= i < a.len() ==> (#[trigger] a[i]).0@ == anchor_name(true, i - outs / 2) && a[i].1
}

/// The plugin's state after an action (but for the focus): a setting
/// changes the first parameter with its label, a declared parameter is
/// added at its initial value, declared channels replace the anchors.
pub open spec fn plugin_reduced(state: PluginState, action: Action, r: PluginState) -> bool {
        match action {
            Action::SetParam(k, v) => r.faust_anchors == state.faust_anchors && match label_index(state.params@, k@) {
                Some(i) => r.params@ == state.params@.update(i, FaustParam { value: v, ..state.params@[i] }),
                None => r.params@ == state.params@,
            },
            Action::DeclareParam(label, init, min, max, step) => r.faust_anchors == state.faust_anchors
                && r.params@ == state.params@.push(FaustParam { label, init, min, max, step, value: init }),
            Action::DeclareAnchors(ins, outs) => r.params == state.params && declared_anchors(r.faust_anchors@, ins, outs),
            _ => r.params == state.params && r.faust_anchors == state.faust_anchors,
        }
}

/// Applies an action to the plugin's state; see `plugin_reduced`.
pub fn reduce(state: PluginState, action: Action) -> (r: PluginState)
    ensures
        r.focus == state.focus,
        plugin_reduced(state, action, r),
{
    match action {
        Action::SetParam(k, v) => {
            let mut params = state.params;
            let mut i: usize = 0;
            while i < params.len()
                invariant
                    i <= params@.len(),
                    params@ == state.params@,
                    action == Action::SetParam(k, v),
                    forall|j: int| 0 <= j < i ==> params@[j].label@ != k@,
                decreases params@.len() - i,
            {
                if str_eq(params[i].label.as_str(), k.as_str()) {
                    proof { lemma_label_index_first(params@, k@, i as int); }
                    let mut p = params.remove(i);
                    p.value = v;
                    params.insert(i, p);
                    assert(params@ =~= state.params@.update(i as int, FaustParam { value: v, ..state.params@[i as int] }));
                    return PluginState { params, faust_anchors: state.faust_anchors, focus: state.focus };
                }
                i = i + 1;
            }
            proof { lemma_label_index(params@, k@); if label_index(params@, k@) is Some { let j = label_index(params@, k@).unwrap(); assert(params@[j].label@ != k@); } }
            PluginState { params, faust_anchors: state.faust_anchors, focus: state.focus }
        },
        Action::DeclareParam(label, init, min, max, step) => {
            let mut params = state.params;
            params.push(FaustParam { label, init, min, max, step, value: init });
            PluginState { params, faust_anchors: state.faust_anchors, focus: state.focus }
        },
        Action::DeclareAnchors(ins, outs) => {
            let mut anchors: Vec<(String, bool)> = Vec::new();
            for i in 0..outs / 2
                invariant
                    anchors@.len() == i,
                    forall|j: int| 0 <= j < i ==> (#[trigger] anchors@[j]).0@ == anchor_name(false, j) && !anchors@[j].1,
            {
                anchors.push((labeled("Audio Out ", i), false));
            }
            for i in 0..ins / 2
                invariant
                    anchors@.len() == outs / 2 + i,
                    forall|j: int| 0 <= j < outs / 2 ==> (#[trigger] anchors@[j]).0@ == anchor_name(false, j) && !anchors@[j].1,
                    forall|j: int| outs / 2 <= j < anchors@.len() ==> (#[trigger] anchors@[j]).0@ == anchor_name(true, j - outs / 2) && anchors@[j].1,
            {
                anchors.push((labeled("Audio In ", i), true));
            }
            PluginState { params: state.params, faust_anchors: anchors, focus: state.focus }
        },
        _ => state,
    }
}

/// The parameters' values a step up and a step down, and the parameters.
pub struct PluginKnobs<'a> {
    pub params: &'a Vec<FaustParam>,
    pub up: Vec<Level>,
    pub down: Vec<Level>,
}

/// A focus cell of the plugin: up to five parameters.
#[derive(Clone, Copy, Debug, PartialEq, Eq, Structural)]
pub struct ParamCell;

impl<'a> FocusTransform<ParamCell> for PluginKnobs<'a> {
    /// A held parameter control turns Up and Right into setting its
    /// parameter a step up, Down and Left a step down; other actions pass.
    open spec fn spec_transform(&self, kind: ParamCell, slot: Focus, id: ID, a: Action) -> Action {
        let i = id.1 as int;
        match a {
            Action::Up | Action::Right => Action::SetParam(self.params@[i].label, self.up@[i]),
            Action::Down | Action::Left => Action::SetParam(self.params@[i].label, self.down@[i]),
            _ => a,
        }
    }

    open spec fn transform_defined(&self, kind: ParamCell, slot: Focus, id: ID, a: Action) -> bool {
        (a is Up || a is Right || a is Down || a is Left) ==> {
            &&& (id.1 as int) < self.params@.len()
            &&& self.up@.len() == self.params@.len()
            &&& self.down@.len() == self.params@.len()
        }
    }

    fn transform(&self, kind: &ParamCell, slot: Focus, id: ID, a: Action) -> (r: Action) {
        let i = id.1 as usize;
        match a {
            Action::Up | Action::Right => Action::SetParam(self.params[i].label.clone(), self.up[i]),
            Action::Down | Action::Left => Action::SetParam(self.params[i].label.clone(), self.down[i]),
            _ => a,
        }
    }
}

/// The control id of slot `j` of cell `k` among `n` parameters.
pub open spec fn param_slot(n: int, k: int, j: int) -> ID {
    if 5 * k + j < n { ID(FocusType::Param, (5 * k + j) as u16) } else { ID(FocusType::Void, 0) }
}

/// Cell `k`: five parameters in red, green, pink, yellow, blue order.
pub open spec fn param_cell(n: int, k: int) -> MultiFocus<ParamCell> {
    MultiFocus {
        kind: ParamCell,
        w_id: ID(FocusType::Void, 0),
        r_id: param_slot(n, k, 0),
        g_id: param_slot(n, k, 1),
        p_id: param_slot(n, k, 2),
        y_id: param_slot(n, k, 3),
        b_id: param_slot(n, k, 4),
        active: None,
    }
}

/// The plugin grid for `n` parameters: one cell per five, each on a row of its own.
pub open spec fn plugin_grid(g: Seq<Seq<MultiFocus<ParamCell>>>, n: int) -> bool {
    &&& g.len() == (n + 4) / 5
    &&& forall|k: int| 0 <= k < g.len() ==> #[trigger] g[k] == seq![param_cell(n, k)]
}

fn param_slot_id(n: usize, k: usize, j: usize) -> (r: ID)
    requires
        5 * k + j <= usize::MAX,
    ensures
        r == param_slot(n as int, k as int, j as int),
{
    if 5 * k + j < n { ID(FocusType::Param, (5 * k + j) as u16) } else { ID(FocusType::Void, 0) }
}

/// The plugin grid for `n` parameters; see `plugin_grid`.
pub fn generate_focii(n: usize) -> (r: Vec<Vec<MultiFocus<ParamCell>>>)
    ensures
        plugin_grid(grid(r), n as int),
{
    let cells = n / 5 + if n % 5 > 0 { 1 } else { 0 };
    let mut focii: Vec<Vec<MultiFocus<ParamCell>>> = Vec::new();
    for k in 0..cells
        invariant
            cells == (n + 4) / 5,
            focii@.len() == k,
            forall|m: int| 0 <= m < k ==> #[trigger] grid(focii)[m] == seq![param_cell(n as int, m)],
    {
        let cell = MultiFocus {
            kind: ParamCell,
            w_id: ID(FocusType::Void, 0),
            r_id: param_slot_id(n, k, 0),
            g_id: param_slot_id(n, k, 1),
            p_id: param_slot_id(n, k, 2),
            y_id: param_slot_id(n, k, 3),
            b_id: param_slot_id(n, k, 4),
            active: None,
        };
        let mut row: Vec<MultiFocus<ParamCell>> = Vec::new();
        row.push(cell);
        let ghost before = grid(focii);
        focii.push(row);
        proof {
            assert(grid(focii)[k as int] =~= seq![param_cell(n as int, k as int)]);
            assert forall|m: int| 0 <= m < k + 1 implies #[trigger] grid(focii)[m] == seq![param_cell(n as int, m)] by {
                if m < k {
                    assert(grid(focii)[m] == before[m]);
                }
            }
        }
    }
    focii
}

/// The plugin takes MIDI notes: it has the frequency, gain and gate parameters.
pub open spec fn plays_notes(ps: Seq<FaustParam>) -> bool {
    label_index(ps, "freq"@) is Some && label_index(ps, "gain"@) is Some && label_index(ps, "gate"@) is Some
}

/// The plugin's anchors: its audio anchors by position, then a MIDI input
/// when it takes notes.
pub open spec fn plugin_anchors(s: PluginState, v: Seq<Anchor>) -> bool {
    let fa = s.faust_anchors@;
    &&& v.len() == fa.len() + if plays_notes(s.params@) { 1int } else { 0int }
    &&& forall|i: int| 0 <= i < fa.len() ==> {
        let a = #[trigger] v[i];
        a.index == i as u16 && a.module_id == 0 && a.name@ == fa[i].0@ && a.input == fa[i].1
    }
    &&& plays_notes(s.params@) ==> {
        let a = v[fa.len() as int];
        a.index == fa.len() as u16 && a.module_id == 0 && a.name@ == "MIDI In"@ && a.input
    }
}

/// Whether the plugin has a parameter with this label.
fn has_label(ps: &Vec<FaustParam>, key: &str) -> (r: bool)
    ensures
        r == label_index(ps@, key@) is Some,
{
    for i in 0..ps.len()
        invariant
            forall|j: int| 0 <= j < i ==> ps@[j].label@ != key@,
    {
        if str_eq(ps[i].label.as_str(), key) {
            proof { lemma_label_index_first(ps@, key@, i as int); }
            return true;
        }
    }
    proof { lemma_label_index(ps@, key@); if label_index(ps@, key@) is Some { let j = label_index(ps@, key@).unwrap(); assert(ps@[j].label@ != key@); } }
    false
}

/// The plugin's anchors; see `plugin_anchors`.
pub fn anchor_list(s: &PluginState) -> (r: Vec<Anchor>)
    ensures
        plugin_anchors(*s, r@),
{
    let mut v: Vec<Anchor> = Vec::new();
    for i in 0..s.faust_anchors.len()
        invariant
            v@.len() == i,
            forall|j: int| 0 <= j < i ==> {
                let a = #[trigger] v@[j];
                a.index == j as u16 && a.module_id == 0 && a.name@ == s.faust_anchors@[j].0@ && a.input == s.faust_anchors@[j].1
            },
    {
        v.push(Anchor { index: i as u16, module_id: 0, name: s.faust_anchors[i].0.clone(), input: s.faust_anchors[i].1 });
    }
    if has_label(&s.params, "freq") && has_label(&s.params, "gain") && has_label(&s.params, "gate") {
        let n = v.len();
        v.push(Anchor { index: n as u16, module_id: 0, name: owned("MIDI In"), input: true });
    }
    v
}

/// The plugin view.
#[derive(Debug)]
pub struct Plugin {
    pub x: u16,
    pub y: u16,
    pub width: u16,
    pub height: u16,
    pub state: PluginState,
    pub focii: Vec<Vec<MultiFocus<ParamCell>>>,
}

/// The values `nudge` makes of each parameter a step up and a step down.
pub open spec fn knobs_ok<N: Fn(&FaustParam, bool) -> Level>(
    ps: Seq<FaustParam>, nudge: N, up: Seq<Level>, down: Seq<Level>,
) -> bool {
    &&& up.len() == ps.len()
    &&& down.len() == ps.len()
    &&& forall|i: int| 0 <= i < ps.len() ==> nudge.ensures((&ps[i], true), #[trigger] up[i])
    &&& forall|i: int| 0 <= i < ps.len() ==> nudge.ensures((&ps[i], false), #[trigger] down[i])
}

/// What the plugin does with an action, given the parameters' values a
/// step up and down: the focused cell (if any) transforms it and the
/// result is applied to the state. A declared parameter lays the grid out
/// again; Left, Up and Down move the focus (handing back the arrow at the
/// border); Route is answered with the plugin's anchors; a setting is
/// handed back; anything else gives nothing.
pub open spec fn plugin_outcome<N: Fn(&FaustParam, bool) -> Level>(
    p0: Plugin, action: Action, nudge: N, up: Vec<Level>, down: Vec<Level>, p1: Plugin, r: Action,
) -> bool {
    let s0 = p0.state;
    let f = s0.focus;
    let g = grid(p0.focii);
    let k = PluginKnobs { params: &s0.params, up, down };
    let t = if in_grid(f, g) { spec_cell_transform(g[f.1 as int][f.0 as int], action, k) } else { action };
    let g1 = crate::focus::grid_after(f, g, action);
    &&& knobs_ok(s0.params@, nudge, up@, down@)
    &&& plugin_reduced(s0, t, p1.state)
    &&& match t {
        Action::DeclareParam(_, _, _, _, _) => plugin_grid(grid(p1.focii), p1.state.params@.len() as int)
            && p1.state.focus == f && r is Noop,
        Action::Left | Action::Up | Action::Down => {
            let o = spec_shift(f, g1, t);
            &&& grid(p1.focii) == g1
            &&& p1.state.focus == o.0
            &&& match o.1 {
                Some(a) => r == a,
                None => r is Noop,
            }
        },
        Action::Route => grid(p1.focii) == g1 && p1.state.focus == f
            && (r matches Action::ShowAnchors(v) && plugin_anchors(p1.state, v@)),
        Action::SetParam(_, _) => grid(p1.focii) == g1 && p1.state.focus == f && r == t,
        _ => grid(p1.focii) == g1 && p1.state.focus == f && r is Noop,
    }
}

/// The plugin can handle the action: a held control's parameter exists,
/// and the focus moves within the grid.
pub open spec fn plugin_dispatch_defined(p: Plugin, a: Action) -> bool {
    let f = p.state.focus;
    let g = grid(p.focii);
    &&& in_grid(f, g) ==> match active_after(g[f.1 as int][f.0 as int], a) {
        Some(c) => (a is Up || a is Right || a is Down || a is Left)
            ==> (slot_id(g[f.1 as int][f.0 as int], c).1 as int) < p.state.params@.len(),
        None => true,
    }
    &&& shift_defined(f, crate::focus::grid_after(f, g, a), a)
}

impl Plugin {
    /// The plugin view for a module element, with no parameters until the
    /// plugin declares them. `None` when a parameter of the element is malformed.
    pub fn new(x: u16, y: u16, width: u16, height: u16, doc: XmlElement) -> (r: Option<Self>)
        ensures
            r is Some <==> pairs_of(named(doc.children@, "param"@)) is Some,
            r matches Some(p) ==> {
                &&& p.x == x && p.y == y && p.width == width && p.height == height
                &&& p.state.params@.len() == 0 && p.state.faust_anchors@.len() == 0
                &&& p.state.focus == (0usize, 0usize)
                &&& grid(p.focii).len() == 0
            },
    {
        match param_map(doc) {
            Some(_) => {},
            None => return None,
        }
        let state = PluginState { params: Vec::new(), faust_anchors: Vec::new(), focus: (0, 0) };
        let focii: Vec<Vec<MultiFocus<ParamCell>>> = Vec::new();
        assert(grid(focii).len() == 0);
        Some(Plugin { x, y, width, height, state, focii })
    }

    /// Runs an action through the focused cell and applies what comes
    /// out; `nudge` makes a parameter's value a step up (`true`) or down,
    /// within its bounds. See `plugin_outcome`.
    pub fn dispatch<N: Fn(&FaustParam, bool) -> Level>(&mut self, action: Action, nudge: &N) -> (r: Action)
        requires
            plugin_dispatch_defined(*old(self), action),
            forall|p: &FaustParam, up: bool| nudge.requires((p, up)),
        ensures
            final(self).x == old(self).x && final(self).y == old(self).y,
            final(self).width == old(self).width && final(self).height == old(self).height,
            exists|up: Vec<Level>, down: Vec<Level>| #[trigger] plugin_outcome(*old(self), action, *nudge, up, down,
                *final(self), r),
    {
        let ghost p0 = *self;
        let n = self.state.params.len();
        let mut up: Vec<Level> = Vec::new();
        let mut down: Vec<Level> = Vec::new();
        for i in 0..n
            invariant
                n == self.state.params@.len(),
                self.state == p0.state,
                forall|p: &FaustParam, u: bool| nudge.requires((p, u)),
                up@.len() == i && down@.len() == i,
                forall|j: int| 0 <= j < i ==> (*nudge).ensures((&self.state.params@[j], true), #[trigger] up@[j]),
                forall|j: int| 0 <= j < i ==> (*nudge).ensures((&self.state.params@[j], false), #[trigger] down@[j]),
        {
            up.push(nudge(&self.state.params[i], true));
            down.push(nudge(&self.state.params[i], false));
        }
        let ghost up0 = up;
        let ghost down0 = down;
        let f = self.state.focus;
        let t = {
            let knobs = PluginKnobs { params: &self.state.params, up, down };
            if f.1 < self.focii.len() && f.0 < self.focii[f.1].len() {
                let ghost g0 = grid(self.focii);
                let mut cell = self.focii[f.1][f.0];
                let t = cell.transform(action, &knobs);
                let mut row = self.focii.remove(f.1);
                row.set(f.0, cell);
                self.focii.insert(f.1, row);
                assert(grid(self.focii) =~= crate::focus::grid_after(f, g0, action)) by {
                    assert(grid(self.focii)[f.1 as int] =~= crate::focus::grid_after(f, g0, action)[f.1 as int]);
                }
                t
            } else {
                action
            }
        };
        let set = match &t {
            Action::SetParam(k, v) => Some((k.clone(), *v)),
            _ => None,
        };
        let kind: u8 = match &t {
            Action::DeclareParam(_, _, _, _, _) => 0,
            Action::Left | Action::Up | Action::Down => 1,
            Action::Route => 2,
            Action::SetParam(_, _) => 3,
            _ => 4,
        };
        let arrow = match &t {
            Action::Left => Action::Left,
            Action::Up => Action::Up,
            _ => Action::Down,
        };
        let ghost t0 = t;
        let mut state = PluginState { params: Vec::new(), faust_anchors: Vec::new(), focus: (0, 0) };
        std::mem::swap(&mut state, &mut self.state);
        self.state = reduce(state, t);
        let r = if kind == 0 {
            self.focii = generate_focii(self.state.params.len());
            Action::Noop
        } else if kind == 1 {
            let (focus, default) = shift_focus(f, &self.focii, arrow);
            self.state.focus = focus;
            match default {
                Some(a) => a,
                None => Action::Noop,
            }
        } else if kind == 2 {
            Action::ShowAnchors(anchor_list(&self.state))
        } else if kind == 3 {
            match set {
                Some((k, v)) => Action::SetParam(k, v),
                None => Action::Noop,
            }
        } else {
            Action::Noop
        };
        assert(plugin_outcome(p0, action, *nudge, up0, down0, *self, r));
        r
    }

    /// Whether `dispatch` can take this action: a held control's arrow names
    /// a parameter, and the focus does not move into an empty row.
    pub fn can_dispatch(&self, action: &Action) -> (r: bool)
        ensures
            r == plugin_dispatch_defined(*self, *action),
    {
        let f = self.state.focus;
        let moves = shift_ready_for(f, &self.focii, action);
        if f.1 >= self.focii.len() || f.0 >= self.focii[f.1].len() {
            return moves;
        }
        let ghost g = grid(self.focii);
        let cell = self.focii[f.1][f.0];
        assert(cell == g[f.1 as int][f.0 as int]);
        let held_ok = match held_after(&cell, action) {
            Some(c) => match action {
                Action::Up | Action::Right | Action::Down | Action::Left =>
                    (cell.id_of(c).1 as usize) < self.state.params.len(),
                _ => true,
            },
            None => true,
        };
        held_ok && moves
    }

    /// The plugin hides what is under it.
    pub fn alpha(&self) -> (r: bool)
        ensures
            !r,
    {
        false
    }
}

} // verus!
