//! The tonewheel organ: nine drawbars with real-valued levels, and the notes played.

use vstd::prelude::*;
use crate::action::{Action, Level};
use crate::document::{XmlElement, attr_value, lemma_all_named, named};
use crate::focus::{FocusTransform, FocusType, Focus, ID, MultiFocus, focus_dispatch, grid, in_grid, shift_ready,
    spec_focus_dispatch, grid_after, cell_transform_defined, spec_cell_transform, shift_defined};
use crate::modules::{param_map, pairs_of, param_add, param_element};
use crate::modules::timeline::{last_index, lookup_index, lemma_lookup_index};
use crate::text::owned;
use crate::views::drawbars::{names_ok, stop_index, stop_name, stop_names, stop_of};
use crate::views::keys::{keys_after, press};
use crate::views::piano::{organ_anchors, organ_anchor_list};

verus! {

/// Drawbar levels with one replaced.
pub fn set_level(eq: [Level; 9], i: usize, v: Level) -> (r: [Level; 9])
    requires
        i < 9,
    ensures
        r@ == eq@.update(i as int, v),
{
    let r = [
        if i == 0 { v } else { eq[0] },
        if i == 1 { v } else { eq[1] },
        if i == 2 { v } else { eq[2] },
        if i == 3 { v } else { eq[3] },
        if i == 4 { v } else { eq[4] },
        if i == 5 { v } else { eq[5] },
        if i == 6 { v } else { eq[6] },
        if i == 7 { v } else { eq[7] },
        if i == 8 { v } else { eq[8] },
    ];
    assert(r@ =~= eq@.update(i as int, v));
    r
}

/// The two focus cells of the organ: the low drawbars and the high ones.
#[derive(Clone, Copy, Debug, PartialEq, Eq, Structural)]
pub enum HammondCell {
    Low,
    High,
}

/// The drawbar a control of a cell sets: yellow, blue, pink and green the
/// low four; on the high cell also red the last.
pub open spec fn hammond_stop(kind: HammondCell, slot: Focus) -> Option<int> {
    match kind {
        HammondCell::Low => match slot {
            Focus::Yellow => Some(0),
            Focus::Blue => Some(1),
            Focus::Pink => Some(2),
            Focus::Green => Some(3),
            _ => None,
        },
        HammondCell::High => match slot {
            Focus::Yellow => Some(4),
            Focus::Blue => Some(5),
            Focus::Pink => Some(6),
            Focus::Green => Some(7),
            Focus::Red => Some(8),
        },
    }
}

/// The column of a colour control on each organ cell, left to right:
/// yellow, blue, pink, green, then red (on the high cell only).
pub open spec fn control_column(slot: Focus) -> int {
    match slot {
        Focus::Yellow => 0,
        Focus::Blue => 1,
        Focus::Pink => 2,
        Focus::Green => 3,
        Focus::Red => 4,
    }
}

/// Each held drawbar control steps the drawbar under it: on the low cell
/// the control in column c sets drawbar c (of the first four), on the high
/// cell drawbar 4 + c; Up sets it, by its name, to its level one step up,
/// Down to its level one step down, and anything else does nothing. Red on
/// the low cell sets nothing.
pub proof fn law_drawbar_controls<'a>(k: HammondKnobs<'a>, kind: HammondCell, slot: Focus, id: ID, a: Action)
    requires
        names_ok(k.names@),
    ensures
        ({
            let i = (if kind is Low { 0int } else { 4int }) + control_column(slot);
            let r = k.spec_transform(kind, slot, id, a);
            &&& (kind is Low && slot is Red) || !(a is Up || a is Down) ==> r is Noop
            &&& !(kind is Low && slot is Red) && a is Up ==> (r matches Action::SetParam(name, v)
                && name@ == stop_name(i) && v == k.up@[i])
            &&& !(kind is Low && slot is Red) && a is Down ==> (r matches Action::SetParam(name, v)
                && name@ == stop_name(i) && v == k.down@[i])
        }),
{
    let i = (if kind is Low { 0int } else { 4int }) + control_column(slot);
    if !(kind is Low && slot is Red) {
        assert(0 <= i < 9);
        assert(k.names@[i]@ == stop_name(i));
    }
}

/// The organ's state: the focused cell, the notes held, the drawbar levels
/// and the drawbars' names.
#[derive(Debug)]
pub struct HammondState {
    pub focus: (usize, usize),
    pub notes: Vec<Action>,
    pub eq: [Level; 9],
    pub names: Vec<String>,
}

/// The drawbar levels after an action: setting a drawbar by name.
pub open spec fn levels_after(eq: Seq<Level>, a: Action) -> Seq<Level> {
    match a {
        Action::SetParam(key, v) => match stop_index(key@) {
            Some(i) => eq.update(i, v),
            None => eq,
        },
        _ => eq,
    }
}

/// Applies an action to the organ's state.
pub fn reduce(state: HammondState, action: &Action) -> (r: HammondState)
    ensures
        r.focus == state.focus,
        r.names == state.names,
        r.notes@ == keys_after(state.notes@, *action),
        r.eq@ == levels_after(state.eq@, *action),
{
    let eq = match action {
        Action::SetParam(key, v) => match stop_of(key.as_str()) {
            Some(i) => set_level(state.eq, i, *v),
            None => state.eq,
        },
        _ => state.eq,
    };
    HammondState { focus: state.focus, notes: press(state.notes, action), eq, names: state.names }
}

/// The drawbar levels one step up and one step down, and the drawbars' names.
pub struct HammondKnobs<'a> {
    pub names: &'a Vec<String>,
    pub up: [Level; 9],
    pub down: [Level; 9],
}

impl<'a> FocusTransform<HammondCell> for HammondKnobs<'a> {
    /// A held drawbar control turns Up and Down into setting its drawbar a
    /// step up or down; anything else does nothing.
    open spec fn spec_transform(&self, kind: HammondCell, slot: Focus, id: ID, a: Action) -> Action {
        match hammond_stop(kind, slot) {
            Some(i) => match a {
                Action::Up => Action::SetParam(self.names@[i], self.up@[i]),
                Action::Down => Action::SetParam(self.names@[i], self.down@[i]),
                _ => Action::Noop,
            },
            None => Action::Noop,
        }
    }

    open spec fn transform_defined(&self, kind: HammondCell, slot: Focus, id: ID, a: Action) -> bool {
        self.names@.len() == 9
    }

    fn transform(&self, kind: &HammondCell, slot: Focus, id: ID, a: Action) -> (r: Action) {
        let stop: Option<usize> = match kind {
            HammondCell::Low => match slot {
                Focus::Yellow => Some(0),
                Focus::Blue => Some(1),
                Focus::Pink => Some(2),
                Focus::Green => Some(3),
                _ => None,
            },
            HammondCell::High => match slot {
                Focus::Yellow => Some(4),
                Focus::Blue => Some(5),
                Focus::Pink => Some(6),
                Focus::Green => Some(7),
                Focus::Red => Some(8),
            },
        };
        match stop {
            Some(i) => match a {
                Action::Up => Action::SetParam(self.names[i].clone(), self.up[i]),
                Action::Down => Action::SetParam(self.names[i].clone(), self.down[i]),
                _ => Action::Noop,
            },
            None => Action::Noop,
        }
    }
}

/// The organ's focus grid: one row of two cells.
pub open spec fn hammond_grid(g: Seq<Seq<MultiFocus<HammondCell>>>) -> bool {
    let b = ID(FocusType::Button, 0);
    let v = ID(FocusType::Void, 0);
    &&& g.len() == 1
    &&& g[0].len() == 2
    &&& g[0][0] == MultiFocus { kind: HammondCell::Low, w_id: v, r_id: v, g_id: b, y_id: b, p_id: b, b_id: b, active: None }
    &&& g[0][1] == MultiFocus { kind: HammondCell::High, w_id: v, r_id: b, g_id: b, y_id: b, p_id: b, b_id: b, active: None }
}

/// The tonewheel organ.
#[derive(Debug)]
pub struct Hammond {
    pub x: u16,
    pub y: u16,
    pub width: u16,
    pub height: u16,
    pub state: HammondState,
    pub focii: Vec<Vec<MultiFocus<HammondCell>>>,
}

/// Where the organ goes in a window: centred, at the bottom, or at the
/// window's corner when the window is too small.
pub open spec fn hammond_x(x: u16, width: u16) -> int {
    x + if 70 > width { 0 } else { width / 2 - 35 }
}

pub open spec fn hammond_y(y: u16, height: u16) -> int {
    y + if 30 > height { 0 } else { height - 30 }
}

/// The drawbar levels a module element gives: for each drawbar, what
/// `level` made of its parameter's value, or `default` without one.
pub open spec fn levels_read<G: Fn(&String) -> Option<Level>>(
    params: Seq<(String, String)>, level: G, default: Level, eq: Seq<Level>,
) -> bool {
    &&& eq.len() == 9
    &&& forall|i: int| 0 <= i < 9 ==> match lookup_index(params, stop_name(i)) {
        Some(j) => level.ensures((&params[j].1,), Some(#[trigger] eq[i])),
        None => eq[i] == default,
    }
}

/// The organ can handle the action: the focus moves within the grid.
pub open spec fn hammond_dispatch_defined(h: Hammond, a: Action) -> bool {
    let f = h.state.focus;
    let g = grid(h.focii);
    let k = HammondKnobs { names: &h.state.names, up: h.state.eq, down: h.state.eq };
    &&& h.state.names@.len() == 9
    &&& in_grid(f, g) ==> shift_defined(f, grid_after(f, g, a), spec_cell_transform(g[f.1 as int][f.0 as int], a, k))
}

/// The drawbar levels `step` makes one step up and one step down.
pub open spec fn knobs_from<S: Fn(Level, bool) -> Level>(eq: Seq<Level>, step: S, up: [Level; 9], down: [Level; 9]) -> bool {
    &&& forall|i: int| 0 <= i < 9 ==> step.ensures((eq[i], true), #[trigger] up@[i])
    &&& forall|i: int| 0 <= i < 9 ==> step.ensures((eq[i], false), #[trigger] down@[i])
}

/// What the organ does with an action, given the levels a step up and
/// down: the focused cell transforms it; anything but a focus move is
/// applied to the state and handed back when it is Left, Up, Down or a
/// drawbar setting; Route is answered with the organ's anchors.
pub open spec fn hammond_outcome<S: Fn(Level, bool) -> Level>(
    h: Hammond, action: Action, step: S, up: [Level; 9], down: [Level; 9], s: HammondState, r: Action,
) -> bool {
    let s0 = h.state;
    let k = HammondKnobs { names: &s0.names, up, down };
    let o = spec_focus_dispatch(s0.focus, grid(h.focii), k, action);
    &&& knobs_from(s0.eq@, step, up, down)
    &&& s.focus == o.0
    &&& match o.1 {
        None => {
            &&& r is Noop
            &&& s.notes == s0.notes
            &&& s.eq == s0.eq
        },
        Some(d) => {
            &&& s.notes@ == keys_after(s0.notes@, d)
            &&& s.eq@ == levels_after(s0.eq@, d)
            &&& match d {
                Action::Route => r matches Action::ShowAnchors(v) && organ_anchors(v@),
                Action::Left | Action::Up | Action::Down | Action::SetParam(_, _) => r == d,
                _ => r is Noop,
            }
        },
    }
}

impl Hammond {
    /// The organ for a module element: each drawbar's level is what `level`
    /// makes of its parameter, `default` for a drawbar without one. `None`
    /// when a parameter is malformed or `level` cannot read one.
    pub fn new<G: Fn(&String) -> Option<Level>>(
        x: u16, y: u16, width: u16, height: u16, doc: XmlElement, level: &G, default: Level,
    ) -> (r: Option<Self>)
        requires
            hammond_x(x, width) <= u16::MAX,
            hammond_y(y, height) <= u16::MAX,
            forall|t: &String| level.requires((t,)),
        ensures
            pairs_of(named(doc.children@, "param"@)) is None ==> r is None,
            pairs_of(named(doc.children@, "param"@)) is Some
                && (forall|t: &String, v: Option<Level>| level.ensures((t,), v) ==> v is Some) ==> r is Some,
            r matches Some(h) ==> {
                &&& h.x == hammond_x(x, width)
                &&& h.y == hammond_y(y, height)
                &&& h.width == width && h.height == height
                &&& levels_read(pairs_of(named(doc.children@, "param"@)).unwrap(), *level, default, h.state.eq@)
                &&& h.state.notes@.len() == 0
                &&& h.state.focus == (0usize, 0usize)
                &&& names_ok(h.state.names@)
                &&& hammond_grid(grid(h.focii))
            },
    {
        let params = match param_map(doc) {
            Some((_, p)) => p,
            None => return None,
        };
        let names = stop_names();
        let mut levels: Vec<Level> = Vec::new();
        for i in 0..9
            invariant
                names_ok(names@),
                levels@.len() == i,
                forall|t: &String| level.requires((t,)),
                forall|j: int| 0 <= j < i ==> match lookup_index(params@, stop_name(j)) {
                    Some(t) => level.ensures((&params@[t].1,), Some(#[trigger] levels@[j])),
                    None => levels@[j] == default,
                },
        {
            proof { lemma_lookup_index(params@, stop_name(i as int)); }
            assert(names@[i as int]@ == stop_name(i as int));
            let found = last_index(&params, names[i].as_str());
            assert(found == match lookup_index(params@, stop_name(i as int)) {
                Some(t) => Some(t as usize),
                None => None::<usize>,
            });
            let v = match found {
                Some(t) => match level(&params[t].1) {
                    Some(v) => {
                        assert(level.ensures((&params@[t as int].1,), Some(v)));
                        v
                    },
                    None => return None,
                },
                None => default,
            };
            let ghost before = levels@;
            levels.push(v);
            assert(forall|j: int| 0 <= j < i ==> levels@[j] == before[j]);
            assert(levels@[i as int] == v);
        }
        let eq: [Level; 9] = [levels[0], levels[1], levels[2], levels[3], levels[4], levels[5], levels[6], levels[7], levels[8]];
        assert(eq@ =~= levels@);
        let b = ID(FocusType::Button, 0);
        let v = ID(FocusType::Void, 0);
        let mut row: Vec<MultiFocus<HammondCell>> = Vec::new();
        row.push(MultiFocus { kind: HammondCell::Low, w_id: v, r_id: v, g_id: b, y_id: b, p_id: b, b_id: b, active: None });
        row.push(MultiFocus { kind: HammondCell::High, w_id: v, r_id: b, g_id: b, y_id: b, p_id: b, b_id: b, active: None });
        let mut focii: Vec<Vec<MultiFocus<HammondCell>>> = Vec::new();
        focii.push(row);
        Some(Hammond {
            x: x + if 70 > width { 0 } else { width / 2 - 35 },
            y: y + if 30 > height { 0 } else { height - 30 },
            width,
            height,
            state: HammondState { focus: (0, 0), notes: Vec::new(), eq, names },
            focii,
        })
    }
    /// Runs an action through the focused drawbar cell: a held drawbar
    /// control turns Up and Down into setting its drawbar to what `step`
    /// makes of its level (`true` for up). What comes out (unless it is an
    /// arrow the grid moves the focus with) is applied to the state and
    /// handed back when it is Left, Up, Down or a drawbar setting; asked for
    /// its anchors the organ offers its speaker and MIDI input.
    pub fn dispatch<S: Fn(Level, bool) -> Level>(&mut self, action: Action, step: &S) -> (r: Action)
        requires
            hammond_dispatch_defined(*old(self), action),
            forall|v: Level, up: bool| step.requires((v, up)),
        ensures
            final(self).x == old(self).x && final(self).y == old(self).y,
            final(self).width == old(self).width && final(self).height == old(self).height,
            grid(final(self).focii) == grid_after(old(self).state.focus, grid(old(self).focii), action),
            final(self).state.names == old(self).state.names,
            exists|up: [Level; 9], down: [Level; 9]| #[trigger] hammond_outcome(*old(self), action, *step, up, down,
                final(self).state, r),
    {
        let e = self.state.eq;
        let up: [Level; 9] = [step(e[0], true), step(e[1], true), step(e[2], true), step(e[3], true),
            step(e[4], true), step(e[5], true), step(e[6], true), step(e[7], true), step(e[8], true)];
        let down: [Level; 9] = [step(e[0], false), step(e[1], false), step(e[2], false), step(e[3], false),
            step(e[4], false), step(e[5], false), step(e[6], false), step(e[7], false), step(e[8], false)];
        let (focus, default) = {
            let knobs = HammondKnobs { names: &self.state.names, up, down };
            focus_dispatch(self.state.focus, &mut self.focii, &knobs, action)
        };
        self.state.focus = focus;
        let r = match default {
            Some(d) => {
                let mut state = HammondState { focus: (0, 0), notes: Vec::new(), eq: self.state.eq, names: Vec::new() };
                std::mem::swap(&mut state, &mut self.state);
                self.state = reduce(state, &d);
                match d {
                    Action::Route => Action::ShowAnchors(organ_anchor_list()),
                    Action::Left => Action::Left,
                    Action::Up => Action::Up,
                    Action::Down => Action::Down,
                    Action::SetParam(k, v) => Action::SetParam(k, v),
                    _ => Action::Noop,
                }
            },
            None => Action::Noop,
        };
        assert(hammond_outcome(*old(self), action, *step, up, down, self.state, r));
        r
    }

    /// Whether `dispatch` can take this action: the drawbars are named, and
    /// the focus does not move into an empty row.
    pub fn can_dispatch(&self, action: &Action) -> (r: bool)
        ensures
            r == hammond_dispatch_defined(*self, *action),
    {
        if self.state.names.len() != 9 {
            return false;
        }
        let f = self.state.focus;
        if f.1 >= self.focii.len() || f.0 >= self.focii[f.1].len() {
            return true;
        }
        let knobs = HammondKnobs { names: &self.state.names, up: self.state.eq, down: self.state.eq };
        shift_ready(f, &self.focii, &knobs, action)
    }

    /// The organ as a module element: a parameter per drawbar, in order,
    /// named after its footage, its level written by `text`.
    pub fn save<H: Fn(Level) -> String>(&self, text: &H) -> (r: XmlElement)
        requires
            forall|v: Level| text.requires((v,)),
        ensures
            r.name@ == "hammond"@,
            r.attributes@.len() == 0,
            r.text is None,
            r.children@.len() == 9,
            forall|i: int| 0 <= i < 9 ==> param_element(#[trigger] r.children@[i], stop_name(i), r.children@[i].attributes@[1].1@)
                && text.ensures((self.state.eq@[i],), r.children@[i].attributes@[1].1),
    {
        let names = stop_names();
        let mut root = XmlElement { name: owned("hammond"), attributes: Vec::new(), children: Vec::new(), text: None };
        for i in 0..9
            invariant
                names_ok(names@),
                forall|v: Level| text.requires((v,)),
                root.name@ == "hammond"@,
                root.attributes@.len() == 0,
                root.text is None,
                root.children@.len() == i,
                forall|j: int| 0 <= j < i ==> param_element(#[trigger] root.children@[j], stop_name(j), root.children@[j].attributes@[1].1@)
                    && text.ensures((self.state.eq@[j],), root.children@[j].attributes@[1].1),
        {
            let value = text(self.state.eq[i]);
            let ghost before = root.children@;
            assert(forall|j: int| 0 <= j < i ==> param_element(#[trigger] before[j], stop_name(j), before[j].attributes@[1].1@)
                && text.ensures((self.state.eq@[j],), before[j].attributes@[1].1));
            param_add(&mut root, value, names[i].as_str());
            assert forall|j: int| 0 <= j < i implies param_element(#[trigger] root.children@[j], stop_name(j), root.children@[j].attributes@[1].1@)
                && text.ensures((self.state.eq@[j],), root.children@[j].attributes@[1].1) by {
                assert(root.children@.drop_last()[j] == root.children@[j]);
                assert(root.children@[j] == before[j]);
            }
            assert(root.children@[i as int] == root.children@.last());
            assert(names@[i as int]@ == stop_name(i as int));
            assert(text.ensures((self.state.eq@[i as int],), root.children@[i as int].attributes@[1].1));
        }
        root
    }

    /// The organ hides what is under it.
    pub fn alpha(&self) -> (r: bool)
        ensures
            !r,
    {
        false
    }
}

/// The pairs read from parameter elements: each one's name and value text.
proof fn lemma_param_pairs(ch: Seq<XmlElement>)
    requires
        forall|i: int| 0 <= i < ch.len() ==> param_element(#[trigger] ch[i], ch[i].attributes@[0].1@, ch[i].attributes@[1].1@),
    ensures
        pairs_of(ch) == Some(Seq::new(ch.len(), |i: int| (ch[i].attributes@[0].1, ch[i].attributes@[1].1))),
    decreases ch.len(),
{
    reveal_strlit("name");
    reveal_strlit("value");
    if ch.len() > 0 {
        lemma_param_pairs(ch.drop_last());
        let e = ch.last();
        assert(param_element(ch[ch.len() - 1], e.attributes@[0].1@, e.attributes@[1].1@));
        assert("name"@ != "value"@) by { assert("name"@.len() != "value"@.len()); }
        assert(e.attributes@.drop_first()[0] == e.attributes@[1]);
        assert(attr_value(e.attributes@.drop_first(), "value"@) == Some(e.attributes@[1].1));
        assert(Seq::new((ch.len() - 1) as nat, |i: int| (ch.drop_last()[i].attributes@[0].1, ch.drop_last()[i].attributes@[1].1))
            .push((e.attributes@[0].1, e.attributes@[1].1))
            =~= Seq::new(ch.len(), |i: int| (ch[i].attributes@[0].1, ch[i].attributes@[1].1)));
    }
}

/// The last pair with a name is the one at `i` when no later pair has it.
proof fn lemma_lookup_last<V>(pairs: Seq<(String, V)>, name: Seq<char>, i: int)
    requires
        0 <= i < pairs.len(),
        pairs[i].0@ == name,
        forall|j: int| i < j < pairs.len() ==> (#[trigger] pairs[j]).0@ != name,
    ensures
        lookup_index(pairs, name) == Some(i),
    decreases pairs.len(),
{
    if i < pairs.len() - 1 {
        assert(pairs[pairs.len() - 1].0@ != name);
        lemma_lookup_last(pairs.drop_last(), name, i);
    }
}

/// The nine drawbar names differ from one another.
proof fn lemma_stop_names_distinct(i: int, j: int)
    requires
        0 <= i < 9,
        0 <= j < 9,
        i != j,
    ensures
        stop_name(i) != stop_name(j),
{
    reveal_strlit("16");
    reveal_strlit("5.3");
    reveal_strlit("8");
    reveal_strlit("4");
    reveal_strlit("2.6");
    reveal_strlit("2");
    reveal_strlit("1.6");
    reveal_strlit("1.3");
    reveal_strlit("1");
    let a = stop_name(i);
    let b = stop_name(j);
    if a.len() == b.len() {
        assert(a[0] != b[0] || a[a.len() - 1] != b[b.len() - 1]);
    }
}

/// Saving the organ and building it again from what was saved gives back
/// every drawbar's level, when `level` reads back exactly what `text`
/// wrote: `doc` is what `h0.save(text)` returns, the saved parameters are
/// read without fault, and an organ `r` that `Hammond::new` builds from
/// `doc` has the levels of `h0`.
pub proof fn law_hammond_levels_read_back<G: Fn(&String) -> Option<Level>, H: Fn(Level) -> String>(
    h0: Hammond, doc: XmlElement, text: H, level: G, default: Level, r: Hammond,
)
    requires
        doc.children@.len() == 9,
        forall|i: int| 0 <= i < 9 ==> param_element(#[trigger] doc.children@[i], stop_name(i), doc.children@[i].attributes@[1].1@)
            && text.ensures((h0.state.eq@[i],), doc.children@[i].attributes@[1].1),
        forall|v: Level, t: String, o: Option<Level>| #[trigger] text.ensures((v,), t) && #[trigger] level.ensures((&t,), o) ==> o == Some(v),
        pairs_of(named(doc.children@, "param"@)) is Some ==>
            levels_read(pairs_of(named(doc.children@, "param"@)).unwrap(), level, default, r.state.eq@),
    ensures
        pairs_of(named(doc.children@, "param"@)) is Some,
        r.state.eq == h0.state.eq,
{
    reveal_strlit("param");
    let ch = doc.children@;
    assert("param"@ != "mark"@) by { reveal_strlit("mark"); assert("param"@.len() != "mark"@.len()); }
    lemma_all_named(ch, "param"@, "mark"@);
    assert forall|i: int| 0 <= i < ch.len() implies param_element(#[trigger] ch[i], ch[i].attributes@[0].1@, ch[i].attributes@[1].1@) by {
        assert(param_element(ch[i], stop_name(i), ch[i].attributes@[1].1@));
    }
    lemma_param_pairs(ch);
    let pairs = pairs_of(named(ch, "param"@)).unwrap();
    let eq = h0.state.eq@;
    let read = r.state.eq@;
    assert forall|i: int| 0 <= i < 9 implies read[i] == eq[i] by {
        assert(param_element(ch[i], stop_name(i), ch[i].attributes@[1].1@));
        assert forall|j: int| i < j < pairs.len() implies (#[trigger] pairs[j]).0@ != stop_name(i) by {
            assert(param_element(ch[j], stop_name(j), ch[j].attributes@[1].1@));
            lemma_stop_names_distinct(i, j);
        }
        lemma_lookup_last(pairs, stop_name(i), i);
        assert(level.ensures((&pairs[i].1,), Some(read[i])));
        assert(text.ensures((eq[i],), pairs[i].1));
    }
    assert(read =~= eq);
    assert(r.state.eq == h0.state.eq);
}

} // verus!
