//! The arpeggiator: a note length and one of three patterns.

use vstd::prelude::*;
use crate::action::{Action, Anchor, Level};
use crate::document::{XmlElement, named};
use crate::focus::{FocusTransform, FocusType, Focus, ID, MultiFocus, focus_dispatch, grid, in_grid, held_after,
    spec_focus_dispatch, grid_after, spec_cell_transform};
use crate::modules::{param_map, pairs_of, param_add, param_element};
use crate::modules::timeline::{last_index, lookup_index, lemma_lookup_index};
use crate::text::{owned, str_eq, u32_to_string, usize_to_string, decimal};

verus! {

/// Number of arpeggio patterns.
pub const NUM_PATTERNS: usize = 3;

/// The levels 0, 1, 2 and 4 (IEEE-754 single precision).
pub open spec fn small_level(n: int) -> Level {
    if n == 0 { Level { bits: 0 } } else if n == 1 { Level { bits: 0x3f80_0000 } }
    else if n == 2 { Level { bits: 0x4000_0000 } } else { Level { bits: 0x4080_0000 } }
}

/// The pattern number as a level (patterns are 0, 1 or 2).
fn pattern_level(n: usize) -> (r: Level)
    requires
        n < 3,
    ensures
        r == small_level(n as int),
{
    if n == 0 { Level { bits: 0 } } else if n == 1 { Level { bits: 0x3f80_0000 } } else { Level { bits: 0x4000_0000 } }
}

/// The arpeggiator's state: the note length and the pattern.
#[derive(Clone, Copy, Debug, PartialEq, Eq, Structural)]
pub struct ArpeggioState {
    pub length: Level,
    pub pattern: usize,
}

/// Applies an action: "length" and "pattern" settings, the pattern read
/// by `index_of`.
pub fn reduce<I: Fn(Level) -> usize>(state: ArpeggioState, action: &Action, index_of: &I) -> (r: ArpeggioState)
    requires
        forall|v: Level| index_of.requires((v,)),
    ensures
        match *action {
            Action::SetParam(k, v) => if k@ == "length"@ {
                r == ArpeggioState { length: v, ..state }
            } else if k@ == "pattern"@ {
                r.length == state.length && index_of.ensures((v,), r.pattern)
            } else {
                r == state
            },
            _ => r == state,
        },
{
    match action {
        Action::SetParam(k, v) => {
            if str_eq(k.as_str(), "length") {
                ArpeggioState { length: *v, pattern: state.pattern }
            } else if str_eq(k.as_str(), "pattern") {
                ArpeggioState { length: state.length, pattern: index_of(*v) }
            } else {
                state
            }
        },
        _ => state,
    }
}

/// The arpeggiator's one focus cell.
#[derive(Clone, Copy, Debug, PartialEq, Eq, Structural)]
pub struct ArpeggioCell;

/// The note length a step longer and a step shorter, the pattern, and
/// the names of the two settings.
pub struct ArpeggioKnobs {
    pub longer: Level,
    pub shorter: Level,
    pub pattern: usize,
    pub length_key: String,
    pub pattern_key: String,
}

impl FocusTransform<ArpeggioCell> for ArpeggioKnobs {
    /// Red: Up and Down set the length a step longer or shorter. Blue: its
    /// key moves to the next pattern. Anything else does nothing.
    open spec fn spec_transform(&self, kind: ArpeggioCell, slot: Focus, id: ID, a: Action) -> Action {
        match slot {
            Focus::Red => match a {
                Action::Up => Action::SetParam(self.length_key, self.longer),
                Action::Down => Action::SetParam(self.length_key, self.shorter),
                _ => Action::Noop,
            },
            Focus::Blue => match a {
                Action::SelectB => Action::SetParam(self.pattern_key, small_level(((self.pattern + 1) % 3) as int)),
                _ => Action::Noop,
            },
            _ => Action::Noop,
        }
    }

    open spec fn transform_defined(&self, kind: ArpeggioCell, slot: Focus, id: ID, a: Action) -> bool {
        slot == Focus::Blue && a is SelectB ==> self.pattern < usize::MAX
    }

    fn transform(&self, kind: &ArpeggioCell, slot: Focus, id: ID, a: Action) -> (r: Action) {
        match slot {
            Focus::Red => match a {
                Action::Up => Action::SetParam(self.length_key.clone(), self.longer),
                Action::Down => Action::SetParam(self.length_key.clone(), self.shorter),
                _ => Action::Noop,
            },
            Focus::Blue => match a {
                Action::SelectB => Action::SetParam(self.pattern_key.clone(), pattern_level((self.pattern + 1) % 3)),
                _ => Action::Noop,
            },
            _ => Action::Noop,
        }
    }
}

/// The arpeggiator's cell: red sets the length, blue the pattern, white is the title.
pub open spec fn arpeggio_cell(active: Option<Focus>) -> MultiFocus<ArpeggioCell> {
    MultiFocus {
        kind: ArpeggioCell,
        w_id: ID(FocusType::Button, 0),
        r_id: ID(FocusType::Param, 0),
        g_id: ID(FocusType::Void, 0),
        p_id: ID(FocusType::Void, 0),
        y_id: ID(FocusType::Void, 0),
        b_id: ID(FocusType::Param, 0),
        active,
    }
}

/// The arpeggiator's grid: its one cell, with whichever control held.
pub open spec fn arpeggio_grid(g: Seq<Seq<MultiFocus<ArpeggioCell>>>) -> bool {
    g.len() == 1 && g[0].len() == 1 && g[0][0] == arpeggio_cell(g[0][0].active)
}

/// The arpeggiator.
#[derive(Debug)]
pub struct Arpeggio {
    pub x: u16,
    pub y: u16,
    pub width: u16,
    pub height: u16,
    pub state: ArpeggioState,
    pub focii: Vec<Vec<MultiFocus<ArpeggioCell>>>,
}

/// The arpeggiator's MIDI output and input.
pub open spec fn arpeggio_anchors(v: Seq<Anchor>) -> bool {
    &&& v.len() == 2
    &&& v[0].index == 0 && v[0].module_id == 0 && v[0].name@ == "MIDI Out"@ && !v[0].input
    &&& v[1].index == 1 && v[1].module_id == 0 && v[1].name@ == "MIDI In"@ && v[1].input
}

/// The state and answer when nothing changes but what an action handed
/// through untouched does.
pub open spec fn passed_through<I: Fn(Level) -> usize>(
    s0: ArpeggioState, action: Action, index_of: I, s: ArpeggioState, r: Action,
) -> bool {
    match action {
        Action::SetParam(k, v) => {
            &&& r == action
            &&& if k@ == "length"@ {
                s == ArpeggioState { length: v, ..s0 }
            } else if k@ == "pattern"@ {
                s.length == s0.length && index_of.ensures((v,), s.pattern)
            } else {
                s == s0
            }
        },
        Action::Route => s == s0 && (r matches Action::ShowAnchors(v) && arpeggio_anchors(v@)),
        Action::Left | Action::Up | Action::Down => s == s0 && r == action,
        _ => s == s0 && r is Noop,
    }
}

impl Arpeggio {
    /// The arpeggiator for a module element: the length is what `level`
    /// makes of the "length" parameter (4 without one), the pattern what
    /// `index_of` makes of the level of the "pattern" parameter (0 without
    /// one). `None` when a parameter is malformed or `level` cannot read one.
    pub fn new<G: Fn(&String) -> Option<Level>, I: Fn(Level) -> usize>(
        x: u16, y: u16, width: u16, height: u16, doc: XmlElement, level: &G, index_of: &I,
    ) -> (r: Option<Self>)
        requires
            forall|t: &String| level.requires((t,)),
            forall|v: Level| index_of.requires((v,)),
        ensures
            pairs_of(named(doc.children@, "param"@)) is None ==> r is None,
            pairs_of(named(doc.children@, "param"@)) is Some
                && (forall|t: &String, v: Option<Level>| (*level).ensures((t,), v) ==> v is Some) ==> r is Some,
            r matches Some(a) ==> {
                let params = pairs_of(named(doc.children@, "param"@)).unwrap();
                &&& a.x == x && a.y == y && a.width == width && a.height == height
                &&& match lookup_index(params, "length"@) {
                    Some(j) => (*level).ensures((&params[j].1,), Some(a.state.length)),
                    None => a.state.length == small_level(4),
                }
                &&& match lookup_index(params, "pattern"@) {
                    Some(j) => exists|v: Level| #[trigger] (*level).ensures((&params[j].1,), Some(v))
                        && (*index_of).ensures((v,), a.state.pattern),
                    None => a.state.pattern == 0,
                }
                &&& arpeggio_grid(grid(a.focii)) && grid(a.focii)[0][0].active is None
            },
    {
        let params = match param_map(doc) {
            Some((_, p)) => p,
            None => return None,
        };
        proof {
            lemma_lookup_index(params@, "length"@);
            lemma_lookup_index(params@, "pattern"@);
        }
        let length = match last_index(&params, "length") {
            Some(j) => match level(&params[j].1) {
                Some(v) => v,
                None => return None,
            },
            None => Level { bits: 0x4080_0000 },
        };
        let pattern = match last_index(&params, "pattern") {
            Some(j) => match level(&params[j].1) {
                Some(v) => {
                    let p = index_of(v);
                    assert((*level).ensures((&params@[j as int].1,), Some(v)) && (*index_of).ensures((v,), p));
                    p
                },
                None => return None,
            },
            None => 0,
        };
        let cell = MultiFocus {
            kind: ArpeggioCell,
            w_id: ID(FocusType::Button, 0),
            r_id: ID(FocusType::Param, 0),
            g_id: ID(FocusType::Void, 0),
            p_id: ID(FocusType::Void, 0),
            y_id: ID(FocusType::Void, 0),
            b_id: ID(FocusType::Param, 0),
            active: None,
        };
        let mut row: Vec<MultiFocus<ArpeggioCell>> = Vec::new();
        row.push(cell);
        let mut focii: Vec<Vec<MultiFocus<ArpeggioCell>>> = Vec::new();
        focii.push(row);
        assert(grid(focii)[0] =~= seq![cell]);
        Some(Arpeggio { x, y, width, height, state: ArpeggioState { length, pattern }, focii })
    }

    /// Runs an action through the arpeggiator's cell. Held red turns Up and
    /// Down into a longer or shorter length (as `stretch` makes it from the
    /// length, `true` for longer); held blue turns its key into the next
    /// pattern. The resulting setting is applied and handed back; an action
    /// the cell hands through untouched is treated as `passed_through` says.
    pub fn dispatch<S: Fn(Level, bool) -> Level, I: Fn(Level) -> usize>(
        &mut self, action: Action, stretch: &S, index_of: &I,
    ) -> (r: Action)
        requires
            arpeggio_grid(grid(old(self).focii)),
            forall|v: Level, up: bool| stretch.requires((v, up)),
            forall|v: Level| index_of.requires((v,)),
            crate::focus::active_after(grid(old(self).focii)[0][0], action) == Some(Focus::Blue) && action is SelectB
                ==> old(self).state.pattern < usize::MAX,
        ensures
            final(self).x == old(self).x && final(self).y == old(self).y,
            final(self).width == old(self).width && final(self).height == old(self).height,
            grid(final(self).focii) == grid_after((0usize, 0usize), grid(old(self).focii), action),
            arpeggio_grid(grid(final(self).focii)),
            ({
                let s0 = old(self).state;
                let s = final(self).state;
                match crate::focus::active_after(grid(old(self).focii)[0][0], action) {
                    Some(Focus::Red) => match action {
                        Action::Up => (*stretch).ensures((s0.length, true), s.length) && s.pattern == s0.pattern
                            && (r matches Action::SetParam(k, v) && k@ == "length"@ && v == s.length),
                        Action::Down => (*stretch).ensures((s0.length, false), s.length) && s.pattern == s0.pattern
                            && (r matches Action::SetParam(k, v) && k@ == "length"@ && v == s.length),
                        _ => s == s0 && r is Noop,
                    },
                    Some(Focus::Blue) => if action is SelectB {
                        let v = small_level(((s0.pattern + 1) % 3) as int);
                        &&& s.length == s0.length
                        &&& (*index_of).ensures((v,), s.pattern)
                        &&& r matches Action::SetParam(k, w) && k@ == "pattern"@ && w == v
                    } else {
                        s == s0 && r is Noop
                    },
                    Some(_) => s == s0 && r is Noop,
                    None => passed_through(s0, action, *index_of, s, r),
                }
            }),
    {
        let longer = stretch(self.state.length, true);
        let shorter = stretch(self.state.length, false);
        let knobs = ArpeggioKnobs {
            longer,
            shorter,
            pattern: self.state.pattern,
            length_key: owned("length"),
            pattern_key: owned("pattern"),
        };
        let (_, default) = focus_dispatch((0, 0), &mut self.focii, &knobs, action);
        let d = match default {
            Some(d) => d,
            None => return Action::Noop,
        };
        let s0 = self.state;
        self.state = reduce(s0, &d, index_of);
        proof {
            reveal_strlit("length");
            reveal_strlit("pattern");
            assert("length"@.len() != "pattern"@.len());
        }
        match d {
            Action::Route => {
                let mut v: Vec<Anchor> = Vec::new();
                v.push(Anchor { index: 0, module_id: 0, name: owned("MIDI Out"), input: false });
                v.push(Anchor { index: 1, module_id: 0, name: owned("MIDI In"), input: true });
                assert(arpeggio_anchors(v@));
                let r = Action::ShowAnchors(v);
                r
            },
            Action::SetParam(k, v) => Action::SetParam(k, v),
            Action::Left => Action::Left,
            Action::Up => Action::Up,
            Action::Down => Action::Down,
            _ => Action::Noop,
        }
    }

    /// Whether `dispatch` can take this action: the grid is the
    /// arpeggiator's one cell, and a held blue control can step the pattern.
    pub fn can_dispatch(&self, action: &Action) -> (r: bool)
        ensures
            r == (arpeggio_grid(grid(self.focii)) && (crate::focus::active_after(grid(self.focii)[0][0], *action)
                == Some(Focus::Blue) && *action is SelectB ==> self.state.pattern < usize::MAX)),
    {
        if self.focii.len() != 1 || self.focii[0].len() != 1 {
            return false;
        }
        let ghost g = grid(self.focii);
        let cell = self.focii[0][0];
        assert(cell == g[0][0]);
        let shaped = cell.w_id == ID(FocusType::Button, 0) && cell.r_id == ID(FocusType::Param, 0)
            && cell.g_id == ID(FocusType::Void, 0) && cell.p_id == ID(FocusType::Void, 0)
            && cell.y_id == ID(FocusType::Void, 0) && cell.b_id == ID(FocusType::Param, 0);
        if !shaped {
            return false;
        }
        assert(cell.kind == ArpeggioCell);
        assert(cell.w_id == ID(FocusType::Button, 0));
        assert(cell == arpeggio_cell(cell.active));
        match (held_after(&cell, action), action) {
            (Some(Focus::Blue), Action::SelectB) => self.state.pattern < usize::MAX,
            _ => true,
        }
    }

    /// The arpeggiator as a module element: its note length, written by
    /// `text`, and its pattern number.
    pub fn save<H: Fn(Level) -> String>(&self, text: &H) -> (r: XmlElement)
        requires
            text.requires((self.state.length,)),
        ensures
            r.name@ == "arpeggio"@,
            r.attributes@.len() == 0,
            r.text is None,
            r.children@.len() == 2,
            param_element(r.children@[0], "length"@, r.children@[0].attributes@[1].1@),
            text.ensures((self.state.length,), r.children@[0].attributes@[1].1),
            param_element(r.children@[1], "pattern"@, decimal(self.state.pattern as nat)),
    {
        let mut root = XmlElement { name: owned("arpeggio"), attributes: Vec::new(), children: Vec::new(), text: None };
        let length = text(self.state.length);
        param_add(&mut root, length, "length");
        let ghost first = root.children@[0];
        param_add(&mut root, usize_to_string(self.state.pattern), "pattern");
        assert(root.children@[0] == first) by {
            assert(root.children@.drop_last()[0] == root.children@[0]);
        }
        root
    }

    /// The arpeggiator hides what is under it.
    pub fn alpha(&self) -> (r: bool)
        ensures
            !r,
    {
        false
    }
}

} // verus!
