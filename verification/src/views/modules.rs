//! The module picker: lists the modules that can be added to a project,
//! five to a focus cell, and adds the one tried out.

use vstd::prelude::*;
use crate::action::Action;
use crate::common::Window;
use crate::focus::{FocusTransform, FocusType, Focus, ID, MultiFocus, focus_dispatch, grid, in_grid, shift_ready,
    spec_focus_dispatch, grid_after, cell_transform_defined, spec_cell_transform, shift_defined};
use crate::text::{chars_of, owned, str_eq, string_of};

verus! {

/// The modules every installation has.
pub open spec fn core_modules() -> Seq<Seq<char>> {
    seq!["timeline"@, "hammond"@, "arpeggio"@, "keyboard"@]
}

/// Position of the first '.' in a name.
pub open spec fn dot_index(s: Seq<char>) -> Option<int>
    decreases s.len(),
{
    if s.len() == 0 {
        None
    } else {
        match dot_index(s.drop_last()) {
            Some(i) => Some(i),
            None => if s.last() == '.' { Some(s.len() - 1) } else { None },
        }
    }
}

/// The module a file name stands for: a name without a dot is a core
/// module; a Faust plugin's source, "name.dsp", is the plugin "name";
/// anything else (compiled plugins among them) is not listed.
pub open spec fn module_entry(s: Seq<char>) -> Option<Seq<char>> {
    match dot_index(s) {
        None => Some(s),
        Some(i) => {
            let rest = s.skip(i + 1);
            let part = match dot_index(rest) {
                Some(j) => rest.take(j),
                None => rest,
            };
            if part == "dsp"@ { Some(s.take(i)) } else { None }
        },
    }
}

/// The modules a list of names stands for, in order.
pub open spec fn module_list(names: Seq<Seq<char>>) -> Seq<Seq<char>>
    decreases names.len(),
{
    if names.len() == 0 {
        Seq::empty()
    } else {
        match module_entry(names.last()) {
            Some(m) => module_list(names.drop_last()).push(m),
            None => module_list(names.drop_last()),
        }
    }
}

proof fn lemma_dot_index(s: Seq<char>)
    ensures
        dot_index(s) matches Some(i) ==> 0 <= i < s.len() && s[i] == '.' && forall|j: int| 0 <= j < i ==> s[j] != '.',
        dot_index(s) is None ==> forall|j: int| 0 <= j < s.len() ==> s[j] != '.',
    decreases s.len(),
{
    if s.len() > 0 {
        lemma_dot_index(s.drop_last());
        assert forall|j: int| 0 <= j < s.len() - 1 implies s.drop_last()[j] == s[j] by {}
    }
}

proof fn lemma_dot_index_first(s: Seq<char>, i: int)
    requires
        0 <= i < s.len(),
        s[i] == '.',
        forall|j: int| 0 <= j < i ==> s[j] != '.',
    ensures
        dot_index(s) == Some(i),
    decreases s.len(),
{
    if i < s.len() - 1 {
        lemma_dot_index_first(s.drop_last(), i);
    } else {
        lemma_dot_index(s.drop_last());
    }
}

/// Position of the first '.' at or after `from`.
fn find_dot(cs: &Vec<char>, from: usize) -> (r: Option<usize>)
    requires
        from <= cs@.len(),
    ensures
        match dot_index(cs@.skip(from as int)) {
            Some(i) => r == Some((from + i) as usize),
            None => r is None,
        },
        r matches Some(i) ==> from <= i < cs@.len() && cs@[i as int] == '.',
        dot_index(cs@.skip(from as int)) matches Some(i) ==> 0 <= i < cs@.len() - from,
{
    let ghost t = cs@.skip(from as int);
    let mut i: usize = from;
    while i < cs.len()
        invariant
            from <= i <= cs@.len(),
            t == cs@.skip(from as int),
            forall|j: int| from <= j < i ==> cs@[j] != '.',
        decreases cs@.len() - i,
    {
        if cs[i] == '.' {
            proof { lemma_dot_index_first(t, i - from); lemma_dot_index(t); }
            return Some(i);
        }
        i = i + 1;
    }
    proof {
        lemma_dot_index(t);
        if dot_index(t) is Some {
            let k = dot_index(t).unwrap();
            assert(t[k] == cs@[from + k]);
        }
    }
    None
}

/// The module a file name stands for; see `module_entry`.
pub fn module_of(name: &String) -> (r: Option<String>)
    ensures
        match module_entry(name@) {
            Some(m) => r matches Some(s) && s@ == m,
            None => r is None,
        },
{
    let cs = chars_of(name.as_str());
    assert(cs@.skip(0) =~= cs@);
    match find_dot(&cs, 0) {
        None => {
            assert(module_entry(name@) == Some(name@));
            Some(name.clone())
        },
        Some(i) => {
            let n = cs.len();
            assert(i < n);
            assert(dot_index(name@) == Some(i as int));
            let ghost rest = cs@.skip(i + 1);
            let end = match find_dot(&cs, i + 1) {
                Some(j) => j,
                None => cs.len(),
            };
            proof {
                if dot_index(rest) is Some {
                    lemma_dot_index(rest);
                }
            }
            let mut part: Vec<char> = Vec::new();
            let mut k: usize = i + 1;
            while k < end
                invariant
                    i + 1 <= k <= end <= cs@.len(),
                    part@ == cs@.subrange(i + 1, k as int),
                decreases end - k,
            {
                part.push(cs[k]);
                assert(cs@.subrange(i + 1, k + 1) =~= cs@.subrange(i + 1, k as int).push(cs@[k as int]));
                k = k + 1;
            }
            assert(part@ =~= match dot_index(rest) { Some(j) => rest.take(j), None => rest });
            let p = string_of(&part);
            if str_eq(p.as_str(), "dsp") {
                let mut head: Vec<char> = Vec::new();
                let mut k: usize = 0;
                while k < i
                    invariant
                        k <= i < cs@.len(),
                        head@ == cs@.take(k as int),
                    decreases i - k,
                {
                    head.push(cs[k]);
                    assert(cs@.take(k + 1) =~= cs@.take(k as int).push(cs@[k as int]));
                    k = k + 1;
                }
                assert(module_entry(name@) == Some(head@));
                Some(string_of(&head))
            } else {
                assert(module_entry(name@) is None);
                None
            }
        },
    }
}

/// The names the picker lists: the core modules, then each file of the
/// modules folder that stands for a module.
pub fn module_names(files: &Vec<String>) -> (r: Vec<String>)
    ensures
        r@.map_values(|s: String| s@) == module_list(core_modules() + files@.map_values(|s: String| s@)),
{
    let mut all: Vec<String> = Vec::new();
    all.push(owned("timeline"));
    all.push(owned("hammond"));
    all.push(owned("arpeggio"));
    all.push(owned("keyboard"));
    for i in 0..files.len()
        invariant
            all@.len() == 4 + i,
            all@.map_values(|s: String| s@) == core_modules() + files@.take(i as int).map_values(|s: String| s@),
    {
        all.push(files[i].clone());
        assert(files@.take(i + 1).map_values(|s: String| s@) =~= files@.take(i as int).map_values(|s: String| s@).push(files@[i as int]@));
        assert(core_modules() + files@.take(i + 1).map_values(|s: String| s@) =~= (core_modules() + files@.take(i as int).map_values(|s: String| s@)).push(files@[i as int]@));
        assert(all@.map_values(|s: String| s@) =~= core_modules() + files@.take(i + 1).map_values(|s: String| s@));
    }
    assert(files@.take(files@.len() as int) =~= files@);
    let ghost names = all@.map_values(|s: String| s@);
    let mut r: Vec<String> = Vec::new();
    for i in 0..all.len()
        invariant
            names == all@.map_values(|s: String| s@),
            r@.map_values(|s: String| s@) == module_list(names.take(i as int)),
    {
        assert(names.take(i + 1).drop_last() =~= names.take(i as int));
        assert(names.take(i + 1).last() == all@[i as int]@);
        let ghost rv = r@.map_values(|s: String| s@);
        match module_of(&all[i]) {
            Some(m) => {
                r.push(m);
                assert(r@.map_values(|s: String| s@) =~= rv.push(module_entry(all@[i as int]@).unwrap()));
            },
            None => {},
        }
    }
    assert(names.take(names.len() as int) =~= names);
    r
}

/// A focus cell of the picker: up to five modules.
#[derive(Clone, Copy, Debug, PartialEq, Eq, Structural)]
pub struct ModuleCell;

/// The picker's state: the module names, the one being tried out and the focus.
#[derive(Debug)]
pub struct ModulesState {
    pub modules: Vec<String>,
    pub current: Option<usize>,
    pub focus: (usize, usize),
}

/// The module tried out after an action.
pub open spec fn current_after(c: Option<usize>, a: Action) -> Option<usize> {
    match a {
        Action::TryoutModule(id) => Some(id as usize),
        Action::Deselect => None,
        _ => c,
    }
}

/// Applies an action to the picker's state.
pub fn reduce(state: ModulesState, action: &Action) -> (r: ModulesState)
    ensures
        r.modules == state.modules,
        r.focus == state.focus,
        r.current == current_after(state.current, *action),
{
    let current = match action {
        Action::TryoutModule(id) => Some(*id as usize),
        Action::Deselect => None,
        _ => state.current,
    };
    ModulesState { modules: state.modules, current, focus: state.focus }
}

impl FocusTransform<ModuleCell> for ModulesState {
    /// A held module control turns any select key into trying its module
    /// out; other actions pass through.
    open spec fn spec_transform(&self, kind: ModuleCell, slot: Focus, id: ID, a: Action) -> Action {
        match a {
            Action::SelectR | Action::SelectG | Action::SelectP | Action::SelectY | Action::SelectB =>
                Action::TryoutModule(id.1),
            _ => a,
        }
    }

    open spec fn transform_defined(&self, kind: ModuleCell, slot: Focus, id: ID, a: Action) -> bool {
        true
    }

    fn transform(&self, kind: &ModuleCell, slot: Focus, id: ID, a: Action) -> (r: Action) {
        match a {
            Action::SelectR | Action::SelectG | Action::SelectP | Action::SelectY | Action::SelectB =>
                Action::TryoutModule(id.1),
            _ => a,
        }
    }
}

/// The control id of slot `j` of cell `k` among `n` modules.
pub open spec fn module_slot(n: int, k: int, j: int) -> ID {
    if 5 * k + j < n { ID(FocusType::Button, (5 * k + j) as u16) } else { ID(FocusType::Void, 0) }
}

/// Cell `k`: five modules in red, green, pink, yellow, blue order.
pub open spec fn module_cell(n: int, k: int) -> MultiFocus<ModuleCell> {
    MultiFocus {
        kind: ModuleCell,
        w_id: ID(FocusType::Void, 0),
        r_id: module_slot(n, k, 0),
        g_id: module_slot(n, k, 1),
        p_id: module_slot(n, k, 2),
        y_id: module_slot(n, k, 3),
        b_id: module_slot(n, k, 4),
        active: None,
    }
}

/// The picker grid for `n` modules: one cell per five, each on a row of its own.
pub open spec fn modules_grid(g: Seq<Seq<MultiFocus<ModuleCell>>>, n: int) -> bool {
    &&& g.len() == (n + 4) / 5
    &&& forall|k: int| 0 <= k < g.len() ==> #[trigger] g[k] == seq![module_cell(n, k)]
}

fn module_slot_id(n: usize, k: usize, j: usize) -> (r: ID)
    requires
        5 * k + j <= usize::MAX,
    ensures
        r == module_slot(n as int, k as int, j as int),
{
    if 5 * k + j < n { ID(FocusType::Button, (5 * k + j) as u16) } else { ID(FocusType::Void, 0) }
}

/// The picker grid for `n` modules; see `modules_grid`.
pub fn generate_focii(n: usize) -> (r: Vec<Vec<MultiFocus<ModuleCell>>>)
    ensures
        modules_grid(grid(r), n as int),
{
    let cells = n / 5 + if n % 5 > 0 { 1 } else { 0 };
    assert(cells == (n + 4) / 5);
    let mut focii: Vec<Vec<MultiFocus<ModuleCell>>> = Vec::new();
    for k in 0..cells
        invariant
            cells == (n + 4) / 5,
            focii@.len() == k,
            forall|m: int| 0 <= m < k ==> #[trigger] grid(focii)[m] == seq![module_cell(n as int, m)],
    {
        let cell = MultiFocus {
            kind: ModuleCell,
            w_id: ID(FocusType::Void, 0),
            r_id: module_slot_id(n, k, 0),
            g_id: module_slot_id(n, k, 1),
            p_id: module_slot_id(n, k, 2),
            y_id: module_slot_id(n, k, 3),
            b_id: module_slot_id(n, k, 4),
            active: None,
        };
        let mut row: Vec<MultiFocus<ModuleCell>> = Vec::new();
        row.push(cell);
        let ghost before = grid(focii);
        focii.push(row);
        proof {
            assert(grid(focii)[k as int] =~= seq![module_cell(n as int, k as int)]);
            assert forall|m: int| 0 <= m < k + 1 implies #[trigger] grid(focii)[m] == seq![module_cell(n as int, m)] by {
                if m < k {
                    assert(grid(focii)[m] == before[m]);
                }
            }
        }
    }
    focii
}

/// The module picker.
#[derive(Debug)]
pub struct Modules {
    pub window: Window,
    pub state: ModulesState,
    pub focii: Vec<Vec<MultiFocus<ModuleCell>>>,
}

/// The picker can handle the action: the focus moves within the grid and
/// the module tried out is one of the list.
pub open spec fn modules_dispatch_defined(m: Modules, a: Action) -> bool {
    let f = m.state.focus;
    let g = grid(m.focii);
    let o = spec_focus_dispatch(f, g, m.state, a);
    &&& in_grid(f, g) ==> shift_defined(f, grid_after(f, g, a), spec_cell_transform(g[f.1 as int][f.0 as int], a, m.state))
    &&& (o.1 matches Some(d) && d is Deselect && m.state.current is Some ==> m.state.current.unwrap() < m.state.modules@.len())
}

impl Modules {
    /// The picker over this window, listing the core modules and the
    /// modules folder's files that stand for modules.
    pub fn new(x: u16, y: u16, width: u16, height: u16, files: &Vec<String>) -> (r: Self)
        ensures
            r.window == (Window { x, y, w: width, h: height }),
            r.state.modules@.map_values(|s: String| s@) == module_list(core_modules() + files@.map_values(|s: String| s@)),
            r.state.current is None,
            r.state.focus == (0usize, 0usize),
            modules_grid(grid(r.focii), r.state.modules@.len() as int),
    {
        let modules = module_names(files);
        let focii = generate_focii(modules.len());
        Modules { window: Window { x, y, w: width, h: height }, state: ModulesState { modules, current: None, focus: (0, 0) }, focii }
    }

    /// Runs an action through the focused cell: a select key on a module
    /// tries it out; releasing the keys adds the module tried out (or
    /// cancels when there is none); Back cancels.
    pub fn dispatch(&mut self, action: Action) -> (r: Action)
        requires
            modules_dispatch_defined(*old(self), action),
        ensures
            ({
                let s0 = old(self).state;
                let o = spec_focus_dispatch(s0.focus, grid(old(self).focii), s0, action);
                &&& final(self).window == old(self).window
                &&& grid(final(self).focii) == grid_after(s0.focus, grid(old(self).focii), action)
                &&& final(self).state.focus == o.0
                &&& final(self).state.modules == s0.modules
                &&& match o.1 {
                    None => r is Noop && final(self).state.current == s0.current,
                    Some(d) => {
                        &&& final(self).state.current == current_after(s0.current, d)
                        &&& match d {
                            Action::Deselect => match s0.current {
                                Some(i) => r matches Action::AddModule(z, m) && z == 0 && m == s0.modules@[i as int],
                                None => r is Cancel,
                            },
                            Action::Back => r is Cancel,
                            _ => r is Noop,
                        }
                    },
                }
            }),
    {
        let (focus, default) = focus_dispatch(self.state.focus, &mut self.focii, &self.state, action);
        self.state.focus = focus;
        match default {
            Some(d) => {
                let current = self.state.current;
                let mut state = ModulesState { modules: Vec::new(), current: None, focus: (0, 0) };
                std::mem::swap(&mut state, &mut self.state);
                self.state = reduce(state, &d);
                match d {
                    Action::Deselect => match current {
                        Some(i) => Action::AddModule(0, self.state.modules[i].clone()),
                        None => Action::Cancel,
                    },
                    Action::Back => Action::Cancel,
                    _ => Action::Noop,
                }
            },
            None => Action::Noop,
        }
    }

    /// Whether `dispatch` can take this action: the focus does not move into
    /// an empty row, and releasing the keys leaves a module that is listed.
    pub fn can_dispatch(&self, action: &Action) -> (r: bool)
        ensures
            r == modules_dispatch_defined(*self, *action),
    {
        let f = self.state.focus;
        let release_ok = match action {
            Action::Deselect => match self.state.current {
                Some(c) => c < self.state.modules.len(),
                None => true,
            },
            _ => true,
        };
        if f.1 >= self.focii.len() || f.0 >= self.focii[f.1].len() {
            return release_ok;
        }
        let ghost g = grid(self.focii);
        assert(self.focii[f.1 as int][f.0 as int] == g[f.1 as int][f.0 as int]);
        release_ok && shift_ready(f, &self.focii, &self.state, action)
    }

    /// The picker lets what is under it show.
    pub fn alpha(&self) -> (r: bool)
        ensures
            r,
    {
        true
    }
}

} // verus!
