//! The project overview: the project's title and its modules, one per row;
//! red deletes the focused module.

use vstd::prelude::*;
use crate::action::{Action, Module};
use crate::common::Window;
use crate::focus::{FocusTransform, FocusType, Focus, ID, MultiFocus, focus_dispatch, grid, in_grid, held_after, shift_ready,
    spec_focus_dispatch, grid_after, spec_cell_transform, shift_defined};
use crate::text::owned;

verus! {

/// A focus cell of the overview: one module.
#[derive(Clone, Copy, Debug, PartialEq, Eq, Structural)]
pub struct ModuleRow;

/// The overview's state: the title, the modules and the focus.
#[derive(Debug)]
pub struct ProjectState {
    pub title: String,
    pub modules: Vec<Module>,
    pub focus: (usize, usize),
}

/// Applies an action: a project's title and modules replace the shown ones.
pub fn reduce(state: ProjectState, action: Action) -> (r: ProjectState)
    ensures
        r.focus == state.focus,
        match action {
            Action::ShowProject(t, m) => r.title == t && r.modules == m,
            _ => r.title == state.title && r.modules == state.modules,
        },
{
    match action {
        Action::ShowProject(title, modules) => ProjectState { title, modules, focus: state.focus },
        _ => state,
    }
}

impl FocusTransform<ModuleRow> for ProjectState {
    /// The red control of a module row turns any select key into deleting
    /// the module shown at that row; the other controls do nothing.
    open spec fn spec_transform(&self, kind: ModuleRow, slot: Focus, id: ID, a: Action) -> Action {
        if slot == Focus::Red {
            match a {
                Action::SelectR | Action::SelectG | Action::SelectP | Action::SelectY | Action::SelectB =>
                    Action::DelModule(self.modules@[id.1 as int].id),
                _ => Action::Noop,
            }
        } else {
            Action::Noop
        }
    }

    open spec fn transform_defined(&self, kind: ModuleRow, slot: Focus, id: ID, a: Action) -> bool {
        slot == Focus::Red && (a is SelectR || a is SelectG || a is SelectP || a is SelectY || a is SelectB)
            ==> id.1 < self.modules@.len()
    }

    fn transform(&self, kind: &ModuleRow, slot: Focus, id: ID, a: Action) -> (r: Action) {
        match slot {
            Focus::Red => match a {
                Action::SelectR | Action::SelectG | Action::SelectP | Action::SelectY | Action::SelectB =>
                    Action::DelModule(self.modules[id.1 as usize].id),
                _ => Action::Noop,
            },
            _ => Action::Noop,
        }
    }
}

/// Row `i`: a module button; its coloured controls answer to the same id.
pub open spec fn module_row(i: int) -> MultiFocus<ModuleRow> {
    MultiFocus {
        kind: ModuleRow,
        w_id: ID(FocusType::Button, i as u16),
        r_id: ID(FocusType::Void, 0),
        g_id: ID(FocusType::Void, 0),
        p_id: ID(FocusType::Void, 0),
        y_id: ID(FocusType::Void, 0),
        b_id: ID(FocusType::Void, 0),
        active: None,
    }
}

/// The overview grid for `n` modules: a row per module.
pub open spec fn project_grid(g: Seq<Seq<MultiFocus<ModuleRow>>>, n: int) -> bool {
    &&& g.len() == n
    &&& forall|i: int| 0 <= i < n ==> #[trigger] g[i] == seq![module_row(i)]
}

/// The overview grid for `n` modules; see `project_grid`.
pub fn generate_focii(n: usize) -> (r: Vec<Vec<MultiFocus<ModuleRow>>>)
    ensures
        project_grid(grid(r), n as int),
{
    let mut focii: Vec<Vec<MultiFocus<ModuleRow>>> = Vec::new();
    for i in 0..n
        invariant
            focii@.len() == i,
            forall|m: int| 0 <= m < i ==> #[trigger] grid(focii)[m] == seq![module_row(m)],
    {
        let v = ID(FocusType::Void, 0);
        let mut row: Vec<MultiFocus<ModuleRow>> = Vec::new();
        row.push(MultiFocus { kind: ModuleRow, w_id: ID(FocusType::Button, i as u16), r_id: v, g_id: v, p_id: v, y_id: v, b_id: v, active: None });
        let ghost before = grid(focii);
        focii.push(row);
        proof {
            assert(grid(focii)[i as int] =~= seq![module_row(i as int)]);
            assert forall|m: int| 0 <= m < i + 1 implies #[trigger] grid(focii)[m] == seq![module_row(m)] by {
                if m < i {
                    assert(grid(focii)[m] == before[m]);
                }
            }
        }
    }
    focii
}

/// The project overview.
#[derive(Debug)]
pub struct Project {
    pub window: Window,
    pub state: ProjectState,
    pub focii: Vec<Vec<MultiFocus<ModuleRow>>>,
}

/// The overview can handle the action: a deleted module is one shown, and
/// the focus moves within the grid.
pub open spec fn project_dispatch_defined(p: Project, a: Action) -> bool {
    let f = p.state.focus;
    let g = grid(p.focii);
    &&& in_grid(f, g) ==> crate::focus::cell_transform_defined(g[f.1 as int][f.0 as int], a, p.state)
    &&& in_grid(f, g) ==> shift_defined(f, grid_after(f, g, a), spec_cell_transform(g[f.1 as int][f.0 as int], a, p.state))
}

impl Project {
    /// An empty overview over this window.
    pub fn new(x: u16, y: u16, width: u16, height: u16) -> (r: Self)
        ensures
            r.window == (Window { x, y, w: width, h: height }),
            r.state.title@ == ""@,
            r.state.modules@.len() == 0,
            r.state.focus == (0usize, 0usize),
            grid(r.focii).len() == 0,
    {
        let focii = generate_focii(0);
        Project { window: Window { x, y, w: width, h: height }, state: ProjectState { title: owned(""), modules: Vec::new(), focus: (0, 0) }, focii }
    }

    /// Runs an action through the focused row. A project shown replaces
    /// the title and modules and lays the rows out again; a deletion is
    /// handed back; Back cancels.
    pub fn dispatch(&mut self, action: Action) -> (r: Action)
        requires
            project_dispatch_defined(*old(self), action),
        ensures
            ({
                let s0 = old(self).state;
                let g0 = grid(old(self).focii);
                let o = spec_focus_dispatch(s0.focus, g0, s0, action);
                &&& final(self).window == old(self).window
                &&& final(self).state.focus == o.0
                &&& match o.1 {
                    None => {
                        &&& r is Noop
                        &&& final(self).state.title == s0.title && final(self).state.modules == s0.modules
                        &&& grid(final(self).focii) == grid_after(s0.focus, g0, action)
                    },
                    Some(d) => {
                        &&& match d {
                            Action::ShowProject(t, m) => final(self).state.title == t && final(self).state.modules == m,
                            _ => final(self).state.title == s0.title && final(self).state.modules == s0.modules,
                        }
                        &&& if action is ShowProject {
                            project_grid(grid(final(self).focii), final(self).state.modules@.len() as int)
                        } else {
                            grid(final(self).focii) == grid_after(s0.focus, g0, action)
                        }
                        &&& match d {
                            Action::Back => r is Cancel,
                            Action::DelModule(m) => r == Action::DelModule(m),
                            _ => r is Noop,
                        }
                    },
                }
            }),
    {
        let show = match &action { Action::ShowProject(_, _) => true, _ => false };
        let (focus, default) = focus_dispatch(self.state.focus, &mut self.focii, &self.state, action);
        self.state.focus = focus;
        match default {
            Some(d) => {
                let back = match &d { Action::Back => true, _ => false };
                let del = match &d { Action::DelModule(m) => Some(*m), _ => None };
                let mut state = ProjectState { title: String::new(), modules: Vec::new(), focus: (0, 0) };
                std::mem::swap(&mut state, &mut self.state);
                self.state = reduce(state, d);
                if show {
                    self.focii = generate_focii(self.state.modules.len());
                }
                if back {
                    Action::Cancel
                } else {
                    match del {
                        Some(m) => Action::DelModule(m),
                        None => Action::Noop,
                    }
                }
            },
            None => Action::Noop,
        }
    }

    /// Whether `dispatch` can take this action: a held delete control names
    /// a listed module, and the focus does not move into an empty row.
    pub fn can_dispatch(&self, action: &Action) -> (r: bool)
        ensures
            r == project_dispatch_defined(*self, *action),
    {
        let f = self.state.focus;
        if f.1 >= self.focii.len() || f.0 >= self.focii[f.1].len() {
            return true;
        }
        let ghost g = grid(self.focii);
        let cell = self.focii[f.1][f.0];
        assert(cell == g[f.1 as int][f.0 as int]);
        let held_ok = match held_after(&cell, action) {
            Some(Focus::Red) => match action {
                Action::SelectR | Action::SelectG | Action::SelectP | Action::SelectY | Action::SelectB =>
                    (cell.id_of(Focus::Red).1 as usize) < self.state.modules.len(),
                _ => true,
            },
            _ => true,
        };
        held_ok && shift_ready(f, &self.focii, &self.state, action)
    }

    /// The overview lets what is under it show.
    pub fn alpha(&self) -> (r: bool)
        ensures
            r,
    {
        true
    }
}

} // verus!
