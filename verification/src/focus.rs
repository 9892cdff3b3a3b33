//! Multi-focus navigation: a view is a grid of focus cells, each of which
//! has up to five coloured controls that the coloured keys select.

use vstd::prelude::*;
use crate::action::Action;

verus! {

/// What a focus control operates on.
#[derive(Clone, Copy, Debug, PartialEq, Eq, Structural)]
pub enum FocusType {
    Param,
    Region,
    Button,
    Switch,
    Input,
    Output,
    Void,
}

/// A control's identity: what it operates on and which one.
#[derive(Clone, Copy, Debug, PartialEq, Eq, Structural)]
pub struct ID(pub FocusType, pub u16);

/// The identity of a control that is absent.
pub fn void_id() -> (r: ID)
    ensures
        r == ID(FocusType::Void, 0u16),
{
    ID(FocusType::Void, 0)
}

/// The five coloured controls of a focus cell.
#[derive(Clone, Copy, Debug, PartialEq, Eq, Structural)]
pub enum Focus {
    Red,
    Green,
    Yellow,
    Pink,
    Blue,
}

/// A focus cell. `kind` tells the owning view which component the cell
/// belongs to; the ids name the controls (a void id falls back to `w_id`);
/// `active` is the control currently held down.
#[derive(Clone, Copy, Debug)]
pub struct MultiFocus<K> {
    pub kind: K,
    pub w_id: ID,
    pub r_id: ID,
    pub g_id: ID,
    pub y_id: ID,
    pub p_id: ID,
    pub b_id: ID,
    pub active: Option<Focus>,
}

/// The id a control answers to: its own, or the cell's white id if its own is void.
pub open spec fn slot_id<K>(f: MultiFocus<K>, c: Focus) -> ID {
    let raw = match c {
        Focus::Red => f.r_id,
        Focus::Green => f.g_id,
        Focus::Yellow => f.y_id,
        Focus::Pink => f.p_id,
        Focus::Blue => f.b_id,
    };
    if raw.0 == FocusType::Void { f.w_id } else { raw }
}

/// The control a select key picks, if any.
pub open spec fn select_target(a: Action) -> Option<Focus> {
    match a {
        Action::SelectR => Some(Focus::Red),
        Action::SelectG => Some(Focus::Green),
        Action::SelectY => Some(Focus::Yellow),
        Action::SelectP => Some(Focus::Pink),
        Action::SelectB => Some(Focus::Blue),
        _ => None,
    }
}

/// The held control after an action: a select key holds its control when
/// that control answers to a non-void id, a release clears it.
pub open spec fn active_after<K>(f: MultiFocus<K>, a: Action) -> Option<Focus> {
    match select_target(a) {
        Some(c) => if slot_id(f, c).0 != FocusType::Void { Some(c) } else { f.active },
        None => if a is Deselect { None } else { f.active },
    }
}

/// How a view turns an action into another while one of its controls is held.
pub trait FocusTransform<K> {
    spec fn spec_transform(&self, kind: K, slot: Focus, id: ID, a: Action) -> Action;

    /// The transform can run without an arithmetic or lookup failure.
    spec fn transform_defined(&self, kind: K, slot: Focus, id: ID, a: Action) -> bool;

    fn transform(&self, kind: &K, slot: Focus, id: ID, a: Action) -> (r: Action)
        requires
            self.transform_defined(*kind, slot, id, a),
        ensures
            r == self.spec_transform(*kind, slot, id, a),
    ;
}

/// The held control, if any, can transform the action.
pub open spec fn cell_transform_defined<K, S: FocusTransform<K>>(f: MultiFocus<K>, a: Action, s: S) -> bool {
    match active_after(f, a) {
        Some(c) => s.transform_defined(f.kind, c, slot_id(f, c), a),
        None => true,
    }
}

/// What a cell makes of an action: the held control's transform, or the
/// action unchanged when nothing is held.
pub open spec fn spec_cell_transform<K, S: FocusTransform<K>>(f: MultiFocus<K>, a: Action, s: S) -> Action {
    match active_after(f, a) {
        Some(c) => s.spec_transform(f.kind, c, slot_id(f, c), a),
        None => a,
    }
}

impl<K: Copy> MultiFocus<K> {
    /// The id a control answers to.
    pub fn id_of(&self, c: Focus) -> (r: ID)
        ensures
            r == slot_id(*self, c),
    {
        let raw = match c {
            Focus::Red => self.r_id,
            Focus::Green => self.g_id,
            Focus::Yellow => self.y_id,
            Focus::Pink => self.p_id,
            Focus::Blue => self.b_id,
        };
        if raw.0 == FocusType::Void { self.w_id } else { raw }
    }

    /// Updates the held control for an action and lets the held control
    /// transform the action.
    pub fn transform<S: FocusTransform<K>>(&mut self, action: Action, state: &S) -> (r: Action)
        requires
            cell_transform_defined(*old(self), action, *state),
        ensures
            final(self).active == active_after(*old(self), action),
            final(self).kind == old(self).kind,
            final(self).w_id == old(self).w_id,
            final(self).r_id == old(self).r_id,
            final(self).g_id == old(self).g_id,
            final(self).y_id == old(self).y_id,
            final(self).p_id == old(self).p_id,
            final(self).b_id == old(self).b_id,
            r == spec_cell_transform(*old(self), action, *state),
    {
        let target: Option<Focus> = match action {
            Action::SelectR => Some(Focus::Red),
            Action::SelectG => Some(Focus::Green),
            Action::SelectY => Some(Focus::Yellow),
            Action::SelectP => Some(Focus::Pink),
            Action::SelectB => Some(Focus::Blue),
            _ => None,
        };
        match target {
            Some(c) => {
                let id = self.id_of(c);
                if id.0 != FocusType::Void {
                    self.active = Some(c);
                }
            },
            None => {
                if let Action::Deselect = action {
                    self.active = None;
                }
            },
        }
        match self.active {
            Some(c) => {
                let id = self.id_of(c);
                state.transform(&self.kind, c, id, action)
            },
            None => action,
        }
    }
}

/// The cells of a focus grid, row by row.
pub open spec fn grid<K>(v: Vec<Vec<MultiFocus<K>>>) -> Seq<Seq<MultiFocus<K>>> {
    v@.map_values(|r: Vec<MultiFocus<K>>| r@)
}

/// Whether `focus` names a cell of the grid.
pub open spec fn in_grid<K>(focus: (usize, usize), g: Seq<Seq<MultiFocus<K>>>) -> bool {
    focus.1 < g.len() && focus.0 < g[focus.1 as int].len()
}

/// Moving from `focus` in direction `a` does not step into an empty row.
pub open spec fn shift_defined<K>(focus: (usize, usize), g: Seq<Seq<MultiFocus<K>>>, a: Action) -> bool {
    in_grid(focus, g) && g[focus.1 as int][focus.0 as int].active is None ==> {
        &&& (a is Up && focus.1 > 0 ==> g[focus.1 - 1].len() > 0)
        &&& (a is Down && focus.1 + 1 < g.len() ==> g[focus.1 + 1].len() > 0)
    }
}

/// Where an arrow key moves the focus, and the arrow handed back to the
/// parent when the focus is at the border in that direction. A held control
/// pins the focus; a shorter neighbouring row clamps to its last cell.
pub open spec fn spec_shift<K>(focus: (usize, usize), g: Seq<Seq<MultiFocus<K>>>, a: Action)
    -> ((usize, usize), Option<Action>) {
    if !in_grid(focus, g) {
        (focus, Some(a))
    } else if g[focus.1 as int][focus.0 as int].active is Some {
        (focus, None)
    } else {
        let x = focus.0 as int;
        let y = focus.1 as int;
        match a {
            Action::Left => if x > 0 {
                (((x - 1) as usize, focus.1), None)
            } else {
                (focus, Some(Action::Left))
            },
            Action::Right => if x + 1 < g[y].len() {
                (((x + 1) as usize, focus.1), None)
            } else {
                (focus, Some(Action::Right))
            },
            Action::Up => if y > 0 {
                let up = g[y - 1].len() as int;
                if x >= up - 1 {
                    (((up - 1) as usize, (y - 1) as usize), None)
                } else {
                    ((focus.0, (y - 1) as usize), None)
                }
            } else {
                (focus, Some(Action::Up))
            },
            Action::Down => if y + 1 < g.len() {
                let down = g[y + 1].len() as int;
                if x >= down - 1 {
                    (((down - 1) as usize, (y + 1) as usize), None)
                } else {
                    ((focus.0, (y + 1) as usize), None)
                }
            } else {
                (focus, Some(Action::Down))
            },
            _ => (focus, None),
        }
    }
}

/// Moves the focus for an arrow key; see `spec_shift`.
pub fn shift_focus<K: Copy>(focus: (usize, usize), focii: &Vec<Vec<MultiFocus<K>>>, a: Action)
    -> (r: ((usize, usize), Option<Action>))
    requires
        shift_defined(focus, grid(*focii), a),
    ensures
        r == spec_shift(focus, grid(*focii), a),
{
    if focii.len() <= focus.1 {
        return (focus, Some(a));
    }
    let focus_row = &focii[focus.1];
    if focus_row.len() <= focus.0 {
        return (focus, Some(a));
    }
    if focus_row[focus.0].active.is_some() {
        return (focus, None);
    }
    match a {
        Action::Left => if focus.0 > 0 {
            ((focus.0 - 1, focus.1), None)
        } else {
            (focus, Some(Action::Left))
        },
        Action::Right => if focus.0 < focus_row.len() - 1 {
            ((focus.0 + 1, focus.1), None)
        } else {
            (focus, Some(Action::Right))
        },
        Action::Up => if focus.1 > 0 {
            let row_up = &focii[focus.1 - 1];
            if focus.0 >= row_up.len() - 1 {
                ((row_up.len() - 1, focus.1 - 1), None)
            } else {
                ((focus.0, focus.1 - 1), None)
            }
        } else {
            (focus, Some(Action::Up))
        },
        Action::Down => if focus.1 < focii.len() - 1 {
            let row_down = &focii[focus.1 + 1];
            if focus.0 >= row_down.len() - 1 {
                ((row_down.len() - 1, focus.1 + 1), None)
            } else {
                ((focus.0, focus.1 + 1), None)
            }
        } else {
            (focus, Some(Action::Down))
        },
        _ => (focus, None),
    }
}

/// The grid after the focused cell has seen an action.
pub open spec fn grid_after<K>(focus: (usize, usize), g: Seq<Seq<MultiFocus<K>>>, a: Action)
    -> Seq<Seq<MultiFocus<K>>> {
    if in_grid(focus, g) {
        let f = g[focus.1 as int][focus.0 as int];
        g.update(focus.1 as int, g[focus.1 as int].update(focus.0 as int,
            MultiFocus { active: active_after(f, a), ..f }))
    } else {
        g
    }
}

/// What a view makes of an action: the focused cell transforms it; arrows
/// that come out move the focus, anything else is handed back.
pub open spec fn spec_focus_dispatch<K, S: FocusTransform<K>>(
    focus: (usize, usize),
    g: Seq<Seq<MultiFocus<K>>>,
    s: S,
    a: Action,
) -> ((usize, usize), Option<Action>) {
    if !in_grid(focus, g) {
        (focus, Some(a))
    } else {
        let t = spec_cell_transform(g[focus.1 as int][focus.0 as int], a, s);
        if crate::action::is_arrow(t) {
            spec_shift(focus, grid_after(focus, g, a), t)
        } else {
            (focus, Some(t))
        }
    }
}

/// Lets the focused cell transform an action, then moves the focus for the
/// arrows that come out; see `spec_focus_dispatch`.
pub fn focus_dispatch<K: Copy, S: FocusTransform<K>>(
    focus: (usize, usize),
    focii: &mut Vec<Vec<MultiFocus<K>>>,
    state: &S,
    a: Action,
) -> (r: ((usize, usize), Option<Action>))
    requires
        in_grid(focus, grid(*old(focii))) ==> cell_transform_defined(
            grid(*old(focii))[focus.1 as int][focus.0 as int], a, *state),
        in_grid(focus, grid(*old(focii))) ==> shift_defined(
            focus,
            grid_after(focus, grid(*old(focii)), a),
            spec_cell_transform(grid(*old(focii))[focus.1 as int][focus.0 as int], a, *state),
        ),
    ensures
        r == spec_focus_dispatch(focus, grid(*old(focii)), *state, a),
        grid(*final(focii)) == grid_after(focus, grid(*old(focii)), a),
{
    if focus.1 >= focii.len() || focus.0 >= focii[focus.1].len() {
        return (focus, Some(a));
    }
    let ghost g0 = grid(*focii);
    let ghost a0 = a;
    let mut cell = focii[focus.1][focus.0];
    let t = cell.transform(a, state);
    let mut row = focii.remove(focus.1);
    row.set(focus.0, cell);
    focii.insert(focus.1, row);
    assert(grid(*focii) =~= grid_after(focus, g0, a0)) by {
        assert(grid(*focii)[focus.1 as int] =~= grid_after(focus, g0, a0)[focus.1 as int]);
    }
    match t {
        Action::Up | Action::Down | Action::Left | Action::Right => shift_focus(focus, focii, t),
        _ => (focus, Some(t)),
    }
}

/// The held control of a cell after an action; see `active_after`.
pub fn held_after<K: Copy>(f: &MultiFocus<K>, a: &Action) -> (r: Option<Focus>)
    ensures
        r == active_after(*f, *a),
{
    let target: Option<Focus> = match a {
        Action::SelectR => Some(Focus::Red),
        Action::SelectG => Some(Focus::Green),
        Action::SelectY => Some(Focus::Yellow),
        Action::SelectP => Some(Focus::Pink),
        Action::SelectB => Some(Focus::Blue),
        _ => None,
    };
    match target {
        Some(c) => if f.id_of(c).0 != FocusType::Void { Some(c) } else { f.active },
        None => match a {
            Action::Deselect => None,
            _ => f.active,
        },
    }
}

/// Whether the focus can move for what the focused cell makes of `a`: a
/// held control pins the focus, so only an arrow that passes through an
/// idle cell can step into an empty row.
pub fn shift_ready<K: Copy, S: FocusTransform<K>>(
    focus: (usize, usize),
    focii: &Vec<Vec<MultiFocus<K>>>,
    state: &S,
    a: &Action,
) -> (r: bool)
    requires
        in_grid(focus, grid(*focii)),
    ensures
        r == shift_defined(focus, grid_after(focus, grid(*focii), *a),
            spec_cell_transform(grid(*focii)[focus.1 as int][focus.0 as int], *a, *state)),
{
    let ghost g = grid(*focii);
    let cell = focii[focus.1][focus.0];
    assert(cell == g[focus.1 as int][focus.0 as int]);
    let held = held_after(&cell, a);
    assert(grid_after(focus, g, *a)[focus.1 as int][focus.0 as int].active == held);
    assert(forall|i: int| 0 <= i < g.len() && i != focus.1 ==> grid_after(focus, g, *a)[i] == g[i]);
    if held.is_some() {
        return true;
    }
    match a {
        Action::Up => focus.1 == 0 || focii[focus.1 - 1].len() > 0,
        Action::Down => focus.1 >= focii.len() - 1 || focii[focus.1 + 1].len() > 0,
        _ => true,
    }
}

/// Whether the focus can move for `a` once the focused cell has seen it.
pub fn shift_ready_for<K: Copy>(focus: (usize, usize), focii: &Vec<Vec<MultiFocus<K>>>, a: &Action) -> (r: bool)
    ensures
        r == shift_defined(focus, grid_after(focus, grid(*focii), *a), *a),
{
    if focus.1 >= focii.len() || focus.0 >= focii[focus.1].len() {
        return true;
    }
    let ghost g = grid(*focii);
    let cell = focii[focus.1][focus.0];
    assert(cell == g[focus.1 as int][focus.0 as int]);
    let held = held_after(&cell, a);
    assert(grid_after(focus, g, *a)[focus.1 as int][focus.0 as int].active == held);
    assert(forall|i: int| 0 <= i < g.len() && i != focus.1 ==> grid_after(focus, g, *a)[i] == g[i]);
    if held.is_some() {
        return true;
    }
    match a {
        Action::Up => focus.1 == 0 || focii[focus.1 - 1].len() > 0,
        Action::Down => focus.1 >= focii.len() - 1 || focii[focus.1 + 1].len() > 0,
        _ => true,
    }
}

/// The rows of a grid built from vectors, and each row, fit a `usize`.
proof fn lemma_grid_bounds<K>(focii: Vec<Vec<MultiFocus<K>>>)
    ensures
        grid(focii).len() <= usize::MAX,
        forall|i: int| 0 <= i < grid(focii).len() ==> (#[trigger] grid(focii)[i]).len() <= usize::MAX,
{
    assert(focii.len() == focii@.len());
    assert forall|i: int| 0 <= i < grid(focii).len() implies (#[trigger] grid(focii)[i]).len() <= usize::MAX by {
        assert(grid(focii)[i] == focii@[i]@);
        assert(focii@[i].len() == focii@[i]@.len());
    }
}

/// Moving the focus keeps it on a cell of the grid, and an arrow is handed
/// back to the parent only when the focus stays where it was, at the
/// border in that direction.
pub proof fn law_shift_stays_in_grid<K>(focus: (usize, usize), focii: Vec<Vec<MultiFocus<K>>>, a: Action)
    requires
        in_grid(focus, grid(focii)),
        shift_defined(focus, grid(focii), a),
        crate::action::is_arrow(a),
    ensures
        in_grid(spec_shift(focus, grid(focii), a).0, grid(focii)),
        spec_shift(focus, grid(focii), a).1 matches Some(d) ==> spec_shift(focus, grid(focii), a).0 == focus && d == a,
{
    lemma_grid_bounds(focii);
}

/// When the focused control is not held, an arrow always moves the focus
/// unless it is at the border in that direction: the focus stays exactly
/// when the arrow is handed back to the parent, and nothing else is handed
/// back.
pub proof fn law_shift_hands_back_at_border<K>(focus: (usize, usize), focii: Vec<Vec<MultiFocus<K>>>, a: Action)
    requires
        in_grid(focus, grid(focii)),
        shift_defined(focus, grid(focii), a),
        crate::action::is_arrow(a),
        grid(focii)[focus.1 as int][focus.0 as int].active is None,
    ensures
        spec_shift(focus, grid(focii), a).1 == Some(a) <==> spec_shift(focus, grid(focii), a).0 == focus,
        spec_shift(focus, grid(focii), a).1 is None || spec_shift(focus, grid(focii), a).1 == Some(a),
{
    lemma_grid_bounds(focii);
}

/// Left undoes Right and Right undoes Left within a row, when nothing is held.
pub proof fn law_shift_left_right_inverse<K>(focus: (usize, usize), focii: Vec<Vec<MultiFocus<K>>>)
    requires
        in_grid(focus, grid(focii)),
        forall|i: int, j: int| 0 <= i < grid(focii).len() && 0 <= j < grid(focii)[i].len()
            ==> (#[trigger] grid(focii)[i][j]).active is None,
    ensures
        focus.0 > 0 ==> spec_shift(spec_shift(focus, grid(focii), Action::Left).0, grid(focii), Action::Right).0 == focus,
        focus.0 + 1 < grid(focii)[focus.1 as int].len()
            ==> spec_shift(spec_shift(focus, grid(focii), Action::Right).0, grid(focii), Action::Left).0 == focus,
{
    lemma_grid_bounds(focii);
}

} // verus!
