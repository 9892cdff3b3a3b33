//! The patch bay: routes (busses) and the anchors patched into them.

use vstd::prelude::*;
use crate::action::{Action, Anchor, Route};
use crate::focus::{FocusTransform, FocusType, Focus, ID, MultiFocus, focus_dispatch, grid, in_grid, held_after, shift_ready,
    spec_focus_dispatch, grid_after, cell_transform_defined, spec_cell_transform, shift_defined};
use crate::idmap::{IdMap, keys_increasing, lemma_key_index};

verus! {

/// What a route holds, as plain values.
pub struct RouteView {
    pub id: u16,
    pub patch: Seq<Anchor>,
}

impl View for Route {
    type V = RouteView;

    open spec fn view(&self) -> RouteView {
        RouteView { id: self.id, patch: self.patch@ }
    }
}

/// Which part of the patch bay a focus cell belongs to.
#[derive(Clone, Copy, Debug, PartialEq, Eq, Structural)]
pub enum RoutesFocus {
    /// A cell of up to five anchors.
    Anchors,
    /// The add-route and delete-route buttons.
    Footer,
}

/// Everything the patch bay shows.
#[derive(Debug)]
pub struct RoutesState {
    pub routes: IdMap<Route>,
    pub anchors: IdMap<Anchor>,
    pub focus: (usize, usize),
    pub selected_route: Option<u16>,
    pub selected_anchor: Option<u16>,
}

/// The routes of a state, by id.
pub open spec fn routes_of(s: RoutesState) -> Map<u16, RouteView> {
    s.routes@.map_values(|r: Route| r@)
}

/// Position of the first anchor of a patch with this index and module.
pub open spec fn patch_position(p: Seq<Anchor>, index: u16, module_id: u16) -> Option<int>
    decreases p.len(),
{
    if p.len() == 0 {
        None
    } else {
        match patch_position(p.drop_last(), index, module_id) {
            Some(i) => Some(i),
            None => if p.last().index == index && p.last().module_id == module_id { Some(p.len() - 1) } else { None },
        }
    }
}

/// Position, in route id order, of the first route patched to this anchor.
pub open spec fn route_position(rs: Seq<(u16, Route)>, index: u16, module_id: u16) -> Option<int>
    decreases rs.len(),
{
    if rs.len() == 0 {
        None
    } else {
        match route_position(rs.drop_last(), index, module_id) {
            Some(i) => Some(i),
            None => if patch_position(rs.last().1.patch@, index, module_id) is Some { Some(rs.len() - 1) } else { None },
        }
    }
}

/// The routes with the first patch of an anchor taken out.
pub open spec fn unpatched(s: RoutesState, a_id: u16) -> Map<u16, RouteView> {
    let m = s.anchors@[a_id].module_id;
    let rs = s.routes.seq();
    match route_position(rs, a_id, m) {
        Some(i) => {
            let r = rs[i].1@;
            routes_of(s).insert(rs[i].0, RouteView {
                patch: r.patch.remove(patch_position(r.patch, a_id, m).unwrap()),
                ..r
            })
        },
        None => routes_of(s),
    }
}

/// The routes after an action: added, patched, unpatched or deleted.
pub open spec fn reduced_routes(s: RoutesState, a: Action) -> Map<u16, RouteView> {
    match a {
        Action::AddRoute(id) => routes_of(s).insert(id, RouteView { id, patch: Seq::empty() }),
        Action::PatchOut(_, a_id, r_id) | Action::PatchIn(_, a_id, r_id) =>
            routes_of(s).insert(r_id, RouteView { patch: routes_of(s)[r_id].patch.push(s.anchors@[a_id]), ..routes_of(s)[r_id] }),
        Action::PatchAnchor(a_id) | Action::DelPatch(_, a_id, _) => unpatched(s, a_id),
        Action::DelRoute(id) => routes_of(s).remove(id),
        _ => routes_of(s),
    }
}

/// Selecting an id again clears the selection.
pub open spec fn toggled(cur: Option<u16>, id: u16) -> Option<u16> {
    if cur == Some(id) { None } else { Some(id) }
}

/// The anchors announced by a module, keyed by index (a later one wins).
pub open spec fn anchors_map(v: Seq<Anchor>) -> Map<u16, Anchor>
    decreases v.len(),
{
    if v.len() == 0 {
        Map::empty()
    } else {
        anchors_map(v.drop_last()).insert(v.last().index, v.last())
    }
}

/// The patch bay state after an action.
pub open spec fn routes_reduced(s: RoutesState, a: Action, r: RoutesState) -> bool {
    &&& routes_of(r) == reduced_routes(s, a)
    &&& r.focus == s.focus
    &&& r.selected_anchor == (match a {
        Action::PatchAnchor(id) => toggled(s.selected_anchor, id),
        Action::DelPatch(_, _, _) | Action::PatchIn(_, _, _) | Action::PatchOut(_, _, _) => None,
        _ => s.selected_anchor,
    })
    &&& r.selected_route == (match a {
        Action::PatchRoute(id) => toggled(s.selected_route, id),
        Action::DelPatch(_, _, _) | Action::PatchIn(_, _, _) | Action::PatchOut(_, _, _) => None,
        _ => s.selected_route,
    })
    &&& r.anchors@ == (match a {
        Action::ShowAnchors(v) => anchors_map(v@),
        _ => s.anchors@,
    })
}

/// The reducer finds the routes and anchors the action names.
pub open spec fn routes_reduce_defined(s: RoutesState, a: Action) -> bool {
    match a {
        Action::PatchOut(_, a_id, r_id) | Action::PatchIn(_, a_id, r_id) =>
            s.routes@.contains_key(r_id) && s.anchors@.contains_key(a_id),
        Action::PatchAnchor(a_id) | Action::DelPatch(_, a_id, _) => s.anchors@.contains_key(a_id),
        _ => true,
    }
}

fn find_patch(p: &Vec<Anchor>, index: u16, module_id: u16) -> (r: Option<usize>)
    ensures
        r matches Some(i) ==> patch_position(p@, index, module_id) == Some(i as int),
        r is None ==> patch_position(p@, index, module_id) is None,
{
    for i in 0..p.len()
        invariant
            patch_position(p@.take(i as int), index, module_id) is None,
    {
        assert(p@.take(i + 1).drop_last() =~= p@.take(i as int));
        if p[i].index == index && p[i].module_id == module_id {
            proof { lemma_patch_prefix(p@, index, module_id, i + 1); }
            return Some(i);
        }
    }
    assert(p@.take(p@.len() as int) =~= p@);
    None
}

proof fn lemma_patch_prefix(p: Seq<Anchor>, index: u16, module_id: u16, n: int)
    requires
        0 <= n <= p.len(),
        patch_position(p.take(n), index, module_id) is Some,
    ensures
        patch_position(p, index, module_id) == patch_position(p.take(n), index, module_id),
    decreases p.len() - n,
{
    if n < p.len() {
        assert(p.take(n + 1).drop_last() =~= p.take(n));
        lemma_patch_prefix(p, index, module_id, n + 1);
    } else {
        assert(p.take(n) =~= p);
    }
}

proof fn lemma_patch_position_bounds(p: Seq<Anchor>, index: u16, module_id: u16)
    ensures
        patch_position(p, index, module_id) matches Some(i) ==> 0 <= i < p.len(),
    decreases p.len(),
{
    if p.len() > 0 {
        lemma_patch_position_bounds(p.drop_last(), index, module_id);
    }
}

proof fn lemma_route_prefix(rs: Seq<(u16, Route)>, index: u16, module_id: u16, n: int)
    requires
        0 <= n <= rs.len(),
        route_position(rs.take(n), index, module_id) is Some,
    ensures
        route_position(rs, index, module_id) == route_position(rs.take(n), index, module_id),
    decreases rs.len() - n,
{
    if n < rs.len() {
        assert(rs.take(n + 1).drop_last() =~= rs.take(n));
        lemma_route_prefix(rs, index, module_id, n + 1);
    } else {
        assert(rs.take(n) =~= rs);
    }
}

proof fn lemma_route_position_bounds(rs: Seq<(u16, Route)>, index: u16, module_id: u16)
    ensures
        route_position(rs, index, module_id) matches Some(i) ==> 0 <= i < rs.len()
            && patch_position(rs[i].1.patch@, index, module_id) is Some,
    decreases rs.len(),
{
    if rs.len() > 0 {
        lemma_route_position_bounds(rs.drop_last(), index, module_id);
        if route_position(rs.drop_last(), index, module_id) is Some {
            let i = route_position(rs.drop_last(), index, module_id).unwrap();
            assert(rs.drop_last()[i] == rs[i]);
        }
    }
}

/// Takes out the first patch of anchor `a_id` (of its module), searching routes in id order.
fn unpatch(routes: &mut IdMap<Route>, a_id: u16, module_id: u16)
    ensures
        ({
            let rs = old(routes).seq();
            let m0 = old(routes)@.map_values(|r: Route| r@);
            final(routes)@.map_values(|r: Route| r@) == match route_position(rs, a_id, module_id) {
                Some(i) => {
                    let r = rs[i].1@;
                    m0.insert(rs[i].0, RouteView { patch: r.patch.remove(patch_position(r.patch, a_id, module_id).unwrap()), ..r })
                },
                None => m0,
            }
        }),
{
    let entries = routes.entries();
    let ghost rs = routes.seq();
    let ghost m0 = routes@.map_values(|r: Route| r@);
    let mut found: Option<(u16, usize)> = None;
    let mut j: usize = 0;
    while found.is_none() && j < entries.len()
        invariant
            entries@ == rs,
            j <= rs.len(),
            found is None ==> route_position(rs.take(j as int), a_id, module_id) is None,
            found matches Some((k, p)) ==> route_position(rs, a_id, module_id) matches Some(i)
                && rs[i].0 == k && patch_position(rs[i].1.patch@, a_id, module_id) == Some(p as int),
        decreases rs.len() - j + (if found is None { 1int } else { 0int }),
    {
        assert(rs.take(j + 1).drop_last() =~= rs.take(j as int));
        match find_patch(&entries[j].1.patch, a_id, module_id) {
            Some(p) => {
                proof {
                    assert(rs.take(j + 1).last() == rs[j as int]);
                    assert(route_position(rs.take(j + 1), a_id, module_id) == Some(j as int));
                    lemma_route_prefix(rs, a_id, module_id, j + 1);
                }
                found = Some((entries[j].0, p));
            },
            None => {
                assert(rs.take(j + 1).last() == rs[j as int]);
                j = j + 1;
            },
        }
    }
    proof {
        if found is None {
            assert(j == rs.len());
            assert(rs.take(rs.len() as int) =~= rs);
        }
    }
    match found {
        Some((k, p)) => {
            proof {
                let i = route_position(rs, a_id, module_id).unwrap();
                lemma_route_position_bounds(rs, a_id, module_id);
                lemma_key_index(rs, i);
                lemma_patch_position_bounds(rs[i].1.patch@, a_id, module_id);
            }
            let mut r = routes.remove(k).unwrap();
            r.patch.remove(p);
            routes.insert(k, r);
            assert(routes@.map_values(|r: Route| r@) =~= {
                let i = route_position(rs, a_id, module_id).unwrap();
                let rv = rs[i].1@;
                m0.insert(rs[i].0, RouteView { patch: rv.patch.remove(patch_position(rv.patch, a_id, module_id).unwrap()), ..rv })
            });
        },
        None => {},
    }
}

/// The anchors announced by a module, keyed by index.
fn anchors_from(v: &Vec<Anchor>) -> (r: IdMap<Anchor>)
    ensures
        r@ == anchors_map(v@),
{
    let mut m: IdMap<Anchor> = IdMap::new();
    for i in 0..v.len()
        invariant
            m@ == anchors_map(v@.take(i as int)),
    {
        assert(v@.take(i + 1).drop_last() =~= v@.take(i as int));
        m.insert(v[i].index, v[i].clone());
    }
    assert(v@.take(v@.len() as int) =~= v@);
    m
}

/// The next patch bay state for an action.
pub fn reduce(state: RoutesState, action: &Action) -> (r: RoutesState)
    requires
        routes_reduce_defined(state, *action),
    ensures
        routes_reduced(state, *action, r),
{
    let mut state = state;
    let ghost s0 = state;
    match action {
        Action::AddRoute(a) => {
            state.routes.insert(*a, Route { id: *a, patch: Vec::new() });
            assert(routes_of(state) =~= reduced_routes(s0, *action));
        },
        Action::PatchOut(_, a_id, r_id) | Action::PatchIn(_, a_id, r_id) => {
            let anchor = state.anchors.get(*a_id).unwrap().clone();
            let mut route = state.routes.remove(*r_id).unwrap();
            route.patch.push(anchor);
            state.routes.insert(*r_id, route);
            assert(routes_of(state) =~= reduced_routes(s0, *action));
        },
        Action::PatchAnchor(a_id) | Action::DelPatch(_, a_id, _) => {
            let module_id = state.anchors.get(*a_id).unwrap().module_id;
            unpatch(&mut state.routes, *a_id, module_id);
        },
        Action::DelRoute(r_id) => {
            state.routes.remove(*r_id);
            assert(routes_of(state) =~= reduced_routes(s0, *action));
        },
        _ => {},
    }
    state.selected_anchor = match action {
        Action::PatchAnchor(id) => match state.selected_anchor {
            Some(cur) => if cur == *id { None } else { Some(*id) },
            None => Some(*id),
        },
        Action::DelPatch(_, _, _) | Action::PatchIn(_, _, _) | Action::PatchOut(_, _, _) => None,
        _ => state.selected_anchor,
    };
    state.selected_route = match action {
        Action::PatchRoute(id) => match state.selected_route {
            Some(cur) => if cur == *id { None } else { Some(*id) },
            None => Some(*id),
        },
        Action::DelPatch(_, _, _) | Action::PatchIn(_, _, _) | Action::PatchOut(_, _, _) => None,
        _ => state.selected_route,
    };
    match action {
        Action::ShowAnchors(v) => {
            state.anchors = anchors_from(v);
        },
        _ => {},
    }
    state
}

/// The largest route id, 0 when there are no routes.
pub open spec fn max_route_id(rs: Seq<(u16, Route)>) -> u16
    decreases rs.len(),
{
    if rs.len() == 0 {
        0
    } else {
        let m = max_route_id(rs.drop_last());
        if rs.last().1.id > m { rs.last().1.id } else { m }
    }
}

fn route_id_max(routes: &IdMap<Route>) -> (r: u16)
    ensures
        r == max_route_id(routes.seq()),
{
    let entries = routes.entries();
    let mut max: u16 = 0;
    for i in 0..entries.len()
        invariant
            entries@ == routes.seq(),
            max == max_route_id(entries@.take(i as int)),
    {
        assert(entries@.take(i + 1).drop_last() =~= entries@.take(i as int));
        if entries[i].1.id > max {
            max = entries[i].1.id;
        }
    }
    assert(entries@.take(entries@.len() as int) =~= entries@);
    max
}

/// What a held control of the patch bay makes of an action. An anchor
/// control moves the selected route left or right (to a route that exists,
/// else stays; with no route selected, the master route 1), or picks its
/// anchor; the footer adds a route after the last one or deletes the last.
pub open spec fn spec_routes_transform(s: RoutesState, kind: RoutesFocus, slot: Focus, id: ID, a: Action) -> Action {
    match kind {
        RoutesFocus::Anchors => match a {
            Action::Left => match s.selected_route {
                Some(r) => if s.routes@.contains_key((r - 1) as u16) { Action::PatchRoute((r - 1) as u16) } else { Action::PatchRoute(r) },
                None => Action::PatchRoute(1),
            },
            Action::Right => match s.selected_route {
                Some(r) => if s.routes@.contains_key((r + 1) as u16) { Action::PatchRoute((r + 1) as u16) } else { Action::PatchRoute(r) },
                None => Action::PatchRoute(1),
            },
            Action::SelectR | Action::SelectG | Action::SelectP | Action::SelectY | Action::SelectB => Action::PatchAnchor(id.1),
            _ => Action::Noop,
        },
        RoutesFocus::Footer => match slot {
            Focus::Red => match a {
                Action::SelectR => Action::AddRoute((max_route_id(s.routes.seq()) + 1) as u16),
                _ => Action::Noop,
            },
            Focus::Yellow => match a {
                Action::SelectY => Action::DelRoute(max_route_id(s.routes.seq())),
                _ => Action::Noop,
            },
            _ => Action::Noop,
        },
    }
}

/// A patch bay transform runs without overflow.
pub open spec fn routes_transform_defined(s: RoutesState, kind: RoutesFocus, slot: Focus, a: Action) -> bool {
    match kind {
        RoutesFocus::Anchors => {
            &&& (a is Left && s.selected_route is Some ==> s.selected_route.unwrap() > 0)
            &&& (a is Right && s.selected_route is Some ==> s.selected_route.unwrap() < u16::MAX)
        },
        RoutesFocus::Footer => slot == Focus::Red && a is SelectR ==> max_route_id(s.routes.seq()) < u16::MAX,
    }
}

impl FocusTransform<RoutesFocus> for RoutesState {
    open spec fn spec_transform(&self, kind: RoutesFocus, slot: Focus, id: ID, a: Action) -> Action {
        spec_routes_transform(*self, kind, slot, id, a)
    }

    open spec fn transform_defined(&self, kind: RoutesFocus, slot: Focus, id: ID, a: Action) -> bool {
        routes_transform_defined(*self, kind, slot, a)
    }

    fn transform(&self, kind: &RoutesFocus, slot: Focus, id: ID, a: Action) -> (r: Action) {
        match kind {
            RoutesFocus::Anchors => match a {
                Action::Left => match self.selected_route {
                    Some(r) => if self.routes.contains_key(r - 1) { Action::PatchRoute(r - 1) } else { Action::PatchRoute(r) },
                    None => Action::PatchRoute(1),
                },
                Action::Right => match self.selected_route {
                    Some(r) => if self.routes.contains_key(r + 1) { Action::PatchRoute(r + 1) } else { Action::PatchRoute(r) },
                    None => Action::PatchRoute(1),
                },
                Action::SelectR | Action::SelectG | Action::SelectP | Action::SelectY | Action::SelectB => Action::PatchAnchor(id.1),
                _ => Action::Noop,
            },
            RoutesFocus::Footer => match slot {
                Focus::Red => match a {
                    Action::SelectR => Action::AddRoute(route_id_max(&self.routes) + 1),
                    _ => Action::Noop,
                },
                Focus::Yellow => match a {
                    Action::SelectY => Action::DelRoute(route_id_max(&self.routes)),
                    _ => Action::Noop,
                },
                _ => Action::Noop,
            },
        }
    }
}

/// The control id of slot `j` of anchor cell `k`: the anchor at position
/// `5k + j`, or void past the last anchor.
pub open spec fn anchor_slot(keys: Seq<(u16, Anchor)>, k: int, j: int) -> ID {
    if 5 * k + j < keys.len() { ID(FocusType::Button, keys[5 * k + j].0) } else { ID(FocusType::Void, 0) }
}

/// Anchor cell `k`: five anchors in red, green, pink, yellow, blue order.
pub open spec fn anchor_cell(keys: Seq<(u16, Anchor)>, k: int) -> MultiFocus<RoutesFocus> {
    MultiFocus {
        kind: RoutesFocus::Anchors,
        w_id: ID(FocusType::Void, 0),
        r_id: anchor_slot(keys, k, 0),
        g_id: anchor_slot(keys, k, 1),
        p_id: anchor_slot(keys, k, 2),
        y_id: anchor_slot(keys, k, 3),
        b_id: anchor_slot(keys, k, 4),
        active: None,
    }
}

/// The footer cell: red adds a route, yellow deletes one.
pub open spec fn footer_cell() -> MultiFocus<RoutesFocus> {
    MultiFocus {
        kind: RoutesFocus::Footer,
        w_id: ID(FocusType::Void, 0),
        r_id: ID(FocusType::Button, 0),
        g_id: ID(FocusType::Void, 0),
        p_id: ID(FocusType::Void, 0),
        y_id: ID(FocusType::Button, 0),
        b_id: ID(FocusType::Void, 0),
        active: None,
    }
}

/// The patch bay grid: one anchor cell per five anchors (in index order),
/// then the footer, each on a row of its own.
pub open spec fn routes_grid(g: Seq<Seq<MultiFocus<RoutesFocus>>>, anchors: Seq<(u16, Anchor)>) -> bool {
    let cells: int = ((anchors.len() + 4) / 5) as int;
    &&& g.len() == cells + 1
    &&& forall|k: int| 0 <= k < cells ==> #[trigger] g[k] == seq![anchor_cell(anchors, k)]
    &&& g[cells] == seq![footer_cell()]
}

fn slot_id(entries: &Vec<(u16, Anchor)>, k: usize, j: usize) -> (r: ID)
    requires
        5 * k + j <= usize::MAX,
    ensures
        r == anchor_slot(entries@, k as int, j as int),
{
    if 5 * k + j < entries.len() { ID(FocusType::Button, entries[5 * k + j].0) } else { ID(FocusType::Void, 0) }
}

/// The patch bay grid; see `routes_grid`.
pub fn generate_focii(anchors: &IdMap<Anchor>) -> (r: Vec<Vec<MultiFocus<RoutesFocus>>>)
    ensures
        routes_grid(grid(r), anchors.seq()),
{
    let entries = anchors.entries();
    let cells = (entries.len() + 4) / 5;
    let mut focii: Vec<Vec<MultiFocus<RoutesFocus>>> = Vec::new();
    for k in 0..cells
        invariant
            entries@ == anchors.seq(),
            cells == (entries@.len() + 4) / 5,
            entries@.len() <= 0x10000,
            focii@.len() == k,
            forall|m: int| 0 <= m < k ==> #[trigger] grid(focii)[m] == seq![anchor_cell(entries@, m)],
    {
        let cell = MultiFocus {
            kind: RoutesFocus::Anchors,
            w_id: ID(FocusType::Void, 0),
            r_id: slot_id(entries, k, 0),
            g_id: slot_id(entries, k, 1),
            p_id: slot_id(entries, k, 2),
            y_id: slot_id(entries, k, 3),
            b_id: slot_id(entries, k, 4),
            active: None,
        };
        let mut row: Vec<MultiFocus<RoutesFocus>> = Vec::new();
        row.push(cell);
        let ghost before = grid(focii);
        focii.push(row);
        proof {
            assert(grid(focii)[k as int] =~= seq![anchor_cell(entries@, k as int)]);
            assert forall|m: int| 0 <= m < k + 1 implies #[trigger] grid(focii)[m] == seq![anchor_cell(entries@, m)] by {
                if m < k {
                    assert(grid(focii)[m] == before[m]);
                }
            }
        }
    }
    let mut footer: Vec<MultiFocus<RoutesFocus>> = Vec::new();
    footer.push(MultiFocus {
        kind: RoutesFocus::Footer,
        w_id: ID(FocusType::Void, 0),
        r_id: ID(FocusType::Button, 0),
        g_id: ID(FocusType::Void, 0),
        p_id: ID(FocusType::Void, 0),
        y_id: ID(FocusType::Button, 0),
        b_id: ID(FocusType::Void, 0),
        active: None,
    });
    let ghost before = grid(focii);
    focii.push(footer);
    proof {
        assert(grid(focii)[cells as int] =~= seq![footer_cell()]);
        assert forall|m: int| 0 <= m < cells implies #[trigger] grid(focii)[m] == seq![anchor_cell(entries@, m)] by {
            assert(grid(focii)[m] == before[m]);
        }
    }
    focii
}

/// What releasing the keys means in the patch bay: the selected anchor is
/// patched into the selected route (as an input or an output), or unpatched
/// when no route is selected; with no anchor selected nothing happens.
pub open spec fn release_action(s: RoutesState) -> Action {
    match s.selected_anchor {
        Some(a_id) => {
            let anchor = s.anchors@[a_id];
            match s.selected_route {
                Some(r_id) => if anchor.input {
                    Action::PatchIn(anchor.module_id, anchor.index, r_id)
                } else {
                    Action::PatchOut(anchor.module_id, anchor.index, r_id)
                },
                None => Action::DelPatch(anchor.module_id, anchor.index, anchor.input),
            }
        },
        None => Action::Noop,
    }
}

/// The action the patch bay acts on once the focus has handed it back.
pub open spec fn filtered_action(s: RoutesState, d: Action) -> Action {
    if d is Deselect { release_action(s) } else { d }
}

/// The patch bay view.
pub struct Routes {
    pub x: u16,
    pub y: u16,
    pub width: u16,
    pub height: u16,
    pub state: RoutesState,
    pub focii: Vec<Vec<MultiFocus<RoutesFocus>>>,
}

/// The patch bay can handle the action without a lookup failure or overflow.
pub open spec fn routes_dispatch_defined(v: Routes, a: Action) -> bool {
    let f = v.state.focus;
    let g = grid(v.focii);
    let o = spec_focus_dispatch(f, g, v.state, a);
    &&& in_grid(f, g) ==> cell_transform_defined(g[f.1 as int][f.0 as int], a, v.state)
    &&& in_grid(f, g) ==> shift_defined(f, grid_after(f, g, a), spec_cell_transform(g[f.1 as int][f.0 as int], a, v.state))
    &&& o.1 matches Some(d) ==> {
        &&& (d is Deselect && v.state.selected_anchor is Some ==> v.state.anchors@.contains_key(v.state.selected_anchor.unwrap()))
        &&& routes_reduce_defined(v.state, filtered_action(v.state, d))
        &&& (filtered_action(v.state, d) matches Action::PatchAnchor(id) ==> v.state.anchors@.contains_key(id))
    }
}

impl Routes {
    /// A patch bay over the routes of a project (or none).
    pub fn new(x: u16, y: u16, width: u16, height: u16, state: Option<RoutesState>) -> (r: Self)
        ensures
            r.x == x && r.y == y && r.width == width && r.height == height,
            state matches Some(s) ==> r.state == s,
            state is None ==> r.state.routes@ == Map::<u16, Route>::empty() && r.state.anchors@ == Map::<u16, Anchor>::empty()
                && r.state.focus == (0usize, 0usize) && r.state.selected_anchor is None && r.state.selected_route is None,
            grid(r.focii) == seq![Seq::<MultiFocus<RoutesFocus>>::empty()],
    {
        let initial_state = match state {
            Some(s) => s,
            None => RoutesState {
                routes: IdMap::new(),
                anchors: IdMap::new(),
                focus: (0, 0),
                selected_anchor: None,
                selected_route: None,
            },
        };
        let mut focii: Vec<Vec<MultiFocus<RoutesFocus>>> = Vec::new();
        focii.push(Vec::new());
        assert(grid(focii) =~= seq![Seq::<MultiFocus<RoutesFocus>>::empty()]);
        Routes { x, y, width, height, state: initial_state, focii }
    }

    /// Runs an action through the focused anchor cell; releasing the keys
    /// patches or unpatches the selected anchor, picking an anchor cuts its
    /// existing patch, leaving the module resets the selection, and a new set
    /// of anchors lays the grid out again.
    pub fn dispatch(&mut self, action: Action) -> (r: Action)
        requires
            routes_dispatch_defined(*old(self), action),
        ensures
            ({
                let s0 = old(self).state;
                let f = s0.focus;
                let g = grid(old(self).focii);
                let o = spec_focus_dispatch(f, g, s0, action);
                let s1 = RoutesState { focus: o.0, ..s0 };
                &&& final(self).x == old(self).x && final(self).y == old(self).y
                &&& final(self).width == old(self).width && final(self).height == old(self).height
                &&& match o.1 {
                    None => {
                        &&& r is Noop
                        &&& final(self).state == s1
                        &&& grid(final(self).focii) == grid_after(f, g, action)
                    },
                    Some(d) => {
                        let fa = filtered_action(s0, d);
                        &&& routes_of(final(self).state) == reduced_routes(s1, fa)
                        &&& final(self).state.anchors@ == (match fa { Action::ShowAnchors(v) => anchors_map(v@), _ => s0.anchors@ })
                        &&& if fa is ShowAnchors {
                            routes_grid(grid(final(self).focii), final(self).state.anchors.seq())
                        } else {
                            grid(final(self).focii) == grid_after(f, g, action)
                        }
                        &&& if fa is Exit || fa is Up || fa is Down {
                            &&& final(self).state.selected_anchor is None
                            &&& final(self).state.selected_route is None
                            &&& final(self).state.focus == (0usize, 0usize)
                            &&& r == fa
                        } else {
                            &&& routes_reduced(s1, fa, final(self).state)
                            &&& match fa {
                                Action::PatchAnchor(id) => {
                                    let anchor = s0.anchors@[id];
                                    r == Action::DelPatch(anchor.module_id, anchor.index, anchor.input)
                                },
                                Action::ShowAnchors(_) => r is Noop,
                                _ => r == fa,
                            }
                        }
                    },
                }
            }),
    {
        let ghost s0 = self.state;
        let (focus, default) = focus_dispatch(self.state.focus, &mut self.focii, &self.state, action);
        self.state.focus = focus;
        match default {
            Some(d) => {
                let filtered = match d {
                    Action::Deselect => match self.state.selected_anchor {
                        Some(a_id) => {
                            let anchor = self.state.anchors.get(a_id).unwrap();
                            match self.state.selected_route {
                                Some(r_id) => if anchor.input {
                                    Action::PatchIn(anchor.module_id, anchor.index, r_id)
                                } else {
                                    Action::PatchOut(anchor.module_id, anchor.index, r_id)
                                },
                                None => Action::DelPatch(anchor.module_id, anchor.index, anchor.input),
                            }
                        },
                        None => Action::Noop,
                    },
                    a => a,
                };
                let mut state = RoutesState {
                    routes: IdMap::new(),
                    anchors: IdMap::new(),
                    focus: (0, 0),
                    selected_anchor: None,
                    selected_route: None,
                };
                std::mem::swap(&mut state, &mut self.state);
                self.state = reduce(state, &filtered);
                match filtered {
                    Action::PatchAnchor(id) => {
                        let anchor = self.state.anchors.get(id).unwrap();
                        Action::DelPatch(anchor.module_id, anchor.index, anchor.input)
                    },
                    Action::Exit => {
                        self.state.selected_anchor = None;
                        self.state.selected_route = None;
                        self.state.focus = (0, 0);
                        Action::Exit
                    },
                    Action::Up => {
                        self.state.selected_anchor = None;
                        self.state.selected_route = None;
                        self.state.focus = (0, 0);
                        Action::Up
                    },
                    Action::Down => {
                        self.state.selected_anchor = None;
                        self.state.selected_route = None;
                        self.state.focus = (0, 0);
                        Action::Down
                    },
                    Action::ShowAnchors(_) => {
                        self.focii = generate_focii(&self.state.anchors);
                        Action::Noop
                    },
                    a => a,
                }
            },
            None => Action::Noop,
        }
    }

    /// Whether the patch bay can apply an action handed back by its focus grid.
    fn handed_ok(&self, d: &Action) -> (r: bool)
        ensures
            r == ({
                &&& (*d is Deselect && self.state.selected_anchor is Some
                    ==> self.state.anchors@.contains_key(self.state.selected_anchor.unwrap()))
                &&& routes_reduce_defined(self.state, filtered_action(self.state, *d))
                &&& (filtered_action(self.state, *d) matches Action::PatchAnchor(id) ==> self.state.anchors@.contains_key(id))
            }),
    {
        match d {
            Action::Deselect => match self.state.selected_anchor {
                Some(a_id) => match self.state.anchors.get(a_id) {
                    Some(anchor) => match self.state.selected_route {
                        Some(r_id) => self.state.routes.contains_key(r_id) && self.state.anchors.contains_key(anchor.index),
                        None => self.state.anchors.contains_key(anchor.index),
                    },
                    None => false,
                },
                None => true,
            },
            Action::PatchOut(_, a_id, r_id) => self.state.routes.contains_key(*r_id) && self.state.anchors.contains_key(*a_id),
            Action::PatchIn(_, a_id, r_id) => self.state.routes.contains_key(*r_id) && self.state.anchors.contains_key(*a_id),
            Action::PatchAnchor(a_id) => self.state.anchors.contains_key(*a_id),
            Action::DelPatch(_, a_id, _) => self.state.anchors.contains_key(*a_id),
            _ => true,
        }
    }

    /// Whether `dispatch` can take this action: a held control's step stays
    /// within `u16`, the focus does not move into an empty row, and the
    /// anchors and routes that the action handed back names exist.
    pub fn can_dispatch(&self, action: &Action) -> (r: bool)
        ensures
            r == routes_dispatch_defined(*self, *action),
    {
        let f = self.state.focus;
        if f.1 >= self.focii.len() || f.0 >= self.focii[f.1].len() {
            return self.handed_ok(action);
        }
        let ghost g = grid(self.focii);
        let cell = self.focii[f.1][f.0];
        assert(cell == g[f.1 as int][f.0 as int]);
        match held_after(&cell, action) {
            Some(c) => {
                let step_ok = match cell.kind {
                    RoutesFocus::Anchors => match action {
                        Action::Left => match self.state.selected_route { Some(r) => r > 0, None => true },
                        Action::Right => match self.state.selected_route { Some(r) => r < u16::MAX, None => true },
                        _ => true,
                    },
                    RoutesFocus::Footer => match (c, action) {
                        (Focus::Red, Action::SelectR) => route_id_max(&self.state.routes) < u16::MAX,
                        _ => true,
                    },
                };
                if !step_ok {
                    return false;
                }
                let picked = match cell.kind {
                    RoutesFocus::Anchors => match action {
                        Action::SelectR | Action::SelectG | Action::SelectP | Action::SelectY | Action::SelectB =>
                            Some(cell.id_of(c).1),
                        _ => None,
                    },
                    RoutesFocus::Footer => None,
                };
                match picked {
                    Some(id) => self.state.anchors.contains_key(id),
                    None => true,
                }
            },
            None => shift_ready(f, &self.focii, &self.state, action) && self.handed_ok(action),
        }
    }

    /// The patch bay is drawn over the layers below it.
    pub fn alpha(&self) -> (r: bool)
        ensures
            r,
    {
        true
    }
}

/// Deleting a route just added gives back the routes there were before,
/// when the id was free.
pub proof fn law_add_then_delete_route(s: RoutesState, r: RoutesState, id: u16)
    requires
        !s.routes@.contains_key(id),
        routes_reduced(s, Action::AddRoute(id), r),
    ensures
        reduced_routes(r, Action::DelRoute(id)) == routes_of(s),
{
    assert(reduced_routes(r, Action::DelRoute(id)) =~= routes_of(s));
}

/// Picking the same anchor (or route) twice, with none selected, leaves
/// none selected.
pub proof fn law_pick_twice(id: u16)
    ensures
        toggled(toggled(None, id), id) is None,
{
}

/// Whether a patch holds an anchor with this index and module.
pub open spec fn holds_anchor(p: Seq<Anchor>, index: u16, module_id: u16) -> bool {
    exists|j: int| 0 <= j < p.len() && p[j].index == index && p[j].module_id == module_id
}

proof fn lemma_patch_position_found(p: Seq<Anchor>, index: u16, module_id: u16)
    ensures
        patch_position(p, index, module_id) matches Some(j) ==> 0 <= j < p.len() && p[j].index == index
            && p[j].module_id == module_id,
        patch_position(p, index, module_id) is Some <==> holds_anchor(p, index, module_id),
    decreases p.len(),
{
    if p.len() > 0 {
        let q = p.drop_last();
        lemma_patch_position_found(q, index, module_id);
        if patch_position(q, index, module_id) is Some {
            let j = patch_position(q, index, module_id).unwrap();
            assert(p[j] == q[j]);
        }
        if holds_anchor(p, index, module_id) && patch_position(q, index, module_id) is None {
            let j = choose|j: int| 0 <= j < p.len() && p[j].index == index && p[j].module_id == module_id;
            if j < q.len() {
                assert(q[j] == p[j]);
            }
        }
        if holds_anchor(q, index, module_id) {
            let j = choose|j: int| 0 <= j < q.len() && q[j].index == index && q[j].module_id == module_id;
            assert(p[j] == q[j]);
        }
    }
}

proof fn lemma_route_position_found(rs: Seq<(u16, Route)>, index: u16, module_id: u16, i: int)
    requires
        0 <= i < rs.len(),
        patch_position(rs[i].1.patch@, index, module_id) is Some,
    ensures
        route_position(rs, index, module_id) is Some,
    decreases rs.len(),
{
    if i < rs.len() - 1 {
        assert(rs.drop_last()[i] == rs[i]);
        lemma_route_position_found(rs.drop_last(), index, module_id, i);
    }
}

/// Picking an anchor, or releasing one with no route selected, unpatches
/// it: when some route holds the anchor (of its module), exactly one route
/// loses exactly one patch of it and every other route and patch stays, so
/// the anchor's patches across the routes drop by one; when none holds
/// it, the routes stay as they were.
pub proof fn law_unpatch_takes_out_one_patch(s: RoutesState, a: Action, a_id: u16, r: RoutesState)
    requires
        (a matches Action::PatchAnchor(x) && x == a_id) || (a matches Action::DelPatch(_, x, _) && x == a_id),
        s.anchors@.contains_key(a_id),
        keys_increasing(s.routes.seq()),
        routes_reduced(s, a, r),
    ensures
        ({
            let m = s.anchors@[a_id].module_id;
            let held = exists|k: u16| #[trigger] routes_of(s).contains_key(k) && holds_anchor(routes_of(s)[k].patch, a_id, m);
            &&& held ==> exists|k: u16, j: int| {
                &&& #[trigger] routes_of(s).contains_key(k)
                &&& 0 <= j < routes_of(s)[k].patch.len()
                &&& (#[trigger] routes_of(s)[k].patch[j]).index == a_id
                &&& routes_of(s)[k].patch[j].module_id == m
                &&& routes_of(r) == routes_of(s).insert(k, RouteView {
                    patch: routes_of(s)[k].patch.remove(j),
                    ..routes_of(s)[k]
                })
            }
            &&& !held ==> routes_of(r) == routes_of(s)
        }),
{
    let m = s.anchors@[a_id].module_id;
    let rs = s.routes.seq();
    lemma_route_position_bounds(rs, a_id, m);
    let held = exists|k: u16| #[trigger] routes_of(s).contains_key(k) && holds_anchor(routes_of(s)[k].patch, a_id, m);
    if held {
        let k = choose|k: u16| #[trigger] routes_of(s).contains_key(k) && holds_anchor(routes_of(s)[k].patch, a_id, m);
        assert(s.routes@.contains_key(k));
        let i = crate::idmap::key_index(rs, k);
        lemma_key_index(rs, i);
        assert(routes_of(s)[k] == rs[i].1@);
        lemma_patch_position_found(rs[i].1.patch@, a_id, m);
        lemma_route_position_found(rs, a_id, m, i);
    }
    match route_position(rs, a_id, m) {
        Some(i) => {
            lemma_key_index(rs, i);
            let k = rs[i].0;
            let p = rs[i].1.patch@;
            lemma_patch_position_found(p, a_id, m);
            let j = patch_position(p, a_id, m).unwrap();
            assert(routes_of(s).contains_key(k));
            assert(routes_of(s)[k] == rs[i].1@);
            assert(holds_anchor(routes_of(s)[k].patch, a_id, m));
            assert(routes_of(s)[k].patch[j].index == a_id);
        },
        None => {
            if held {
                assert(false);
            }
        },
    }
}

/// Patching an anchor into a route (as an input or an output) adds one
/// patch of that anchor, at the end of that route's patch, and leaves every
/// other route and patch as it was.
pub proof fn law_patch_adds_one_patch(s: RoutesState, a: Action, a_id: u16, r_id: u16, r: RoutesState)
    requires
        (a matches Action::PatchIn(_, x, y) && x == a_id && y == r_id)
            || (a matches Action::PatchOut(_, x, y) && x == a_id && y == r_id),
        routes_reduce_defined(s, a),
        routes_reduced(s, a, r),
    ensures
        routes_of(r).dom() == routes_of(s).dom(),
        routes_of(r)[r_id].id == routes_of(s)[r_id].id,
        routes_of(r)[r_id].patch.len() == routes_of(s)[r_id].patch.len() + 1,
        routes_of(r)[r_id].patch.drop_last() == routes_of(s)[r_id].patch,
        routes_of(r)[r_id].patch.last() == s.anchors@[a_id],
        forall|k: u16| k != r_id && #[trigger] routes_of(s).contains_key(k) ==> routes_of(r)[k] == routes_of(s)[k],
{
    assert(routes_of(s).contains_key(r_id));
    assert(routes_of(r).dom() =~= routes_of(s).dom());
    assert(routes_of(r)[r_id].patch.drop_last() =~= routes_of(s)[r_id].patch);
}

} // verus!
