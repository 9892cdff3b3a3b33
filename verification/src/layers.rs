//! The stack of views (layers) that the main loop renders and dispatches to.

use vstd::prelude::*;
use crate::action::Anchor;

verus! {

/// Id of the patch-bay layer when no project defines one.
pub const DEFAULT_ROUTE_ID: u16 = 29200;
/// Id of the home layer.
pub const DEFAULT_HOME_ID: u16 = 29201;
/// Id of the help layer.
pub const DEFAULT_HELP_ID: u16 = 29202;

/// Index of the last element whose id is `id`.
pub open spec fn last_index<T>(s: Seq<(u16, T)>, id: u16) -> Option<int>
    decreases s.len(),
{
    if s.len() == 0 {
        None
    } else if s.last().0 == id {
        Some(s.len() - 1)
    } else {
        last_index(s.drop_last(), id)
    }
}

/// Index of the first element whose id is `id`.
pub open spec fn first_index<T>(s: Seq<(u16, T)>, id: u16) -> Option<int>
    decreases s.len(),
{
    if s.len() == 0 {
        None
    } else if s[0].0 == id {
        Some(0)
    } else {
        match first_index(s.drop_first(), id) {
            Some(i) => Some(i + 1),
            None => None,
        }
    }
}

proof fn lemma_last_index_bounds<T>(s: Seq<(u16, T)>, id: u16)
    ensures
        last_index(s, id) matches Some(i) ==> 0 <= i < s.len() && s[i].0 == id,
        last_index(s, id) is None ==> forall|j: int| 0 <= j < s.len() ==> s[j].0 != id,
    decreases s.len(),
{
    if s.len() > 0 && s.last().0 != id {
        lemma_last_index_bounds(s.drop_last(), id);
        assert forall|j: int| 0 <= j < s.len() - 1 implies s[j] == s.drop_last()[j] by {}
    }
}

proof fn lemma_first_index_bounds<T>(s: Seq<(u16, T)>, id: u16)
    ensures
        first_index(s, id) matches Some(i) ==> 0 <= i < s.len() && s[i].0 == id
            && forall|j: int| 0 <= j < i ==> s[j].0 != id,
        first_index(s, id) is None ==> forall|j: int| 0 <= j < s.len() ==> s[j].0 != id,
    decreases s.len(),
{
    if s.len() > 0 && s[0].0 != id {
        lemma_first_index_bounds(s.drop_first(), id);
        assert forall|j: int| 1 <= j < s.len() implies s[j] == s.drop_first()[j - 1] by {}
    }
}

/// The stack turned by one: up moves the bottom layer to the top, down
/// moves the top layer to the bottom.
pub open spec fn spec_rotate<T>(s: Seq<T>, up: bool) -> Seq<T> {
    if s.len() == 0 {
        s
    } else if up {
        s.subrange(1, s.len() as int).push(s[0])
    } else {
        seq![s.last()] + s.subrange(0, s.len() - 1)
    }
}

/// The stack without the home and patch-bay layers, the patch-bay layer
/// (if there was one to take out) and the home layer, taken out in the
/// order the main loop takes them out.
pub open spec fn spec_take_pinned<T>(s: Seq<(u16, T)>, r_i: Option<int>, h_i: int)
    -> (Seq<(u16, T)>, Option<(u16, T)>, (u16, T)) {
    match r_i {
        Some(r) => if r > h_i {
            (s.remove(r).remove(h_i), Some(s[r]), s[h_i])
        } else {
            let s1 = s.remove(h_i);
            if r < s1.len() {
                (s1.remove(r), Some(s1[r]), s[h_i])
            } else {
                (s1, None, s[h_i])
            }
        },
        None => (s.remove(h_i), None, s[h_i]),
    }
}

/// The index of the patch-bay layer, if `routes_id` names one on the stack.
pub open spec fn routes_index<T>(s: Seq<(u16, T)>, routes_id: Option<u16>) -> Option<int> {
    match routes_id {
        Some(rid) => last_index(s, rid),
        None => None,
    }
}

/// Whether the patch-bay layer is the one being shown and must stay on top.
pub open spec fn routes_pinned<T>(s: Seq<(u16, T)>, routes_id: Option<u16>, target_id: u16) -> bool {
    routes_index(s, routes_id) is Some && routes_id == Some(target_id)
}

/// The stack after sliding the modules up or down: the home layer stays at
/// the bottom, the patch-bay layer stays just below it, or is handed back to
/// be put on top when it is the layer being shown.
pub open spec fn spec_slide<T>(s: Seq<(u16, T)>, routes_id: Option<u16>, target_id: u16, up: bool)
    -> (Seq<(u16, T)>, Option<(u16, T)>) {
    let h_i = last_index(s, DEFAULT_HOME_ID).unwrap();
    let taken = spec_take_pinned(s, routes_index(s, routes_id), h_i);
    let rest = seq![taken.2] + spec_rotate(taken.0, up);
    match taken.1 {
        Some(r) => if routes_pinned(s, routes_id, target_id) {
            (rest, Some(r))
        } else {
            (seq![r] + rest, None)
        },
        None => (rest, None),
    }
}

/// Index of the topmost layer that hides everything below it.
pub open spec fn topmost_opaque(alphas: Seq<bool>) -> Option<int>
    decreases alphas.len(),
{
    if alphas.len() == 0 {
        None
    } else if !alphas.last() {
        Some(alphas.len() - 1)
    } else {
        topmost_opaque(alphas.drop_last())
    }
}

proof fn lemma_topmost_opaque<T>(alphas: Seq<bool>)
    ensures
        topmost_opaque(alphas) matches Some(i) ==> 0 <= i < alphas.len() && !alphas[i]
            && forall|j: int| i < j < alphas.len() ==> alphas[j],
        topmost_opaque(alphas) is None ==> forall|j: int| 0 <= j < alphas.len() ==> alphas[j],
    decreases alphas.len(),
{
    if alphas.len() > 0 && alphas.last() {
        lemma_topmost_opaque::<T>(alphas.drop_last());
        assert forall|j: int| 0 <= j < alphas.len() - 1 implies alphas[j] == alphas.drop_last()[j] by {}
    }
}

/// The first layer to render: layers above the topmost opaque one are
/// see-through and are drawn over it.
pub fn render_bottom(alphas: &Vec<bool>) -> (r: usize)
    requires
        alphas@.len() == 0 || topmost_opaque(alphas@) is Some,
    ensures
        alphas@.len() == 0 ==> r == 0,
        alphas@.len() > 0 ==> r == topmost_opaque(alphas@).unwrap(),
{
    if alphas.len() == 0 {
        return 0;
    }
    proof { lemma_topmost_opaque::<bool>(alphas@); }
    let mut bottom = alphas.len() - 1;
    while alphas[bottom]
        invariant
            bottom < alphas@.len(),
            topmost_opaque(alphas@) is Some,
            topmost_opaque(alphas@).unwrap() <= bottom,
            forall|j: int| bottom < j < alphas@.len() ==> alphas@[j],
            topmost_opaque(alphas@) matches Some(i) ==> 0 <= i < alphas@.len() && !alphas@[i]
                && forall|j: int| i < j < alphas@.len() ==> alphas@[j],
        decreases bottom,
    {
        bottom = bottom - 1;
    }
    bottom
}

/// The ids of the layers anchors are shown for: every anchor gets the module id.
pub open spec fn spec_fill_anchors(anchors: Seq<Anchor>, module_id: u16) -> Seq<Anchor> {
    anchors.map_values(|a: Anchor| Anchor { module_id, ..a })
}

/// Stamps the module id of the layer that announced its anchors on each anchor.
pub fn fill_anchors(anchors: &Vec<Anchor>, module_id: u16) -> (r: Vec<Anchor>)
    ensures
        r@ == spec_fill_anchors(anchors@, module_id),
{
    let mut r: Vec<Anchor> = Vec::new();
    for i in 0..anchors.len()
        invariant
            r@ == spec_fill_anchors(anchors@.take(i as int), module_id),
    {
        let a = &anchors[i];
        r.push(Anchor { index: a.index, module_id, name: a.name.clone(), input: a.input });
        assert(spec_fill_anchors(anchors@.take(i + 1), module_id) =~= spec_fill_anchors(
            anchors@.take(i as int),
            module_id,
        ).push(Anchor { module_id, ..anchors@[i as int] }));
    }
    assert(anchors@.take(anchors@.len() as int) =~= anchors@);
    r
}

/// The layers, bottom first, each with the id it was added under.
pub struct LayerStack<T> {
    pub layers: std::collections::VecDeque<(u16, T)>,
}

impl<T> LayerStack<T> {
    /// An empty stack.
    pub fn new() -> (r: Self)
        ensures
            r.layers@ == Seq::<(u16, T)>::empty(),
    {
        LayerStack { layers: std::collections::VecDeque::new() }
    }

    /// Puts a layer on top.
    pub fn add_layer(&mut self, layer: T, id: u16)
        ensures
            final(self).layers@ == old(self).layers@.push((id, layer)),
    {
        self.layers.push_back((id, layer));
    }

    /// The index and id of the top layer, the one that receives actions;
    /// `(0, 0)` for an empty stack.
    pub fn target(&self) -> (r: (usize, u16))
        ensures
            self.layers@.len() == 0 ==> r == (0usize, 0u16),
            self.layers@.len() > 0 ==> r.0 == self.layers@.len() - 1
                && r.1 == self.layers@[self.layers@.len() - 1].0,
    {
        let n = self.layers.len();
        if n > 0 {
            (n - 1, self.layers[n - 1].0)
        } else {
            (0, 0)
        }
    }

    /// Sends the top layer to the bottom.
    pub fn back(&mut self)
        ensures
            old(self).layers@.len() == 0 ==> final(self).layers@ == old(self).layers@,
            old(self).layers@.len() > 0 ==> final(self).layers@ == spec_rotate(old(self).layers@, false),
    {
        if let Some(current) = self.layers.pop_back() {
            self.layers.push_front(current);
        }
    }

    /// Index of the last layer added under `id`.
    pub fn find_last(&self, id: u16) -> (r: Option<usize>)
        ensures
            r matches Some(i) ==> last_index(self.layers@, id) == Some(i as int),
            r is None ==> last_index(self.layers@, id) is None,
    {
        let mut found: Option<usize> = None;
        for i in 0..self.layers.len()
            invariant
                found matches Some(j) ==> last_index(self.layers@.take(i as int), id) == Some(j as int),
                found is None ==> last_index(self.layers@.take(i as int), id) is None,
        {
            assert(self.layers@.take(i + 1).drop_last() =~= self.layers@.take(i as int));
            if self.layers[i].0 == id {
                found = Some(i);
            }
        }
        assert(self.layers@.take(self.layers@.len() as int) =~= self.layers@);
        found
    }

    /// Index of the first layer added under `id`.
    pub fn find_first(&self, id: u16) -> (r: Option<usize>)
        ensures
            r matches Some(i) ==> first_index(self.layers@, id) == Some(i as int),
            r is None ==> first_index(self.layers@, id) is None,
    {
        let mut i: usize = 0;
        while i < self.layers.len()
            invariant
                i <= self.layers@.len(),
                forall|j: int| 0 <= j < i ==> self.layers@[j].0 != id,
            decreases self.layers@.len() - i,
        {
            if self.layers[i].0 == id {
                proof { lemma_first_index_bounds(self.layers@, id); }
                proof { lemma_first_is_first(self.layers@, id, i as int); }
                return Some(i);
            }
            i = i + 1;
        }
        proof { lemma_first_index_bounds(self.layers@, id); }
        None
    }

    /// Takes out the last layer added under `id`.
    pub fn take_last(&mut self, id: u16) -> (r: Option<(u16, T)>)
        ensures
            match last_index(old(self).layers@, id) {
                Some(i) => r == Some(old(self).layers@[i]) && final(self).layers@ == old(self).layers@.remove(i),
                None => r is None && final(self).layers@ == old(self).layers@,
            },
    {
        proof { lemma_last_index_bounds(self.layers@, id); }
        match self.find_last(id) {
            Some(i) => self.layers.remove(i),
            None => None,
        }
    }

    /// Takes out the first layer added under `id`.
    pub fn take_first(&mut self, id: u16) -> (r: Option<(u16, T)>)
        ensures
            match first_index(old(self).layers@, id) {
                Some(i) => r == Some(old(self).layers@[i]) && final(self).layers@ == old(self).layers@.remove(i),
                None => r is None && final(self).layers@ == old(self).layers@,
            },
    {
        proof { lemma_first_index_bounds(self.layers@, id); }
        match self.find_first(id) {
            Some(i) => self.layers.remove(i),
            None => None,
        }
    }

    /// Slides the modules up or down under the home layer; see `spec_slide`.
    /// Returns the patch-bay layer when it was on show, for the caller to put
    /// back on top once it has been told the anchors of the new top layer.
    pub fn slide(&mut self, routes_id: Option<u16>, target_id: u16, up: bool) -> (r: Option<(u16, T)>)
        requires
            last_index(old(self).layers@, DEFAULT_HOME_ID) is Some,
        ensures
            (final(self).layers@, r) == spec_slide(old(self).layers@, routes_id, target_id, up),
    {
        let ghost s = self.layers@;
        proof { lemma_last_index_bounds(s, DEFAULT_HOME_ID); }
        let routes_i: Option<usize> = match routes_id {
            Some(rid) => self.find_last(rid),
            None => None,
        };
        let pin_routes = routes_i.is_some() && routes_id == Some(target_id);
        let h_i = self.find_last(DEFAULT_HOME_ID).unwrap();
        proof {
            if let Some(rid) = routes_id {
                lemma_last_index_bounds(s, rid);
            }
        }
        let (routes_view, home_view) = match routes_i {
            Some(r_i) => {
                if r_i > h_i {
                    let r = self.layers.remove(r_i);
                    let h = self.layers.remove(h_i);
                    (r, h)
                } else {
                    let h = self.layers.remove(h_i);
                    let r = self.layers.remove(r_i);
                    (r, h)
                }
            },
            None => (None, self.layers.remove(h_i)),
        };
        if up {
            if let Some(current) = self.layers.pop_front() {
                self.layers.push_back(current);
            }
        } else {
            if let Some(current) = self.layers.pop_back() {
                self.layers.push_front(current);
            }
        }
        assert(self.layers@ =~= spec_rotate(spec_take_pinned(s, routes_index(s, routes_id), h_i as int).0, up));
        if let Some(view) = home_view {
            self.layers.push_front(view);
        }
        match routes_view {
            Some(routes) => {
                if pin_routes {
                    Some(routes)
                } else {
                    self.layers.push_front(routes);
                    None
                }
            },
            None => None,
        }
    }
}

proof fn lemma_first_is_first<T>(s: Seq<(u16, T)>, id: u16, i: int)
    requires
        0 <= i < s.len(),
        s[i].0 == id,
        forall|j: int| 0 <= j < i ==> s[j].0 != id,
    ensures
        first_index(s, id) == Some(i),
    decreases i,
{
    if i > 0 {
        assert forall|j: int| 0 <= j < i - 1 implies s.drop_first()[j].0 != id by {
            assert(s.drop_first()[j] == s[j + 1]);
        }
        lemma_first_is_first(s.drop_first(), id, i - 1);
    }
}

/// Turning the stack one way and then the other gives it back unchanged,
/// with every layer where it was.
pub proof fn law_rotate_inverse<T>(s: Seq<T>, up: bool)
    ensures
        spec_rotate(spec_rotate(s, up), !up) == s,
        spec_rotate(s, up).len() == s.len(),
        spec_rotate(s, up).to_multiset() == s.to_multiset(),
{
    broadcast use vstd::multiset::group_multiset_axioms;
    if s.len() > 0 {
        if up {
            let r = spec_rotate(s, true);
            assert(seq![r.last()] + r.subrange(0, r.len() - 1) =~= s);
            assert(s =~= seq![s[0]] + s.subrange(1, s.len() as int));
            vstd::seq_lib::lemma_multiset_commutative(seq![s[0]], s.subrange(1, s.len() as int));
            assert(r =~= s.subrange(1, s.len() as int) + seq![s[0]]);
            vstd::seq_lib::lemma_multiset_commutative(s.subrange(1, s.len() as int), seq![s[0]]);
            assert(r.to_multiset() =~= s.to_multiset());
        } else {
            let r = spec_rotate(s, false);
            assert(r.subrange(1, r.len() as int).push(r[0]) =~= s);
            assert(s =~= s.subrange(0, s.len() - 1) + seq![s.last()]);
            vstd::seq_lib::lemma_multiset_commutative(s.subrange(0, s.len() - 1), seq![s.last()]);
            vstd::seq_lib::lemma_multiset_commutative(seq![s.last()], s.subrange(0, s.len() - 1));
            assert(r.to_multiset() =~= s.to_multiset());
        }
    }
}

proof fn lemma_remove_insert<A>(s: Seq<A>, i: int)
    requires
        0 <= i < s.len(),
    ensures
        s.remove(i).to_multiset().insert(s[i]) == s.to_multiset(),
{
    broadcast use vstd::multiset::group_multiset_axioms;
    broadcast use vstd::seq_lib::to_multiset_remove;
    s.to_multiset_ensures();
    assert(s.contains(s[i]));
    assert(s.remove(i).to_multiset().insert(s[i]) =~= s.to_multiset());
}

/// Sliding the modules keeps every layer: the new stack and the patch-bay
/// layer handed back (if any) hold exactly the layers of the old stack, and
/// the home layer is at the bottom or, under a patch bay that stays, just above it.
pub proof fn law_slide_keeps_layers<T>(s: Seq<(u16, T)>, routes_id: Option<u16>, target_id: u16, up: bool)
    requires
        last_index(s, DEFAULT_HOME_ID) is Some,
    ensures
        ({
            let slid = spec_slide(s, routes_id, target_id, up);
            &&& (match slid.1 { Some(p) => slid.0.push(p), None => slid.0 }).to_multiset() == s.to_multiset()
            &&& match slid.1 {
                Some(_) => slid.0[0].0 == DEFAULT_HOME_ID,
                None => slid.0[0].0 == DEFAULT_HOME_ID || slid.0[1].0 == DEFAULT_HOME_ID,
            }
        }),
{
    broadcast use vstd::multiset::group_multiset_axioms;
    broadcast use vstd::seq_lib::to_multiset_remove;
    lemma_last_index_bounds(s, DEFAULT_HOME_ID);
    let h_i = last_index(s, DEFAULT_HOME_ID).unwrap();
    let r_i = routes_index(s, routes_id);
    if let Some(rid) = routes_id {
        lemma_last_index_bounds(s, rid);
    }
    let taken = spec_take_pinned(s, r_i, h_i);
    law_rotate_inverse(taken.0, up);
    let rot = spec_rotate(taken.0, up);
    let rest = seq![taken.2] + rot;
    match taken.1 {
        Some(r) => {
            broadcast use vstd::seq_lib::to_multiset_build;
            let ri = r_i.unwrap();
            if ri > h_i {
                assert(s.remove(ri)[h_i] == s[h_i]);
                lemma_remove_insert(s, ri);
                lemma_remove_insert(s.remove(ri), h_i);
            } else {
                let s1 = s.remove(h_i);
                lemma_remove_insert(s, h_i);
                lemma_remove_insert(s1, ri);
            }
            let m0 = taken.0.to_multiset();
            assert(s.to_multiset() =~= m0.insert(taken.2).insert(r));
            broadcast use vstd::seq_lib::to_multiset_insert;
            assert(rest =~= rot.insert(0, taken.2));
            assert(rest.to_multiset() =~= m0.insert(taken.2));
            assert(rest[0] == taken.2);
            assert(taken.2.0 == DEFAULT_HOME_ID);
            if routes_pinned(s, routes_id, target_id) {
                assert(rest.push(r).to_multiset() =~= s.to_multiset());
            } else {
                assert(seq![r] + rest =~= rest.insert(0, r));
                assert((seq![r] + rest).to_multiset() =~= s.to_multiset());
                assert((seq![r] + rest)[1] == rest[0]);
            }
        },
        None => {
            broadcast use vstd::seq_lib::to_multiset_insert;
            lemma_remove_insert(s, h_i);
            assert(rest =~= rot.insert(0, taken.2));
            assert(rest.to_multiset() =~= s.to_multiset());
        },
    }
}

} // verus!
