//! The patch module of a project document: routes and the anchors patched
//! into them, read into the patch bay's state and written back.

use vstd::prelude::*;
use crate::action::{Anchor, AnchorView, Route};
use crate::document::{XmlElement, attr_value, named, unnamed, take_children};
use crate::idmap::{IdMap, keys_increasing, has_key, key_index, lemma_key_index};
use vstd::multiset::Multiset;
use crate::modules::{param_map, mark_map, pairs_of, marks_of};
use crate::routes::RoutesState;
use crate::text::{joined, owned, parse_u16, spec_u16, u32_to_string, decimal};

verus! {

/// The anchor an `input` or `output` element stands for: its `index` and
/// `module` read as numbers, named "In " or "Out " and the index's text.
pub open spec fn anchor_of(e: XmlElement, input: bool) -> Option<AnchorView> {
    match (attr_value(e.attributes@, "index"@), attr_value(e.attributes@, "module"@)) {
        (Some(a), Some(m)) => match (spec_u16(a@), spec_u16(m@)) {
            (Some(i), Some(mi)) => Some(AnchorView {
                index: i,
                module_id: mi,
                name: (if input { "In "@ } else { "Out "@ }) + a@,
                input,
            }),
            _ => None,
        },
        _ => None,
    }
}

/// The anchors of a list of `input` (or `output`) elements, in order.
pub open spec fn anchors_of(es: Seq<XmlElement>, input: bool) -> Option<Seq<AnchorView>>
    decreases es.len(),
{
    if es.len() == 0 {
        Some(Seq::empty())
    } else {
        match (anchors_of(es.drop_last(), input), anchor_of(es.last(), input)) {
            (Some(p), Some(a)) => Some(p.push(a)),
            _ => None,
        }
    }
}

/// The id and patch of a `route` element: its inputs, then its outputs.
pub open spec fn route_of(e: XmlElement) -> Option<(u16, Seq<AnchorView>)> {
    match attr_value(e.attributes@, "id"@) {
        Some(t) => match (spec_u16(t@), anchors_of(named(e.children@, "input"@), true),
            anchors_of(named(e.children@, "output"@), false)) {
            (Some(id), Some(ins), Some(outs)) => Some((id, ins + outs)),
            _ => None,
        },
        None => None,
    }
}

/// Each anchor of `s`, in order, stored under its index.
pub open spec fn insert_all(m: Map<u16, AnchorView>, s: Seq<AnchorView>) -> Map<u16, AnchorView>
    decreases s.len(),
{
    if s.len() == 0 {
        m
    } else {
        insert_all(m, s.drop_last()).insert(s.last().index, s.last())
    }
}

/// The routes (id to id and patch) and anchors (index to anchor) of a list
/// of `route` elements read in order; a later route or anchor replaces an
/// earlier one with the same id or index.
pub open spec fn routes_read(rs: Seq<XmlElement>) -> Option<(Map<u16, (u16, Seq<AnchorView>)>, Map<u16, AnchorView>)>
    decreases rs.len(),
{
    if rs.len() == 0 {
        Some((Map::empty(), Map::empty()))
    } else {
        match (routes_read(rs.drop_last()), route_of(rs.last())) {
            (Some((routes, anchors)), Some((id, patch))) =>
                Some((routes.insert(id, (id, patch)), insert_all(anchors, patch))),
            _ => None,
        }
    }
}

/// What a route holds, with its anchors as plain values.
pub open spec fn route_shape(r: Route) -> (u16, Seq<AnchorView>) {
    (r.id, r.patch@.map_values(|a: Anchor| a@))
}

/// The `route` elements of a patch element once its parameters and marks are out.
pub open spec fn route_elements(doc: XmlElement) -> Seq<XmlElement> {
    named(unnamed(unnamed(doc.children@, "param"@), "mark"@), "route"@)
}

/// A patch element can be read: its parameters, marks and routes are well formed.
pub open spec fn patch_readable(doc: XmlElement) -> bool {
    &&& pairs_of(named(doc.children@, "param"@)) is Some
    &&& marks_of(named(unnamed(doc.children@, "param"@), "mark"@)) is Some
    &&& routes_read(route_elements(doc)) is Some
}

proof fn lemma_anchors_prefix(es: Seq<XmlElement>, input: bool, k: int)
    requires
        0 <= k <= es.len(),
        anchors_of(es.take(k), input) is None,
    ensures
        anchors_of(es, input) is None,
    decreases es.len() - k,
{
    if k < es.len() {
        assert(es.take(k + 1).drop_last() =~= es.take(k));
        lemma_anchors_prefix(es, input, k + 1);
    } else {
        assert(es.take(k) =~= es);
    }
}

proof fn lemma_routes_prefix(rs: Seq<XmlElement>, k: int)
    requires
        0 <= k <= rs.len(),
        routes_read(rs.take(k)) is None,
    ensures
        routes_read(rs) is None,
    decreases rs.len() - k,
{
    if k < rs.len() {
        assert(rs.take(k + 1).drop_last() =~= rs.take(k));
        lemma_routes_prefix(rs, k + 1);
    } else {
        assert(rs.take(k) =~= rs);
    }
}

proof fn lemma_insert_all_push(m: Map<u16, AnchorView>, s: Seq<AnchorView>, a: AnchorView)
    ensures
        insert_all(m, s.push(a)) == insert_all(m, s).insert(a.index, a),
{
    assert(s.push(a).drop_last() =~= s);
}

proof fn lemma_insert_all_concat(m: Map<u16, AnchorView>, s: Seq<AnchorView>, t: Seq<AnchorView>)
    ensures
        insert_all(m, s + t) == insert_all(insert_all(m, s), t),
    decreases t.len(),
{
    if t.len() == 0 {
        assert(s + t =~= s);
    } else {
        assert((s + t).drop_last() =~= s + t.drop_last());
        lemma_insert_all_concat(m, s, t.drop_last());
    }
}

/// Reads the anchors of `input` (or `output`) elements into a patch and the
/// anchor map; `None` when one lacks a numeric `index` or `module`.
fn read_anchors(es: &Vec<XmlElement>, input: bool, patch: &mut Vec<Anchor>, anchors: &mut IdMap<Anchor>) -> (ok: bool)
    ensures
        ok == anchors_of(es@, input) is Some,
        ok ==> final(patch)@.map_values(|a: Anchor| a@) == old(patch)@.map_values(|a: Anchor| a@) + anchors_of(es@, input).unwrap(),
        ok ==> final(anchors)@.map_values(|a: Anchor| a@) == insert_all(old(anchors)@.map_values(|a: Anchor| a@), anchors_of(es@, input).unwrap()),
{
    let ghost p0 = patch@.map_values(|a: Anchor| a@);
    let ghost m0 = anchors@.map_values(|a: Anchor| a@);
    for i in 0..es.len()
        invariant
            anchors_of(es@.take(i as int), input) is Some,
            patch@.map_values(|a: Anchor| a@) == p0 + anchors_of(es@.take(i as int), input).unwrap(),
            anchors@.map_values(|a: Anchor| a@) == insert_all(m0, anchors_of(es@.take(i as int), input).unwrap()),
    {
        let e = &es[i];
        let ghost prev = anchors_of(es@.take(i as int), input).unwrap();
        assert(es@.take(i + 1).drop_last() =~= es@.take(i as int));
        assert(es@.take(i + 1).last() == es@[i as int]);
        let a = match (e.attr("index"), e.attr("module")) {
            (Some(a_text), Some(m_text)) => match (parse_u16(a_text.as_str()), parse_u16(m_text.as_str())) {
                (Some(index), Some(module_id)) => {
                    let prefix = if input { "In " } else { "Out " };
                    let name = joined(prefix, a_text.as_str());
                    Anchor { index, module_id, name, input }
                },
                _ => {
                    proof { lemma_anchors_prefix(es@, input, i + 1); }
                    return false;
                },
            },
            _ => {
                proof { lemma_anchors_prefix(es@, input, i + 1); }
                return false;
            },
        };
        assert(anchor_of(es@[i as int], input) == Some(a@));
        let ghost pv = patch@.map_values(|a: Anchor| a@);
        let ghost mv = anchors@.map_values(|a: Anchor| a@);
        patch.push(a.clone());
        assert(patch@.map_values(|a: Anchor| a@) =~= pv.push(a@));
        assert(p0 + prev.push(a@) =~= (p0 + prev).push(a@));
        let ghost a_view = a@;
        anchors.insert(a.index, a);
        assert(anchors@.map_values(|a: Anchor| a@) =~= mv.insert(a_view.index, a_view));
        proof { lemma_insert_all_push(m0, prev, a_view); }
    }
    assert(es@.take(es@.len() as int) =~= es@);
    true
}

/// Reads a patch element into the patch bay's state: each route with its
/// inputs then outputs, and every anchor by index. `None` when a parameter
/// or mark is malformed, or a route or anchor lacks a numeric id, index or
/// module.
pub fn read(doc: XmlElement) -> (r: Option<RoutesState>)
    ensures
        r is Some <==> patch_readable(doc),
        r matches Some(s) ==> {
            &&& s.routes@.map_values(|x: Route| route_shape(x)) == routes_read(route_elements(doc)).unwrap().0
            &&& s.anchors@.map_values(|a: Anchor| a@) == routes_read(route_elements(doc)).unwrap().1
            &&& s.focus == (0usize, 0usize)
            &&& s.selected_route is None
            &&& s.selected_anchor is None
        },
{
    let rest = match param_map(doc) {
        Some((rest, _)) => rest,
        None => return None,
    };
    let mut rest = match mark_map(rest) {
        Some((rest, _)) => rest,
        None => return None,
    };
    let route_els = take_children(&mut rest, "route");
    let ghost rs = route_els@;
    assert(rs == route_elements(doc));
    let mut routes: IdMap<Route> = IdMap::new();
    let mut anchors: IdMap<Anchor> = IdMap::new();
    assert(routes@.map_values(|x: Route| route_shape(x)) =~= Map::<u16, (u16, Seq<AnchorView>)>::empty());
    assert(anchors@.map_values(|a: Anchor| a@) =~= Map::<u16, AnchorView>::empty());
    let mut els = route_els;
    // Walk the routes front to back: move them out last first.
    let n = els.len();
    let mut rev: Vec<XmlElement> = Vec::new();
    while els.len() > 0
        invariant
            els@.len() + rev@.len() == n,
            n == rs.len(),
            forall|i: int| 0 <= i < els@.len() ==> els@[i] == rs[i],
            forall|i: int| 0 <= i < rev@.len() ==> rev@[i] == rs[n - 1 - i],
        decreases els@.len(),
    {
        let c = els.pop().unwrap();
        rev.push(c);
    }
    while rev.len() > 0
        invariant
            n == rs.len(),
            rev@.len() <= n,
            forall|i: int| 0 <= i < rev@.len() ==> rev@[i] == rs[n - 1 - i],
            routes_read(rs.take(n - rev@.len())) matches Some((rm, am)) &&
                routes@.map_values(|x: Route| route_shape(x)) == rm && anchors@.map_values(|a: Anchor| a@) == am,
            rs == route_elements(doc),
            pairs_of(named(doc.children@, "param"@)) is Some,
            marks_of(named(unnamed(doc.children@, "param"@), "mark"@)) is Some,
        decreases rev@.len(),
    {
        let ghost k = n - rev@.len();
        let mut e = rev.pop().unwrap();
        assert(e == rs[k]);
        assert(rs.take(k + 1).drop_last() =~= rs.take(k));
        assert(rs.take(k + 1).last() == e);
        let ghost e0 = e;
        let id = match e.attr("id") {
            Some(t) => parse_u16(t.as_str()),
            None => None,
        };
        let id = match id {
            Some(i) => i,
            None => {
                assert(route_of(e0) is None);
                proof { lemma_routes_prefix(rs, k + 1); }
                return None;
            },
        };
        let ins = take_children(&mut e, "input");
        let outs = take_children(&mut e, "output");
        assert(named(unnamed(e0.children@, "input"@), "output"@) == named(e0.children@, "output"@)) by {
            reveal_strlit("input");
            reveal_strlit("output");
            assert("input"@.len() != "output"@.len());
            crate::document::lemma_named_unnamed(e0.children@, "input"@, "output"@);
        }
        let ghost am0 = anchors@.map_values(|a: Anchor| a@);
        let mut patch: Vec<Anchor> = Vec::new();
        assert(patch@.map_values(|a: Anchor| a@) =~= Seq::<AnchorView>::empty());
        if !read_anchors(&ins, true, &mut patch, &mut anchors) {
            assert(route_of(e0) is None);
            proof { lemma_routes_prefix(rs, k + 1); }
            return None;
        }
        let ghost am1 = anchors@.map_values(|a: Anchor| a@);
        if !read_anchors(&outs, false, &mut patch, &mut anchors) {
            assert(route_of(e0) is None);
            proof { lemma_routes_prefix(rs, k + 1); }
            return None;
        }
        let ghost iv = anchors_of(ins@, true).unwrap();
        let ghost ov = anchors_of(outs@, false).unwrap();
        assert(Seq::<AnchorView>::empty() + iv =~= iv);
        proof { lemma_insert_all_concat(am0, iv, ov); }
        assert(route_of(e0) == Some((id, iv + ov)));
        let ghost rm = routes@.map_values(|x: Route| route_shape(x));
        let route = Route { id, patch };
        assert(route_shape(route) == (id, iv + ov));
        routes.insert(id, route);
        assert(routes@.map_values(|x: Route| route_shape(x)) =~= rm.insert(id, (id, iv + ov)));
    }
    assert(rs.take(n as int) =~= rs);
    Some(RoutesState { routes, anchors, focus: (0, 0), selected_route: None, selected_anchor: None })
}

/// Attribute `i` has this key and value.
pub open spec fn attr_is(attrs: Seq<(String, String)>, i: int, key: Seq<char>, value: Seq<char>) -> bool {
    attrs[i].0@ == key && attrs[i].1@ == value
}

/// `e` is the element written for anchor `a`: `input` or `output`, with its
/// module id and index.
pub open spec fn anchor_element(e: XmlElement, a: AnchorView) -> bool {
    &&& e.name@ == (if a.input { "input"@ } else { "output"@ })
    &&& e.attributes@.len() == 2
    &&& attr_is(e.attributes@, 0, "module"@, decimal(a.module_id as nat))
    &&& attr_is(e.attributes@, 1, "index"@, decimal(a.index as nat))
    &&& e.children@.len() == 0
    &&& e.text is None
}

/// `e` is the element written for route `id` with this patch.
pub open spec fn route_element(e: XmlElement, id: u16, patch: Seq<AnchorView>) -> bool {
    &&& e.name@ == "route"@
    &&& e.attributes@.len() == 1
    &&& attr_is(e.attributes@, 0, "id"@, decimal(id as nat))
    &&& e.children@.len() == patch.len()
    &&& forall|i: int| 0 <= i < patch.len() ==> anchor_element(#[trigger] e.children@[i], patch[i])
    &&& e.text is None
}

/// The element written for an anchor.
fn write_anchor(a: &Anchor) -> (e: XmlElement)
    ensures
        anchor_element(e, a@),
{
    let mut attributes: Vec<(String, String)> = Vec::new();
    attributes.push((owned("module"), u32_to_string(a.module_id as u32)));
    attributes.push((owned("index"), u32_to_string(a.index as u32)));
    let name = if a.input { owned("input") } else { owned("output") };
    XmlElement { name, attributes, children: Vec::new(), text: None }
}

/// The element written for a route.
fn write_route(id: u16, patch: &Vec<Anchor>) -> (e: XmlElement)
    ensures
        route_element(e, id, patch@.map_values(|a: Anchor| a@)),
{
    let mut attributes: Vec<(String, String)> = Vec::new();
    attributes.push((owned("id"), u32_to_string(id as u32)));
    let mut children: Vec<XmlElement> = Vec::new();
    for i in 0..patch.len()
        invariant
            children@.len() == i,
            forall|j: int| 0 <= j < i ==> anchor_element(#[trigger] children@[j], patch@[j]@),
    {
        children.push(write_anchor(&patch[i]));
    }
    XmlElement { name: owned("route"), attributes, children, text: None }
}

/// `r` is the patch element written for this state: a `route` element for
/// each route in increasing id order, then the master route (id 1) when
/// there is none.
pub open spec fn patch_written(state: RoutesState, r: XmlElement) -> bool {
    &&& r.name@ == "patch"@
    &&& r.attributes@.len() == 0
    &&& r.text is None
    &&& r.children@.len() == state.routes.seq().len() + if state.routes@.contains_key(1) { 0int } else { 1int }
    &&& forall|i: int| 0 <= i < state.routes.seq().len() ==> route_element(#[trigger] r.children@[i],
        state.routes.seq()[i].0, state.routes.seq()[i].1.patch@.map_values(|a: Anchor| a@))
    &&& !state.routes@.contains_key(1) ==> route_element(r.children@[state.routes.seq().len() as int], 1,
        Seq::<AnchorView>::empty())
}

/// Writes the patch bay's state as a patch element: a `route` element for
/// each route in increasing id order, holding an `input` or `output`
/// element per anchor, and an empty master route (id 1) at the end when
/// there is none.
pub fn write(state: RoutesState) -> (r: XmlElement)
    ensures
        patch_written(state, r),
{
    let entries = state.routes.entries();
    let mut children: Vec<XmlElement> = Vec::new();
    let mut has_master = false;
    for i in 0..entries.len()
        invariant
            entries@ == state.routes.seq(),
            keys_increasing(entries@),
            children@.len() == i,
            forall|j: int| 0 <= j < i ==> route_element(#[trigger] children@[j], entries@[j].0,
                entries@[j].1.patch@.map_values(|a: Anchor| a@)),
            has_master <==> exists|j: int| 0 <= j < i && entries@[j].0 == 1,
    {
        if entries[i].0 == 1 {
            has_master = true;
        }
        children.push(write_route(entries[i].0, &entries[i].1.patch));
    }
    proof {
        if has_master {
            let j = choose|j: int| 0 <= j < entries@.len() && entries@[j].0 == 1;
            lemma_key_index(entries@, j);
        } else {
            if state.routes@.contains_key(1) {
                assert(has_key(entries@, 1));
            }
        }
    }
    if !has_master {
        let empty: Vec<Anchor> = Vec::new();
        let master = write_route(1, &empty);
        assert(empty@.map_values(|a: Anchor| a@) =~= Seq::<AnchorView>::empty());
        children.push(master);
    }
    XmlElement { name: owned("patch"), attributes: Vec::new(), children, text: None }
}

/// An anchor as reading gives it back: named after its side and index.
pub open spec fn read_name(a: AnchorView) -> AnchorView {
    AnchorView { name: (if a.input { "In "@ } else { "Out "@ }) + decimal(a.index as nat), ..a }
}

/// The anchors of one side of a patch, in order, as reading gives them back.
pub open spec fn side(p: Seq<AnchorView>, input: bool) -> Seq<AnchorView>
    decreases p.len(),
{
    if p.len() == 0 {
        Seq::empty()
    } else if p.last().input == input {
        side(p.drop_last(), input).push(read_name(p.last()))
    } else {
        side(p.drop_last(), input)
    }
}

/// A patch as reading gives it back: its inputs, then its outputs.
pub open spec fn read_patch(p: Seq<AnchorView>) -> Seq<AnchorView> {
    side(p, true) + side(p, false)
}

/// The routes (by id) and anchors (by index) that reading gives back for
/// routes written in this order.
pub open spec fn read_back(es: Seq<(u16, Seq<AnchorView>)>) -> (Map<u16, (u16, Seq<AnchorView>)>, Map<u16, AnchorView>)
    decreases es.len(),
{
    if es.len() == 0 {
        (Map::empty(), Map::empty())
    } else {
        let prev = read_back(es.drop_last());
        let q = read_patch(es.last().1);
        (prev.0.insert(es.last().0, (es.last().0, q)), insert_all(prev.1, q))
    }
}

/// The routes `write` writes, in order: each id with its patch, then the
/// master route when there is none.
pub open spec fn written_routes(state: RoutesState) -> Seq<(u16, Seq<AnchorView>)> {
    let es = state.routes.seq().map_values(|e: (u16, Route)| (e.0, e.1.patch@.map_values(|a: Anchor| a@)));
    if state.routes@.contains_key(1) { es } else { es.push((1u16, Seq::<AnchorView>::empty())) }
}

proof fn lemma_anchor_read(e: XmlElement, a: AnchorView)
    requires
        anchor_element(e, a),
    ensures
        anchor_of(e, a.input) == Some(read_name(a)),
{
    reveal_strlit("index");
    reveal_strlit("module");
    let attrs = e.attributes@;
    assert("module"@ != "index"@) by {
        assert("module"@.len() != "index"@.len());
    }
    assert(attrs.drop_first()[0] == attrs[1]);
    assert(attr_value(attrs.drop_first(), "index"@) == Some(attrs[1].1));
    assert(attr_value(attrs, "index"@) == Some(attrs[1].1));
    assert(attr_value(attrs, "module"@) == Some(attrs[0].1));
    crate::text::law_decimal_read_back(a.index as nat);
    crate::text::law_decimal_read_back(a.module_id as nat);
}

proof fn lemma_side_read(c: Seq<XmlElement>, p: Seq<AnchorView>, input: bool)
    requires
        c.len() == p.len(),
        forall|i: int| 0 <= i < p.len() ==> anchor_element(#[trigger] c[i], p[i]),
    ensures
        anchors_of(named(c, if input { "input"@ } else { "output"@ }), input) == Some(side(p, input)),
    decreases c.len(),
{
    reveal_strlit("input");
    reveal_strlit("output");
    assert("input"@ != "output"@) by {
        assert("input"@.len() != "output"@.len());
    }
    let nm = if input { "input"@ } else { "output"@ };
    if c.len() > 0 {
        lemma_side_read(c.drop_last(), p.drop_last(), input);
        let x = named(c.drop_last(), nm);
        assert(anchor_element(c.last(), p.last()));
        if p.last().input == input {
            assert(named(c, nm) == x.push(c.last()));
            assert(x.push(c.last()).drop_last() =~= x);
            lemma_anchor_read(c.last(), p.last());
        } else {
            assert(named(c, nm) == x);
        }
    }
}

proof fn lemma_route_read(e: XmlElement, id: u16, p: Seq<AnchorView>)
    requires
        route_element(e, id, p),
    ensures
        route_of(e) == Some((id, read_patch(p))),
{
    reveal_strlit("id");
    assert(attr_value(e.attributes@, "id"@) == Some(e.attributes@[0].1));
    crate::text::law_decimal_read_back(id as nat);
    lemma_side_read(e.children@, p, true);
    lemma_side_read(e.children@, p, false);
}

proof fn lemma_routes_read_back(rs: Seq<XmlElement>, ws: Seq<(u16, Seq<AnchorView>)>)
    requires
        rs.len() == ws.len(),
        forall|i: int| 0 <= i < ws.len() ==> route_element(#[trigger] rs[i], ws[i].0, ws[i].1),
    ensures
        routes_read(rs) == Some(read_back(ws)),
    decreases rs.len(),
{
    if rs.len() > 0 {
        lemma_routes_read_back(rs.drop_last(), ws.drop_last());
        assert(route_element(rs.last(), ws.last().0, ws.last().1));
        lemma_route_read(rs.last(), ws.last().0, ws.last().1);
    }
}

proof fn lemma_all_routes(ch: Seq<XmlElement>, other: Seq<char>)
    requires
        forall|i: int| 0 <= i < ch.len() ==> (#[trigger] ch[i]).name@ == "route"@,
        other != "route"@,
    ensures
        unnamed(ch, other) == ch,
        named(ch, "route"@) == ch,
        named(ch, other) == Seq::<XmlElement>::empty(),
    decreases ch.len(),
{
    if ch.len() > 0 {
        lemma_all_routes(ch.drop_last(), other);
        assert(ch.drop_last().push(ch.last()) =~= ch);
    }
}

/// Reading back a written patch gives every route back under its id, with
/// its inputs before its outputs and each anchor named after its side and
/// index, and every anchor under its index (a later route's replacing an
/// earlier one's); the master route comes back even where there was none.
pub proof fn law_patch_read_back(state: RoutesState, w: XmlElement)
    requires
        patch_written(state, w),
    ensures
        patch_readable(w),
        routes_read(route_elements(w)) == Some(read_back(written_routes(state))),
{
    reveal_strlit("route");
    reveal_strlit("param");
    reveal_strlit("mark");
    let ws = written_routes(state);
    let n = state.routes.seq().len();
    let ch = w.children@;
    assert(ch.len() == ws.len());
    assert forall|i: int| 0 <= i < ws.len() implies route_element(#[trigger] ch[i], ws[i].0, ws[i].1) by {
        if i < n {
            assert(route_element(ch[i], state.routes.seq()[i].0, state.routes.seq()[i].1.patch@.map_values(|a: Anchor| a@)));
        }
    }
    assert forall|i: int| 0 <= i < ch.len() implies (#[trigger] ch[i]).name@ == "route"@ by {
        assert(route_element(ch[i], ws[i].0, ws[i].1));
    }
    assert("param"@ != "route"@) by { assert("param"@[0] != "route"@[0]); }
    assert("mark"@ != "route"@) by { assert("mark"@.len() != "route"@.len()); }
    lemma_all_routes(ch, "param"@);
    lemma_all_routes(ch, "mark"@);
    assert(route_elements(w) == ch);
    lemma_routes_read_back(ch, ws);
}

/// What identifies an anchor in a patch: its index, module and side.
pub open spec fn anchor_key(a: AnchorView) -> (u16, u16, bool) {
    (a.index, a.module_id, a.input)
}

/// The anchors of a patch as a multiset of what identifies them.
pub open spec fn patch_keys(p: Seq<AnchorView>) -> Multiset<(u16, u16, bool)> {
    p.map_values(|a: AnchorView| anchor_key(a)).to_multiset()
}

proof fn lemma_patch_keys_concat(a: Seq<AnchorView>, b: Seq<AnchorView>)
    ensures
        patch_keys(a + b) == patch_keys(a).add(patch_keys(b)),
{
    let f = |x: AnchorView| anchor_key(x);
    assert((a + b).map_values(f) =~= a.map_values(f) + b.map_values(f));
    vstd::seq_lib::lemma_multiset_commutative(a.map_values(f), b.map_values(f));
}

proof fn lemma_patch_keys_push(a: Seq<AnchorView>, x: AnchorView)
    ensures
        patch_keys(a.push(x)) == patch_keys(a).insert(anchor_key(x)),
{
    let f = |y: AnchorView| anchor_key(y);
    assert(a.push(x).map_values(f) =~= a.map_values(f).push(anchor_key(x)));
    vstd::seq_lib::to_multiset_build(a.map_values(f), anchor_key(x));
}

proof fn lemma_patch_keys_empty(a: Seq<AnchorView>)
    requires
        a.len() == 0,
    ensures
        patch_keys(a) == Multiset::<(u16, u16, bool)>::empty(),
{
    let t = a.map_values(|y: AnchorView| anchor_key(y));
    t.to_multiset_ensures();
    vstd::multiset::lemma_multiset_empty_len(t.to_multiset());
}

/// One side of a patch holds only anchors of that side, and the two sides
/// together hold the patch's anchors.
proof fn lemma_sides(p: Seq<AnchorView>)
    ensures
        forall|i: int| 0 <= i < side(p, true).len() ==> (#[trigger] side(p, true)[i]).input,
        forall|i: int| 0 <= i < side(p, false).len() ==> !(#[trigger] side(p, false)[i]).input,
        patch_keys(side(p, true)).add(patch_keys(side(p, false))) == patch_keys(p),
    decreases p.len(),
{
    broadcast use vstd::multiset::group_multiset_axioms;
    if p.len() == 0 {
        lemma_patch_keys_empty(p);
        lemma_patch_keys_empty(side(p, true));
        lemma_patch_keys_empty(side(p, false));
    } else {
        let q = p.drop_last();
        let x = p.last();
        lemma_sides(q);
        assert(q.push(x) =~= p);
        lemma_patch_keys_push(q, x);
        assert(anchor_key(read_name(x)) == anchor_key(x));
        if x.input {
            lemma_patch_keys_push(side(q, true), read_name(x));
            assert(patch_keys(side(q, true)).insert(anchor_key(x)).add(patch_keys(side(q, false)))
                =~= patch_keys(side(q, true)).add(patch_keys(side(q, false))).insert(anchor_key(x)));
        } else {
            lemma_patch_keys_push(side(q, false), read_name(x));
            assert(patch_keys(side(q, true)).add(patch_keys(side(q, false)).insert(anchor_key(x)))
                =~= patch_keys(side(q, true)).add(patch_keys(side(q, false))).insert(anchor_key(x)));
        }
    }
}

/// Reading a patch back keeps its anchors (by index, module and side, each
/// as often as it was there) and puts the inputs before the outputs.
pub proof fn law_read_patch_keeps_anchors(p: Seq<AnchorView>)
    ensures
        patch_keys(read_patch(p)) == patch_keys(p),
        forall|i: int, j: int| 0 <= i < j < read_patch(p).len() && !(#[trigger] read_patch(p)[i]).input
            ==> !(#[trigger] read_patch(p)[j]).input,
{
    lemma_sides(p);
    lemma_patch_keys_concat(side(p, true), side(p, false));
    let t = side(p, true);
    let f = side(p, false);
    assert forall|i: int, j: int| 0 <= i < j < read_patch(p).len() && !(#[trigger] read_patch(p)[i]).input
        implies !(#[trigger] read_patch(p)[j]).input by {
        if i < t.len() {
            assert(read_patch(p)[i] == t[i]);
        }
        assert(j >= t.len());
        assert(read_patch(p)[j] == f[j - t.len()]);
    }
}

/// The ids routes read back in order are the entries' ids.
proof fn lemma_read_back_ids(es: Seq<(u16, Seq<AnchorView>)>)
    ensures
        forall|k: u16| read_back(es).0.contains_key(k) <==> exists|i: int| 0 <= i < es.len() && (#[trigger] es[i]).0 == k,
    decreases es.len(),
{
    if es.len() > 0 {
        let q = es.drop_last();
        lemma_read_back_ids(q);
        assert forall|k: u16| read_back(es).0.contains_key(k) <==> exists|i: int| 0 <= i < es.len() && (#[trigger] es[i]).0 == k by {
            if read_back(q).0.contains_key(k) {
                let i = choose|i: int| 0 <= i < q.len() && (#[trigger] q[i]).0 == k;
                assert(es[i] == q[i]);
            }
            if exists|i: int| 0 <= i < es.len() && (#[trigger] es[i]).0 == k {
                let i = choose|i: int| 0 <= i < es.len() && (#[trigger] es[i]).0 == k;
                if i < q.len() {
                    assert(q[i] == es[i]);
                }
            }
        }
    }
}

/// With distinct ids, every entry is read back with its patch.
proof fn lemma_read_back_entry(es: Seq<(u16, Seq<AnchorView>)>, i: int)
    requires
        0 <= i < es.len(),
        forall|a: int, b: int| 0 <= a < b < es.len() ==> #[trigger] es[b].0 != #[trigger] es[a].0,
    ensures
        read_back(es).0[es[i].0] == (es[i].0, read_patch(es[i].1)),
    decreases es.len(),
{
    let q = es.drop_last();
    if i < q.len() {
        assert(es[es.len() - 1].0 != es[i].0);
        assert(q[i] == es[i]);
        assert forall|a: int, b: int| 0 <= a < b < q.len() implies #[trigger] q[b].0 != #[trigger] q[a].0 by {
            assert(q[a] == es[a] && q[b] == es[b]);
        }
        lemma_read_back_entry(q, i);
    }
}

/// Reading back a written patch gives every route under its id, plus the
/// master route (id 1) with no anchor when there was none, and each route's
/// patch as reading gives it back (see `law_read_patch_keeps_anchors`).
pub proof fn law_patch_routes_read_back(state: RoutesState, w: XmlElement)
    requires
        patch_written(state, w),
        keys_increasing(state.routes.seq()),
    ensures
        routes_read(route_elements(w)) is Some,
        routes_read(route_elements(w)).unwrap().0.dom() == state.routes@.dom().insert(1),
        forall|k: u16| #[trigger] state.routes@.contains_key(k) ==> routes_read(route_elements(w)).unwrap().0[k]
            == (k, read_patch(state.routes@[k].patch@.map_values(|a: Anchor| a@))),
        !state.routes@.contains_key(1) ==> routes_read(route_elements(w)).unwrap().0[1]
            == (1u16, Seq::<AnchorView>::empty()),
{
    law_patch_read_back(state, w);
    let s = state.routes.seq();
    let es = written_routes(state);
    let n = s.len();
    lemma_read_back_ids(es);
    let m = read_back(es).0;
    assert forall|i: int| 0 <= i < n implies (#[trigger] es[i]) == (s[i].0, s[i].1.patch@.map_values(|a: Anchor| a@)) by {}
    assert forall|i: int, j: int| 0 <= i < j < es.len() implies #[trigger] es[j].0 != #[trigger] es[i].0 by {
        if j < n {
            assert(s[i].0 < s[j].0);
        } else {
            assert(!has_key(s, 1));
            assert(es[j].0 == 1);
            assert(es[i].0 == s[i].0);
        }
    }
    assert forall|k: u16| m.contains_key(k) <==> state.routes@.dom().insert(1).contains(k) by {
        if state.routes@.contains_key(k) {
            let i = key_index(s, k);
            assert(es[i].0 == k);
        }
        if k == 1 && !state.routes@.contains_key(1) {
            assert(es[n as int].0 == 1);
        }
        if m.contains_key(k) {
            let i = choose|i: int| 0 <= i < es.len() && (#[trigger] es[i]).0 == k;
            if i < n {
                assert(s[i].0 == k);
                assert(has_key(s, k));
            }
        }
    }
    assert(m.dom() =~= state.routes@.dom().insert(1));
    assert forall|k: u16| #[trigger] state.routes@.contains_key(k) implies m[k]
        == (k, read_patch(state.routes@[k].patch@.map_values(|a: Anchor| a@))) by {
        let i = key_index(s, k);
        lemma_key_index(s, i);
        assert(es[i] == (s[i].0, s[i].1.patch@.map_values(|a: Anchor| a@)));
        lemma_read_back_entry(es, i);
    }
    if !state.routes@.contains_key(1) {
        assert(es[n as int] == (1u16, Seq::<AnchorView>::empty()));
        lemma_read_back_entry(es, n as int);
        assert(read_patch(Seq::<AnchorView>::empty()) =~= Seq::<AnchorView>::empty());
    }
}

} // verus!
