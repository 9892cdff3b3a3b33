//! Reading a project document: its title, sample rate and module elements,
//! and the parameter and mark lists that a module element carries.

use vstd::prelude::*;
use crate::document::{XmlElement, attr_value, child_index, named, unnamed, take_children};
use crate::idmap::IdMap;
use crate::text::{owned, parse_u16, parse_u32, spec_u16, spec_u32};
use crate::xml::{ElementView, attr_map, element_of, element_view, parse_element, parsed, pick, views_of};


pub mod patch;
pub mod timeline;

verus! {

/// A project document: its title, its sample rate and its modules by id.
#[derive(Debug)]
pub struct Document {
    pub title: String,
    pub sample_rate: u32,
    pub modules: IdMap<XmlElement>,
}

/// The name and value of each element, in order, if every one has both.
pub open spec fn pairs_of(ch: Seq<XmlElement>) -> Option<Seq<(String, String)>>
    decreases ch.len(),
{
    if ch.len() == 0 {
        Some(Seq::empty())
    } else {
        match (pairs_of(ch.drop_last()), attr_value(ch.last().attributes@, "name"@),
            attr_value(ch.last().attributes@, "value"@)) {
            (Some(p), Some(k), Some(v)) => Some(p.push((k, v))),
            _ => None,
        }
    }
}

/// The name and numeric value of each element, in order, if every one has
/// a name and a value that reads as a `u32`.
pub open spec fn marks_of(ch: Seq<XmlElement>) -> Option<Seq<(String, u32)>>
    decreases ch.len(),
{
    if ch.len() == 0 {
        Some(Seq::empty())
    } else {
        match (marks_of(ch.drop_last()), attr_value(ch.last().attributes@, "name"@),
            attr_value(ch.last().attributes@, "value"@)) {
            (Some(p), Some(k), Some(v)) => match spec_u32(v@) {
                Some(n) => Some(p.push((k, n))),
                None => None,
            },
            _ => None,
        }
    }
}

/// The value last given to `name` (a later entry overrides an earlier one).
pub open spec fn lookup<V>(pairs: Seq<(String, V)>, name: Seq<char>) -> Option<V>
    decreases pairs.len(),
{
    if pairs.len() == 0 {
        None
    } else if pairs.last().0@ == name {
        Some(pairs.last().1)
    } else {
        lookup(pairs.drop_last(), name)
    }
}

/// `doc` with its children named `name` taken out.
pub open spec fn without(doc: XmlElement, name: Seq<char>, rest: XmlElement) -> bool {
    &&& rest.name == doc.name
    &&& rest.attributes == doc.attributes
    &&& rest.text == doc.text
    &&& rest.children@ == unnamed(doc.children@, name)
}

proof fn lemma_pairs_prefix(ch: Seq<XmlElement>, k: int)
    requires
        0 <= k <= ch.len(),
        pairs_of(ch.take(k)) is None,
    ensures
        pairs_of(ch) is None,
    decreases ch.len() - k,
{
    if k < ch.len() {
        assert(ch.take(k + 1).drop_last() =~= ch.take(k));
        lemma_pairs_prefix(ch, k + 1);
    } else {
        assert(ch.take(k) =~= ch);
    }
}

proof fn lemma_marks_prefix(ch: Seq<XmlElement>, k: int)
    requires
        0 <= k <= ch.len(),
        marks_of(ch.take(k)) is None,
    ensures
        marks_of(ch) is None,
    decreases ch.len() - k,
{
    if k < ch.len() {
        assert(ch.take(k + 1).drop_last() =~= ch.take(k));
        lemma_marks_prefix(ch, k + 1);
    } else {
        assert(ch.take(k) =~= ch);
    }
}

/// Takes the `param` children out of a module element and lists their names
/// and values (as text); `None` when a parameter lacks its name or value.
pub fn param_map(doc: XmlElement) -> (r: Option<(XmlElement, Vec<(String, String)>)>)
    ensures
        r is Some <==> pairs_of(named(doc.children@, "param"@)) is Some,
        r matches Some((rest, pairs)) ==> without(doc, "param"@, rest)
            && pairs@ == pairs_of(named(doc.children@, "param"@)).unwrap(),
{
    let mut rest = doc;
    let params = take_children(&mut rest, "param");
    let ghost ch = params@;
    let mut pairs: Vec<(String, String)> = Vec::new();
    for i in 0..params.len()
        invariant
            ch == params@,
            ch == named(doc.children@, "param"@),
            pairs_of(ch.take(i as int)) == Some(pairs@),
    {
        let p = &params[i];
        assert(ch.take(i + 1).drop_last() =~= ch.take(i as int));
        match (p.attr("name"), p.attr("value")) {
            (Some(k), Some(v)) => {
                pairs.push((k.clone(), v.clone()));
            },
            _ => {
                assert(ch.take(i + 1).last() == ch[i as int]);
                assert(pairs_of(ch.take(i + 1)) is None);
                proof { lemma_pairs_prefix(ch, i + 1); }
                return None;
            },
        }
    }
    assert(ch.take(ch.len() as int) =~= ch);
    Some((rest, pairs))
}

/// Takes the `mark` children out of a module element and lists their names
/// and sample offsets; `None` when a mark lacks its name or value, or its
/// value is not a `u32`.
pub fn mark_map(doc: XmlElement) -> (r: Option<(XmlElement, Vec<(String, u32)>)>)
    ensures
        r is Some <==> marks_of(named(doc.children@, "mark"@)) is Some,
        r matches Some((rest, marks)) ==> without(doc, "mark"@, rest)
            && marks@ == marks_of(named(doc.children@, "mark"@)).unwrap(),
{
    let mut rest = doc;
    let elems = take_children(&mut rest, "mark");
    let ghost ch = elems@;
    let mut marks: Vec<(String, u32)> = Vec::new();
    for i in 0..elems.len()
        invariant
            ch == elems@,
            ch == named(doc.children@, "mark"@),
            marks_of(ch.take(i as int)) == Some(marks@),
    {
        let p = &elems[i];
        assert(ch.take(i + 1).drop_last() =~= ch.take(i as int));
        match (p.attr("name"), p.attr("value")) {
            (Some(k), Some(v)) => {
                match parse_u32(v.as_str()) {
                    Some(n) => {
                        marks.push((k.clone(), n));
                    },
                    None => {
                        assert(ch.take(i + 1).last() == ch[i as int]);
                        assert(marks_of(ch.take(i + 1)) is None);
                        proof { lemma_marks_prefix(ch, i + 1); }
                        return None;
                    },
                }
            },
            _ => {
                assert(ch.take(i + 1).last() == ch[i as int]);
                assert(marks_of(ch.take(i + 1)) is None);
                proof { lemma_marks_prefix(ch, i + 1); }
                return None;
            },
        }
    }
    assert(ch.take(ch.len() as int) =~= ch);
    Some((rest, marks))
}

/// `e` is a parameter element: a `param` naming `key` with this value text.
pub open spec fn param_element(e: XmlElement, key: Seq<char>, value: Seq<char>) -> bool {
    &&& e.name@ == "param"@
    &&& e.attributes@.len() == 2
    &&& e.attributes@[0].0@ == "name"@ && e.attributes@[0].1@ == key
    &&& e.attributes@[1].0@ == "value"@ && e.attributes@[1].1@ == value
    &&& e.children@.len() == 0
    &&& e.text is None
}

/// Adds a parameter element for `key` with this value text to a module element.
pub fn param_add(root: &mut XmlElement, value: String, key: &str)
    ensures
        final(root).name == old(root).name,
        final(root).attributes == old(root).attributes,
        final(root).text == old(root).text,
        final(root).children@.len() == old(root).children@.len() + 1,
        final(root).children@.drop_last() == old(root).children@,
        param_element(final(root).children@.last(), key@, value@),
        final(root).children@.last().attributes@[1].1 == value,
{
    let mut attributes: Vec<(String, String)> = Vec::new();
    attributes.push((owned("name"), owned(key)));
    attributes.push((owned("value"), value));
    root.children.push(XmlElement { name: owned("param"), attributes, children: Vec::new(), text: None });
    assert(root.children@.drop_last() =~= old(root).children@);
}

/// The value last given to `name` in a list of pairs.
pub fn lookup_value<'a, V>(pairs: &'a Vec<(String, V)>, name: &str) -> (r: Option<&'a V>)
    ensures
        match lookup(pairs@, name@) {
            Some(v) => r == Some(&v),
            None => r is None,
        },
{
    let mut i = pairs.len();
    assert(pairs@.take(i as int) =~= pairs@);
    while i > 0
        invariant
            i <= pairs@.len(),
            lookup(pairs@, name@) == lookup(pairs@.take(i as int), name@),
        decreases i,
    {
        let ghost t = pairs@.take(i as int);
        assert(t.drop_last() =~= pairs@.take(i - 1));
        if crate::text::str_eq(pairs[i - 1].0.as_str(), name) {
            return Some(&pairs[i - 1].1);
        }
        i = i - 1;
    }
    None
}

/// The modules of a `modules` element by id, a later module replacing an
/// earlier one with the same id; `None` when a module lacks an id that
/// reads as a `u16`.
pub open spec fn modules_of(ch: Seq<XmlElement>) -> Option<Map<u16, XmlElement>>
    decreases ch.len(),
{
    if ch.len() == 0 {
        Some(Map::empty())
    } else {
        match (modules_of(ch.drop_last()), attr_value(ch.last().attributes@, "id"@)) {
            (Some(m), Some(t)) => match spec_u16(t@) {
                Some(id) => Some(m.insert(id, ch.last())),
                None => None,
            },
            _ => None,
        }
    }
}

/// The title of a project document: the text of its first `title` element,
/// or "Untitled" without one; `None` when that element has no text.
pub open spec fn title_in(ch: Seq<XmlElement>) -> Option<Seq<char>> {
    match child_index(ch, "title"@) {
        Some(i) => match ch[i].text {
            Some(t) => Some(t@),
            None => None,
        },
        None => Some("Untitled"@),
    }
}

/// The sample rate of a project document: the `samplerate` of its first
/// `meta` element, 48000 without one; `None` when it is not a `u32`.
pub open spec fn rate_in(ch: Seq<XmlElement>) -> Option<u32> {
    match child_index(ch, "meta"@) {
        Some(i) => match attr_value(ch[i].attributes@, "samplerate"@) {
            Some(v) => spec_u32(v@),
            None => Some(48000),
        },
        None => Some(48000),
    }
}

/// The modules of a project document: those of its first `modules` element;
/// `None` without one.
pub open spec fn modules_in(ch: Seq<XmlElement>) -> Option<Map<u16, XmlElement>> {
    match child_index(ch, "modules"@) {
        Some(i) => modules_of(ch[i].children@),
        None => None,
    }
}

proof fn lemma_modules_prefix(ch: Seq<XmlElement>, k: int)
    requires
        0 <= k <= ch.len(),
        modules_of(ch.take(k)) is None,
    ensures
        modules_of(ch) is None,
    decreases ch.len() - k,
{
    if k < ch.len() {
        assert(ch.take(k + 1).drop_last() =~= ch.take(k));
        lemma_modules_prefix(ch, k + 1);
    } else {
        assert(ch.take(k) =~= ch);
    }
}

/// Reads a project document from its elements; `None` where the document
/// is not ready (see `doc_ready`).
fn read_elements(doc: XmlElement) -> (r: Option<Document>)
    ensures
        r is Some <==> title_in(doc.children@) is Some && rate_in(doc.children@) is Some
            && modules_in(doc.children@) is Some,
        r matches Some(d) ==> d.title@ == title_in(doc.children@).unwrap()
            && d.sample_rate == rate_in(doc.children@).unwrap()
            && d.modules@ == modules_in(doc.children@).unwrap(),
{
    let ghost ch = doc.children@;
    let mut top = doc;
    let title = match top.child("title") {
        Some(t) => match &t.text {
            Some(s) => s.clone(),
            None => return None,
        },
        None => owned("Untitled"),
    };
    let sample_rate: u32 = match top.child("meta") {
        Some(m) => match m.attr("samplerate") {
            Some(v) => match parse_u32(v.as_str()) {
                Some(n) => n,
                None => return None,
            },
            None => 48000,
        },
        None => 48000,
    };
    let mut modules_el = match top.take_child("modules") {
        Some(m) => m,
        None => return None,
    };
    let ghost mch = modules_el.children@;
    assert(modules_in(ch) == modules_of(mch));
    // Move the module elements out, last first, so they can be taken in order.
    let mut rev: Vec<XmlElement> = Vec::new();
    let n = modules_el.children.len();
    while modules_el.children.len() > 0
        invariant
            modules_el.children@.len() + rev@.len() == n,
            n == mch.len(),
            forall|i: int| 0 <= i < modules_el.children@.len() ==> modules_el.children@[i] == mch[i],
            forall|i: int| 0 <= i < rev@.len() ==> rev@[i] == mch[n - 1 - i],
        decreases modules_el.children@.len(),
    {
        let c = modules_el.children.pop().unwrap();
        rev.push(c);
    }
    let mut modules: IdMap<XmlElement> = IdMap::new();
    while rev.len() > 0
        invariant
            n == mch.len(),
            rev@.len() <= n,
            forall|i: int| 0 <= i < rev@.len() ==> rev@[i] == mch[n - 1 - i],
            modules_of(mch.take(n - rev@.len())) == Some(modules@),
            ch == doc.children@,
            modules_in(ch) == modules_of(mch),
            title_in(ch) == Some(title@),
            rate_in(ch) == Some(sample_rate),
        decreases rev@.len(),
    {
        let ghost k = n - rev@.len();
        let m = rev.pop().unwrap();
        assert(m == mch[k]);
        assert(mch.take(k + 1).drop_last() =~= mch.take(k));
        assert(mch.take(k + 1).last() == m);
        let id = match m.attr("id") {
            Some(t) => parse_u16(t.as_str()),
            None => None,
        };
        match id {
            Some(i) => {
                modules.insert(i, m);
            },
            None => {
                assert(modules_of(mch.take(k + 1)) is None);
                proof { lemma_modules_prefix(mch, k + 1); }
                return None;
            },
        }
    }
    assert(mch.take(n as int) =~= mch);
    Some(Document { title, sample_rate, modules })
}

/// The position of the first element named `name`.
pub open spec fn view_index(ch: Seq<ElementView>, name: Seq<char>) -> Option<int>
    decreases ch.len(),
{
    if ch.len() == 0 {
        None
    } else if ch[0].name == name {
        Some(0)
    } else {
        match view_index(ch.drop_first(), name) {
            Some(i) => Some(i + 1),
            None => None,
        }
    }
}

/// The modules of a `modules` element by id, a later module replacing an
/// earlier one with the same id; `None` when a module lacks an id that
/// reads as a `u16`.
pub open spec fn modules_view(ch: Seq<ElementView>) -> Option<Map<u16, ElementView>>
    decreases ch.len(),
{
    if ch.len() == 0 {
        Some(Map::empty())
    } else {
        match modules_view(ch.drop_last()) {
            Some(m) => if ch.last().attributes.contains_key("id"@) {
                match spec_u16(ch.last().attributes["id"@]) {
                    Some(id) => Some(m.insert(id, ch.last())),
                    None => None,
                }
            } else {
                None
            },
            None => None,
        }
    }
}

/// The title of a project document: the text of its first `title` element,
/// or "Untitled" without one; `None` when that element has no text.
pub open spec fn doc_title(ch: Seq<ElementView>) -> Option<Seq<char>> {
    match view_index(ch, "title"@) {
        Some(i) => ch[i].text,
        None => Some("Untitled"@),
    }
}

/// The sample rate of a project document: the `samplerate` of its first
/// `meta` element, 48000 without one; `None` when it is not a `u32`.
pub open spec fn doc_rate(ch: Seq<ElementView>) -> Option<u32> {
    match view_index(ch, "meta"@) {
        Some(i) => if ch[i].attributes.contains_key("samplerate"@) {
            spec_u32(ch[i].attributes["samplerate"@])
        } else {
            Some(48000)
        },
        None => Some(48000),
    }
}

/// The modules of a project document: those of its first `modules` element;
/// `None` without one.
pub open spec fn doc_modules(ch: Seq<ElementView>) -> Option<Map<u16, ElementView>> {
    match view_index(ch, "modules"@) {
        Some(i) => modules_view(ch[i].children),
        None => None,
    }
}

/// A project document can be read: its title has text, its sample rate and
/// module ids are numbers, every module has an id and there is a `modules`
/// element.
pub open spec fn doc_ready(ch: Seq<ElementView>) -> bool {
    &&& doc_title(ch) is Some
    &&& doc_rate(ch) is Some
    &&& doc_modules(ch) is Some
}

proof fn lemma_views_of(s: Seq<XmlElement>)
    ensures
        views_of(s).len() == s.len(),
        forall|i: int| 0 <= i < s.len() ==> #[trigger] views_of(s)[i] == element_view(s[i]),
    decreases s.len(),
{
    if s.len() > 0 {
        lemma_views_of(s.drop_last());
    }
}

proof fn lemma_view_index(v: Seq<ElementView>, name: Seq<char>, i: int)
    requires
        0 <= i < v.len(),
        v[i].name == name,
        forall|j: int| 0 <= j < i ==> v[j].name != name,
    ensures
        view_index(v, name) == Some(i),
    decreases i,
{
    if i > 0 {
        assert forall|j: int| 0 <= j < i - 1 implies v.drop_first()[j].name != name by {
            assert(v.drop_first()[j] == v[j + 1]);
        }
        lemma_view_index(v.drop_first(), name, i - 1);
    }
}

proof fn lemma_view_index_none(v: Seq<ElementView>, name: Seq<char>)
    requires
        forall|j: int| 0 <= j < v.len() ==> v[j].name != name,
    ensures
        view_index(v, name) is None,
    decreases v.len(),
{
    if v.len() > 0 {
        assert forall|j: int| 0 <= j < v.len() - 1 implies v.drop_first()[j].name != name by {
            assert(v.drop_first()[j] == v[j + 1]);
        }
        lemma_view_index_none(v.drop_first(), name);
    }
}

proof fn lemma_index_views(ch: Seq<XmlElement>, name: Seq<char>)
    ensures
        view_index(views_of(ch), name) == child_index(ch, name),
{
    lemma_views_of(ch);
    crate::document::lemma_child_index(ch, name);
    match child_index(ch, name) {
        Some(i) => {
            assert(views_of(ch)[i] == element_view(ch[i]));
            assert forall|j: int| 0 <= j < i implies views_of(ch)[j].name != name by {
                assert(views_of(ch)[j] == element_view(ch[j]));
            }
            lemma_view_index(views_of(ch), name, i);
        },
        None => {
            assert forall|j: int| 0 <= j < views_of(ch).len() implies views_of(ch)[j].name != name by {
                assert(views_of(ch)[j] == element_view(ch[j]));
            }
            lemma_view_index_none(views_of(ch), name);
        },
    }
}

proof fn lemma_modules_views(ch: Seq<XmlElement>)
    ensures
        modules_view(views_of(ch)) == (match modules_of(ch) {
            Some(m) => Some(m.map_values(|e: XmlElement| element_view(e))),
            None => None,
        }),
    decreases ch.len(),
{
    if ch.len() == 0 {
        assert(Map::<u16, XmlElement>::empty().map_values(|e: XmlElement| element_view(e)) =~= Map::<u16, ElementView>::empty());
    } else {
        lemma_modules_views(ch.drop_last());
        let e = ch.last();
        assert(views_of(ch).last() == element_view(e));
        assert(views_of(ch).drop_last() == views_of(ch.drop_last()));
        match modules_of(ch.drop_last()) {
            Some(m) => {
                match attr_value(e.attributes@, "id"@) {
                    Some(t) => match spec_u16(t@) {
                        Some(id) => {
                            assert(m.insert(id, e).map_values(|e: XmlElement| element_view(e)) =~=
                                m.map_values(|e: XmlElement| element_view(e)).insert(id, element_view(e)));
                        },
                        None => {},
                    },
                    None => {},
                }
            },
            None => {},
        }
    }
}

proof fn lemma_doc_views(ch: Seq<XmlElement>)
    ensures
        doc_title(views_of(ch)) == title_in(ch),
        doc_rate(views_of(ch)) == rate_in(ch),
        doc_modules(views_of(ch)) == (match modules_in(ch) {
            Some(m) => Some(m.map_values(|e: XmlElement| element_view(e))),
            None => None,
        }),
{
    lemma_views_of(ch);
    lemma_index_views(ch, "title"@);
    lemma_index_views(ch, "meta"@);
    lemma_index_views(ch, "modules"@);
    crate::document::lemma_child_index(ch, "title"@);
    crate::document::lemma_child_index(ch, "meta"@);
    crate::document::lemma_child_index(ch, "modules"@);
    if let Some(i) = child_index(ch, "title"@) {
        assert(views_of(ch)[i] == element_view(ch[i]));
    }
    if let Some(i) = child_index(ch, "meta"@) {
        assert(views_of(ch)[i] == element_view(ch[i]));
    }
    if let Some(i) = child_index(ch, "modules"@) {
        assert(views_of(ch)[i] == element_view(ch[i]));
        lemma_modules_views(ch[i].children@);
    }
}

/// Whether a project document can be read; see `doc_ready`.
pub fn document_ready(doc: &XmlElement) -> (r: bool)
    ensures
        r == doc_ready(element_view(*doc).children),
{
    proof { lemma_doc_views(doc.children@); }
    let title_ok = match doc.child("title") {
        Some(t) => t.text.is_some(),
        None => true,
    };
    let rate_ok = match doc.child("meta") {
        Some(m) => match m.attr("samplerate") {
            Some(v) => parse_u32(v.as_str()).is_some(),
            None => true,
        },
        None => true,
    };
    let modules_ok = match doc.child("modules") {
        Some(m) => {
            let ghost mch = m.children@;
            let mut ok = true;
            let mut i: usize = 0;
            while i < m.children.len()
                invariant
                    i <= mch.len(),
                    mch == m.children@,
                    ok <==> modules_of(mch.take(i as int)) is Some,
                decreases mch.len() - i,
            {
                let e = &m.children[i];
                assert(mch.take(i + 1).drop_last() =~= mch.take(i as int));
                assert(mch.take(i + 1).last() == *e);
                let has = match e.attr("id") {
                    Some(t) => parse_u16(t.as_str()).is_some(),
                    None => false,
                };
                ok = ok && has;
                i = i + 1;
            }
            assert(mch.take(mch.len() as int) =~= mch);
            ok
        },
        None => false,
    };
    title_ok && rate_ok && modules_ok
}

/// Reads a project document: the title, the sample rate and the module
/// elements by id.
pub fn read_document(doc: XmlElement) -> (r: Document)
    requires
        doc_ready(element_view(doc).children),
    ensures
        r.title@ == doc_title(element_view(doc).children).unwrap(),
        r.sample_rate == doc_rate(element_view(doc).children).unwrap(),
        r.modules@.map_values(|e: XmlElement| element_view(e)) == doc_modules(element_view(doc).children).unwrap(),
{
    proof { lemma_doc_views(doc.children@); }
    match read_elements(doc) {
        Some(d) => d,
        None => {
            assert(false);
            Document { title: String::new(), sample_rate: 0, modules: IdMap::new() }
        },
    }
}

/// Reads a project document from its text: parses it with xmltree, picks
/// out its elements and reads them. `None` when the text does not parse or
/// the document is not ready (see `doc_ready`).
pub fn read_project(text: &str) -> (r: Option<Document>)
    ensures
        r is Some <==> (parsed(text@) matches Some(v) && doc_ready(pick(v).children)),
        r matches Some(d) ==> ({
            let ch = pick(parsed(text@).unwrap()).children;
            &&& d.title@ == doc_title(ch).unwrap()
            &&& d.sample_rate == doc_rate(ch).unwrap()
            &&& d.modules@.map_values(|e: XmlElement| element_view(e)) == doc_modules(ch).unwrap()
        }),
{
    match parse_element(text) {
        Some(t) => {
            let doc = element_of(t);
            if document_ready(&doc) {
                Some(read_document(doc))
            } else {
                None
            }
        },
        None => None,
    }
}

} // verus!
