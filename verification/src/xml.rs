//! Project files as text: parsed by xmltree into a tree of nodes, from which
//! the document's elements are picked out.

use vstd::prelude::*;
use crate::document::{XmlElement, attr_value};
use crate::text::joined;

verus! {

/// A node of a parsed document, as the parser gives it.
#[derive(Debug)]
pub enum XmlNode {
    Element(XmlTree),
    Comment(String),
    CData(String),
    Text(String),
    Instruction(String, Option<String>),
}

/// A parsed element: its name, its attributes (in no particular order) and
/// its child nodes in document order.
#[derive(Debug)]
pub struct XmlTree {
    pub name: String,
    pub attributes: Vec<(String, String)>,
    pub nodes: Vec<XmlNode>,
}

/// What a parsed node holds.
pub enum NodeView {
    Element(TreeView),
    Comment(Seq<char>),
    CData(Seq<char>),
    Text(Seq<char>),
    Instruction(Seq<char>, Option<Seq<char>>),
}

/// What a parsed element holds: its attributes as a map.
pub struct TreeView {
    pub name: Seq<char>,
    pub attributes: Map<Seq<char>, Seq<char>>,
    pub nodes: Seq<NodeView>,
}

/// What an element of the library holds: its attributes as a map, its
/// child elements and its text.
pub struct ElementView {
    pub name: Seq<char>,
    pub attributes: Map<Seq<char>, Seq<char>>,
    pub children: Seq<ElementView>,
    pub text: Option<Seq<char>>,
}

/// Attributes as a map from name to value (the first one of a name counts).
pub open spec fn attr_map(attrs: Seq<(String, String)>) -> Map<Seq<char>, Seq<char>> {
    Map::new(|k: Seq<char>| attr_value(attrs, k) is Some, |k: Seq<char>| attr_value(attrs, k).unwrap()@)
}

/// The text a string option holds.
pub open spec fn text_view(t: Option<String>) -> Option<Seq<char>> {
    match t {
        Some(s) => Some(s@),
        None => None,
    }
}

/// What an element of the library holds.
pub open spec fn element_view(e: XmlElement) -> ElementView
    decreases e, 1int,
{
    ElementView {
        name: e.name@,
        attributes: attr_map(e.attributes@),
        children: views_of(e.children@),
        text: text_view(e.text),
    }
}

/// What each element of a sequence holds.
pub open spec fn views_of(s: Seq<XmlElement>) -> Seq<ElementView>
    decreases s, 0int,
{
    if s.len() == 0 {
        Seq::empty()
    } else {
        views_of(s.drop_last()).push(element_view(s.last()))
    }
}

/// What a parsed element holds.
pub open spec fn tree_view(t: XmlTree) -> TreeView
    decreases t, 1int,
{
    TreeView { name: t.name@, attributes: attr_map(t.attributes@), nodes: node_views(t.nodes@) }
}

/// What each parsed node of a sequence holds.
pub open spec fn node_views(s: Seq<XmlNode>) -> Seq<NodeView>
    decreases s, 0int,
{
    if s.len() == 0 {
        Seq::empty()
    } else {
        let n = match s.last() {
            XmlNode::Element(t) => NodeView::Element(tree_view(t)),
            XmlNode::Comment(c) => NodeView::Comment(c@),
            XmlNode::CData(c) => NodeView::CData(c@),
            XmlNode::Text(c) => NodeView::Text(c@),
            XmlNode::Instruction(a, b) => NodeView::Instruction(a@, text_view(b)),
        };
        node_views(s.drop_last()).push(n)
    }
}

/// The text and character-data nodes, joined; `None` when there are none.
pub open spec fn text_of(s: Seq<NodeView>) -> Option<Seq<char>>
    decreases s.len(),
{
    if s.len() == 0 {
        None
    } else {
        let before = text_of(s.drop_last());
        match s.last() {
            NodeView::Text(c) | NodeView::CData(c) => match before {
                Some(b) => Some(b + c),
                None => Some(c),
            },
            _ => before,
        }
    }
}

/// The element a parsed element stands for: its child elements picked out
/// of its nodes, and its text and character data joined as its text.
pub open spec fn pick(t: TreeView) -> ElementView
    decreases t, 1int,
{
    ElementView { name: t.name, attributes: t.attributes, children: picked(t.nodes), text: text_of(t.nodes) }
}

/// The elements among the nodes, each picked.
pub open spec fn picked(s: Seq<NodeView>) -> Seq<ElementView>
    decreases s, 0int,
{
    if s.len() == 0 {
        Seq::empty()
    } else {
        match s.last() {
            NodeView::Element(t) => picked(s.drop_last()).push(pick(t)),
            _ => picked(s.drop_last()),
        }
    }
}

/// What xmltree's `Element::parse` makes of a document's text: its root
/// element with every node, or `None` when the text is not well formed.
pub uninterp spec fn parsed(text: Seq<char>) -> Option<TreeView>;

#[verifier::external_type_specification]
#[verifier::external_body]
pub struct ExElement(xmltree::Element);

/// An xmltree element as a tree of the library, node for node: the name,
/// the attributes (in the order of xmltree's map) and the child nodes in
/// order. Part of `parse_element`; it computes nothing.
#[verifier::external_body]
fn tree_of(e: xmltree::Element) -> XmlTree {
    XmlTree {
        name: e.name,
        attributes: e.attributes.into_iter().collect(),
        nodes: e.children.into_iter().map(|n| match n {
            xmltree::XMLNode::Element(c) => XmlNode::Element(tree_of(c)),
            xmltree::XMLNode::Comment(c) => XmlNode::Comment(c),
            xmltree::XMLNode::CData(c) => XmlNode::CData(c),
            xmltree::XMLNode::Text(c) => XmlNode::Text(c),
            xmltree::XMLNode::ProcessingInstruction(a, b) => XmlNode::Instruction(a, b),
        }).collect(),
    }
}

/// Parses a document's text with xmltree's `Element::parse`. The claim: the
/// result is `None` exactly when the text does not parse, and otherwise holds
/// the root element the parser gives, node for node, with its attributes
/// (whose order xmltree leaves open) as their map.
#[verifier::external_body]
pub fn parse_element(text: &str) -> (r: Option<XmlTree>)
    ensures
        r is Some <==> parsed(text@) is Some,
        r matches Some(t) ==> tree_view(t) == parsed(text@).unwrap(),
{
    match xmltree::Element::parse(text.as_bytes()) {
        Ok(e) => Some(tree_of(e)),
        Err(_) => None,
    }
}

proof fn lemma_views_push(s: Seq<XmlElement>, e: XmlElement)
    ensures
        views_of(s.push(e)) == views_of(s).push(element_view(e)),
{
    assert(s.push(e).drop_last() =~= s);
}

/// The element a parsed element stands for: its child elements (each in
/// turn) picked out of its nodes, its text and character data joined.
#[verifier::loop_isolation(false)]
pub fn element_of(t: XmlTree) -> (r: XmlElement)
    ensures
        element_view(r) == pick(tree_view(t)),
    decreases t,
{
    let ghost t0 = t;
    let ghost nv = node_views(t.nodes@);
    let XmlTree { name, attributes, nodes } = t;
    let mut nodes = nodes;
    // Move the nodes out last first, so they can be taken in order.
    let n = nodes.len();
    let mut rev: Vec<XmlNode> = Vec::new();
    while nodes.len() > 0
        invariant
            nodes@.len() + rev@.len() == n,
            n == t0.nodes@.len(),
            forall|i: int| 0 <= i < nodes@.len() ==> nodes@[i] == t0.nodes@[i],
            forall|i: int| 0 <= i < rev@.len() ==> rev@[i] == t0.nodes@[n - 1 - i],
        decreases nodes@.len(),
    {
        let c = nodes.pop().unwrap();
        rev.push(c);
    }
    let mut children: Vec<XmlElement> = Vec::new();
    let mut text: Option<String> = None;
    while rev.len() > 0
        invariant
            rev@.len() <= n,
            n == t0.nodes@.len(),
            forall|i: int| 0 <= i < rev@.len() ==> rev@[i] == t0.nodes@[n - 1 - i],
            views_of(children@) == picked(node_views(t0.nodes@.take(n - rev@.len()))),
            text_view(text) == text_of(node_views(t0.nodes@.take(n - rev@.len()))),
        decreases rev@.len(),
    {
        let ghost k = n - rev@.len();
        let c = rev.pop().unwrap();
        assert(c == t0.nodes@[k]);
        let ghost pre = t0.nodes@.take(k);
        assert(t0.nodes@.take(k + 1).drop_last() =~= pre);
        assert(t0.nodes@.take(k + 1).last() == c);
        let ghost cv = c;
        let ghost pv = node_views(pre);
        assert(node_views(pre.push(cv)).drop_last() == pv) by {
            assert(pre.push(cv).drop_last() =~= pre);
        }
        assert(pre.push(cv) =~= t0.nodes@.take(k + 1));
        match c {
            XmlNode::Element(e) => {
                assert(decreases_to!(t0 => e)) by {
                    assert(decreases_to!(t0 => t0.nodes));
                    assert(decreases_to!(t0.nodes => t0.nodes@));
                    assert(decreases_to!(t0.nodes@ => t0.nodes@[k]));
                    assert(decreases_to!(cv => e));
                };
                let ghost before = children@;
                let el = element_of(e);
                children.push(el);
                proof {
                    lemma_views_push(before, el);
                    assert(node_views(pre.push(cv)) == pv.push(NodeView::Element(tree_view(e))));
                    assert(pv.push(NodeView::Element(tree_view(e))).drop_last() =~= pv);
                }
            },
            XmlNode::Text(x) => {
                text = match text {
                    Some(b) => Some(joined(b.as_str(), x.as_str())),
                    None => Some(x),
                };
            },
            XmlNode::CData(x) => {
                text = match text {
                    Some(b) => Some(joined(b.as_str(), x.as_str())),
                    None => Some(x),
                };
            },
            _ => {},
        }
    }
    assert(t0.nodes@.take(n as int) =~= t0.nodes@);
    XmlElement { name, attributes, children, text }
}

} // verus!
