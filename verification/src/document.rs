//! The project document: an XML tree of modules, read into view states and written back.

use vstd::prelude::*;
use crate::text::{owned, str_eq};

verus! {

/// An XML element: its name, its attributes in document order, its child
/// elements in document order and its text, if any.
#[derive(Debug)]
pub struct XmlElement {
    pub name: String,
    pub attributes: Vec<(String, String)>,
    pub children: Vec<XmlElement>,
    pub text: Option<String>,
}

/// The value of the first attribute named `key`.
pub open spec fn attr_value(attrs: Seq<(String, String)>, key: Seq<char>) -> Option<String>
    decreases attrs.len(),
{
    if attrs.len() == 0 {
        None
    } else if attrs[0].0@ == key {
        Some(attrs[0].1)
    } else {
        attr_value(attrs.drop_first(), key)
    }
}

/// The position of the first child element named `name`.
pub open spec fn child_index(children: Seq<XmlElement>, name: Seq<char>) -> Option<int>
    decreases children.len(),
{
    if children.len() == 0 {
        None
    } else if children[0].name@ == name {
        Some(0)
    } else {
        match child_index(children.drop_first(), name) {
            Some(i) => Some(i + 1),
            None => None,
        }
    }
}

pub(crate) proof fn lemma_child_index(children: Seq<XmlElement>, name: Seq<char>)
    ensures
        child_index(children, name) matches Some(i) ==> 0 <= i < children.len() && children[i].name@ == name
            && forall|j: int| 0 <= j < i ==> children[j].name@ != name,
        child_index(children, name) is None ==> forall|j: int| 0 <= j < children.len() ==> children[j].name@ != name,
    decreases children.len(),
{
    if children.len() > 0 && children[0].name@ != name {
        lemma_child_index(children.drop_first(), name);
        assert forall|j: int| 1 <= j < children.len() implies children[j] == children.drop_first()[j - 1] by {}
    }
}

proof fn lemma_child_index_first(children: Seq<XmlElement>, name: Seq<char>, i: int)
    requires
        0 <= i < children.len(),
        children[i].name@ == name,
        forall|j: int| 0 <= j < i ==> children[j].name@ != name,
    ensures
        child_index(children, name) == Some(i),
    decreases i,
{
    if i > 0 {
        assert forall|j: int| 0 <= j < i - 1 implies children.drop_first()[j].name@ != name by {
            assert(children.drop_first()[j] == children[j + 1]);
        }
        lemma_child_index_first(children.drop_first(), name, i - 1);
    }
}

pub(crate) proof fn lemma_attr_prefix(attrs: Seq<(String, String)>, key: Seq<char>, i: int)
    requires
        0 <= i < attrs.len(),
        attrs[i].0@ == key,
        forall|j: int| 0 <= j < i ==> attrs[j].0@ != key,
    ensures
        attr_value(attrs, key) == Some(attrs[i].1),
    decreases i,
{
    if i > 0 {
        assert forall|j: int| 0 <= j < i - 1 implies attrs.drop_first()[j].0@ != key by {
            assert(attrs.drop_first()[j] == attrs[j + 1]);
        }
        lemma_attr_prefix(attrs.drop_first(), key, i - 1);
    }
}

proof fn lemma_attr_none(attrs: Seq<(String, String)>, key: Seq<char>)
    requires
        forall|j: int| 0 <= j < attrs.len() ==> attrs[j].0@ != key,
    ensures
        attr_value(attrs, key) is None,
    decreases attrs.len(),
{
    if attrs.len() > 0 {
        assert forall|j: int| 0 <= j < attrs.len() - 1 implies attrs.drop_first()[j].0@ != key by {
            assert(attrs.drop_first()[j] == attrs[j + 1]);
        }
        lemma_attr_none(attrs.drop_first(), key);
    }
}

impl XmlElement {
    /// An element with no attributes, children or text.
    pub fn new(name: &str) -> (r: Self)
        ensures
            r.name@ == name@,
            r.attributes@ == Seq::<(String, String)>::empty(),
            r.children@ == Seq::<XmlElement>::empty(),
            r.text is None,
    {
        XmlElement { name: owned(name), attributes: Vec::new(), children: Vec::new(), text: None }
    }

    /// The value of the attribute named `key`.
    pub fn attr(&self, key: &str) -> (r: Option<&String>)
        ensures
            r matches Some(v) ==> attr_value(self.attributes@, key@) == Some(*v),
            r is None ==> attr_value(self.attributes@, key@) is None,
    {
        for i in 0..self.attributes.len()
            invariant
                forall|j: int| 0 <= j < i ==> self.attributes@[j].0@ != key@,
        {
            if str_eq(self.attributes[i].0.as_str(), key) {
                proof { lemma_attr_prefix(self.attributes@, key@, i as int); }
                return Some(&self.attributes[i].1);
            }
        }
        proof { lemma_attr_none(self.attributes@, key@); }
        None
    }

    /// Sets an attribute: replaces the value of the first attribute named
    /// `key`, or adds the attribute at the end.
    pub fn set_attr(&mut self, key: &str, value: String)
        ensures
            final(self).name == old(self).name,
            final(self).children == old(self).children,
            final(self).text == old(self).text,
            attr_value(final(self).attributes@, key@) == Some(value),
    {
        let mut i: usize = 0;
        while i < self.attributes.len()
            invariant
                i <= self.attributes@.len(),
                forall|j: int| 0 <= j < i ==> self.attributes@[j].0@ != key@,
                self.name == old(self).name,
                self.children == old(self).children,
                self.text == old(self).text,
            decreases self.attributes@.len() - i,
        {
            if str_eq(self.attributes[i].0.as_str(), key) {
                let k = owned(key);
                self.attributes.set(i, (k, value));
                proof { lemma_attr_prefix(self.attributes@, key@, i as int); }
                return;
            }
            i = i + 1;
        }
        self.attributes.push((owned(key), value));
        proof {
            lemma_attr_prefix(self.attributes@, key@, i as int);
        }
    }

    /// The first child element named `name`.
    pub fn child(&self, name: &str) -> (r: Option<&XmlElement>)
        ensures
            match child_index(self.children@, name@) {
                Some(i) => r == Some(&self.children@[i]),
                None => r is None,
            },
    {
        for i in 0..self.children.len()
            invariant
                forall|j: int| 0 <= j < i ==> self.children@[j].name@ != name@,
        {
            if str_eq(self.children[i].name.as_str(), name) {
                proof { lemma_child_index_first(self.children@, name@, i as int); }
                return Some(&self.children[i]);
            }
        }
        proof { lemma_child_index(self.children@, name@); }
        None
    }

    /// Takes out the first child element named `name`.
    pub fn take_child(&mut self, name: &str) -> (r: Option<XmlElement>)
        ensures
            final(self).name == old(self).name,
            final(self).attributes == old(self).attributes,
            final(self).text == old(self).text,
            match child_index(old(self).children@, name@) {
                Some(i) => r == Some(old(self).children@[i]) && final(self).children@ == old(self).children@.remove(i),
                None => r is None && final(self).children@ == old(self).children@,
            },
    {
        let mut i: usize = 0;
        while i < self.children.len()
            invariant
                i <= self.children@.len(),
                forall|j: int| 0 <= j < i ==> self.children@[j].name@ != name@,
                self.children == old(self).children,
                self.name == old(self).name,
                self.attributes == old(self).attributes,
                self.text == old(self).text,
            decreases self.children@.len() - i,
        {
            if str_eq(self.children[i].name.as_str(), name) {
                proof { lemma_child_index_first(self.children@, name@, i as int); }
                return Some(self.children.remove(i));
            }
            i = i + 1;
        }
        proof { lemma_child_index(self.children@, name@); }
        None
    }
}

/// The children named `name`, in document order.
pub open spec fn named(ch: Seq<XmlElement>, name: Seq<char>) -> Seq<XmlElement>
    decreases ch.len(),
{
    if ch.len() == 0 {
        Seq::empty()
    } else if ch.last().name@ == name {
        named(ch.drop_last(), name).push(ch.last())
    } else {
        named(ch.drop_last(), name)
    }
}

/// The children not named `name`, in document order.
pub open spec fn unnamed(ch: Seq<XmlElement>, name: Seq<char>) -> Seq<XmlElement>
    decreases ch.len(),
{
    if ch.len() == 0 {
        Seq::empty()
    } else if ch.last().name@ != name {
        unnamed(ch.drop_last(), name).push(ch.last())
    } else {
        unnamed(ch.drop_last(), name)
    }
}

/// Picking children by name distributes over concatenation.
pub proof fn lemma_named_concat(s: Seq<XmlElement>, t: Seq<XmlElement>, name: Seq<char>)
    ensures
        named(s + t, name) == named(s, name) + named(t, name),
        unnamed(s + t, name) == unnamed(s, name) + unnamed(t, name),
    decreases t.len(),
{
    if t.len() == 0 {
        assert(s + t =~= s);
        assert(named(s, name) + named(t, name) =~= named(s, name));
        assert(unnamed(s, name) + unnamed(t, name) =~= unnamed(s, name));
    } else {
        lemma_named_concat(s, t.drop_last(), name);
        assert((s + t).drop_last() =~= s + t.drop_last());
        assert((s + t).last() == t.last());
        assert((named(s, name) + named(t.drop_last(), name)).push(t.last())
            =~= named(s, name) + named(t.drop_last(), name).push(t.last()));
        assert((unnamed(s, name) + unnamed(t.drop_last(), name)).push(t.last())
            =~= unnamed(s, name) + unnamed(t.drop_last(), name).push(t.last()));
    }
}

/// Children that all have one name: picking that name keeps them all,
/// picking another keeps none.
pub proof fn lemma_all_named(ch: Seq<XmlElement>, name: Seq<char>, other: Seq<char>)
    requires
        forall|i: int| 0 <= i < ch.len() ==> (#[trigger] ch[i]).name@ == name,
        other != name,
    ensures
        named(ch, name) == ch,
        unnamed(ch, name) == Seq::<XmlElement>::empty(),
        named(ch, other) == Seq::<XmlElement>::empty(),
        unnamed(ch, other) == ch,
    decreases ch.len(),
{
    if ch.len() > 0 {
        lemma_all_named(ch.drop_last(), name, other);
        assert(ch.drop_last().push(ch.last()) =~= ch);
    }
}

/// Taking out the children with one name leaves those with another in place.
pub proof fn lemma_named_unnamed(ch: Seq<XmlElement>, a: Seq<char>, b: Seq<char>)
    requires
        a != b,
    ensures
        named(unnamed(ch, a), b) == named(ch, b),
    decreases ch.len(),
{
    if ch.len() > 0 {
        lemma_named_unnamed(ch.drop_last(), a, b);
        let u = unnamed(ch.drop_last(), a);
        if ch.last().name@ != a {
            assert(u.push(ch.last()).drop_last() =~= u);
        }
    }
}

/// Takes out every child named `name` (as taking the first such child
/// until none is left does), returning them in document order.
pub fn take_children(doc: &mut XmlElement, name: &str) -> (r: Vec<XmlElement>)
    ensures
        r@ == named(old(doc).children@, name@),
        final(doc).children@ == unnamed(old(doc).children@, name@),
        final(doc).name == old(doc).name,
        final(doc).attributes == old(doc).attributes,
        final(doc).text == old(doc).text,
{
    let mut children: Vec<XmlElement> = Vec::new();
    std::mem::swap(&mut children, &mut doc.children);
    let ghost ch = children@;
    let mut kept: Vec<XmlElement> = Vec::new();
    let mut taken: Vec<XmlElement> = Vec::new();
    // walk the children front to back
    let n = children.len();
    let mut rev: Vec<XmlElement> = Vec::new();
    while children.len() > 0
        invariant
            children@.len() + rev@.len() == n,
            n == ch.len(),
            forall|i: int| 0 <= i < children@.len() ==> children@[i] == ch[i],
            forall|i: int| 0 <= i < rev@.len() ==> rev@[i] == ch[n - 1 - i],
        decreases children@.len(),
    {
        let c = children.pop().unwrap();
        rev.push(c);
    }
    while rev.len() > 0
        invariant
            n == ch.len(),
            rev@.len() <= n,
            forall|i: int| 0 <= i < rev@.len() ==> rev@[i] == ch[n - 1 - i],
            taken@ == named(ch.take(n - rev@.len()), name@),
            kept@ == unnamed(ch.take(n - rev@.len()), name@),
        decreases rev@.len(),
    {
        let ghost k = n - rev@.len();
        let c = rev.pop().unwrap();
        assert(c == ch[k]);
        assert(ch.take(k + 1).drop_last() =~= ch.take(k));
        assert(ch.take(k + 1).last() == c);
        if str_eq(c.name.as_str(), name) {
            taken.push(c);
        } else {
            kept.push(c);
        }
    }
    assert(ch.take(n as int) =~= ch);
    doc.children = kept;
    taken
}

} // verus!
