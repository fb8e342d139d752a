//! A minimal XML tree.
//!
//! vim25 responses are deeply nested and polymorphic, so every table reads
//! the same shape: walk to a node, read a child's text, or go through typed
//! array elements. A document is read once into a tree of [`Element`]s, and
//! every query below is stated over [`XNode`], the mathematical value of an
//! element.

use vstd::prelude::*;
#[allow(unused_imports)]
use crate::text::{after_last, after_last_char, has_prefix, split_acc, split_char, split_on, starts_with, str_eq};

verus! {

/// The value of an element: its local name, its `xsi:type`, its attributes
/// (local key, value), its text and its children, in document order.
pub struct XNode {
    pub name: Seq<char>,
    pub xsi_type: Option<Seq<char>>,
    pub attrs: Seq<(Seq<char>, Seq<char>)>,
    pub text: Seq<char>,
    pub children: Seq<XNode>,
}

#[derive(Debug)]
pub struct Element {
    pub name: String,
    /// `xsi:type` when present. In vim25 this, not the element name, is what
    /// identifies the concrete type of an array member.
    pub xsi_type: Option<String>,
    pub attrs: Vec<(String, String)>,
    pub text: String,
    pub children: Vec<Element>,
}

pub open spec fn opt_str_view(o: Option<String>) -> Option<Seq<char>> {
    match o {
        Some(s) => Some(s@),
        None => None,
    }
}

pub open spec fn pair_view(p: (String, String)) -> (Seq<char>, Seq<char>) {
    (p.0@, p.1@)
}

pub open spec fn pairs_view(ps: Seq<(String, String)>) -> Seq<(Seq<char>, Seq<char>)> {
    ps.map_values(|p: (String, String)| pair_view(p))
}

pub open spec fn node_of(e: Element) -> XNode
    decreases e,
{
    XNode {
        name: e.name@,
        xsi_type: opt_str_view(e.xsi_type),
        attrs: pairs_view(e.attrs@),
        text: e.text@,
        children: nodes_of(e.children@),
    }
}

pub open spec fn nodes_of(cs: Seq<Element>) -> Seq<XNode>
    decreases cs,
{
    if cs.len() == 0 {
        Seq::empty()
    } else {
        nodes_of(cs.drop_last()).push(node_of(cs.last()))
    }
}

impl View for Element {
    type V = XNode;

    open spec fn view(&self) -> XNode {
        node_of(*self)
    }
}

/// Each element's value is the value of the element at the same place.
pub proof fn lemma_nodes_of(cs: Seq<Element>)
    ensures
        nodes_of(cs).len() == cs.len(),
        forall|i: int| 0 <= i < cs.len() ==> #[trigger] nodes_of(cs)[i] == node_of(cs[i]),
    decreases cs.len(),
{
    if cs.len() > 0 {
        lemma_nodes_of(cs.drop_last());
    }
}

pub proof fn lemma_children_view(e: Element)
    ensures
        e@.children.len() == e.children@.len(),
        forall|i: int| 0 <= i < e.children@.len() ==> #[trigger] e@.children[i] == e.children@[i]@,
{
    lemma_nodes_of(e.children@);
}

/// `i` is the first index whose element is named `name`.
pub open spec fn is_first_named(cs: Seq<XNode>, name: Seq<char>, i: int) -> bool {
    &&& 0 <= i < cs.len()
    &&& cs[i].name == name
    &&& forall|j: int| 0 <= j < i ==> cs[j].name != name
}

/// The first child named `name`.
pub open spec fn child_of(n: XNode, name: Seq<char>) -> Option<XNode> {
    if exists|i: int| is_first_named(n.children, name, i) {
        Some(n.children[choose|i: int| is_first_named(n.children, name, i)])
    } else {
        None
    }
}

pub proof fn lemma_first_named_unique(cs: Seq<XNode>, name: Seq<char>, i: int, j: int)
    requires
        is_first_named(cs, name, i),
        is_first_named(cs, name, j),
    ensures
        i == j,
{
}

/// The children named `name`, in document order.
pub open spec fn named(cs: Seq<XNode>, name: Seq<char>) -> Seq<XNode>
    decreases cs.len(),
{
    if cs.len() == 0 {
        Seq::empty()
    } else if cs.last().name == name {
        named(cs.drop_last(), name).push(cs.last())
    } else {
        named(cs.drop_last(), name)
    }
}

/// The node reached from `n` by following `segs`, one child name at a time.
pub open spec fn walk_path(n: XNode, segs: Seq<Seq<char>>) -> Option<XNode>
    decreases segs.len(),
{
    if segs.len() == 0 {
        Some(n)
    } else {
        match child_of(n, segs[0]) {
            Some(c) => walk_path(c, segs.drop_first()),
            None => None,
        }
    }
}

/// The node reached by a slash-separated path of child names.
pub open spec fn at_path(n: XNode, path: Seq<char>) -> Option<XNode> {
    walk_path(n, split_on(path, '/'))
}

proof fn lemma_split_acc_after_sep(x: Seq<char>, b: Seq<char>, sep: char)
    requires
        split_acc(x, sep).1.len() == 0,
    ensures
        split_acc(x + b, sep) == (split_acc(x, sep).0 + split_acc(b, sep).0, split_acc(b, sep).1),
    decreases b.len(),
{
    if b.len() == 0 {
        assert(x + b =~= x);
        assert(split_acc(x, sep).0 + Seq::<Seq<char>>::empty() =~= split_acc(x, sep).0);
    } else {
        assert((x + b).drop_last() =~= x + b.drop_last());
        assert((x + b).last() == b.last());
        lemma_split_acc_after_sep(x, b.drop_last(), sep);
        let p = split_acc(x, sep).0;
        let (q, d) = split_acc(b.drop_last(), sep);
        if b.last() == sep {
            assert((p + q).push(d) =~= p + q.push(d));
        }
    }
}

/// Splitting at a separator splits the pieces of either side apart.
proof fn lemma_split_on_join(a: Seq<char>, b: Seq<char>, sep: char)
    ensures
        split_on(a + seq![sep] + b, sep) == split_on(a, sep) + split_on(b, sep),
{
    let x = a + seq![sep];
    assert(x.drop_last() =~= a);
    assert(x.last() == sep);
    lemma_split_acc_after_sep(x, b, sep);
    let (pa, ca) = split_acc(a, sep);
    let (q, d) = split_acc(b, sep);
    assert((pa.push(ca) + q).push(d) =~= pa.push(ca) + q.push(d));
}

proof fn lemma_walk_path_concat(n: XNode, s1: Seq<Seq<char>>, s2: Seq<Seq<char>>)
    ensures
        walk_path(n, s1 + s2) == match walk_path(n, s1) {
            Some(m) => walk_path(m, s2),
            None => None,
        },
    decreases s1.len(),
{
    if s1.len() == 0 {
        assert(s1 + s2 =~= s2);
    } else {
        assert((s1 + s2)[0] == s1[0]);
        assert((s1 + s2).drop_first() =~= s1.drop_first() + s2);
        match child_of(n, s1[0]) {
            Some(c) => lemma_walk_path_concat(c, s1.drop_first(), s2),
            None => {},
        }
    }
}

/// Walking `a/b` is walking `a` and then `b` from where that lands: each
/// step takes the first direct child of that name, and never looks deeper.
pub proof fn lemma_at_path_steps(n: XNode, a: Seq<char>, b: Seq<char>)
    ensures
        at_path(n, a + seq!['/'] + b) == match at_path(n, a) {
            Some(m) => at_path(m, b),
            None => None,
        },
{
    lemma_split_on_join(a, b, '/');
    lemma_walk_path_concat(n, split_on(a, '/'), split_on(b, '/'));
}

/// The text of the node at a slash-separated path.
pub open spec fn text_at_path(n: XNode, path: Seq<char>) -> Option<Seq<char>> {
    match at_path(n, path) {
        Some(m) => Some(m.text),
        None => None,
    }
}

/// The value of the first attribute whose key is `key`.
pub open spec fn attr_of(attrs: Seq<(Seq<char>, Seq<char>)>, key: Seq<char>) -> Option<Seq<char>>
    decreases attrs.len(),
{
    if attrs.len() == 0 {
        None
    } else if attrs[0].0 == key {
        Some(attrs[0].1)
    } else {
        attr_of(attrs.drop_first(), key)
    }
}

/// Depth-first, document-order search for the first node named `name`,
/// starting with `n` itself.
pub open spec fn find_in(n: XNode, name: Seq<char>) -> Option<XNode>
    decreases n,
{
    if n.name == name {
        Some(n)
    } else {
        find_first(n.children, name)
    }
}

/// The first hit of [`find_in`] over a list of nodes.
pub open spec fn find_first(cs: Seq<XNode>, name: Seq<char>) -> Option<XNode>
    decreases cs,
{
    if cs.len() == 0 {
        None
    } else {
        match find_in(cs[0], name) {
            Some(x) => Some(x),
            None => find_first(cs.drop_first(), name),
        }
    }
}

impl Clone for Element {
    fn clone(&self) -> (r: Self)
        ensures
            r@ == self@,
    {
        self.deep_clone()
    }
}

impl Element {
    /// A copy of the whole subtree.
    pub fn deep_clone(&self) -> (r: Element)
        ensures
            r@ == self@,
        decreases self,
    {
        let mut kids: Vec<Element> = Vec::new();
        let mut i: usize = 0;
        proof { assert(self.children@.take(0) =~= Seq::<Element>::empty()); }
        while i < self.children.len()
            invariant
                i <= self.children@.len(),
                nodes_of(kids@) == nodes_of(self.children@.take(i as int)),
            decreases self.children.len() - i,
        {
            proof {
                assert(self.children@.take(i + 1).drop_last() =~= self.children@.take(i as int));
                assert(decreases_to!(self => self.children));
            }
            let c = self.children[i].deep_clone();
            proof { lemma_nodes_of_push(kids@, c); }
            kids.push(c);
            i += 1;
        }
        let mut attrs: Vec<(String, String)> = Vec::new();
        let mut j: usize = 0;
        while j < self.attrs.len()
            invariant
                j <= self.attrs@.len(),
                pairs_view(attrs@) =~= pairs_view(self.attrs@.take(j as int)),
            decreases self.attrs.len() - j,
        {
            let k = self.attrs[j].0.clone();
            let v = self.attrs[j].1.clone();
            let ghost before = attrs@;
            attrs.push((k, v));
            proof {
                assert(self.attrs@.take(j + 1) =~= self.attrs@.take(j as int).push(self.attrs@[j as int]));
                assert(pairs_view(attrs@) =~= pairs_view(before).push(pair_view(self.attrs@[j as int])));
                assert(pairs_view(self.attrs@.take(j + 1)) =~= pairs_view(self.attrs@.take(j as int)).push(pair_view(self.attrs@[j as int])));
            }
            j += 1;
        }
        proof {
            assert(self.children@.take(self.children@.len() as int) =~= self.children@);
            assert(self.attrs@.take(self.attrs@.len() as int) =~= self.attrs@);
        }
        let xsi_type = match &self.xsi_type {
            Some(t) => Some(t.clone()),
            None => None,
        };
        Element {
            name: self.name.clone(),
            xsi_type,
            attrs,
            text: self.text.clone(),
            children: kids,
        }
    }

    /// First direct child with this element name.
    pub fn child(&self, name: &str) -> (r: Option<&Element>)
        ensures
            match r {
                Some(c) => child_of(self@, name@) == Some(c@),
                None => child_of(self@, name@).is_none(),
            },
    {
        proof { lemma_children_view(*self); }
        let key = String::from_str(name);
        let mut i: usize = 0;
        while i < self.children.len()
            invariant
                i <= self.children@.len(),
                key@ == name@,
                self@.children.len() == self.children@.len(),
                forall|k: int| 0 <= k < self.children@.len() ==> #[trigger] self@.children[k] == self.children@[k]@,
                forall|j: int| 0 <= j < i ==> self@.children[j].name != name@,
            decreases self.children.len() - i,
        {
            if self.children[i].name == key {
                proof {
                    assert(is_first_named(self@.children, name@, i as int));
                    let k = choose|k: int| is_first_named(self@.children, name@, k);
                    lemma_first_named_unique(self@.children, name@, i as int, k);
                }
                return Some(&self.children[i]);
            }
            i += 1;
        }
        None
    }

    /// All direct children with this element name.
    pub fn children_named(&self, name: &str) -> (r: Vec<&Element>)
        ensures
            r@.len() == named(self@.children, name@).len(),
            forall|i: int| 0 <= i < r@.len() ==> (#[trigger] r@[i])@ == named(self@.children, name@)[i],
    {
        proof { lemma_children_view(*self); }
        let key = String::from_str(name);
        let mut out: Vec<&Element> = Vec::new();
        let mut i: usize = 0;
        while i < self.children.len()
            invariant
                i <= self.children@.len(),
                key@ == name@,
                self@.children.len() == self.children@.len(),
                forall|k: int| 0 <= k < self.children@.len() ==> #[trigger] self@.children[k] == self.children@[k]@,
                out@.len() == named(self@.children.take(i as int), name@).len(),
                forall|k: int| 0 <= k < out@.len() ==> (#[trigger] out@[k])@ == named(self@.children.take(i as int), name@)[k],
            decreases self.children.len() - i,
        {
            proof {
                assert(self@.children.take(i + 1).drop_last() =~= self@.children.take(i as int));
            }
            if self.children[i].name == key {
                out.push(&self.children[i]);
            }
            i += 1;
        }
        proof { assert(self@.children.take(self.children@.len() as int) =~= self@.children); }
        out
    }

    /// Text of a descendant addressed by a slash-separated path of element names.
    pub fn text_at(&self, path: &str) -> (r: Option<String>)
        ensures
            opt_str_view(r) == text_at_path(self@, path@),
    {
        match self.walk(path) {
            Some(node) => Some(node.text.clone()),
            None => None,
        }
    }

    /// The descendant addressed by a slash-separated path of element names.
    pub fn walk(&self, path: &str) -> (r: Option<&Element>)
        ensures
            match r {
                Some(n) => at_path(self@, path@) == Some(n@),
                None => at_path(self@, path@).is_none(),
            },
    {
        let segs = split_char(path, '/');
        let ghost segv = split_on(path@, '/');
        let mut node = self;
        let mut k: usize = 0;
        proof {
            assert(segv.skip(0) =~= segv);
            assert(at_path(self@, path@) == walk_path(self@, segv));
        }
        while k < segs.len()
            invariant
                k <= segs@.len(),
                segv == split_on(path@, '/'),
                segs@.len() == segv.len(),
                forall|j: int| 0 <= j < segv.len() ==> #[trigger] segs@[j]@ == segv[j],
                walk_path(self@, segv) == walk_path(node@, segv.skip(k as int)),
            decreases segs.len() - k,
        {
            proof {
                assert(segv.skip(k as int).drop_first() =~= segv.skip(k + 1));
                assert(segv.skip(k as int)[0] == segv[k as int]);
            }
            match node.child(segs[k].as_str()) {
                Some(c) => {
                    node = c;
                },
                None => {
                    proof {
                        assert(segv.skip(k as int).len() > 0);
                        assert(walk_path(node@, segv.skip(k as int)).is_none());
                        assert(walk_path(self@, segv).is_none());
                        assert(at_path(self@, path@).is_none());
                    }
                    return None;
                },
            }
            k += 1;
        }
        proof { assert(segv.skip(segv.len() as int) =~= Seq::<Seq<char>>::empty()); }
        Some(node)
    }

    /// The value of the first attribute with this key.
    pub fn attr(&self, name: &str) -> (r: Option<&str>)
        ensures
            match r {
                Some(v) => attr_of(self@.attrs, name@) == Some(v@),
                None => attr_of(self@.attrs, name@).is_none(),
            },
    {
        let key = String::from_str(name);
        let mut i: usize = 0;
        proof { assert(self@.attrs.skip(0) =~= self@.attrs); }
        while i < self.attrs.len()
            invariant
                i <= self.attrs@.len(),
                key@ == name@,
                self@.attrs == pairs_view(self.attrs@),
                attr_of(self@.attrs, name@) == attr_of(self@.attrs.skip(i as int), name@),
            decreases self.attrs.len() - i,
        {
            proof {
                assert(self@.attrs.skip(i as int).drop_first() =~= self@.attrs.skip(i + 1));
            }
            if self.attrs[i].0 == key {
                return Some(self.attrs[i].1.as_str());
            }
            i += 1;
        }
        None
    }

    /// Depth-first search for the first descendant with this name, starting
    /// with the element itself.
    pub fn find(&self, name: &str) -> (r: Option<&Element>)
        ensures
            match r {
                Some(n) => find_in(self@, name@) == Some(n@),
                None => find_in(self@, name@).is_none(),
            },
        decreases self,
    {
        let key = String::from_str(name);
        if self.name == key {
            return Some(self);
        }
        proof {
            lemma_children_view(*self);
            assert(self@.children.skip(0) =~= self@.children);
        }
        let mut i: usize = 0;
        while i < self.children.len()
            invariant
                i <= self.children@.len(),
                key@ == name@,
                self.name@ != name@,
                self@.children.len() == self.children@.len(),
                forall|k: int| 0 <= k < self.children@.len() ==> #[trigger] self@.children[k] == self.children@[k]@,
                find_in(self@, name@) == find_first(self@.children.skip(i as int), name@),
            decreases self.children.len() - i,
        {
            proof {
                assert(self@.children.skip(i as int).drop_first() =~= self@.children.skip(i + 1));
                assert(self@.children.skip(i as int)[0] == self.children@[i as int]@);
                assert(decreases_to!(self => self.children));
            }
            let hit = self.children[i].find(name);
            if hit.is_some() {
                return hit;
            }
            i += 1;
        }
        None
    }
}

/// The first node whose text at `path` is `value`.
pub open spec fn first_with_text(nodes: Seq<XNode>, path: Seq<char>, value: Seq<char>) -> Option<XNode>
    decreases nodes.len(),
{
    if nodes.len() == 0 {
        None
    } else if text_at_path(nodes[0], path) == Some(value) {
        Some(nodes[0])
    } else {
        first_with_text(nodes.drop_first(), path, value)
    }
}

/// The first element whose text at `path` is `value`: how array members are
/// picked out by their key (`key`, `type`, `identifierType/key`).
pub fn find_by_text<'a>(items: &Vec<&'a Element>, path: &str, value: &str) -> (r: Option<&'a Element>)
    ensures
        match r {
            Some(e) => first_with_text(items@.map_values(|x: &Element| x@), path@, value@) == Some(e@),
            None => first_with_text(items@.map_values(|x: &Element| x@), path@, value@).is_none(),
        },
{
    let ghost nv = items@.map_values(|x: &Element| x@);
    let mut i: usize = 0;
    proof { assert(nv.skip(0) =~= nv); }
    while i < items.len()
        invariant
            i <= items@.len(),
            nv == items@.map_values(|x: &Element| x@),
            first_with_text(nv, path@, value@) == first_with_text(nv.skip(i as int), path@, value@),
        decreases items.len() - i,
    {
        proof {
            assert(nv.skip(i as int).drop_first() =~= nv.skip(i + 1));
            assert(nv.skip(i as int)[0] == items@[i as int]@);
        }
        let hit = match items[i].text_at(path) {
            Some(t) => str_eq(t.as_str(), value),
            None => false,
        };
        if hit {
            return Some(items[i]);
        }
        i += 1;
    }
    None
}

/// One step of a document, as the tree builder sees it.
pub enum XmlToken {
    /// A start tag, or with `empty` a self-closing one: its raw (possibly
    /// prefixed) name and its attributes as raw key and unescaped value.
    Open { name: String, attrs: Vec<(String, String)>, empty: bool },
    /// An end tag.
    Close,
    /// Unescaped character data.
    Text(String),
}

pub open spec fn type_key() -> Seq<char> {
    seq!['t', 'y', 'p', 'e']
}

pub open spec fn xsi_prefix() -> Seq<char> {
    seq!['x', 's', 'i', ':']
}

/// The name a prefixed XML name is matched by: the part after the last `:`.
pub open spec fn local_name(raw: Seq<char>) -> Seq<char> {
    after_last(raw, ':')
}

/// The value of the last attribute written `xsi:type`.
pub open spec fn xsi_type_of(attrs: Seq<(Seq<char>, Seq<char>)>) -> Option<Seq<char>>
    decreases attrs.len(),
{
    if attrs.len() == 0 {
        None
    } else if local_name(attrs.last().0) == type_key() && has_prefix(attrs.last().0, xsi_prefix()) {
        Some(attrs.last().1)
    } else {
        xsi_type_of(attrs.drop_last())
    }
}

/// Attributes keyed by their local names.
pub open spec fn local_attrs(attrs: Seq<(Seq<char>, Seq<char>)>) -> Seq<(Seq<char>, Seq<char>)> {
    attrs.map_values(|a: (Seq<char>, Seq<char>)| (local_name(a.0), a.1))
}

/// A freshly opened element, before any text or child arrives.
pub open spec fn opened(name: Seq<char>, attrs: Seq<(Seq<char>, Seq<char>)>) -> XNode {
    XNode {
        name: local_name(name),
        xsi_type: xsi_type_of(attrs),
        attrs: local_attrs(attrs),
        text: Seq::empty(),
        children: Seq::empty(),
    }
}

/// `el` appended as the last child of the innermost open element.
pub open spec fn add_child(stack: Seq<XNode>, el: XNode) -> Seq<XNode> {
    let top = stack.last();
    stack.update(stack.len() - 1, XNode { children: top.children.push(el), ..top })
}

/// `t` appended to the text of the innermost open element.
pub open spec fn add_text(stack: Seq<XNode>, t: Seq<char>) -> Seq<XNode> {
    let top = stack.last();
    stack.update(stack.len() - 1, XNode { text: top.text + t, ..top })
}

/// The stack of open elements after one more token. A start tag opens an
/// element; a self-closing tag becomes a child at once; an end tag closes the
/// innermost element into its parent, and is ignored when only the document
/// node is open; text goes to the innermost element.
pub open spec fn step(stack: Seq<XNode>, t: XmlToken) -> Seq<XNode> {
    match t {
        XmlToken::Open { name, attrs, empty } => {
            let el = opened(name@, pairs_view(attrs@));
            if empty {
                add_child(stack, el)
            } else {
                stack.push(el)
            }
        },
        XmlToken::Close => {
            if stack.len() > 1 {
                add_child(stack.drop_last(), stack.last())
            } else {
                stack
            }
        },
        XmlToken::Text(s) => add_text(stack, s@),
    }
}

pub open spec fn document_name() -> Seq<char> {
    seq!['#', 'd', 'o', 'c', 'u', 'm', 'e', 'n', 't']
}

/// The node that holds the whole document.
pub open spec fn document_node() -> XNode {
    XNode {
        name: document_name(),
        xsi_type: None,
        attrs: Seq::empty(),
        text: Seq::empty(),
        children: Seq::empty(),
    }
}

/// The stack of open elements after every token in `ts`.
pub open spec fn run(ts: Seq<XmlToken>) -> Seq<XNode>
    decreases ts.len(),
{
    if ts.len() == 0 {
        seq![document_node()]
    } else {
        step(run(ts.drop_last()), ts.last())
    }
}

/// The tree a token sequence describes: the single top-level element when
/// there is exactly one, else the document node holding them all. Elements
/// still open at the end are not part of it.
pub open spec fn tree_of(ts: Seq<XmlToken>) -> XNode {
    let root = run(ts)[0];
    if root.children.len() == 1 {
        root.children[0]
    } else {
        root
    }
}

pub proof fn lemma_run_nonempty(ts: Seq<XmlToken>)
    ensures
        run(ts).len() >= 1,
    decreases ts.len(),
{
    if ts.len() > 0 {
        lemma_run_nonempty(ts.drop_last());
    }
}

pub proof fn lemma_nodes_of_push(cs: Seq<Element>, x: Element)
    ensures
        nodes_of(cs.push(x)) == nodes_of(cs).push(node_of(x)),
{
    assert(cs.push(x).drop_last() =~= cs);
}

pub proof fn lemma_nodes_of_drop_last(cs: Seq<Element>)
    requires
        cs.len() > 0,
    ensures
        nodes_of(cs.drop_last()) == nodes_of(cs).drop_last(),
{
    lemma_nodes_of(cs);
    lemma_nodes_of(cs.drop_last());
    assert(nodes_of(cs.drop_last()) =~= nodes_of(cs).drop_last());
}

/// An element built from a start tag: the local name, the attributes under
/// their local keys, and the `xsi:type` value.
pub fn element_from(name: &str, attrs: &Vec<(String, String)>) -> (e: Element)
    ensures
        e@ == opened(name@, pairs_view(attrs@)),
{
    let local = after_last_char(name, ':');
    let mut out: Vec<(String, String)> = Vec::new();
    let mut xsi_type: Option<String> = None;
    let ghost raw = pairs_view(attrs@);
    let mut i: usize = 0;
    while i < attrs.len()
        invariant
            i <= attrs@.len(),
            raw == pairs_view(attrs@),
            pairs_view(out@) =~= local_attrs(raw.take(i as int)),
            opt_str_view(xsi_type) == xsi_type_of(raw.take(i as int)),
        decreases attrs.len() - i,
    {
        let key_raw = attrs[i].0.as_str();
        let key = after_last_char(key_raw, ':');
        let val = attrs[i].1.clone();
        proof {
            reveal_strlit("type");
            reveal_strlit("xsi:");
            assert("type"@ =~= type_key());
            assert("xsi:"@ =~= xsi_prefix());
            assert(raw.take(i + 1).drop_last() =~= raw.take(i as int));
            assert(raw.take(i + 1).last() == raw[i as int]);
            assert(raw[i as int] == (key_raw@, val@));
        }
        if str_eq(key.as_str(), "type") && starts_with(key_raw, "xsi:") {
            xsi_type = Some(val.clone());
        }
        let ghost out_before = out@;
        out.push((key, val));
        proof {
            assert(pairs_view(out@) =~= pairs_view(out_before).push((key@, val@)));
            assert(local_attrs(raw.take(i + 1)) =~= local_attrs(raw.take(i as int)).push((local_name(key_raw@), val@)));
        }
        i += 1;
    }
    proof {
        assert(raw.take(raw.len() as int) =~= raw);
        assert(pairs_view(out@) =~= local_attrs(raw));
        assert(nodes_of(Seq::<Element>::empty()) =~= Seq::<XNode>::empty());
    }
    Element { name: local, xsi_type, attrs: out, text: String::new(), children: Vec::new() }
}

/// Build the tree that a token sequence describes; see [`tree_of`].
pub fn assemble(tokens: &Vec<XmlToken>) -> (e: Element)
    ensures
        e@ == tree_of(tokens@),
{
    let mut stack: Vec<Element> = Vec::new();
    stack.push(Element {
        name: String::from_str("#document"),
        xsi_type: None,
        attrs: Vec::new(),
        text: String::new(),
        children: Vec::new(),
    });
    proof {
        reveal_strlit("#document");
        assert(nodes_of(Seq::<Element>::empty()) =~= Seq::<XNode>::empty());
        assert(pairs_view(Seq::<(String, String)>::empty()) =~= Seq::<(Seq<char>, Seq<char>)>::empty());
        assert("#document"@ =~= document_name());
        assert(stack@[0]@ == document_node());
        assert(stack@ =~= Seq::<Element>::empty().push(stack@[0]));
        lemma_nodes_of_push(Seq::<Element>::empty(), stack@[0]);
        assert(tokens@.take(0) =~= Seq::<XmlToken>::empty());
        assert(nodes_of(stack@) =~= run(tokens@.take(0)));
    }
    let mut i: usize = 0;
    while i < tokens.len()
        invariant
            i <= tokens@.len(),
            stack@.len() >= 1,
            nodes_of(stack@) == run(tokens@.take(i as int)),
        decreases tokens.len() - i,
    {
        proof {
            assert(tokens@.take(i + 1).drop_last() =~= tokens@.take(i as int));
            lemma_nodes_of(stack@);
        }
        let ghost before = nodes_of(stack@);
        let ghost old_stack = stack@;
        proof { lemma_nodes_of_drop_last(old_stack); }
        match &tokens[i] {
            XmlToken::Open { name, attrs, empty } => {
                let el = element_from(name.as_str(), attrs);
                if *empty {
                    let mut top = stack.pop().unwrap();
                    let ghost kids = top.children@;
                    top.children.push(el);
                    proof {
                        lemma_nodes_of_push(kids, el);
                        lemma_nodes_of_push(stack@, top);
                    }
                    stack.push(top);
                } else {
                    proof { lemma_nodes_of_push(stack@, el); }
                    stack.push(el);
                }
            },
            XmlToken::Close => {
                if stack.len() > 1 {
                    let el = stack.pop().unwrap();
                    let ghost mid = stack@;
                    proof { lemma_nodes_of_drop_last(mid); }
                    let mut top = stack.pop().unwrap();
                    let ghost kids = top.children@;
                    top.children.push(el);
                    proof {
                        lemma_nodes_of_push(kids, el);
                        lemma_nodes_of_push(stack@, top);
                    }
                    stack.push(top);
                }
            },
            XmlToken::Text(t) => {
                let mut top = stack.pop().unwrap();
                top.text.append(t.as_str());
                proof { lemma_nodes_of_push(stack@, top); }
                stack.push(top);
            },
        }
        proof {
            assert(nodes_of(stack@) =~= step(before, tokens@[i as int]));
        }
        i += 1;
    }
    proof {
        assert(tokens@.take(tokens@.len() as int) =~= tokens@);
        lemma_nodes_of(stack@);
    }
    let mut root = stack.remove(0);
    proof { lemma_children_view(root); }
    if root.children.len() == 1 {
        root.children.remove(0)
    } else {
        root
    }
}

} // verus!
