//! vim25 SOAP: the request bodies, the reading of replies, and the managed
//! objects a `RetrievePropertiesEx` answer is made of.
//!
//! Sending and receiving is left to the caller; everything decided about a
//! request or a reply is here.

use vstd::prelude::*;
use crate::text::{chars_of, has_prefix, parse_i64, parse_i64_str, split_char, split_on, starts_with, str_eq};
use crate::vcenter::xml::{attr_of, child_of, find_in, lemma_children_view, named, Element, XNode};

verus! {

pub const SOAP_ACTION: &'static str = "urn:vim25/8.0";

/// What one character becomes in escaped text.
pub open spec fn escape_char(c: char) -> Seq<char> {
    if c == '&' {
        "&amp;"@
    } else if c == '<' {
        "&lt;"@
    } else if c == '>' {
        "&gt;"@
    } else if c == '"' {
        "&quot;"@
    } else if c == '\'' {
        "&apos;"@
    } else {
        seq![c]
    }
}

/// `s` with every markup character replaced by its entity reference.
pub open spec fn escaped(s: Seq<char>) -> Seq<char>
    decreases s.len(),
{
    if s.len() == 0 {
        Seq::empty()
    } else {
        escaped(s.drop_last()) + escape_char(s.last())
    }
}

/// Escape text destined for a SOAP envelope.
///
/// Passwords are interpolated into XML; one containing `&` or `<` would
/// otherwise produce a malformed envelope and a failure that looks like bad
/// credentials.
pub fn xml_escape(s: &str) -> (r: String)
    ensures
        r@ == escaped(s@),
{
    let cs = chars_of(s);
    let mut out = String::new();
    let mut i: usize = 0;
    while i < cs.len()
        invariant
            i <= cs@.len(),
            cs@ == s@,
            out@ == escaped(cs@.take(i as int)),
        decreases cs.len() - i,
    {
        let c = cs[i];
        proof { assert(cs@.take(i + 1).drop_last() =~= cs@.take(i as int)); }
        if c == '&' {
            out.append("&amp;");
        } else if c == '<' {
            out.append("&lt;");
        } else if c == '>' {
            out.append("&gt;");
        } else if c == '"' {
            out.append("&quot;");
        } else if c == '\'' {
            out.append("&apos;");
        } else {
            out.push(c);
        }
        i += 1;
    }
    proof { assert(cs@.take(cs@.len() as int) =~= cs@); }
    out
}

pub open spec fn is_markup(c: char) -> bool {
    c == '<' || c == '>' || c == '"' || c == '\''
}

/// Escaped text holds no character that could open or close a tag or an
/// attribute value: whatever an operator types, it stays text.
pub proof fn lemma_escaped_has_no_markup(s: Seq<char>)
    ensures
        forall|i: int| 0 <= i < escaped(s).len() ==> !is_markup(#[trigger] escaped(s)[i]),
    decreases s.len(),
{
    reveal_strlit("&amp;");
    reveal_strlit("&lt;");
    reveal_strlit("&gt;");
    reveal_strlit("&quot;");
    reveal_strlit("&apos;");
    if s.len() > 0 {
        lemma_escaped_has_no_markup(s.drop_last());
        let e = escape_char(s.last());
        assert forall|i: int| 0 <= i < e.len() implies !is_markup(#[trigger] e[i]) by {}
        assert forall|i: int| 0 <= i < escaped(s).len() implies !is_markup(#[trigger] escaped(s)[i]) by {
            let prev = escaped(s.drop_last());
            if i < prev.len() {
                assert(escaped(s)[i] == prev[i]);
            } else {
                assert(escaped(s)[i] == e[i - prev.len()]);
            }
        }
    }
}

/// A character that escaping replaces.
pub open spec fn is_special(c: char) -> bool {
    c == '&' || is_markup(c)
}

/// Escaped text read back: each of the five entity references becomes its
/// character again, left to right; everything else is kept.
pub open spec fn unescaped(t: Seq<char>) -> Seq<char>
    decreases t.len(),
{
    if t.len() == 0 {
        Seq::empty()
    } else if t.len() >= 5 && t.take(5) == "&amp;"@ {
        seq!['&'] + unescaped(t.skip(5))
    } else if t.len() >= 4 && t.take(4) == "&lt;"@ {
        seq!['<'] + unescaped(t.skip(4))
    } else if t.len() >= 4 && t.take(4) == "&gt;"@ {
        seq!['>'] + unescaped(t.skip(4))
    } else if t.len() >= 6 && t.take(6) == "&quot;"@ {
        seq!['"'] + unescaped(t.skip(6))
    } else if t.len() >= 6 && t.take(6) == "&apos;"@ {
        seq!['\''] + unescaped(t.skip(6))
    } else {
        seq![t[0]] + unescaped(t.skip(1))
    }
}

proof fn lemma_escaped_concat(a: Seq<char>, b: Seq<char>)
    ensures
        escaped(a + b) == escaped(a) + escaped(b),
    decreases b.len(),
{
    if b.len() == 0 {
        assert(a + b =~= a);
        assert(escaped(a) + escaped(b) =~= escaped(a));
    } else {
        assert((a + b).drop_last() =~= a + b.drop_last());
        assert((a + b).last() == b.last());
        lemma_escaped_concat(a, b.drop_last());
        assert(escaped(a) + escaped(b.drop_last()) + escape_char(b.last()) =~= escaped(a) + (escaped(b.drop_last())
            + escape_char(b.last())));
    }
}

proof fn lemma_unescape_char(c: char, r: Seq<char>)
    ensures
        unescaped(escape_char(c) + r) == seq![c] + unescaped(r),
{
    reveal_strlit("&amp;");
    reveal_strlit("&lt;");
    reveal_strlit("&gt;");
    reveal_strlit("&quot;");
    reveal_strlit("&apos;");
    let t = escape_char(c) + r;
    if c == '&' {
        assert(t.take(5) =~= "&amp;"@);
        assert(t.skip(5) =~= r);
    } else if c == '<' {
        assert(t[1] == 'l');
        assert(t.take(4) =~= "&lt;"@);
        assert(t.skip(4) =~= r);
    } else if c == '>' {
        assert(t[1] == 'g');
        assert(t.take(4) =~= "&gt;"@);
        assert(t.skip(4) =~= r);
    } else if c == '"' {
        assert(t[1] == 'q');
        assert(t.take(6) =~= "&quot;"@);
        assert(t.skip(6) =~= r);
    } else if c == '\'' {
        assert(t[1] == 'a' && t[2] == 'p');
        assert(t.take(6) =~= "&apos;"@);
        assert(t.skip(6) =~= r);
    } else {
        assert(t[0] == c);
        assert(t.skip(1) =~= r);
        if t.len() >= 4 {
            assert(t.take(4)[0] == c);
        }
        if t.len() >= 5 {
            assert(t.take(5)[0] == c);
        }
        if t.len() >= 6 {
            assert(t.take(6)[0] == c);
        }
    }
}

/// Escaping loses nothing: reading the entity references back gives the
/// original text exactly.
pub proof fn lemma_escape_round_trip(s: Seq<char>)
    ensures
        unescaped(escaped(s)) == s,
    decreases s.len(),
{
    if s.len() > 0 {
        let rest = s.drop_first();
        assert(s =~= seq![s[0]] + rest);
        lemma_escaped_concat(seq![s[0]], rest);
        assert(seq![s[0]].drop_last() =~= Seq::<char>::empty());
        assert(seq![s[0]].last() == s[0]);
        assert(escaped(Seq::<char>::empty()) =~= Seq::<char>::empty());
        assert(escaped(seq![s[0]]) =~= Seq::<char>::empty() + escape_char(s[0]));
        assert(escaped(seq![s[0]]) =~= escape_char(s[0]));
        lemma_unescape_char(s[0], escaped(rest));
        lemma_escape_round_trip(rest);
    }
}

proof fn lemma_escaped_len(s: Seq<char>)
    ensures
        escaped(s).len() >= s.len(),
        (exists|i: int| 0 <= i < s.len() && is_special(#[trigger] s[i])) ==> escaped(s).len() > s.len(),
        (forall|i: int| 0 <= i < s.len() ==> !is_special(#[trigger] s[i])) ==> escaped(s) == s,
    decreases s.len(),
{
    reveal_strlit("&amp;");
    reveal_strlit("&lt;");
    reveal_strlit("&gt;");
    reveal_strlit("&quot;");
    reveal_strlit("&apos;");
    if s.len() > 0 {
        let p = s.drop_last();
        lemma_escaped_len(p);
        if exists|i: int| 0 <= i < s.len() && is_special(#[trigger] s[i]) {
            let i = choose|i: int| 0 <= i < s.len() && is_special(#[trigger] s[i]);
            if i < p.len() {
                assert(is_special(p[i]));
            }
        }
        if forall|i: int| 0 <= i < s.len() ==> !is_special(#[trigger] s[i]) {
            assert forall|i: int| 0 <= i < p.len() implies !is_special(#[trigger] p[i]) by {
                assert(p[i] == s[i]);
            }
            assert(!is_special(s[s.len() - 1]));
            assert(escaped(s) =~= p.push(s.last()));
            assert(p.push(s.last()) =~= s);
        }
    }
}

/// Escaping leaves text alone exactly when it holds none of `&`, `<`, `>`,
/// `"` and `'`.
pub proof fn lemma_escape_keeps_plain_text(s: Seq<char>)
    ensures
        escaped(s) == s <==> forall|i: int| 0 <= i < s.len() ==> !is_special(#[trigger] s[i]),
{
    lemma_escaped_len(s);
}

pub const ENVELOPE_HEAD: &'static str = "<?xml version=\"1.0\" encoding=\"UTF-8\"?><soapenv:Envelope xmlns:soapenv=\"http://schemas.xmlsoap.org/soap/envelope/\" xmlns:xsi=\"http://www.w3.org/2001/XMLSchema-instance\" xmlns:vim25=\"urn:vim25\"><soapenv:Body>";
pub const ENVELOPE_TAIL: &'static str = "</soapenv:Body></soapenv:Envelope>";

/// A SOAP envelope around `body`.
pub fn envelope(body: &str) -> (r: String)
    ensures
        r@ == ENVELOPE_HEAD@ + body@ + ENVELOPE_TAIL@,
{
    String::from_str(ENVELOPE_HEAD).concat(body).concat(ENVELOPE_TAIL)
}

pub const LOGIN_HEAD: &'static str = "<vim25:Login><vim25:_this type=\"SessionManager\">SessionManager</vim25:_this><vim25:userName>";
pub const LOGIN_MID: &'static str = "</vim25:userName><vim25:password>";
pub const LOGIN_TAIL: &'static str = "</vim25:password></vim25:Login>";

/// The `Login` call, with user name and password escaped.
pub fn login_body(username: &str, password: &str) -> (r: String)
    ensures
        r@ == LOGIN_HEAD@ + escaped(username@) + LOGIN_MID@ + escaped(password@) + LOGIN_TAIL@,
{
    let u = xml_escape(username);
    let p = xml_escape(password);
    String::from_str(LOGIN_HEAD).concat(u.as_str()).concat(LOGIN_MID).concat(p.as_str()).concat(LOGIN_TAIL)
}

pub const LOGOUT_BODY: &'static str = "<vim25:Logout><vim25:_this type=\"SessionManager\">SessionManager</vim25:_this></vim25:Logout>";

pub const VIEW_HEAD: &'static str = "<vim25:CreateContainerView><vim25:_this type=\"ViewManager\">ViewManager</vim25:_this><vim25:container type=\"Folder\">group-d1</vim25:container><vim25:type>";
pub const VIEW_TAIL: &'static str = "</vim25:type><vim25:recursive>true</vim25:recursive></vim25:CreateContainerView>";

/// The `CreateContainerView` call over the whole inventory for one
/// managed-object type.
pub fn container_view_body(obj_type: &str) -> (r: String)
    ensures
        r@ == VIEW_HEAD@ + obj_type@ + VIEW_TAIL@,
{
    String::from_str(VIEW_HEAD).concat(obj_type).concat(VIEW_TAIL)
}

pub const DESTROY_HEAD: &'static str = "<vim25:DestroyView><vim25:_this type=\"ContainerView\">";
pub const DESTROY_TAIL: &'static str = "</vim25:_this></vim25:DestroyView>";

/// The `DestroyView` call for a view.
pub fn destroy_view_body(view: &str) -> (r: String)
    ensures
        r@ == DESTROY_HEAD@ + escaped(view@) + DESTROY_TAIL@,
{
    let v = xml_escape(view);
    String::from_str(DESTROY_HEAD).concat(v.as_str()).concat(DESTROY_TAIL)
}

pub const PATH_HEAD: &'static str = "<vim25:pathSet>";
pub const PATH_TAIL: &'static str = "</vim25:pathSet>";

/// One `pathSet` element per property, in order.
pub open spec fn path_set(props: Seq<Seq<char>>) -> Seq<char>
    decreases props.len(),
{
    if props.len() == 0 {
        Seq::empty()
    } else {
        path_set(props.drop_last()) + PATH_HEAD@ + escaped(props.last()) + PATH_TAIL@
    }
}

pub const RETRIEVE_HEAD: &'static str = "<vim25:RetrievePropertiesEx><vim25:_this type=\"PropertyCollector\">propertyCollector</vim25:_this><vim25:specSet><vim25:propSet><vim25:type>";
pub const RETRIEVE_MID: &'static str = "</vim25:type>";
pub const RETRIEVE_OBJ: &'static str = "</vim25:propSet><vim25:objectSet><vim25:obj type=\"ContainerView\">";
pub const RETRIEVE_TAIL: &'static str = "</vim25:obj><vim25:skip>true</vim25:skip><vim25:selectSet xsi:type=\"vim25:TraversalSpec\"><vim25:name>view</vim25:name><vim25:type>ContainerView</vim25:type><vim25:path>view</vim25:path><vim25:skip>false</vim25:skip></vim25:selectSet></vim25:objectSet></vim25:specSet><vim25:options/></vim25:RetrievePropertiesEx>";

pub open spec fn strs_view(v: Seq<&str>) -> Seq<Seq<char>> {
    v.map_values(|s: &str| s@)
}

/// The `RetrievePropertiesEx` call for `props` of every `obj_type` object in
/// a container view.
pub fn retrieve_body(obj_type: &str, props: &[&str], view: &str) -> (r: String)
    ensures
        r@ == RETRIEVE_HEAD@ + obj_type@ + RETRIEVE_MID@ + path_set(strs_view(props@)) + RETRIEVE_OBJ@ + view@ + RETRIEVE_TAIL@,
{
    let mut paths = String::new();
    let mut i: usize = 0;
    while i < props.len()
        invariant
            i <= props@.len(),
            paths@ == path_set(strs_view(props@.take(i as int))),
        decreases props.len() - i,
    {
        proof {
            assert(strs_view(props@.take(i + 1)).drop_last() =~= strs_view(props@.take(i as int)));
            assert(strs_view(props@.take(i + 1)).last() == props@[i as int]@);
        }
        let e = xml_escape(props[i]);
        paths.append(PATH_HEAD);
        paths.append(e.as_str());
        paths.append(PATH_TAIL);
        i += 1;
    }
    proof { assert(props@.take(props@.len() as int) =~= props@); }
    String::from_str(RETRIEVE_HEAD).concat(obj_type).concat(RETRIEVE_MID).concat(paths.as_str()).concat(
        RETRIEVE_OBJ,
    ).concat(view).concat(RETRIEVE_TAIL)
}

pub const CONTINUE_HEAD: &'static str = "<vim25:ContinueRetrievePropertiesEx><vim25:_this type=\"PropertyCollector\">propertyCollector</vim25:_this><vim25:token>";
pub const CONTINUE_TAIL: &'static str = "</vim25:token></vim25:ContinueRetrievePropertiesEx>";

/// The call that fetches the page after the one that carried `token`.
pub fn continue_body(token: &str) -> (r: String)
    ensures
        r@ == CONTINUE_HEAD@ + escaped(token@) + CONTINUE_TAIL@,
{
    let t = xml_escape(token);
    String::from_str(CONTINUE_HEAD).concat(t.as_str()).concat(CONTINUE_TAIL)
}

/// The value of a managed object: its moref, the moref's type, and each
/// property path with the `<val>` node holding its value.
pub struct MoView {
    pub moref: Seq<char>,
    pub moref_type: Seq<char>,
    pub props: Seq<(Seq<char>, XNode)>,
}

/// One managed object plus the properties that were asked for.
#[derive(Debug)]
pub struct ManagedObject {
    pub moref: String,
    pub moref_type: String,
    /// Property path, and the `<val>` element holding its value.
    pub props: Vec<(String, Element)>,
}

pub open spec fn prop_view(p: (String, Element)) -> (Seq<char>, XNode) {
    (p.0@, p.1@)
}

impl View for ManagedObject {
    type V = MoView;

    open spec fn view(&self) -> MoView {
        MoView {
            moref: self.moref@,
            moref_type: self.moref_type@,
            props: self.props@.map_values(|p: (String, Element)| prop_view(p)),
        }
    }
}

/// The moref and its type, from the object's `<obj type="...">` child.
pub open spec fn obj_ref(obj: XNode) -> (Seq<char>, Seq<char>) {
    match child_of(obj, "obj"@) {
        Some(o) => (
            o.text,
            match attr_of(o.attrs, "type"@) {
                Some(t) => t,
                None => Seq::empty(),
            },
        ),
        None => (Seq::empty(), Seq::empty()),
    }
}

/// The `(name, val)` of every `propSet` that has both, in order.
pub open spec fn prop_entries(ps: Seq<XNode>) -> Seq<(Seq<char>, XNode)>
    decreases ps.len(),
{
    if ps.len() == 0 {
        Seq::empty()
    } else {
        let rest = prop_entries(ps.drop_last());
        match (child_of(ps.last(), "name"@), child_of(ps.last(), "val"@)) {
            (Some(n), Some(v)) => rest.push((n.text, v)),
            _ => rest,
        }
    }
}

/// The managed object an `<objects>` element describes.
pub open spec fn mo_of(obj: XNode) -> MoView {
    MoView {
        moref: obj_ref(obj).0,
        moref_type: obj_ref(obj).1,
        props: prop_entries(named(obj.children, "propSet"@)),
    }
}

/// The value node of the first property with this path.
pub open spec fn prop_of(props: Seq<(Seq<char>, XNode)>, name: Seq<char>) -> Option<XNode>
    decreases props.len(),
{
    if props.len() == 0 {
        None
    } else if props[0].0 == name {
        Some(props[0].1)
    } else {
        prop_of(props.drop_first(), name)
    }
}

/// A property's text, when it has any.
pub open spec fn str_prop_of(m: MoView, name: Seq<char>) -> Option<Seq<char>> {
    match prop_of(m.props, name) {
        Some(v) => if v.text.len() > 0 {
            Some(v.text)
        } else {
            None
        },
        None => None,
    }
}

/// A property's text read as an `i64`.
pub open spec fn i64_prop_of(m: MoView, name: Seq<char>) -> Option<i64> {
    match str_prop_of(m, name) {
        Some(t) => parse_i64(t),
        None => None,
    }
}

/// The boolean a property's text spells: `true` or `1`, `false` or `0`.
pub open spec fn bool_text(t: Seq<char>) -> Option<bool> {
    if t == "true"@ || t == "1"@ {
        Some(true)
    } else if t == "false"@ || t == "0"@ {
        Some(false)
    } else {
        None
    }
}

pub open spec fn bool_prop_of(m: MoView, name: Seq<char>) -> Option<bool> {
    match str_prop_of(m, name) {
        Some(t) => bool_text(t),
        None => None,
    }
}

/// The members of an array-valued property: every child of its value.
pub open spec fn array_prop_of(m: MoView, name: Seq<char>) -> Seq<XNode> {
    match prop_of(m.props, name) {
        Some(v) => v.children,
        None => Seq::empty(),
    }
}

impl ManagedObject {
    /// Build from an `<objects>` element. Public so sheets can be tested
    /// against captured vCenter XML without a live server.
    pub fn from_element(obj: &Element) -> (m: ManagedObject)
        ensures
            m@ == mo_of(obj@),
    {
        let (moref, moref_type) = match obj.child("obj") {
            Some(o) => {
                let t = match o.attr("type") {
                    Some(t) => String::from_str(t),
                    None => String::new(),
                };
                (o.text.clone(), t)
            },
            None => (String::new(), String::new()),
        };
        let sets = obj.children_named("propSet");
        let ghost sv = named(obj@.children, "propSet"@);
        let mut props: Vec<(String, Element)> = Vec::new();
        let mut i: usize = 0;
        while i < sets.len()
            invariant
                i <= sets@.len(),
                sets@.len() == sv.len(),
                forall|k: int| 0 <= k < sv.len() ==> (#[trigger] sets@[k])@ == sv[k],
                props@.map_values(|p: (String, Element)| prop_view(p)) =~= prop_entries(sv.take(i as int)),
            decreases sets.len() - i,
        {
            let p = sets[i];
            proof { assert(sv.take(i + 1).drop_last() =~= sv.take(i as int)); }
            match (p.child("name"), p.child("val")) {
                (Some(n), Some(v)) => {
                    let ghost before = props@;
                    props.push((n.text.clone(), v.deep_clone()));
                    proof {
                        assert(props@.map_values(|p: (String, Element)| prop_view(p)) =~=
                            before.map_values(|p: (String, Element)| prop_view(p)).push((n@.text, v@)));
                    }
                },
                _ => {},
            }
            i += 1;
        }
        proof { assert(sv.take(sv.len() as int) =~= sv); }
        ManagedObject { moref, moref_type, props }
    }

    /// The `<val>` element of a property.
    pub fn prop(&self, name: &str) -> (r: Option<&Element>)
        ensures
            match r {
                Some(v) => prop_of(self@.props, name@) == Some(v@),
                None => prop_of(self@.props, name@).is_none(),
            },
    {
        let key = String::from_str(name);
        let ghost pv = self@.props;
        let mut i: usize = 0;
        proof { assert(pv.skip(0) =~= pv); }
        while i < self.props.len()
            invariant
                i <= self.props@.len(),
                key@ == name@,
                pv == self@.props,
                pv.len() == self.props@.len(),
                prop_of(pv, name@) == prop_of(pv.skip(i as int), name@),
            decreases self.props.len() - i,
        {
            proof {
                assert(pv.skip(i as int).drop_first() =~= pv.skip(i + 1));
                assert(pv.skip(i as int)[0] == prop_view(self.props@[i as int]));
            }
            if self.props[i].0 == key {
                return Some(&self.props[i].1);
            }
            i += 1;
        }
        None
    }

    /// Scalar property as text; empty text counts as absent.
    pub fn str_prop(&self, name: &str) -> (r: Option<String>)
        ensures
            match r {
                Some(t) => str_prop_of(self@, name@) == Some(t@),
                None => str_prop_of(self@, name@).is_none(),
            },
    {
        match self.prop(name) {
            Some(v) => {
                let t = v.text.clone();
                if chars_of(t.as_str()).len() > 0 {
                    Some(t)
                } else {
                    None
                }
            },
            None => None,
        }
    }

    pub fn i64_prop(&self, name: &str) -> (r: Option<i64>)
        ensures
            r == i64_prop_of(self@, name@),
    {
        match self.str_prop(name) {
            Some(t) => parse_i64_str(t.as_str()),
            None => None,
        }
    }

    pub fn bool_prop(&self, name: &str) -> (r: Option<bool>)
        ensures
            r == bool_prop_of(self@, name@),
    {
        match self.str_prop(name) {
            Some(t) => {
                let s = t.as_str();
                if str_eq(s, "true") || str_eq(s, "1") {
                    Some(true)
                } else if str_eq(s, "false") || str_eq(s, "0") {
                    Some(false)
                } else {
                    None
                }
            },
            None => None,
        }
    }

    /// Members of an array-valued property.
    ///
    /// vim25 names array elements after the property's declared field type,
    /// not the field name (`config.hardware.device` comes back as
    /// `<VirtualDevice xsi:type="VirtualDisk">`), so every child is returned
    /// and callers filter on `xsi_type`.
    pub fn array_prop(&self, name: &str) -> (r: Vec<&Element>)
        ensures
            r@.len() == array_prop_of(self@, name@).len(),
            forall|i: int| 0 <= i < r@.len() ==> (#[trigger] r@[i])@ == array_prop_of(self@, name@)[i],
    {
        let mut out: Vec<&Element> = Vec::new();
        match self.prop(name) {
            Some(v) => {
                proof { lemma_children_view(*v); }
                let mut i: usize = 0;
                while i < v.children.len()
                    invariant
                        i <= v.children@.len(),
                        v@.children.len() == v.children@.len(),
                        forall|k: int| 0 <= k < v.children@.len() ==> #[trigger] v@.children[k] == v.children@[k]@,
                        out@.len() == i,
                        forall|k: int| 0 <= k < i ==> (#[trigger] out@[k])@ == v@.children[k],
                    decreases v.children.len() - i,
                {
                    out.push(&v.children[i]);
                    i += 1;
                }
            },
            None => {},
        }
        out
    }
}

/// The message a SOAP fault carries: its `localizedMessage`, else its
/// `faultstring`, else a placeholder.
pub open spec fn fault_message(fault: XNode) -> Seq<char> {
    match find_in(fault, "localizedMessage"@) {
        Some(m) => m.text,
        None => match find_in(fault, "faultstring"@) {
            Some(m) => m.text,
            None => "unspecified SOAP fault"@,
        },
    }
}

/// What a SOAP reply amounts to. A fault wins over the HTTP status, since
/// vCenter reports faults with an error status and the fault says why; a
/// failed status without a fault is reported by its status; otherwise the
/// reply is its `Body`.
pub open spec fn reply_outcome(success: bool, status: Seq<char>, root: XNode) -> Result<XNode, Seq<char>> {
    match find_in(root, "Fault"@) {
        Some(f) => Err("vCenter SOAP fault ("@ + status + "): "@ + fault_message(f)),
        None => if !success {
            Err("SOAP call returned HTTP "@ + status)
        } else {
            match find_in(root, "Body"@) {
                Some(b) => Ok(b),
                None => Err("SOAP response had no Body"@),
            }
        },
    }
}

/// Read a parsed SOAP reply: its `Body`, or the error it reports. `status`
/// is the HTTP status as shown to the user, `success` whether it was 2xx.
pub fn read_reply(success: bool, status: &str, root: &Element) -> (r: Result<Element, String>)
    ensures
        match r {
            Ok(b) => reply_outcome(success, status@, root@) == Ok::<XNode, Seq<char>>(b@),
            Err(m) => reply_outcome(success, status@, root@) == Err::<XNode, Seq<char>>(m@),
        },
{
    match root.find("Fault") {
        Some(fault) => {
            let msg = match fault.find("localizedMessage") {
                Some(m) => m.text.clone(),
                None => match fault.find("faultstring") {
                    Some(m) => m.text.clone(),
                    None => String::from_str("unspecified SOAP fault"),
                },
            };
            Err(String::from_str("vCenter SOAP fault (").concat(status).concat("): ").concat(msg.as_str()))
        },
        None => {
            if !success {
                return Err(String::from_str("SOAP call returned HTTP ").concat(status));
            }
            match root.find("Body") {
                Some(b) => Ok(b.deep_clone()),
                None => Err(String::from_str("SOAP response had no Body")),
            }
        },
    }
}

/// The first header value that could be read as text.
pub open spec fn first_readable(vals: Seq<Option<Seq<char>>>) -> Option<Seq<char>>
    decreases vals.len(),
{
    if vals.len() == 0 {
        None
    } else if vals[0] is Some {
        vals[0]
    } else {
        first_readable(vals.drop_first())
    }
}

/// The session cookie of a login reply: the `name=value` part of the first
/// readable `Set-Cookie` header, when that cookie is `vmware_soap_session`.
pub open spec fn session_cookie_of(vals: Seq<Option<Seq<char>>>) -> Option<Seq<char>> {
    match first_readable(vals) {
        Some(v) => {
            let c = split_on(v, ';')[0];
            if has_prefix(c, "vmware_soap_session"@) {
                Some(c)
            } else {
                None
            }
        },
        None => None,
    }
}

pub open spec fn opt_strs_view(v: Seq<Option<String>>) -> Seq<Option<Seq<char>>> {
    v.map_values(|o: Option<String>| match o {
        Some(s) => Some(s@),
        None => None,
    })
}

/// Pick the session cookie out of a login reply's `Set-Cookie` headers,
/// each given as its text or `None` when it is not valid text.
pub fn session_cookie(vals: &Vec<Option<String>>) -> (r: Option<String>)
    ensures
        match r {
            Some(c) => session_cookie_of(opt_strs_view(vals@)) == Some(c@),
            None => session_cookie_of(opt_strs_view(vals@)).is_none(),
        },
{
    let ghost vv = opt_strs_view(vals@);
    let mut i: usize = 0;
    proof { assert(vv.skip(0) =~= vv); }
    while i < vals.len()
        invariant
            i <= vals@.len(),
            vv == opt_strs_view(vals@),
            vv.len() == vals@.len(),
            first_readable(vv) == first_readable(vv.skip(i as int)),
        decreases vals.len() - i,
    {
        proof {
            assert(vv.skip(i as int).drop_first() =~= vv.skip(i + 1));
            assert(vv.skip(i as int)[0] == vv[i as int]);
        }
        match &vals[i] {
            Some(v) => {
                let pieces = split_char(v.as_str(), ';');
                let c = pieces[0].clone();
                if starts_with(c.as_str(), "vmware_soap_session") {
                    return Some(c);
                } else {
                    return None;
                }
            },
            None => {},
        }
        i += 1;
    }
    None
}

/// What a login reply amounts to: the session cookie, or why there is none.
pub open spec fn login_outcome(
    success: bool,
    status: Seq<char>,
    root: XNode,
    cookie: Option<Seq<char>>,
) -> Result<Seq<char>, Seq<char>> {
    match find_in(root, "Fault"@) {
        Some(f) => Err(
            "SOAP login failed: "@ + match find_in(f, "localizedMessage"@) {
                Some(m) => m.text,
                None => "login rejected"@,
            },
        ),
        None => if !success {
            Err("SOAP login returned HTTP "@ + status)
        } else {
            match cookie {
                Some(c) => Ok(c),
                None => Err("SOAP login returned no session cookie"@),
            }
        },
    }
}

/// Read a parsed login reply, given the session cookie its headers carried.
pub fn read_login_reply(success: bool, status: &str, root: &Element, cookie: Option<String>) -> (r: Result<
    String,
    String,
>)
    ensures
        match r {
            Ok(c) => login_outcome(success, status@, root@, opt_str(cookie)) == Ok::<Seq<char>, Seq<char>>(c@),
            Err(m) => login_outcome(success, status@, root@, opt_str(cookie)) == Err::<Seq<char>, Seq<char>>(m@),
        },
{
    match root.find("Fault") {
        Some(fault) => {
            let msg = match fault.find("localizedMessage") {
                Some(m) => m.text.clone(),
                None => String::from_str("login rejected"),
            };
            Err(String::from_str("SOAP login failed: ").concat(msg.as_str()))
        },
        None => {
            if !success {
                return Err(String::from_str("SOAP login returned HTTP ").concat(status));
            }
            match cookie {
                Some(c) => Ok(c),
                None => Err(String::from_str("SOAP login returned no session cookie")),
            }
        },
    }
}

pub open spec fn opt_str(o: Option<String>) -> Option<Seq<char>> {
    match o {
        Some(s) => Some(s@),
        None => None,
    }
}

/// The view a `CreateContainerView` reply names, or an error naming the type.
pub open spec fn view_outcome(obj_type: Seq<char>, body: XNode) -> Result<Seq<char>, Seq<char>> {
    match find_in(body, "returnval"@) {
        Some(r) => Ok(r.text),
        None => Err("CreateContainerView for "@ + obj_type + " returned no view"@),
    }
}

pub fn read_view_reply(obj_type: &str, body: &Element) -> (r: Result<String, String>)
    ensures
        match r {
            Ok(v) => view_outcome(obj_type@, body@) == Ok::<Seq<char>, Seq<char>>(v@),
            Err(m) => view_outcome(obj_type@, body@) == Err::<Seq<char>, Seq<char>>(m@),
        },
{
    match body.find("returnval") {
        Some(r) => Ok(r.text.clone()),
        None => Err(String::from_str("CreateContainerView for ").concat(obj_type).concat(" returned no view")),
    }
}

/// The objects on one page of a `RetrievePropertiesEx` answer.
pub open spec fn page_objects(page: XNode) -> Seq<MoView> {
    match find_in(page, "returnval"@) {
        Some(rv) => named(rv.children, "objects"@).map_values(|o: XNode| mo_of(o)),
        None => Seq::empty(),
    }
}

/// The continuation token of a page: present and non-empty when more
/// objects follow.
pub open spec fn page_token(page: XNode) -> Option<Seq<char>> {
    match find_in(page, "returnval"@) {
        Some(rv) => match child_of(rv, "token"@) {
            Some(t) => if t.text.len() > 0 {
                Some(t.text)
            } else {
                None
            },
            None => None,
        },
        None => None,
    }
}

/// Read one page of a `RetrievePropertiesEx` answer: its objects, and the
/// token to continue with when the answer was truncated. A caller that
/// stops before the token runs out under-reports the inventory.
pub fn read_page(page: &Element) -> (r: (Vec<ManagedObject>, Option<String>))
    ensures
        r.0@.map_values(|m: ManagedObject| m@) == page_objects(page@),
        opt_str(r.1) == page_token(page@),
{
    let mut out: Vec<ManagedObject> = Vec::new();
    match page.find("returnval") {
        Some(rv) => {
            let objs = rv.children_named("objects");
            let ghost ov = named(rv@.children, "objects"@);
            let mut i: usize = 0;
            while i < objs.len()
                invariant
                    i <= objs@.len(),
                    objs@.len() == ov.len(),
                    forall|k: int| 0 <= k < ov.len() ==> (#[trigger] objs@[k])@ == ov[k],
                    out@.map_values(|m: ManagedObject| m@) =~= ov.take(i as int).map_values(|o: XNode| mo_of(o)),
                decreases objs.len() - i,
            {
                let m = ManagedObject::from_element(objs[i]);
                let ghost before = out@;
                out.push(m);
                proof {
                    assert(out@.map_values(|m: ManagedObject| m@) =~= before.map_values(|m: ManagedObject| m@).push(m@));
                    assert(ov.take(i + 1).map_values(|o: XNode| mo_of(o)) =~= ov.take(i as int).map_values(|o: XNode| mo_of(o)).push(mo_of(ov[i as int])));
                }
                i += 1;
            }
            proof { assert(ov.take(ov.len() as int) =~= ov); }
            let token = match rv.child("token") {
                Some(t) => {
                    let text = t.text.clone();
                    if chars_of(text.as_str()).len() > 0 {
                        Some(text)
                    } else {
                        None
                    }
                },
                None => None,
            };
            (out, token)
        },
        None => (out, None),
    }
}

} // verus!
