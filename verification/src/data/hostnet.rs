//! Shared plumbing for the host networking sheets: the lookups that turn a
//! physical NIC into the switch and uplink port it serves, and the reading
//! of distributed-switch policy values.

use vstd::prelude::*;
use crate::text::{chars_of, parse_i64, parse_i64_str, str_eq};
use super::common::{key_pos, lemma_key_pos, lookup, upsert};
use crate::vcenter::soap::{strs_view, array_prop_of, ManagedObject, MoView};
use crate::vcenter::xml::{at_path, named, opt_str_view, text_at_path, Element, XNode};

verus! {

/// `HostSystem` properties the networking sheets read.
pub open spec fn host_net_prop_names() -> Seq<Seq<char>> {
    seq![
        "name"@,
        "config.network.pnic"@,
        "config.network.vswitch"@,
        "config.network.portgroup"@,
        "config.network.vnic"@,
        "config.network.proxySwitch"@,
    ]
}

/// `HostSystem` properties the networking sheets read.
pub fn host_net_props() -> (r: Vec<&'static str>)
    ensures
        strs_view(r@) == host_net_prop_names(),
{
    let r = vec![
        "name",
        "config.network.pnic",
        "config.network.vswitch",
        "config.network.portgroup",
        "config.network.vnic",
        "config.network.proxySwitch",
    ];
    proof { assert(strs_view(r@) =~= host_net_prop_names()); }
    r
}

/// `HostSystem` properties vHBA reads.
pub open spec fn host_hba_prop_names() -> Seq<Seq<char>> {
    seq![
        "name"@,
        "config.storageDevice.hostBusAdapter"@,
    ]
}

/// `HostSystem` properties vHBA reads.
pub fn host_hba_props() -> (r: Vec<&'static str>)
    ensures
        strs_view(r@) == host_hba_prop_names(),
{
    let r = vec![
        "name",
        "config.storageDevice.hostBusAdapter",
    ];
    proof { assert(strs_view(r@) =~= host_hba_prop_names()); }
    r
}

/// Where a physical NIC is attached, as the host sees it.
pub struct PnicAttachment {
    /// The distributed switch's name, from the host's proxy switch.
    pub switch: Option<String>,
    /// The uplink port name (`uplink1`), not the numeric key it is stored
    /// under.
    pub uplink_port: Option<String>,
}

pub struct AttachView {
    pub switch: Option<Seq<char>>,
    pub uplink_port: Option<Seq<char>>,
}

impl View for PnicAttachment {
    type V = AttachView;

    open spec fn view(&self) -> AttachView {
        AttachView { switch: opt_str_view(self.switch), uplink_port: opt_str_view(self.uplink_port) }
    }
}

/// A text that is there and not empty.
pub open spec fn nonempty(t: Option<Seq<char>>) -> Option<Seq<char>> {
    match t {
        Some(s) => if s.len() > 0 {
            Some(s)
        } else {
            None
        },
        None => None,
    }
}

/// A proxy switch's uplink port names by key, from its `uplinkPort`
/// key/value pairs.
pub open spec fn port_names_of(ups: Seq<XNode>) -> Seq<(Seq<char>, Seq<char>)>
    decreases ups.len(),
{
    if ups.len() == 0 {
        Seq::empty()
    } else {
        let m = port_names_of(ups.drop_last());
        match (text_at_path(ups.last(), "key"@), text_at_path(ups.last(), "value"@)) {
            (Some(k), Some(v)) => upsert(m, k, v),
            _ => m,
        }
    }
}

/// The NICs one proxy switch's `pnicSpec` entries attach, folded into `acc`.
pub open spec fn specs_attached(
    acc: Seq<(Seq<char>, AttachView)>,
    specs: Seq<XNode>,
    switch: Option<Seq<char>>,
    ports: Seq<(Seq<char>, Seq<char>)>,
) -> Seq<(Seq<char>, AttachView)>
    decreases specs.len(),
{
    if specs.len() == 0 {
        acc
    } else {
        let m = specs_attached(acc, specs.drop_last(), switch, ports);
        let s = specs.last();
        match nonempty(text_at_path(s, "pnicDevice"@)) {
            None => m,
            Some(device) => {
                let uplink = match text_at_path(s, "uplinkPortKey"@) {
                    Some(k) => lookup(ports, k),
                    None => None,
                };
                upsert(m, device, AttachView { switch, uplink_port: uplink })
            },
        }
    }
}

/// One proxy switch's attachments folded into `acc`.
pub open spec fn proxy_attached(acc: Seq<(Seq<char>, AttachView)>, proxy: XNode) -> Seq<(Seq<char>, AttachView)> {
    let switch = nonempty(text_at_path(proxy, "dvsName"@));
    let ports = port_names_of(named(proxy.children, "uplinkPort"@));
    match at_path(proxy, "spec/backing"@) {
        None => acc,
        Some(b) => specs_attached(acc, named(b.children, "pnicSpec"@), switch, ports),
    }
}

pub open spec fn proxies_attached(proxies: Seq<XNode>) -> Seq<(Seq<char>, AttachView)>
    decreases proxies.len(),
{
    if proxies.len() == 0 {
        Seq::empty()
    } else {
        proxy_attached(proxies_attached(proxies.drop_last()), proxies.last())
    }
}

/// `vmnicN` and the switch and uplink port it backs, for every attached NIC;
/// a NIC listed twice keeps the later attachment.
pub open spec fn pnic_attachments_of(host: MoView) -> Seq<(Seq<char>, AttachView)> {
    proxies_attached(array_prop_of(host, "config.network.proxySwitch"@))
}

pub open spec fn attachments_view(v: Seq<(String, PnicAttachment)>) -> Seq<(Seq<char>, AttachView)> {
    v.map_values(|p: (String, PnicAttachment)| (p.0@, p.1@))
}

pub open spec fn pairs_of(v: Seq<(String, String)>) -> Seq<(Seq<char>, Seq<char>)> {
    v.map_values(|p: (String, String)| (p.0@, p.1@))
}

fn put_port(m: &mut Vec<(String, String)>, k: String, v: String)
    ensures
        pairs_of(final(m)@) == upsert(pairs_of(old(m)@), k@, v@),
{
    let ghost mv = pairs_of(m@);
    proof { lemma_key_pos(mv, k@); }
    let mut i: usize = 0;
    while i < m.len()
        invariant
            i <= m@.len(),
            mv == pairs_of(m@),
            forall|j: int| 0 <= j < i ==> mv[j].0 != k@,
        ensures
            i <= m@.len(),
            mv == pairs_of(m@),
            forall|j: int| 0 <= j < i ==> mv[j].0 != k@,
            i < m@.len() ==> mv[i as int].0 == k@,
        decreases m.len() - i,
    {
        if str_eq(m[i].0.as_str(), k.as_str()) {
            break;
        }
        i += 1;
    }
    proof { lemma_key_pos(mv, k@); }
    if i < m.len() {
        proof { assert(key_pos(mv, k@) == Some(i as int)); }
        m.set(i, (k, v));
        proof { assert(pairs_of(m@) =~= mv.update(i as int, (k@, v@))); }
    } else {
        proof { assert(key_pos(mv, k@).is_none()); }
        m.push((k, v));
        proof { assert(pairs_of(m@) =~= mv.push((k@, v@))); }
    }
}

fn get_port(m: &Vec<(String, String)>, k: &str) -> (r: Option<String>)
    ensures
        opt_str_view(r) == lookup(pairs_of(m@), k@),
{
    let ghost mv = pairs_of(m@);
    proof { lemma_key_pos(mv, k@); }
    let mut i: usize = 0;
    while i < m.len()
        invariant
            i <= m@.len(),
            mv == pairs_of(m@),
            forall|j: int| 0 <= j < i ==> mv[j].0 != k@,
        decreases m.len() - i,
    {
        if str_eq(m[i].0.as_str(), k) {
            proof {
                lemma_key_pos(mv, k@);
                assert(mv[i as int].0 == k@);
                assert(key_pos(mv, k@) == Some(i as int));
            }
            return Some(m[i].1.clone());
        }
        i += 1;
    }
    proof { lemma_key_pos(mv, k@); }
    None
}

fn put_attachment(m: &mut Vec<(String, PnicAttachment)>, k: String, v: PnicAttachment)
    ensures
        attachments_view(final(m)@) == upsert(attachments_view(old(m)@), k@, v@),
{
    let ghost mv = attachments_view(m@);
    proof { lemma_key_pos(mv, k@); }
    let mut i: usize = 0;
    while i < m.len()
        invariant
            i <= m@.len(),
            mv == attachments_view(m@),
            forall|j: int| 0 <= j < i ==> mv[j].0 != k@,
        ensures
            i <= m@.len(),
            mv == attachments_view(m@),
            forall|j: int| 0 <= j < i ==> mv[j].0 != k@,
            i < m@.len() ==> mv[i as int].0 == k@,
        decreases m.len() - i,
    {
        if str_eq(m[i].0.as_str(), k.as_str()) {
            break;
        }
        i += 1;
    }
    proof { lemma_key_pos(mv, k@); }
    let ghost kv = (k@, v@);
    if i < m.len() {
        proof { assert(key_pos(mv, k@) == Some(i as int)); }
        m.set(i, (k, v));
        proof { assert(attachments_view(m@) =~= mv.update(i as int, kv)); }
    } else {
        proof { assert(key_pos(mv, k@).is_none()); }
        m.push((k, v));
        proof { assert(attachments_view(m@) =~= mv.push(kv)); }
    }
}

fn clone_text(o: &Option<String>) -> (r: Option<String>)
    ensures
        opt_str_view(r) == opt_str_view(*o),
{
    match o {
        Some(s) => Some(s.clone()),
        None => None,
    }
}

fn nonempty_text(t: Option<String>) -> (r: Option<String>)
    ensures
        opt_str_view(r) == nonempty(opt_str_view(t)),
{
    match t {
        Some(s) => if chars_of(s.as_str()).len() > 0 {
            Some(s)
        } else {
            None
        },
        None => None,
    }
}

/// One proxy switch's attached NICs, folded into `out`.
fn attach_proxy(out: &mut Vec<(String, PnicAttachment)>, proxy: &Element)
    ensures
        attachments_view(final(out)@) == proxy_attached(attachments_view(old(out)@), proxy@),
{
    let switch = nonempty_text(proxy.text_at("dvsName"));
    let ups = proxy.children_named("uplinkPort");
    let ghost uv = named(proxy@.children, "uplinkPort"@);
    let mut ports: Vec<(String, String)> = Vec::new();
    let mut i: usize = 0;
    proof { assert(uv.take(0) =~= Seq::<XNode>::empty()); }
    while i < ups.len()
        invariant
            i <= ups@.len(),
            ups@.len() == uv.len(),
            forall|k: int| 0 <= k < uv.len() ==> (#[trigger] ups@[k])@ == uv[k],
            pairs_of(ports@) == port_names_of(uv.take(i as int)),
        decreases ups.len() - i,
    {
        proof {
            assert(uv.take(i + 1).drop_last() =~= uv.take(i as int));
            assert(uv.take(i + 1).last() == ups@[i as int]@);
        }
        match (ups[i].text_at("key"), ups[i].text_at("value")) {
            (Some(k), Some(v)) => put_port(&mut ports, k, v),
            _ => {},
        }
        i += 1;
    }
    proof { assert(uv.take(uv.len() as int) =~= uv); }
    let backing = match proxy.walk("spec/backing") {
        Some(b) => b,
        None => return,
    };
    let specs = backing.children_named("pnicSpec");
    let ghost sv = named(backing@.children, "pnicSpec"@);
    let ghost start = attachments_view(out@);
    let mut j: usize = 0;
    proof { assert(sv.take(0) =~= Seq::<XNode>::empty()); }
    while j < specs.len()
        invariant
            j <= specs@.len(),
            specs@.len() == sv.len(),
            forall|k: int| 0 <= k < sv.len() ==> (#[trigger] specs@[k])@ == sv[k],
            pairs_of(ports@) == port_names_of(uv),
            attachments_view(out@) == specs_attached(start, sv.take(j as int), opt_str_view(switch), port_names_of(uv)),
        decreases specs.len() - j,
    {
        proof {
            assert(sv.take(j + 1).drop_last() =~= sv.take(j as int));
            assert(sv.take(j + 1).last() == specs@[j as int]@);
        }
        let s = specs[j];
        match nonempty_text(s.text_at("pnicDevice")) {
            Some(device) => {
                let uplink = match s.text_at("uplinkPortKey") {
                    Some(k) => get_port(&ports, k.as_str()),
                    None => None,
                };
                put_attachment(out, device, PnicAttachment { switch: clone_text(&switch), uplink_port: uplink });
            },
            None => {},
        }
        j += 1;
    }
    proof { assert(sv.take(sv.len() as int) =~= sv); }
}

/// `vmnicN` and the switch and uplink port it backs.
///
/// A host's view of a distributed switch is a `proxySwitch`, whose
/// `spec/backing/pnicSpec` lists which physical NIC serves which uplink. The
/// uplink is given as a numeric `uplinkPortKey`, and the readable name lives
/// in the proxy switch's own `uplinkPort` key/value pairs, so resolving it
/// needs both halves.
pub fn pnic_attachments(host: &ManagedObject) -> (r: Vec<(String, PnicAttachment)>)
    ensures
        attachments_view(r@) == pnic_attachments_of(host@),
{
    let proxies = host.array_prop("config.network.proxySwitch");
    let ghost pv = array_prop_of(host@, "config.network.proxySwitch"@);
    let mut out: Vec<(String, PnicAttachment)> = Vec::new();
    let mut i: usize = 0;
    proof {
        assert(pv.take(0) =~= Seq::<XNode>::empty());
        assert(attachments_view(out@) =~= Seq::<(Seq<char>, AttachView)>::empty());
    }
    while i < proxies.len()
        invariant
            i <= proxies@.len(),
            proxies@.len() == pv.len(),
            pv == array_prop_of(host@, "config.network.proxySwitch"@),
            forall|k: int| 0 <= k < pv.len() ==> (#[trigger] proxies@[k])@ == pv[k],
            attachments_view(out@) == proxies_attached(pv.take(i as int)),
        decreases proxies.len() - i,
    {
        proof {
            assert(pv.take(i + 1).drop_last() =~= pv.take(i as int));
            assert(pv.take(i + 1).last() == proxies@[i as int]@);
        }
        attach_proxy(&mut out, proxies[i]);
        i += 1;
    }
    proof { assert(pv.take(pv.len() as int) =~= pv); }
    out
}

/// The attachment of one NIC.
pub fn attachment_of<'a>(attachments: &'a Vec<(String, PnicAttachment)>, device: &str) -> (r: Option<&'a PnicAttachment>)
    ensures
        match r {
            Some(a) => lookup(attachments_view(attachments@), device@) == Some(a@),
            None => lookup(attachments_view(attachments@), device@).is_none(),
        },
{
    let ghost mv = attachments_view(attachments@);
    proof { lemma_key_pos(mv, device@); }
    let mut i: usize = 0;
    while i < attachments.len()
        invariant
            i <= attachments@.len(),
            mv == attachments_view(attachments@),
            forall|j: int| 0 <= j < i ==> mv[j].0 != device@,
        decreases attachments.len() - i,
    {
        if str_eq(attachments[i].0.as_str(), device) {
            proof {
                lemma_key_pos(mv, device@);
                assert(mv[i as int].0 == device@);
                assert(key_pos(mv, device@) == Some(i as int));
            }
            return Some(&attachments[i].1);
        }
        i += 1;
    }
    proof { lemma_key_pos(mv, device@); }
    None
}

/// Follow a slash-separated path of child element names.
pub fn walk<'a>(root: &'a Element, path: &str) -> (r: Option<&'a Element>)
    ensures
        match r {
            Some(n) => at_path(root@, path@) == Some(n@),
            None => at_path(root@, path@).is_none(),
        },
{
    root.walk(path)
}

/// The effective value of a distributed-switch setting: each setting is an
/// object carrying `inherited` plus the `value` RVTools shows.
pub open spec fn policy_value_of(root: Option<XNode>, path: Seq<char>) -> Option<Seq<char>> {
    match root {
        Some(r) => match at_path(r, path) {
            Some(n) => nonempty(text_at_path(n, "value"@)),
            None => None,
        },
        None => None,
    }
}

/// Read a `<field><value>x</value></field>` pair.
pub fn policy_value(root: Option<&Element>, path: &str) -> (r: Option<String>)
    ensures
        opt_str_view(r) == policy_value_of(
            match root {
                Some(e) => Some(e@),
                None => None,
            },
            path@,
        ),
{
    match root {
        Some(r) => match walk(r, path) {
            Some(n) => nonempty_text(n.text_at("value")),
            None => None,
        },
        None => None,
    }
}

/// A numeric policy value, in hundredths; only whole numbers are read.
pub open spec fn policy_num_of(root: Option<XNode>, path: Seq<char>) -> Option<int> {
    match policy_value_of(root, path) {
        Some(v) => match parse_i64(v) {
            Some(n) => Some(n * 100),
            None => None,
        },
        None => None,
    }
}

/// A policy value that is a number.
pub fn policy_num(root: Option<&Element>, path: &str) -> (r: Option<i128>)
    ensures
        match r {
            Some(x) => policy_num_of(
                match root {
                    Some(e) => Some(e@),
                    None => None,
                },
                path@,
            ) == Some(x as int),
            None => policy_num_of(
                match root {
                    Some(e) => Some(e@),
                    None => None,
                },
                path@,
            ).is_none(),
        },
{
    match policy_value(root, path) {
        Some(v) => match parse_i64_str(v.as_str()) {
            Some(n) => Some(n as i128 * 100),
            None => None,
        },
        None => None,
    }
}

pub open spec fn policy_bool_of(root: Option<XNode>, path: Seq<char>) -> Option<bool> {
    match policy_value_of(root, path) {
        Some(v) => if v == "true"@ {
            Some(true)
        } else if v == "false"@ {
            Some(false)
        } else {
            None
        },
        None => None,
    }
}

/// A policy value that is a boolean.
pub fn policy_bool(root: Option<&Element>, path: &str) -> (r: Option<bool>)
    ensures
        r == policy_bool_of(
            match root {
                Some(e) => Some(e@),
                None => None,
            },
            path@,
        ),
{
    match policy_value(root, path) {
        Some(v) => if str_eq(v.as_str(), "true") {
            Some(true)
        } else if str_eq(v.as_str(), "false") {
            Some(false)
        } else {
            None
        },
        None => None,
    }
}

} // verus!
