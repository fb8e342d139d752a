//! The self-contained HTML topology report: escaping, colour classes, and
//! the layout of its host-to-datastore diagram.
//!
//! vCenter names are free text, so every one of them is HTML-escaped where
//! it appears. The diagram's coordinates are computed here rather than by
//! script in the page, so it is correct even where JavaScript is blocked;
//! they are held in tenths of an SVG unit.

use vstd::prelude::*;
use crate::data::topology::{
    all_hosts_of,
    groups_view,
    hosts_view,
    datastores_view,
    DatastoreView,
    HostNode,
    HostView,
    ServerTopology,
    ServerView,
};
use crate::text::{chars_of, decimal, decimal_chars, int_text, sort_strings, sorted_strs, str_eq, string_of};
use crate::vcenter::xml::opt_str_view;

verus! {

/// What one character becomes in HTML text.
pub open spec fn html_char(c: char) -> Seq<char> {
    if c == '&' {
        "&amp;"@
    } else if c == '<' {
        "&lt;"@
    } else if c == '>' {
        "&gt;"@
    } else if c == '"' {
        "&quot;"@
    } else if c == '\'' {
        "&#39;"@
    } else {
        seq![c]
    }
}

/// `s` with every markup character replaced by its character reference.
pub open spec fn html_escaped(s: Seq<char>) -> Seq<char>
    decreases s.len(),
{
    if s.len() == 0 {
        Seq::empty()
    } else {
        html_escaped(s.drop_last()) + html_char(s.last())
    }
}

/// Escape text for HTML. Datastore and VM names are operator-supplied, so
/// interpolating them raw would be an injection into whatever opens the
/// report.
pub fn esc(s: &str) -> (r: String)
    ensures
        r@ == html_escaped(s@),
{
    let cs = chars_of(s);
    let mut out = String::new();
    let mut i: usize = 0;
    while i < cs.len()
        invariant
            i <= cs@.len(),
            cs@ == s@,
            out@ == html_escaped(cs@.take(i as int)),
        decreases cs.len() - i,
    {
        let c = cs[i];
        proof { assert(cs@.take(i + 1).drop_last() =~= cs@.take(i as int)); }
        if c == '&' {
            out.append("&amp;");
        } else if c == '<' {
            out.append("&lt;");
        } else if c == '>' {
            out.append("&gt;");
        } else if c == '"' {
            out.append("&quot;");
        } else if c == '\'' {
            out.append("&#39;");
        } else {
            out.push(c);
        }
        i += 1;
    }
    proof { assert(cs@.take(cs@.len() as int) =~= cs@); }
    out
}

/// A character that could open or close a tag or an attribute value.
pub open spec fn is_html_markup(c: char) -> bool {
    c == '<' || c == '>' || c == '"' || c == '\''
}

/// Escaped text holds no character that could open or close a tag or an
/// attribute value: whatever name vCenter reports, it stays text.
pub proof fn lemma_html_escaped_has_no_markup(s: Seq<char>)
    ensures
        forall|i: int| 0 <= i < html_escaped(s).len() ==> !is_html_markup(#[trigger] html_escaped(s)[i]),
    decreases s.len(),
{
    reveal_strlit("&amp;");
    reveal_strlit("&lt;");
    reveal_strlit("&gt;");
    reveal_strlit("&quot;");
    reveal_strlit("&#39;");
    if s.len() > 0 {
        lemma_html_escaped_has_no_markup(s.drop_last());
        let e = html_char(s.last());
        assert forall|i: int| 0 <= i < e.len() implies !is_html_markup(#[trigger] e[i]) by {}
        assert forall|i: int| 0 <= i < html_escaped(s).len() implies !is_html_markup(#[trigger] html_escaped(s)[i]) by {
            let prev = html_escaped(s.drop_last());
            if i < prev.len() {
                assert(html_escaped(s)[i] == prev[i]);
            } else {
                assert(html_escaped(s)[i] == e[i - prev.len()]);
            }
        }
    }
}

/// `s` starts with `p` when ASCII case is ignored; `p` is written in upper
/// case, and a lower-case letter sits 32 code points above its capital.
pub open spec fn ci_prefix(s: Seq<char>, p: Seq<char>) -> bool {
    p.len() <= s.len() && forall|i: int| 0 <= i < p.len() ==> s[i] == p[i] || ((s[i] as u32) >= 32 && (s[i] as u32) - 32 == (p[i] as u32))
}

fn ci_starts_with(s: &str, p: &str) -> (r: bool)
    ensures
        r == ci_prefix(s@, p@),
{
    let x = chars_of(s);
    let y = chars_of(p);
    if y.len() > x.len() {
        return false;
    }
    let mut i: usize = 0;
    while i < y.len()
        invariant
            i <= y@.len(),
            y@.len() <= x@.len(),
            x@ == s@,
            y@ == p@,
            forall|k: int| 0 <= k < i ==> x@[k] == y@[k] || ((x@[k] as u32) >= 32 && (x@[k] as u32) - 32 == (y@[k] as u32)),
        decreases y.len() - i,
    {
        let a = x[i];
        let b = y[i];
        if !(a == b || ((a as u32) >= 32 && (a as u32) - 32 == (b as u32))) {
            return false;
        }
        i += 1;
    }
    true
}

/// A datastore's colour class by backing type, matching the diagram legend;
/// the type is compared without regard to ASCII case.
pub open spec fn kind_class_of(kind: Option<Seq<char>>) -> Seq<char> {
    match kind {
        Some(k) => if ci_prefix(k, "VMFS"@) {
            "vmfs"@
        } else if ci_prefix(k, "NFS"@) {
            "nfs"@
        } else if ci_prefix(k, "VSAN"@) {
            "vsan"@
        } else if ci_prefix(k, "VVOL"@) {
            "vvol"@
        } else {
            "other"@
        },
        None => "other"@,
    }
}

pub fn kind_class(kind: Option<&str>) -> (r: &'static str)
    ensures
        r@ == kind_class_of(match kind {
            Some(k) => Some(k@),
            None => None,
        }),
{
    match kind {
        Some(k) => if ci_starts_with(k, "VMFS") {
            "vmfs"
        } else if ci_starts_with(k, "NFS") {
            "nfs"
        } else if ci_starts_with(k, "VSAN") {
            "vsan"
        } else if ci_starts_with(k, "VVOL") {
            "vvol"
        } else {
            "other"
        },
        None => "other",
    }
}

// ---- diagram geometry, in tenths ----

/// Height of a cluster box holding `n` hosts.
pub open spec fn box_height(n: int) -> int {
    (if n == 0 { 520 } else { n * 520 + (n - 1) * 120 }) + 300 + 140
}

/// The left column's groups: each cluster, then the standalone hosts when
/// there are any.
pub open spec fn diagram_groups(t: ServerView) -> Seq<(Seq<char>, Seq<HostView>)> {
    if t.standalone_hosts.len() > 0 {
        t.clusters.push(("Standalone hosts"@, t.standalone_hosts))
    } else {
        t.clusters
    }
}

/// The vertical space the groups take, each box with the gap below it.
pub open spec fn stack_height(gs: Seq<(Seq<char>, Seq<HostView>)>) -> int
    decreases gs.len(),
{
    if gs.len() == 0 {
        0
    } else {
        stack_height(gs.drop_last()) + box_height(gs.last().1.len() as int) + 220
    }
}

/// The first row's baseline: the margin and the column heading.
pub open spec fn top_line() -> int {
    500
}

/// A cluster box: its label, the baseline its hosts hang from, its height.
pub open spec fn group_boxes_of(gs: Seq<(Seq<char>, Seq<HostView>)>) -> Seq<(Seq<char>, int, int)>
    decreases gs.len(),
{
    if gs.len() == 0 {
        Seq::empty()
    } else {
        group_boxes_of(gs.drop_last()).push(
            (gs.last().0, top_line() + stack_height(gs.drop_last()), box_height(gs.last().1.len() as int)),
        )
    }
}

/// A host's state class: maintenance before connection state.
pub open spec fn host_state_of(h: HostView) -> Seq<char> {
    if h.in_maintenance {
        "maint"@
    } else if h.connection_state == Some("connected"@) {
        "ok"@
    } else {
        "bad"@
    }
}

/// A host box: the host, its state class, and its top edge.
pub open spec fn host_boxes_of(gs: Seq<(Seq<char>, Seq<HostView>)>) -> Seq<(HostView, Seq<char>, int)>
    decreases gs.len(),
{
    if gs.len() == 0 {
        Seq::empty()
    } else {
        let y = top_line() + stack_height(gs.drop_last());
        let hs = gs.last().1;
        host_boxes_of(gs.drop_last()) + Seq::new(hs.len(), |k: int| (hs[k], host_state_of(hs[k]), y + 80 + 640 * k))
    }
}

/// The index of the first datastore with this moref.
pub open spec fn first_ds(ds: Seq<DatastoreView>, moref: Seq<char>) -> Option<int>
    decreases ds.len(),
{
    if ds.len() == 0 {
        None
    } else {
        match first_ds(ds.drop_last(), moref) {
            Some(i) => Some(i),
            None => if ds.last().moref == moref {
                Some(ds.len() - 1)
            } else {
                None
            },
        }
    }
}

/// The first host box for this moref.
pub open spec fn first_host_box(hb: Seq<(HostView, Seq<char>, int)>, moref: Seq<char>) -> Option<int>
    decreases hb.len(),
{
    if hb.len() == 0 {
        None
    } else {
        match first_host_box(hb.drop_last(), moref) {
            Some(i) => Some(i),
            None => if hb.last().0.moref == moref {
                Some(hb.len() - 1)
            } else {
                None
            },
        }
    }
}

/// A link: host moref, datastore moref, colour class, the host's centre
/// line and the datastore's.
pub type LinkView = (Seq<char>, Seq<char>, Seq<char>, int, int);

/// The links from one datastore to each mounting host that has a box; a
/// mount by a host outside the inventory view draws no line to nowhere.
pub open spec fn mount_links(
    mounts: Seq<Seq<char>>,
    d: DatastoreView,
    dsy: int,
    hb: Seq<(HostView, Seq<char>, int)>,
) -> Seq<LinkView>
    decreases mounts.len(),
{
    if mounts.len() == 0 {
        Seq::empty()
    } else {
        let rest = mount_links(mounts.drop_last(), d, dsy, hb);
        match first_host_box(hb, mounts.last()) {
            Some(k) => rest.push((mounts.last(), d.moref, kind_class_of(d.kind), hb[k].2 + 260, dsy)),
            None => rest,
        }
    }
}

/// The links of the first `n` datastores, in order.
pub open spec fn links_of(ds: Seq<DatastoreView>, n: int, hb: Seq<(HostView, Seq<char>, int)>) -> Seq<LinkView>
    decreases n,
{
    if n <= 0 {
        Seq::empty()
    } else {
        let d = ds[n - 1];
        let dsy = match first_ds(ds, d.moref) {
            Some(f) => top_line() + 740 * f + 310,
            None => 0,
        };
        links_of(ds, n - 1, hb) + mount_links(d.mounted_by, d, dsy, hb)
    }
}

/// The number of hosts the groups hold.
pub open spec fn hosts_in(gs: Seq<(Seq<char>, Seq<HostView>)>) -> int
    decreases gs.len(),
{
    if gs.len() == 0 {
        0
    } else {
        hosts_in(gs.drop_last()) + gs.last().1.len()
    }
}

/// The diagram stays far inside `i64`: fewer than 2^24 hosts, groups and
/// datastores.
pub open spec fn layout_fits(t: ServerView) -> bool {
    &&& hosts_in(diagram_groups(t)) < 0x100_0000
    &&& diagram_groups(t).len() < 0x100_0000
    &&& t.datastores.len() < 0x100_0000
}

pub struct GroupBox {
    pub label: String,
    /// The baseline the group's hosts hang from; the box's top is 24 units
    /// above it.
    pub y: i64,
    pub height: i64,
}

pub struct HostBox {
    pub host: HostNode,
    /// `ok`, `maint` or `bad`.
    pub state: &'static str,
    pub top: i64,
}

pub struct Link {
    pub host: String,
    pub datastore: String,
    pub class: &'static str,
    pub y1: i64,
    pub y2: i64,
}

/// Hosts on the left, grouped by cluster; datastores on the right, one box
/// each in their order; and a link from each host to each datastore it has
/// mounted. Datastore `i`'s box top is at `top_line() + 740 * i`.
pub struct DiagramLayout {
    pub groups: Vec<GroupBox>,
    pub hosts: Vec<HostBox>,
    pub links: Vec<Link>,
    pub height: i64,
}

pub open spec fn groups_boxes_view(v: Seq<GroupBox>) -> Seq<(Seq<char>, int, int)> {
    v.map_values(|g: GroupBox| (g.label@, g.y as int, g.height as int))
}

pub open spec fn host_boxes_view(v: Seq<HostBox>) -> Seq<(HostView, Seq<char>, int)> {
    v.map_values(|h: HostBox| (h.host@, h.state@, h.top as int))
}

pub open spec fn links_view(v: Seq<Link>) -> Seq<LinkView> {
    v.map_values(|l: Link| (l.host@, l.datastore@, l.class@, l.y1 as int, l.y2 as int))
}

/// The whole picture's height: the taller column and the bottom margin.
pub open spec fn diagram_height(t: ServerView) -> int {
    let left = top_line() + stack_height(diagram_groups(t));
    let right = top_line() + 740 * t.datastores.len();
    (if left >= right { left } else { right }) + 240
}

proof fn lemma_stack_bound(gs: Seq<(Seq<char>, Seq<HostView>)>)
    ensures
        0 <= stack_height(gs) <= 640 * hosts_in(gs) + 1180 * gs.len(),
        hosts_in(gs) >= 0,
    decreases gs.len(),
{
    if gs.len() > 0 {
        lemma_stack_bound(gs.drop_last());
    }
}

proof fn lemma_hosts_in_prefix(gs: Seq<(Seq<char>, Seq<HostView>)>, i: int)
    requires
        0 <= i <= gs.len(),
    ensures
        hosts_in(gs.take(i)) <= hosts_in(gs),
        hosts_in(gs.take(i)) >= 0,
    decreases gs.len() - i,
{
    if i < gs.len() {
        lemma_hosts_in_prefix(gs.drop_last(), i);
        assert(gs.drop_last().take(i) =~= gs.take(i));
        lemma_stack_bound(gs.drop_last());
    } else {
        assert(gs.take(i) =~= gs);
        lemma_stack_bound(gs);
    }
}

fn host_state(h: &HostNode) -> (r: &'static str)
    ensures
        r@ == host_state_of(h@),
{
    if h.in_maintenance {
        "maint"
    } else {
        let connected = match &h.connection_state {
            Some(c) => str_eq(c.as_str(), "connected"),
            None => false,
        };
        if connected {
            "ok"
        } else {
            "bad"
        }
    }
}

/// One group's box below the groups placed so far, with its hosts.
fn place_group(groups: &mut Vec<GroupBox>, boxes: &mut Vec<HostBox>, y: &mut i64, label: &str, members: &Vec<HostNode>)
    requires
        0 <= *old(y) < 0x10_0000_0000_0000,
        members@.len() < 0x100_0000,
    ensures
        groups_boxes_view(final(groups)@) == groups_boxes_view(old(groups)@).push(
            (label@, *old(y) as int, box_height(members@.len() as int)),
        ),
        host_boxes_view(final(boxes)@) == host_boxes_view(old(boxes)@) + Seq::new(
            members@.len(),
            |k: int| (hosts_view(members@)[k], host_state_of(hosts_view(members@)[k]), *old(y) + 80 + 640 * k),
        ),
        *final(y) == *old(y) + box_height(members@.len() as int) + 220,
{
    let n = members.len() as i64;
    let inner: i64 = if n == 0 { 520 } else { n * 520 + (n - 1) * 120 };
    let box_h = inner + 300 + 140;
    let ghost gb = groups@;
    groups.push(GroupBox { label: String::from_str(label), y: *y, height: box_h });
    proof { assert(groups_boxes_view(groups@) =~= groups_boxes_view(gb).push((label@, *old(y) as int, box_height(members@.len() as int)))); }
    let ghost hb = host_boxes_view(boxes@);
    let ghost added = Seq::new(
        members@.len(),
        |k: int| (hosts_view(members@)[k], host_state_of(hosts_view(members@)[k]), *old(y) + 80 + 640 * k),
    );
    let mut k: usize = 0;
    let mut hy: i64 = *y + 80;
    while k < members.len()
        invariant
            k <= members@.len(),
            members@.len() < 0x100_0000,
            0 <= *old(y) < 0x10_0000_0000_0000,
            hy == *old(y) + 80 + 640 * k,
            added == Seq::new(
                members@.len(),
                |j: int| (hosts_view(members@)[j], host_state_of(hosts_view(members@)[j]), *old(y) + 80 + 640 * j),
            ),
            host_boxes_view(boxes@) =~= hb + added.take(k as int),
        decreases members.len() - k,
    {
        let h = members[k].clone();
        let st = host_state(&members[k]);
        let ghost before = boxes@;
        boxes.push(HostBox { host: h, state: st, top: hy });
        proof {
            assert(host_boxes_view(boxes@) =~= host_boxes_view(before).push((members@[k as int]@, st@, hy as int)));
            assert(added.take(k + 1) =~= added.take(k as int).push(added[k as int]));
        }
        hy = hy + 640;
        k += 1;
    }
    proof { assert(added.take(members@.len() as int) =~= added); }
    *y = *y + box_h + 220;
}

proof fn lemma_first_ds(ds: Seq<DatastoreView>, moref: Seq<char>)
    ensures
        match first_ds(ds, moref) {
            Some(i) => 0 <= i < ds.len() && ds[i].moref == moref && forall|j: int| 0 <= j < i ==> ds[j].moref != moref,
            None => forall|j: int| 0 <= j < ds.len() ==> ds[j].moref != moref,
        },
    decreases ds.len(),
{
    if ds.len() > 0 {
        let d = ds.drop_last();
        lemma_first_ds(d, moref);
        assert(forall|j: int| 0 <= j < d.len() ==> d[j] == ds[j]);
    }
}

proof fn lemma_first_host_box(hb: Seq<(HostView, Seq<char>, int)>, moref: Seq<char>)
    ensures
        match first_host_box(hb, moref) {
            Some(i) => 0 <= i < hb.len() && hb[i].0.moref == moref && forall|j: int| 0 <= j < i ==> hb[j].0.moref != moref,
            None => forall|j: int| 0 <= j < hb.len() ==> hb[j].0.moref != moref,
        },
    decreases hb.len(),
{
    if hb.len() > 0 {
        let d = hb.drop_last();
        lemma_first_host_box(d, moref);
        assert(forall|j: int| 0 <= j < d.len() ==> d[j] == hb[j]);
    }
}

/// The links from one datastore, each mounting host found among the boxes.
fn datastore_links(links: &mut Vec<Link>, boxes: &Vec<HostBox>, d: &crate::data::topology::DatastoreNode, dsy: i64)
    requires
        forall|k: int| 0 <= k < boxes@.len() ==> 0 <= #[trigger] boxes@[k].top < 0x10_0000_0000_0000,
    ensures
        links_view(final(links)@) == links_view(old(links)@) + mount_links(
            d@.mounted_by,
            d@,
            dsy as int,
            host_boxes_view(boxes@),
        ),
{
    let ghost hb = host_boxes_view(boxes@);
    let ghost mv = d@.mounted_by;
    let ghost start = links_view(links@);
    let class = kind_class(match &d.kind {
        Some(k) => Some(k.as_str()),
        None => None,
    });
    let mut m: usize = 0;
    proof { assert(mv.take(0) =~= Seq::<Seq<char>>::empty()); }
    while m < d.mounted_by.len()
        invariant
            m <= d.mounted_by@.len(),
            mv == d@.mounted_by,
            hb == host_boxes_view(boxes@),
            class@ == kind_class_of(d@.kind),
            forall|k: int| 0 <= k < boxes@.len() ==> 0 <= #[trigger] boxes@[k].top < 0x10_0000_0000_0000,
            links_view(links@) =~= start + mount_links(mv.take(m as int), d@, dsy as int, hb),
        decreases d.mounted_by.len() - m,
    {
        let target = &d.mounted_by[m];
        proof {
            assert(mv.take(m + 1).drop_last() =~= mv.take(m as int));
            assert(mv.take(m + 1).last() == target@);
            lemma_first_host_box(hb, target@);
        }
        let mut k: usize = 0;
        while k < boxes.len()
            invariant
                k <= boxes@.len(),
                hb == host_boxes_view(boxes@),
                forall|j: int| 0 <= j < k ==> hb[j].0.moref != target@,
            ensures
                k <= boxes@.len(),
                forall|j: int| 0 <= j < k ==> hb[j].0.moref != target@,
                k < boxes@.len() ==> hb[k as int].0.moref == target@,
            decreases boxes.len() - k,
        {
            if str_eq(boxes[k].host.moref.as_str(), target.as_str()) {
                break;
            }
            k += 1;
        }
        if k < boxes.len() {
            proof {
                lemma_first_host_box(hb, target@);
                assert(first_host_box(hb, target@) == Some(k as int));
                assert(hb[k as int].2 == boxes@[k as int].top as int);
            }
            let y1 = boxes[k].top + 260;
            let ghost before = links@;
            links.push(Link { host: target.clone(), datastore: d.moref.clone(), class, y1, y2: dsy });
            proof {
                assert(links_view(links@) =~= links_view(before).push((target@, d@.moref, class@, y1 as int, dsy as int)));
            }
        } else {
            proof {
                lemma_first_host_box(hb, target@);
                assert(first_host_box(hb, target@).is_none());
            }
        }
        m += 1;
    }
    proof { assert(mv.take(mv.len() as int) =~= mv); }
}

proof fn lemma_boxes_small(gs: Seq<(Seq<char>, Seq<HostView>)>)
    requires
        hosts_in(gs) < 0x100_0000,
        gs.len() < 0x100_0000,
    ensures
        forall|k: int| 0 <= k < host_boxes_of(gs).len() ==> 0 <= #[trigger] host_boxes_of(gs)[k].2 < 0x10_0000_0000_0000,
    decreases gs.len(),
{
    if gs.len() > 0 {
        let d = gs.drop_last();
        lemma_hosts_in_prefix(gs, gs.len() - 1);
        assert(gs.take(gs.len() - 1) =~= d);
        lemma_boxes_small(d);
        lemma_stack_bound(d);
        let y = top_line() + stack_height(d);
        let hs = gs.last().1;
        let prev = host_boxes_of(d);
        assert forall|k: int| 0 <= k < host_boxes_of(gs).len() implies 0 <= #[trigger] host_boxes_of(gs)[k].2 < 0x10_0000_0000_0000 by {
            if k < prev.len() {
                assert(host_boxes_of(gs)[k] == prev[k]);
            } else {
                let j = k - prev.len();
                assert(host_boxes_of(gs)[k] == (hs[j], host_state_of(hs[j]), y + 80 + 640 * j));
                assert(j < hs.len());
            }
        }
    }
}

/// Lay out one vCenter's hosts (left, grouped by cluster) and datastores
/// (right), then connect each host to the datastores it has mounted.
pub fn diagram_layout(t: &ServerTopology) -> (r: DiagramLayout)
    requires
        layout_fits(t@),
    ensures
        groups_boxes_view(r.groups@) == group_boxes_of(diagram_groups(t@)),
        host_boxes_view(r.hosts@) == host_boxes_of(diagram_groups(t@)),
        links_view(r.links@) == links_of(t@.datastores, t@.datastores.len() as int, host_boxes_of(diagram_groups(t@))),
        r.height == diagram_height(t@),
{
    let ghost gs = diagram_groups(t@);
    let ghost cs = groups_view(t.clusters@);
    proof {
        assert(gs.take(0) =~= Seq::<(Seq<char>, Seq<HostView>)>::empty());
        lemma_stack_bound(gs);
        assert(forall|j: int| 0 <= j < cs.len() ==> #[trigger] gs[j] == cs[j]);
    }
    let mut groups: Vec<GroupBox> = Vec::new();
    let mut boxes: Vec<HostBox> = Vec::new();
    let mut y: i64 = 500;
    let mut i: usize = 0;
    proof {
        assert(groups_boxes_view(groups@) =~= Seq::<(Seq<char>, int, int)>::empty());
        assert(host_boxes_view(boxes@) =~= Seq::<(HostView, Seq<char>, int)>::empty());
    }
    while i < t.clusters.len()
        invariant
            i <= t.clusters@.len(),
            gs == diagram_groups(t@),
            cs == groups_view(t.clusters@),
            cs.len() <= gs.len(),
            forall|j: int| 0 <= j < cs.len() ==> #[trigger] gs[j] == cs[j],
            layout_fits(t@),
            groups_boxes_view(groups@) == group_boxes_of(gs.take(i as int)),
            host_boxes_view(boxes@) == host_boxes_of(gs.take(i as int)),
            y == top_line() + stack_height(gs.take(i as int)),
        decreases t.clusters.len() - i,
    {
        proof {
            assert(gs.take(i + 1).drop_last() =~= gs.take(i as int));
            assert(gs.take(i + 1).last() == gs[i as int]);
            assert(gs[i as int] == (t.clusters@[i as int].0@, hosts_view(t.clusters@[i as int].1@)));
            lemma_hosts_in_prefix(gs, i + 1);
            lemma_hosts_in_prefix(gs, i as int);
            lemma_stack_bound(gs.take(i as int));
            assert(hosts_in(gs.take(i + 1)) == hosts_in(gs.take(i as int)) + t.clusters@[i as int].1@.len());
        }
        place_group(&mut groups, &mut boxes, &mut y, t.clusters[i].0.as_str(), &t.clusters[i].1);
        proof {
            assert(host_boxes_of(gs.take(i + 1)) =~= host_boxes_of(gs.take(i as int)) + Seq::new(
                t.clusters@[i as int].1@.len(),
                |k: int| (hosts_view(t.clusters@[i as int].1@)[k], host_state_of(hosts_view(t.clusters@[i as int].1@)[k]), (top_line() + stack_height(gs.take(i as int))) + 80 + 640 * k),
            ));
        }
        i += 1;
    }
    if t.standalone_hosts.len() > 0 {
        proof {
            let n = cs.len() as int;
            assert(gs == cs.push(("Standalone hosts"@, hosts_view(t.standalone_hosts@))));
            assert(gs.take(n + 1) =~= gs);
            assert(gs.take(n + 1).drop_last() =~= gs.take(n));
            lemma_hosts_in_prefix(gs, n);
            lemma_stack_bound(gs.take(n));
            assert(hosts_in(gs) == hosts_in(gs.take(n)) + t.standalone_hosts@.len());
        }
        place_group(&mut groups, &mut boxes, &mut y, "Standalone hosts", &t.standalone_hosts);
        proof {
            let n = cs.len() as int;
            assert(host_boxes_of(gs) =~= host_boxes_of(gs.take(n)) + Seq::new(
                t.standalone_hosts@.len(),
                |k: int| (hosts_view(t.standalone_hosts@)[k], host_state_of(hosts_view(t.standalone_hosts@)[k]), (top_line() + stack_height(gs.take(n))) + 80 + 640 * k),
            ));
        }
    } else {
        proof { assert(gs.take(cs.len() as int) =~= gs); }
    }
    let left = y;
    let ghost hb = host_boxes_of(gs);
    proof {
        lemma_boxes_small(gs);
        assert(host_boxes_view(boxes@) == hb);
        assert(forall|k: int| 0 <= k < boxes@.len() ==> #[trigger] boxes@[k].top as int == hb[k].2);
    }
    let ghost dv = datastores_view(t.datastores@);
    let mut links: Vec<Link> = Vec::new();
    let mut d: usize = 0;
    proof { assert(links_view(links@) =~= Seq::<LinkView>::empty()); }
    while d < t.datastores.len()
        invariant
            d <= t.datastores@.len(),
            dv == datastores_view(t.datastores@),
            dv.len() < 0x100_0000,
            hb == host_boxes_view(boxes@),
            forall|k: int| 0 <= k < boxes@.len() ==> 0 <= #[trigger] boxes@[k].top < 0x10_0000_0000_0000,
            links_view(links@) == links_of(dv, d as int, hb),
        decreases t.datastores.len() - d,
    {
        let ds = &t.datastores[d];
        proof {
            assert(dv[d as int] == ds@);
            lemma_first_ds(dv, ds@.moref);
        }
        let mut f: usize = 0;
        while f < d && !str_eq(t.datastores[f].moref.as_str(), ds.moref.as_str())
            invariant
                f <= d < t.datastores@.len(),
                dv == datastores_view(t.datastores@),
                *ds == t.datastores@[d as int],
                forall|j: int| 0 <= j < f ==> dv[j].moref != dv[d as int].moref,
            decreases d - f,
        {
            proof {
                assert(dv[f as int] == t.datastores@[f as int]@);
                assert(dv[d as int] == t.datastores@[d as int]@);
            }
            f += 1;
        }
        proof {
            lemma_first_ds(dv, ds@.moref);
            assert(dv[f as int].moref == ds@.moref);
            assert(first_ds(dv, ds@.moref) == Some(f as int));
        }
        let dsy: i64 = 500 + 740 * (f as i64) + 310;
        datastore_links(&mut links, &boxes, ds, dsy);
        d += 1;
    }
    let right: i64 = 500 + 740 * (t.datastores.len() as i64);
    let height = (if left >= right { left } else { right }) + 240;
    DiagramLayout { groups, hosts: boxes, links, height }
}

// ---- table rows and page text ----

/// The name of the host with this moref, or the moref itself.
pub open spec fn host_label(hosts: Seq<HostView>, moref: Seq<char>) -> Seq<char>
    decreases hosts.len(),
{
    if hosts.len() == 0 {
        moref
    } else if hosts[0].moref == moref {
        hosts[0].name
    } else {
        host_label(hosts.drop_first(), moref)
    }
}

/// The hosts that mount a datastore, by name where the host is known, in
/// `str` order.
pub open spec fn mount_names_of(t: ServerView, d: DatastoreView) -> Seq<Seq<char>> {
    sorted_strs(d.mounted_by.map_values(|m: Seq<char>| host_label(all_hosts_of(t), m)))
}

pub fn mount_names(t: &ServerTopology, d: &crate::data::topology::DatastoreNode) -> (r: Vec<String>)
    ensures
        r@.map_values(|s: String| s@) == mount_names_of(t@, d@),
{
    let hosts = t.all_hosts();
    let ghost hv = all_hosts_of(t@);
    let ghost want = d@.mounted_by.map_values(|m: Seq<char>| host_label(hv, m));
    let mut names: Vec<String> = Vec::new();
    let mut m: usize = 0;
    while m < d.mounted_by.len()
        invariant
            m <= d.mounted_by@.len(),
            hosts@.map_values(|h: &HostNode| h@) == hv,
            want == d@.mounted_by.map_values(|x: Seq<char>| host_label(hv, x)),
            names@.map_values(|s: String| s@) =~= want.take(m as int),
        decreases d.mounted_by.len() - m,
    {
        let target = &d.mounted_by[m];
        let mut k: usize = 0;
        proof { assert(hv.skip(0) =~= hv); }
        let mut found: Option<String> = None;
        while k < hosts.len()
            invariant_except_break
                found.is_none(),
            invariant
                k <= hosts@.len(),
                hosts@.map_values(|h: &HostNode| h@) == hv,
                host_label(hv, target@) == host_label(hv.skip(k as int), target@),
            ensures
                match found {
                    Some(n) => host_label(hv, target@) == n@,
                    None => host_label(hv, target@) == target@,
                },
            decreases hosts.len() - k,
        {
            proof {
                assert(hv.skip(k as int).drop_first() =~= hv.skip(k + 1));
                assert(hv.skip(k as int)[0] == hosts@[k as int]@);
            }
            if str_eq(hosts[k].moref.as_str(), target.as_str()) {
                found = Some(hosts[k].name.clone());
                break;
            }
            k += 1;
        }
        proof {
            if found.is_none() {
                assert(hv.skip(hosts@.len() as int).len() == 0);
            }
        }
        let label = match found {
            Some(n) => n,
            None => target.clone(),
        };
        let ghost before = names@;
        names.push(label);
        proof {
            assert(names@.map_values(|s: String| s@) =~= before.map_values(|s: String| s@).push(want[m as int]));
            assert(want.take(m + 1) =~= want.take(m as int).push(want[m as int]));
        }
        m += 1;
    }
    proof { assert(want.take(d@.mounted_by.len() as int) =~= want); }
    sort_strings(names)
}

/// The datastores a host has mounted, as indices in the datastore list.
pub open spec fn mounted_by_host_of(ds: Seq<DatastoreView>, moref: Seq<char>, n: int) -> Seq<int>
    decreases n,
{
    if n <= 0 {
        Seq::empty()
    } else if ds[n - 1].mounted_by.contains(moref) {
        mounted_by_host_of(ds, moref, n - 1).push(n - 1)
    } else {
        mounted_by_host_of(ds, moref, n - 1)
    }
}

pub fn mounted_by_host(t: &ServerTopology, moref: &str) -> (r: Vec<usize>)
    ensures
        r@.map_values(|i: usize| i as int) == mounted_by_host_of(datastores_view(t.datastores@), moref@, t.datastores@.len() as int),
{
    let ghost dv = datastores_view(t.datastores@);
    let mut out: Vec<usize> = Vec::new();
    let mut d: usize = 0;
    while d < t.datastores.len()
        invariant
            d <= t.datastores@.len(),
            dv == datastores_view(t.datastores@),
            out@.map_values(|i: usize| i as int) =~= mounted_by_host_of(dv, moref@, d as int),
        decreases t.datastores.len() - d,
    {
        let ds = &t.datastores[d];
        let mut k: usize = 0;
        let mut hit = false;
        while k < ds.mounted_by.len()
            invariant
                k <= ds.mounted_by@.len(),
                hit == exists|j: int| 0 <= j < k && ds.mounted_by@[j]@ == moref@,
            decreases ds.mounted_by.len() - k,
        {
            if str_eq(ds.mounted_by[k].as_str(), moref) {
                hit = true;
            }
            k += 1;
        }
        proof {
            assert(dv[d as int] == ds@);
            if hit {
                let j = choose|j: int| 0 <= j < k && ds.mounted_by@[j]@ == moref@;
                assert(ds@.mounted_by[j] == moref@);
            } else {
                assert forall|j: int| 0 <= j < ds@.mounted_by.len() implies ds@.mounted_by[j] != moref@ by {
                    assert(ds@.mounted_by[j] == ds.mounted_by@[j]@);
                }
            }
        }
        if hit {
            let ghost before = out@;
            out.push(d);
            proof { assert(out@.map_values(|i: usize| i as int) =~= before.map_values(|i: usize| i as int).push(d as int)); }
        }
        d += 1;
    }
    out
}

/// A host's state as the hosts table shows it: maintenance, else its
/// connection state, else a dash.
pub open spec fn state_label_of(h: HostView) -> Seq<char> {
    if h.in_maintenance {
        "maintenance"@
    } else {
        match h.connection_state {
            Some(c) => c,
            None => "\u{2014}"@,
        }
    }
}

pub fn state_label(h: &HostNode) -> (r: String)
    ensures
        r@ == state_label_of(h@),
{
    if h.in_maintenance {
        String::from_str("maintenance")
    } else {
        match &h.connection_state {
            Some(c) => c.clone(),
            None => String::from_str("\u{2014}"),
        }
    }
}

/// The datacenters line: their names, escaped and joined, or a note that
/// there is none.
pub open spec fn datacenters_text_of(dcs: Seq<Seq<char>>) -> Seq<char> {
    if dcs.len() == 0 {
        "no datacenter"@
    } else {
        html_escaped(crate::text::joined(dcs, ", "@))
    }
}

pub fn datacenters_text(t: &ServerTopology) -> (r: String)
    ensures
        r@ == datacenters_text_of(t@.datacenters),
{
    if t.datacenters.len() == 0 {
        String::from_str("no datacenter")
    } else {
        let j = crate::text::join(&t.datacenters, ", ");
        proof { assert(crate::text::strings_view(t.datacenters@) =~= t@.datacenters); }
        esc(j.as_str())
    }
}

/// The servers line: each server escaped, joined, or `No vCenter`.
pub open spec fn servers_text_of(servers: Seq<Seq<char>>) -> Seq<char> {
    let j = crate::text::joined(servers.map_values(|s: Seq<char>| html_escaped(s)), ", "@);
    if j.len() == 0 {
        "No vCenter"@
    } else {
        j
    }
}

pub fn servers_text(t: &crate::data::topology::Topology) -> (r: String)
    ensures
        r@ == servers_text_of(t.servers@.map_values(|s: ServerTopology| s.server@)),
{
    let mut parts: Vec<String> = Vec::new();
    let mut i: usize = 0;
    while i < t.servers.len()
        invariant
            i <= t.servers@.len(),
            crate::text::strings_view(parts@) =~= t.servers@.take(i as int).map_values(|s: ServerTopology| s.server@).map_values(
                |s: Seq<char>| html_escaped(s),
            ),
        decreases t.servers.len() - i,
    {
        let e = esc(t.servers[i].server.as_str());
        let ghost before = parts@;
        parts.push(e);
        proof {
            assert(crate::text::strings_view(parts@) =~= crate::text::strings_view(before).push(e@));
        }
        i += 1;
    }
    proof {
        assert(t.servers@.take(t.servers@.len() as int) =~= t.servers@);
    }
    let j = crate::text::join(&parts, ", ");
    if chars_of(j.as_str()).len() == 0 {
        String::from_str("No vCenter")
    } else {
        j
    }
}

/// The warnings block: empty when every vCenter answered, else the count
/// of those that did not and each warning, escaped, as a list item.
pub open spec fn warnings_html_of(ws: Seq<Seq<char>>) -> Seq<char> {
    if ws.len() == 0 {
        Seq::empty()
    } else {
        "<div class=\"warnings\"><strong>"@ + crate::text::decimal(ws.len()) + " vCenter"@
            + (if ws.len() == 1 { Seq::<char>::empty() } else { "s"@ })
            + " could not be queried \u{2014} this report is incomplete:</strong><ul>"@
            + list_items(ws) + "</ul></div>"@
    }
}

/// Each warning escaped in a list item.
pub open spec fn list_items(ws: Seq<Seq<char>>) -> Seq<char>
    decreases ws.len(),
{
    if ws.len() == 0 {
        Seq::empty()
    } else {
        list_items(ws.drop_last()) + "<li>"@ + html_escaped(ws.last()) + "</li>"@
    }
}

pub fn warnings_html(warnings: &Vec<String>) -> (r: String)
    ensures
        r@ == warnings_html_of(crate::text::strings_view(warnings@)),
{
    if warnings.len() == 0 {
        return String::new();
    }
    let ghost wv = crate::text::strings_view(warnings@);
    let mut items = String::new();
    let mut i: usize = 0;
    while i < warnings.len()
        invariant
            i <= warnings@.len(),
            wv == crate::text::strings_view(warnings@),
            items@ == list_items(wv.take(i as int)),
        decreases warnings.len() - i,
    {
        proof {
            assert(wv.take(i + 1).drop_last() =~= wv.take(i as int));
            assert(wv.take(i + 1).last() == warnings@[i as int]@);
        }
        items.append("<li>");
        items.append(esc(warnings[i].as_str()).as_str());
        items.append("</li>");
        i += 1;
    }
    proof { assert(wv.take(wv.len() as int) =~= wv); }
    let n = crate::text::decimal_chars(warnings.len() as u64);
    let mut out = String::from_str("<div class=\"warnings\"><strong>");
    let mut k: usize = 0;
    let ghost head = out@;
    while k < n.len()
        invariant
            k <= n@.len(),
            out@ == head + n@.take(k as int),
        decreases n.len() - k,
    {
        out.push(n[k]);
        proof { assert(n@.take(k + 1) =~= n@.take(k as int).push(n@[k as int])); }
        k += 1;
    }
    proof { assert(n@.take(n@.len() as int) =~= n@); }
    out.append(" vCenter");
    if warnings.len() != 1 {
        out.append("s");
    }
    out.append(" could not be queried \u{2014} this report is incomplete:</strong><ul>");
    out.append(items.as_str());
    out.append("</ul></div>");
    proof {
        assert(wv.len() == warnings@.len());
        assert(out@ =~= warnings_html_of(wv));
    }
    out
}

/// A link starts at a host's box: some host box has its moref, and the
/// link leaves from that box's centre line.
pub open spec fn link_from_box(l: LinkView, hb: Seq<(HostView, Seq<char>, int)>) -> bool {
    exists|k: int| 0 <= k < hb.len() && (#[trigger] hb[k]).0.moref == l.0 && l.3 == hb[k].2 + 260
}

proof fn lemma_mount_links_from_boxes(mounts: Seq<Seq<char>>, d: DatastoreView, dsy: int, hb: Seq<(HostView, Seq<char>, int)>)
    ensures
        forall|i: int| 0 <= i < mount_links(mounts, d, dsy, hb).len() ==> link_from_box(#[trigger] mount_links(mounts, d, dsy, hb)[i], hb),
    decreases mounts.len(),
{
    if mounts.len() > 0 {
        lemma_mount_links_from_boxes(mounts.drop_last(), d, dsy, hb);
        lemma_first_host_box(hb, mounts.last());
        let rest = mount_links(mounts.drop_last(), d, dsy, hb);
        match first_host_box(hb, mounts.last()) {
            Some(k) => {
                let all = mount_links(mounts, d, dsy, hb);
                assert forall|i: int| 0 <= i < all.len() implies link_from_box(#[trigger] all[i], hb) by {
                    if i < rest.len() {
                        assert(all[i] == rest[i]);
                    } else {
                        assert(hb[k].0.moref == all[i].0);
                    }
                }
            },
            None => {},
        }
    }
}

/// Every link in the diagram leaves from a host box: a datastore mounted by
/// a host outside this vCenter's inventory view gets no line to nowhere.
pub proof fn lemma_links_start_at_boxes(ds: Seq<DatastoreView>, n: int, hb: Seq<(HostView, Seq<char>, int)>)
    ensures
        forall|i: int| 0 <= i < links_of(ds, n, hb).len() ==> link_from_box(#[trigger] links_of(ds, n, hb)[i], hb),
    decreases n,
{
    if n > 0 {
        lemma_links_start_at_boxes(ds, n - 1, hb);
        let d = ds[n - 1];
        let dsy = match first_ds(ds, d.moref) {
            Some(f) => top_line() + 740 * f + 310,
            None => 0,
        };
        lemma_mount_links_from_boxes(d.mounted_by, d, dsy, hb);
        let prev = links_of(ds, n - 1, hb);
        let more = mount_links(d.mounted_by, d, dsy, hb);
        let all = links_of(ds, n, hb);
        assert forall|i: int| 0 <= i < all.len() implies link_from_box(#[trigger] all[i], hb) by {
            if i < prev.len() {
                assert(all[i] == prev[i]);
            } else {
                assert(all[i] == more[i - prev.len()]);
            }
        }
    }
}

// ---- the diagram as SVG ----

/// A length given in tenths of a unit, as `{:.1}` prints it.
pub open spec fn tenths_text(t: int) -> Seq<char> {
    decimal((t / 10) as nat) + seq!['.'] + decimal((t % 10) as nat)
}

pub fn tenths(t: i64) -> (r: String)
    requires
        t >= 0,
    ensures
        r@ == tenths_text(t as int),
{
    let whole = decimal_chars((t / 10) as u64);
    let frac = decimal_chars((t % 10) as u64);
    let mut out = string_of(whole.as_slice());
    out.push('.');
    out.concat(string_of(frac.as_slice()).as_str())
}

/// A host's core count, or a dash.
pub open spec fn cores_text(c: Option<i64>) -> Seq<char> {
    match c {
        Some(n) => int_text(n as int),
        None => "\u{2014}"@,
    }
}

/// The line under a host's name: cores and memory. With memory tiering on,
/// the reported size counts the NVMe tier too, so a host that reports its
/// DRAM shows that, marked as such.
pub open spec fn host_detail(h: HostView, shown: HostTextView) -> Seq<char> {
    cores_text(h.cpu_cores) + " cores \u{b7} "@ + (if h.dram_gib is Some { shown.dram + " DRAM"@ } else { shown.memory })
}

/// One host node, its top edge at `top` tenths.
#[verifier::opaque]
pub open spec fn host_svg(h: HostView, top: int, memory: HostTextView) -> Seq<char> {
    "<g class=\"node host "@ + host_state_of(h) + "\" data-host=\""@ + html_escaped(h.moref)
        + "\"><rect x=\"24.0\" y=\""@ + tenths_text(top) + "\" width=\"250.0\" height=\"52.0\" rx=\"6\"/>\n<circle class=\"dot\" cx=\"40.0\" cy=\""@
        + tenths_text(top + 260) + "\" r=\"4\"/>\n<text class=\"node-title\" x=\"54.0\" y=\""@ + tenths_text(top + 210) + "\">"@
        + html_escaped(h.name) + "</text>\n<text class=\"node-sub\" x=\"54.0\" y=\""@ + tenths_text(top + 380) + "\">"@
        + html_escaped(host_detail(h, memory)) + "</text></g>"@
}

/// A group's hosts, stacked below `y`; `memory[k]` is host `k`'s figure.
pub open spec fn hosts_svg(hs: Seq<HostView>, y: int, memory: Seq<HostTextView>) -> Seq<char>
    decreases hs.len(),
{
    if hs.len() == 0 {
        Seq::empty()
    } else {
        hosts_svg(hs.drop_last(), y, memory) + host_svg(hs.last(), y + 80 + 640 * (hs.len() - 1), memory[hs.len() - 1])
    }
}

/// A cluster box hanging from `y`, `h` tall.
#[verifier::opaque]
pub open spec fn group_svg(label: Seq<char>, y: int, h: int) -> Seq<char> {
    "<g class=\"cluster\"><rect x=\"10.0\" y=\""@ + tenths_text(y - 240) + "\" width=\"278.0\" height=\""@ + tenths_text(h)
        + "\" rx=\"8\"/>\n<text class=\"cluster-label\" x=\"22.0\" y=\""@ + tenths_text(y - 70) + "\">"@ + html_escaped(label)
        + "</text></g>"@
}

/// The left column: each group's box followed by its hosts; `memory` holds
/// the hosts' figures in column order.
pub open spec fn left_svg(gs: Seq<(Seq<char>, Seq<HostView>)>, memory: Seq<HostTextView>) -> Seq<char>
    decreases gs.len(),
{
    if gs.len() == 0 {
        Seq::empty()
    } else {
        let prev = gs.drop_last();
        let y = top_line() + stack_height(prev);
        let base = hosts_in(prev);
        let n = gs.last().1.len() as int;
        left_svg(prev, memory) + group_svg(gs.last().0, y, box_height(n)) + hosts_svg(
            gs.last().1,
            y,
            memory.subrange(base, base + n),
        )
    }
}

/// A host's sizes as shown: DRAM and memory, each a dash when not reported.
pub struct HostText {
    pub dram: String,
    pub memory: String,
}

pub struct HostTextView {
    pub dram: Seq<char>,
    pub memory: Seq<char>,
}

impl View for HostText {
    type V = HostTextView;

    open spec fn view(&self) -> HostTextView {
        HostTextView { dram: self.dram@, memory: self.memory@ }
    }
}

/// A datastore's figures as shown: its sizes, its use as a percentage, and
/// the width of its usage bar in the diagram.
pub struct DatastoreText {
    pub capacity: String,
    pub used: String,
    pub free: String,
    pub used_percent: String,
    pub bar: String,
}

pub struct DatastoreTextView {
    pub capacity: Seq<char>,
    pub used: Seq<char>,
    pub free: Seq<char>,
    pub used_percent: Seq<char>,
    pub bar: Seq<char>,
}

impl View for DatastoreText {
    type V = DatastoreTextView;

    open spec fn view(&self) -> DatastoreTextView {
        DatastoreTextView {
            capacity: self.capacity@,
            used: self.used@,
            free: self.free@,
            used_percent: self.used_percent@,
            bar: self.bar@,
        }
    }
}

pub open spec fn host_texts_view(v: Seq<HostText>) -> Seq<HostTextView> {
    v.map_values(|h: HostText| h@)
}

pub open spec fn ds_texts_view(v: Seq<DatastoreText>) -> Seq<DatastoreTextView> {
    v.map_values(|d: DatastoreText| d@)
}

/// The line under a datastore's name.
pub open spec fn ds_sub(d: DatastoreView, f: DatastoreTextView) -> Seq<char> {
    (match d.kind {
        Some(k) => k,
        None => "\u{2014}"@,
    }) + " \u{b7} "@ + f.free + " free of "@ + f.capacity
}

/// One datastore node, its top edge at `top` tenths.
#[verifier::opaque]
pub open spec fn ds_svg(d: DatastoreView, top: int, f: DatastoreTextView) -> Seq<char> {
    "<g class=\"node ds "@ + kind_class_of(d.kind) + "\" data-ds=\""@ + html_escaped(d.moref)
        + "\"><rect x=\"484.0\" y=\""@ + tenths_text(top) + "\" width=\"250.0\" height=\"62.0\" rx=\"6\"/>\n<rect class=\"kind-bar\" x=\"484.0\" y=\""@
        + tenths_text(top) + "\" width=\"5\" height=\"62.0\"/>\n<text class=\"node-title\" x=\"500.0\" y=\""@ + tenths_text(top + 200) + "\">"@
        + html_escaped(d.name) + "</text>\n<text class=\"node-sub\" x=\"500.0\" y=\""@ + tenths_text(top + 360) + "\">"@
        + html_escaped(ds_sub(d, f)) + "</text>\n<rect class=\"cap-track\" x=\"500.0\" y=\""@ + tenths_text(top + 460)
        + "\" width=\"218.0\" height=\"5\" rx=\"2.5\"/>\n<rect class=\"cap-fill\" x=\"500.0\" y=\""@ + tenths_text(top + 460)
        + "\" width=\""@ + f.bar + "\" height=\"5\" rx=\"2.5\"/></g>"@
}

/// The right column: datastore `i` at `top_line() + 740 * i`.
pub open spec fn right_svg(ds: Seq<DatastoreView>, figs: Seq<DatastoreTextView>) -> Seq<char>
    decreases ds.len(),
{
    if ds.len() == 0 {
        Seq::empty()
    } else {
        right_svg(ds.drop_last(), figs) + ds_svg(ds.last(), top_line() + 740 * (ds.len() - 1), figs[ds.len() - 1])
    }
}

/// One link as a curve from the host's right edge to the datastore's left.
#[verifier::opaque]
pub open spec fn link_svg(l: LinkView) -> Seq<char> {
    "<path class=\"link "@ + l.2 + "\" data-host=\""@ + html_escaped(l.0) + "\" data-ds=\""@ + html_escaped(l.1) + "\" d=\"M274.0,"@
        + tenths_text(l.3) + " C379.0,"@ + tenths_text(l.3) + " 379.0,"@ + tenths_text(l.4) + " 484.0,"@ + tenths_text(l.4)
        + "\"/>"@
}

pub open spec fn links_svg(ls: Seq<LinkView>) -> Seq<char>
    decreases ls.len(),
{
    if ls.len() == 0 {
        Seq::empty()
    } else {
        links_svg(ls.drop_last()) + link_svg(ls.last())
    }
}

/// The whole diagram: links first, so the nodes paint over them.
pub open spec fn diagram_svg_of(t: ServerView, memory: Seq<HostTextView>, figs: Seq<DatastoreTextView>) -> Seq<char> {
    let gs = diagram_groups(t);
    "<svg class=\"topology\" viewBox=\"0 0 758 "@ + decimal((diagram_height(t) / 10) as nat)
        + "\" role=\"img\" aria-label=\"Host and storage topology\">\n<text class=\"col-head\" x=\"24.0\" y=\"18\">HOSTS</text>\n<text class=\"col-head\" x=\"484.0\" y=\"18\">DATASTORES</text>\n<g class=\"links\">"@
        + links_svg(links_of(t.datastores, t.datastores.len() as int, host_boxes_of(gs))) + "</g>"@ + left_svg(gs, memory)
        + right_svg(t.datastores, figs) + "</svg>"@
}

fn cores_string(c: Option<i64>) -> (r: String)
    ensures
        r@ == cores_text(c),
{
    match c {
        Some(n) => crate::text::i64_text(n),
        None => String::from_str("\u{2014}"),
    }
}

fn host_svg_text(h: &HostNode, top: i64, memory: &HostText) -> (r: String)
    requires
        0 <= top < 0x10_0000_0000_0000,
    ensures
        r@ == host_svg(h@, top as int, memory@),
{
    let cores = cores_string(h.cpu_cores);
    let detail = match h.dram_gib {
        Some(_) => cores.concat(" cores \u{b7} ").concat(memory.dram.as_str()).concat(" DRAM"),
        None => cores.concat(" cores \u{b7} ").concat(memory.memory.as_str()),
    };
    proof {
        assert(detail@ =~= host_detail(h@, memory@));
        reveal(host_svg);
    }
    String::from_str("<g class=\"node host ").concat(host_state(h)).concat("\" data-host=\"").concat(esc(h.moref.as_str()).as_str())
        .concat("\"><rect x=\"24.0\" y=\"").concat(tenths(top).as_str()).concat(
        "\" width=\"250.0\" height=\"52.0\" rx=\"6\"/>\n<circle class=\"dot\" cx=\"40.0\" cy=\"",
    ).concat(tenths(top + 260).as_str()).concat("\" r=\"4\"/>\n<text class=\"node-title\" x=\"54.0\" y=\"").concat(
        tenths(top + 210).as_str(),
    ).concat("\">").concat(esc(h.name.as_str()).as_str()).concat("</text>\n<text class=\"node-sub\" x=\"54.0\" y=\"").concat(
        tenths(top + 380).as_str(),
    ).concat("\">").concat(esc(detail.as_str()).as_str()).concat("</text></g>")
}

/// One group's box and its hosts, appended to `out`.
fn render_group(out: &mut String, label: &str, members: &Vec<HostNode>, y: i64, memory: &Vec<HostText>, base: usize)
    requires
        240 <= y < 0x1_0000_0000_0000,
        members@.len() < 0x100_0000,
        base + members@.len() <= memory@.len(),
    ensures
        final(out)@ == old(out)@ + group_svg(label@, y as int, box_height(members@.len() as int)) + hosts_svg(
            hosts_view(members@),
            y as int,
            host_texts_view(memory@).subrange(base as int, base + members@.len()),
        ),
{
    let n = members.len() as i64;
    let inner: i64 = if n == 0 { 520 } else { n * 520 + (n - 1) * 120 };
    let box_h = inner + 300 + 140;
    let g = String::from_str("<g class=\"cluster\"><rect x=\"10.0\" y=\"").concat(tenths(y - 240).as_str()).concat(
        "\" width=\"278.0\" height=\"",
    ).concat(tenths(box_h).as_str()).concat("\" rx=\"8\"/>\n<text class=\"cluster-label\" x=\"22.0\" y=\"").concat(
        tenths(y - 70).as_str(),
    ).concat("\">").concat(esc(label).as_str()).concat("</text></g>");
    proof {
        reveal(group_svg);
        assert(g@ == group_svg(label@, y as int, box_height(members@.len() as int)));
    }
    out.append(g.as_str());
    let ghost start = out@;
    let ghost hv = hosts_view(members@);
    let ghost mv = host_texts_view(memory@).subrange(base as int, base + members@.len());
    let mut k: usize = 0;
    while k < members.len()
        invariant
            k <= members@.len(),
            members@.len() < 0x100_0000,
            240 <= y < 0x1_0000_0000_0000,
            base + members@.len() <= memory@.len(),
            hv == hosts_view(members@),
            mv == host_texts_view(memory@).subrange(base as int, base + members@.len()),
            out@ == start + hosts_svg(hv.take(k as int), y as int, mv),
        decreases members.len() - k,
    {
        let top = y + 80 + 640 * (k as i64);
        let mlen = memory.len();
        proof { assert(base + k < mlen); }
        let idx: usize = base + k;
        let piece = host_svg_text(&members[k], top, &memory[idx]);
        proof {
            assert(hv.take(k + 1).drop_last() =~= hv.take(k as int));
            assert(hv.take(k + 1).last() == members@[k as int]@);
            assert(mv[k as int] == memory@[base + k]@);
        }
        out.append(piece.as_str());
        k += 1;
    }
    proof { assert(hv.take(members@.len() as int) =~= hv); }
}

fn ds_svg_text(d: &crate::data::topology::DatastoreNode, top: i64, f: &DatastoreText) -> (r: String)
    requires
        0 <= top < 0x10_0000_0000_0000,
    ensures
        r@ == ds_svg(d@, top as int, f@),
{
    let kind = match &d.kind {
        Some(k) => k.clone(),
        None => String::from_str("\u{2014}"),
    };
    let sub = kind.concat(" \u{b7} ").concat(f.free.as_str()).concat(" free of ").concat(f.capacity.as_str());
    proof {
        assert(sub@ =~= ds_sub(d@, f@));
        reveal(ds_svg);
    }
    String::from_str("<g class=\"node ds ").concat(kind_class(opt_as_str(&d.kind))).concat("\" data-ds=\"").concat(
        esc(d.moref.as_str()).as_str(),
    ).concat("\"><rect x=\"484.0\" y=\"").concat(tenths(top).as_str()).concat(
        "\" width=\"250.0\" height=\"62.0\" rx=\"6\"/>\n<rect class=\"kind-bar\" x=\"484.0\" y=\"",
    ).concat(tenths(top).as_str()).concat("\" width=\"5\" height=\"62.0\"/>\n<text class=\"node-title\" x=\"500.0\" y=\"").concat(
        tenths(top + 200).as_str(),
    ).concat("\">").concat(esc(d.name.as_str()).as_str()).concat("</text>\n<text class=\"node-sub\" x=\"500.0\" y=\"").concat(
        tenths(top + 360).as_str(),
    ).concat("\">").concat(esc(sub.as_str()).as_str()).concat("</text>\n<rect class=\"cap-track\" x=\"500.0\" y=\"").concat(
        tenths(top + 460).as_str(),
    ).concat("\" width=\"218.0\" height=\"5\" rx=\"2.5\"/>\n<rect class=\"cap-fill\" x=\"500.0\" y=\"").concat(
        tenths(top + 460).as_str(),
    ).concat("\" width=\"").concat(f.bar.as_str()).concat("\" height=\"5\" rx=\"2.5\"/></g>")
}

fn opt_as_str(o: &Option<String>) -> (r: Option<&str>)
    ensures
        match r {
            Some(s) => *o matches Some(t) && s@ == t@,
            None => o.is_none(),
        },
{
    match o {
        Some(s) => Some(s.as_str()),
        None => None,
    }
}

fn link_svg_text(l: &Link) -> (r: String)
    requires
        0 <= l.y1,
        0 <= l.y2,
    ensures
        r@ == link_svg((l.host@, l.datastore@, l.class@, l.y1 as int, l.y2 as int)),
{
    proof { reveal(link_svg); }
    String::from_str("<path class=\"link ").concat(l.class).concat("\" data-host=\"").concat(esc(l.host.as_str()).as_str())
        .concat("\" data-ds=\"").concat(esc(l.datastore.as_str()).as_str()).concat("\" d=\"M274.0,").concat(
        tenths(l.y1).as_str(),
    ).concat(" C379.0,").concat(tenths(l.y1).as_str()).concat(" 379.0,").concat(tenths(l.y2).as_str()).concat(
        " 484.0,",
    ).concat(tenths(l.y2).as_str()).concat("\"/>")
}

proof fn lemma_links_small(ds: Seq<DatastoreView>, n: int, hb: Seq<(HostView, Seq<char>, int)>)
    requires
        0 <= n <= ds.len(),
        ds.len() < 0x100_0000,
        forall|k: int| 0 <= k < hb.len() ==> 0 <= #[trigger] hb[k].2 < 0x10_0000_0000_0000,
    ensures
        forall|k: int| 0 <= k < links_of(ds, n, hb).len() ==> 0 <= #[trigger] links_of(ds, n, hb)[k].3 && 0 <= links_of(ds, n, hb)[k].4,
    decreases n,
{
    if n > 0 {
        lemma_links_small(ds, n - 1, hb);
        let d = ds[n - 1];
        let dsy = match first_ds(ds, d.moref) {
            Some(f) => top_line() + 740 * f + 310,
            None => 0,
        };
        lemma_first_ds(ds, d.moref);
        lemma_mount_links_small(d.mounted_by, d, dsy, hb);
        let a = links_of(ds, n - 1, hb);
        let b = mount_links(d.mounted_by, d, dsy, hb);
        let all = links_of(ds, n, hb);
        assert(all == a + b);
        assert forall|k: int| 0 <= k < all.len() implies 0 <= #[trigger] all[k].3 && 0 <= all[k].4 by {
            if k < a.len() {
                assert(all[k] == a[k]);
            } else {
                assert(all[k] == b[k - a.len()]);
            }
        }
    }
}

proof fn lemma_mount_links_small(mounts: Seq<Seq<char>>, d: DatastoreView, dsy: int, hb: Seq<(HostView, Seq<char>, int)>)
    requires
        0 <= dsy,
        forall|k: int| 0 <= k < hb.len() ==> 0 <= #[trigger] hb[k].2 < 0x10_0000_0000_0000,
    ensures
        forall|k: int| 0 <= k < mount_links(mounts, d, dsy, hb).len() ==> 0 <= #[trigger] mount_links(mounts, d, dsy, hb)[k].3
            && 0 <= mount_links(mounts, d, dsy, hb)[k].4,
    decreases mounts.len(),
{
    if mounts.len() > 0 {
        let rest = mount_links(mounts.drop_last(), d, dsy, hb);
        lemma_mount_links_small(mounts.drop_last(), d, dsy, hb);
        lemma_first_host_box(hb, mounts.last());
        let all = mount_links(mounts, d, dsy, hb);
        assert forall|k: int| 0 <= k < all.len() implies 0 <= #[trigger] all[k].3 && 0 <= all[k].4 by {
            if k < rest.len() {
                assert(all[k] == rest[k]);
            } else {
                let j = first_host_box(hb, mounts.last()).unwrap();
                assert(hb[j].2 >= 0);
            }
        }
    }
}

/// One vCenter's topology as an SVG diagram: hosts on the left grouped by
/// cluster, datastores on the right, and a line from each host to each
/// datastore it has mounted. Coordinates are computed here rather than by
/// script, so the picture is right where scripting is blocked. The sizes
/// shown are given as text: `memory[k]` for the `k`-th host in column
/// order, `figures[i]` for the `i`-th datastore.
pub fn diagram_svg(t: &ServerTopology, memory: &Vec<HostText>, figures: &Vec<DatastoreText>) -> (r: String)
    requires
        layout_fits(t@),
        memory@.len() == hosts_in(diagram_groups(t@)),
        figures@.len() == t.datastores@.len(),
    ensures
        r@ == diagram_svg_of(t@, host_texts_view(memory@), ds_texts_view(figures@)),
{
    let layout = diagram_layout(t);
    let ghost gs = diagram_groups(t@);
    let ghost cs = groups_view(t.clusters@);
    let ghost mv = host_texts_view(memory@);
    let ghost fv = ds_texts_view(figures@);

    // Links.
    let ghost lv = links_view(layout.links@);
    proof {
        lemma_boxes_small(gs);
        lemma_links_small(t@.datastores, t@.datastores.len() as int, host_boxes_of(gs));
    }
    let mut links = String::new();
    let mut i: usize = 0;
    while i < layout.links.len()
        invariant
            i <= layout.links@.len(),
            lv == links_view(layout.links@),
            forall|k: int| 0 <= k < lv.len() ==> 0 <= #[trigger] lv[k].3 && 0 <= lv[k].4,
            links@ == links_svg(lv.take(i as int)),
        decreases layout.links.len() - i,
    {
        proof {
            assert(lv.take(i + 1).drop_last() =~= lv.take(i as int));
            assert(lv[i as int].3 == layout.links@[i as int].y1);
        }
        let piece = link_svg_text(&layout.links[i]);
        links.append(piece.as_str());
        i += 1;
    }
    proof { assert(lv.take(lv.len() as int) =~= lv); }

    // Left column: each group's box, then its hosts.
    proof {
        assert(gs.take(0) =~= Seq::<(Seq<char>, Seq<HostView>)>::empty());
        lemma_stack_bound(gs);
        assert(forall|j: int| 0 <= j < cs.len() ==> #[trigger] gs[j] == cs[j]);
    }
    let mut left = String::new();
    let mut y: i64 = 500;
    let mut base: usize = 0;
    let mut g: usize = 0;
    while g < t.clusters.len()
        invariant
            g <= t.clusters@.len(),
            gs == diagram_groups(t@),
            cs == groups_view(t.clusters@),
            cs.len() <= gs.len(),
            forall|j: int| 0 <= j < cs.len() ==> #[trigger] gs[j] == cs[j],
            layout_fits(t@),
            mv == host_texts_view(memory@),
            memory@.len() == hosts_in(gs),
            left@ == left_svg(gs.take(g as int), mv),
            y == top_line() + stack_height(gs.take(g as int)),
            base == hosts_in(gs.take(g as int)),
        decreases t.clusters.len() - g,
    {
        let n = t.clusters[g].1.len();
        proof {
            assert(gs.take(g + 1).drop_last() =~= gs.take(g as int));
            assert(gs.take(g + 1).last() == gs[g as int]);
            assert(gs[g as int] == (t.clusters@[g as int].0@, hosts_view(t.clusters@[g as int].1@)));
            lemma_hosts_in_prefix(gs, g + 1);
            lemma_hosts_in_prefix(gs, g as int);
            lemma_stack_bound(gs.take(g as int));
            assert(hosts_in(gs.take(g + 1)) == hosts_in(gs.take(g as int)) + n);
        }
        render_group(&mut left, t.clusters[g].0.as_str(), &t.clusters[g].1, y, memory, base);
        y = y + box_h(n) + 220;
        base = base + n;
        g += 1;
    }
    if t.standalone_hosts.len() > 0 {
        let n = t.standalone_hosts.len();
        proof {
            let c = cs.len() as int;
            assert(gs == cs.push(("Standalone hosts"@, hosts_view(t.standalone_hosts@))));
            assert(gs.take(c + 1) =~= gs);
            assert(gs.take(c + 1).drop_last() =~= gs.take(c));
            lemma_hosts_in_prefix(gs, c);
            lemma_stack_bound(gs.take(c));
            assert(hosts_in(gs) == hosts_in(gs.take(c)) + n);
        }
        render_group(&mut left, "Standalone hosts", &t.standalone_hosts, y, memory, base);
    } else {
        proof { assert(gs.take(cs.len() as int) =~= gs); }
    }

    // Right column.
    let ghost dv = datastores_view(t.datastores@);
    let mut right = String::new();
    let mut d: usize = 0;
    while d < t.datastores.len()
        invariant
            d <= t.datastores@.len(),
            dv == datastores_view(t.datastores@),
            dv.len() < 0x100_0000,
            figures@.len() == dv.len(),
            fv == ds_texts_view(figures@),
            right@ == right_svg(dv.take(d as int), fv),
        decreases t.datastores.len() - d,
    {
        proof {
            assert(dv.take(d + 1).drop_last() =~= dv.take(d as int));
            assert(dv.take(d + 1).last() == t.datastores@[d as int]@);
            assert(fv[d as int] == figures@[d as int]@);
        }
        let top: i64 = 500 + 740 * (d as i64);
        let piece = ds_svg_text(&t.datastores[d], top, &figures[d]);
        right.append(piece.as_str());
        d += 1;
    }
    proof { assert(dv.take(dv.len() as int) =~= dv); }

    let h = decimal_chars((layout.height / 10) as u64);
    proof { lemma_stack_bound(gs); }
    String::from_str("<svg class=\"topology\" viewBox=\"0 0 758 ").concat(string_of(h.as_slice()).as_str()).concat(
        "\" role=\"img\" aria-label=\"Host and storage topology\">\n<text class=\"col-head\" x=\"24.0\" y=\"18\">HOSTS</text>\n<text class=\"col-head\" x=\"484.0\" y=\"18\">DATASTORES</text>\n<g class=\"links\">",
    ).concat(links.as_str()).concat("</g>").concat(left.as_str()).concat(right.as_str()).concat("</svg>")
}

/// Height of a cluster box holding `n` hosts.
fn box_h(n: usize) -> (r: i64)
    requires
        n < 0x100_0000,
    ensures
        r == box_height(n as int),
{
    let n = n as i64;
    let inner: i64 = if n == 0 { 520 } else { n * 520 + (n - 1) * 120 };
    inner + 300 + 140
}

// ---- the tables ----

/// The text, or a dash when there is none.
pub open spec fn dash_or(o: Option<Seq<char>>) -> Seq<char> {
    match o {
        Some(s) => s,
        None => "\u{2014}"@,
    }
}

fn dash_or_string(o: &Option<String>) -> (r: String)
    ensures
        r@ == dash_or(opt_str_view(*o)),
{
    match o {
        Some(s) => s.clone(),
        None => String::from_str("\u{2014}"),
    }
}

fn usize_text(n: usize) -> (r: String)
    ensures
        r@ == decimal(n as nat),
{
    string_of(decimal_chars(n as u64).as_slice())
}

/// One row of the datastores table.
#[verifier::opaque]
pub open spec fn ds_row_html(t: ServerView, d: DatastoreView, f: DatastoreTextView) -> Seq<char> {
    "<tr><td>"@ + html_escaped(d.name) + "</td><td><span class=\"tag "@ + kind_class_of(d.kind) + "\">"@
        + html_escaped(dash_or(d.kind)) + "</span></td>\n<td class=\"num\">"@ + f.capacity + "</td><td class=\"num\">"@ + f.used
        + "</td><td class=\"num\">"@ + f.free + "</td>\n<td class=\"num\">"@ + f.used_percent + "</td><td class=\"num\">"@
        + decimal(d.vm_count) + "</td><td class=\"num\">"@ + decimal(d.mounted_by.len()) + "</td><td class=\"hosts\">"@
        + html_escaped(crate::text::joined(mount_names_of(t, d), ", "@)) + "</td></tr>"@
}

/// The datastores table's rows, one per datastore in order.
pub open spec fn ds_rows_html(t: ServerView, ds: Seq<DatastoreView>, f: Seq<DatastoreTextView>) -> Seq<char>
    decreases ds.len(),
{
    if ds.len() == 0 {
        Seq::empty()
    } else {
        ds_rows_html(t, ds.drop_last(), f) + ds_row_html(t, ds.last(), f[ds.len() - 1])
    }
}

fn ds_row_text(t: &ServerTopology, d: &crate::data::topology::DatastoreNode, f: &DatastoreText) -> (r: String)
    ensures
        r@ == ds_row_html(t@, d@, f@),
{
    let mounts = mount_names(t, d);
    proof { assert(crate::text::strings_view(mounts@) =~= mount_names_of(t@, d@)); }
    let joined = crate::text::join(&mounts, ", ");
    proof { reveal(ds_row_html); }
    String::from_str("<tr><td>").concat(esc(d.name.as_str()).as_str()).concat("</td><td><span class=\"tag ").concat(
        kind_class(opt_as_str(&d.kind)),
    ).concat("\">").concat(esc(dash_or_string(&d.kind).as_str()).as_str()).concat(
        "</span></td>\n<td class=\"num\">",
    ).concat(f.capacity.as_str()).concat("</td><td class=\"num\">").concat(f.used.as_str()).concat(
        "</td><td class=\"num\">",
    ).concat(f.free.as_str()).concat("</td>\n<td class=\"num\">").concat(f.used_percent.as_str()).concat(
        "</td><td class=\"num\">",
    ).concat(usize_text(d.vm_count).as_str()).concat("</td><td class=\"num\">").concat(
        usize_text(d.mounted_by.len()).as_str(),
    ).concat("</td><td class=\"hosts\">").concat(esc(joined.as_str()).as_str()).concat("</td></tr>")
}

/// The datastores table's rows; `figures[i]` is the `i`-th datastore's.
pub fn datastore_rows(t: &ServerTopology, figures: &Vec<DatastoreText>) -> (r: String)
    requires
        figures@.len() == t.datastores@.len(),
    ensures
        r@ == ds_rows_html(t@, t@.datastores, ds_texts_view(figures@)),
{
    let ghost dv = t@.datastores;
    let ghost fv = ds_texts_view(figures@);
    let mut out = String::new();
    let mut i: usize = 0;
    while i < t.datastores.len()
        invariant
            i <= t.datastores@.len(),
            figures@.len() == t.datastores@.len(),
            dv == t@.datastores,
            fv == ds_texts_view(figures@),
            out@ == ds_rows_html(t@, dv.take(i as int), fv),
        decreases t.datastores.len() - i,
    {
        proof {
            assert(dv.take(i + 1).drop_last() =~= dv.take(i as int));
            assert(dv.take(i + 1).last() == t.datastores@[i as int]@);
        }
        let row = ds_row_text(t, &t.datastores[i], &figures[i]);
        out.append(row.as_str());
        i += 1;
    }
    proof { assert(dv.take(dv.len() as int) =~= dv); }
    out
}

/// The names of the datastores at these positions, each escaped.
pub open spec fn ds_names_html(ds: Seq<DatastoreView>, idx: Seq<int>) -> Seq<Seq<char>> {
    idx.map_values(|i: int| html_escaped(ds[i].name))
}

/// One row of the hosts table.
#[verifier::opaque]
pub open spec fn host_row_html(t: ServerView, h: HostView, f: HostTextView) -> Seq<char> {
    let mounted = mounted_by_host_of(t.datastores, h.moref, t.datastores.len() as int);
    "<tr><td>"@ + html_escaped(h.name) + "</td><td>"@ + html_escaped(dash_or(h.cluster)) + "</td><td>"@
        + html_escaped(state_label_of(h)) + "</td><td class=\"num\">"@ + cores_text(h.cpu_cores) + "</td>\n<td class=\"num\">"@
        + f.dram + "</td><td class=\"num\">"@ + f.memory + "</td><td class=\"num\">"@ + decimal(mounted.len())
        + "</td><td class=\"hosts\">"@ + crate::text::joined(ds_names_html(t.datastores, mounted), ", "@) + "</td></tr>"@
}

/// The hosts table's rows, one per host in column order.
pub open spec fn host_rows_html(t: ServerView, hs: Seq<HostView>, f: Seq<HostTextView>) -> Seq<char>
    decreases hs.len(),
{
    if hs.len() == 0 {
        Seq::empty()
    } else {
        host_rows_html(t, hs.drop_last(), f) + host_row_html(t, hs.last(), f[hs.len() - 1])
    }
}

fn host_row_text(t: &ServerTopology, h: &HostNode, f: &HostText) -> (r: String)
    ensures
        r@ == host_row_html(t@, h@, f@),
{
    let idx = mounted_by_host(t, h.moref.as_str());
    let ghost dv = datastores_view(t.datastores@);
    let ghost want = ds_names_html(dv, idx@.map_values(|i: usize| i as int));
    proof {
        lemma_mounted_in_range(dv, h@.moref, dv.len() as int);
        assert forall|j: int| 0 <= j < idx@.len() implies #[trigger] idx@[j] < t.datastores@.len() by {
            assert(idx@.map_values(|i: usize| i as int)[j] == idx@[j] as int);
        }
    }
    let mut names: Vec<String> = Vec::new();
    let mut k: usize = 0;
    while k < idx.len()
        invariant
            k <= idx@.len(),
            dv == datastores_view(t.datastores@),
            want == ds_names_html(dv, idx@.map_values(|i: usize| i as int)),
            idx@.map_values(|i: usize| i as int) == mounted_by_host_of(dv, h@.moref, dv.len() as int),
            forall|j: int| 0 <= j < idx@.len() ==> #[trigger] idx@[j] < t.datastores@.len(),
            crate::text::strings_view(names@) =~= want.take(k as int),
        decreases idx.len() - k,
    {
        let name = esc(t.datastores[idx[k]].name.as_str());
        let ghost before = names@;
        names.push(name);
        proof { assert(crate::text::strings_view(names@) =~= crate::text::strings_view(before).push(name@)); }
        k += 1;
    }
    proof { assert(want.take(idx@.len() as int) =~= want); }
    let list = crate::text::join(&names, ", ");
    proof { reveal(host_row_html); }
    String::from_str("<tr><td>").concat(esc(h.name.as_str()).as_str()).concat("</td><td>").concat(
        esc(dash_or_string(&h.cluster).as_str()).as_str(),
    ).concat("</td><td>").concat(esc(state_label(h).as_str()).as_str()).concat("</td><td class=\"num\">").concat(
        cores_string(h.cpu_cores).as_str(),
    ).concat("</td>\n<td class=\"num\">").concat(f.dram.as_str()).concat("</td><td class=\"num\">").concat(
        f.memory.as_str(),
    ).concat("</td><td class=\"num\">").concat(usize_text(idx.len()).as_str()).concat("</td><td class=\"hosts\">").concat(
        list.as_str(),
    ).concat("</td></tr>")
}

proof fn lemma_mounted_in_range(ds: Seq<DatastoreView>, moref: Seq<char>, n: int)
    requires
        0 <= n <= ds.len(),
    ensures
        forall|j: int| 0 <= j < mounted_by_host_of(ds, moref, n).len() ==> 0 <= #[trigger] mounted_by_host_of(ds, moref, n)[j] < n,
    decreases n,
{
    if n > 0 {
        lemma_mounted_in_range(ds, moref, n - 1);
        let prev = mounted_by_host_of(ds, moref, n - 1);
        let all = mounted_by_host_of(ds, moref, n);
        assert forall|j: int| 0 <= j < all.len() implies 0 <= #[trigger] all[j] < n by {
            if j < prev.len() {
                assert(all[j] == prev[j]);
            }
        }
    }
}

/// The hosts table's rows; `texts[k]` is the `k`-th host's, in column order.
pub fn host_rows(t: &ServerTopology, texts: &Vec<HostText>) -> (r: String)
    requires
        texts@.len() == all_hosts_of(t@).len(),
    ensures
        r@ == host_rows_html(t@, all_hosts_of(t@), host_texts_view(texts@)),
{
    let hosts = t.all_hosts();
    let ghost hv = all_hosts_of(t@);
    let ghost fv = host_texts_view(texts@);
    proof { assert(hosts@.len() == hv.len()); }
    let mut out = String::new();
    let mut i: usize = 0;
    while i < hosts.len()
        invariant
            i <= hosts@.len(),
            hosts@.len() == hv.len(),
            hosts@.map_values(|h: &HostNode| h@) == hv,
            hv == all_hosts_of(t@),
            texts@.len() == hv.len(),
            fv == host_texts_view(texts@),
            out@ == host_rows_html(t@, hv.take(i as int), fv),
        decreases hosts.len() - i,
    {
        proof {
            assert(hv.take(i + 1).drop_last() =~= hv.take(i as int));
            assert(hv.take(i + 1).last() == hosts@[i as int]@);
        }
        let row = host_row_text(t, hosts[i], &texts[i]);
        out.append(row.as_str());
        i += 1;
    }
    proof { assert(hv.take(hv.len() as int) =~= hv); }
    out
}

// ---- the page ----

/// One vCenter's sizes as shown: each host's and each datastore's, and the
/// storage totals.
pub struct ServerText {
    pub hosts: Vec<HostText>,
    pub datastores: Vec<DatastoreText>,
    pub capacity: String,
    pub free: String,
}

pub struct ServerTextView {
    pub hosts: Seq<HostTextView>,
    pub datastores: Seq<DatastoreTextView>,
    pub capacity: Seq<char>,
    pub free: Seq<char>,
}

impl View for ServerText {
    type V = ServerTextView;

    open spec fn view(&self) -> ServerTextView {
        ServerTextView {
            hosts: host_texts_view(self.hosts@),
            datastores: ds_texts_view(self.datastores@),
            capacity: self.capacity@,
            free: self.free@,
        }
    }
}

pub const SECTION_LEGEND: &'static str = "</p>\n<div class=\"legend\">\n  <span><i class=\"swatch vmfs\"></i>VMFS</span><span><i class=\"swatch nfs\"></i>NFS</span>\n  <span><i class=\"swatch vsan\"></i>vSAN</span><span><i class=\"swatch vvol\"></i>vVol</span>\n  <span><i class=\"swatch other\"></i>Other</span>\n</div>\n<div class=\"diagram\">";
pub const SECTION_DATASTORES: &'static str = "</div>\n<h3>Datastores</h3>\n<div class=\"table-wrap\"><table>\n<thead><tr><th>Datastore</th><th>Type</th><th>Capacity</th><th>Used</th><th>Free</th><th>Used %</th><th>VMs</th><th>Mounts</th><th>Mounted by</th></tr></thead>\n<tbody>";
pub const SECTION_HOSTS: &'static str = "</tbody></table></div>\n<h3>Hosts</h3>\n<div class=\"table-wrap\"><table>\n<thead><tr><th>Host</th><th>Cluster</th><th>State</th><th>Cores</th><th>DRAM</th><th>Memory (incl. tiers)</th><th>Datastores</th><th>Mounted datastores</th></tr></thead>\n<tbody>";
pub const SECTION_END: &'static str = "</tbody></table></div>\n</section>";

proof fn lemma_hosts_in_clustered(gs: Seq<(Seq<char>, Seq<HostView>)>)
    ensures
        hosts_in(gs) == crate::data::topology::clustered_hosts(gs).len(),
    decreases gs.len(),
{
    if gs.len() > 0 {
        lemma_hosts_in_clustered(gs.drop_last());
    }
}

/// The diagram's hosts are the server's hosts.
proof fn lemma_hosts_count(t: ServerView)
    ensures
        hosts_in(diagram_groups(t)) == all_hosts_of(t).len(),
{
    lemma_hosts_in_clustered(t.clusters);
    if t.standalone_hosts.len() > 0 {
        let gs = diagram_groups(t);
        assert(gs.drop_last() =~= t.clusters);
    }
}

/// One vCenter's section: its summary line, the diagram, and the datastore
/// and host tables.
pub open spec fn server_section_html(t: ServerView, f: ServerTextView) -> Seq<char> {
    "<section class=\"server\">\n<h2>"@ + html_escaped(t.server) + "</h2>\n<p class=\"meta\">"@ + datacenters_text_of(t.datacenters)
        + " \u{b7} "@ + decimal(t.clusters.len()) + " clusters \u{b7} "@ + decimal(all_hosts_of(t).len()) + " hosts \u{b7} "@
        + decimal(t.datastores.len()) + " datastores \u{b7} "@ + f.capacity + " capacity, "@ + f.free + " free"@ + SECTION_LEGEND@
        + diagram_svg_of(t, f.hosts, f.datastores) + SECTION_DATASTORES@ + ds_rows_html(t, t.datastores, f.datastores)
        + SECTION_HOSTS@ + host_rows_html(t, all_hosts_of(t), f.hosts) + SECTION_END@
}

pub open spec fn section_fits(t: ServerView, f: ServerTextView) -> bool {
    &&& layout_fits(t)
    &&& f.hosts.len() == all_hosts_of(t).len()
    &&& f.datastores.len() == t.datastores.len()
}

pub fn server_section(t: &ServerTopology, f: &ServerText) -> (r: String)
    requires
        section_fits(t@, f@),
    ensures
        r@ == server_section_html(t@, f@),
{
    proof { lemma_hosts_count(t@); }
    let diagram = diagram_svg(t, &f.hosts, &f.datastores);
    let ds_rows = datastore_rows(t, &f.datastores);
    let host_rows = host_rows(t, &f.hosts);
    let hosts = t.all_hosts();
    String::from_str("<section class=\"server\">\n<h2>").concat(esc(t.server.as_str()).as_str()).concat(
        "</h2>\n<p class=\"meta\">",
    ).concat(datacenters_text(t).as_str()).concat(" \u{b7} ").concat(usize_text(t.clusters.len()).as_str()).concat(
        " clusters \u{b7} ",
    ).concat(usize_text(hosts.len()).as_str()).concat(" hosts \u{b7} ").concat(usize_text(t.datastores.len()).as_str()).concat(
        " datastores \u{b7} ",
    ).concat(f.capacity.as_str()).concat(" capacity, ").concat(f.free.as_str()).concat(" free").concat(SECTION_LEGEND).concat(
        diagram.as_str(),
    ).concat(SECTION_DATASTORES).concat(ds_rows.as_str()).concat(SECTION_HOSTS).concat(host_rows.as_str()).concat(
        SECTION_END,
    )
}

pub const STYLE: &'static str = "\n:root{--bg:#1b2a32;--panel:#22343c;--panel-alt:#1e2f37;--line:#314351;--line-2:#495a63;\n--text:#eaedf0;--dim:#adbbc4;--faint:#798d99;--accent:#49afd9;--warn:#f5c348;\n--vmfs:#49afd9;--nfs:#60b515;--vsan:#c47bd6;--vvol:#f5c348;--other:#798d99;}\n*{box-sizing:border-box}\nbody{margin:0;background:var(--bg);color:var(--text);\nfont:14px/1.5 -apple-system,BlinkMacSystemFont,\"Segoe UI\",Roboto,sans-serif;-webkit-font-smoothing:antialiased}\nheader{padding:22px 28px;border-bottom:1px solid var(--line);background:var(--panel-alt)}\nh1{margin:0;font-size:19px;font-weight:600}\nheader .meta{margin:4px 0 0;color:var(--dim);font-size:12px}\nmain{padding:24px 28px 48px;max-width:1400px}\nsection.server{margin-bottom:44px}\nh2{font-size:16px;margin:0 0 4px;color:var(--accent)}\nh3{font-size:13px;text-transform:uppercase;letter-spacing:.07em;color:var(--faint);margin:26px 0 8px}\np.meta{margin:0 0 14px;color:var(--dim);font-size:12px}\n.warnings{margin:0 0 20px;padding:10px 14px;border-left:3px solid var(--warn);\nbackground:rgba(245,195,72,.1);border-radius:3px}\n.warnings ul{margin:6px 0 0;padding-left:18px;color:var(--dim)}\n.legend{display:flex;gap:16px;flex-wrap:wrap;margin-bottom:10px;color:var(--dim);font-size:12px}\n.legend span{display:flex;align-items:center;gap:6px}\n.swatch{width:10px;height:10px;border-radius:2px;display:inline-block}\n.swatch.vmfs{background:var(--vmfs)}.swatch.nfs{background:var(--nfs)}\n.swatch.vsan{background:var(--vsan)}.swatch.vvol{background:var(--vvol)}\n.swatch.other{background:var(--other)}\n.diagram{background:var(--panel);border:1px solid var(--line);border-radius:4px;padding:8px;overflow-x:auto}\nsvg.topology{display:block;width:100%;height:auto;min-width:760px}\n.col-head{fill:var(--faint);font-size:10px;letter-spacing:.09em;font-weight:600}\n.cluster rect{fill:rgba(73,175,217,.04);stroke:var(--line-2);stroke-dasharray:3 3}\n.cluster-label{fill:var(--dim);font-size:11px;font-weight:600}\n.node rect{fill:var(--panel-alt);stroke:var(--line-2)}\n.node-title{fill:var(--text);font-size:12.5px;font-weight:600}\n.node-sub{fill:var(--faint);font-size:11px}\n.host .dot{fill:var(--nfs)}\n.host.maint .dot{fill:var(--vvol)}\n.host.bad .dot{fill:#f54f47}\n.kind-bar{stroke:none}\n.ds.vmfs .kind-bar{fill:var(--vmfs)}.ds.nfs .kind-bar{fill:var(--nfs)}\n.ds.vsan .kind-bar{fill:var(--vsan)}.ds.vvol .kind-bar{fill:var(--vvol)}\n.ds.other .kind-bar{fill:var(--other)}\n.cap-track{fill:#16242b}\n.cap-fill{fill:var(--accent)}\n.link{fill:none;stroke-width:1.4;opacity:.42}\n.link.vmfs{stroke:var(--vmfs)}.link.nfs{stroke:var(--nfs)}\n.link.vsan{stroke:var(--vsan)}.link.vvol{stroke:var(--vvol)}.link.other{stroke:var(--other)}\nsvg.topology.focus .link{opacity:.08}\nsvg.topology.focus .link.on{opacity:1;stroke-width:2.4}\nsvg.topology.focus .node{opacity:.35}\nsvg.topology.focus .node.on{opacity:1}\n.node{cursor:pointer}\n.table-wrap{overflow-x:auto;border:1px solid var(--line);border-radius:4px;background:var(--panel)}\ntable{border-collapse:collapse;width:100%;font-size:12.5px}\nth,td{padding:7px 12px;text-align:left;border-bottom:1px solid var(--line);white-space:nowrap}\nth{background:#17262e;color:var(--dim);font-size:10.5px;text-transform:uppercase;letter-spacing:.06em}\ntbody tr:nth-child(even){background:#1f313a}\ntd.num{text-align:right;font-variant-numeric:tabular-nums}\ntd.hosts{white-space:normal;color:var(--dim);min-width:220px}\n.tag{padding:1px 7px;border-radius:9px;font-size:11px;font-weight:600;color:#0b1a21}\n.tag.vmfs{background:var(--vmfs)}.tag.nfs{background:var(--nfs)}\n.tag.vsan{background:var(--vsan)}.tag.vvol{background:var(--vvol)}.tag.other{background:var(--other)}\nfooter{padding:18px 28px;border-top:1px solid var(--line);color:var(--faint);font-size:11.5px}\n@media print{body{background:#fff;color:#000}.diagram,.table-wrap{background:#fff}}\n";

/// Hover highlighting only: the diagram is fully laid out without it, so
/// the report is complete with scripting disabled.
pub const SCRIPT: &'static str = "\ndocument.querySelectorAll('svg.topology').forEach(function (svg) {\n  function clear() {\n    svg.classList.remove('focus');\n    svg.querySelectorAll('.on').forEach(function (el) { el.classList.remove('on'); });\n  }\n  svg.querySelectorAll('.node').forEach(function (node) {\n    node.addEventListener('mouseenter', function () {\n      clear();\n      var host = node.getAttribute('data-host');\n      var ds = node.getAttribute('data-ds');\n      var sel = host ? '[data-host=\"' + host + '\"]' : '[data-ds=\"' + ds + '\"]';\n      svg.classList.add('focus');\n      node.classList.add('on');\n      svg.querySelectorAll('.link' + sel).forEach(function (link) {\n        link.classList.add('on');\n        var other = host ? link.getAttribute('data-ds') : link.getAttribute('data-host');\n        var attr = host ? 'data-ds' : 'data-host';\n        var peer = svg.querySelector('.node[' + attr + '=\"' + other + '\"]');\n        if (peer) { peer.classList.add('on'); }\n      });\n    });\n    node.addEventListener('mouseleave', clear);\n  });\n});\n";

pub const PAGE_HEAD: &'static str = "<!DOCTYPE html>\n<html lang=\"en\"><head><meta charset=\"utf-8\">\n<meta name=\"viewport\" content=\"width=device-width, initial-scale=1\">\n<title>vCenter Topology Report</title>\n<style>";
pub const PAGE_HEADER: &'static str = "</style></head>\n<body>\n<header>\n  <h1>Host &amp; Storage Topology</h1>\n  <p class=\"meta\">";
pub const PAGE_MAIN: &'static str = "</p>\n</header>\n<main>";
pub const PAGE_FOOT: &'static str = "</main>\n<footer>Lines connect each host to the datastores it has mounted. Hover a host or datastore to isolate its connections.</footer>\n<script>";
pub const PAGE_END: &'static str = "</script>\n</body></html>";
pub const NO_SERVERS: &'static str = "<p class=\"meta\">No vCenter returned any topology data.</p>";

/// Every server's section, in order.
pub open spec fn sections_html(ts: Seq<ServerView>, fs: Seq<ServerTextView>) -> Seq<char>
    decreases ts.len(),
{
    if ts.len() == 0 {
        Seq::empty()
    } else {
        sections_html(ts.drop_last(), fs) + server_section_html(ts.last(), fs[ts.len() - 1])
    }
}

pub open spec fn servers_view(v: Seq<ServerTopology>) -> Seq<ServerView> {
    v.map_values(|s: ServerTopology| s@)
}

pub open spec fn server_texts_view(v: Seq<ServerText>) -> Seq<ServerTextView> {
    v.map_values(|s: ServerText| s@)
}

/// The whole report: a self-contained page, with no external CSS, fonts or
/// scripts, so it can be mailed or archived and still render. A vCenter
/// that could not be queried is named in a warning, so the report does not
/// pass for complete.
pub open spec fn report_html(
    servers: Seq<ServerView>,
    warnings: Seq<Seq<char>>,
    texts: Seq<ServerTextView>,
    generated: Seq<char>,
    tool: Seq<char>,
    version: Seq<char>,
) -> Seq<char> {
    PAGE_HEAD@ + STYLE@ + PAGE_HEADER@ + servers_text_of(servers.map_values(|s: ServerView| s.server)) + " \u{b7} generated "@
        + generated + " by "@ + tool + " "@ + version + PAGE_MAIN@ + warnings_html_of(warnings) + (if servers.len() == 0 {
        NO_SERVERS@
    } else {
        sections_html(servers, texts)
    }) + PAGE_FOOT@ + SCRIPT@ + PAGE_END@
}

/// Render the report for `topology`; `texts[i]` holds the sizes of server
/// `i` as shown, and `generated` the time of writing.
pub fn render(topology: &crate::data::topology::Topology, texts: &Vec<ServerText>, generated: &str, tool: &str, version: &str) -> (r: String)
    requires
        texts@.len() == topology.servers@.len(),
        forall|i: int| 0 <= i < texts@.len() ==> section_fits(#[trigger] topology.servers@[i]@, texts@[i]@),
    ensures
        r@ == report_html(
            servers_view(topology.servers@),
            crate::text::strings_view(topology.warnings@),
            server_texts_view(texts@),
            generated@,
            tool@,
            version@,
        ),
{
    let ghost sv = servers_view(topology.servers@);
    let ghost fv = server_texts_view(texts@);
    let mut body = String::new();
    let mut i: usize = 0;
    while i < topology.servers.len()
        invariant
            i <= topology.servers@.len(),
            texts@.len() == topology.servers@.len(),
            forall|k: int| 0 <= k < texts@.len() ==> section_fits(#[trigger] topology.servers@[k]@, texts@[k]@),
            sv == servers_view(topology.servers@),
            fv == server_texts_view(texts@),
            body@ == sections_html(sv.take(i as int), fv),
        decreases topology.servers.len() - i,
    {
        proof {
            assert(sv.take(i + 1).drop_last() =~= sv.take(i as int));
            assert(sv.take(i + 1).last() == topology.servers@[i as int]@);
            assert(section_fits(topology.servers@[i as int]@, texts@[i as int]@));
        }
        let section = server_section(&topology.servers[i], &texts[i]);
        body.append(section.as_str());
        i += 1;
    }
    proof {
        assert(sv.take(sv.len() as int) =~= sv);
        assert(sv.map_values(|s: ServerView| s.server) =~= topology.servers@.map_values(|s: ServerTopology| s.server@));
    }
    let main_body = if topology.servers.len() == 0 { String::from_str(NO_SERVERS) } else { body };
    String::from_str(PAGE_HEAD).concat(STYLE).concat(PAGE_HEADER).concat(servers_text(topology).as_str()).concat(
        " \u{b7} generated ",
    ).concat(generated).concat(" by ").concat(tool).concat(" ").concat(version).concat(PAGE_MAIN).concat(
        warnings_html(&topology.warnings).as_str(),
    ).concat(main_body.as_str()).concat(PAGE_FOOT).concat(SCRIPT).concat(PAGE_END)
}

} // verus!
