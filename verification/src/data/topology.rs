//! Host and storage topology: which hosts sit in which cluster, and which
//! datastores each host has mounted.
//!
//! This is the one view that is a graph rather than a table, so it has its
//! own shape instead of `Table`. `Datastore.host` is a `DatastoreHostMount[]`
//! whose entries carry the host moref in `<key type="HostSystem">`.
//!
//! Sizes are GiB in hundredths, as in [`super::Cell`].

use vstd::prelude::*;
use super::common::{div_round, div_round_wide, gib_of, no_name_error, opt_gib};
use super::snapshot::mos_view;
use super::vhost::{memory_tier_bytes, nonempty_texts, tier_bytes_of};
use crate::text::{clone_opt, lemma_lex_le_total, lemma_lex_le_trans, lex_le, str_eq, str_le};
use crate::vcenter::soap::{array_prop_of, bool_prop_of, i64_prop_of, str_prop_of, ManagedObject, MoView};
use crate::vcenter::xml::{opt_str_view, text_at_path, XNode};

verus! {

/// An optional figure as a number.
pub open spec fn opt_int(o: Option<i128>) -> Option<int> {
    match o {
        Some(x) => Some(x as int),
        None => None,
    }
}

pub struct HostNode {
    pub moref: String,
    pub name: String,
    pub cluster: Option<String>,
    pub connection_state: Option<String>,
    pub in_maintenance: bool,
    pub cpu_cores: Option<i64>,
    /// Total memory as vCenter reports it. With memory tiering enabled this
    /// is DRAM plus the NVMe tier, so it is shown alongside `dram_gib`
    /// rather than on its own.
    pub memory_gib: Option<i128>,
    pub dram_gib: Option<i128>,
}

pub struct HostView {
    pub moref: Seq<char>,
    pub name: Seq<char>,
    pub cluster: Option<Seq<char>>,
    pub connection_state: Option<Seq<char>>,
    pub in_maintenance: bool,
    pub cpu_cores: Option<i64>,
    pub memory_gib: Option<int>,
    pub dram_gib: Option<int>,
}

impl View for HostNode {
    type V = HostView;

    open spec fn view(&self) -> HostView {
        HostView {
            moref: self.moref@,
            name: self.name@,
            cluster: opt_str_view(self.cluster),
            connection_state: opt_str_view(self.connection_state),
            in_maintenance: self.in_maintenance,
            cpu_cores: self.cpu_cores,
            memory_gib: opt_int(self.memory_gib),
            dram_gib: opt_int(self.dram_gib),
        }
    }
}

impl Clone for HostNode {
    fn clone(&self) -> (r: Self)
        ensures
            r@ == self@,
    {
        HostNode {
            moref: self.moref.clone(),
            name: self.name.clone(),
            cluster: clone_opt(&self.cluster),
            connection_state: clone_opt(&self.connection_state),
            in_maintenance: self.in_maintenance,
            cpu_cores: self.cpu_cores,
            memory_gib: self.memory_gib,
            dram_gib: self.dram_gib,
        }
    }
}

pub open spec fn hosts_view(v: Seq<HostNode>) -> Seq<HostView> {
    v.map_values(|h: HostNode| h@)
}

/// The node for a `HostSystem`; `None` when it has no name.
pub open spec fn host_node_of(h: MoView) -> Option<HostView> {
    match str_prop_of(h, "name"@) {
        None => None,
        Some(n) => Some(HostView {
            moref: h.moref,
            name: n,
            cluster: None,
            connection_state: str_prop_of(h, "runtime.connectionState"@),
            in_maintenance: bool_prop_of(h, "runtime.inMaintenanceMode"@) == Some(true),
            cpu_cores: i64_prop_of(h, "summary.hardware.numCpuCores"@),
            memory_gib: gib_of(i64_prop_of(h, "summary.hardware.memorySize"@)),
            dram_gib: gib_of(tier_bytes_of(h, "DRAM"@)),
        }),
    }
}

/// Every host's node, in order; the first nameless host is an error.
pub open spec fn host_nodes_of(hs: Seq<MoView>) -> Result<Seq<HostView>, Seq<char>>
    decreases hs.len(),
{
    if hs.len() == 0 {
        Ok(Seq::empty())
    } else {
        match host_nodes_of(hs.drop_last()) {
            Err(e) => Err(e),
            Ok(v) => match host_node_of(hs.last()) {
                None => Err(no_name_error("HostSystem "@, hs.last().moref)),
                Some(n) => Ok(v.push(n)),
            },
        }
    }
}

/// The node for one host, not yet placed in a cluster.
pub fn host_node(h: &ManagedObject) -> (r: Option<HostNode>)
    ensures
        match r {
            Some(n) => host_node_of(h@) == Some(n@),
            None => host_node_of(h@).is_none(),
        },
{
    let name = match h.str_prop("name") {
        Some(n) => n,
        None => return None,
    };
    let memory = opt_gib(h.i64_prop("summary.hardware.memorySize"));
    let dram = opt_gib(memory_tier_bytes(h, "DRAM"));
    let state = h.str_prop("runtime.connectionState");
    let maint = match h.bool_prop("runtime.inMaintenanceMode") {
        Some(b) => b,
        None => false,
    };
    let n = HostNode {
        moref: h.moref.clone(),
        name,
        cluster: None,
        connection_state: state,
        in_maintenance: maint,
        cpu_cores: h.i64_prop("summary.hardware.numCpuCores"),
        memory_gib: memory,
        dram_gib: dram,
    };
    proof {
        assert(opt_int(n.memory_gib) == gib_of(i64_prop_of(h@, "summary.hardware.memorySize"@)));
        assert(opt_int(n.dram_gib) == gib_of(tier_bytes_of(h@, "DRAM"@)));
        assert(opt_str_view(n.connection_state) == str_prop_of(h@, "runtime.connectionState"@));
    }
    Some(n)
}

/// Every host's node; an error names the first host without a name.
pub fn host_nodes(hosts: &Vec<ManagedObject>) -> (r: Result<Vec<HostNode>, String>)
    ensures
        match r {
            Ok(v) => host_nodes_of(mos_view(hosts@)) == Ok::<Seq<HostView>, Seq<char>>(hosts_view(v@)),
            Err(e) => host_nodes_of(mos_view(hosts@)) == Err::<Seq<HostView>, Seq<char>>(e@),
        },
{
    let ghost hv = mos_view(hosts@);
    let mut out: Vec<HostNode> = Vec::new();
    let mut i: usize = 0;
    proof {
        assert(hv.take(0) =~= Seq::<MoView>::empty());
        assert(hosts_view(out@) =~= Seq::<HostView>::empty());
    }
    while i < hosts.len()
        invariant
            i <= hosts@.len(),
            hv == mos_view(hosts@),
            host_nodes_of(hv.take(i as int)) == Ok::<Seq<HostView>, Seq<char>>(hosts_view(out@)),
        decreases hosts.len() - i,
    {
        proof {
            assert(hv.take(i + 1).drop_last() =~= hv.take(i as int));
            assert(hv.take(i + 1).last() == hosts@[i as int]@);
        }
        match host_node(&hosts[i]) {
            Some(n) => {
                let ghost before = out@;
                out.push(n);
                proof { assert(hosts_view(out@) =~= hosts_view(before).push(n@)); }
            },
            None => {
                proof { lemma_nodes_err_stays(hv, i as int + 1); }
                return Err(String::from_str("HostSystem ").concat(hosts[i].moref.as_str()).concat(" returned no name property"));
            },
        }
        i += 1;
    }
    proof { assert(hv.take(hv.len() as int) =~= hv); }
    Ok(out)
}

pub proof fn lemma_nodes_err_stays(hs: Seq<MoView>, k: int)
    requires
        0 <= k <= hs.len(),
        host_nodes_of(hs.take(k)) is Err,
    ensures
        host_nodes_of(hs) == host_nodes_of(hs.take(k)),
    decreases hs.len() - k,
{
    if k < hs.len() {
        assert(hs.take(k + 1).drop_last() =~= hs.take(k));
        lemma_nodes_err_stays(hs, k + 1);
    } else {
        assert(hs.take(k) =~= hs);
    }
}

/// The index of the first host with this moref.
pub open spec fn host_index(hosts: Seq<HostView>, moref: Seq<char>) -> Option<int>
    decreases hosts.len(),
{
    if hosts.len() == 0 {
        None
    } else {
        match host_index(hosts.drop_last(), moref) {
            Some(i) => Some(i),
            None => if hosts.last().moref == moref {
                Some(hosts.len() - 1)
            } else {
                None
            },
        }
    }
}

pub proof fn lemma_host_index(hosts: Seq<HostView>, moref: Seq<char>)
    ensures
        match host_index(hosts, moref) {
            Some(i) => 0 <= i < hosts.len() && hosts[i].moref == moref
                && forall|j: int| 0 <= j < i ==> hosts[j].moref != moref,
            None => forall|j: int| 0 <= j < hosts.len() ==> hosts[j].moref != moref,
        },
    decreases hosts.len(),
{
    if hosts.len() > 0 {
        let d = hosts.drop_last();
        lemma_host_index(d, moref);
        assert(forall|j: int| 0 <= j < d.len() ==> d[j] == hosts[j]);
    }
}

/// A host placed in a cluster.
pub open spec fn in_cluster(h: HostView, cluster: Seq<char>) -> HostView {
    HostView {
        moref: h.moref,
        name: h.name,
        cluster: Some(cluster),
        connection_state: h.connection_state,
        in_maintenance: h.in_maintenance,
        cpu_cores: h.cpu_cores,
        memory_gib: h.memory_gib,
        dram_gib: h.dram_gib,
    }
}

/// A cluster's member morefs placed in turn: each one that names a known
/// host marks that host as in the cluster and lists it, as it then stands,
/// among the cluster's hosts. Unknown morefs are passed over.
pub open spec fn join_members(hosts: Seq<HostView>, cluster: Seq<char>, members: Seq<Seq<char>>) -> (Seq<HostView>, Seq<HostView>)
    decreases members.len(),
{
    if members.len() == 0 {
        (hosts, Seq::empty())
    } else {
        let (hs, got) = join_members(hosts, cluster, members.drop_last());
        match host_index(hs, members.last()) {
            Some(i) => (hs.update(i, in_cluster(hs[i], cluster)), got.push(in_cluster(hs[i], cluster))),
            None => (hs, got),
        }
    }
}

/// The morefs a cluster's `host` property lists, empty ones dropped.
pub open spec fn member_morefs(c: MoView) -> Seq<Seq<char>> {
    nonempty_texts(array_prop_of(c, "host"@))
}

/// Clusters in order: each needs a name, and claims its member hosts.
pub open spec fn join_clusters(hosts: Seq<HostView>, cs: Seq<MoView>) -> Result<
    (Seq<HostView>, Seq<(Seq<char>, Seq<HostView>)>),
    Seq<char>,
>
    decreases cs.len(),
{
    if cs.len() == 0 {
        Ok((hosts, Seq::empty()))
    } else {
        match join_clusters(hosts, cs.drop_last()) {
            Err(e) => Err(e),
            Ok((hs, done)) => match str_prop_of(cs.last(), "name"@) {
                None => Err("ClusterComputeResource "@ + cs.last().moref + " returned no name"@),
                Some(n) => {
                    let (hs2, got) = join_members(hs, n, member_morefs(cs.last()));
                    Ok((hs2, done.push((n, got))))
                },
            },
        }
    }
}

/// The hosts that belong to no cluster.
pub open spec fn standalone_of(hosts: Seq<HostView>) -> Seq<HostView>
    decreases hosts.len(),
{
    if hosts.len() == 0 {
        Seq::empty()
    } else if hosts.last().cluster is None {
        standalone_of(hosts.drop_last()).push(hosts.last())
    } else {
        standalone_of(hosts.drop_last())
    }
}

/// Place one cluster's members, updating `hosts` and returning the
/// cluster's host list.
pub fn join_cluster(hosts: &mut Vec<HostNode>, cluster: &String, members: &Vec<String>) -> (got: Vec<HostNode>)
    ensures
        (hosts_view(final(hosts)@), hosts_view(got@)) == join_members(hosts_view(old(hosts)@), cluster@, members@.map_values(|m: String| m@)),
{
    let ghost start = hosts_view(hosts@);
    let ghost mv = members@.map_values(|m: String| m@);
    let mut got: Vec<HostNode> = Vec::new();
    let mut i: usize = 0;
    proof {
        assert(mv.take(0) =~= Seq::<Seq<char>>::empty());
        assert(hosts_view(got@) =~= Seq::<HostView>::empty());
    }
    while i < members.len()
        invariant
            i <= members@.len(),
            mv == members@.map_values(|m: String| m@),
            (hosts_view(hosts@), hosts_view(got@)) == join_members(start, cluster@, mv.take(i as int)),
        decreases members.len() - i,
    {
        proof {
            assert(mv.take(i + 1).drop_last() =~= mv.take(i as int));
            assert(mv.take(i + 1).last() == members@[i as int]@);
            lemma_host_index(hosts_view(hosts@), members@[i as int]@);
        }
        let m = &members[i];
        let mut k: usize = 0;
        while k < hosts.len()
            invariant
                k <= hosts@.len(),
                forall|j: int| 0 <= j < k ==> hosts@[j].moref@ != m@,
            ensures
                k <= hosts@.len(),
                forall|j: int| 0 <= j < k ==> hosts@[j].moref@ != m@,
                k < hosts@.len() ==> hosts@[k as int].moref@ == m@,
            decreases hosts.len() - k,
        {
            if str_eq(hosts[k].moref.as_str(), m.as_str()) {
                break;
            }
            k += 1;
        }
        if k < hosts.len() {
            let ghost hv = hosts_view(hosts@);
            proof {
                assert(hv[k as int].moref == members@[i as int]@);
                assert(host_index(hv, members@[i as int]@) == Some(k as int));
            }
            let mut h = hosts[k].clone();
            h.cluster = Some(cluster.clone());
            proof { assert(h@ == in_cluster(hv[k as int], cluster@)); }
            let ghost gb = got@;
            got.push(h.clone());
            hosts.set(k, h);
            proof {
                assert(hosts_view(hosts@) =~= hv.update(k as int, in_cluster(hv[k as int], cluster@)));
                assert(hosts_view(got@) =~= hosts_view(gb).push(in_cluster(hv[k as int], cluster@)));
            }
        } else {
            proof { assert(host_index(hosts_view(hosts@), members@[i as int]@).is_none()); }
        }
        i += 1;
    }
    proof { assert(mv.take(mv.len() as int) =~= mv); }
    got
}

pub open spec fn groups_view(v: Seq<(String, Vec<HostNode>)>) -> Seq<(Seq<char>, Seq<HostView>)> {
    v.map_values(|g: (String, Vec<HostNode>)| (g.0@, hosts_view(g.1@)))
}

/// A cluster's member morefs.
pub fn members_of(c: &ManagedObject) -> (r: Vec<String>)
    ensures
        r@.map_values(|m: String| m@) == member_morefs(c@),
{
    let items = c.array_prop("host");
    let ghost nv = array_prop_of(c@, "host"@);
    let mut out: Vec<String> = Vec::new();
    let mut i: usize = 0;
    while i < items.len()
        invariant
            i <= items@.len(),
            items@.len() == nv.len(),
            nv == array_prop_of(c@, "host"@),
            forall|k: int| 0 <= k < nv.len() ==> (#[trigger] items@[k])@ == nv[k],
            out@.map_values(|m: String| m@) =~= nonempty_texts(nv.take(i as int)),
        decreases items.len() - i,
    {
        proof { assert(nv.take(i + 1).drop_last() =~= nv.take(i as int)); }
        let t = items[i].text.clone();
        if crate::text::chars_of(t.as_str()).len() > 0 {
            let ghost before = out@;
            out.push(t);
            proof { assert(out@.map_values(|m: String| m@) =~= before.map_values(|m: String| m@).push(t@)); }
        }
        i += 1;
    }
    proof { assert(nv.take(nv.len() as int) =~= nv); }
    out
}

pub proof fn lemma_clusters_err_stays(hosts: Seq<HostView>, cs: Seq<MoView>, k: int)
    requires
        0 <= k <= cs.len(),
        join_clusters(hosts, cs.take(k)) is Err,
    ensures
        join_clusters(hosts, cs) == join_clusters(hosts, cs.take(k)),
    decreases cs.len() - k,
{
    if k < cs.len() {
        assert(cs.take(k + 1).drop_last() =~= cs.take(k));
        lemma_clusters_err_stays(hosts, cs, k + 1);
    } else {
        assert(cs.take(k) =~= cs);
    }
}

/// Cluster membership comes from each cluster's own host list rather than
/// each host's `parent`, which points at a ComputeResource wrapper for
/// standalone hosts and needs a second lookup to name.
pub fn cluster_groups(hosts: &mut Vec<HostNode>, clusters: &Vec<ManagedObject>) -> (r: Result<Vec<(String, Vec<HostNode>)>, String>)
    ensures
        match r {
            Ok(groups) => join_clusters(hosts_view(old(hosts)@), mos_view(clusters@))
                == Ok::<(Seq<HostView>, Seq<(Seq<char>, Seq<HostView>)>), Seq<char>>((hosts_view(final(hosts)@), groups_view(groups@))),
            Err(e) => join_clusters(hosts_view(old(hosts)@), mos_view(clusters@))
                == Err::<(Seq<HostView>, Seq<(Seq<char>, Seq<HostView>)>), Seq<char>>(e@),
        },
{
    let ghost start = hosts_view(hosts@);
    let ghost cv = mos_view(clusters@);
    let mut groups: Vec<(String, Vec<HostNode>)> = Vec::new();
    let mut i: usize = 0;
    proof {
        assert(cv.take(0) =~= Seq::<MoView>::empty());
        assert(groups_view(groups@) =~= Seq::<(Seq<char>, Seq<HostView>)>::empty());
    }
    while i < clusters.len()
        invariant
            i <= clusters@.len(),
            cv == mos_view(clusters@),
            start == hosts_view(old(hosts)@),
            join_clusters(start, cv.take(i as int))
                == Ok::<(Seq<HostView>, Seq<(Seq<char>, Seq<HostView>)>), Seq<char>>((hosts_view(hosts@), groups_view(groups@))),
        decreases clusters.len() - i,
    {
        proof {
            assert(cv.take(i + 1).drop_last() =~= cv.take(i as int));
            assert(cv.take(i + 1).last() == clusters@[i as int]@);
        }
        let c = &clusters[i];
        let name = match c.str_prop("name") {
            Some(n) => n,
            None => {
                proof { lemma_clusters_err_stays(start, cv, i as int + 1); }
                return Err(String::from_str("ClusterComputeResource ").concat(c.moref.as_str()).concat(" returned no name"));
            },
        };
        let members = members_of(c);
        let got = join_cluster(hosts, &name, &members);
        let ghost gb = groups@;
        let ghost gv = hosts_view(got@);
        let ghost nm = name@;
        groups.push((name, got));
        proof { assert(groups_view(groups@) =~= groups_view(gb).push((nm, gv))); }
        i += 1;
    }
    proof { assert(cv.take(cv.len() as int) =~= cv); }
    Ok(groups)
}

/// The hosts left outside every cluster.
pub fn standalone(hosts: &Vec<HostNode>) -> (r: Vec<HostNode>)
    ensures
        hosts_view(r@) == standalone_of(hosts_view(hosts@)),
{
    let ghost hv = hosts_view(hosts@);
    let mut out: Vec<HostNode> = Vec::new();
    let mut i: usize = 0;
    proof {
        assert(hv.take(0) =~= Seq::<HostView>::empty());
        assert(hosts_view(out@) =~= Seq::<HostView>::empty());
    }
    while i < hosts.len()
        invariant
            i <= hosts@.len(),
            hv == hosts_view(hosts@),
            hosts_view(out@) =~= standalone_of(hv.take(i as int)),
        decreases hosts.len() - i,
    {
        proof {
            assert(hv.take(i + 1).drop_last() =~= hv.take(i as int));
            assert(hv.take(i + 1).last() == hosts@[i as int]@);
        }
        if hosts[i].cluster.is_none() {
            let ghost before = out@;
            out.push(hosts[i].clone());
            proof { assert(hosts_view(out@) =~= hosts_view(before).push(hosts@[i as int]@)); }
        }
        i += 1;
    }
    proof { assert(hv.take(hv.len() as int) =~= hv); }
    out
}

pub struct DatastoreNode {
    pub moref: String,
    pub name: String,
    /// `VMFS`, `NFS`, `vsan`, ...
    pub kind: Option<String>,
    pub capacity_gib: Option<i128>,
    pub free_gib: Option<i128>,
    pub vm_count: usize,
    /// Morefs of the hosts that have this datastore mounted.
    pub mounted_by: Vec<String>,
    pub accessible: Option<bool>,
}

pub struct DatastoreView {
    pub moref: Seq<char>,
    pub name: Seq<char>,
    pub kind: Option<Seq<char>>,
    pub capacity_gib: Option<int>,
    pub free_gib: Option<int>,
    pub vm_count: nat,
    pub mounted_by: Seq<Seq<char>>,
    pub accessible: Option<bool>,
}

impl View for DatastoreNode {
    type V = DatastoreView;

    open spec fn view(&self) -> DatastoreView {
        DatastoreView {
            moref: self.moref@,
            name: self.name@,
            kind: opt_str_view(self.kind),
            capacity_gib: opt_int(self.capacity_gib),
            free_gib: opt_int(self.free_gib),
            vm_count: self.vm_count as nat,
            mounted_by: self.mounted_by@.map_values(|m: String| m@),
            accessible: self.accessible,
        }
    }
}

pub open spec fn datastores_view(v: Seq<DatastoreNode>) -> Seq<DatastoreView> {
    v.map_values(|d: DatastoreNode| d@)
}

/// The host morefs of a datastore's mounts: each `DatastoreHostMount`'s
/// non-empty `key`.
pub open spec fn mount_keys(ns: Seq<XNode>) -> Seq<Seq<char>>
    decreases ns.len(),
{
    if ns.len() == 0 {
        Seq::empty()
    } else {
        match text_at_path(ns.last(), "key"@) {
            Some(k) => if k.len() > 0 {
                mount_keys(ns.drop_last()).push(k)
            } else {
                mount_keys(ns.drop_last())
            },
            None => mount_keys(ns.drop_last()),
        }
    }
}

/// The node for a `Datastore`; `None` when it has no name.
pub open spec fn datastore_node_of(d: MoView) -> Option<DatastoreView> {
    match str_prop_of(d, "name"@) {
        None => None,
        Some(n) => Some(DatastoreView {
            moref: d.moref,
            name: n,
            kind: str_prop_of(d, "summary.type"@),
            capacity_gib: gib_of(i64_prop_of(d, "summary.capacity"@)),
            free_gib: gib_of(i64_prop_of(d, "summary.freeSpace"@)),
            vm_count: array_prop_of(d, "vm"@).len(),
            mounted_by: mount_keys(array_prop_of(d, "host"@)),
            accessible: bool_prop_of(d, "summary.accessible"@),
        }),
    }
}

pub open spec fn datastore_nodes_of(ds: Seq<MoView>) -> Result<Seq<DatastoreView>, Seq<char>>
    decreases ds.len(),
{
    if ds.len() == 0 {
        Ok(Seq::empty())
    } else {
        match datastore_nodes_of(ds.drop_last()) {
            Err(e) => Err(e),
            Ok(v) => match datastore_node_of(ds.last()) {
                None => Err(no_name_error("Datastore "@, ds.last().moref)),
                Some(n) => Ok(v.push(n)),
            },
        }
    }
}

fn mounts_of(d: &ManagedObject) -> (r: Vec<String>)
    ensures
        r@.map_values(|m: String| m@) == mount_keys(array_prop_of(d@, "host"@)),
{
    let items = d.array_prop("host");
    let ghost nv = array_prop_of(d@, "host"@);
    let mut out: Vec<String> = Vec::new();
    let mut i: usize = 0;
    while i < items.len()
        invariant
            i <= items@.len(),
            items@.len() == nv.len(),
            nv == array_prop_of(d@, "host"@),
            forall|k: int| 0 <= k < nv.len() ==> (#[trigger] items@[k])@ == nv[k],
            out@.map_values(|m: String| m@) =~= mount_keys(nv.take(i as int)),
        decreases items.len() - i,
    {
        proof { assert(nv.take(i + 1).drop_last() =~= nv.take(i as int)); }
        match items[i].text_at("key") {
            Some(k) => {
                if crate::text::chars_of(k.as_str()).len() > 0 {
                    let ghost before = out@;
                    out.push(k);
                    proof { assert(out@.map_values(|m: String| m@) =~= before.map_values(|m: String| m@).push(k@)); }
                }
            },
            None => {},
        }
        i += 1;
    }
    proof { assert(nv.take(nv.len() as int) =~= nv); }
    out
}

/// The node for one datastore.
pub fn datastore_node(d: &ManagedObject) -> (r: Option<DatastoreNode>)
    ensures
        match r {
            Some(n) => datastore_node_of(d@) == Some(n@),
            None => datastore_node_of(d@).is_none(),
        },
{
    let name = match d.str_prop("name") {
        Some(n) => n,
        None => return None,
    };
    let kind = d.str_prop("summary.type");
    let capacity = opt_gib(d.i64_prop("summary.capacity"));
    let free = opt_gib(d.i64_prop("summary.freeSpace"));
    let vm_count = d.array_prop("vm").len();
    let n = DatastoreNode {
        moref: d.moref.clone(),
        name,
        kind,
        capacity_gib: capacity,
        free_gib: free,
        vm_count,
        mounted_by: mounts_of(d),
        accessible: d.bool_prop("summary.accessible"),
    };
    proof {
        assert(opt_int(n.capacity_gib) == gib_of(i64_prop_of(d@, "summary.capacity"@)));
        assert(opt_int(n.free_gib) == gib_of(i64_prop_of(d@, "summary.freeSpace"@)));
        assert(opt_str_view(n.kind) == str_prop_of(d@, "summary.type"@));
    }
    Some(n)
}

pub proof fn lemma_datastores_err_stays(ds: Seq<MoView>, k: int)
    requires
        0 <= k <= ds.len(),
        datastore_nodes_of(ds.take(k)) is Err,
    ensures
        datastore_nodes_of(ds) == datastore_nodes_of(ds.take(k)),
    decreases ds.len() - k,
{
    if k < ds.len() {
        assert(ds.take(k + 1).drop_last() =~= ds.take(k));
        lemma_datastores_err_stays(ds, k + 1);
    } else {
        assert(ds.take(k) =~= ds);
    }
}

/// Every datastore's node, in the order given.
pub fn datastore_nodes(datastores: &Vec<ManagedObject>) -> (r: Result<Vec<DatastoreNode>, String>)
    ensures
        match r {
            Ok(v) => datastore_nodes_of(mos_view(datastores@)) == Ok::<Seq<DatastoreView>, Seq<char>>(datastores_view(v@)),
            Err(e) => datastore_nodes_of(mos_view(datastores@)) == Err::<Seq<DatastoreView>, Seq<char>>(e@),
        },
{
    let ghost dv = mos_view(datastores@);
    let mut out: Vec<DatastoreNode> = Vec::new();
    let mut i: usize = 0;
    proof {
        assert(dv.take(0) =~= Seq::<MoView>::empty());
        assert(datastores_view(out@) =~= Seq::<DatastoreView>::empty());
    }
    while i < datastores.len()
        invariant
            i <= datastores@.len(),
            dv == mos_view(datastores@),
            datastore_nodes_of(dv.take(i as int)) == Ok::<Seq<DatastoreView>, Seq<char>>(datastores_view(out@)),
        decreases datastores.len() - i,
    {
        proof {
            assert(dv.take(i + 1).drop_last() =~= dv.take(i as int));
            assert(dv.take(i + 1).last() == datastores@[i as int]@);
        }
        match datastore_node(&datastores[i]) {
            Some(n) => {
                let ghost before = out@;
                let ghost nv = n@;
                out.push(n);
                proof { assert(datastores_view(out@) =~= datastores_view(before).push(nv)); }
            },
            None => {
                proof { lemma_datastores_err_stays(dv, i as int + 1); }
                return Err(String::from_str("Datastore ").concat(datastores[i].moref.as_str()).concat(" returned no name property"));
            },
        }
        i += 1;
    }
    proof { assert(dv.take(dv.len() as int) =~= dv); }
    Ok(out)
}

/// `x` placed into `s` after every datastore whose name sorts before or
/// equal to its own, counting from the back.
pub open spec fn insert_by_name(s: Seq<DatastoreView>, x: DatastoreView) -> Seq<DatastoreView>
    decreases s.len(),
{
    if s.len() == 0 {
        seq![x]
    } else if lex_le(s.last().name, x.name) {
        s.push(x)
    } else {
        insert_by_name(s.drop_last(), x).push(s.last())
    }
}

/// The datastores in name order; those with equal names keep their order.
pub open spec fn sorted_by_name(s: Seq<DatastoreView>) -> Seq<DatastoreView>
    decreases s.len(),
{
    if s.len() == 0 {
        Seq::empty()
    } else {
        insert_by_name(sorted_by_name(s.drop_last()), s.last())
    }
}

proof fn lemma_insert_at(s: Seq<DatastoreView>, x: DatastoreView, j: int)
    requires
        0 <= j <= s.len(),
        forall|k: int| j <= k < s.len() ==> !lex_le(#[trigger] s[k].name, x.name),
        j == 0 || lex_le(s[j - 1].name, x.name),
    ensures
        insert_by_name(s, x) == s.insert(j, x),
    decreases s.len(),
{
    if s.len() == j {
        if j == 0 {
            assert(s.insert(j, x) =~= seq![x]);
        } else {
            assert(s.insert(j, x) =~= s.push(x));
        }
    } else {
        let d = s.drop_last();
        assert(forall|k: int| 0 <= k < d.len() ==> d[k] == s[k]);
        lemma_insert_at(d, x, j);
        assert(!lex_le(s[s.len() - 1].name, x.name));
        assert(s.insert(j, x) =~= d.insert(j, x).push(s.last()));
    }
}

/// Each datastore's name sorts before or equal to every later one's.
pub open spec fn names_sorted(s: Seq<DatastoreView>) -> bool {
    forall|i: int, j: int| 0 <= i < j < s.len() ==> lex_le(#[trigger] s[i].name, #[trigger] s[j].name)
}

proof fn lemma_insert_bounded(d: Seq<DatastoreView>, x: DatastoreView, b: Seq<char>)
    requires
        forall|k: int| 0 <= k < d.len() ==> lex_le(#[trigger] d[k].name, b),
        lex_le(x.name, b),
    ensures
        forall|k: int| 0 <= k < insert_by_name(d, x).len() ==> lex_le(#[trigger] insert_by_name(d, x)[k].name, b),
    decreases d.len(),
{
    if d.len() > 0 && !lex_le(d.last().name, x.name) {
        let e = d.drop_last();
        assert(forall|k: int| 0 <= k < e.len() ==> e[k] == d[k]);
        lemma_insert_bounded(e, x, b);
        let r = insert_by_name(e, x);
        assert(insert_by_name(d, x) == r.push(d.last()));
        assert forall|k: int| 0 <= k < insert_by_name(d, x).len() implies lex_le(#[trigger] insert_by_name(d, x)[k].name, b) by {
            if k < r.len() {
                assert(insert_by_name(d, x)[k] == r[k]);
            } else {
                assert(insert_by_name(d, x)[k] == d[d.len() - 1]);
            }
        }
    }
}

proof fn lemma_insert_sorted(s: Seq<DatastoreView>, x: DatastoreView)
    requires
        names_sorted(s),
    ensures
        names_sorted(insert_by_name(s, x)),
        insert_by_name(s, x).to_multiset() == s.to_multiset().insert(x),
    decreases s.len(),
{
    broadcast use vstd::seq_lib::group_to_multiset_ensures;
    if s.len() == 0 {
        assert(seq![x] =~= Seq::<DatastoreView>::empty().push(x));
        assert(s =~= Seq::<DatastoreView>::empty());
    } else if lex_le(s.last().name, x.name) {
        let r = s.push(x);
        assert forall|i: int, j: int| 0 <= i < j < r.len() implies lex_le(#[trigger] r[i].name, #[trigger] r[j].name) by {
            if j == s.len() {
                if i < s.len() - 1 {
                    lemma_lex_le_trans(s[i].name, s[s.len() - 1].name, x.name);
                }
            }
        }
    } else {
        let d = s.drop_last();
        assert(forall|k: int| 0 <= k < d.len() ==> d[k] == s[k]);
        assert(names_sorted(d));
        lemma_insert_sorted(d, x);
        let r = insert_by_name(d, x);
        let last = s.last();
        lemma_lex_le_total(last.name, x.name);
        assert(forall|k: int| 0 <= k < d.len() ==> lex_le(#[trigger] d[k].name, last.name));
        lemma_insert_bounded(d, x, last.name);
        let out = r.push(last);
        assert forall|i: int, j: int| 0 <= i < j < out.len() implies lex_le(#[trigger] out[i].name, #[trigger] out[j].name) by {
            if j == r.len() {
                assert(out[i] == r[i]);
            } else {
                assert(out[i] == r[i] && out[j] == r[j]);
            }
        }
        assert(s =~= d.push(last));
        assert(d.push(last).to_multiset() =~= d.to_multiset().insert(last));
        assert(out.to_multiset() =~= r.to_multiset().insert(last));
    }
}

/// Sorting datastores by name puts them in name order and neither drops
/// nor adds one.
pub proof fn lemma_sorted_by_name(s: Seq<DatastoreView>)
    ensures
        names_sorted(sorted_by_name(s)),
        sorted_by_name(s).to_multiset() == s.to_multiset(),
    decreases s.len(),
{
    broadcast use vstd::seq_lib::group_to_multiset_ensures;
    if s.len() == 0 {
        assert(sorted_by_name(s).to_multiset() =~= s.to_multiset());
    } else {
        lemma_sorted_by_name(s.drop_last());
        lemma_insert_sorted(sorted_by_name(s.drop_last()), s.last());
        assert(s =~= s.drop_last().push(s.last()));
    }
}

/// Sort datastores by name, keeping the order of equal names.
pub fn sort_by_name(v: Vec<DatastoreNode>) -> (r: Vec<DatastoreNode>)
    ensures
        datastores_view(r@) == sorted_by_name(datastores_view(v@)),
{
    let ghost orig = datastores_view(v@);
    let mut rest = v;
    let mut out: Vec<DatastoreNode> = Vec::new();
    let ghost mut taken: int = 0;
    proof {
        assert(orig.skip(0) =~= orig);
        assert(orig.take(0) =~= Seq::<DatastoreView>::empty());
        assert(datastores_view(out@) =~= Seq::<DatastoreView>::empty());
    }
    while rest.len() > 0
        invariant
            0 <= taken <= orig.len(),
            datastores_view(rest@) == orig.skip(taken),
            datastores_view(out@) == sorted_by_name(orig.take(taken)),
        decreases rest.len(),
    {
        let ghost rb = rest@;
        let x = rest.remove(0);
        proof {
            assert(datastores_view(rest@) =~= datastores_view(rb).drop_first());
            assert(x == rb[0]);
            assert(datastores_view(rb)[0] == rb[0]@);
            assert(orig.skip(taken)[0] == orig[taken]);
            assert(x@ == orig[taken]);
            assert(orig.take(taken + 1).drop_last() =~= orig.take(taken));
            assert(orig.skip(taken).drop_first() =~= orig.skip(taken + 1));
        }
        let mut j: usize = out.len();
        while j > 0 && !str_le(out[j - 1].name.as_str(), x.name.as_str())
            invariant
                j <= out@.len(),
                forall|k: int| j <= k < out@.len() ==> !lex_le(#[trigger] out@[k].name@, x.name@),
            decreases j,
        {
            j -= 1;
        }
        let ghost ov = datastores_view(out@);
        proof {
            assert(forall|k: int| 0 <= k < ov.len() ==> #[trigger] ov[k] == out@[k]@);
            lemma_insert_at(ov, x@, j as int);
        }
        let ghost xv = x@;
        out.insert(j, x);
        proof {
            assert(datastores_view(out@) =~= ov.insert(j as int, xv));
            taken = taken + 1;
        }
    }
    proof {
        assert(orig.skip(taken).len() == 0);
        assert(orig.take(taken) =~= orig);
    }
    out
}

/// A size well inside `i128`, as every size read from an `i64` byte count is.
pub open spec fn size_ok(x: Option<int>) -> bool {
    match x {
        Some(v) => -0x1_0000_0000_0000_0000_0000 < v < 0x1_0000_0000_0000_0000_0000,
        None => true,
    }
}

/// Used space: capacity less free, when both are known.
pub open spec fn used_gib_of(d: DatastoreView) -> Option<int> {
    match (d.capacity_gib, d.free_gib) {
        (Some(c), Some(f)) => Some(c - f),
        _ => None,
    }
}

/// Used space as a percentage of capacity to one decimal place (in
/// hundredths, so always a multiple of ten); none without a positive
/// capacity.
pub open spec fn used_percent_of(d: DatastoreView) -> Option<int> {
    match (d.capacity_gib, used_gib_of(d)) {
        (Some(c), Some(u)) => if c > 0 {
            Some(div_round(u * 1000, c) * 10)
        } else {
            None
        },
        _ => None,
    }
}

impl DatastoreNode {
    pub fn used_gib(&self) -> (r: Option<i128>)
        requires
            size_ok(self@.capacity_gib),
            size_ok(self@.free_gib),
        ensures
            opt_int(r) == used_gib_of(self@),
    {
        match (self.capacity_gib, self.free_gib) {
            (Some(c), Some(f)) => Some(c - f),
            _ => None,
        }
    }

    pub fn used_percent(&self) -> (r: Option<i128>)
        requires
            size_ok(self@.capacity_gib),
            size_ok(self@.free_gib),
        ensures
            opt_int(r) == used_percent_of(self@),
    {
        match (self.capacity_gib, self.used_gib()) {
            (Some(c), Some(u)) => if c > 0 {
                proof {
                    assert(-0x1_0000_0000_0000_0000_0000 * 2 < u < 0x1_0000_0000_0000_0000_0000 * 2);
                }
                let p = div_round_wide(u * 1000, c);
                Some(p * 10)
            } else {
                None
            },
            _ => None,
        }
    }
}

pub struct ServerTopology {
    /// The vCenter these objects came from: RVTools' `VI SDK Server`.
    pub server: String,
    pub datacenters: Vec<String>,
    /// Cluster name and hosts, in the order vCenter returned them.
    pub clusters: Vec<(String, Vec<HostNode>)>,
    /// Hosts that belong to no cluster.
    pub standalone_hosts: Vec<HostNode>,
    pub datastores: Vec<DatastoreNode>,
}

pub struct ServerView {
    pub server: Seq<char>,
    pub datacenters: Seq<Seq<char>>,
    pub clusters: Seq<(Seq<char>, Seq<HostView>)>,
    pub standalone_hosts: Seq<HostView>,
    pub datastores: Seq<DatastoreView>,
}

impl View for ServerTopology {
    type V = ServerView;

    open spec fn view(&self) -> ServerView {
        ServerView {
            server: self.server@,
            datacenters: self.datacenters@.map_values(|d: String| d@),
            clusters: groups_view(self.clusters@),
            standalone_hosts: hosts_view(self.standalone_hosts@),
            datastores: datastores_view(self.datastores@),
        }
    }
}

/// Every cluster's hosts in cluster order.
pub open spec fn clustered_hosts(groups: Seq<(Seq<char>, Seq<HostView>)>) -> Seq<HostView>
    decreases groups.len(),
{
    if groups.len() == 0 {
        Seq::empty()
    } else {
        clustered_hosts(groups.drop_last()) + groups.last().1
    }
}

/// The clustered hosts, then the standalone ones.
pub open spec fn all_hosts_of(t: ServerView) -> Seq<HostView> {
    clustered_hosts(t.clusters) + t.standalone_hosts
}

/// The names of the objects that report one, in order.
pub open spec fn names_of(ms: Seq<MoView>) -> Seq<Seq<char>>
    decreases ms.len(),
{
    if ms.len() == 0 {
        Seq::empty()
    } else {
        match str_prop_of(ms.last(), "name"@) {
            Some(n) => names_of(ms.drop_last()).push(n),
            None => names_of(ms.drop_last()),
        }
    }
}

/// One vCenter's topology from its datacenters, hosts, clusters and
/// datastores. Hosts are read first, then clusters, then datastores; the
/// first object without a name is the error.
pub open spec fn topology_of(
    server: Seq<char>,
    datacenters: Seq<MoView>,
    hosts: Seq<MoView>,
    clusters: Seq<MoView>,
    datastores: Seq<MoView>,
) -> Result<ServerView, Seq<char>> {
    match host_nodes_of(hosts) {
        Err(e) => Err(e),
        Ok(hs) => match join_clusters(hs, clusters) {
            Err(e) => Err(e),
            Ok((hs2, groups)) => match datastore_nodes_of(datastores) {
                Err(e) => Err(e),
                Ok(ds) => Ok(ServerView {
                    server,
                    datacenters: names_of(datacenters),
                    clusters: groups,
                    standalone_hosts: standalone_of(hs2),
                    datastores: sorted_by_name(ds),
                }),
            },
        },
    }
}

/// The names of the datacenters.
pub fn datacenter_names(datacenters: &Vec<ManagedObject>) -> (r: Vec<String>)
    ensures
        r@.map_values(|d: String| d@) == names_of(mos_view(datacenters@)),
{
    let ghost dv = mos_view(datacenters@);
    let mut out: Vec<String> = Vec::new();
    let mut i: usize = 0;
    proof { assert(dv.take(0) =~= Seq::<MoView>::empty()); }
    while i < datacenters.len()
        invariant
            i <= datacenters@.len(),
            dv == mos_view(datacenters@),
            out@.map_values(|d: String| d@) =~= names_of(dv.take(i as int)),
        decreases datacenters.len() - i,
    {
        proof {
            assert(dv.take(i + 1).drop_last() =~= dv.take(i as int));
            assert(dv.take(i + 1).last() == datacenters@[i as int]@);
        }
        match datacenters[i].str_prop("name") {
            Some(n) => {
                let ghost before = out@;
                out.push(n);
                proof { assert(out@.map_values(|d: String| d@) =~= before.map_values(|d: String| d@).push(n@)); }
            },
            None => {},
        }
        i += 1;
    }
    proof { assert(dv.take(dv.len() as int) =~= dv); }
    out
}

impl ServerTopology {
    /// One vCenter's topology from the objects it returned.
    pub fn from_objects(
        server: &str,
        datacenters: &Vec<ManagedObject>,
        hosts: &Vec<ManagedObject>,
        clusters: &Vec<ManagedObject>,
        datastores: &Vec<ManagedObject>,
    ) -> (r: Result<ServerTopology, String>)
        ensures
            match r {
                Ok(t) => topology_of(server@, mos_view(datacenters@), mos_view(hosts@), mos_view(clusters@), mos_view(datastores@))
                    == Ok::<ServerView, Seq<char>>(t@),
                Err(e) => topology_of(server@, mos_view(datacenters@), mos_view(hosts@), mos_view(clusters@), mos_view(datastores@))
                    == Err::<ServerView, Seq<char>>(e@),
            },
    {
        let dcs = datacenter_names(datacenters);
        let mut nodes = match host_nodes(hosts) {
            Ok(v) => v,
            Err(e) => return Err(e),
        };
        let groups = match cluster_groups(&mut nodes, clusters) {
            Ok(g) => g,
            Err(e) => return Err(e),
        };
        let alone = standalone(&nodes);
        let ds = match datastore_nodes(datastores) {
            Ok(v) => v,
            Err(e) => return Err(e),
        };
        let sorted = sort_by_name(ds);
        let t = ServerTopology {
            server: String::from_str(server),
            datacenters: dcs,
            clusters: groups,
            standalone_hosts: alone,
            datastores: sorted,
        };
        Ok(t)
    }

    /// Every host: clustered ones in cluster order, then standalone ones.
    pub fn all_hosts(&self) -> (r: Vec<&HostNode>)
        ensures
            r@.map_values(|h: &HostNode| h@) == all_hosts_of(self@),
    {
        let ghost gv = groups_view(self.clusters@);
        let mut out: Vec<&HostNode> = Vec::new();
        let mut i: usize = 0;
        proof { assert(gv.take(0) =~= Seq::<(Seq<char>, Seq<HostView>)>::empty()); }
        while i < self.clusters.len()
            invariant
                i <= self.clusters@.len(),
                gv == groups_view(self.clusters@),
                out@.map_values(|h: &HostNode| h@) =~= clustered_hosts(gv.take(i as int)),
            decreases self.clusters.len() - i,
        {
            proof {
                assert(gv.take(i + 1).drop_last() =~= gv.take(i as int));
                assert(gv.take(i + 1).last() == gv[i as int]);
            }
            let hosts = &self.clusters[i].1;
            let ghost before = out@.map_values(|h: &HostNode| h@);
            let mut k: usize = 0;
            while k < hosts.len()
                invariant
                    k <= hosts@.len(),
                    out@.map_values(|h: &HostNode| h@) =~= before + hosts_view(hosts@).take(k as int),
                decreases hosts.len() - k,
            {
                let ghost ob = out@;
                out.push(&hosts[k]);
                proof {
                    assert(out@.map_values(|h: &HostNode| h@) =~= ob.map_values(|h: &HostNode| h@).push(hosts@[k as int]@));
                    assert(hosts_view(hosts@).take(k + 1) =~= hosts_view(hosts@).take(k as int).push(hosts@[k as int]@));
                }
                k += 1;
            }
            proof { assert(hosts_view(hosts@).take(hosts@.len() as int) =~= hosts_view(hosts@)); }
            i += 1;
        }
        proof { assert(gv.take(gv.len() as int) =~= gv); }
        let ghost before = out@.map_values(|h: &HostNode| h@);
        let mut k: usize = 0;
        while k < self.standalone_hosts.len()
            invariant
                k <= self.standalone_hosts@.len(),
                out@.map_values(|h: &HostNode| h@) =~= before + hosts_view(self.standalone_hosts@).take(k as int),
            decreases self.standalone_hosts.len() - k,
        {
            let ghost ob = out@;
            out.push(&self.standalone_hosts[k]);
            proof {
                assert(out@.map_values(|h: &HostNode| h@) =~= ob.map_values(|h: &HostNode| h@).push(self.standalone_hosts@[k as int]@));
                assert(hosts_view(self.standalone_hosts@).take(k + 1) =~= hosts_view(self.standalone_hosts@).take(k as int).push(
                    self.standalone_hosts@[k as int]@,
                ));
            }
            k += 1;
        }
        proof { assert(hosts_view(self.standalone_hosts@).take(self.standalone_hosts@.len() as int) =~= hosts_view(self.standalone_hosts@)); }
        out
    }
}

/// Topology across every configured vCenter.
pub struct Topology {
    pub servers: Vec<ServerTopology>,
    pub warnings: Vec<String>,
}

impl Topology {
    pub fn new() -> (t: Self)
        ensures
            t.servers@.len() == 0,
            t.warnings@.len() == 0,
    {
        Topology { servers: Vec::new(), warnings: Vec::new() }
    }

    /// Record what one vCenter gave: its topology, or a warning naming it.
    /// One unreachable server yields a warning, not an empty report.
    pub fn record(&mut self, label: &str, outcome: Result<ServerTopology, String>)
        ensures
            match outcome {
                Ok(t) => final(self).servers@ == old(self).servers@.push(t) && final(self).warnings@ == old(self).warnings@,
                Err(e) => final(self).servers@ == old(self).servers@
                    && final(self).warnings@.map_values(|w: String| w@)
                        == old(self).warnings@.map_values(|w: String| w@).push(label@ + ": "@ + e@),
            },
    {
        match outcome {
            Ok(t) => self.servers.push(t),
            Err(e) => {
                let ghost before = self.warnings@;
                let w = String::from_str(label).concat(": ").concat(e.as_str());
                self.warnings.push(w);
                proof {
                    assert(self.warnings@.map_values(|w: String| w@) =~= before.map_values(|w: String| w@).push(label@ + ": "@ + e@));
                }
            },
        }
    }
}

proof fn lemma_join_members_marks(hosts: Seq<HostView>, cluster: Seq<char>, members: Seq<Seq<char>>)
    ensures
        join_members(hosts, cluster, members).0.len() == hosts.len(),
        forall|k: int| 0 <= k < hosts.len() ==> #[trigger] join_members(hosts, cluster, members).0[k].moref == hosts[k].moref,
        forall|k: int| 0 <= k < join_members(hosts, cluster, members).1.len()
            ==> #[trigger] join_members(hosts, cluster, members).1[k].cluster == Some(cluster),
    decreases members.len(),
{
    if members.len() > 0 {
        lemma_join_members_marks(hosts, cluster, members.drop_last());
        let (hs, got) = join_members(hosts, cluster, members.drop_last());
        lemma_host_index(hs, members.last());
    }
}

/// Every host a cluster lists is marked as in that cluster, and the hosts
/// keep their number and morefs.
proof fn lemma_join_clusters_marks(hosts: Seq<HostView>, cs: Seq<MoView>)
    ensures
        match join_clusters(hosts, cs) {
            Ok((hs, groups)) => {
                &&& hs.len() == hosts.len()
                &&& forall|k: int| 0 <= k < hosts.len() ==> #[trigger] hs[k].moref == hosts[k].moref
                &&& forall|g: int, k: int| 0 <= g < groups.len() && 0 <= k < groups[g].1.len()
                    ==> #[trigger] groups[g].1[k].cluster == Some(groups[g].0)
            },
            Err(_) => true,
        },
    decreases cs.len(),
{
    if cs.len() > 0 {
        lemma_join_clusters_marks(hosts, cs.drop_last());
        match join_clusters(hosts, cs.drop_last()) {
            Ok((hs, done)) => match str_prop_of(cs.last(), "name"@) {
                Some(n) => {
                    lemma_join_members_marks(hs, n, member_morefs(cs.last()));
                    let (hs2, got) = join_members(hs, n, member_morefs(cs.last()));
                    let groups = done.push((n, got));
                    assert forall|g: int, k: int| 0 <= g < groups.len() && 0 <= k < groups[g].1.len()
                        implies #[trigger] groups[g].1[k].cluster == Some(groups[g].0) by {
                        if g < done.len() {
                            assert(groups[g] == done[g]);
                        } else {
                            assert(groups[g] == (n, got));
                        }
                    }
                },
                None => {},
            },
            Err(_) => {},
        }
    }
}

proof fn lemma_standalone_unclustered(hosts: Seq<HostView>)
    ensures
        forall|k: int| 0 <= k < standalone_of(hosts).len() ==> (#[trigger] standalone_of(hosts)[k]).cluster is None,
    decreases hosts.len(),
{
    if hosts.len() > 0 {
        lemma_standalone_unclustered(hosts.drop_last());
    }
}

/// In a topology, every host a cluster lists carries that cluster's name,
/// and every standalone host carries none.
pub proof fn lemma_cluster_membership(
    server: Seq<char>,
    datacenters: Seq<MoView>,
    hosts: Seq<MoView>,
    clusters: Seq<MoView>,
    datastores: Seq<MoView>,
)
    ensures
        match topology_of(server, datacenters, hosts, clusters, datastores) {
            Ok(t) => {
                &&& forall|g: int, k: int| 0 <= g < t.clusters.len() && 0 <= k < t.clusters[g].1.len()
                    ==> #[trigger] t.clusters[g].1[k].cluster == Some(t.clusters[g].0)
                &&& forall|k: int| 0 <= k < t.standalone_hosts.len() ==> (#[trigger] t.standalone_hosts[k]).cluster is None
                &&& names_sorted(t.datastores)
            },
            Err(_) => true,
        },
{
    match host_nodes_of(hosts) {
        Ok(hs) => {
            lemma_join_clusters_marks(hs, clusters);
            match join_clusters(hs, clusters) {
                Ok((hs2, groups)) => {
                    lemma_standalone_unclustered(hs2);
                    match datastore_nodes_of(datastores) {
                        Ok(ds) => lemma_sorted_by_name(ds),
                        Err(_) => {},
                    }
                },
                Err(_) => {},
            }
        },
        Err(_) => {},
    }
}
} // verus!
