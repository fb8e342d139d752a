//! The environment rolled up into headline numbers.
//!
//! Built on the same fetches the sheets use: topology supplies hosts,
//! clusters and datastores; the per-host VM rollup supplies VM, vCPU and
//! vRAM counts. Sizes are GiB in hundredths, as in [`super::Cell`].

use vstd::prelude::*;
use super::common::{div_round, key_index, lemma_key_index, totals_entries, HostVmTotals, TotalsView};
use super::topology::{
    all_hosts_of,
    hosts_view,
    opt_int,
    size_ok,
    used_gib_of,
    used_percent_of,
    DatastoreNode,
    DatastoreView,
    HostNode,
    HostView,
    ServerTopology,
    ServerView,
};
use crate::text::str_eq;

verus! {

pub struct StorageByType {
    pub kind: String,
    pub datastores: usize,
    pub capacity_gib: i128,
    pub used_gib: i128,
}

pub struct StorageView {
    pub kind: Seq<char>,
    pub datastores: nat,
    pub capacity_gib: int,
    pub used_gib: int,
}

impl View for StorageByType {
    type V = StorageView;

    open spec fn view(&self) -> StorageView {
        StorageView {
            kind: self.kind@,
            datastores: self.datastores as nat,
            capacity_gib: self.capacity_gib as int,
            used_gib: self.used_gib as int,
        }
    }
}

pub struct DatastoreUsage {
    pub name: String,
    pub kind: String,
    pub server: String,
    pub capacity_gib: i128,
    pub used_gib: i128,
    pub used_percent: i128,
}

pub struct UsageView {
    pub name: Seq<char>,
    pub kind: Seq<char>,
    pub server: Seq<char>,
    pub capacity_gib: int,
    pub used_gib: int,
    pub used_percent: int,
}

impl View for DatastoreUsage {
    type V = UsageView;

    open spec fn view(&self) -> UsageView {
        UsageView {
            name: self.name@,
            kind: self.kind@,
            server: self.server@,
            capacity_gib: self.capacity_gib as int,
            used_gib: self.used_gib as int,
            used_percent: self.used_percent as int,
        }
    }
}

pub struct ClusterSummary {
    pub name: String,
    pub server: String,
    pub hosts: usize,
    pub cores: i64,
    pub dram_gib: i128,
}

pub struct SummaryView {
    pub name: Seq<char>,
    pub server: Seq<char>,
    pub hosts: nat,
    pub cores: int,
    pub dram_gib: int,
}

impl View for ClusterSummary {
    type V = SummaryView;

    open spec fn view(&self) -> SummaryView {
        SummaryView {
            name: self.name@,
            server: self.server@,
            hosts: self.hosts as nat,
            cores: self.cores as int,
            dram_gib: self.dram_gib as int,
        }
    }
}

pub struct Insights {
    pub servers: Vec<String>,
    pub datacenters: usize,
    pub clusters: usize,
    pub hosts: usize,
    pub hosts_in_maintenance: usize,
    pub hosts_disconnected: usize,
    pub cores: i64,
    /// Physical DRAM, excluding any NVMe memory tier.
    pub dram_gib: i128,
    /// Memory as vCenter reports it: DRAM plus tiers where tiering is on.
    pub memory_total_gib: i128,
    pub vms_total: i64,
    pub vms_powered_on: i64,
    pub vcpus: i64,
    /// The VMs' memory in MiB, the running total behind `vram_gib`.
    pub vram_mib: i128,
    pub vram_gib: i128,
    pub datastores: usize,
    pub storage_capacity_gib: i128,
    pub storage_used_gib: i128,
    pub storage_free_gib: i128,
    /// Used storage as a percentage to one decimal place, in hundredths.
    pub storage_used_percent: i128,
    /// vCPUs committed per physical core, to two places.
    pub vcpu_core_ratio: Option<i128>,
    pub storage_by_type: Vec<StorageByType>,
    /// Fullest datastores first: the ones worth looking at.
    pub top_datastores: Vec<DatastoreUsage>,
    pub cluster_summaries: Vec<ClusterSummary>,
    pub warnings: Vec<String>,
}

pub struct InsightsView {
    pub servers: Seq<Seq<char>>,
    pub datacenters: nat,
    pub clusters: nat,
    pub hosts: nat,
    pub hosts_in_maintenance: nat,
    pub hosts_disconnected: nat,
    pub cores: int,
    pub dram_gib: int,
    pub memory_total_gib: int,
    pub vms_total: int,
    pub vms_powered_on: int,
    pub vcpus: int,
    pub vram_mib: int,
    pub vram_gib: int,
    pub datastores: nat,
    pub storage_capacity_gib: int,
    pub storage_used_gib: int,
    pub storage_free_gib: int,
    pub storage_used_percent: int,
    pub vcpu_core_ratio: Option<int>,
    pub storage_by_type: Seq<StorageView>,
    pub top_datastores: Seq<UsageView>,
    pub cluster_summaries: Seq<SummaryView>,
    pub warnings: Seq<Seq<char>>,
}

pub open spec fn strings_of(v: Seq<String>) -> Seq<Seq<char>> {
    v.map_values(|s: String| s@)
}

impl View for Insights {
    type V = InsightsView;

    open spec fn view(&self) -> InsightsView {
        InsightsView {
            servers: strings_of(self.servers@),
            datacenters: self.datacenters as nat,
            clusters: self.clusters as nat,
            hosts: self.hosts as nat,
            hosts_in_maintenance: self.hosts_in_maintenance as nat,
            hosts_disconnected: self.hosts_disconnected as nat,
            cores: self.cores as int,
            dram_gib: self.dram_gib as int,
            memory_total_gib: self.memory_total_gib as int,
            vms_total: self.vms_total as int,
            vms_powered_on: self.vms_powered_on as int,
            vcpus: self.vcpus as int,
            vram_mib: self.vram_mib as int,
            vram_gib: self.vram_gib as int,
            datastores: self.datastores as nat,
            storage_capacity_gib: self.storage_capacity_gib as int,
            storage_used_gib: self.storage_used_gib as int,
            storage_free_gib: self.storage_free_gib as int,
            storage_used_percent: self.storage_used_percent as int,
            vcpu_core_ratio: opt_int(self.vcpu_core_ratio),
            storage_by_type: self.storage_by_type@.map_values(|s: StorageByType| s@),
            top_datastores: self.top_datastores@.map_values(|u: DatastoreUsage| u@),
            cluster_summaries: self.cluster_summaries@.map_values(|c: ClusterSummary| c@),
            warnings: strings_of(self.warnings@),
        }
    }
}

pub open spec fn empty_insights() -> InsightsView {
    InsightsView {
        servers: Seq::empty(),
        datacenters: 0,
        clusters: 0,
        hosts: 0,
        hosts_in_maintenance: 0,
        hosts_disconnected: 0,
        cores: 0,
        dram_gib: 0,
        memory_total_gib: 0,
        vms_total: 0,
        vms_powered_on: 0,
        vcpus: 0,
        vram_mib: 0,
        vram_gib: 0,
        datastores: 0,
        storage_capacity_gib: 0,
        storage_used_gib: 0,
        storage_free_gib: 0,
        storage_used_percent: 0,
        vcpu_core_ratio: None,
        storage_by_type: Seq::empty(),
        top_datastores: Seq::empty(),
        cluster_summaries: Seq::empty(),
        warnings: Seq::empty(),
    }
}

impl Insights {
    pub fn new() -> (r: Self)
        ensures
            r@ == empty_insights(),
    {
        let r = Insights {
            servers: Vec::new(),
            datacenters: 0,
            clusters: 0,
            hosts: 0,
            hosts_in_maintenance: 0,
            hosts_disconnected: 0,
            cores: 0,
            dram_gib: 0,
            memory_total_gib: 0,
            vms_total: 0,
            vms_powered_on: 0,
            vcpus: 0,
            vram_mib: 0,
            vram_gib: 0,
            datastores: 0,
            storage_capacity_gib: 0,
            storage_used_gib: 0,
            storage_free_gib: 0,
            storage_used_percent: 0,
            vcpu_core_ratio: None,
            storage_by_type: Vec::new(),
            top_datastores: Vec::new(),
            cluster_summaries: Vec::new(),
            warnings: Vec::new(),
        };
        proof {
            assert(r@.servers =~= Seq::<Seq<char>>::empty());
            assert(r@.warnings =~= Seq::<Seq<char>>::empty());
            assert(r@.storage_by_type =~= Seq::<StorageView>::empty());
            assert(r@.top_datastores =~= Seq::<UsageView>::empty());
            assert(r@.cluster_summaries =~= Seq::<SummaryView>::empty());
        }
        r
    }
}

pub open spec fn or_zero(v: Option<int>) -> int {
    match v {
        Some(x) => x,
        None => 0,
    }
}

pub open spec fn cores_or_zero(v: Option<i64>) -> int {
    match v {
        Some(x) => x as int,
        None => 0,
    }
}

/// The cores of a cluster's hosts that report them.
pub open spec fn cores_sum(hs: Seq<HostView>) -> int
    decreases hs.len(),
{
    if hs.len() == 0 {
        0
    } else {
        cores_sum(hs.drop_last()) + cores_or_zero(hs.last().cpu_cores)
    }
}

/// The DRAM of a cluster's hosts that report it.
pub open spec fn dram_sum(hs: Seq<HostView>) -> int
    decreases hs.len(),
{
    if hs.len() == 0 {
        0
    } else {
        dram_sum(hs.drop_last()) + or_zero(hs.last().dram_gib)
    }
}

pub open spec fn summary_of(name: Seq<char>, hs: Seq<HostView>, server: Seq<char>) -> SummaryView {
    SummaryView { name, server, hosts: hs.len(), cores: cores_sum(hs), dram_gib: dram_sum(hs) }
}

pub open spec fn summaries_of(gs: Seq<(Seq<char>, Seq<HostView>)>, server: Seq<char>) -> Seq<SummaryView> {
    gs.map_values(|g: (Seq<char>, Seq<HostView>)| summary_of(g.0, g.1, server))
}

/// The running sums over a cluster's hosts stay within their types.
pub open spec fn summary_fits(hs: Seq<HostView>) -> bool {
    forall|k: int| 0 <= k <= hs.len() ==> i64::MIN <= #[trigger] cores_sum(hs.take(k)) <= i64::MAX
        && i128::MIN <= dram_sum(hs.take(k)) <= i128::MAX
}

/// One cluster's headline numbers.
pub fn cluster_summary(name: &String, hosts: &Vec<HostNode>, server: &str) -> (r: ClusterSummary)
    requires
        summary_fits(hosts_view(hosts@)),
    ensures
        r@ == summary_of(name@, hosts_view(hosts@), server@),
{
    let ghost hv = hosts_view(hosts@);
    let mut cores: i64 = 0;
    let mut dram: i128 = 0;
    let mut i: usize = 0;
    proof { assert(hv.take(0) =~= Seq::<HostView>::empty()); }
    while i < hosts.len()
        invariant
            i <= hosts@.len(),
            hv == hosts_view(hosts@),
            summary_fits(hv),
            cores == cores_sum(hv.take(i as int)),
            dram == dram_sum(hv.take(i as int)),
        decreases hosts.len() - i,
    {
        proof {
            assert(hv.take(i + 1).drop_last() =~= hv.take(i as int));
            assert(hv.take(i + 1).last() == hosts@[i as int]@);
            assert(i64::MIN <= cores_sum(hv.take(i + 1)) <= i64::MAX);
        }
        match hosts[i].cpu_cores {
            Some(c) => {
                cores = cores + c;
            },
            None => {},
        }
        match hosts[i].dram_gib {
            Some(d) => {
                dram = dram + d;
            },
            None => {},
        }
        i += 1;
    }
    proof { assert(hv.take(hv.len() as int) =~= hv); }
    ClusterSummary { name: name.clone(), server: String::from_str(server), hosts: hosts.len(), cores, dram_gib: dram }
}

/// A new server's name, datacenter and cluster counts, and its clusters'
/// summaries.
pub open spec fn begin_server(o: InsightsView, server: Seq<char>, t: ServerView) -> InsightsView {
    InsightsView {
        servers: o.servers.push(server),
        datacenters: o.datacenters + t.datacenters.len(),
        clusters: o.clusters + t.clusters.len(),
        cluster_summaries: o.cluster_summaries + summaries_of(t.clusters, server),
        ..o
    }
}

/// The VM rollup of a host, when it has VMs.
pub open spec fn host_totals(totals: Seq<(Seq<char>, TotalsView)>, moref: Seq<char>) -> Option<TotalsView> {
    match key_index(totals, moref) {
        Some(i) => Some(totals[i].1),
        None => None,
    }
}

/// One host counted: maintenance before connection state, DRAM falling back
/// to reported memory where the host exposes no tier detail.
pub open spec fn add_host(o: InsightsView, h: HostView, totals: Seq<(Seq<char>, TotalsView)>) -> InsightsView {
    let t = host_totals(totals, h.moref);
    InsightsView {
        hosts: o.hosts + 1,
        hosts_in_maintenance: if h.in_maintenance {
            o.hosts_in_maintenance + 1
        } else {
            o.hosts_in_maintenance
        },
        hosts_disconnected: if !h.in_maintenance && h.connection_state != Some("connected"@) {
            o.hosts_disconnected + 1
        } else {
            o.hosts_disconnected
        },
        cores: o.cores + cores_or_zero(h.cpu_cores),
        dram_gib: o.dram_gib + match h.dram_gib {
            Some(d) => d,
            None => or_zero(h.memory_gib),
        },
        memory_total_gib: o.memory_total_gib + or_zero(h.memory_gib),
        vms_total: o.vms_total + match t {
            Some(v) => v.vms_total,
            None => 0,
        },
        vms_powered_on: o.vms_powered_on + match t {
            Some(v) => v.vms_powered_on,
            None => 0,
        },
        vcpus: o.vcpus + match t {
            Some(v) => v.vcpus,
            None => 0,
        },
        vram_mib: o.vram_mib + match t {
            Some(v) => v.vram_mib,
            None => 0,
        },
        ..o
    }
}

pub open spec fn add_hosts(o: InsightsView, hs: Seq<HostView>, totals: Seq<(Seq<char>, TotalsView)>) -> InsightsView
    decreases hs.len(),
{
    if hs.len() == 0 {
        o
    } else {
        add_host(add_hosts(o, hs.drop_last(), totals), hs.last(), totals)
    }
}

proof fn lemma_datastores_keep_memory(o: InsightsView, ds: Seq<DatastoreView>, server: Seq<char>)
    ensures
        add_datastores(o, ds, server).dram_gib == o.dram_gib,
        add_datastores(o, ds, server).memory_total_gib == o.memory_total_gib,
    decreases ds.len(),
{
    if ds.len() > 0 {
        lemma_datastores_keep_memory(o, ds.drop_last(), server);
    }
}

proof fn lemma_hosts_dram_fallback(o: InsightsView, hs: Seq<HostView>, totals: Seq<(Seq<char>, TotalsView)>)
    requires
        forall|i: int| 0 <= i < hs.len() ==> (#[trigger] hs[i]).dram_gib is None,
    ensures
        add_hosts(o, hs, totals).dram_gib - o.dram_gib == add_hosts(o, hs, totals).memory_total_gib - o.memory_total_gib,
    decreases hs.len(),
{
    if hs.len() > 0 {
        assert(hs.last() == hs[hs.len() - 1]);
        assert forall|i: int| 0 <= i < hs.drop_last().len() implies (#[trigger] hs.drop_last()[i]).dram_gib is None by {
            assert(hs.drop_last()[i] == hs[i]);
        }
        lemma_hosts_dram_fallback(o, hs.drop_last(), totals);
    }
}

/// Every host is counted once; a host in maintenance is counted as such and
/// never also as disconnected, and a host counts as disconnected exactly
/// when it is out of maintenance and its connection state is not
/// `connected`.
pub proof fn lemma_host_counts(o: InsightsView, hs: Seq<HostView>, totals: Seq<(Seq<char>, TotalsView)>)
    ensures
        add_hosts(o, hs, totals).hosts == o.hosts + hs.len(),
        add_hosts(o, hs, totals).hosts_in_maintenance == o.hosts_in_maintenance + hs.filter(|h: HostView| h.in_maintenance).len(),
        add_hosts(o, hs, totals).hosts_disconnected == o.hosts_disconnected + hs.filter(
            |h: HostView| !h.in_maintenance && h.connection_state != Some("connected"@),
        ).len(),
    decreases hs.len(),
{
    reveal(Seq::filter);
    if hs.len() > 0 {
        lemma_host_counts(o, hs.drop_last(), totals);
    }
}

/// Where no host reports tier detail, DRAM is the memory the hosts report:
/// folding a vCenter in adds as much to the DRAM total as to the memory
/// total, a host without a memory figure adding nothing to either.
pub proof fn lemma_dram_falls_back_to_memory(
    o: InsightsView,
    server: Seq<char>,
    t: ServerView,
    totals: Seq<(Seq<char>, TotalsView)>,
)
    requires
        forall|i: int| 0 <= i < all_hosts_of(t).len() ==> (#[trigger] all_hosts_of(t)[i]).dram_gib is None,
    ensures
        accumulate_of(o, server, t, totals).dram_gib - o.dram_gib == accumulate_of(o, server, t, totals).memory_total_gib
            - o.memory_total_gib,
{
    let b = begin_server(o, server, t);
    lemma_hosts_dram_fallback(b, all_hosts_of(t), totals);
    lemma_datastores_keep_memory(add_hosts(b, all_hosts_of(t), totals), t.datastores, server);
}

/// A datastore's backing type, `Other` when it reports none.
pub open spec fn kind_or_other(k: Option<Seq<char>>) -> Seq<char> {
    match k {
        Some(s) => s,
        None => "Other"@,
    }
}

/// The index of the entry for this backing type.
pub open spec fn type_index(s: Seq<StorageView>, kind: Seq<char>) -> Option<int>
    decreases s.len(),
{
    if s.len() == 0 {
        None
    } else {
        match type_index(s.drop_last(), kind) {
            Some(i) => Some(i),
            None => if s.last().kind == kind {
                Some(s.len() - 1)
            } else {
                None
            },
        }
    }
}

/// A datastore's line in the fullest-first list; unknown figures count as 0.
pub open spec fn usage_of(d: DatastoreView, server: Seq<char>) -> UsageView {
    UsageView {
        name: d.name,
        kind: kind_or_other(d.kind),
        server,
        capacity_gib: or_zero(d.capacity_gib),
        used_gib: or_zero(used_gib_of(d)),
        used_percent: or_zero(used_percent_of(d)),
    }
}

/// One datastore counted into the storage totals, its type's entry, and the
/// usage list.
pub open spec fn add_datastore(o: InsightsView, d: DatastoreView, server: Seq<char>) -> InsightsView {
    let cap = or_zero(d.capacity_gib);
    let used = or_zero(used_gib_of(d));
    let kind = kind_or_other(d.kind);
    InsightsView {
        datastores: o.datastores + 1,
        storage_capacity_gib: o.storage_capacity_gib + cap,
        storage_used_gib: o.storage_used_gib + used,
        storage_free_gib: o.storage_free_gib + or_zero(d.free_gib),
        storage_by_type: match type_index(o.storage_by_type, kind) {
            Some(i) => o.storage_by_type.update(
                i,
                StorageView {
                    kind: o.storage_by_type[i].kind,
                    datastores: o.storage_by_type[i].datastores + 1,
                    capacity_gib: o.storage_by_type[i].capacity_gib + cap,
                    used_gib: o.storage_by_type[i].used_gib + used,
                },
            ),
            None => o.storage_by_type.push(StorageView { kind, datastores: 1, capacity_gib: cap, used_gib: used }),
        },
        top_datastores: o.top_datastores.push(usage_of(d, server)),
        ..o
    }
}

pub open spec fn add_datastores(o: InsightsView, ds: Seq<DatastoreView>, server: Seq<char>) -> InsightsView
    decreases ds.len(),
{
    if ds.len() == 0 {
        o
    } else {
        add_datastore(add_datastores(o, ds.drop_last(), server), ds.last(), server)
    }
}

/// One vCenter folded in: its server entry and clusters, then every host,
/// then every datastore.
pub open spec fn accumulate_of(
    o: InsightsView,
    server: Seq<char>,
    t: ServerView,
    totals: Seq<(Seq<char>, TotalsView)>,
) -> InsightsView {
    add_datastores(add_hosts(begin_server(o, server, t), all_hosts_of(t), totals), t.datastores, server)
}

pub open spec fn usize_ok(x: nat) -> bool {
    x <= usize::MAX
}

pub open spec fn i64_ok(x: int) -> bool {
    i64::MIN <= x <= i64::MAX
}

pub open spec fn i128_ok(x: int) -> bool {
    i128::MIN <= x <= i128::MAX
}

/// Every running total fits the field that holds it.
pub open spec fn tallies_fit(o: InsightsView) -> bool {
    &&& usize_ok(o.datacenters) && usize_ok(o.clusters) && usize_ok(o.hosts)
    &&& usize_ok(o.hosts_in_maintenance) && usize_ok(o.hosts_disconnected) && usize_ok(o.datastores)
    &&& i64_ok(o.cores) && i64_ok(o.vms_total) && i64_ok(o.vms_powered_on) && i64_ok(o.vcpus)
    &&& i128_ok(o.dram_gib) && i128_ok(o.memory_total_gib) && i128_ok(o.vram_mib)
    &&& i128_ok(o.storage_capacity_gib) && i128_ok(o.storage_used_gib) && i128_ok(o.storage_free_gib)
    &&& forall|i: int| 0 <= i < o.storage_by_type.len() ==> usize_ok(#[trigger] o.storage_by_type[i].datastores)
        && i128_ok(o.storage_by_type[i].capacity_gib) && i128_ok(o.storage_by_type[i].used_gib)
}

/// Folding one vCenter in keeps every running total within its field.
pub open spec fn accumulate_fits(
    o: InsightsView,
    server: Seq<char>,
    t: ServerView,
    totals: Seq<(Seq<char>, TotalsView)>,
) -> bool {
    let o0 = begin_server(o, server, t);
    let hs = all_hosts_of(t);
    let o1 = add_hosts(o0, hs, totals);
    &&& tallies_fit(o0)
    &&& forall|i: int| 0 <= i < t.clusters.len() ==> summary_fits(#[trigger] t.clusters[i].1)
    &&& forall|k: int| 0 <= k <= hs.len() ==> tallies_fit(#[trigger] add_hosts(o0, hs.take(k), totals))
    &&& forall|k: int| 0 <= k <= t.datastores.len() ==> tallies_fit(#[trigger] add_datastores(o1, t.datastores.take(k), server))
    &&& forall|i: int| 0 <= i < t.datastores.len() ==> size_ok(#[trigger] t.datastores[i].capacity_gib)
        && size_ok(t.datastores[i].free_gib)
}

fn find_totals(totals: &Vec<(String, HostVmTotals)>, moref: &str) -> (r: Option<HostVmTotals>)
    ensures
        match r {
            Some(t) => host_totals(totals_entries(totals@), moref@) == Some(t@),
            None => host_totals(totals_entries(totals@), moref@).is_none(),
        },
{
    let ghost ev = totals_entries(totals@);
    proof { lemma_key_index(ev, moref@); }
    let mut k: usize = 0;
    while k < totals.len()
        invariant
            k <= totals@.len(),
            ev == totals_entries(totals@),
            forall|j: int| 0 <= j < k ==> ev[j].0 != moref@,
        decreases totals.len() - k,
    {
        if str_eq(totals[k].0.as_str(), moref) {
            proof {
                lemma_key_index(ev, moref@);
                assert(ev[k as int].0 == moref@);
                assert(key_index(ev, moref@) == Some(k as int));
            }
            return Some(totals[k].1);
        }
        k += 1;
    }
    proof { lemma_key_index(ev, moref@); }
    None
}

fn count_host(out: &mut Insights, h: &HostNode, totals: &Vec<(String, HostVmTotals)>)
    requires
        tallies_fit(old(out)@),
        tallies_fit(add_host(old(out)@, h@, totals_entries(totals@))),
    ensures
        final(out)@ == add_host(old(out)@, h@, totals_entries(totals@)),
{
    out.hosts = out.hosts + 1;
    if h.in_maintenance {
        out.hosts_in_maintenance = out.hosts_in_maintenance + 1;
    } else {
        let connected = match &h.connection_state {
            Some(c) => str_eq(c.as_str(), "connected"),
            None => false,
        };
        if !connected {
            out.hosts_disconnected = out.hosts_disconnected + 1;
        }
    }
    match h.cpu_cores {
        Some(c) => {
            out.cores = out.cores + c;
        },
        None => {},
    }
    match h.dram_gib {
        Some(d) => {
            out.dram_gib = out.dram_gib + d;
        },
        None => match h.memory_gib {
            Some(m) => {
                out.dram_gib = out.dram_gib + m;
            },
            None => {},
        },
    }
    match h.memory_gib {
        Some(m) => {
            out.memory_total_gib = out.memory_total_gib + m;
        },
        None => {},
    }
    match find_totals(totals, h.moref.as_str()) {
        Some(t) => {
            out.vms_total = out.vms_total + t.vms_total;
            out.vms_powered_on = out.vms_powered_on + t.vms_powered_on;
            out.vcpus = out.vcpus + t.vcpus;
            out.vram_mib = out.vram_mib + t.vram_mib as i128;
        },
        None => {},
    }
}

pub proof fn lemma_type_index(s: Seq<StorageView>, kind: Seq<char>)
    ensures
        match type_index(s, kind) {
            Some(i) => 0 <= i < s.len() && s[i].kind == kind && forall|j: int| 0 <= j < i ==> s[j].kind != kind,
            None => forall|j: int| 0 <= j < s.len() ==> s[j].kind != kind,
        },
    decreases s.len(),
{
    if s.len() > 0 {
        let d = s.drop_last();
        lemma_type_index(d, kind);
        assert(forall|j: int| 0 <= j < d.len() ==> d[j] == s[j]);
    }
}

/// A datastore's line in the usage list.
pub fn usage(ds: &DatastoreNode, server: &str) -> (r: DatastoreUsage)
    requires
        size_ok(ds@.capacity_gib),
        size_ok(ds@.free_gib),
    ensures
        r@ == usage_of(ds@, server@),
{
    let kind = match &ds.kind {
        Some(k) => k.clone(),
        None => String::from_str("Other"),
    };
    let capacity = match ds.capacity_gib {
        Some(c) => c,
        None => 0,
    };
    let used = match ds.used_gib() {
        Some(u) => u,
        None => 0,
    };
    let pct = match ds.used_percent() {
        Some(p) => p,
        None => 0,
    };
    DatastoreUsage { name: ds.name.clone(), kind, server: String::from_str(server), capacity_gib: capacity, used_gib: used, used_percent: pct }
}

fn count_datastore(out: &mut Insights, ds: &DatastoreNode, server: &str)
    requires
        tallies_fit(old(out)@),
        tallies_fit(add_datastore(old(out)@, ds@, server@)),
        size_ok(ds@.capacity_gib),
        size_ok(ds@.free_gib),
    ensures
        final(out)@ == add_datastore(old(out)@, ds@, server@),
{
    let ghost o = out@;
    let capacity: i128 = match ds.capacity_gib {
        Some(c) => c,
        None => 0,
    };
    let used: i128 = match ds.used_gib() {
        Some(u) => u,
        None => 0,
    };
    let free: i128 = match ds.free_gib {
        Some(f) => f,
        None => 0,
    };
    out.datastores = out.datastores + 1;
    out.storage_capacity_gib = out.storage_capacity_gib + capacity;
    out.storage_used_gib = out.storage_used_gib + used;
    out.storage_free_gib = out.storage_free_gib + free;
    let kind = match &ds.kind {
        Some(k) => k.clone(),
        None => String::from_str("Other"),
    };
    let ghost sv = o.storage_by_type;
    proof { lemma_type_index(sv, kind@); }
    let mut k: usize = 0;
    while k < out.storage_by_type.len()
        invariant
            k <= out.storage_by_type@.len(),
            out.storage_by_type@.map_values(|s: StorageByType| s@) == sv,
            forall|j: int| 0 <= j < k ==> sv[j].kind != kind@,
        ensures
            k <= out.storage_by_type@.len(),
            out.storage_by_type@.map_values(|s: StorageByType| s@) == sv,
            forall|j: int| 0 <= j < k ==> sv[j].kind != kind@,
            k < out.storage_by_type@.len() ==> sv[k as int].kind == kind@,
        decreases out.storage_by_type.len() - k,
    {
        if str_eq(out.storage_by_type[k].kind.as_str(), kind.as_str()) {
            break;
        }
        k += 1;
    }
    let ghost target = add_datastore(o, ds@, server@);
    if k < out.storage_by_type.len() {
        proof {
            lemma_type_index(sv, kind@);
            assert(type_index(sv, kind@) == Some(k as int));
            assert(target.storage_by_type[k as int].datastores == sv[k as int].datastores + 1);
            assert(usize_ok(target.storage_by_type[k as int].datastores));
            assert(i128_ok(target.storage_by_type[k as int].capacity_gib));
            assert(i128_ok(target.storage_by_type[k as int].used_gib));
        }
        let e = &out.storage_by_type[k];
        let updated = StorageByType {
            kind: e.kind.clone(),
            datastores: e.datastores + 1,
            capacity_gib: e.capacity_gib + capacity,
            used_gib: e.used_gib + used,
        };
        out.storage_by_type.set(k, updated);
    } else {
        proof {
            lemma_type_index(sv, kind@);
            assert(type_index(sv, kind@).is_none());
        }
        out.storage_by_type.push(StorageByType { kind, datastores: 1, capacity_gib: capacity, used_gib: used });
    }
    proof {
        assert(out.storage_by_type@.map_values(|s: StorageByType| s@) =~= target.storage_by_type);
    }
    let u = usage(ds, server);
    let ghost tb = out.top_datastores@;
    out.top_datastores.push(u);
    proof {
        assert(out.top_datastores@.map_values(|u: DatastoreUsage| u@) =~= tb.map_values(|u: DatastoreUsage| u@).push(usage_of(ds@, server@)));
    }
}

impl Insights {
    /// Fold one vCenter's topology and VM rollup into the totals.
    pub fn accumulate(&mut self, server: &str, topology: &ServerTopology, totals: &Vec<(String, HostVmTotals)>)
        requires
            accumulate_fits(old(self)@, server@, topology@, totals_entries(totals@)),
        ensures
            final(self)@ == accumulate_of(old(self)@, server@, topology@, totals_entries(totals@)),
    {
        let ghost o = self@;
        let ghost t = topology@;
        let ghost tv = totals_entries(totals@);
        let ghost o0 = begin_server(o, server@, t);
        proof { assert(tallies_fit(o0)); }
        let ghost sb = self.servers@;
        self.servers.push(String::from_str(server));
        proof { assert(strings_of(self.servers@) =~= strings_of(sb).push(server@)); }
        self.datacenters = self.datacenters + topology.datacenters.len();
        self.clusters = self.clusters + topology.clusters.len();
        let ghost gv = t.clusters;
        let ghost cb = o.cluster_summaries;
        let mut i: usize = 0;
        while i < topology.clusters.len()
            invariant
                i <= topology.clusters@.len(),
                gv == super::topology::groups_view(topology.clusters@),
                forall|j: int| 0 <= j < gv.len() ==> summary_fits(#[trigger] gv[j].1),
                self.cluster_summaries@.map_values(|c: ClusterSummary| c@) =~= cb + summaries_of(gv.take(i as int), server@),
                self@ == (InsightsView { cluster_summaries: self@.cluster_summaries, ..o0 }),
            decreases topology.clusters.len() - i,
        {
            let g = &topology.clusters[i];
            proof {
                assert(gv[i as int] == (g.0@, hosts_view(g.1@)));
                assert(summary_fits(gv[i as int].1));
            }
            let c = cluster_summary(&g.0, &g.1, server);
            let ghost before = self.cluster_summaries@;
            self.cluster_summaries.push(c);
            proof {
                assert(summaries_of(gv.take(i + 1), server@) =~= summaries_of(gv.take(i as int), server@).push(c@));
                assert(self.cluster_summaries@.map_values(|c: ClusterSummary| c@) =~= before.map_values(|c: ClusterSummary| c@).push(c@));
            }
            i += 1;
        }
        proof {
            assert(gv.take(gv.len() as int) =~= gv);
            assert(self@ == o0);
        }
        let hosts = topology.all_hosts();
        let ghost hs = all_hosts_of(t);
        let mut k: usize = 0;
        proof { assert(hs.take(0) =~= Seq::<HostView>::empty()); }
        while k < hosts.len()
            invariant
                k <= hosts@.len(),
                hosts@.map_values(|h: &HostNode| h@) == hs,
                tv == totals_entries(totals@),
                forall|m: int| 0 <= m <= hs.len() ==> tallies_fit(#[trigger] add_hosts(o0, hs.take(m), tv)),
                self@ == add_hosts(o0, hs.take(k as int), tv),
            decreases hosts.len() - k,
        {
            proof {
                assert(hs.take(k + 1).drop_last() =~= hs.take(k as int));
                assert(hs.take(k + 1).last() == hosts@[k as int]@);
                assert(tallies_fit(add_hosts(o0, hs.take(k as int), tv)));
                assert(tallies_fit(add_hosts(o0, hs.take(k + 1), tv)));
            }
            count_host(self, hosts[k], totals);
            k += 1;
        }
        proof { assert(hs.take(hs.len() as int) =~= hs); }
        let ghost o1 = add_hosts(o0, hs, tv);
        let ghost ds = t.datastores;
        let mut d: usize = 0;
        proof { assert(ds.take(0) =~= Seq::<DatastoreView>::empty()); }
        while d < topology.datastores.len()
            invariant
                d <= topology.datastores@.len(),
                ds == super::topology::datastores_view(topology.datastores@),
                forall|m: int| 0 <= m <= ds.len() ==> tallies_fit(#[trigger] add_datastores(o1, ds.take(m), server@)),
                forall|m: int| 0 <= m < ds.len() ==> size_ok(#[trigger] ds[m].capacity_gib) && size_ok(ds[m].free_gib),
                self@ == add_datastores(o1, ds.take(d as int), server@),
            decreases topology.datastores.len() - d,
        {
            proof {
                assert(ds.take(d + 1).drop_last() =~= ds.take(d as int));
                assert(ds.take(d + 1).last() == topology.datastores@[d as int]@);
                assert(tallies_fit(add_datastores(o1, ds.take(d as int), server@)));
                assert(tallies_fit(add_datastores(o1, ds.take(d + 1), server@)));
                assert(ds[d as int] == topology.datastores@[d as int]@);
                assert(size_ok(ds[d as int].capacity_gib));
            }
            count_datastore(self, &topology.datastores[d], server);
            d += 1;
        }
        proof { assert(ds.take(ds.len() as int) =~= ds); }
    }

    /// Record a vCenter that could not be read: the totals then describe the
    /// servers that did answer, and the warning says so.
    pub fn record_failure(&mut self, label: &str, error: &str)
        ensures
            final(self)@ == (InsightsView { warnings: old(self)@.warnings.push(label@ + ": "@ + error@), ..old(self)@ }),
    {
        let ghost before = self.warnings@;
        let w = String::from_str(label).concat(": ").concat(error);
        self.warnings.push(w);
        proof { assert(strings_of(self.warnings@) =~= strings_of(before).push(label@ + ": "@ + error@)); }
    }
}

/// `x` placed after every entry with at least its capacity, counting from
/// the back.
pub open spec fn insert_by_capacity(s: Seq<StorageView>, x: StorageView) -> Seq<StorageView>
    decreases s.len(),
{
    if s.len() == 0 {
        seq![x]
    } else if s.last().capacity_gib >= x.capacity_gib {
        s.push(x)
    } else {
        insert_by_capacity(s.drop_last(), x).push(s.last())
    }
}

/// Storage types by capacity, largest first; equal capacities keep their
/// order.
pub open spec fn by_capacity(s: Seq<StorageView>) -> Seq<StorageView>
    decreases s.len(),
{
    if s.len() == 0 {
        Seq::empty()
    } else {
        insert_by_capacity(by_capacity(s.drop_last()), s.last())
    }
}

/// `x` placed after every datastore at least as full, counting from the back.
pub open spec fn insert_by_fullness(s: Seq<UsageView>, x: UsageView) -> Seq<UsageView>
    decreases s.len(),
{
    if s.len() == 0 {
        seq![x]
    } else if s.last().used_percent >= x.used_percent {
        s.push(x)
    } else {
        insert_by_fullness(s.drop_last(), x).push(s.last())
    }
}

/// Datastores fullest first; equally full ones keep their order.
pub open spec fn by_fullness(s: Seq<UsageView>) -> Seq<UsageView>
    decreases s.len(),
{
    if s.len() == 0 {
        Seq::empty()
    } else {
        insert_by_fullness(by_fullness(s.drop_last()), s.last())
    }
}

proof fn lemma_insert_capacity_at(s: Seq<StorageView>, x: StorageView, j: int)
    requires
        0 <= j <= s.len(),
        forall|k: int| j <= k < s.len() ==> (#[trigger] s[k]).capacity_gib < x.capacity_gib,
        j == 0 || s[j - 1].capacity_gib >= x.capacity_gib,
    ensures
        insert_by_capacity(s, x) == s.insert(j, x),
    decreases s.len(),
{
    if s.len() == j {
        if j == 0 {
            assert(s.insert(j, x) =~= seq![x]);
        } else {
            assert(s.insert(j, x) =~= s.push(x));
        }
    } else {
        let d = s.drop_last();
        assert(forall|k: int| 0 <= k < d.len() ==> d[k] == s[k]);
        lemma_insert_capacity_at(d, x, j);
        assert(s.insert(j, x) =~= d.insert(j, x).push(s.last()));
    }
}

proof fn lemma_insert_fullness_at(s: Seq<UsageView>, x: UsageView, j: int)
    requires
        0 <= j <= s.len(),
        forall|k: int| j <= k < s.len() ==> (#[trigger] s[k]).used_percent < x.used_percent,
        j == 0 || s[j - 1].used_percent >= x.used_percent,
    ensures
        insert_by_fullness(s, x) == s.insert(j, x),
    decreases s.len(),
{
    if s.len() == j {
        if j == 0 {
            assert(s.insert(j, x) =~= seq![x]);
        } else {
            assert(s.insert(j, x) =~= s.push(x));
        }
    } else {
        let d = s.drop_last();
        assert(forall|k: int| 0 <= k < d.len() ==> d[k] == s[k]);
        lemma_insert_fullness_at(d, x, j);
        assert(s.insert(j, x) =~= d.insert(j, x).push(s.last()));
    }
}

fn sort_by_capacity(v: Vec<StorageByType>) -> (r: Vec<StorageByType>)
    ensures
        r@.map_values(|s: StorageByType| s@) == by_capacity(v@.map_values(|s: StorageByType| s@)),
{
    let ghost orig = v@.map_values(|s: StorageByType| s@);
    let mut rest = v;
    let mut out: Vec<StorageByType> = Vec::new();
    let ghost mut taken: int = 0;
    proof {
        assert(orig.skip(0) =~= orig);
        assert(orig.take(0) =~= Seq::<StorageView>::empty());
        assert(out@.map_values(|s: StorageByType| s@) =~= Seq::<StorageView>::empty());
    }
    while rest.len() > 0
        invariant
            0 <= taken <= orig.len(),
            rest@.map_values(|s: StorageByType| s@) == orig.skip(taken),
            out@.map_values(|s: StorageByType| s@) == by_capacity(orig.take(taken)),
        decreases rest.len(),
    {
        let ghost rb = rest@;
        let x = rest.remove(0);
        proof {
            assert(rest@.map_values(|s: StorageByType| s@) =~= rb.map_values(|s: StorageByType| s@).drop_first());
            assert(x == rb[0]);
            assert(rb.map_values(|s: StorageByType| s@)[0] == rb[0]@);
            assert(orig.skip(taken)[0] == orig[taken]);
            assert(orig.take(taken + 1).drop_last() =~= orig.take(taken));
            assert(orig.skip(taken).drop_first() =~= orig.skip(taken + 1));
        }
        let mut j: usize = out.len();
        while j > 0 && out[j - 1].capacity_gib < x.capacity_gib
            invariant
                j <= out@.len(),
                forall|k: int| j <= k < out@.len() ==> (#[trigger] out@[k]).capacity_gib < x.capacity_gib,
            decreases j,
        {
            j -= 1;
        }
        let ghost ov = out@.map_values(|s: StorageByType| s@);
        proof {
            assert(forall|k: int| 0 <= k < ov.len() ==> #[trigger] ov[k] == out@[k]@);
            lemma_insert_capacity_at(ov, x@, j as int);
        }
        let ghost xv = x@;
        out.insert(j, x);
        proof {
            assert(out@.map_values(|s: StorageByType| s@) =~= ov.insert(j as int, xv));
            taken = taken + 1;
        }
    }
    proof {
        assert(orig.skip(taken).len() == 0);
        assert(orig.take(taken) =~= orig);
    }
    out
}

fn sort_by_fullness(v: Vec<DatastoreUsage>) -> (r: Vec<DatastoreUsage>)
    ensures
        r@.map_values(|u: DatastoreUsage| u@) == by_fullness(v@.map_values(|u: DatastoreUsage| u@)),
{
    let ghost orig = v@.map_values(|u: DatastoreUsage| u@);
    let mut rest = v;
    let mut out: Vec<DatastoreUsage> = Vec::new();
    let ghost mut taken: int = 0;
    proof {
        assert(orig.skip(0) =~= orig);
        assert(orig.take(0) =~= Seq::<UsageView>::empty());
        assert(out@.map_values(|u: DatastoreUsage| u@) =~= Seq::<UsageView>::empty());
    }
    while rest.len() > 0
        invariant
            0 <= taken <= orig.len(),
            rest@.map_values(|u: DatastoreUsage| u@) == orig.skip(taken),
            out@.map_values(|u: DatastoreUsage| u@) == by_fullness(orig.take(taken)),
        decreases rest.len(),
    {
        let ghost rb = rest@;
        let x = rest.remove(0);
        proof {
            assert(rest@.map_values(|u: DatastoreUsage| u@) =~= rb.map_values(|u: DatastoreUsage| u@).drop_first());
            assert(x == rb[0]);
            assert(rb.map_values(|u: DatastoreUsage| u@)[0] == rb[0]@);
            assert(orig.skip(taken)[0] == orig[taken]);
            assert(orig.take(taken + 1).drop_last() =~= orig.take(taken));
            assert(orig.skip(taken).drop_first() =~= orig.skip(taken + 1));
        }
        let mut j: usize = out.len();
        while j > 0 && out[j - 1].used_percent < x.used_percent
            invariant
                j <= out@.len(),
                forall|k: int| j <= k < out@.len() ==> (#[trigger] out@[k]).used_percent < x.used_percent,
            decreases j,
        {
            j -= 1;
        }
        let ghost ov = out@.map_values(|u: DatastoreUsage| u@);
        proof {
            assert(forall|k: int| 0 <= k < ov.len() ==> #[trigger] ov[k] == out@[k]@);
            lemma_insert_fullness_at(ov, x@, j as int);
        }
        let ghost xv = x@;
        out.insert(j, x);
        proof {
            assert(out@.map_values(|u: DatastoreUsage| u@) =~= ov.insert(j as int, xv));
            taken = taken + 1;
        }
    }
    proof {
        assert(orig.skip(taken).len() == 0);
        assert(orig.take(taken) =~= orig);
    }
    out
}

/// The derived figures, filled once every server has been folded in: vRAM
/// in GiB to two places, storage types largest first, the eight fullest
/// datastores, storage use to one decimal place (0 without capacity), and
/// vCPUs per core to two places (none without cores).
pub open spec fn finish_of(o: InsightsView) -> InsightsView {
    let top = by_fullness(o.top_datastores);
    InsightsView {
        vram_gib: div_round(o.vram_mib * 100, 1024),
        storage_by_type: by_capacity(o.storage_by_type),
        top_datastores: if top.len() > 8 {
            top.take(8)
        } else {
            top
        },
        storage_used_percent: if o.storage_capacity_gib > 0 {
            div_round(o.storage_used_gib * 1000, o.storage_capacity_gib) * 10
        } else {
            0
        },
        vcpu_core_ratio: if o.cores > 0 {
            Some(div_round(o.vcpus * 100, o.cores))
        } else {
            None
        },
        ..o
    }
}

/// The totals the derived figures divide are far inside `i128`.
pub open spec fn finish_fits(o: InsightsView) -> bool {
    &&& -0x1_0000_0000_0000_0000_0000 < o.vram_mib < 0x1_0000_0000_0000_0000_0000
    &&& -0x1_0000_0000_0000_0000_0000 < o.storage_used_gib < 0x1_0000_0000_0000_0000_0000
    &&& o.storage_capacity_gib < 0x1_0000_0000_0000_0000_0000
    &&& i64_ok(o.cores) && i64_ok(o.vcpus)
}

impl Insights {
    /// Fill the derived fields once every server has been folded in.
    pub fn finish(&mut self)
        requires
            finish_fits(old(self)@),
        ensures
            final(self)@ == finish_of(old(self)@),
    {
        let ghost o = self@;
        self.vram_gib = super::common::div_round_wide(self.vram_mib * 100, 1024);
        let mut types: Vec<StorageByType> = Vec::new();
        core::mem::swap(&mut types, &mut self.storage_by_type);
        self.storage_by_type = sort_by_capacity(types);
        let mut top: Vec<DatastoreUsage> = Vec::new();
        core::mem::swap(&mut top, &mut self.top_datastores);
        let mut top = sort_by_fullness(top);
        let ghost sorted = top@;
        top.truncate(8);
        proof {
            if sorted.len() > 8 {
                assert(top@.map_values(|u: DatastoreUsage| u@) =~= sorted.map_values(|u: DatastoreUsage| u@).take(8));
            } else {
                assert(top@ == sorted);
            }
        }
        self.top_datastores = top;
        self.storage_used_percent = if self.storage_capacity_gib > 0 {
            super::common::div_round_wide(self.storage_used_gib * 1000, self.storage_capacity_gib) * 10
        } else {
            0
        };
        self.vcpu_core_ratio = if self.cores > 0 {
            Some(super::common::scaled_div_round(self.vcpus, self.cores, 100))
        } else {
            None
        };
        proof {
            assert(self@.servers == o.servers);
            assert(self@.warnings == o.warnings);
            assert(self@.cluster_summaries == o.cluster_summaries);
        }
    }
}

proof fn lemma_insert_capacity_bounded(d: Seq<StorageView>, x: StorageView, b: int)
    requires
        forall|k: int| 0 <= k < d.len() ==> (#[trigger] d[k]).capacity_gib >= b,
        x.capacity_gib >= b,
    ensures
        forall|k: int| 0 <= k < insert_by_capacity(d, x).len() ==> (#[trigger] insert_by_capacity(d, x)[k]).capacity_gib >= b,
        insert_by_capacity(d, x).len() == d.len() + 1,
    decreases d.len(),
{
    if d.len() > 0 && !(d.last().capacity_gib >= x.capacity_gib) {
        let e = d.drop_last();
        assert(forall|k: int| 0 <= k < e.len() ==> e[k] == d[k]);
        lemma_insert_capacity_bounded(e, x, b);
        let r = insert_by_capacity(e, x);
        assert forall|k: int| 0 <= k < insert_by_capacity(d, x).len() implies (#[trigger] insert_by_capacity(d, x)[k]).capacity_gib >= b by {
            if k < r.len() {
                assert(insert_by_capacity(d, x)[k] == r[k]);
            }
        }
    }
}

proof fn lemma_by_capacity_sorted(s: Seq<StorageView>)
    ensures
        forall|i: int, j: int| 0 <= i < j < by_capacity(s).len() ==> (#[trigger] by_capacity(s)[i]).capacity_gib >= (#[trigger] by_capacity(s)[j]).capacity_gib,
        by_capacity(s).len() == s.len(),
    decreases s.len(),
{
    if s.len() > 0 {
        lemma_by_capacity_sorted(s.drop_last());
        lemma_insert_capacity_sorted(by_capacity(s.drop_last()), s.last());
    }
}

proof fn lemma_insert_capacity_sorted(s: Seq<StorageView>, x: StorageView)
    requires
        forall|i: int, j: int| 0 <= i < j < s.len() ==> (#[trigger] s[i]).capacity_gib >= (#[trigger] s[j]).capacity_gib,
    ensures
        forall|i: int, j: int| 0 <= i < j < insert_by_capacity(s, x).len()
            ==> (#[trigger] insert_by_capacity(s, x)[i]).capacity_gib >= (#[trigger] insert_by_capacity(s, x)[j]).capacity_gib,
        insert_by_capacity(s, x).len() == s.len() + 1,
    decreases s.len(),
{
    if s.len() > 0 && !(s.last().capacity_gib >= x.capacity_gib) {
        let d = s.drop_last();
        assert(forall|k: int| 0 <= k < d.len() ==> d[k] == s[k]);
        lemma_insert_capacity_sorted(d, x);
        lemma_insert_capacity_bounded(d, x, s.last().capacity_gib);
        let r = insert_by_capacity(d, x);
        let out = r.push(s.last());
        assert forall|i: int, j: int| 0 <= i < j < out.len() implies (#[trigger] out[i]).capacity_gib >= (#[trigger] out[j]).capacity_gib by {
            if j == r.len() {
                assert(out[i] == r[i]);
            } else {
                assert(out[i] == r[i] && out[j] == r[j]);
            }
        }
    } else if s.len() == 0 {
    } else {
        let out = s.push(x);
        assert forall|i: int, j: int| 0 <= i < j < out.len() implies (#[trigger] out[i]).capacity_gib >= (#[trigger] out[j]).capacity_gib by {
            if j == s.len() && i < s.len() - 1 {
                assert(s[i].capacity_gib >= s[s.len() - 1].capacity_gib);
            }
        }
    }
}

proof fn lemma_insert_fullness_bounded(d: Seq<UsageView>, x: UsageView, b: int)
    requires
        forall|k: int| 0 <= k < d.len() ==> (#[trigger] d[k]).used_percent >= b,
        x.used_percent >= b,
    ensures
        forall|k: int| 0 <= k < insert_by_fullness(d, x).len() ==> (#[trigger] insert_by_fullness(d, x)[k]).used_percent >= b,
        insert_by_fullness(d, x).len() == d.len() + 1,
    decreases d.len(),
{
    if d.len() > 0 && !(d.last().used_percent >= x.used_percent) {
        let e = d.drop_last();
        assert(forall|k: int| 0 <= k < e.len() ==> e[k] == d[k]);
        lemma_insert_fullness_bounded(e, x, b);
        let r = insert_by_fullness(e, x);
        assert forall|k: int| 0 <= k < insert_by_fullness(d, x).len() implies (#[trigger] insert_by_fullness(d, x)[k]).used_percent >= b by {
            if k < r.len() {
                assert(insert_by_fullness(d, x)[k] == r[k]);
            }
        }
    }
}

proof fn lemma_insert_fullness_sorted(s: Seq<UsageView>, x: UsageView)
    requires
        forall|i: int, j: int| 0 <= i < j < s.len() ==> (#[trigger] s[i]).used_percent >= (#[trigger] s[j]).used_percent,
    ensures
        forall|i: int, j: int| 0 <= i < j < insert_by_fullness(s, x).len()
            ==> (#[trigger] insert_by_fullness(s, x)[i]).used_percent >= (#[trigger] insert_by_fullness(s, x)[j]).used_percent,
        insert_by_fullness(s, x).len() == s.len() + 1,
    decreases s.len(),
{
    if s.len() > 0 && !(s.last().used_percent >= x.used_percent) {
        let d = s.drop_last();
        assert(forall|k: int| 0 <= k < d.len() ==> d[k] == s[k]);
        lemma_insert_fullness_sorted(d, x);
        lemma_insert_fullness_bounded(d, x, s.last().used_percent);
        let r = insert_by_fullness(d, x);
        let out = r.push(s.last());
        assert forall|i: int, j: int| 0 <= i < j < out.len() implies (#[trigger] out[i]).used_percent >= (#[trigger] out[j]).used_percent by {
            if j == r.len() {
                assert(out[i] == r[i]);
            } else {
                assert(out[i] == r[i] && out[j] == r[j]);
            }
        }
    } else if s.len() == 0 {
    } else {
        let out = s.push(x);
        assert forall|i: int, j: int| 0 <= i < j < out.len() implies (#[trigger] out[i]).used_percent >= (#[trigger] out[j]).used_percent by {
            if j == s.len() && i < s.len() - 1 {
                assert(s[i].used_percent >= s[s.len() - 1].used_percent);
            }
        }
    }
}

proof fn lemma_by_fullness_sorted(s: Seq<UsageView>)
    ensures
        forall|i: int, j: int| 0 <= i < j < by_fullness(s).len() ==> (#[trigger] by_fullness(s)[i]).used_percent >= (#[trigger] by_fullness(s)[j]).used_percent,
        by_fullness(s).len() == s.len(),
    decreases s.len(),
{
    if s.len() > 0 {
        lemma_by_fullness_sorted(s.drop_last());
        lemma_insert_fullness_sorted(by_fullness(s.drop_last()), s.last());
    }
}

/// After `finish`, storage types run largest first, and the usage list
/// holds at most eight datastores, fullest first.
pub proof fn lemma_finish_orders(o: InsightsView)
    ensures
        forall|i: int, j: int| 0 <= i < j < finish_of(o).storage_by_type.len()
            ==> (#[trigger] finish_of(o).storage_by_type[i]).capacity_gib >= (#[trigger] finish_of(o).storage_by_type[j]).capacity_gib,
        forall|i: int, j: int| 0 <= i < j < finish_of(o).top_datastores.len()
            ==> (#[trigger] finish_of(o).top_datastores[i]).used_percent >= (#[trigger] finish_of(o).top_datastores[j]).used_percent,
        finish_of(o).top_datastores.len() <= 8,
        finish_of(o).storage_by_type.len() == o.storage_by_type.len(),
{
    lemma_by_capacity_sorted(o.storage_by_type);
    lemma_by_fullness_sorted(o.top_datastores);
    let top = by_fullness(o.top_datastores);
    if top.len() > 8 {
        assert forall|i: int, j: int| 0 <= i < j < top.take(8).len() implies (#[trigger] top.take(8)[i]).used_percent >= (#[trigger] top.take(8)[j]).used_percent by {
            assert(top.take(8)[i] == top[i] && top.take(8)[j] == top[j]);
        }
    }
}
} // verus!
