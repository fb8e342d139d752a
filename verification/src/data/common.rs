//! Lookups and figures shared across sheets.
//!
//! Sizes and percentages are rounded to two decimal places and carried as
//! hundredths (see [`super::Cell`]). Rounding is half away from zero, as
//! `f64::round` does.

use vstd::prelude::*;
use crate::text::{has_prefix, starts_with, str_eq};
use crate::vcenter::soap::{strs_view, bool_prop_of, i64_prop_of, str_prop_of, ManagedObject, MoView};
#[allow(unused_imports)]
use crate::data::snapshot::{lookup_name, mos_view, name_lookup, names_view};
use crate::vcenter::xml::opt_str_view;

verus! {

/// `n / d` rounded to the nearest integer, halves away from zero.
pub open spec fn div_round(n: int, d: int) -> int
    recommends
        d > 0,
{
    if n >= 0 {
        (2 * n + d) / (2 * d)
    } else {
        -((2 * (-n) + d) / (2 * d))
    }
}

pub open spec fn bytes_per_gib() -> int {
    1024 * 1024 * 1024int
}

pub open spec fn bytes_per_mib() -> int {
    1024 * 1024int
}

/// Bytes as GiB, in hundredths.
pub open spec fn gib_hundredths(bytes: int) -> int {
    div_round(bytes * 100, bytes_per_gib())
}

/// Bytes as MiB, in hundredths.
pub open spec fn mib_hundredths(bytes: int) -> int {
    div_round(bytes * 100, bytes_per_mib())
}

/// `n * scale / d`, rounded, halves away from zero.
pub(crate) fn scaled_div_round(n: i64, d: i64, scale: i64) -> (r: i128)
    requires
        d > 0,
        0 < scale <= 10000,
    ensures
        r == div_round(n * scale, d as int),
{
    proof {
        assert(-0x8000_0000_0000_0000 * 10000 <= n * scale <= 0x7fff_ffff_ffff_ffff * 10000) by (nonlinear_arith)
            requires
                i64::MIN <= n <= i64::MAX,
                0 < scale <= 10000;
    }
    let num: i128 = (n as i128) * (scale as i128);
    let den: i128 = d as i128;
    proof {
        assert(-0x8000_0000_0000_0000 * 10000 <= num <= 0x7fff_ffff_ffff_ffff * 10000) by (nonlinear_arith)
            requires
                num == n * scale,
                i64::MIN <= n <= i64::MAX,
                0 < scale <= 10000;
    }
    if num >= 0 {
        proof {
            assert((2 * num + den) / (2 * den) <= 2 * num + den) by (nonlinear_arith)
                requires num >= 0, den >= 1;
            assert((2 * num + den) / (2 * den) >= 0) by (nonlinear_arith)
                requires num >= 0, den >= 1;
        }
        (2 * num + den) / (2 * den)
    } else {
        proof {
            assert((2 * (-num) + den) / (2 * den) <= 2 * (-num) + den) by (nonlinear_arith)
                requires num < 0, den >= 1;
            assert((2 * (-num) + den) / (2 * den) >= 0) by (nonlinear_arith)
                requires num < 0, den >= 1;
        }
        -((2 * (-num) + den) / (2 * den))
    }
}

/// Bytes as GiB, two decimals, in hundredths.
pub fn bytes_to_gib(bytes: i64) -> (r: i128)
    ensures
        r == gib_hundredths(bytes as int),
{
    scaled_div_round(bytes, 1024 * 1024 * 1024, 100)
}

/// Bytes as MiB, two decimals, in hundredths.
pub fn bytes_to_mib(bytes: i64) -> (r: i128)
    ensures
        r == mib_hundredths(bytes as int),
{
    scaled_div_round(bytes, 1024 * 1024, 100)
}

/// `used / total` as a percentage rounded to two places, in hundredths.
pub open spec fn percent_of(used: Option<i64>, total: Option<i64>) -> Option<int> {
    match (used, total) {
        (Some(u), Some(t)) => if t > 0 {
            Some(div_round(u * 10000, t as int))
        } else {
            None
        },
        _ => None,
    }
}

/// Percentage, two places, in hundredths. `None` when the denominator is
/// missing or zero: a powered-off VM reports no maximum CPU, and 0% would be
/// a lie.
pub fn percent(used: Option<i64>, total: Option<i64>) -> (r: Option<i128>)
    ensures
        match r {
            Some(p) => percent_of(used, total) == Some(p as int),
            None => percent_of(used, total).is_none(),
        },
{
    match (used, total) {
        (Some(u), Some(t)) => if t > 0 {
            Some(scaled_div_round(u, t, 10000))
        } else {
            None
        },
        _ => None,
    }
}

/// Property paths behind `VmContext`, for sheets to add to their own retrieve.
pub open spec fn vm_context_prop_names() -> Seq<Seq<char>> {
    seq![
        "name"@,
        "runtime.powerState"@,
        "config.template"@,
        "runtime.host"@,
        "config.annotation"@,
    ]
}

/// Property paths behind `VmContext`, for sheets to add to their own retrieve.
pub fn vm_context_props() -> (r: Vec<&'static str>)
    ensures
        strs_view(r@) == vm_context_prop_names(),
{
    let r = vec![
        "name",
        "runtime.powerState",
        "config.template",
        "runtime.host",
        "config.annotation",
    ];
    proof { assert(strs_view(r@) =~= vm_context_prop_names()); }
    r
}

/// `VirtualMachine` properties the per-host VM rollup reads.
pub open spec fn vm_totals_prop_names() -> Seq<Seq<char>> {
    seq![
        "name"@,
        "runtime.host"@,
        "runtime.powerState"@,
        "config.hardware.numCPU"@,
        "config.hardware.memoryMB"@,
    ]
}

/// `VirtualMachine` properties the per-host VM rollup reads.
pub fn vm_totals_props() -> (r: Vec<&'static str>)
    ensures
        strs_view(r@) == vm_totals_prop_names(),
{
    let r = vec![
        "name",
        "runtime.host",
        "runtime.powerState",
        "config.hardware.numCPU",
        "config.hardware.memoryMB",
    ];
    proof { assert(strs_view(r@) =~= vm_totals_prop_names()); }
    r
}

/// `numerator / denominator` to two places, in hundredths; `None` when the
/// denominator is missing or not positive.
pub open spec fn ratio_of(numerator: i64, denominator: Option<i64>) -> Option<int> {
    match denominator {
        Some(d) => if d > 0 {
            Some(div_round(numerator * 100, d as int))
        } else {
            None
        },
        None => None,
    }
}

/// Ratio to two places, in hundredths, or `None` when the denominator is
/// missing or zero.
pub fn ratio(numerator: i64, denominator: Option<i64>) -> (r: Option<i128>)
    ensures
        match r {
            Some(v) => ratio_of(numerator, denominator) == Some(v as int),
            None => ratio_of(numerator, denominator).is_none(),
        },
{
    match denominator {
        Some(d) => if d > 0 {
            Some(scaled_div_round(numerator, d, 100))
        } else {
            None
        },
        None => None,
    }
}

/// Per-host rollup of the VMs registered on it, for vHost's VM columns.
#[derive(Debug, Clone, Copy)]
pub struct HostVmTotals {
    pub vms_total: i64,
    pub vms_powered_on: i64,
    pub vcpus: i64,
    pub vram_mib: i64,
}

/// The rollup as numbers.
pub struct TotalsView {
    pub vms_total: int,
    pub vms_powered_on: int,
    pub vcpus: int,
    pub vram_mib: int,
}

impl View for HostVmTotals {
    type V = TotalsView;

    open spec fn view(&self) -> TotalsView {
        TotalsView {
            vms_total: self.vms_total as int,
            vms_powered_on: self.vms_powered_on as int,
            vcpus: self.vcpus as int,
            vram_mib: self.vram_mib as int,
        }
    }
}

impl Default for HostVmTotals {
    fn default() -> (r: Self)
        ensures
            r@ == zero_totals(),
    {
        HostVmTotals { vms_total: 0, vms_powered_on: 0, vcpus: 0, vram_mib: 0 }
    }
}

pub open spec fn zero_totals() -> TotalsView {
    TotalsView { vms_total: 0, vms_powered_on: 0, vcpus: 0, vram_mib: 0 }
}

/// The host a VM counts toward: `None` for vCLS VMs, which are excluded to
/// stay consistent with vInfo and the vSphere UI, and for a VM registered on
/// no host.
pub open spec fn counted_host(vm: MoView) -> Option<Seq<char>> {
    match str_prop_of(vm, "name"@) {
        Some(n) => if has_prefix(n, "vCLS-"@) {
            None
        } else {
            str_prop_of(vm, "runtime.host"@)
        },
        None => str_prop_of(vm, "runtime.host"@),
    }
}

pub open spec fn or_zero(v: Option<i64>) -> int {
    match v {
        Some(x) => x as int,
        None => 0,
    }
}

/// A rollup with one more VM counted.
pub open spec fn bump(t: TotalsView, vm: MoView) -> TotalsView {
    TotalsView {
        vms_total: t.vms_total + 1,
        vms_powered_on: t.vms_powered_on + if str_prop_of(vm, "runtime.powerState"@) == Some("poweredOn"@) {
            1int
        } else {
            0int
        },
        vcpus: t.vcpus + or_zero(i64_prop_of(vm, "config.hardware.numCPU"@)),
        vram_mib: t.vram_mib + or_zero(i64_prop_of(vm, "config.hardware.memoryMB"@)),
    }
}

/// The index of the first entry keyed `key`.
pub open spec fn key_index(acc: Seq<(Seq<char>, TotalsView)>, key: Seq<char>) -> Option<int>
    decreases acc.len(),
{
    if acc.len() == 0 {
        None
    } else {
        match key_index(acc.drop_last(), key) {
            Some(i) => Some(i),
            None => if acc.last().0 == key {
                Some(acc.len() - 1)
            } else {
                None
            },
        }
    }
}

/// Every counted VM folded into its host's rollup; hosts in the order their
/// first VM appears.
pub open spec fn tally(vms: Seq<MoView>) -> Seq<(Seq<char>, TotalsView)>
    decreases vms.len(),
{
    if vms.len() == 0 {
        Seq::empty()
    } else {
        let acc = tally(vms.drop_last());
        let vm = vms.last();
        match counted_host(vm) {
            None => acc,
            Some(h) => match key_index(acc, h) {
                Some(i) => acc.update(i, (h, bump(acc[i].1, vm))),
                None => acc.push((h, bump(zero_totals(), vm))),
            },
        }
    }
}

pub open spec fn fits_i64(x: int) -> bool {
    i64::MIN <= x <= i64::MAX
}

pub open spec fn totals_fit(t: TotalsView) -> bool {
    fits_i64(t.vms_total) && fits_i64(t.vms_powered_on) && fits_i64(t.vcpus) && fits_i64(t.vram_mib)
}

/// Every running total stays within `i64` while the VMs are folded in.
pub open spec fn tally_fits(vms: Seq<MoView>) -> bool {
    forall|k: int, j: int| 0 <= k <= vms.len() && 0 <= j < tally(vms.take(k)).len()
        ==> totals_fit(#[trigger] tally(vms.take(k))[j].1)
}

pub open spec fn totals_entries(v: Seq<(String, HostVmTotals)>) -> Seq<(Seq<char>, TotalsView)> {
    v.map_values(|p: (String, HostVmTotals)| (p.0@, p.1@))
}

pub proof fn lemma_key_index(acc: Seq<(Seq<char>, TotalsView)>, key: Seq<char>)
    ensures
        match key_index(acc, key) {
            Some(i) => 0 <= i < acc.len() && acc[i].0 == key && forall|j: int| 0 <= j < i ==> acc[j].0 != key,
            None => forall|j: int| 0 <= j < acc.len() ==> acc[j].0 != key,
        },
    decreases acc.len(),
{
    if acc.len() > 0 {
        let d = acc.drop_last();
        lemma_key_index(d, key);
        assert(forall|j: int| 0 <= j < d.len() ==> d[j] == acc[j]);
    }
}

/// Every running total fits in the first `n` VMs' folds.
pub open spec fn prefix_fits(vms: Seq<MoView>, n: int) -> bool {
    forall|k: int, j: int| 0 <= k <= n && 0 <= j < tally(vms.take(k)).len()
        ==> totals_fit(#[trigger] tally(vms.take(k))[j].1)
}

proof fn lemma_prefix_fits_all(vms: Seq<MoView>)
    requires
        prefix_fits(vms, vms.len() as int),
    ensures
        tally_fits(vms),
{
}

/// Group VM counts by `HostSystem` moref, or `None` when a running total
/// would leave `i64`.
pub fn checked_vm_totals(vms: &Vec<ManagedObject>) -> (r: Option<Vec<(String, HostVmTotals)>>)
    ensures
        match r {
            Some(v) => tally_fits(mos_view(vms@)) && totals_entries(v@) == tally(mos_view(vms@)),
            None => !tally_fits(mos_view(vms@)),
        },
{
    let ghost vv = mos_view(vms@);
    let mut out: Vec<(String, HostVmTotals)> = Vec::new();
    let mut i: usize = 0;
    proof {
        assert(vv.take(0) =~= Seq::<MoView>::empty());
        assert(totals_entries(out@) =~= Seq::<(Seq<char>, TotalsView)>::empty());
    }
    while i < vms.len()
        invariant
            i <= vms@.len(),
            vv == mos_view(vms@),
            prefix_fits(vv, i as int),
            totals_entries(out@) =~= tally(vv.take(i as int)),
        decreases vms.len() - i,
    {
        let ghost acc = tally(vv.take(i as int));
        proof {
            assert(vv.take(i + 1).drop_last() =~= vv.take(i as int));
            assert(vv.take(i + 1).last() == vms@[i as int]@);
            assert(forall|j: int| 0 <= j < acc.len() ==> totals_fit(#[trigger] acc[j].1)) by {
                assert forall|j: int| 0 <= j < acc.len() implies totals_fit(#[trigger] acc[j].1) by {
                    assert(totals_fit(tally(vv.take(i as int))[j].1));
                }
            }
        }
        let vm = &vms[i];
        let excluded = match vm.str_prop("name") {
            Some(n) => starts_with(n.as_str(), "vCLS-"),
            None => false,
        };
        let ghost next = tally(vv.take(i + 1));
        if !excluded {
            match vm.str_prop("runtime.host") {
                Some(host) => {
                    let mut k: usize = 0;
                    while k < out.len()
                        invariant
                            k <= out@.len(),
                            totals_entries(out@) =~= acc,
                            forall|j: int| 0 <= j < k ==> acc[j].0 != host@,
                        ensures
                            k <= out@.len(),
                            totals_entries(out@) =~= acc,
                            forall|j: int| 0 <= j < k ==> acc[j].0 != host@,
                            k < out@.len() ==> out@[k as int].0@ == host@,
                        decreases out.len() - k,
                    {
                        if str_eq(out[k].0.as_str(), host.as_str()) {
                            break;
                        }
                        k += 1;
                    }
                    let on: i128 = match vm.str_prop("runtime.powerState") {
                        Some(p) => if str_eq(p.as_str(), "poweredOn") { 1 } else { 0 },
                        None => 0,
                    };
                    let cpus: i128 = match vm.i64_prop("config.hardware.numCPU") {
                        Some(c) => c as i128,
                        None => 0,
                    };
                    let mem: i128 = match vm.i64_prop("config.hardware.memoryMB") {
                        Some(m) => m as i128,
                        None => 0,
                    };
                    let base = if k < out.len() { out[k].1 } else { HostVmTotals { vms_total: 0, vms_powered_on: 0, vcpus: 0, vram_mib: 0 } };
                    let t1 = base.vms_total as i128 + 1;
                    let t2 = base.vms_powered_on as i128 + on;
                    let t3 = base.vcpus as i128 + cpus;
                    let t4 = base.vram_mib as i128 + mem;
                    proof {
                        lemma_key_index(acc, host@);
                        if k < out.len() {
                            assert(acc[k as int].0 == host@);
                            assert(key_index(acc, host@) == Some(k as int));
                            assert(next == acc.update(k as int, (host@, bump(acc[k as int].1, vm@))));
                        } else {
                            assert(key_index(acc, host@).is_none());
                            assert(next == acc.push((host@, bump(zero_totals(), vm@))));
                        }
                    }
                    let fits = i64::MIN as i128 <= t1 && t1 <= i64::MAX as i128 && i64::MIN as i128 <= t2 && t2 <= i64::MAX as i128
                        && i64::MIN as i128 <= t3 && t3 <= i64::MAX as i128 && i64::MIN as i128 <= t4 && t4 <= i64::MAX as i128;
                    if !fits {
                        proof {
                            let pos = if k < out.len() { k as int } else { acc.len() as int };
                            assert(!totals_fit(next[pos].1));
                        }
                        return None;
                    }
                    let nt = HostVmTotals { vms_total: t1 as i64, vms_powered_on: t2 as i64, vcpus: t3 as i64, vram_mib: t4 as i64 };
                    let ghost before = out@;
                    if k < out.len() {
                        let key = out[k].0.clone();
                        out.set(k, (key, nt));
                        proof {
                            assert(totals_entries(out@) =~= totals_entries(before).update(k as int, (host@, nt@)));
                        }
                    } else {
                        out.push((host, nt));
                        proof {
                            assert(totals_entries(out@) =~= totals_entries(before).push((host@, nt@)));
                        }
                    }
                    proof {
                        assert(totals_entries(out@) =~= next);
                        assert forall|j: int| 0 <= j < next.len() implies totals_fit(#[trigger] next[j].1) by {
                            if j < acc.len() && !(k < before.len() && j == k as int) {
                                assert(next[j] == acc[j]);
                            }
                        }
                        assert forall|kk: int, j: int| 0 <= kk <= i + 1 && 0 <= j < tally(vv.take(kk)).len()
                            implies totals_fit(#[trigger] tally(vv.take(kk))[j].1) by {
                            if kk == i + 1 {
                                assert(tally(vv.take(kk)) == next);
                            }
                        }
                    }
                },
                None => {
                    proof {
                        assert(next == acc);
                    }
                },
            }
        } else {
            proof { assert(next == acc); }
        }
        proof {
            assert forall|kk: int, j: int| 0 <= kk <= i + 1 && 0 <= j < tally(vv.take(kk)).len()
                implies totals_fit(#[trigger] tally(vv.take(kk))[j].1) by {
                if kk == i + 1 {
                    assert(tally(vv.take(kk)) == next);
                    assert(next.len() == acc.len() || totals_entries(out@) == next);
                }
            }
        }
        i += 1;
    }
    proof {
        assert(vv.take(vv.len() as int) =~= vv);
        lemma_prefix_fits_all(vv);
    }
    Some(out)
}

/// Group VM counts by `HostSystem` moref.
pub fn vm_totals_by_host(vms: &Vec<ManagedObject>) -> (r: Vec<(String, HostVmTotals)>)
    requires
        tally_fits(mos_view(vms@)),
    ensures
        totals_entries(r@) == tally(mos_view(vms@)),
{
    match checked_vm_totals(vms) {
        Some(v) => v,
        None => Vec::new(),
    }
}

/// The rollup of the host with this moref; all zero when it has no VMs.
pub open spec fn totals_for_of(entries: Seq<(Seq<char>, TotalsView)>, moref: Seq<char>) -> TotalsView {
    match key_index(entries, moref) {
        Some(i) => entries[i].1,
        None => zero_totals(),
    }
}

/// The rollup of one host.
pub fn totals_for(totals: &Vec<(String, HostVmTotals)>, moref: &str) -> (r: HostVmTotals)
    ensures
        r@ == totals_for_of(totals_entries(totals@), moref@),
{
    let ghost ev = totals_entries(totals@);
    proof { lemma_key_index(ev, moref@); }
    let mut k: usize = 0;
    while k < totals.len()
        invariant
            k <= totals@.len(),
            ev == totals_entries(totals@),
            forall|j: int| 0 <= j < k ==> ev[j].0 != moref@,
        decreases totals.len() - k,
    {
        if str_eq(totals[k].0.as_str(), moref) {
            proof {
                lemma_key_index(ev, moref@);
                assert(ev[k as int].0 == moref@);
                assert(key_index(ev, moref@) == Some(k as int));
            }
            return totals[k].1;
        }
        k += 1;
    }
    proof { lemma_key_index(ev, moref@); }
    HostVmTotals::default()
}

/// The per-VM columns that RVTools repeats on every VM-derived sheet.
pub struct VmContext {
    pub name: String,
    pub power_state: Option<String>,
    pub template: Option<bool>,
    pub host: Option<String>,
    pub annotation: Option<String>,
}

pub struct VmContextView {
    pub name: Seq<char>,
    pub power_state: Option<Seq<char>>,
    pub template: Option<bool>,
    pub host: Option<Seq<char>>,
    pub annotation: Option<Seq<char>>,
}

impl View for VmContext {
    type V = VmContextView;

    open spec fn view(&self) -> VmContextView {
        VmContextView {
            name: self.name@,
            power_state: opt_str_view(self.power_state),
            template: self.template,
            host: opt_str_view(self.host),
            annotation: opt_str_view(self.annotation),
        }
    }
}

/// The host a VM runs on, by name where the moref resolves and by moref
/// where it does not.
pub open spec fn host_label_of(vm: MoView, names: Seq<(Seq<char>, Seq<char>)>) -> Option<Seq<char>> {
    match str_prop_of(vm, "runtime.host"@) {
        Some(h) => match name_lookup(names, h) {
            Some(n) => Some(n),
            None => Some(h),
        },
        None => None,
    }
}

/// `<Type> <moref> returned no name property`, the error for a nameless object.
pub open spec fn no_name_error(type_prefix: Seq<char>, moref: Seq<char>) -> Seq<char> {
    type_prefix + moref + " returned no name property"@
}

/// A VM's context: an error when it has no name, nothing for a vCLS VM.
pub open spec fn vm_context_of(vm: MoView, names: Seq<(Seq<char>, Seq<char>)>) -> Result<Option<VmContextView>, Seq<char>> {
    match str_prop_of(vm, "name"@) {
        None => Err(no_name_error("VirtualMachine "@, vm.moref)),
        Some(n) => if has_prefix(n, "vCLS-"@) {
            Ok(None)
        } else {
            Ok(Some(VmContextView {
                name: n,
                power_state: str_prop_of(vm, "runtime.powerState"@),
                template: bool_prop_of(vm, "config.template"@),
                host: host_label_of(vm, names),
                annotation: str_prop_of(vm, "config.annotation"@),
            }))
        },
    }
}

impl VmContext {
    /// `None` for vCLS VMs, which are vSphere-managed and excluded everywhere.
    pub fn from(vm: &ManagedObject, hosts: &Vec<(String, String)>) -> (r: Result<Option<VmContext>, String>)
        ensures
            match r {
                Ok(Some(c)) => vm_context_of(vm@, names_view(hosts@)) == Ok::<Option<VmContextView>, Seq<char>>(Some(c@)),
                Ok(None) => vm_context_of(vm@, names_view(hosts@)) == Ok::<Option<VmContextView>, Seq<char>>(None),
                Err(e) => vm_context_of(vm@, names_view(hosts@)) == Err::<Option<VmContextView>, Seq<char>>(e@),
            },
    {
        let name = match vm.str_prop("name") {
            Some(n) => n,
            None => {
                return Err(String::from_str("VirtualMachine ").concat(vm.moref.as_str()).concat(
                    " returned no name property",
                ));
            },
        };
        if starts_with(name.as_str(), "vCLS-") {
            return Ok(None);
        }
        let host = match vm.str_prop("runtime.host") {
            Some(h) => match lookup_name(hosts, h.as_str()) {
                Some(n) => Some(n),
                None => Some(h),
            },
            None => None,
        };
        let power_state = vm.str_prop("runtime.powerState");
        let annotation = vm.str_prop("config.annotation");
        proof {
            assert(opt_str_view(host) == host_label_of(vm@, names_view(hosts@)));
            assert(opt_str_view(power_state) == str_prop_of(vm@, "runtime.powerState"@));
            assert(opt_str_view(annotation) == str_prop_of(vm@, "config.annotation"@));
        }
        let c = VmContext {
            name,
            power_state,
            template: vm.bool_prop("config.template"),
            host,
            annotation,
        };
        proof {
            assert(str_prop_of(vm@, "name"@) == Some(c.name@));
            assert(!has_prefix(c.name@, "vCLS-"@));
            assert(c@.host == host_label_of(vm@, names_view(hosts@)));
            assert(c@.template == bool_prop_of(vm@, "config.template"@));
            assert(vm_context_of(vm@, names_view(hosts@)) == Ok::<Option<VmContextView>, Seq<char>>(Some(c@)));
        }
        Ok(Some(c))
    }
}

/// A whole number as a cell value, in hundredths.
pub open spec fn whole_of(v: Option<i64>) -> Option<i128> {
    match v {
        Some(x) => Some((x * 100) as i128),
        None => None,
    }
}

pub fn whole(v: Option<i64>) -> (r: Option<i128>)
    ensures
        r == whole_of(v),
{
    match v {
        Some(x) => Some((x as i128) * 100),
        None => None,
    }
}

/// A size in bytes as GiB hundredths.
pub open spec fn gib_of(v: Option<i64>) -> Option<int> {
    match v {
        Some(b) => Some(gib_hundredths(b as int)),
        None => None,
    }
}

pub fn opt_gib(v: Option<i64>) -> (r: Option<i128>)
    ensures
        match r {
            Some(x) => gib_of(v) == Some(x as int),
            None => gib_of(v).is_none(),
        },
{
    match v {
        Some(b) => Some(bytes_to_gib(b)),
        None => None,
    }
}

/// A size read from an `i64` count of bytes is far inside `i128`.
pub proof fn lemma_gib_small(b: i64)
    ensures
        -0x1_0000_0000_0000_0000_0000 < gib_hundredths(b as int) < 0x1_0000_0000_0000_0000_0000,
{
    let n = b * 100;
    let d = bytes_per_gib();
    assert(-0x8000_0000_0000_0000 * 100 <= n <= 0x7fff_ffff_ffff_ffff * 100);
    if n >= 0 {
        assert((2 * n + d) / (2 * d) <= 2 * n + d) by (nonlinear_arith)
            requires n >= 0, d >= 1;
        assert((2 * n + d) / (2 * d) >= 0) by (nonlinear_arith)
            requires n >= 0, d >= 1;
    } else {
        assert((2 * (-n) + d) / (2 * d) <= 2 * (-n) + d) by (nonlinear_arith)
            requires n < 0, d >= 1;
        assert((2 * (-n) + d) / (2 * d) >= 0) by (nonlinear_arith)
            requires n < 0, d >= 1;
    }
}

/// `n / d` rounded, halves away from zero, for figures already in `i128`.
pub fn div_round_wide(n: i128, d: i128) -> (r: i128)
    requires
        d > 0,
        -0x1_0000_0000_0000_0000_0000_0000 < n < 0x1_0000_0000_0000_0000_0000_0000,
        d < 0x1_0000_0000_0000_0000_0000_0000,
    ensures
        r == div_round(n as int, d as int),
        n >= 0 ==> 0 <= r <= n + 1,
        n < 0 ==> -(-n) - 1 <= r <= 0,
{
    if n >= 0 {
        proof {
            assert((2 * n + d) / (2 * d) <= n + 1) by (nonlinear_arith)
                requires n >= 0, d >= 1;
            assert((2 * n + d) / (2 * d) <= 2 * n + d) by (nonlinear_arith)
                requires n >= 0, d >= 1;
            assert((2 * n + d) / (2 * d) >= 0) by (nonlinear_arith)
                requires n >= 0, d >= 1;
        }
        (2 * n + d) / (2 * d)
    } else {
        proof {
            assert((2 * (-n) + d) / (2 * d) <= (-n) + 1) by (nonlinear_arith)
                requires n < 0, d >= 1;
            assert((2 * (-n) + d) / (2 * d) <= 2 * (-n) + d) by (nonlinear_arith)
                requires n < 0, d >= 1;
            assert((2 * (-n) + d) / (2 * d) >= 0) by (nonlinear_arith)
                requires n < 0, d >= 1;
        }
        -((2 * (-n) + d) / (2 * d))
    }
}

/// Bytes as MiB in hundredths, for byte counts up to `2^126` either way: the count is
/// split into whole MiB and a remainder so that nothing overflows.
pub fn mib_of_wide(p: i128) -> (r: i128)
    requires
        -0x4000_0000_0000_0000_0000_0000_0000_0000 <= p <= 0x4000_0000_0000_0000_0000_0000_0000_0000,
    ensures
        r == mib_hundredths(p as int),
{
    let m: i128 = if p >= 0 { p } else { -p };
    let q: i128 = m / 1048576;
    let rem: i128 = m % 1048576;
    let t: i128 = (200 * rem + 1048576) / 2097152;
    let v: i128 = 100 * q + t;
    proof {
        let x = 200 * (m as int) + 1048576;
        let s = (200 * (rem as int) + 1048576) % 2097152;
        assert(m == q * 1048576 + rem);
        assert(200 * rem + 1048576 == t * 2097152 + s);
        assert(x == (100 * q + t) * 2097152 + s);
        vstd::arithmetic::div_mod::lemma_fundamental_div_mod_converse(x, 2097152, 100 * q + t, s);
    }
    if p >= 0 {
        v
    } else {
        -v
    }
}

/// The position of key `k` in an association list.
pub open spec fn key_pos<V>(m: Seq<(Seq<char>, V)>, k: Seq<char>) -> Option<int>
    decreases m.len(),
{
    if m.len() == 0 {
        None
    } else {
        match key_pos(m.drop_last(), k) {
            Some(i) => Some(i),
            None => if m.last().0 == k {
                Some(m.len() - 1)
            } else {
                None
            },
        }
    }
}

/// A map insert on an association list: a present key takes the new value
/// in place, a new key goes at the end.
pub open spec fn upsert<V>(m: Seq<(Seq<char>, V)>, k: Seq<char>, v: V) -> Seq<(Seq<char>, V)> {
    match key_pos(m, k) {
        Some(i) => m.update(i, (k, v)),
        None => m.push((k, v)),
    }
}

/// The value stored under `k`.
pub open spec fn lookup<V>(m: Seq<(Seq<char>, V)>, k: Seq<char>) -> Option<V> {
    match key_pos(m, k) {
        Some(i) => Some(m[i].1),
        None => None,
    }
}

pub proof fn lemma_key_pos<V>(m: Seq<(Seq<char>, V)>, k: Seq<char>)
    ensures
        match key_pos(m, k) {
            Some(i) => 0 <= i < m.len() && m[i].0 == k && forall|j: int| 0 <= j < i ==> m[j].0 != k,
            None => forall|j: int| 0 <= j < m.len() ==> m[j].0 != k,
        },
    decreases m.len(),
{
    if m.len() > 0 {
        let d = m.drop_last();
        lemma_key_pos(d, k);
        assert(forall|j: int| 0 <= j < d.len() ==> d[j] == m[j]);
    }
}

} // verus!
