//! Cluster Drift — hosts that disagree with the rest of their cluster.

use vstd::prelude::*;
use super::{columns_view, row_view, Cell, CellValue, Column, ColumnKind};
use super::per_object::mos;
use super::snapshot::{lookup_name, name_lookup, names_view};
use super::vdisk::tagged_rows;

use crate::text::{
    count_of,
    strings_view,
    i64_text,
    int_text,
    join,
    joined as joined_with,
    sort_strings,
    sorted_strs,
    str_eq,
    trim,
    trim_ws,
};
use super::common::{bytes_to_gib, div_round, div_round_wide, gib_hundredths};
use crate::vcenter::soap::{array_prop_of, bool_prop_of, i64_prop_of, str_prop_of, ManagedObject, MoView};
use crate::vcenter::xml::{opt_str_view, XNode};

verus! {

/// The sheet's columns, labels as RVTools writes them.
pub open spec fn column_spec() -> Seq<(Seq<char>, ColumnKind)> {
    seq![
        ("Host"@, ColumnKind::Text),
        ("Setting"@, ColumnKind::Text),
        ("This host"@, ColumnKind::Text),
        ("Cluster majority"@, ColumnKind::Text),
        ("Hosts agreeing"@, ColumnKind::Number),
        ("Hosts compared"@, ColumnKind::Number),
    ]
}

/// Which column a label names; `-1` for none.
#[verifier::opaque]
pub open spec fn label_index(s: Seq<char>) -> int {
    if s == "Host"@ {
        0
    } else if s == "Setting"@ {
        1
    } else if s == "This host"@ {
        2
    } else if s == "Cluster majority"@ {
        3
    } else if s == "Hosts agreeing"@ {
        4
    } else if s == "Hosts compared"@ {
        5
    } else {
        -1
    }
}

/// The sheet's labels are distinct, and none is `VI SDK Server`.
pub proof fn lemma_labels_ok()
    ensures
        super::labels_ok(column_spec()),
{
    reveal(label_index);
    reveal_strlit("Host");
    assert("Host"@.len() == 4);
    reveal_strlit("Setting");
    assert("Setting"@.len() == 7);
    reveal_strlit("This host");
    assert("This host"@.len() == 9);
    reveal_strlit("Cluster majority");
    assert("Cluster majority"@.len() == 16);
    reveal_strlit("Hosts agreeing");
    assert("Hosts agreeing"@.len() == 14);
    reveal_strlit("Hosts compared");
    assert("Hosts compared"@.len() == 14);
    reveal_strlit("VI SDK Server");
    assert("VI SDK Server"@.len() == 13);
    assert("Hosts agreeing"@[6] == 'a');
    assert("Hosts compared"@[6] == 'c');
    let cols = column_spec();
    assert(label_index(super::VI_SDK_SERVER@) == -1);
    assert forall|i: int| 0 <= i < cols.len() implies label_index(#[trigger] cols[i].0) == i by {
        if i == 0 {
                    assert(label_index(cols[0].0) == 0);
                } else if i == 1 {
                    assert(label_index(cols[1].0) == 1);
                } else if i == 2 {
                    assert(label_index(cols[2].0) == 2);
                } else if i == 3 {
                    assert(label_index(cols[3].0) == 3);
                } else if i == 4 {
                    assert(label_index(cols[4].0) == 4);
                } else if i == 5 {
                    assert(label_index(cols[5].0) == 5);
                }
    }
}

pub fn columns() -> (r: Vec<Column>)
    ensures
        columns_view(r@) == column_spec(),
{
    let r = vec![
        Column::text("Host"),
        Column::text("Setting"),
        Column::text("This host"),
        Column::text("Cluster majority"),
        Column::number("Hosts agreeing"),
        Column::number("Hosts compared"),
    ];
    proof { assert(columns_view(r@) =~= column_spec()); }
    r
}

/// A scalar setting: its text trimmed, absent when nothing is left.
pub open spec fn text_of(h: MoView, path: Seq<char>) -> Option<Seq<char>> {
    match str_prop_of(h, path) {
        Some(t) => if trim_ws(t).len() > 0 {
            Some(trim_ws(t))
        } else {
            None
        },
        None => None,
    }
}

pub fn text(h: &ManagedObject, path: &str) -> (r: Option<String>)
    ensures
        opt_str_view(r) == text_of(h@, path@),
{
    match h.str_prop(path) {
        Some(t) => {
            let v = trim(t.as_str());
            if crate::text::chars_of(v.as_str()).len() > 0 {
                Some(v)
            } else {
                None
            }
        },
        None => None,
    }
}

/// A numeric setting, written in decimal.
pub open spec fn num_of(h: MoView, path: Seq<char>) -> Option<Seq<char>> {
    match i64_prop_of(h, path) {
        Some(n) => Some(int_text(n as int)),
        None => None,
    }
}

pub fn num(h: &ManagedObject, path: &str) -> (r: Option<String>)
    ensures
        opt_str_view(r) == num_of(h@, path@),
{
    match h.i64_prop(path) {
        Some(n) => Some(i64_text(n)),
        None => None,
    }
}

/// The trimmed text of each member, empty ones left out.
pub open spec fn trimmed_texts(ns: Seq<XNode>) -> Seq<Seq<char>>
    decreases ns.len(),
{
    if ns.len() == 0 {
        Seq::empty()
    } else if trim_ws(ns.last().text).len() > 0 {
        trimmed_texts(ns.drop_last()).push(trim_ws(ns.last().text))
    } else {
        trimmed_texts(ns.drop_last())
    }
}

/// A repeating setting as one comparable string: the members trimmed,
/// sorted and joined, so two hosts listing the same NTP servers in a
/// different order do not differ.
pub open spec fn joined_of(h: MoView, path: Seq<char>) -> Option<Seq<char>> {
    let parts = trimmed_texts(array_prop_of(h, path));
    if parts.len() == 0 {
        None
    } else {
        Some(joined_with(sorted_strs(parts), ", "@))
    }
}

pub fn joined(h: &ManagedObject, path: &str) -> (r: Option<String>)
    ensures
        opt_str_view(r) == joined_of(h@, path@),
{
    let items = h.array_prop(path);
    let ghost nv = array_prop_of(h@, path@);
    let mut parts: Vec<String> = Vec::new();
    let mut i: usize = 0;
    while i < items.len()
        invariant
            i <= items@.len(),
            items@.len() == nv.len(),
            nv == array_prop_of(h@, path@),
            forall|k: int| 0 <= k < nv.len() ==> (#[trigger] items@[k])@ == nv[k],
            parts@.map_values(|s: String| s@) =~= trimmed_texts(nv.take(i as int)),
        decreases items.len() - i,
    {
        proof { assert(nv.take(i + 1).drop_last() =~= nv.take(i as int)); }
        let t = trim(items[i].text.as_str());
        if crate::text::chars_of(t.as_str()).len() > 0 {
            let ghost before = parts@;
            parts.push(t);
            proof { assert(parts@.map_values(|s: String| s@) =~= before.map_values(|s: String| s@).push(t@)); }
        }
        i += 1;
    }
    proof { assert(nv.take(nv.len() as int) =~= nv); }
    if parts.len() == 0 {
        return None;
    }
    let sorted = sort_strings(parts);
    let r = join(&sorted, ", ");
    proof { assert(crate::text::strings_view(sorted@) =~= sorted@.map_values(|s: String| s@)); }
    Some(r)
}

/// `w` is held by strictly more hosts than any other value.
pub open spec fn strict_mode(vs: Seq<Seq<char>>, w: Seq<char>) -> bool {
    &&& vs.contains(w)
    &&& forall|v: Seq<char>| vs.contains(v) && v != w ==> count_of(vs, v) < count_of(vs, w)
}

/// The most common value and how many hold it; none on a tie, where there
/// is no majority to be the odd one out from.
pub open spec fn majority_of(vs: Seq<Seq<char>>) -> Option<(Seq<char>, nat)> {
    if exists|w: Seq<char>| strict_mode(vs, w) {
        let w = choose|w: Seq<char>| strict_mode(vs, w);
        Some((w, count_of(vs, w)))
    } else {
        None
    }
}

proof fn lemma_count_prefix(vs: Seq<Seq<char>>, v: Seq<char>, k: int)
    requires
        0 <= k <= vs.len(),
    ensures
        count_of(vs.take(k), v) <= count_of(vs, v),
        count_of(vs, v) <= vs.len(),
    decreases vs.len() - k,
{
    if k < vs.len() {
        assert(vs.drop_last().take(k) =~= vs.take(k));
        lemma_count_prefix(vs.drop_last(), v, k);
    } else {
        assert(vs.take(k) =~= vs);
        lemma_count_le_len(vs, v);
    }
}

proof fn lemma_count_le_len(vs: Seq<Seq<char>>, v: Seq<char>)
    ensures
        count_of(vs, v) <= vs.len(),
    decreases vs.len(),
{
    if vs.len() > 0 {
        lemma_count_le_len(vs.drop_last(), v);
    }
}

fn count_in(values: &Vec<String>, v: &String) -> (r: usize)
    ensures
        r == count_of(values@.map_values(|s: String| s@), v@),
{
    let ghost vv = values@.map_values(|s: String| s@);
    let mut c: usize = 0;
    let mut k: usize = 0;
    proof { assert(vv.take(0) =~= Seq::<Seq<char>>::empty()); }
    while k < values.len()
        invariant
            k <= values@.len(),
            vv == values@.map_values(|s: String| s@),
            c == count_of(vv.take(k as int), v@),
        decreases values.len() - k,
    {
        proof {
            assert(vv.take(k + 1).drop_last() =~= vv.take(k as int));
            assert(vv.take(k + 1).last() == values@[k as int]@);
            lemma_count_le_len(vv.take(k as int), v@);
        }
        if str_eq(values[k].as_str(), v.as_str()) {
            c = c + 1;
        }
        k += 1;
    }
    proof { assert(vv.take(vv.len() as int) =~= vv); }
    c
}

/// The most common value, and how many hosts hold it; `None` on a tie.
pub fn majority(values: &Vec<String>) -> (r: Option<(String, usize)>)
    requires
        values@.len() > 0,
    ensures
        match r {
            Some((w, n)) => majority_of(values@.map_values(|s: String| s@)) == Some((w@, n as nat)),
            None => majority_of(values@.map_values(|s: String| s@)).is_none(),
        },
{
    let ghost vv = values@.map_values(|s: String| s@);
    let mut best: usize = 0;
    let mut best_n: usize = count_in(values, &values[0]);
    let mut i: usize = 1;
    while i < values.len()
        invariant
            1 <= i <= values@.len(),
            vv == values@.map_values(|s: String| s@),
            best < values@.len(),
            best_n == count_of(vv, vv[best as int]),
            forall|k: int| 0 <= k < i ==> count_of(vv, #[trigger] vv[k]) <= best_n,
        decreases values.len() - i,
    {
        let n = count_in(values, &values[i]);
        if n > best_n {
            best = i;
            best_n = n;
        }
        i += 1;
    }
    let mut tie = false;
    let mut j: usize = 0;
    while j < values.len()
        invariant
            j <= values@.len(),
            vv == values@.map_values(|s: String| s@),
            best < values@.len(),
            best_n == count_of(vv, vv[best as int]),
            tie == exists|k: int| 0 <= k < j && vv[k] != vv[best as int] && count_of(vv, vv[k]) == best_n,
        decreases values.len() - j,
    {
        proof {
            assert(vv[j as int] == values@[j as int]@);
            assert(vv[best as int] == values@[best as int]@);
        }
        let ghost before = tie;
        if !str_eq(values[j].as_str(), values[best].as_str()) {
            let n = count_in(values, &values[j]);
            if n == best_n {
                tie = true;
            }
        }
        proof {
            if tie && !before {
                assert(0 <= j < j + 1 && vv[j as int] != vv[best as int] && count_of(vv, vv[j as int]) == best_n);
            }
            if !tie {
                assert forall|k: int| 0 <= k < j + 1 && vv[k] != vv[best as int] implies count_of(vv, vv[k]) != best_n by {
                    if k < j {
                    }
                }
            }
        }
        j += 1;
    }
    let ghost w = vv[best as int];
    proof {
        assert(forall|k: int| 0 <= k < vv.len() ==> count_of(vv, #[trigger] vv[k]) <= best_n);
    }
    if tie {
        proof {
            let k = choose|k: int| 0 <= k < j && vv[k] != w && count_of(vv, vv[k]) == best_n;
            if exists|x: Seq<char>| strict_mode(vv, x) {
                let x = choose|x: Seq<char>| strict_mode(vv, x);
                let xi = choose|m: int| 0 <= m < vv.len() && vv[m] == x;
                assert(count_of(vv, vv[xi]) <= best_n);
                if x == w {
                    assert(vv.contains(vv[k]));
                } else {
                    assert(vv.contains(w));
                }
            }
        }
        None
    } else {
        proof {
            assert(vv.contains(w));
            assert forall|v: Seq<char>| vv.contains(v) && v != w implies count_of(vv, v) < count_of(vv, w) by {
                let m = choose|m: int| 0 <= m < vv.len() && vv[m] == v;
                assert(count_of(vv, vv[m]) <= best_n);
            }
            assert(strict_mode(vv, w));
            let x = choose|x: Seq<char>| strict_mode(vv, x);
            if x != w {
                assert(vv.contains(x));
            }
        }
        Some((values[best].clone(), best_n))
    }
}
/// Memory rounded to whole GiB: two identical hosts can report byte counts
/// that differ slightly, and that is not a finding.
pub open spec fn memory_of(h: MoView, path: Seq<char>) -> Option<Seq<char>> {
    match i64_prop_of(h, path) {
        Some(b) => Some(int_text(div_round(gib_hundredths(b as int), 100))),
        None => None,
    }
}

pub fn memory(h: &ManagedObject, path: &str) -> (r: Option<String>)
    ensures
        opt_str_view(r) == memory_of(h@, path@),
{
    match h.i64_prop(path) {
        Some(b) => {
            let g = bytes_to_gib(b);
            proof {
                assert(-0x100_0000_0000 <= g <= 0x100_0000_0000) by (nonlinear_arith)
                    requires
                        g == div_round(b * 100, 1024 * 1024 * 1024int),
                        i64::MIN <= b <= i64::MAX,
                ;
            }
            let w = div_round_wide(g, 100);
            Some(i64_text(w as i64))
        },
        None => None,
    }
}

/// A yes/no setting, written `true` or `false`.
pub open spec fn flag_of(h: MoView, path: Seq<char>) -> Option<Seq<char>> {
    match bool_prop_of(h, path) {
        Some(b) => Some(if b { "true"@ } else { "false"@ }),
        None => None,
    }
}

pub fn flag(h: &ManagedObject, path: &str) -> (r: Option<String>)
    ensures
        opt_str_view(r) == flag_of(h@, path@),
{
    match h.bool_prop(path) {
        Some(b) => Some(String::from_str(if b { "true" } else { "false" })),
        None => None,
    }
}

/// How many settings are compared.
pub const CHECKS: usize = 22;

/// The settings that should match across a cluster: hardware first (it
/// explains the rest), then what breaks mobility, then what only bites in
/// an incident.
pub open spec fn check_label(k: int) -> Seq<char> {
    if k == 0 {
        "EVC mode"@
    } else if k == 1 {
        "CPU model"@
    } else if k == 2 {
        "ESXi build"@
    } else if k == 3 {
        "Hardware vendor"@
    } else if k == 4 {
        "Hardware model"@
    } else if k == 5 {
        "CPU sockets"@
    } else if k == 6 {
        "CPU cores"@
    } else if k == 7 {
        "CPU threads"@
    } else if k == 8 {
        "Memory GiB"@
    } else if k == 9 {
        "NUMA nodes"@
    } else if k == 10 {
        "NIC count"@
    } else if k == 11 {
        "HBA count"@
    } else if k == 12 {
        "BIOS version"@
    } else if k == 13 {
        "NTP servers"@
    } else if k == 14 {
        "Time zone"@
    } else if k == 15 {
        "DNS servers"@
    } else if k == 16 {
        "DNS domain"@
    } else if k == 17 {
        "DNS search domains"@
    } else if k == 18 {
        "Lockdown mode"@
    } else if k == 19 {
        "vSAN enabled"@
    } else if k == 20 {
        "Hyperthreading active"@
    } else if k == 21 {
        "Power policy"@
    } else {
        Seq::empty()
    }
}

pub fn label(k: usize) -> (r: &'static str)
    requires
        k < CHECKS,
    ensures
        r@ == check_label(k as int),
{
    if k == 0 {
        "EVC mode"
    } else if k == 1 {
        "CPU model"
    } else if k == 2 {
        "ESXi build"
    } else if k == 3 {
        "Hardware vendor"
    } else if k == 4 {
        "Hardware model"
    } else if k == 5 {
        "CPU sockets"
    } else if k == 6 {
        "CPU cores"
    } else if k == 7 {
        "CPU threads"
    } else if k == 8 {
        "Memory GiB"
    } else if k == 9 {
        "NUMA nodes"
    } else if k == 10 {
        "NIC count"
    } else if k == 11 {
        "HBA count"
    } else if k == 12 {
        "BIOS version"
    } else if k == 13 {
        "NTP servers"
    } else if k == 14 {
        "Time zone"
    } else if k == 15 {
        "DNS servers"
    } else if k == 16 {
        "DNS domain"
    } else if k == 17 {
        "DNS search domains"
    } else if k == 18 {
        "Lockdown mode"
    } else if k == 19 {
        "vSAN enabled"
    } else if k == 20 {
        "Hyperthreading active"
    } else if k == 21 {
        "Power policy"
    } else {
        ""
    }
}

/// What a host reports for a check; `None` keeps the host out of that
/// comparison.
pub open spec fn check_read(k: int, h: MoView) -> Option<Seq<char>> {
    if k == 0 {
        text_of(h, "summary.currentEVCModeKey"@)
    } else if k == 1 {
        text_of(h, "summary.hardware.cpuModel"@)
    } else if k == 2 {
        text_of(h, "summary.config.product.build"@)
    } else if k == 3 {
        text_of(h, "summary.hardware.vendor"@)
    } else if k == 4 {
        text_of(h, "summary.hardware.model"@)
    } else if k == 5 {
        num_of(h, "summary.hardware.numCpuPkgs"@)
    } else if k == 6 {
        num_of(h, "summary.hardware.numCpuCores"@)
    } else if k == 7 {
        num_of(h, "summary.hardware.numCpuThreads"@)
    } else if k == 8 {
        memory_of(h, "summary.hardware.memorySize"@)
    } else if k == 9 {
        num_of(h, "hardware.numaInfo.numNodes"@)
    } else if k == 10 {
        num_of(h, "summary.hardware.numNics"@)
    } else if k == 11 {
        num_of(h, "summary.hardware.numHBAs"@)
    } else if k == 12 {
        text_of(h, "hardware.biosInfo.biosVersion"@)
    } else if k == 13 {
        joined_of(h, "config.dateTimeInfo.ntpConfig.server"@)
    } else if k == 14 {
        text_of(h, "config.dateTimeInfo.timeZone.name"@)
    } else if k == 15 {
        joined_of(h, "config.network.dnsConfig.address"@)
    } else if k == 16 {
        text_of(h, "config.network.dnsConfig.domainName"@)
    } else if k == 17 {
        joined_of(h, "config.network.dnsConfig.searchDomain"@)
    } else if k == 18 {
        text_of(h, "config.lockdownMode"@)
    } else if k == 19 {
        flag_of(h, "config.vsanHostConfig.enabled"@)
    } else if k == 20 {
        flag_of(h, "config.hyperThread.active"@)
    } else if k == 21 {
        text_of(h, "hardware.cpuPowerManagementInfo.currentPolicy"@)
    } else {
        None
    }
}

pub fn read(k: usize, h: &ManagedObject) -> (r: Option<String>)
    ensures
        opt_str_view(r) == check_read(k as int, h@),
{
    if k == 0 {
        text(h, "summary.currentEVCModeKey")
    } else if k == 1 {
        text(h, "summary.hardware.cpuModel")
    } else if k == 2 {
        text(h, "summary.config.product.build")
    } else if k == 3 {
        text(h, "summary.hardware.vendor")
    } else if k == 4 {
        text(h, "summary.hardware.model")
    } else if k == 5 {
        num(h, "summary.hardware.numCpuPkgs")
    } else if k == 6 {
        num(h, "summary.hardware.numCpuCores")
    } else if k == 7 {
        num(h, "summary.hardware.numCpuThreads")
    } else if k == 8 {
        memory(h, "summary.hardware.memorySize")
    } else if k == 9 {
        num(h, "hardware.numaInfo.numNodes")
    } else if k == 10 {
        num(h, "summary.hardware.numNics")
    } else if k == 11 {
        num(h, "summary.hardware.numHBAs")
    } else if k == 12 {
        text(h, "hardware.biosInfo.biosVersion")
    } else if k == 13 {
        joined(h, "config.dateTimeInfo.ntpConfig.server")
    } else if k == 14 {
        text(h, "config.dateTimeInfo.timeZone.name")
    } else if k == 15 {
        joined(h, "config.network.dnsConfig.address")
    } else if k == 16 {
        text(h, "config.network.dnsConfig.domainName")
    } else if k == 17 {
        joined(h, "config.network.dnsConfig.searchDomain")
    } else if k == 18 {
        text(h, "config.lockdownMode")
    } else if k == 19 {
        flag(h, "config.vsanHostConfig.enabled")
    } else if k == 20 {
        flag(h, "config.hyperThread.active")
    } else if k == 21 {
        text(h, "hardware.cpuPowerManagementInfo.currentPolicy")
    } else {
        None
    }
}
/// A host by name, or by moref when it has none.
pub open spec fn host_label(h: MoView) -> Seq<char> {
    match str_prop_of(h, "name"@) {
        Some(n) => n,
        None => h.moref,
    }
}

/// The hosts that reported check `k`, each with its value, in order.
pub open spec fn reported(k: int, members: Seq<MoView>) -> Seq<(MoView, Seq<char>)>
    decreases members.len(),
{
    if members.len() == 0 {
        Seq::empty()
    } else {
        match check_read(k, members.last()) {
            Some(v) => reported(k, members.drop_last()).push((members.last(), v)),
            None => reported(k, members.drop_last()),
        }
    }
}

pub open spec fn values_of(rep: Seq<(MoView, Seq<char>)>) -> Seq<Seq<char>> {
    rep.map_values(|p: (MoView, Seq<char>)| p.1)
}

/// One finding: a host, the setting, its value, the majority value, how
/// many hosts agree and how many were compared.
pub open spec fn finding_cells(h: MoView, k: int, v: Seq<char>, w: Seq<char>, agreeing: int, compared: int) -> Seq<CellValue> {
    seq![
        CellValue::Text(host_label(h)),
        CellValue::Text(check_label(k)),
        CellValue::Text(v),
        CellValue::Text(w),
        CellValue::Number((agreeing * 100) as i128),
        CellValue::Number((compared * 100) as i128),
    ]
}

/// A row for every reported value other than the majority's.
pub open spec fn findings(k: int, rep: Seq<(MoView, Seq<char>)>, w: Seq<char>, agreeing: int, compared: int) -> Seq<
    (Seq<char>, Seq<CellValue>),
>
    decreases rep.len(),
{
    if rep.len() == 0 {
        Seq::empty()
    } else {
        let prev = findings(k, rep.drop_last(), w, agreeing, compared);
        if rep.last().1 == w {
            prev
        } else {
            prev.push((rep.last().0.moref, finding_cells(rep.last().0, k, rep.last().1, w, agreeing, compared)))
        }
    }
}

/// Check `k` over one cluster's hosts: compared only when two or more
/// reported it, and only when one value holds a strict majority.
pub open spec fn check_rows(k: int, members: Seq<MoView>) -> Seq<(Seq<char>, Seq<CellValue>)> {
    let rep = reported(k, members);
    if rep.len() < 2 {
        Seq::empty()
    } else {
        match majority_of(values_of(rep)) {
            None => Seq::empty(),
            Some((w, a)) => findings(k, rep, w, a as int, rep.len() as int),
        }
    }
}

/// The first `n` checks over one cluster's hosts.
pub open spec fn checks_rows(members: Seq<MoView>, n: int) -> Seq<(Seq<char>, Seq<CellValue>)>
    decreases n,
{
    if n <= 0 {
        Seq::empty()
    } else {
        checks_rows(members, n - 1) + check_rows(n - 1, members)
    }
}

/// A cluster's findings; a cluster of one has nothing to be consistent with.
pub open spec fn cluster_drift(members: Seq<MoView>) -> Seq<(Seq<char>, Seq<CellValue>)> {
    if members.len() < 2 {
        Seq::empty()
    } else {
        checks_rows(members, CHECKS as int)
    }
}

/// The hosts of cluster `c`, in order; `clusters` maps host morefs to
/// cluster morefs.
pub open spec fn members_of(hosts: Seq<MoView>, clusters: Seq<(Seq<char>, Seq<char>)>, c: Seq<char>) -> Seq<MoView>
    decreases hosts.len(),
{
    if hosts.len() == 0 {
        Seq::empty()
    } else if name_lookup(clusters, hosts.last().moref) == Some(c) {
        members_of(hosts.drop_last(), clusters, c).push(hosts.last())
    } else {
        members_of(hosts.drop_last(), clusters, c)
    }
}

/// Each cluster that holds a host, once, in order of first appearance.
pub open spec fn cluster_keys(hosts: Seq<MoView>, clusters: Seq<(Seq<char>, Seq<char>)>) -> Seq<Seq<char>>
    decreases hosts.len(),
{
    if hosts.len() == 0 {
        Seq::empty()
    } else {
        let prev = cluster_keys(hosts.drop_last(), clusters);
        match name_lookup(clusters, hosts.last().moref) {
            Some(c) => if prev.contains(c) {
                prev
            } else {
                prev.push(c)
            },
            None => prev,
        }
    }
}

/// The findings of the clusters `keys`, in that order.
pub open spec fn keyed_drift(keys: Seq<Seq<char>>, hosts: Seq<MoView>, clusters: Seq<(Seq<char>, Seq<char>)>) -> Seq<
    (Seq<char>, Seq<CellValue>),
>
    decreases keys.len(),
{
    if keys.len() == 0 {
        Seq::empty()
    } else {
        keyed_drift(keys.drop_last(), hosts, clusters) + cluster_drift(members_of(hosts, clusters, keys.last()))
    }
}

/// Every cluster's findings, clusters in order of their morefs.
pub open spec fn drift_of(hosts: Seq<MoView>, clusters: Seq<(Seq<char>, Seq<char>)>) -> Seq<(Seq<char>, Seq<CellValue>)> {
    keyed_drift(sorted_strs(cluster_keys(hosts, clusters)), hosts, clusters)
}

pub open spec fn refs_view(v: Seq<&ManagedObject>) -> Seq<MoView> {
    v.map_values(|m: &ManagedObject| m@)
}

fn push_check(out: &mut Vec<(String, Vec<Cell>)>, k: usize, members: &Vec<&ManagedObject>)
    requires
        k < CHECKS,
    ensures
        tagged_rows(final(out)@) == tagged_rows(old(out)@) + check_rows(k as int, refs_view(members@)),
{
    let ghost mv = refs_view(members@);
    let ghost start = tagged_rows(out@);
    let mut hosts: Vec<&ManagedObject> = Vec::new();
    let mut values: Vec<String> = Vec::new();
    let mut i: usize = 0;
    proof { assert(mv.take(0) =~= Seq::<MoView>::empty()); }
    while i < members.len()
        invariant
            i <= members@.len(),
            k < CHECKS,
            mv == refs_view(members@),
            hosts@.len() == values@.len(),
            hosts@.len() == reported(k as int, mv.take(i as int)).len(),
            forall|j: int| 0 <= j < hosts@.len() ==> (#[trigger] hosts@[j])@ == reported(k as int, mv.take(i as int))[j].0,
            values@.map_values(|x: String| x@) =~= values_of(reported(k as int, mv.take(i as int))),
        decreases members.len() - i,
    {
        proof {
            assert(mv.take(i + 1).drop_last() =~= mv.take(i as int));
            assert(mv.take(i + 1).last() == members@[i as int]@);
        }
        match read(k, members[i]) {
            Some(v) => {
                let ghost vb = values@;
                hosts.push(members[i]);
                values.push(v);
                proof { assert(values@.map_values(|x: String| x@) =~= vb.map_values(|x: String| x@).push(v@)); }
            },
            None => {},
        }
        i += 1;
    }
    proof { assert(mv.take(mv.len() as int) =~= mv); }
    let ghost rep = reported(k as int, mv);
    proof { assert(start + Seq::<(Seq<char>, Seq<CellValue>)>::empty() =~= start); }
    if values.len() < 2 {
        return;
    }
    let (w, agreeing) = match majority(&values) {
        Some(m) => m,
        None => return,
    };
    let compared = values.len();
    let mut j: usize = 0;
    proof { assert(rep.take(0) =~= Seq::<(MoView, Seq<char>)>::empty()); }
    while j < values.len()
        invariant
            j <= values@.len(),
            k < CHECKS,
            compared == values@.len(),
            rep == reported(k as int, mv),
            hosts@.len() == values@.len(),
            hosts@.len() == rep.len(),
            forall|m: int| 0 <= m < hosts@.len() ==> (#[trigger] hosts@[m])@ == rep[m].0,
            values@.map_values(|x: String| x@) =~= values_of(rep),
            tagged_rows(out@) == start + findings(k as int, rep.take(j as int), w@, agreeing as int, compared as int),
        decreases values.len() - j,
    {
        proof {
            assert(rep.take(j + 1).drop_last() =~= rep.take(j as int));
            assert(rep.take(j + 1).last() == rep[j as int]);
            assert(values@[j as int]@ == values_of(rep)[j as int]);
        }
        if !str_eq(values[j].as_str(), w.as_str()) {
            let h = hosts[j];
            let name = match h.str_prop("name") {
                Some(n) => n,
                None => h.moref.clone(),
            };
            let row = vec![
                Cell::Text(name),
                Cell::Text(String::from_str(label(k))),
                Cell::Text(values[j].clone()),
                Cell::Text(w.clone()),
                Cell::Number(agreeing as i128 * 100),
                Cell::Number(compared as i128 * 100),
            ];
            let ghost before = out@;
            out.push((h.moref.clone(), row));
            proof {
                assert(row_view(row) =~= finding_cells(rep[j as int].0, k as int, rep[j as int].1, w@, agreeing as int, compared as int));
                assert(tagged_rows(out@) =~= tagged_rows(before).push((h@.moref, row_view(row))));
            }
        }
        j += 1;
    }
    proof { assert(rep.take(rep.len() as int) =~= rep); }
}
/// Every host of a cluster that reports a setting reports the same value
/// for it.
pub open spec fn consistent(members: Seq<MoView>) -> bool {
    forall|k: int, i: int, j: int|
        0 <= k < CHECKS && 0 <= i < members.len() && 0 <= j < members.len() && (#[trigger] check_read(k, members[i])) is Some
            && (#[trigger] check_read(k, members[j])) is Some ==> check_read(k, members[i]) == check_read(k, members[j])
}

proof fn lemma_reported_from_members(k: int, members: Seq<MoView>)
    ensures
        forall|i: int|
            0 <= i < reported(k, members).len() ==> exists|j: int|
                0 <= j < members.len() && members[j] == (#[trigger] reported(k, members)[i]).0 && check_read(k, members[j]) == Some(
                    reported(k, members)[i].1,
                ),
    decreases members.len(),
{
    if members.len() > 0 {
        let prev = members.drop_last();
        lemma_reported_from_members(k, prev);
        let rep = reported(k, members);
        let rp = reported(k, prev);
        assert forall|i: int| 0 <= i < rep.len() implies exists|j: int|
            0 <= j < members.len() && members[j] == (#[trigger] rep[i]).0 && check_read(k, members[j]) == Some(rep[i].1) by {
            if i < rp.len() {
                assert(rep[i] == rp[i]);
                let j = choose|j: int| 0 <= j < prev.len() && prev[j] == (#[trigger] rp[i]).0 && check_read(k, prev[j]) == Some(rp[i].1);
                assert(members[j] == prev[j]);
            } else {
                assert(members[members.len() - 1] == members.last());
            }
        }
    }
}

proof fn lemma_findings_none(k: int, rep: Seq<(MoView, Seq<char>)>, w: Seq<char>, agreeing: int, compared: int)
    requires
        forall|i: int| 0 <= i < rep.len() ==> (#[trigger] rep[i]).1 == w,
    ensures
        findings(k, rep, w, agreeing, compared) == Seq::<(Seq<char>, Seq<CellValue>)>::empty(),
    decreases rep.len(),
{
    if rep.len() > 0 {
        assert(rep.last() == rep[rep.len() - 1]);
        lemma_findings_none(k, rep.drop_last(), w, agreeing, compared);
    }
}

proof fn lemma_consistent_check(k: int, members: Seq<MoView>)
    requires
        0 <= k < CHECKS,
        consistent(members),
    ensures
        check_rows(k, members) == Seq::<(Seq<char>, Seq<CellValue>)>::empty(),
{
    let rep = reported(k, members);
    if rep.len() >= 2 {
        lemma_reported_from_members(k, members);
        let w0 = rep[0].1;
        let vs = values_of(rep);
        assert forall|i: int| 0 <= i < rep.len() implies (#[trigger] rep[i]).1 == w0 by {
            let a = choose|j: int| 0 <= j < members.len() && members[j] == (#[trigger] rep[0]).0 && check_read(k, members[j]) == Some(rep[0].1);
            let b = choose|j: int| 0 <= j < members.len() && members[j] == (#[trigger] rep[i]).0 && check_read(k, members[j]) == Some(rep[i].1);
            assert(check_read(k, members[a]) is Some);
            assert(check_read(k, members[b]) is Some);
        }
        assert(vs[0] == w0);
        assert(vs.contains(w0));
        assert forall|v: Seq<char>| vs.contains(v) && v != w0 implies count_of(vs, v) < count_of(vs, w0) by {
            let m = choose|m: int| 0 <= m < vs.len() && vs[m] == v;
            assert(rep[m].1 == w0);
        }
        assert(strict_mode(vs, w0));
        let w = choose|w: Seq<char>| strict_mode(vs, w);
        assert(strict_mode(vs, w));
        let m = choose|m: int| 0 <= m < vs.len() && vs[m] == w;
        assert(rep[m].1 == w0);
        assert(w == w0);
        lemma_findings_none(k, rep, w0, count_of(vs, w0) as int, rep.len() as int);
    }
}

proof fn lemma_consistent_checks(members: Seq<MoView>, n: int)
    requires
        0 <= n <= CHECKS,
        consistent(members),
    ensures
        checks_rows(members, n) == Seq::<(Seq<char>, Seq<CellValue>)>::empty(),
    decreases n,
{
    if n > 0 {
        lemma_consistent_checks(members, n - 1);
        lemma_consistent_check(n - 1, members);
        assert(Seq::<(Seq<char>, Seq<CellValue>)>::empty() + Seq::<(Seq<char>, Seq<CellValue>)>::empty()
            =~= Seq::<(Seq<char>, Seq<CellValue>)>::empty());
    }
}

/// A cluster whose hosts agree on every setting they report has nothing to
/// show: an empty sheet is the good result.
pub proof fn lemma_consistent_cluster_has_no_drift(members: Seq<MoView>)
    requires
        consistent(members),
    ensures
        cluster_drift(members) == Seq::<(Seq<char>, Seq<CellValue>)>::empty(),
{
    if members.len() >= 2 {
        lemma_consistent_checks(members, CHECKS as int);
    }
}

/// Two hosts disagreeing one-to-one have no majority to be the odd one out
/// from, so neither is a finding.
pub proof fn lemma_even_split_has_no_finding(k: int, members: Seq<MoView>)
    requires
        reported(k, members).len() == 2,
        reported(k, members)[0].1 != reported(k, members)[1].1,
    ensures
        check_rows(k, members) == Seq::<(Seq<char>, Seq<CellValue>)>::empty(),
{
    let rep = reported(k, members);
    let vs = values_of(rep);
    let (a, b) = (vs[0], vs[1]);
    assert(vs.drop_last().drop_last() =~= Seq::<Seq<char>>::empty());
    assert(vs.drop_last() =~= seq![a]);
    assert(count_of(vs, a) == 1 && count_of(vs, b) == 1) by {
        let e = Seq::<Seq<char>>::empty();
        assert(count_of(e, a) == 0 && count_of(e, b) == 0);
        assert(seq![a].drop_last() =~= e);
        assert(seq![a].last() == a);
        assert(count_of(seq![a], a) == 1);
        assert(count_of(seq![a], b) == 0);
        assert(vs.last() == b);
    }
    if exists|w: Seq<char>| strict_mode(vs, w) {
        let w = choose|w: Seq<char>| strict_mode(vs, w);
        let m = choose|m: int| 0 <= m < vs.len() && vs[m] == w;
        if w == a {
            assert(vs.contains(b));
        } else {
            assert(w == b);
            assert(vs.contains(a));
        }
    }
}

/// Absence is not drift: every finding is about a host that reported the
/// setting, and reported a value other than the majority's.
pub proof fn lemma_findings_report_a_value(k: int, members: Seq<MoView>)
    ensures
        forall|i: int|
            0 <= i < check_rows(k, members).len() ==> exists|j: int|
                0 <= j < members.len() && members[j].moref == (#[trigger] check_rows(k, members)[i]).0 && check_read(k, members[j])
                    is Some && check_read(k, members[j]) != Some(majority_of(values_of(reported(k, members)))->Some_0.0),
{
    let rep = reported(k, members);
    if rep.len() >= 2 {
        if let Some((w, a)) = majority_of(values_of(rep)) {
            lemma_reported_from_members(k, members);
            lemma_findings_from(k, rep, w, a as int, rep.len() as int);
            let rows = check_rows(k, members);
            assert forall|i: int| 0 <= i < rows.len() implies exists|j: int|
                0 <= j < members.len() && members[j].moref == (#[trigger] rows[i]).0 && check_read(k, members[j]) is Some
                    && check_read(k, members[j]) != Some(w) by {
                let t = choose|t: int| 0 <= t < rep.len() && rep[t].0.moref == (#[trigger] rows[i]).0 && rep[t].1 != w;
                let j = choose|j: int| 0 <= j < members.len() && members[j] == (#[trigger] rep[t]).0 && check_read(k, members[j]) == Some(rep[t].1);
            }
        }
    }
}

proof fn lemma_findings_from(k: int, rep: Seq<(MoView, Seq<char>)>, w: Seq<char>, agreeing: int, compared: int)
    ensures
        forall|i: int|
            0 <= i < findings(k, rep, w, agreeing, compared).len() ==> exists|t: int|
                0 <= t < rep.len() && rep[t].0.moref == (#[trigger] findings(k, rep, w, agreeing, compared)[i]).0 && rep[t].1 != w,
    decreases rep.len(),
{
    if rep.len() > 0 {
        let prev = rep.drop_last();
        lemma_findings_from(k, prev, w, agreeing, compared);
        let fs = findings(k, rep, w, agreeing, compared);
        let fp = findings(k, prev, w, agreeing, compared);
        assert forall|i: int| 0 <= i < fs.len() implies exists|t: int|
            0 <= t < rep.len() && rep[t].0.moref == (#[trigger] fs[i]).0 && rep[t].1 != w by {
            if i < fp.len() {
                assert(fs[i] == fp[i]);
                let t = choose|t: int| 0 <= t < prev.len() && prev[t].0.moref == (#[trigger] fp[i]).0 && prev[t].1 != w;
                assert(rep[t] == prev[t]);
            } else {
                assert(rep[rep.len() - 1] == rep.last());
            }
        }
    }
}

/// What each setting compares, for every host: the label a finding shows
/// and the property it is read from. Text settings are the property
/// trimmed, absent when empty; counts are the property written in decimal;
/// memory is the byte count as whole GiB; lists are their trimmed members
/// sorted and joined with `, `; flags are `true` or `false`.
pub proof fn lemma_check_table(h: MoView)
    ensures
        check_label(0) == "EVC mode"@,
        check_read(0, h) == match str_prop_of(h, "summary.currentEVCModeKey"@) {
            Some(t) => if trim_ws(t).len() > 0 {
                Some(trim_ws(t))
            } else {
                None
            },
            None => None,
        },
        check_label(1) == "CPU model"@,
        check_read(1, h) == match str_prop_of(h, "summary.hardware.cpuModel"@) {
            Some(t) => if trim_ws(t).len() > 0 {
                Some(trim_ws(t))
            } else {
                None
            },
            None => None,
        },
        check_label(2) == "ESXi build"@,
        check_read(2, h) == match str_prop_of(h, "summary.config.product.build"@) {
            Some(t) => if trim_ws(t).len() > 0 {
                Some(trim_ws(t))
            } else {
                None
            },
            None => None,
        },
        check_label(3) == "Hardware vendor"@,
        check_read(3, h) == match str_prop_of(h, "summary.hardware.vendor"@) {
            Some(t) => if trim_ws(t).len() > 0 {
                Some(trim_ws(t))
            } else {
                None
            },
            None => None,
        },
        check_label(4) == "Hardware model"@,
        check_read(4, h) == match str_prop_of(h, "summary.hardware.model"@) {
            Some(t) => if trim_ws(t).len() > 0 {
                Some(trim_ws(t))
            } else {
                None
            },
            None => None,
        },
        check_label(5) == "CPU sockets"@,
        check_read(5, h) == match i64_prop_of(h, "summary.hardware.numCpuPkgs"@) {
            Some(n) => Some(int_text(n as int)),
            None => None,
        },
        check_label(6) == "CPU cores"@,
        check_read(6, h) == match i64_prop_of(h, "summary.hardware.numCpuCores"@) {
            Some(n) => Some(int_text(n as int)),
            None => None,
        },
        check_label(7) == "CPU threads"@,
        check_read(7, h) == match i64_prop_of(h, "summary.hardware.numCpuThreads"@) {
            Some(n) => Some(int_text(n as int)),
            None => None,
        },
        check_label(8) == "Memory GiB"@,
        check_read(8, h) == match i64_prop_of(h, "summary.hardware.memorySize"@) {
            Some(b) => Some(int_text(div_round(gib_hundredths(b as int), 100))),
            None => None,
        },
        check_label(9) == "NUMA nodes"@,
        check_read(9, h) == match i64_prop_of(h, "hardware.numaInfo.numNodes"@) {
            Some(n) => Some(int_text(n as int)),
            None => None,
        },
        check_label(10) == "NIC count"@,
        check_read(10, h) == match i64_prop_of(h, "summary.hardware.numNics"@) {
            Some(n) => Some(int_text(n as int)),
            None => None,
        },
        check_label(11) == "HBA count"@,
        check_read(11, h) == match i64_prop_of(h, "summary.hardware.numHBAs"@) {
            Some(n) => Some(int_text(n as int)),
            None => None,
        },
        check_label(12) == "BIOS version"@,
        check_read(12, h) == match str_prop_of(h, "hardware.biosInfo.biosVersion"@) {
            Some(t) => if trim_ws(t).len() > 0 {
                Some(trim_ws(t))
            } else {
                None
            },
            None => None,
        },
        check_label(13) == "NTP servers"@,
        check_read(13, h) == {
            let parts = trimmed_texts(array_prop_of(h, "config.dateTimeInfo.ntpConfig.server"@));
            if parts.len() == 0 {
                None
            } else {
                Some(joined_with(sorted_strs(parts), ", "@))
            }
        },
        check_label(14) == "Time zone"@,
        check_read(14, h) == match str_prop_of(h, "config.dateTimeInfo.timeZone.name"@) {
            Some(t) => if trim_ws(t).len() > 0 {
                Some(trim_ws(t))
            } else {
                None
            },
            None => None,
        },
        check_label(15) == "DNS servers"@,
        check_read(15, h) == {
            let parts = trimmed_texts(array_prop_of(h, "config.network.dnsConfig.address"@));
            if parts.len() == 0 {
                None
            } else {
                Some(joined_with(sorted_strs(parts), ", "@))
            }
        },
        check_label(16) == "DNS domain"@,
        check_read(16, h) == match str_prop_of(h, "config.network.dnsConfig.domainName"@) {
            Some(t) => if trim_ws(t).len() > 0 {
                Some(trim_ws(t))
            } else {
                None
            },
            None => None,
        },
        check_label(17) == "DNS search domains"@,
        check_read(17, h) == {
            let parts = trimmed_texts(array_prop_of(h, "config.network.dnsConfig.searchDomain"@));
            if parts.len() == 0 {
                None
            } else {
                Some(joined_with(sorted_strs(parts), ", "@))
            }
        },
        check_label(18) == "Lockdown mode"@,
        check_read(18, h) == match str_prop_of(h, "config.lockdownMode"@) {
            Some(t) => if trim_ws(t).len() > 0 {
                Some(trim_ws(t))
            } else {
                None
            },
            None => None,
        },
        check_label(19) == "vSAN enabled"@,
        check_read(19, h) == match bool_prop_of(h, "config.vsanHostConfig.enabled"@) {
            Some(b) => Some(if b {
                "true"@
            } else {
                "false"@
            }),
            None => None,
        },
        check_label(20) == "Hyperthreading active"@,
        check_read(20, h) == match bool_prop_of(h, "config.hyperThread.active"@) {
            Some(b) => Some(if b {
                "true"@
            } else {
                "false"@
            }),
            None => None,
        },
        check_label(21) == "Power policy"@,
        check_read(21, h) == match str_prop_of(h, "hardware.cpuPowerManagementInfo.currentPolicy"@) {
            Some(t) => if trim_ws(t).len() > 0 {
                Some(trim_ws(t))
            } else {
                None
            },
            None => None,
        },
{
}

fn contains_str(v: &Vec<String>, x: &String) -> (r: bool)
    ensures
        r == strings_view(v@).contains(x@),
{
    let mut i: usize = 0;
    while i < v.len()
        invariant
            i <= v@.len(),
            forall|j: int| 0 <= j < i ==> v@[j]@ != x@,
        decreases v.len() - i,
    {
        if str_eq(v[i].as_str(), x.as_str()) {
            proof { assert(strings_view(v@)[i as int] == x@); }
            return true;
        }
        i += 1;
    }
    proof {
        if strings_view(v@).contains(x@) {
            let j = choose|j: int| 0 <= j < strings_view(v@).len() && strings_view(v@)[j] == x@;
            assert(v@[j]@ == x@);
        }
    }
    false
}

fn keys_of(hosts: &Vec<ManagedObject>, clusters: &Vec<(String, String)>) -> (r: Vec<String>)
    ensures
        strings_view(r@) == cluster_keys(mos(hosts@), names_view(clusters@)),
{
    let ghost hv = mos(hosts@);
    let ghost cv = names_view(clusters@);
    let mut keys: Vec<String> = Vec::new();
    let mut i: usize = 0;
    proof { assert(hv.take(0) =~= Seq::<MoView>::empty()); }
    while i < hosts.len()
        invariant
            i <= hosts@.len(),
            hv == mos(hosts@),
            cv == names_view(clusters@),
            strings_view(keys@) =~= cluster_keys(hv.take(i as int), cv),
        decreases hosts.len() - i,
    {
        proof {
            assert(hv.take(i + 1).drop_last() =~= hv.take(i as int));
            assert(hv.take(i + 1).last() == hosts@[i as int]@);
        }
        match lookup_name(clusters, hosts[i].moref.as_str()) {
            Some(c) => if !contains_str(&keys, &c) {
                let ghost before = keys@;
                keys.push(c);
                proof { assert(strings_view(keys@) =~= strings_view(before).push(c@)); }
            },
            None => {},
        }
        i += 1;
    }
    proof { assert(hv.take(hv.len() as int) =~= hv); }
    keys
}

fn members<'a>(hosts: &'a Vec<ManagedObject>, clusters: &Vec<(String, String)>, c: &String) -> (r: Vec<&'a ManagedObject>)
    ensures
        refs_view(r@) == members_of(mos(hosts@), names_view(clusters@), c@),
{
    let ghost hv = mos(hosts@);
    let ghost cv = names_view(clusters@);
    let mut out: Vec<&'a ManagedObject> = Vec::new();
    let mut i: usize = 0;
    proof { assert(hv.take(0) =~= Seq::<MoView>::empty()); }
    while i < hosts.len()
        invariant
            i <= hosts@.len(),
            hv == mos(hosts@),
            cv == names_view(clusters@),
            refs_view(out@) =~= members_of(hv.take(i as int), cv, c@),
        decreases hosts.len() - i,
    {
        proof {
            assert(hv.take(i + 1).drop_last() =~= hv.take(i as int));
            assert(hv.take(i + 1).last() == hosts@[i as int]@);
        }
        match lookup_name(clusters, hosts[i].moref.as_str()) {
            Some(k) => if str_eq(k.as_str(), c.as_str()) {
                let ghost before = out@;
                out.push(&hosts[i]);
                proof { assert(refs_view(out@) =~= refs_view(before).push(hosts@[i as int]@)); }
            },
            None => {},
        }
        i += 1;
    }
    proof { assert(hv.take(hv.len() as int) =~= hv); }
    out
}

/// Cluster Drift: for each cluster, in order of its moref, and each setting,
/// a row for every host that holds a value other than the one a strict
/// majority of the reporting hosts agrees on. Only hosts that reported the
/// setting take part, two must have, and a tie is no finding. `clusters`
/// maps host morefs to cluster morefs; a host in none is standalone.
pub fn rows(hosts: &Vec<ManagedObject>, clusters: &Vec<(String, String)>) -> (r: Result<Vec<(String, Vec<Cell>)>, String>)
    ensures
        r matches Ok(v) && tagged_rows(v@) == drift_of(mos(hosts@), names_view(clusters@)),
{
    let ghost hv = mos(hosts@);
    let ghost cv = names_view(clusters@);
    let keys = sort_strings(keys_of(hosts, clusters));
    let ghost kv = strings_view(keys@);
    proof { assert(kv == sorted_strs(cluster_keys(hv, cv))); }
    let mut out: Vec<(String, Vec<Cell>)> = Vec::new();
    let mut i: usize = 0;
    proof {
        assert(kv.take(0) =~= Seq::<Seq<char>>::empty());
        assert(tagged_rows(out@) =~= Seq::<(Seq<char>, Seq<CellValue>)>::empty());
    }
    while i < keys.len()
        invariant
            i <= keys@.len(),
            hv == mos(hosts@),
            cv == names_view(clusters@),
            kv == strings_view(keys@),
            tagged_rows(out@) == keyed_drift(kv.take(i as int), hv, cv),
        decreases keys.len() - i,
    {
        proof {
            assert(kv.take(i + 1).drop_last() =~= kv.take(i as int));
            assert(kv.take(i + 1).last() == keys@[i as int]@);
        }
        let ms = members(hosts, clusters, &keys[i]);
        let ghost mv = refs_view(ms@);
        let ghost start = tagged_rows(out@);
        if ms.len() >= 2 {
            let mut k: usize = 0;
            while k < CHECKS
                invariant
                    k <= CHECKS,
                    mv == refs_view(ms@),
                    tagged_rows(out@) == start + checks_rows(mv, k as int),
                decreases CHECKS - k,
            {
                push_check(&mut out, k, &ms);
                proof { assert(start + checks_rows(mv, k as int) + check_rows(k as int, mv) =~= start + checks_rows(mv, k + 1)); }
                k += 1;
            }
        } else {
            proof { assert(start + Seq::<(Seq<char>, Seq<CellValue>)>::empty() =~= start); }
        }
        i += 1;
    }
    proof { assert(kv.take(kv.len() as int) =~= kv); }
    Ok(out)
}
} // verus!
