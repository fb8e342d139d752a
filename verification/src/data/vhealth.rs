//! vHealth — one row per detected health issue.

use vstd::prelude::*;
use super::{columns_view, rows_view, row_view, Cell, CellValue, Column, ColumnKind};
use super::snapshot::{mos_view, InventorySnapshot};
use super::timestamp::{created_text, format_created};
use crate::text::{
    chars_of,
    find_seq,
    first_occurrence,
    occurs_at,
    has_prefix,
    last_index_of,
    rfind_char,
    starts_with,
    str_eq,
    string_of_range,
};
use crate::vcenter::soap::{strs_view, array_prop_of, str_prop_of, ManagedObject, MoView};
use crate::vcenter::xml::{lemma_children_view, text_at_path, Element, XNode};

verus! {

/// The sheet's columns, labels as RVTools writes them.
pub open spec fn column_spec() -> Seq<(Seq<char>, ColumnKind)> {
    seq![
        ("Name"@, ColumnKind::Text),
        ("Message"@, ColumnKind::Text),
        ("Message type"@, ColumnKind::Text),
    ]
}

/// Which column a label names; `-1` for none.
#[verifier::opaque]
pub open spec fn label_index(s: Seq<char>) -> int {
    if s == "Name"@ {
        0
    } else if s == "Message"@ {
        1
    } else if s == "Message type"@ {
        2
    } else {
        -1
    }
}

/// The sheet's labels are distinct, and none is `VI SDK Server`.
pub proof fn lemma_labels_ok()
    ensures
        super::labels_ok(column_spec()),
{
    reveal(label_index);
    reveal_strlit("Name");
    assert("Name"@.len() == 4);
    reveal_strlit("Message");
    assert("Message"@.len() == 7);
    reveal_strlit("Message type");
    assert("Message type"@.len() == 12);
    reveal_strlit("VI SDK Server");
    assert("VI SDK Server"@.len() == 13);
    let cols = column_spec();
    assert(label_index(super::VI_SDK_SERVER@) == -1);
    assert forall|i: int| 0 <= i < cols.len() implies label_index(#[trigger] cols[i].0) == i by {
        if i == 0 {
                    assert(label_index(cols[0].0) == 0);
                } else if i == 1 {
                    assert(label_index(cols[1].0) == 1);
                } else if i == 2 {
                    assert(label_index(cols[2].0) == 2);
                }
    }
}

pub fn columns() -> (r: Vec<Column>)
    ensures
        columns_view(r@) == column_spec(),
{
    let r = vec![
        Column::text("Name"),
        Column::text("Message"),
        Column::text("Message type"),
    ];
    proof { assert(columns_view(r@) =~= column_spec()); }
    r
}

/// `HostSystem` properties this sheet reads.
pub open spec fn host_prop_names() -> Seq<Seq<char>> {
    seq![
        "name"@,
        "config.dateTimeInfo.ntpConfig.server"@,
        "config.service.service"@,
    ]
}

/// `HostSystem` properties this sheet reads.
pub fn host_props() -> (r: Vec<&'static str>)
    ensures
        strs_view(r@) == host_prop_names(),
{
    let r = vec![
        "name",
        "config.dateTimeInfo.ntpConfig.server",
        "config.service.service",
    ];
    proof { assert(strs_view(r@) =~= host_prop_names()); }
    r
}

/// `VirtualMachine` properties this sheet reads.
pub open spec fn vm_prop_names() -> Seq<Seq<char>> {
    seq![
        "name"@,
        "config.files.vmPathName"@,
        "config.hardware.device"@,
        "snapshot.rootSnapshotList"@,
    ]
}

/// `VirtualMachine` properties this sheet reads.
pub fn vm_props() -> (r: Vec<&'static str>)
    ensures
        strs_view(r@) == vm_prop_names(),
{
    let r = vec![
        "name",
        "config.files.vmPathName",
        "config.hardware.device",
        "snapshot.rootSnapshotList",
    ];
    proof { assert(strs_view(r@) =~= vm_prop_names()); }
    r
}

/// The folder of `[datastore] folder/name.vmx`: what lies between the first
/// `"] "` and the last `/` after it.
pub open spec fn folder_spec(path: Seq<char>) -> Option<Seq<char>> {
    match first_occurrence(path, "] "@) {
        Some(i) => {
            let rest = path.skip(i + 2);
            match last_index_of(rest, '/') {
                Some(j) => Some(rest.take(j)),
                None => None,
            }
        },
        None => None,
    }
}

/// The folder component of `[datastore] folder/name.vmx`.
///
/// `None` for a VM stored at the datastore root, which has no folder to
/// disagree with.
pub fn folder_of(vm_path: &str) -> (r: Option<&str>)
    ensures
        match r {
            Some(f) => folder_spec(vm_path@) == Some(f@),
            None => folder_spec(vm_path@).is_none(),
        },
{
    proof { reveal_strlit("] "); }
    let cs = chars_of(vm_path);
    let sep = chars_of("] ");
    match find_seq(&cs, &sep) {
        Some(i) => {
            proof {
                assert(occurs_at(cs@, sep@, i as int));
                assert(sep@.len() == 2);
                assert(i + 2 <= cs@.len());
                assert(cs@.len() == cs.len());
            }
            let start = i + 2;
            let rest = chars_of(string_of_range(&cs, start, cs.len()).as_str());
            proof { assert(rest@ =~= vm_path@.skip(i + 2)); }
            match rfind_char(&rest, '/') {
                Some(j) => {
                    let f = vm_path.substring_char(start, start + j);
                    proof { assert(f@ =~= rest@.take(j as int)); }
                    Some(f)
                },
                None => None,
            }
        },
        None => None,
    }
}

/// One row: the object, the message, and the message type.
pub open spec fn finding(name: Seq<char>, message: Seq<char>, kind: Seq<char>) -> Seq<CellValue> {
    seq![CellValue::Text(name), CellValue::Text(message), CellValue::Text(kind)]
}

fn row(name: &str, message: String, kind: &str) -> (r: Vec<Cell>)
    ensures
        row_view(r) == finding(name@, message@, kind@),
{
    let r = vec![Cell::Text(String::from_str(name)), Cell::Text(message), Cell::Text(String::from_str(kind))];
    proof { assert(row_view(r) =~= finding(name@, message@, kind@)); }
    r
}

/// The snapshot a tree node stands for, when it is named: its name and its
/// creation time (empty when absent).
pub open spec fn snapshot_entry(n: XNode) -> Seq<(Seq<char>, Seq<char>)> {
    match text_at_path(n, "name"@) {
        Some(nm) => seq![
            (
                nm,
                match text_at_path(n, "createTime"@) {
                    Some(t) => t,
                    None => Seq::empty(),
                },
            ),
        ],
        None => Seq::empty(),
    }
}

/// Every snapshot in a tree, depth first: the node, then each
/// `childSnapshotList` child's tree in order.
pub open spec fn snapshot_tree(n: XNode) -> Seq<(Seq<char>, Seq<char>)>
    decreases n,
{
    snapshot_entry(n) + snapshot_forest(n.children)
}

/// The trees of the `childSnapshotList` nodes among `cs`, in order.
pub open spec fn snapshot_forest(cs: Seq<XNode>) -> Seq<(Seq<char>, Seq<char>)>
    decreases cs,
{
    if cs.len() == 0 {
        Seq::empty()
    } else {
        snapshot_forest(cs.drop_last()) + if cs.last().name == "childSnapshotList"@ {
            snapshot_tree(cs.last())
        } else {
            Seq::empty()
        }
    }
}

pub open spec fn snaps_view(v: Seq<(String, String)>) -> Seq<(Seq<char>, Seq<char>)> {
    v.map_values(|p: (String, String)| (p.0@, p.1@))
}

/// Every snapshot in the tree, flattened; nested snapshots hang off
/// `childSnapshotList`.
pub fn walk_snapshots(node: &Element, out: &mut Vec<(String, String)>)
    ensures
        snaps_view(final(out)@) == snaps_view(old(out)@) + snapshot_tree(node@),
    decreases node,
{
    let ghost start = snaps_view(out@);
    match node.text_at("name") {
        Some(name) => {
            let created = match node.text_at("createTime") {
                Some(t) => t,
                None => String::new(),
            };
            let ghost before = out@;
            out.push((name, created));
            proof { assert(snaps_view(out@) =~= snaps_view(before).push((name@, created@))); }
        },
        None => {},
    }
    proof {
        assert(snaps_view(out@) =~= start + snapshot_entry(node@));
        lemma_children_view(*node);
    }
    let ghost mid = snaps_view(out@);
    let mut i: usize = 0;
    proof { assert(node@.children.take(0) =~= Seq::<XNode>::empty()); }
    while i < node.children.len()
        invariant
            i <= node.children@.len(),
            node@.children.len() == node.children@.len(),
            forall|k: int| 0 <= k < node.children@.len() ==> #[trigger] node@.children[k] == node.children@[k]@,
            snaps_view(out@) =~= mid + snapshot_forest(node@.children.take(i as int)),
        decreases node.children.len() - i,
    {
        proof {
            assert(node@.children.take(i + 1).drop_last() =~= node@.children.take(i as int));
            assert(node@.children.take(i + 1).last() == node.children@[i as int]@);
            assert(decreases_to!(node => node.children));
        }
        let child = &node.children[i];
        if str_eq(child.name.as_str(), "childSnapshotList") {
            walk_snapshots(child, out);
        }
        i += 1;
    }
    proof { assert(node@.children.take(node@.children.len() as int) =~= node@.children); }
}

/// The first service whose `key` is `key`.
pub open spec fn service_named(services: Seq<XNode>, key: Seq<char>) -> Option<XNode>
    decreases services.len(),
{
    if services.len() == 0 {
        None
    } else if text_at_path(services[0], "key"@) == Some(key) {
        Some(services[0])
    } else {
        service_named(services.drop_first(), key)
    }
}

/// Whether the `ntpd` service is reported running. A host that does not
/// report the service at all is not running it.
pub open spec fn ntpd_running(services: Seq<XNode>) -> bool {
    match service_named(services, "ntpd"@) {
        Some(s) => text_at_path(s, "running"@) == Some("true"@),
        None => false,
    }
}

proof fn lemma_first_ntpd(sv: Seq<XNode>, i: int)
    requires
        0 <= i < sv.len(),
        text_at_path(sv[i], "key"@) == Some("ntpd"@),
        forall|j: int| 0 <= j < i ==> text_at_path(#[trigger] sv[j], "key"@) != Some("ntpd"@),
    ensures
        service_named(sv, "ntpd"@) == Some(sv[i]),
    decreases i,
{
    if i > 0 {
        let rest = sv.drop_first();
        assert forall|j: int| 0 <= j < i - 1 implies text_at_path(#[trigger] rest[j], "key"@) != Some("ntpd"@) by {
            assert(rest[j] == sv[j + 1]);
        }
        assert(rest[i - 1] == sv[i]);
        lemma_first_ntpd(rest, i - 1);
    }
}

proof fn lemma_no_ntpd(sv: Seq<XNode>)
    requires
        forall|j: int| 0 <= j < sv.len() ==> text_at_path(#[trigger] sv[j], "key"@) != Some("ntpd"@),
    ensures
        service_named(sv, "ntpd"@) is None,
    decreases sv.len(),
{
    if sv.len() > 0 {
        let rest = sv.drop_first();
        assert forall|j: int| 0 <= j < rest.len() implies text_at_path(#[trigger] rest[j], "key"@) != Some("ntpd"@) by {
            assert(rest[j] == sv[j + 1]);
        }
        lemma_no_ntpd(rest);
    }
}

/// The NTP finding comes exactly when no NTP server entry has any text.
pub proof fn lemma_ntp_verdict(h: MoView)
    requires
        str_prop_of(h, "name"@) is Some,
    ensures
        host_findings_of(h) matches Ok(found) && (found.contains(
            finding(str_prop_of(h, "name"@)->Some_0, "NTP Server value is null!"@, "NTP"@),
        ) <==> forall|i: int|
            0 <= i < array_prop_of(h, "config.dateTimeInfo.ntpConfig.server"@).len() ==> (#[trigger] array_prop_of(
                h,
                "config.dateTimeInfo.ntpConfig.server"@,
            )[i]).text.len() == 0),
{
    reveal_strlit("NTPD service is not running!");
    reveal_strlit("NTP Server value is null!");
    assert("NTPD service is not running!"@.len() == 28);
    assert("NTP Server value is null!"@.len() == 25);
    let name = str_prop_of(h, "name"@)->Some_0;
    let ntpd_row = finding(name, "NTPD service is not running!"@, "NTPD"@);
    let ntp_row = finding(name, "NTP Server value is null!"@, "NTP"@);
    assert(ntp_row[1] != ntpd_row[1]);
    let found = host_findings_of(h)->Ok_0;
    let second: Seq<Seq<CellValue>> = if !ntpd_running(array_prop_of(h, "config.service.service"@)) {
        seq![ntpd_row]
    } else {
        Seq::empty()
    };
    assert(!second.contains(ntp_row)) by {
        if second.contains(ntp_row) {
            let k = choose|k: int| 0 <= k < second.len() && second[k] == ntp_row;
            assert(second[k] == ntpd_row);
        }
    }
    if no_ntp_server(array_prop_of(h, "config.dateTimeInfo.ntpConfig.server"@)) {
        assert(found =~= seq![ntp_row] + second);
        assert(found[0] == ntp_row);
    } else {
        assert(found =~= Seq::<Seq<CellValue>>::empty() + second);
    }
}

/// The NTPD verdict reads the first service, wherever it stands in the
/// list, whose key is `ntpd`: the host is flagged exactly when that service
/// is not reported running, and always when no service has that key.
pub proof fn lemma_ntpd_verdict(h: MoView)
    requires
        str_prop_of(h, "name"@) is Some,
    ensures
        host_findings_of(h) matches Ok(found) && {
            let name = str_prop_of(h, "name"@)->Some_0;
            let sv = array_prop_of(h, "config.service.service"@);
            let flagged = found.contains(finding(name, "NTPD service is not running!"@, "NTPD"@));
            &&& forall|i: int|
                0 <= i < sv.len() && text_at_path(#[trigger] sv[i], "key"@) == Some("ntpd"@) && (forall|j: int|
                    0 <= j < i ==> text_at_path(#[trigger] sv[j], "key"@) != Some("ntpd"@)) ==> (flagged <==> text_at_path(
                    sv[i],
                    "running"@,
                ) != Some("true"@))
            &&& (forall|j: int| 0 <= j < sv.len() ==> text_at_path(#[trigger] sv[j], "key"@) != Some("ntpd"@)) ==> flagged
        },
{
    reveal_strlit("NTPD service is not running!");
    reveal_strlit("NTP Server value is null!");
    assert("NTPD service is not running!"@.len() == 28);
    assert("NTP Server value is null!"@.len() == 25);
    let name = str_prop_of(h, "name"@)->Some_0;
    let sv = array_prop_of(h, "config.service.service"@);
    let ntpd_row = finding(name, "NTPD service is not running!"@, "NTPD"@);
    let ntp_row = finding(name, "NTP Server value is null!"@, "NTP"@);
    assert(ntp_row[1] != ntpd_row[1]);
    let found = host_findings_of(h)->Ok_0;
    let first: Seq<Seq<CellValue>> = if no_ntp_server(array_prop_of(h, "config.dateTimeInfo.ntpConfig.server"@)) {
        seq![ntp_row]
    } else {
        Seq::empty()
    };
    assert(!first.contains(ntpd_row)) by {
        if first.contains(ntpd_row) {
            let k = choose|k: int| 0 <= k < first.len() && first[k] == ntpd_row;
            assert(first[k] == ntp_row);
        }
    }
    if ntpd_running(sv) {
        assert(found =~= first + Seq::empty());
        assert(!found.contains(ntpd_row));
    } else {
        assert(found =~= first + seq![ntpd_row]);
        assert(found[first.len() as int] == ntpd_row);
        assert(found.contains(ntpd_row));
    }
    assert forall|i: int|
        0 <= i < sv.len() && text_at_path(#[trigger] sv[i], "key"@) == Some("ntpd"@) && (forall|j: int|
            0 <= j < i ==> text_at_path(#[trigger] sv[j], "key"@) != Some("ntpd"@)) implies (found.contains(ntpd_row)
        <==> text_at_path(sv[i], "running"@) != Some("true"@)) by {
        lemma_first_ntpd(sv, i);
    }
    if forall|j: int| 0 <= j < sv.len() ==> text_at_path(#[trigger] sv[j], "key"@) != Some("ntpd"@) {
        lemma_no_ntpd(sv);
    }
}

/// Every NTP server entry is empty (or there is none).
pub open spec fn no_ntp_server(servers: Seq<XNode>) -> bool {
    forall|i: int| 0 <= i < servers.len() ==> (#[trigger] servers[i]).text.len() == 0
}

/// A host's findings: no NTP server, then NTPD not running.
pub open spec fn host_findings_of(h: MoView) -> Result<Seq<Seq<CellValue>>, Seq<char>> {
    match str_prop_of(h, "name"@) {
        None => Err("HostSystem "@ + h.moref + " returned no name property"@),
        Some(name) => Ok(
            (if no_ntp_server(array_prop_of(h, "config.dateTimeInfo.ntpConfig.server"@)) {
                seq![finding(name, "NTP Server value is null!"@, "NTP"@)]
            } else {
                Seq::empty()
            }) + (if !ntpd_running(array_prop_of(h, "config.service.service"@)) {
                seq![finding(name, "NTPD service is not running!"@, "NTPD"@)]
            } else {
                Seq::empty()
            }),
        ),
    }
}

pub fn host_findings(host: &ManagedObject, rows: &mut Vec<Vec<Cell>>) -> (r: Result<(), String>)
    ensures
        match r {
            Ok(_) => host_findings_of(host@) matches Ok(found) && rows_view(final(rows)@) == rows_view(old(rows)@) + found,
            Err(e) => host_findings_of(host@) == Err::<Seq<Seq<CellValue>>, Seq<char>>(e@) && rows_view(final(rows)@) == rows_view(old(rows)@),
        },
{
    let name = match host.str_prop("name") {
        Some(n) => n,
        None => {
            return Err(String::from_str("HostSystem ").concat(host.moref.as_str()).concat(" returned no name property"));
        },
    };
    let ghost start = rows_view(rows@);
    let servers = host.array_prop("config.dateTimeInfo.ntpConfig.server");
    let mut all_empty = true;
    let mut i: usize = 0;
    while i < servers.len()
        invariant
            i <= servers@.len(),
            all_empty == forall|k: int| 0 <= k < i ==> (#[trigger] servers@[k])@.text.len() == 0,
        decreases servers.len() - i,
    {
        if chars_of(servers[i].text.as_str()).len() > 0 {
            all_empty = false;
        }
        i += 1;
    }
    proof {
        let sv = array_prop_of(host@, "config.dateTimeInfo.ntpConfig.server"@);
        if all_empty {
            assert forall|k: int| 0 <= k < sv.len() implies (#[trigger] sv[k]).text.len() == 0 by {
                assert(servers@[k]@ == sv[k]);
            }
        } else {
            let k = choose|k: int| 0 <= k < servers@.len() && (#[trigger] servers@[k])@.text.len() != 0;
            assert(servers@[k]@ == sv[k]);
        }
    }
    let ghost ntp_rows = if all_empty {
        seq![finding(name@, "NTP Server value is null!"@, "NTP"@)]
    } else {
        Seq::empty()
    };
    if all_empty {
        let ghost before = rows@;
        let r = row(name.as_str(), String::from_str("NTP Server value is null!"), "NTP");
        rows.push(r);
        proof { assert(rows_view(rows@) =~= rows_view(before).push(row_view(r))); }
    }
    proof { assert(rows_view(rows@) =~= start + ntp_rows); }
    let running = service_running_ntpd(host);
    if !running {
        let ghost before = rows@;
        let r = row(name.as_str(), String::from_str("NTPD service is not running!"), "NTPD");
        rows.push(r);
        proof { assert(rows_view(rows@) =~= rows_view(before).push(row_view(r))); }
    }
    proof {
        assert(rows_view(rows@) =~= start + host_findings_of(host@)->Ok_0);
    }
    Ok(())
}

fn service_running_ntpd(host: &ManagedObject) -> (r: bool)
    ensures
        r == ntpd_running(array_prop_of(host@, "config.service.service"@)),
{
    let services = host.array_prop("config.service.service");
    let ghost sv = array_prop_of(host@, "config.service.service"@);
    let mut i: usize = 0;
    proof { assert(sv.skip(0) =~= sv); }
    while i < services.len()
        invariant
            i <= services@.len(),
            services@.len() == sv.len(),
            sv == array_prop_of(host@, "config.service.service"@),
            forall|k: int| 0 <= k < sv.len() ==> (#[trigger] services@[k])@ == sv[k],
            service_named(sv, "ntpd"@) == service_named(sv.skip(i as int), "ntpd"@),
        decreases services.len() - i,
    {
        proof {
            assert(sv.skip(i as int).drop_first() =~= sv.skip(i + 1));
            assert(sv.skip(i as int)[0] == sv[i as int]);
        }
        let key = services[i].text_at("key");
        let is_ntpd = match &key {
            Some(k) => str_eq(k.as_str(), "ntpd"),
            None => false,
        };
        if is_ntpd {
            proof {
                assert(text_at_path(sv[i as int], "key"@) == Some("ntpd"@));
                assert(service_named(sv.skip(i as int), "ntpd"@) == Some(sv[i as int]));
            }
            let running = services[i].text_at("running");
            let res = match &running {
                Some(v) => str_eq(v.as_str(), "true"),
                None => false,
            };
            proof {
                assert(services@[i as int]@ == sv[i as int]);
                assert(res == (text_at_path(sv[i as int], "running"@) == Some("true"@)));
                assert(ntpd_running(sv) == (text_at_path(sv[i as int], "running"@) == Some("true"@)));
            }
            return res;
        }
        i += 1;
    }
    false
}

pub open spec fn device_label(d: XNode) -> Seq<char> {
    match text_at_path(d, "deviceInfo/label"@) {
        Some(l) => l,
        None => Seq::empty(),
    }
}

/// A connected CD-ROM. Ethernet cards carry a `connectable` block too, so
/// the device type is checked as well.
pub open spec fn connected_cdrom(d: XNode) -> bool {
    d.xsi_type == Some("VirtualCdrom"@) && text_at_path(d, "connectable/connected"@) == Some("true"@)
}

/// One row per connected CD-ROM among `ds`, in order.
pub open spec fn cdrom_rows(name: Seq<char>, ds: Seq<XNode>) -> Seq<Seq<CellValue>>
    decreases ds.len(),
{
    if ds.len() == 0 {
        Seq::empty()
    } else {
        cdrom_rows(name, ds.drop_last()) + if connected_cdrom(ds.last()) {
            seq![finding(name, "VM has a CDROM device connected! "@ + device_label(ds.last()), "CDROM"@)]
        } else {
            Seq::empty()
        }
    }
}

/// Every snapshot under every root, in order.
pub open spec fn roots_snapshots(rs: Seq<XNode>) -> Seq<(Seq<char>, Seq<char>)>
    decreases rs.len(),
{
    if rs.len() == 0 {
        Seq::empty()
    } else {
        roots_snapshots(rs.drop_last()) + snapshot_tree(rs.last())
    }
}

pub open spec fn snapshot_row(name: Seq<char>, snap: (Seq<char>, Seq<char>)) -> Seq<CellValue> {
    finding(name, "VM has an active snapshot! "@ + snap.0 + " created on "@ + created_text(snap.1), "Snapshot"@)
}

/// The folder finding: the folder of the `.vmx` path differs from the VM's
/// name, compared case-sensitively.
pub open spec fn folder_rows(name: Seq<char>, v: MoView) -> Seq<Seq<CellValue>> {
    match str_prop_of(v, "config.files.vmPathName"@) {
        Some(p) => match folder_spec(p) {
            Some(f) => if f != name {
                seq![finding(name, "Inconsistent Foldername! VMname = "@ + name + " Foldername = "@ + f, "Foldername"@)]
            } else {
                Seq::empty()
            },
            None => Seq::empty(),
        },
        None => Seq::empty(),
    }
}

/// A CD-ROM finding is raised for every `VirtualCdrom` device reported
/// connected, and for nothing else: a disconnected drive, or any other
/// device with a `connectable` block, raises none.
pub proof fn lemma_cdrom_findings(name: Seq<char>, ds: Seq<XNode>)
    ensures
        forall|i: int|
            0 <= i < ds.len() && (#[trigger] ds[i]).xsi_type == Some("VirtualCdrom"@) && text_at_path(
                ds[i],
                "connectable/connected"@,
            ) == Some("true"@) ==> cdrom_rows(name, ds).contains(
                finding(name, "VM has a CDROM device connected! "@ + device_label(ds[i]), "CDROM"@),
            ),
        (forall|i: int|
            0 <= i < ds.len() ==> !((#[trigger] ds[i]).xsi_type == Some("VirtualCdrom"@) && text_at_path(
                ds[i],
                "connectable/connected"@,
            ) == Some("true"@))) ==> cdrom_rows(name, ds).len() == 0,
        cdrom_rows(name, ds).len() <= ds.len(),
    decreases ds.len(),
{
    if ds.len() > 0 {
        let p = ds.drop_last();
        lemma_cdrom_findings(name, p);
        let prev = cdrom_rows(name, p);
        let all = cdrom_rows(name, ds);
        assert forall|i: int|
            0 <= i < ds.len() && (#[trigger] ds[i]).xsi_type == Some("VirtualCdrom"@) && text_at_path(
                ds[i],
                "connectable/connected"@,
            ) == Some("true"@) implies all.contains(
            finding(name, "VM has a CDROM device connected! "@ + device_label(ds[i]), "CDROM"@),
        ) by {
            let f = finding(name, "VM has a CDROM device connected! "@ + device_label(ds[i]), "CDROM"@);
            if i < p.len() {
                assert(p[i] == ds[i]);
                let k = choose|k: int| 0 <= k < prev.len() && prev[k] == f;
                assert(all[k] == prev[k]);
            } else {
                assert(ds[i] == ds.last());
                assert(all[prev.len() as int] == f);
            }
        }
        if forall|i: int|
            0 <= i < ds.len() ==> !((#[trigger] ds[i]).xsi_type == Some("VirtualCdrom"@) && text_at_path(
                ds[i],
                "connectable/connected"@,
            ) == Some("true"@)) {
            assert forall|i: int|
                0 <= i < p.len() implies !((#[trigger] p[i]).xsi_type == Some("VirtualCdrom"@) && text_at_path(
                p[i],
                "connectable/connected"@,
            ) == Some("true"@)) by {
                assert(p[i] == ds[i]);
            }
            assert(ds.last() == ds[ds.len() - 1]);
        }
    }
}

proof fn lemma_roots_hold_their_snapshots(rs: Seq<XNode>)
    ensures
        forall|i: int|
            0 <= i < rs.len() && (#[trigger] text_at_path(rs[i], "name"@)) is Some ==> roots_snapshots(rs).contains(
                snapshot_entry(rs[i])[0],
            ),
    decreases rs.len(),
{
    if rs.len() > 0 {
        let p = rs.drop_last();
        lemma_roots_hold_their_snapshots(p);
        let prev = roots_snapshots(p);
        let all = roots_snapshots(rs);
        let t = snapshot_tree(rs.last());
        assert(all == prev + t);
        assert forall|i: int|
            0 <= i < rs.len() && (#[trigger] text_at_path(rs[i], "name"@)) is Some implies all.contains(
            snapshot_entry(rs[i])[0],
        ) by {
            if i < p.len() {
                assert(p[i] == rs[i]);
                assert(text_at_path(p[i], "name"@) is Some);
                let k = choose|k: int| 0 <= k < prev.len() && prev[k] == snapshot_entry(p[i])[0];
                assert(all[k] == prev[k]);
            } else {
                assert(rs[i] == rs.last());
                assert(t[0] == snapshot_entry(rs.last())[0]);
                assert(all[prev.len() as int] == t[0]);
            }
        }
    }
}

/// Every top-level snapshot of a VM that is checked is reported: a
/// `rootSnapshotList` entry named `n` and created at `c` gives the finding
/// `VM has an active snapshot! n created on c`.
pub proof fn lemma_root_snapshots_reported(v: MoView)
    requires
        str_prop_of(v, "name"@) matches Some(n) && !has_prefix(n, "vCLS-"@),
    ensures
        vm_findings_of(v) matches Ok(found) && forall|i: int|
            0 <= i < array_prop_of(v, "snapshot.rootSnapshotList"@).len() && (#[trigger] text_at_path(
                array_prop_of(v, "snapshot.rootSnapshotList"@)[i],
                "name"@,
            )) is Some ==> found.contains(
                snapshot_row(
                    str_prop_of(v, "name"@)->Some_0,
                    snapshot_entry(array_prop_of(v, "snapshot.rootSnapshotList"@)[i])[0],
                ),
            ),
{
    let name = str_prop_of(v, "name"@)->Some_0;
    let rs = array_prop_of(v, "snapshot.rootSnapshotList"@);
    lemma_roots_hold_their_snapshots(rs);
    let snaps = roots_snapshots(rs);
    let mapped = snaps.map_values(|p: (Seq<char>, Seq<char>)| snapshot_row(name, p));
    let head = folder_rows(name, v) + cdrom_rows(name, array_prop_of(v, "config.hardware.device"@));
    let found = vm_findings_of(v)->Ok_0;
    assert(found == head + mapped);
    assert forall|i: int|
        0 <= i < rs.len() && (#[trigger] text_at_path(rs[i], "name"@)) is Some implies found.contains(
        snapshot_row(name, snapshot_entry(rs[i])[0]),
    ) by {
        let e = snapshot_entry(rs[i])[0];
        let k = choose|k: int| 0 <= k < snaps.len() && snaps[k] == e;
        assert(mapped[k] == snapshot_row(name, e));
        assert(found[head.len() + k] == mapped[k]);
    }
}

/// A VM's findings: folder name, connected CD-ROMs, then one per snapshot.
/// vCLS VMs are vSphere-managed and skipped.
pub open spec fn vm_findings_of(v: MoView) -> Result<Seq<Seq<CellValue>>, Seq<char>> {
    match str_prop_of(v, "name"@) {
        None => Err("VirtualMachine "@ + v.moref + " returned no name property"@),
        Some(name) => if has_prefix(name, "vCLS-"@) {
            Ok(Seq::empty())
        } else {
            Ok(
                folder_rows(name, v) + cdrom_rows(name, array_prop_of(v, "config.hardware.device"@))
                    + roots_snapshots(array_prop_of(v, "snapshot.rootSnapshotList"@)).map_values(
                    |p: (Seq<char>, Seq<char>)| snapshot_row(name, p),
                ),
            )
        },
    }
}

pub fn vm_findings(vm: &ManagedObject, rows: &mut Vec<Vec<Cell>>) -> (r: Result<(), String>)
    ensures
        match r {
            Ok(_) => vm_findings_of(vm@) matches Ok(found) && rows_view(final(rows)@) == rows_view(old(rows)@) + found,
            Err(e) => vm_findings_of(vm@) == Err::<Seq<Seq<CellValue>>, Seq<char>>(e@) && rows_view(final(rows)@) == rows_view(old(rows)@),
        },
{
    let name = match vm.str_prop("name") {
        Some(n) => n,
        None => {
            return Err(String::from_str("VirtualMachine ").concat(vm.moref.as_str()).concat(" returned no name property"));
        },
    };
    if starts_with(name.as_str(), "vCLS-") {
        proof { assert(rows_view(rows@) =~= rows_view(old(rows)@) + Seq::<Seq<CellValue>>::empty()); }
        return Ok(());
    }
    let ghost start = rows_view(rows@);

    // Foldername: the comparison is case-sensitive; RVTools flags "FLASK"
    // in folder "flask".
    match vm.str_prop("config.files.vmPathName") {
        Some(path) => match folder_of(path.as_str()) {
            Some(folder) => {
                if !str_eq(folder, name.as_str()) {
                    let msg = String::from_str("Inconsistent Foldername! VMname = ").concat(name.as_str()).concat(
                        " Foldername = ",
                    ).concat(folder);
                    let r = row(name.as_str(), msg, "Foldername");
                    let ghost before = rows@;
                    rows.push(r);
                    proof { assert(rows_view(rows@) =~= rows_view(before).push(row_view(r))); }
                }
            },
            None => {},
        },
        None => {},
    }
    let ghost after_folder = rows_view(rows@);
    proof { assert(after_folder =~= start + folder_rows(name@, vm@)); }

    // CDROM: only CD-ROM devices, and only those actually connected.
    let devices = vm.array_prop("config.hardware.device");
    let ghost dv = array_prop_of(vm@, "config.hardware.device"@);
    let mut i: usize = 0;
    proof { assert(dv.take(0) =~= Seq::<XNode>::empty()); }
    while i < devices.len()
        invariant
            i <= devices@.len(),
            devices@.len() == dv.len(),
            forall|k: int| 0 <= k < dv.len() ==> (#[trigger] devices@[k])@ == dv[k],
            rows_view(rows@) =~= after_folder + cdrom_rows(name@, dv.take(i as int)),
        decreases devices.len() - i,
    {
        let d = devices[i];
        proof {
            assert(dv.take(i + 1).drop_last() =~= dv.take(i as int));
            assert(dv.take(i + 1).last() == d@);
        }
        let is_cdrom = match &d.xsi_type {
            Some(t) => str_eq(t.as_str(), "VirtualCdrom"),
            None => false,
        };
        let connected = match d.text_at("connectable/connected") {
            Some(c) => str_eq(c.as_str(), "true"),
            None => false,
        };
        if is_cdrom && connected {
            let label = match d.text_at("deviceInfo/label") {
                Some(l) => l,
                None => String::new(),
            };
            let msg = String::from_str("VM has a CDROM device connected! ").concat(label.as_str());
            let r = row(name.as_str(), msg, "CDROM");
            let ghost before = rows@;
            rows.push(r);
            proof { assert(rows_view(rows@) =~= rows_view(before).push(row_view(r))); }
        }
        i += 1;
    }
    proof { assert(dv.take(dv.len() as int) =~= dv); }
    let ghost after_cdrom = rows_view(rows@);

    let roots = vm.array_prop("snapshot.rootSnapshotList");
    let ghost rv = array_prop_of(vm@, "snapshot.rootSnapshotList"@);
    let mut snapshots: Vec<(String, String)> = Vec::new();
    let mut j: usize = 0;
    proof { assert(rv.take(0) =~= Seq::<XNode>::empty()); }
    while j < roots.len()
        invariant
            j <= roots@.len(),
            roots@.len() == rv.len(),
            forall|k: int| 0 <= k < rv.len() ==> (#[trigger] roots@[k])@ == rv[k],
            snaps_view(snapshots@) =~= roots_snapshots(rv.take(j as int)),
        decreases roots.len() - j,
    {
        proof {
            assert(rv.take(j + 1).drop_last() =~= rv.take(j as int));
            assert(rv.take(j + 1).last() == roots@[j as int]@);
        }
        walk_snapshots(roots[j], &mut snapshots);
        j += 1;
    }
    proof { assert(rv.take(rv.len() as int) =~= rv); }
    let ghost sv = snaps_view(snapshots@);
    let mut k: usize = 0;
    while k < snapshots.len()
        invariant
            k <= snapshots@.len(),
            sv == snaps_view(snapshots@),
            rows_view(rows@) =~= after_cdrom + sv.take(k as int).map_values(
                |p: (Seq<char>, Seq<char>)| snapshot_row(name@, p),
            ),
        decreases snapshots.len() - k,
    {
        let created = format_created(snapshots[k].1.as_str());
        let msg = String::from_str("VM has an active snapshot! ").concat(snapshots[k].0.as_str()).concat(
            " created on ",
        ).concat(created.as_str());
        let r = row(name.as_str(), msg, "Snapshot");
        let ghost before = rows@;
        rows.push(r);
        proof {
            assert(rows_view(rows@) =~= rows_view(before).push(row_view(r)));
            assert(sv.take(k + 1) =~= sv.take(k as int).push(sv[k as int]));
            assert(row_view(r) == snapshot_row(name@, sv[k as int]));
        }
        k += 1;
    }
    proof {
        assert(sv.take(sv.len() as int) =~= sv);
        assert(rows_view(rows@) =~= start + vm_findings_of(vm@)->Ok_0);
    }
    Ok(())
}

/// Findings for each object in turn; the first error stops the sheet.
pub open spec fn all_host_findings(hs: Seq<MoView>) -> Result<Seq<Seq<CellValue>>, Seq<char>>
    decreases hs.len(),
{
    if hs.len() == 0 {
        Ok(Seq::empty())
    } else {
        match all_host_findings(hs.drop_last()) {
            Err(e) => Err(e),
            Ok(r) => match host_findings_of(hs.last()) {
                Err(e) => Err(e),
                Ok(x) => Ok(r + x),
            },
        }
    }
}

pub open spec fn all_vm_findings(vs: Seq<MoView>) -> Result<Seq<Seq<CellValue>>, Seq<char>>
    decreases vs.len(),
{
    if vs.len() == 0 {
        Ok(Seq::empty())
    } else {
        match all_vm_findings(vs.drop_last()) {
            Err(e) => Err(e),
            Ok(r) => match vm_findings_of(vs.last()) {
                Err(e) => Err(e),
                Ok(x) => Ok(r + x),
            },
        }
    }
}

/// The sheet: hosts first, then VMs, the order RVTools emits its checks in.
pub open spec fn health_rows(hosts: Seq<MoView>, vms: Seq<MoView>) -> Result<Seq<Seq<CellValue>>, Seq<char>> {
    match all_host_findings(hosts) {
        Err(e) => Err(e),
        Ok(a) => match all_vm_findings(vms) {
            Err(e) => Err(e),
            Ok(b) => Ok(a + b),
        },
    }
}

pub fn rows(snap: &InventorySnapshot) -> (r: Result<Vec<Vec<Cell>>, String>)
    ensures
        match r {
            Ok(v) => health_rows(mos_view(snap.hosts@), mos_view(snap.vms@)) == Ok::<Seq<Seq<CellValue>>, Seq<char>>(rows_view(v@)),
            Err(e) => health_rows(mos_view(snap.hosts@), mos_view(snap.vms@)) == Err::<Seq<Seq<CellValue>>, Seq<char>>(e@),
        },
{
    let mut rows: Vec<Vec<Cell>> = Vec::new();
    let ghost hv = mos_view(snap.hosts@);
    let ghost vv = mos_view(snap.vms@);
    let mut i: usize = 0;
    proof { assert(rows_view(rows@) =~= Seq::<Seq<CellValue>>::empty()); }
    while i < snap.hosts.len()
        invariant
            i <= snap.hosts@.len(),
            hv == mos_view(snap.hosts@),
            all_host_findings(hv.take(i as int)) == Ok::<Seq<Seq<CellValue>>, Seq<char>>(rows_view(rows@)),
        decreases snap.hosts.len() - i,
    {
        proof {
            assert(hv.take(i + 1).drop_last() =~= hv.take(i as int));
            assert(hv.take(i + 1).last() == snap.hosts@[i as int]@);
        }
        match host_findings(&snap.hosts[i], &mut rows) {
            Ok(()) => {},
            Err(e) => {
                proof {
                    assert(all_host_findings(hv.take(i + 1)) == Err::<Seq<Seq<CellValue>>, Seq<char>>(e@));
                    lemma_host_error_sticks(hv, i + 1);
                    assert(health_rows(hv, vv) == Err::<Seq<Seq<CellValue>>, Seq<char>>(e@));
                }
                return Err(e);
            },
        }
        i += 1;
    }
    proof { assert(hv.take(hv.len() as int) =~= hv); }
    let ghost host_rows = rows_view(rows@);
    let mut j: usize = 0;
    proof { assert(host_rows + Seq::<Seq<CellValue>>::empty() =~= host_rows); }
    while j < snap.vms.len()
        invariant
            j <= snap.vms@.len(),
            vv == mos_view(snap.vms@),
            hv == mos_view(snap.hosts@),
            all_host_findings(hv) == Ok::<Seq<Seq<CellValue>>, Seq<char>>(host_rows),
            all_vm_findings(vv.take(j as int)) matches Ok(b) && rows_view(rows@) == host_rows + b,
        decreases snap.vms.len() - j,
    {
        proof {
            assert(vv.take(j + 1).drop_last() =~= vv.take(j as int));
            assert(vv.take(j + 1).last() == snap.vms@[j as int]@);
        }
        match vm_findings(&snap.vms[j], &mut rows) {
            Ok(()) => {
                proof {
                    let b = all_vm_findings(vv.take(j as int))->Ok_0;
                    let x = vm_findings_of(vv[j as int])->Ok_0;
                    assert(host_rows + b + x =~= host_rows + (b + x));
                }
            },
            Err(e) => {
                proof {
                    assert(all_vm_findings(vv.take(j + 1)) == Err::<Seq<Seq<CellValue>>, Seq<char>>(e@));
                    lemma_vm_error_sticks(vv, j + 1);
                }
                return Err(e);
            },
        }
        j += 1;
    }
    proof { assert(vv.take(vv.len() as int) =~= vv); }
    Ok(rows)
}

/// Once a prefix fails, every longer prefix fails with the same error.
proof fn lemma_host_error_sticks(hs: Seq<MoView>, n: int)
    requires
        0 < n <= hs.len(),
        all_host_findings(hs.take(n)) is Err,
    ensures
        all_host_findings(hs) == all_host_findings(hs.take(n)),
    decreases hs.len() - n,
{
    if n < hs.len() {
        assert(hs.take(n + 1).drop_last() =~= hs.take(n));
        lemma_host_error_sticks(hs, n + 1);
    } else {
        assert(hs.take(n) =~= hs);
    }
}

proof fn lemma_vm_error_sticks(vs: Seq<MoView>, n: int)
    requires
        0 < n <= vs.len(),
        all_vm_findings(vs.take(n)) is Err,
    ensures
        all_vm_findings(vs) == all_vm_findings(vs.take(n)),
    decreases vs.len() - n,
{
    if n < vs.len() {
        assert(vs.take(n + 1).drop_last() =~= vs.take(n));
        lemma_vm_error_sticks(vs, n + 1);
    } else {
        assert(vs.take(n) =~= vs);
    }
}

proof fn lemma_cdrom_width(name: Seq<char>, ds: Seq<XNode>)
    ensures
        crate::data::all_width(cdrom_rows(name, ds), 3),
    decreases ds.len(),
{
    if ds.len() > 0 {
        lemma_cdrom_width(name, ds.drop_last());
        let tail = if connected_cdrom(ds.last()) {
            seq![finding(name, "VM has a CDROM device connected! "@ + device_label(ds.last()), "CDROM"@)]
        } else {
            Seq::empty()
        };
        crate::data::lemma_width_concat(cdrom_rows(name, ds.drop_last()), tail, 3);
    }
}

proof fn lemma_vm_findings_width(vs: Seq<MoView>)
    ensures
        all_vm_findings(vs) matches Ok(rows) ==> crate::data::all_width(rows, 3),
    decreases vs.len(),
{
    if vs.len() > 0 {
        lemma_vm_findings_width(vs.drop_last());
        if let Ok(rows) = all_vm_findings(vs) {
            let prev = all_vm_findings(vs.drop_last())->Ok_0;
            let v = vs.last();
            let x = vm_findings_of(v)->Ok_0;
            if let Some(name) = str_prop_of(v, "name"@) {
                if !has_prefix(name, "vCLS-"@) {
                    let a = folder_rows(name, v);
                    let b = cdrom_rows(name, array_prop_of(v, "config.hardware.device"@));
                    let c = roots_snapshots(array_prop_of(v, "snapshot.rootSnapshotList"@)).map_values(
                        |p: (Seq<char>, Seq<char>)| snapshot_row(name, p),
                    );
                    lemma_cdrom_width(name, array_prop_of(v, "config.hardware.device"@));
                    assert(crate::data::all_width(a, 3));
                    assert(crate::data::all_width(c, 3));
                    crate::data::lemma_width_concat(a, b, 3);
                    crate::data::lemma_width_concat(a + b, c, 3);
                }
            }
            assert(crate::data::all_width(x, 3));
            crate::data::lemma_width_concat(prev, x, 3);
        }
    }
}

proof fn lemma_host_findings_width(hs: Seq<MoView>)
    ensures
        all_host_findings(hs) matches Ok(rows) ==> crate::data::all_width(rows, 3),
    decreases hs.len(),
{
    if hs.len() > 0 {
        lemma_host_findings_width(hs.drop_last());
        if let Ok(rows) = all_host_findings(hs) {
            let prev = all_host_findings(hs.drop_last())->Ok_0;
            let x = host_findings_of(hs.last())->Ok_0;
            assert(crate::data::all_width(x, 3));
            crate::data::lemma_width_concat(prev, x, 3);
        }
    }
}

/// Every vHealth row has one cell per column.
pub proof fn lemma_health_rows_width(hosts: Seq<MoView>, vms: Seq<MoView>)
    ensures
        health_rows(hosts, vms) matches Ok(rows) ==> crate::data::all_width(rows, column_spec().len() as int),
{
    lemma_host_findings_width(hosts);
    lemma_vm_findings_width(vms);
    if let Ok(rows) = health_rows(hosts, vms) {
        crate::data::lemma_width_concat(all_host_findings(hosts)->Ok_0, all_vm_findings(vms)->Ok_0, 3);
        assert(column_spec().len() == 3);
    }
}
} // verus!
