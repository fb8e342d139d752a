//! dvPort — one row per distributed port group.

use vstd::prelude::*;
use super::{
    append_cells,
    columns_view,
    hundredths_value,
    opt_bool_value,
    opt_hundredths,
    opt_text_value,
    row_view,
    Cell,
    CellValue,
    Column,
    ColumnKind,
};
use super::hostnet::{policy_bool, policy_bool_of, policy_num, policy_num_of, policy_value, policy_value_of, walk};
use super::per_object::{
    child_under,
    child_under_el,
    mos,
    nonempty_under,
    nonempty_under_el,
    number_under,
    number_under_el,
    opt_node,
    prop_el,
    prop_node,
};
use super::snapshot::{lookup_name, name_lookup, names_view};
use super::vdisk::tagged_rows;
use crate::text::{chars_of, join, joined, strings_view};
use crate::vcenter::soap::{ManagedObject, MoView};
use crate::vcenter::xml::{at_path, named, opt_str_view, Element, XNode};

verus! {

/// The sheet's columns, labels as RVTools writes them.
pub open spec fn column_spec() -> Seq<(Seq<char>, ColumnKind)> {
    seq![
        ("Port"@, ColumnKind::Text),
        ("Switch"@, ColumnKind::Text),
        ("Type"@, ColumnKind::Text),
        ("# Ports"@, ColumnKind::Number),
        ("VLAN"@, ColumnKind::Number),
        ("Blocked"@, ColumnKind::Bool),
        ("Allow Promiscuous"@, ColumnKind::Bool),
        ("Mac Changes"@, ColumnKind::Bool),
        ("Forged Transmits"@, ColumnKind::Bool),
        ("Policy"@, ColumnKind::Text),
        ("Reverse Policy"@, ColumnKind::Bool),
        ("Notify Switch"@, ColumnKind::Bool),
        ("Rolling Order"@, ColumnKind::Bool),
        ("Active Uplink"@, ColumnKind::Text),
        ("Standby Uplink"@, ColumnKind::Text),
        ("Check Beacon"@, ColumnKind::Bool),
        ("Check Duplex"@, ColumnKind::Bool),
        ("Check Speed"@, ColumnKind::Text),
        ("Speed"@, ColumnKind::Number),
        ("In Traffic Shaping"@, ColumnKind::Bool),
        ("In Avg"@, ColumnKind::Number),
        ("In Peak"@, ColumnKind::Number),
        ("In Burst"@, ColumnKind::Number),
        ("Out Traffic Shaping"@, ColumnKind::Bool),
        ("Out Avg"@, ColumnKind::Number),
        ("Out Peak"@, ColumnKind::Number),
        ("Out Burst"@, ColumnKind::Number),
    ]
}

/// Which column a label names; `-1` for none.
#[verifier::opaque]
pub open spec fn label_index(s: Seq<char>) -> int {
    if s == "Port"@ {
        0
    } else if s == "Switch"@ {
        1
    } else if s == "Type"@ {
        2
    } else if s == "# Ports"@ {
        3
    } else if s == "VLAN"@ {
        4
    } else if s == "Blocked"@ {
        5
    } else if s == "Allow Promiscuous"@ {
        6
    } else if s == "Mac Changes"@ {
        7
    } else if s == "Forged Transmits"@ {
        8
    } else if s == "Policy"@ {
        9
    } else if s == "Reverse Policy"@ {
        10
    } else if s == "Notify Switch"@ {
        11
    } else if s == "Rolling Order"@ {
        12
    } else if s == "Active Uplink"@ {
        13
    } else if s == "Standby Uplink"@ {
        14
    } else if s == "Check Beacon"@ {
        15
    } else if s == "Check Duplex"@ {
        16
    } else if s == "Check Speed"@ {
        17
    } else if s == "Speed"@ {
        18
    } else if s == "In Traffic Shaping"@ {
        19
    } else if s == "In Avg"@ {
        20
    } else if s == "In Peak"@ {
        21
    } else if s == "In Burst"@ {
        22
    } else if s == "Out Traffic Shaping"@ {
        23
    } else if s == "Out Avg"@ {
        24
    } else if s == "Out Peak"@ {
        25
    } else if s == "Out Burst"@ {
        26
    } else {
        -1
    }
}

/// The sheet's labels are distinct, and none is `VI SDK Server`.
pub proof fn lemma_labels_ok()
    ensures
        super::labels_ok(column_spec()),
{
    reveal(label_index);
    reveal_strlit("Port");
    assert("Port"@.len() == 4);
    reveal_strlit("Switch");
    assert("Switch"@.len() == 6);
    reveal_strlit("Type");
    assert("Type"@.len() == 4);
    reveal_strlit("# Ports");
    assert("# Ports"@.len() == 7);
    reveal_strlit("VLAN");
    assert("VLAN"@.len() == 4);
    reveal_strlit("Blocked");
    assert("Blocked"@.len() == 7);
    reveal_strlit("Allow Promiscuous");
    assert("Allow Promiscuous"@.len() == 17);
    reveal_strlit("Mac Changes");
    assert("Mac Changes"@.len() == 11);
    reveal_strlit("Forged Transmits");
    assert("Forged Transmits"@.len() == 16);
    reveal_strlit("Policy");
    assert("Policy"@.len() == 6);
    reveal_strlit("Reverse Policy");
    assert("Reverse Policy"@.len() == 14);
    reveal_strlit("Notify Switch");
    assert("Notify Switch"@.len() == 13);
    reveal_strlit("Rolling Order");
    assert("Rolling Order"@.len() == 13);
    reveal_strlit("Active Uplink");
    assert("Active Uplink"@.len() == 13);
    reveal_strlit("Standby Uplink");
    assert("Standby Uplink"@.len() == 14);
    reveal_strlit("Check Beacon");
    assert("Check Beacon"@.len() == 12);
    reveal_strlit("Check Duplex");
    assert("Check Duplex"@.len() == 12);
    reveal_strlit("Check Speed");
    assert("Check Speed"@.len() == 11);
    reveal_strlit("Speed");
    assert("Speed"@.len() == 5);
    reveal_strlit("In Traffic Shaping");
    assert("In Traffic Shaping"@.len() == 18);
    reveal_strlit("In Avg");
    assert("In Avg"@.len() == 6);
    reveal_strlit("In Peak");
    assert("In Peak"@.len() == 7);
    reveal_strlit("In Burst");
    assert("In Burst"@.len() == 8);
    reveal_strlit("Out Traffic Shaping");
    assert("Out Traffic Shaping"@.len() == 19);
    reveal_strlit("Out Avg");
    assert("Out Avg"@.len() == 7);
    reveal_strlit("Out Peak");
    assert("Out Peak"@.len() == 8);
    reveal_strlit("Out Burst");
    assert("Out Burst"@.len() == 9);
    reveal_strlit("VI SDK Server");
    assert("VI SDK Server"@.len() == 13);
    assert("Port"@[0] == 'P');
    assert("Type"@[0] == 'T');
    assert("VLAN"@[0] == 'V');
    assert("Switch"@[0] == 'S');
    assert("Policy"@[0] == 'P');
    assert("In Avg"@[0] == 'I');
    assert("# Ports"@[0] == '#');
    assert("Blocked"@[0] == 'B');
    assert("In Peak"@[0] == 'I');
    assert("Out Avg"@[0] == 'O');
    assert("Mac Changes"@[0] == 'M');
    assert("Check Speed"@[0] == 'C');
    assert("Reverse Policy"@[0] == 'R');
    assert("Standby Uplink"@[0] == 'S');
    assert("Notify Switch"@[0] == 'N');
    assert("Rolling Order"@[0] == 'R');
    assert("Active Uplink"@[0] == 'A');
    assert("VI SDK Server"@[0] == 'V');
    assert("Check Beacon"@[6] == 'B');
    assert("Check Duplex"@[6] == 'D');
    assert("In Burst"@[0] == 'I');
    assert("Out Peak"@[0] == 'O');
    let cols = column_spec();
    assert(label_index(super::VI_SDK_SERVER@) == -1);
    assert forall|i: int| 0 <= i < cols.len() implies label_index(#[trigger] cols[i].0) == i by {
        if i == 0 {
                    assert(label_index(cols[0].0) == 0);
                } else if i == 1 {
                    assert(label_index(cols[1].0) == 1);
                } else if i == 2 {
                    assert(label_index(cols[2].0) == 2);
                } else if i == 3 {
                    assert(label_index(cols[3].0) == 3);
                } else if i == 4 {
                    assert(label_index(cols[4].0) == 4);
                } else if i == 5 {
                    assert(label_index(cols[5].0) == 5);
                } else if i == 6 {
                    assert(label_index(cols[6].0) == 6);
                } else if i == 7 {
                    assert(label_index(cols[7].0) == 7);
                } else if i == 8 {
                    assert(label_index(cols[8].0) == 8);
                } else if i == 9 {
                    assert(label_index(cols[9].0) == 9);
                } else if i == 10 {
                    assert(label_index(cols[10].0) == 10);
                } else if i == 11 {
                    assert(label_index(cols[11].0) == 11);
                } else if i == 12 {
                    assert(label_index(cols[12].0) == 12);
                } else if i == 13 {
                    assert(label_index(cols[13].0) == 13);
                } else if i == 14 {
                    assert(label_index(cols[14].0) == 14);
                } else if i == 15 {
                    assert(label_index(cols[15].0) == 15);
                } else if i == 16 {
                    assert(label_index(cols[16].0) == 16);
                } else if i == 17 {
                    assert(label_index(cols[17].0) == 17);
                } else if i == 18 {
                    assert(label_index(cols[18].0) == 18);
                } else if i == 19 {
                    assert(label_index(cols[19].0) == 19);
                } else if i == 20 {
                    assert(label_index(cols[20].0) == 20);
                } else if i == 21 {
                    assert(label_index(cols[21].0) == 21);
                } else if i == 22 {
                    assert(label_index(cols[22].0) == 22);
                } else if i == 23 {
                    assert(label_index(cols[23].0) == 23);
                } else if i == 24 {
                    assert(label_index(cols[24].0) == 24);
                } else if i == 25 {
                    assert(label_index(cols[25].0) == 25);
                } else if i == 26 {
                    assert(label_index(cols[26].0) == 26);
                }
    }
}

pub fn columns() -> (r: Vec<Column>)
    ensures
        columns_view(r@) == column_spec(),
{
    let r = vec![
        Column::text("Port"),
        Column::text("Switch"),
        Column::text("Type"),
        Column::number("# Ports"),
        Column::number("VLAN"),
        Column::bool("Blocked"),
        Column::bool("Allow Promiscuous"),
        Column::bool("Mac Changes"),
        Column::bool("Forged Transmits"),
        Column::text("Policy"),
        Column::bool("Reverse Policy"),
        Column::bool("Notify Switch"),
        Column::bool("Rolling Order"),
        Column::text("Active Uplink"),
        Column::text("Standby Uplink"),
        Column::bool("Check Beacon"),
        Column::bool("Check Duplex"),
        Column::text("Check Speed"),
        Column::number("Speed"),
        Column::bool("In Traffic Shaping"),
        Column::number("In Avg"),
        Column::number("In Peak"),
        Column::number("In Burst"),
        Column::bool("Out Traffic Shaping"),
        Column::number("Out Avg"),
        Column::number("Out Peak"),
        Column::number("Out Burst"),
    ];
    proof { assert(columns_view(r@) =~= column_spec()); }
    r
}

/// The text of each node, empty ones left out.
pub open spec fn nonempty_texts(ns: Seq<XNode>) -> Seq<Seq<char>>
    decreases ns.len(),
{
    if ns.len() == 0 {
        Seq::empty()
    } else if ns.last().text.len() > 0 {
        nonempty_texts(ns.drop_last()).push(ns.last().text)
    } else {
        nonempty_texts(ns.drop_last())
    }
}

/// A repeating element's texts joined into one cell, as RVTools does.
pub open spec fn joined_of(root: Option<XNode>, path: Seq<char>, field: Seq<char>) -> Option<Seq<char>> {
    match root {
        None => None,
        Some(r) => match at_path(r, path) {
            None => None,
            Some(node) => {
                let parts = nonempty_texts(named(node.children, field));
                if parts.len() == 0 {
                    None
                } else {
                    Some(joined(parts, ", "@))
                }
            },
        },
    }
}

fn joined_under(root: Option<&Element>, path: &str, field: &str) -> (r: Option<String>)
    ensures
        opt_str_view(r) == joined_of(opt_node(root), path@, field@),
{
    let node = match root {
        Some(x) => match walk(x, path) {
            Some(n) => n,
            None => return None,
        },
        None => return None,
    };
    let items = node.children_named(field);
    let ghost nv = named(node@.children, field@);
    let mut parts: Vec<String> = Vec::new();
    let mut i: usize = 0;
    while i < items.len()
        invariant
            i <= items@.len(),
            items@.len() == nv.len(),
            nv == named(node@.children, field@),
            forall|k: int| 0 <= k < nv.len() ==> (#[trigger] items@[k])@ == nv[k],
            strings_view(parts@) =~= nonempty_texts(nv.take(i as int)),
        decreases items.len() - i,
    {
        proof { assert(nv.take(i + 1).drop_last() =~= nv.take(i as int)); }
        let t = items[i].text.clone();
        if chars_of(t.as_str()).len() > 0 {
            let ghost before = parts@;
            parts.push(t);
            proof { assert(strings_view(parts@) =~= strings_view(before).push(t@)); }
        }
        i += 1;
    }
    proof { assert(nv.take(nv.len() as int) =~= nv); }
    if parts.len() == 0 {
        None
    } else {
        Some(join(&parts, ", "))
    }
}

/// The switch a port group belongs to: a moref, named through `names` where
/// it can be.
pub open spec fn switch_of(config: Option<XNode>, names: Seq<(Seq<char>, Seq<char>)>) -> Option<Seq<char>> {
    match child_under(config, "distributedVirtualSwitch"@) {
        Some(e) => if e.text.len() > 0 {
            match name_lookup(names, e.text) {
                Some(n) => Some(n),
                None => Some(e.text),
            }
        } else {
            None
        },
        None => None,
    }
}

fn switch(config: Option<&Element>, names: &Vec<(String, String)>) -> (r: Option<String>)
    ensures
        opt_str_view(r) == switch_of(opt_node(config), names_view(names@)),
{
    match child_under_el(config, "distributedVirtualSwitch") {
        Some(e) => if chars_of(e.text.as_str()).len() > 0 {
            match lookup_name(names, e.text.as_str()) {
                Some(n) => Some(n),
                None => Some(e.text.clone()),
            }
        } else {
            None
        },
        None => None,
    }
}

/// The port group's name, switch, binding type, size and VLAN.
pub open spec fn head_cells(config: Option<XNode>, names: Seq<(Seq<char>, Seq<char>)>) -> Seq<CellValue> {
    seq![
        opt_text_value(nonempty_under(config, "name"@)),
        opt_text_value(switch_of(config, names)),
        opt_text_value(nonempty_under(config, "type"@)),
        hundredths_value(number_under(config, "numPorts"@)),
        hundredths_value(number_under(child_under(config, "defaultPortConfig"@), "vlan/vlanId"@)),
    ]
}

/// Blocking, security and teaming, each setting's effective value.
pub open spec fn policy_cells(dpc: Option<XNode>) -> Seq<CellValue> {
    seq![
        opt_bool_value(policy_bool_of(dpc, "blocked"@)),
        opt_bool_value(policy_bool_of(dpc, "securityPolicy/allowPromiscuous"@)),
        opt_bool_value(policy_bool_of(dpc, "securityPolicy/macChanges"@)),
        opt_bool_value(policy_bool_of(dpc, "securityPolicy/forgedTransmits"@)),
        opt_text_value(policy_value_of(dpc, "uplinkTeamingPolicy/policy"@)),
        opt_bool_value(policy_bool_of(dpc, "uplinkTeamingPolicy/reversePolicy"@)),
        opt_bool_value(policy_bool_of(dpc, "uplinkTeamingPolicy/notifySwitches"@)),
        opt_bool_value(policy_bool_of(dpc, "uplinkTeamingPolicy/rollingOrder"@)),
    ]
}

/// Uplink order and failure detection.
pub open spec fn uplink_cells(dpc: Option<XNode>) -> Seq<CellValue> {
    seq![
        opt_text_value(joined_of(dpc, "uplinkTeamingPolicy/uplinkPortOrder"@, "activeUplinkPort"@)),
        opt_text_value(joined_of(dpc, "uplinkTeamingPolicy/uplinkPortOrder"@, "standbyUplinkPort"@)),
        opt_bool_value(policy_bool_of(dpc, "uplinkTeamingPolicy/failureCriteria/checkBeacon"@)),
        opt_bool_value(policy_bool_of(dpc, "uplinkTeamingPolicy/failureCriteria/checkDuplex"@)),
        opt_text_value(policy_value_of(dpc, "uplinkTeamingPolicy/failureCriteria/checkSpeed"@)),
        hundredths_value(policy_num_of(dpc, "uplinkTeamingPolicy/failureCriteria/speed"@)),
    ]
}

/// Inbound and outbound traffic shaping.
pub open spec fn shaping_cells(dpc: Option<XNode>) -> Seq<CellValue> {
    seq![
        opt_bool_value(policy_bool_of(dpc, "inShapingPolicy/enabled"@)),
        hundredths_value(policy_num_of(dpc, "inShapingPolicy/averageBandwidth"@)),
        hundredths_value(policy_num_of(dpc, "inShapingPolicy/peakBandwidth"@)),
        hundredths_value(policy_num_of(dpc, "inShapingPolicy/burstSize"@)),
        opt_bool_value(policy_bool_of(dpc, "outShapingPolicy/enabled"@)),
        hundredths_value(policy_num_of(dpc, "outShapingPolicy/averageBandwidth"@)),
        hundredths_value(policy_num_of(dpc, "outShapingPolicy/peakBandwidth"@)),
        hundredths_value(policy_num_of(dpc, "outShapingPolicy/burstSize"@)),
    ]
}

/// A port group's row.
pub open spec fn portgroup_cells(pg: MoView, names: Seq<(Seq<char>, Seq<char>)>) -> Seq<CellValue> {
    let config = prop_node(pg, "config"@);
    let dpc = child_under(config, "defaultPortConfig"@);
    head_cells(config, names) + policy_cells(dpc) + uplink_cells(dpc) + shaping_cells(dpc)
}

fn head_row(config: Option<&Element>, names: &Vec<(String, String)>) -> (r: Vec<Cell>)
    ensures
        row_view(r) == head_cells(opt_node(config), names_view(names@)),
{
    let r = vec![
        Cell::opt_text(nonempty_under_el(config, "name")),
        Cell::opt_text(switch(config, names)),
        Cell::opt_text(nonempty_under_el(config, "type")),
        opt_hundredths(number_under_el(config, "numPorts")),
        opt_hundredths(number_under_el(child_under_el(config, "defaultPortConfig"), "vlan/vlanId")),
    ];
    proof { assert(row_view(r) =~= head_cells(opt_node(config), names_view(names@))); }
    r
}

fn policy_row(dpc: Option<&Element>) -> (r: Vec<Cell>)
    ensures
        row_view(r) == policy_cells(opt_node(dpc)),
{
    let r = vec![
        Cell::opt_bool(policy_bool(dpc, "blocked")),
        Cell::opt_bool(policy_bool(dpc, "securityPolicy/allowPromiscuous")),
        Cell::opt_bool(policy_bool(dpc, "securityPolicy/macChanges")),
        Cell::opt_bool(policy_bool(dpc, "securityPolicy/forgedTransmits")),
        Cell::opt_text(policy_value(dpc, "uplinkTeamingPolicy/policy")),
        Cell::opt_bool(policy_bool(dpc, "uplinkTeamingPolicy/reversePolicy")),
        Cell::opt_bool(policy_bool(dpc, "uplinkTeamingPolicy/notifySwitches")),
        Cell::opt_bool(policy_bool(dpc, "uplinkTeamingPolicy/rollingOrder")),
    ];
    proof { assert(row_view(r) =~= policy_cells(opt_node(dpc))); }
    r
}

fn uplink_row(dpc: Option<&Element>) -> (r: Vec<Cell>)
    ensures
        row_view(r) == uplink_cells(opt_node(dpc)),
{
    let r = vec![
        Cell::opt_text(joined_under(dpc, "uplinkTeamingPolicy/uplinkPortOrder", "activeUplinkPort")),
        Cell::opt_text(joined_under(dpc, "uplinkTeamingPolicy/uplinkPortOrder", "standbyUplinkPort")),
        Cell::opt_bool(policy_bool(dpc, "uplinkTeamingPolicy/failureCriteria/checkBeacon")),
        Cell::opt_bool(policy_bool(dpc, "uplinkTeamingPolicy/failureCriteria/checkDuplex")),
        Cell::opt_text(policy_value(dpc, "uplinkTeamingPolicy/failureCriteria/checkSpeed")),
        opt_hundredths(policy_num(dpc, "uplinkTeamingPolicy/failureCriteria/speed")),
    ];
    proof { assert(row_view(r) =~= uplink_cells(opt_node(dpc))); }
    r
}

fn shaping_row(dpc: Option<&Element>) -> (r: Vec<Cell>)
    ensures
        row_view(r) == shaping_cells(opt_node(dpc)),
{
    let r = vec![
        Cell::opt_bool(policy_bool(dpc, "inShapingPolicy/enabled")),
        opt_hundredths(policy_num(dpc, "inShapingPolicy/averageBandwidth")),
        opt_hundredths(policy_num(dpc, "inShapingPolicy/peakBandwidth")),
        opt_hundredths(policy_num(dpc, "inShapingPolicy/burstSize")),
        Cell::opt_bool(policy_bool(dpc, "outShapingPolicy/enabled")),
        opt_hundredths(policy_num(dpc, "outShapingPolicy/averageBandwidth")),
        opt_hundredths(policy_num(dpc, "outShapingPolicy/peakBandwidth")),
        opt_hundredths(policy_num(dpc, "outShapingPolicy/burstSize")),
    ];
    proof { assert(row_view(r) =~= shaping_cells(opt_node(dpc))); }
    r
}

fn portgroup_row(pg: &ManagedObject, names: &Vec<(String, String)>) -> (r: Vec<Cell>)
    ensures
        row_view(r) == portgroup_cells(pg@, names_view(names@)),
{
    let config = prop_el(pg, "config");
    let dpc = child_under_el(config, "defaultPortConfig");
    let a = append_cells(head_row(config, names), policy_row(dpc));
    append_cells(append_cells(a, uplink_row(dpc)), shaping_row(dpc))
}

/// Every port group's row, each tagged with its moref.
pub open spec fn portgroups_rows(pgs: Seq<MoView>, names: Seq<(Seq<char>, Seq<char>)>) -> Seq<(Seq<char>, Seq<CellValue>)> {
    pgs.map_values(|pg: MoView| (pg.moref, portgroup_cells(pg, names)))
}

/// dvPort: one row per distributed port group. `names` names inventory
/// objects by moref, for the switch.
pub fn rows(portgroups: &Vec<ManagedObject>, names: &Vec<(String, String)>) -> (r: Result<Vec<(String, Vec<Cell>)>, String>)
    ensures
        r matches Ok(v) && tagged_rows(v@) == portgroups_rows(mos(portgroups@), names_view(names@)),
{
    let ghost pv = mos(portgroups@);
    let ghost nv = names_view(names@);
    let ghost want = portgroups_rows(pv, nv);
    let mut out: Vec<(String, Vec<Cell>)> = Vec::new();
    let mut i: usize = 0;
    while i < portgroups.len()
        invariant
            i <= portgroups@.len(),
            pv == mos(portgroups@),
            nv == names_view(names@),
            want == portgroups_rows(pv, nv),
            tagged_rows(out@) =~= want.take(i as int),
        decreases portgroups.len() - i,
    {
        let pg = &portgroups[i];
        let row = portgroup_row(pg, names);
        let ghost before = out@;
        out.push((pg.moref.clone(), row));
        proof {
            assert(tagged_rows(out@) =~= tagged_rows(before).push((pg@.moref, row_view(row))));
            assert(want.take(i + 1) =~= want.take(i as int).push(want[i as int]));
        }
        i += 1;
    }
    proof { assert(want.take(want.len() as int) =~= want); }
    Ok(out)
}
} // verus!
