//! vSwitch — one row per **standard** virtual switch.

use vstd::prelude::*;
use super::{
    hundredths_value,
    opt_bool_value,
    opt_hundredths,
    opt_text_value,
    row_view,
    rows_view,
    Cell,
    CellValue,
    Column,
    ColumnKind,
    columns_view,
};
use super::common::no_name_error;
use super::per_object::{
    mos,
    number_under,
    number_under_el,
    per_object_rows,
    per_object_rows_of,
    text_under,
    text_under_el,
    true_at,
    true_at_el,
    PerObject,
};
use super::snapshot::{names_view, InventorySnapshot};
use super::vdisk::{number, number_of, tagged_rows, text, text_of};
use crate::vcenter::soap::{array_prop_of, str_prop_of, ManagedObject, MoView};
use crate::vcenter::xml::{child_of, Element, XNode};

verus! {

/// The sheet's columns, labels as RVTools writes them.
pub open spec fn column_spec() -> Seq<(Seq<char>, ColumnKind)> {
    seq![
        ("Host"@, ColumnKind::Text),
        ("Switch"@, ColumnKind::Text),
        ("# Ports"@, ColumnKind::Number),
        ("Free Ports"@, ColumnKind::Number),
        ("Promiscuous Mode"@, ColumnKind::Bool),
        ("Mac Changes"@, ColumnKind::Bool),
        ("Forged Transmits"@, ColumnKind::Bool),
        ("Traffic Shaping"@, ColumnKind::Bool),
        ("Width"@, ColumnKind::Number),
        ("Peak"@, ColumnKind::Number),
        ("Burst"@, ColumnKind::Number),
        ("Policy"@, ColumnKind::Text),
        ("Reverse Policy"@, ColumnKind::Bool),
        ("Notify Switch"@, ColumnKind::Bool),
        ("Rolling Order"@, ColumnKind::Bool),
        ("MTU"@, ColumnKind::Number),
    ]
}

/// Which column a label names; `-1` for none.
#[verifier::opaque]
pub open spec fn label_index(s: Seq<char>) -> int {
    if s == "Host"@ {
        0
    } else if s == "Switch"@ {
        1
    } else if s == "# Ports"@ {
        2
    } else if s == "Free Ports"@ {
        3
    } else if s == "Promiscuous Mode"@ {
        4
    } else if s == "Mac Changes"@ {
        5
    } else if s == "Forged Transmits"@ {
        6
    } else if s == "Traffic Shaping"@ {
        7
    } else if s == "Width"@ {
        8
    } else if s == "Peak"@ {
        9
    } else if s == "Burst"@ {
        10
    } else if s == "Policy"@ {
        11
    } else if s == "Reverse Policy"@ {
        12
    } else if s == "Notify Switch"@ {
        13
    } else if s == "Rolling Order"@ {
        14
    } else if s == "MTU"@ {
        15
    } else {
        -1
    }
}

/// The sheet's labels are distinct, and none is `VI SDK Server`.
pub proof fn lemma_labels_ok()
    ensures
        super::labels_ok(column_spec()),
{
    reveal(label_index);
    reveal_strlit("Host");
    assert("Host"@.len() == 4);
    reveal_strlit("Switch");
    assert("Switch"@.len() == 6);
    reveal_strlit("# Ports");
    assert("# Ports"@.len() == 7);
    reveal_strlit("Free Ports");
    assert("Free Ports"@.len() == 10);
    reveal_strlit("Promiscuous Mode");
    assert("Promiscuous Mode"@.len() == 16);
    reveal_strlit("Mac Changes");
    assert("Mac Changes"@.len() == 11);
    reveal_strlit("Forged Transmits");
    assert("Forged Transmits"@.len() == 16);
    reveal_strlit("Traffic Shaping");
    assert("Traffic Shaping"@.len() == 15);
    reveal_strlit("Width");
    assert("Width"@.len() == 5);
    reveal_strlit("Peak");
    assert("Peak"@.len() == 4);
    reveal_strlit("Burst");
    assert("Burst"@.len() == 5);
    reveal_strlit("Policy");
    assert("Policy"@.len() == 6);
    reveal_strlit("Reverse Policy");
    assert("Reverse Policy"@.len() == 14);
    reveal_strlit("Notify Switch");
    assert("Notify Switch"@.len() == 13);
    reveal_strlit("Rolling Order");
    assert("Rolling Order"@.len() == 13);
    reveal_strlit("MTU");
    assert("MTU"@.len() == 3);
    reveal_strlit("VI SDK Server");
    assert("VI SDK Server"@.len() == 13);
    assert("Host"@[0] == 'H');
    assert("Peak"@[0] == 'P');
    assert("Switch"@[0] == 'S');
    assert("Policy"@[0] == 'P');
    assert("Promiscuous Mode"@[0] == 'P');
    assert("Forged Transmits"@[0] == 'F');
    assert("Width"@[0] == 'W');
    assert("Burst"@[0] == 'B');
    assert("Notify Switch"@[0] == 'N');
    assert("Rolling Order"@[0] == 'R');
    assert("VI SDK Server"@[0] == 'V');
    let cols = column_spec();
    assert(label_index(super::VI_SDK_SERVER@) == -1);
    assert forall|i: int| 0 <= i < cols.len() implies label_index(#[trigger] cols[i].0) == i by {
        if i == 0 {
                    assert(label_index(cols[0].0) == 0);
                } else if i == 1 {
                    assert(label_index(cols[1].0) == 1);
                } else if i == 2 {
                    assert(label_index(cols[2].0) == 2);
                } else if i == 3 {
                    assert(label_index(cols[3].0) == 3);
                } else if i == 4 {
                    assert(label_index(cols[4].0) == 4);
                } else if i == 5 {
                    assert(label_index(cols[5].0) == 5);
                } else if i == 6 {
                    assert(label_index(cols[6].0) == 6);
                } else if i == 7 {
                    assert(label_index(cols[7].0) == 7);
                } else if i == 8 {
                    assert(label_index(cols[8].0) == 8);
                } else if i == 9 {
                    assert(label_index(cols[9].0) == 9);
                } else if i == 10 {
                    assert(label_index(cols[10].0) == 10);
                } else if i == 11 {
                    assert(label_index(cols[11].0) == 11);
                } else if i == 12 {
                    assert(label_index(cols[12].0) == 12);
                } else if i == 13 {
                    assert(label_index(cols[13].0) == 13);
                } else if i == 14 {
                    assert(label_index(cols[14].0) == 14);
                } else if i == 15 {
                    assert(label_index(cols[15].0) == 15);
                }
    }
}

pub fn columns() -> (r: Vec<Column>)
    ensures
        columns_view(r@) == column_spec(),
{
    let r = vec![
        Column::text("Host"),
        Column::text("Switch"),
        Column::number("# Ports"),
        Column::number("Free Ports"),
        Column::bool("Promiscuous Mode"),
        Column::bool("Mac Changes"),
        Column::bool("Forged Transmits"),
        Column::bool("Traffic Shaping"),
        Column::number("Width"),
        Column::number("Peak"),
        Column::number("Burst"),
        Column::text("Policy"),
        Column::bool("Reverse Policy"),
        Column::bool("Notify Switch"),
        Column::bool("Rolling Order"),
        Column::number("MTU"),
    ];
    proof { assert(columns_view(r@) =~= column_spec()); }
    r
}

/// The policy under an item's `spec`.
pub open spec fn policy_of(d: XNode) -> Option<XNode> {
    match child_of(d, "spec"@) {
        Some(s) => child_of(s, "policy"@),
        None => None,
    }
}

/// A standard switch's row. A standard switch states its policy directly, without the inherited/value envelope a distributed switch uses.
pub open spec fn item_cells(name: Seq<char>, d: XNode) -> Seq<CellValue> {
    seq![
        CellValue::Text(name),
        opt_text_value(text_of(d, "name"@)),
        hundredths_value(number_of(d, "numPorts"@)),
        hundredths_value(number_of(d, "numPortsAvailable"@)),
        opt_bool_value(true_at(policy_of(d), "security/allowPromiscuous"@)),
        opt_bool_value(true_at(policy_of(d), "security/macChanges"@)),
        opt_bool_value(true_at(policy_of(d), "security/forgedTransmits"@)),
        opt_bool_value(true_at(policy_of(d), "shapingPolicy/enabled"@)),
        hundredths_value(number_under(policy_of(d), "shapingPolicy/averageBandwidth"@)),
        hundredths_value(number_under(policy_of(d), "shapingPolicy/peakBandwidth"@)),
        hundredths_value(number_under(policy_of(d), "shapingPolicy/burstSize"@)),
        opt_text_value(text_under(policy_of(d), "nicTeaming/policy"@)),
        opt_bool_value(true_at(policy_of(d), "nicTeaming/reversePolicy"@)),
        opt_bool_value(true_at(policy_of(d), "nicTeaming/notifySwitches"@)),
        opt_bool_value(true_at(policy_of(d), "nicTeaming/rollingOrder"@)),
        hundredths_value(number_of(d, "mtu"@)),
    ]
}

fn item_row(name: &String, d: &Element) -> (r: Vec<Cell>)
    ensures
        row_view(r) == item_cells(name@, d@),
{
    let policy = match d.child("spec") {
        Some(s) => s.child("policy"),
        None => None,
    };
    let r = vec![
        Cell::Text(name.clone()),
        Cell::opt_text(text(d, "name")),
        opt_hundredths(number(d, "numPorts")),
        opt_hundredths(number(d, "numPortsAvailable")),
        Cell::opt_bool(true_at_el(policy, "security/allowPromiscuous")),
        Cell::opt_bool(true_at_el(policy, "security/macChanges")),
        Cell::opt_bool(true_at_el(policy, "security/forgedTransmits")),
        Cell::opt_bool(true_at_el(policy, "shapingPolicy/enabled")),
        opt_hundredths(number_under_el(policy, "shapingPolicy/averageBandwidth")),
        opt_hundredths(number_under_el(policy, "shapingPolicy/peakBandwidth")),
        opt_hundredths(number_under_el(policy, "shapingPolicy/burstSize")),
        Cell::opt_text(text_under_el(policy, "nicTeaming/policy")),
        Cell::opt_bool(true_at_el(policy, "nicTeaming/reversePolicy")),
        Cell::opt_bool(true_at_el(policy, "nicTeaming/notifySwitches")),
        Cell::opt_bool(true_at_el(policy, "nicTeaming/rollingOrder")),
        opt_hundredths(number(d, "mtu")),
    ];
    proof { assert(row_view(r) =~= item_cells(name@, d@)); }
    r
}

/// A host's rows: one per item, or an error for a nameless host.
pub open spec fn object_rows_of(h: MoView) -> Result<Seq<Seq<CellValue>>, Seq<char>> {
    match str_prop_of(h, "name"@) {
        None => Err(no_name_error("HostSystem "@, h.moref)),
        Some(n) => Ok(array_prop_of(h, "config.network.vswitch"@).map_values(|d: XNode| item_cells(n, d))),
    }
}

pub fn object_rows(h: &ManagedObject) -> (r: Result<Vec<Vec<Cell>>, String>)
    ensures
        match r {
            Ok(v) => object_rows_of(h@) == Ok::<Seq<Seq<CellValue>>, Seq<char>>(rows_view(v@)),
            Err(e) => object_rows_of(h@) == Err::<Seq<Seq<CellValue>>, Seq<char>>(e@),
        },
{
    let name = match h.str_prop("name") {
        Some(n) => n,
        None => return Err(String::from_str("HostSystem ").concat(h.moref.as_str()).concat(" returned no name property")),
    };
    let ds = h.array_prop("config.network.vswitch");
    let ghost dv = array_prop_of(h@, "config.network.vswitch"@);
    let ghost want = dv.map_values(|d: XNode| item_cells(name@, d));
    let mut out: Vec<Vec<Cell>> = Vec::new();
    let mut i: usize = 0;
    while i < ds.len()
        invariant
            i <= ds@.len(),
            ds@.len() == dv.len(),
            dv == array_prop_of(h@, "config.network.vswitch"@),
            want == dv.map_values(|d: XNode| item_cells(name@, d)),
            forall|k: int| 0 <= k < dv.len() ==> (#[trigger] ds@[k])@ == dv[k],
            rows_view(out@) =~= want.take(i as int),
        decreases ds.len() - i,
    {
        let row = item_row(&name, ds[i]);
        let ghost before = out@;
        out.push(row);
        proof {
            assert(rows_view(out@) =~= rows_view(before).push(row_view(row)));
            assert(want.take(i + 1) =~= want.take(i as int).push(want[i as int]));
        }
        i += 1;
    }
    proof { assert(want.take(want.len() as int) =~= want); }
    Ok(out)
}

/// vSwitch: one row per standard switch, each with its host's moref; the first nameless host is an error.
pub fn rows(snap: &InventorySnapshot) -> (r: Result<Vec<(String, Vec<Cell>)>, String>)
    ensures
        match r {
            Ok(v) => per_object_rows_of(PerObject::Switch, mos(snap.hosts@), names_view(snap.host_names@))
                == Ok::<Seq<(Seq<char>, Seq<CellValue>)>, Seq<char>>(tagged_rows(v@)),
            Err(e) => per_object_rows_of(PerObject::Switch, mos(snap.hosts@), names_view(snap.host_names@))
                == Err::<Seq<(Seq<char>, Seq<CellValue>)>, Seq<char>>(e@),
        },
{
    per_object_rows(PerObject::Switch, &snap.hosts, &snap.host_names)
}
} // verus!
