//! dvSwitch — one row per distributed virtual switch.

use vstd::prelude::*;
use super::{append_cells, columns_view, hundredths_value, opt_hundredths, opt_text_value, row_view, Cell, CellValue, Column, ColumnKind};
use super::per_object::{mos, nonempty_under, nonempty_under_el, number_under, number_under_el, opt_node, prop_el, prop_node};
use super::snapshot::{lookup_name, name_lookup, names_view};
use super::vdisk::tagged_rows;
use crate::vcenter::soap::{str_prop_of, ManagedObject, MoView};
use crate::vcenter::xml::{named, Element, XNode};

verus! {

/// The sheet's columns, labels as RVTools writes them.
pub open spec fn column_spec() -> Seq<(Seq<char>, ColumnKind)> {
    seq![
        ("Switch"@, ColumnKind::Text),
        ("Datacenter"@, ColumnKind::Text),
        ("Name"@, ColumnKind::Text),
        ("Vendor"@, ColumnKind::Text),
        ("Version"@, ColumnKind::Text),
        ("Created"@, ColumnKind::Text),
        ("Host members"@, ColumnKind::Number),
        ("Max Ports"@, ColumnKind::Number),
        ("# Ports"@, ColumnKind::Number),
        ("# VMs"@, ColumnKind::Number),
        ("CDP Type"@, ColumnKind::Text),
        ("CDP Operation"@, ColumnKind::Text),
        ("Max MTU"@, ColumnKind::Number),
        ("Config status"@, ColumnKind::Text),
    ]
}

/// Which column a label names; `-1` for none.
#[verifier::opaque]
pub open spec fn label_index(s: Seq<char>) -> int {
    if s == "Switch"@ {
        0
    } else if s == "Datacenter"@ {
        1
    } else if s == "Name"@ {
        2
    } else if s == "Vendor"@ {
        3
    } else if s == "Version"@ {
        4
    } else if s == "Created"@ {
        5
    } else if s == "Host members"@ {
        6
    } else if s == "Max Ports"@ {
        7
    } else if s == "# Ports"@ {
        8
    } else if s == "# VMs"@ {
        9
    } else if s == "CDP Type"@ {
        10
    } else if s == "CDP Operation"@ {
        11
    } else if s == "Max MTU"@ {
        12
    } else if s == "Config status"@ {
        13
    } else {
        -1
    }
}

/// The sheet's labels are distinct, and none is `VI SDK Server`.
pub proof fn lemma_labels_ok()
    ensures
        super::labels_ok(column_spec()),
{
    reveal(label_index);
    reveal_strlit("Switch");
    assert("Switch"@.len() == 6);
    reveal_strlit("Datacenter");
    assert("Datacenter"@.len() == 10);
    reveal_strlit("Name");
    assert("Name"@.len() == 4);
    reveal_strlit("Vendor");
    assert("Vendor"@.len() == 6);
    reveal_strlit("Version");
    assert("Version"@.len() == 7);
    reveal_strlit("Created");
    assert("Created"@.len() == 7);
    reveal_strlit("Host members");
    assert("Host members"@.len() == 12);
    reveal_strlit("Max Ports");
    assert("Max Ports"@.len() == 9);
    reveal_strlit("# Ports");
    assert("# Ports"@.len() == 7);
    reveal_strlit("# VMs");
    assert("# VMs"@.len() == 5);
    reveal_strlit("CDP Type");
    assert("CDP Type"@.len() == 8);
    reveal_strlit("CDP Operation");
    assert("CDP Operation"@.len() == 13);
    reveal_strlit("Max MTU");
    assert("Max MTU"@.len() == 7);
    reveal_strlit("Config status");
    assert("Config status"@.len() == 13);
    reveal_strlit("VI SDK Server");
    assert("VI SDK Server"@.len() == 13);
    assert("Switch"@[0] == 'S');
    assert("Vendor"@[0] == 'V');
    assert("Version"@[0] == 'V');
    assert("Created"@[0] == 'C');
    assert("# Ports"@[0] == '#');
    assert("Max MTU"@[0] == 'M');
    assert("CDP Operation"@[1] == 'D');
    assert("Config status"@[1] == 'o');
    assert("CDP Operation"@[0] == 'C');
    assert("VI SDK Server"@[0] == 'V');
    assert("Config status"@[0] == 'C');
    let cols = column_spec();
    assert(label_index(super::VI_SDK_SERVER@) == -1);
    assert forall|i: int| 0 <= i < cols.len() implies label_index(#[trigger] cols[i].0) == i by {
        if i == 0 {
                    assert(label_index(cols[0].0) == 0);
                } else if i == 1 {
                    assert(label_index(cols[1].0) == 1);
                } else if i == 2 {
                    assert(label_index(cols[2].0) == 2);
                } else if i == 3 {
                    assert(label_index(cols[3].0) == 3);
                } else if i == 4 {
                    assert(label_index(cols[4].0) == 4);
                } else if i == 5 {
                    assert(label_index(cols[5].0) == 5);
                } else if i == 6 {
                    assert(label_index(cols[6].0) == 6);
                } else if i == 7 {
                    assert(label_index(cols[7].0) == 7);
                } else if i == 8 {
                    assert(label_index(cols[8].0) == 8);
                } else if i == 9 {
                    assert(label_index(cols[9].0) == 9);
                } else if i == 10 {
                    assert(label_index(cols[10].0) == 10);
                } else if i == 11 {
                    assert(label_index(cols[11].0) == 11);
                } else if i == 12 {
                    assert(label_index(cols[12].0) == 12);
                } else if i == 13 {
                    assert(label_index(cols[13].0) == 13);
                }
    }
}

pub fn columns() -> (r: Vec<Column>)
    ensures
        columns_view(r@) == column_spec(),
{
    let r = vec![
        Column::text("Switch"),
        Column::text("Datacenter"),
        Column::text("Name"),
        Column::text("Vendor"),
        Column::text("Version"),
        Column::text("Created"),
        Column::number("Host members"),
        Column::number("Max Ports"),
        Column::number("# Ports"),
        Column::number("# VMs"),
        Column::text("CDP Type"),
        Column::text("CDP Operation"),
        Column::number("Max MTU"),
        Column::text("Config status"),
    ];
    proof { assert(columns_view(r@) =~= column_spec()); }
    r
}

/// How many children of that name an element that may be absent has, in
/// hundredths.
pub open spec fn count_under(el: Option<XNode>, name: Seq<char>) -> Option<int> {
    match el {
        Some(e) => Some(named(e.children, name).len() as int * 100),
        None => None,
    }
}

fn count_under_el(el: Option<&Element>, name: &str) -> (r: Option<i128>)
    ensures
        match r {
            Some(x) => count_under(opt_node(el), name@) == Some(x as int),
            None => count_under(opt_node(el), name@).is_none(),
        },
{
    match el {
        Some(e) => Some(e.children_named(name).len() as i128 * 100),
        None => None,
    }
}

/// The datacenter a switch lives in: its parent is the datacenter's network
/// folder, which `datacenters` maps to the datacenter's name.
pub open spec fn datacenter_of(dvs: MoView, datacenters: Seq<(Seq<char>, Seq<char>)>) -> Option<Seq<char>> {
    match str_prop_of(dvs, "parent"@) {
        Some(p) => name_lookup(datacenters, p),
        None => None,
    }
}

/// The switch's identity, product and place.
pub open spec fn identity_cells(dvs: MoView, datacenters: Seq<(Seq<char>, Seq<char>)>) -> Seq<CellValue> {
    let config = prop_node(dvs, "config"@);
    seq![
        opt_text_value(nonempty_under(config, "uuid"@)),
        opt_text_value(datacenter_of(dvs, datacenters)),
        opt_text_value(nonempty_under(config, "name"@)),
        opt_text_value(nonempty_under(config, "productInfo/vendor"@)),
        opt_text_value(nonempty_under(config, "productInfo/version"@)),
        opt_text_value(nonempty_under(config, "createTime"@)),
    ]
}

/// The switch's size, discovery protocol, MTU and status.
pub open spec fn size_cells(dvs: MoView) -> Seq<CellValue> {
    let config = prop_node(dvs, "config"@);
    let summary = prop_node(dvs, "summary"@);
    seq![
        hundredths_value(count_under(summary, "hostMember"@)),
        hundredths_value(number_under(config, "maxPorts"@)),
        hundredths_value(number_under(config, "numPorts"@)),
        hundredths_value(count_under(summary, "vm"@)),
        opt_text_value(nonempty_under(config, "linkDiscoveryProtocolConfig/protocol"@)),
        opt_text_value(nonempty_under(config, "linkDiscoveryProtocolConfig/operation"@)),
        hundredths_value(number_under(config, "maxMtu"@)),
        opt_text_value(str_prop_of(dvs, "overallStatus"@)),
    ]
}

pub open spec fn switch_cells(dvs: MoView, datacenters: Seq<(Seq<char>, Seq<char>)>) -> Seq<CellValue> {
    identity_cells(dvs, datacenters) + size_cells(dvs)
}

fn identity_row(dvs: &ManagedObject, datacenters: &Vec<(String, String)>) -> (r: Vec<Cell>)
    ensures
        row_view(r) == identity_cells(dvs@, names_view(datacenters@)),
{
    let config = prop_el(dvs, "config");
    let dc = match dvs.str_prop("parent") {
        Some(p) => lookup_name(datacenters, p.as_str()),
        None => None,
    };
    let r = vec![
        Cell::opt_text(nonempty_under_el(config, "uuid")),
        Cell::opt_text(dc),
        Cell::opt_text(nonempty_under_el(config, "name")),
        Cell::opt_text(nonempty_under_el(config, "productInfo/vendor")),
        Cell::opt_text(nonempty_under_el(config, "productInfo/version")),
        Cell::opt_text(nonempty_under_el(config, "createTime")),
    ];
    proof { assert(row_view(r) =~= identity_cells(dvs@, names_view(datacenters@))); }
    r
}

fn size_row(dvs: &ManagedObject) -> (r: Vec<Cell>)
    ensures
        row_view(r) == size_cells(dvs@),
{
    let config = prop_el(dvs, "config");
    let summary = prop_el(dvs, "summary");
    let r = vec![
        opt_hundredths(count_under_el(summary, "hostMember")),
        opt_hundredths(number_under_el(config, "maxPorts")),
        opt_hundredths(number_under_el(config, "numPorts")),
        opt_hundredths(count_under_el(summary, "vm")),
        Cell::opt_text(nonempty_under_el(config, "linkDiscoveryProtocolConfig/protocol")),
        Cell::opt_text(nonempty_under_el(config, "linkDiscoveryProtocolConfig/operation")),
        opt_hundredths(number_under_el(config, "maxMtu")),
        Cell::opt_text(dvs.str_prop("overallStatus")),
    ];
    proof { assert(row_view(r) =~= size_cells(dvs@)); }
    r
}

/// Every switch's row, each tagged with its moref.
pub open spec fn switches_rows(switches: Seq<MoView>, datacenters: Seq<(Seq<char>, Seq<char>)>) -> Seq<(Seq<char>, Seq<CellValue>)> {
    switches.map_values(|d: MoView| (d.moref, switch_cells(d, datacenters)))
}

/// dvSwitch: one row per distributed switch. `datacenters` maps each
/// datacenter's network folder to the datacenter's name.
pub fn rows(switches: &Vec<ManagedObject>, datacenters: &Vec<(String, String)>) -> (r: Result<Vec<(String, Vec<Cell>)>, String>)
    ensures
        r matches Ok(v) && tagged_rows(v@) == switches_rows(mos(switches@), names_view(datacenters@)),
{
    let ghost sv = mos(switches@);
    let ghost dv = names_view(datacenters@);
    let ghost want = switches_rows(sv, dv);
    let mut out: Vec<(String, Vec<Cell>)> = Vec::new();
    let mut i: usize = 0;
    while i < switches.len()
        invariant
            i <= switches@.len(),
            sv == mos(switches@),
            dv == names_view(datacenters@),
            want == switches_rows(sv, dv),
            tagged_rows(out@) =~= want.take(i as int),
        decreases switches.len() - i,
    {
        let d = &switches[i];
        let row = append_cells(identity_row(d, datacenters), size_row(d));
        let ghost before = out@;
        out.push((d.moref.clone(), row));
        proof {
            assert(tagged_rows(out@) =~= tagged_rows(before).push((d@.moref, row_view(row))));
            assert(want.take(i + 1) =~= want.take(i as int).push(want[i as int]));
        }
        i += 1;
    }
    proof { assert(want.take(want.len() as int) =~= want); }
    Ok(out)
}
} // verus!
