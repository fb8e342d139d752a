//! vDatastore — one row per datastore.

use vstd::prelude::*;
use super::{
    append_cells,
    columns_view,
    hundredths_value,
    opt_bool_value,
    opt_hundredths,
    opt_text_value,
    row_view,
    rows_view,
    Cell,
    CellValue,
    Column,
    ColumnKind,
};
use super::common::{div_round_wide, mib_hundredths, no_name_error, percent, percent_of};
use super::per_object::{
    int_under,
    int_under_el,
    mos,
    nonempty_under,
    nonempty_under_el,
    number_under,
    number_under_el,
    per_object_rows,
    per_object_rows_of,
    prop_el,
    prop_node,
    true_at,
    true_at_el,
    PerObject,
};
use super::vdisk::tagged_rows;
use crate::vcenter::soap::{strs_view, array_prop_of, str_prop_of, ManagedObject, MoView};

verus! {

/// The sheet's columns, labels as RVTools writes them.
pub open spec fn column_spec() -> Seq<(Seq<char>, ColumnKind)> {
    seq![
        ("Name"@, ColumnKind::Text),
        ("Config status"@, ColumnKind::Text),
        ("Type"@, ColumnKind::Text),
        ("Accessible"@, ColumnKind::Bool),
        ("# VMs"@, ColumnKind::Number),
        ("# Hosts"@, ColumnKind::Number),
        ("Capacity MiB"@, ColumnKind::Number),
        ("Provisioned MiB"@, ColumnKind::Number),
        ("In Use MiB"@, ColumnKind::Number),
        ("Free MiB"@, ColumnKind::Number),
        ("Free %"@, ColumnKind::Number),
        ("SIOC enabled"@, ColumnKind::Bool),
        ("SIOC Threshold"@, ColumnKind::Number),
        ("MHA"@, ColumnKind::Bool),
        ("URL"@, ColumnKind::Text),
    ]
}

/// Which column a label names; `-1` for none.
#[verifier::opaque]
pub open spec fn label_index(s: Seq<char>) -> int {
    if s == "Name"@ {
        0
    } else if s == "Config status"@ {
        1
    } else if s == "Type"@ {
        2
    } else if s == "Accessible"@ {
        3
    } else if s == "# VMs"@ {
        4
    } else if s == "# Hosts"@ {
        5
    } else if s == "Capacity MiB"@ {
        6
    } else if s == "Provisioned MiB"@ {
        7
    } else if s == "In Use MiB"@ {
        8
    } else if s == "Free MiB"@ {
        9
    } else if s == "Free %"@ {
        10
    } else if s == "SIOC enabled"@ {
        11
    } else if s == "SIOC Threshold"@ {
        12
    } else if s == "MHA"@ {
        13
    } else if s == "URL"@ {
        14
    } else {
        -1
    }
}

/// The sheet's labels are distinct, and none is `VI SDK Server`.
pub proof fn lemma_labels_ok()
    ensures
        super::labels_ok(column_spec()),
{
    reveal(label_index);
    reveal_strlit("Name");
    assert("Name"@.len() == 4);
    reveal_strlit("Config status");
    assert("Config status"@.len() == 13);
    reveal_strlit("Type");
    assert("Type"@.len() == 4);
    reveal_strlit("Accessible");
    assert("Accessible"@.len() == 10);
    reveal_strlit("# VMs");
    assert("# VMs"@.len() == 5);
    reveal_strlit("# Hosts");
    assert("# Hosts"@.len() == 7);
    reveal_strlit("Capacity MiB");
    assert("Capacity MiB"@.len() == 12);
    reveal_strlit("Provisioned MiB");
    assert("Provisioned MiB"@.len() == 15);
    reveal_strlit("In Use MiB");
    assert("In Use MiB"@.len() == 10);
    reveal_strlit("Free MiB");
    assert("Free MiB"@.len() == 8);
    reveal_strlit("Free %");
    assert("Free %"@.len() == 6);
    reveal_strlit("SIOC enabled");
    assert("SIOC enabled"@.len() == 12);
    reveal_strlit("SIOC Threshold");
    assert("SIOC Threshold"@.len() == 14);
    reveal_strlit("MHA");
    assert("MHA"@.len() == 3);
    reveal_strlit("URL");
    assert("URL"@.len() == 3);
    reveal_strlit("VI SDK Server");
    assert("VI SDK Server"@.len() == 13);
    assert("Name"@[0] == 'N');
    assert("Type"@[0] == 'T');
    assert("Config status"@[0] == 'C');
    assert("VI SDK Server"@[0] == 'V');
    assert("Accessible"@[0] == 'A');
    assert("In Use MiB"@[0] == 'I');
    assert("Capacity MiB"@[0] == 'C');
    assert("SIOC enabled"@[0] == 'S');
    assert("MHA"@[0] == 'M');
    assert("URL"@[0] == 'U');
    let cols = column_spec();
    assert(label_index(super::VI_SDK_SERVER@) == -1);
    assert forall|i: int| 0 <= i < cols.len() implies label_index(#[trigger] cols[i].0) == i by {
        if i == 0 {
                    assert(label_index(cols[0].0) == 0);
                } else if i == 1 {
                    assert(label_index(cols[1].0) == 1);
                } else if i == 2 {
                    assert(label_index(cols[2].0) == 2);
                } else if i == 3 {
                    assert(label_index(cols[3].0) == 3);
                } else if i == 4 {
                    assert(label_index(cols[4].0) == 4);
                } else if i == 5 {
                    assert(label_index(cols[5].0) == 5);
                } else if i == 6 {
                    assert(label_index(cols[6].0) == 6);
                } else if i == 7 {
                    assert(label_index(cols[7].0) == 7);
                } else if i == 8 {
                    assert(label_index(cols[8].0) == 8);
                } else if i == 9 {
                    assert(label_index(cols[9].0) == 9);
                } else if i == 10 {
                    assert(label_index(cols[10].0) == 10);
                } else if i == 11 {
                    assert(label_index(cols[11].0) == 11);
                } else if i == 12 {
                    assert(label_index(cols[12].0) == 12);
                } else if i == 13 {
                    assert(label_index(cols[13].0) == 13);
                } else if i == 14 {
                    assert(label_index(cols[14].0) == 14);
                }
    }
}

pub fn columns() -> (r: Vec<Column>)
    ensures
        columns_view(r@) == column_spec(),
{
    let r = vec![
        Column::text("Name"),
        Column::text("Config status"),
        Column::text("Type"),
        Column::bool("Accessible"),
        Column::number("# VMs"),
        Column::number("# Hosts"),
        Column::number("Capacity MiB"),
        Column::number("Provisioned MiB"),
        Column::number("In Use MiB"),
        Column::number("Free MiB"),
        Column::number("Free %"),
        Column::bool("SIOC enabled"),
        Column::number("SIOC Threshold"),
        Column::bool("MHA"),
        Column::text("URL"),
    ];
    proof { assert(columns_view(r@) =~= column_spec()); }
    r
}

/// `Datastore` properties this sheet reads.
pub open spec fn datastore_prop_names() -> Seq<Seq<char>> {
    seq![
        "name"@,
        "summary"@,
        "overallStatus"@,
        "vm"@,
        "host"@,
        "iormConfiguration"@,
    ]
}

/// `Datastore` properties this sheet reads.
pub fn datastore_props() -> (r: Vec<&'static str>)
    ensures
        strs_view(r@) == datastore_prop_names(),
{
    let r = vec![
        "name",
        "summary",
        "overallStatus",
        "vm",
        "host",
        "iormConfiguration",
    ];
    proof { assert(strs_view(r@) =~= datastore_prop_names()); }
    r
}

/// Capacity less free space, in bytes.
pub open spec fn in_use_of(capacity: Option<i64>, free: Option<i64>) -> Option<int> {
    match (capacity, free) {
        (Some(c), Some(f)) => Some(c - f),
        _ => None,
    }
}

/// What is in use plus what thin disks still have promised, in bytes.
pub open spec fn provisioned_of(in_use: Option<int>, uncommitted: Option<i64>) -> Option<int> {
    match (in_use, uncommitted) {
        (Some(u), Some(unc)) => Some(u + unc),
        (Some(u), None) => Some(u),
        _ => None,
    }
}

pub open spec fn mib_int(bytes: Option<int>) -> Option<int> {
    match bytes {
        Some(b) => Some(mib_hundredths(b)),
        None => None,
    }
}

/// Bytes that fit in `i64` three times over.
pub open spec fn modest(v: Option<i128>) -> bool {
    match v {
        Some(x) => -0x4_0000_0000_0000_0000 < x < 0x4_0000_0000_0000_0000,
        None => true,
    }
}

fn in_use(capacity: Option<i64>, free: Option<i64>) -> (r: Option<i128>)
    ensures
        modest(r),
        match r {
            Some(x) => in_use_of(capacity, free) == Some(x as int),
            None => in_use_of(capacity, free).is_none(),
        },
{
    match (capacity, free) {
        (Some(c), Some(f)) => Some(c as i128 - f as i128),
        _ => None,
    }
}

fn provisioned(in_use: Option<i128>, uncommitted: Option<i64>) -> (r: Option<i128>)
    requires
        match in_use {
            Some(x) => -0x2_0000_0000_0000_0000 < x < 0x2_0000_0000_0000_0000,
            None => true,
        },
    ensures
        modest(r),
        match r {
            Some(x) => provisioned_of(
                match in_use {
                    Some(u) => Some(u as int),
                    None => None,
                },
                uncommitted,
            ) == Some(x as int),
            None => provisioned_of(
                match in_use {
                    Some(u) => Some(u as int),
                    None => None,
                },
                uncommitted,
            ).is_none(),
        },
{
    match (in_use, uncommitted) {
        (Some(u), Some(unc)) => Some(u + unc as i128),
        (Some(u), None) => Some(u),
        _ => None,
    }
}

fn mib(bytes: Option<i128>) -> (r: Option<i128>)
    requires
        modest(bytes),
    ensures
        match r {
            Some(x) => mib_int(
                match bytes {
                    Some(b) => Some(b as int),
                    None => None,
                },
            ) == Some(x as int),
            None => bytes.is_none(),
        },
{
    match bytes {
        Some(b) => Some(div_round_wide(b * 100, 1048576)),
        None => None,
    }
}

/// A datastore's name, status, type and reach.
pub open spec fn head_cells(name: Seq<char>, d: MoView) -> Seq<CellValue> {
    let summary = prop_node(d, "summary"@);
    seq![
        CellValue::Text(name),
        opt_text_value(str_prop_of(d, "overallStatus"@)),
        opt_text_value(nonempty_under(summary, "type"@)),
        opt_bool_value(true_at(summary, "accessible"@)),
        CellValue::Number((array_prop_of(d, "vm"@).len() * 100) as i128),
        CellValue::Number((array_prop_of(d, "host"@).len() * 100) as i128),
    ]
}

/// A datastore's space, in MiB, and its free share.
pub open spec fn space_cells(d: MoView) -> Seq<CellValue> {
    let summary = prop_node(d, "summary"@);
    let capacity = int_under(summary, "capacity"@);
    let free = int_under(summary, "freeSpace"@);
    let used = in_use_of(capacity, free);
    seq![
        hundredths_value(mib_int(match capacity {
            Some(c) => Some(c as int),
            None => None,
        })),
        hundredths_value(mib_int(provisioned_of(used, int_under(summary, "uncommitted"@)))),
        hundredths_value(mib_int(used)),
        hundredths_value(mib_int(match free {
            Some(f) => Some(f as int),
            None => None,
        })),
        hundredths_value(percent_of(free, capacity)),
    ]
}

/// Storage I/O control, multiple-host access and the datastore's URL.
pub open spec fn tail_cells(d: MoView) -> Seq<CellValue> {
    let summary = prop_node(d, "summary"@);
    let iorm = prop_node(d, "iormConfiguration"@);
    seq![
        opt_bool_value(true_at(iorm, "enabled"@)),
        hundredths_value(number_under(iorm, "congestionThreshold"@)),
        opt_bool_value(true_at(summary, "multipleHostAccess"@)),
        opt_text_value(nonempty_under(summary, "url"@)),
    ]
}

/// A datastore's row.
pub open spec fn datastore_cells(name: Seq<char>, d: MoView) -> Seq<CellValue> {
    head_cells(name, d) + space_cells(d) + tail_cells(d)
}

fn head_row(name: String, d: &ManagedObject) -> (r: Vec<Cell>)
    ensures
        row_view(r) == head_cells(name@, d@),
{
    let summary = prop_el(d, "summary");
    let vms = d.array_prop("vm").len();
    let hosts = d.array_prop("host").len();
    let r = vec![
        Cell::Text(name),
        Cell::opt_text(d.str_prop("overallStatus")),
        Cell::opt_text(nonempty_under_el(summary, "type")),
        Cell::opt_bool(true_at_el(summary, "accessible")),
        Cell::Number(vms as i128 * 100),
        Cell::Number(hosts as i128 * 100),
    ];
    proof { assert(row_view(r) =~= head_cells(name@, d@)); }
    r
}

fn space_row(d: &ManagedObject) -> (r: Vec<Cell>)
    ensures
        row_view(r) == space_cells(d@),
{
    let summary = prop_el(d, "summary");
    let capacity = int_under_el(summary, "capacity");
    let free = int_under_el(summary, "freeSpace");
    let used = in_use(capacity, free);
    let cap_wide: Option<i128> = match capacity {
        Some(c) => Some(c as i128),
        None => None,
    };
    let free_wide: Option<i128> = match free {
        Some(f) => Some(f as i128),
        None => None,
    };
    let r = vec![
        opt_hundredths(mib(cap_wide)),
        opt_hundredths(mib(provisioned(used, int_under_el(summary, "uncommitted")))),
        opt_hundredths(mib(used)),
        opt_hundredths(mib(free_wide)),
        opt_hundredths(percent(free, capacity)),
    ];
    proof { assert(row_view(r) =~= space_cells(d@)); }
    r
}

fn tail_row(d: &ManagedObject) -> (r: Vec<Cell>)
    ensures
        row_view(r) == tail_cells(d@),
{
    let summary = prop_el(d, "summary");
    let iorm = prop_el(d, "iormConfiguration");
    let r = vec![
        Cell::opt_bool(true_at_el(iorm, "enabled")),
        opt_hundredths(number_under_el(iorm, "congestionThreshold")),
        Cell::opt_bool(true_at_el(summary, "multipleHostAccess")),
        Cell::opt_text(nonempty_under_el(summary, "url")),
    ];
    proof { assert(row_view(r) =~= tail_cells(d@)); }
    r
}

/// A datastore's single row, or an error for a nameless datastore.
pub open spec fn object_rows_of(d: MoView) -> Result<Seq<Seq<CellValue>>, Seq<char>> {
    match str_prop_of(d, "name"@) {
        None => Err(no_name_error("Datastore "@, d.moref)),
        Some(n) => Ok(seq![datastore_cells(n, d)]),
    }
}

pub fn object_rows(d: &ManagedObject) -> (r: Result<Vec<Vec<Cell>>, String>)
    ensures
        match r {
            Ok(v) => object_rows_of(d@) == Ok::<Seq<Seq<CellValue>>, Seq<char>>(rows_view(v@)),
            Err(e) => object_rows_of(d@) == Err::<Seq<Seq<CellValue>>, Seq<char>>(e@),
        },
{
    let name = match d.str_prop("name") {
        Some(n) => n,
        None => return Err(String::from_str("Datastore ").concat(d.moref.as_str()).concat(" returned no name property")),
    };
    let ghost n = name@;
    let row = append_cells(append_cells(head_row(name, d), space_row(d)), tail_row(d));
    let out = vec![row];
    proof { assert(rows_view(out@) =~= seq![datastore_cells(n, d@)]); }
    Ok(out)
}

/// A datastore's row has one cell per column.
pub proof fn lemma_rows_width(d: MoView)
    ensures
        object_rows_of(d) matches Ok(rows) ==> super::all_width(rows, column_spec().len() as int),
{
    if let Some(n) = str_prop_of(d, "name"@) {
        assert(datastore_cells(n, d).len() == 15);
    }
}

/// vDatastore: one row per datastore, each with its moref; the first
/// nameless datastore is an error.
pub fn rows(datastores: &Vec<ManagedObject>) -> (r: Result<Vec<(String, Vec<Cell>)>, String>)
    ensures
        match r {
            Ok(v) => per_object_rows_of(PerObject::Datastore, mos(datastores@), Seq::empty())
                == Ok::<Seq<(Seq<char>, Seq<CellValue>)>, Seq<char>>(tagged_rows(v@)),
            Err(e) => per_object_rows_of(PerObject::Datastore, mos(datastores@), Seq::empty())
                == Err::<Seq<(Seq<char>, Seq<CellValue>)>, Seq<char>>(e@),
        },
{
    let none: Vec<(String, String)> = Vec::new();
    proof { assert(super::snapshot::names_view(none@) =~= Seq::empty()); }
    per_object_rows(PerObject::Datastore, datastores, &none)
}
} // verus!
