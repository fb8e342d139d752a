//! vSource — one row per connected vCenter, describing the vCenter itself.

use vstd::prelude::*;
use super::{append_cells, columns_view, opt_text_value, row_view, Cell, CellValue, Column, ColumnKind};
use super::per_object::opt_node;
use super::vdisk::{tagged_rows, text, text_of};
use crate::vcenter::xml::{Element, XNode};

verus! {

/// The sheet's columns, labels as RVTools writes them.
pub open spec fn column_spec() -> Seq<(Seq<char>, ColumnKind)> {
    seq![
        ("Name"@, ColumnKind::Text),
        ("OS type"@, ColumnKind::Text),
        ("API type"@, ColumnKind::Text),
        ("API version"@, ColumnKind::Text),
        ("Version"@, ColumnKind::Text),
        ("Patch level"@, ColumnKind::Text),
        ("Build"@, ColumnKind::Text),
        ("Fullname"@, ColumnKind::Text),
        ("Product name"@, ColumnKind::Text),
        ("Product version"@, ColumnKind::Text),
        ("Product line"@, ColumnKind::Text),
        ("Vendor"@, ColumnKind::Text),
    ]
}

/// Which column a label names; `-1` for none.
#[verifier::opaque]
pub open spec fn label_index(s: Seq<char>) -> int {
    if s == "Name"@ {
        0
    } else if s == "OS type"@ {
        1
    } else if s == "API type"@ {
        2
    } else if s == "API version"@ {
        3
    } else if s == "Version"@ {
        4
    } else if s == "Patch level"@ {
        5
    } else if s == "Build"@ {
        6
    } else if s == "Fullname"@ {
        7
    } else if s == "Product name"@ {
        8
    } else if s == "Product version"@ {
        9
    } else if s == "Product line"@ {
        10
    } else if s == "Vendor"@ {
        11
    } else {
        -1
    }
}

/// The sheet's labels are distinct, and none is `VI SDK Server`.
pub proof fn lemma_labels_ok()
    ensures
        super::labels_ok(column_spec()),
{
    reveal(label_index);
    reveal_strlit("Name");
    assert("Name"@.len() == 4);
    reveal_strlit("OS type");
    assert("OS type"@.len() == 7);
    reveal_strlit("API type");
    assert("API type"@.len() == 8);
    reveal_strlit("API version");
    assert("API version"@.len() == 11);
    reveal_strlit("Version");
    assert("Version"@.len() == 7);
    reveal_strlit("Patch level");
    assert("Patch level"@.len() == 11);
    reveal_strlit("Build");
    assert("Build"@.len() == 5);
    reveal_strlit("Fullname");
    assert("Fullname"@.len() == 8);
    reveal_strlit("Product name");
    assert("Product name"@.len() == 12);
    reveal_strlit("Product version");
    assert("Product version"@.len() == 15);
    reveal_strlit("Product line");
    assert("Product line"@.len() == 12);
    reveal_strlit("Vendor");
    assert("Vendor"@.len() == 6);
    reveal_strlit("VI SDK Server");
    assert("VI SDK Server"@.len() == 13);
    assert("OS type"@[0] == 'O');
    assert("Version"@[0] == 'V');
    assert("API type"@[0] == 'A');
    assert("Fullname"@[0] == 'F');
    assert("API version"@[0] == 'A');
    assert("Patch level"@[0] == 'P');
    assert("Product name"@[8] == 'n');
    assert("Product line"@[8] == 'l');
    let cols = column_spec();
    assert(label_index(super::VI_SDK_SERVER@) == -1);
    assert forall|i: int| 0 <= i < cols.len() implies label_index(#[trigger] cols[i].0) == i by {
        if i == 0 {
                    assert(label_index(cols[0].0) == 0);
                } else if i == 1 {
                    assert(label_index(cols[1].0) == 1);
                } else if i == 2 {
                    assert(label_index(cols[2].0) == 2);
                } else if i == 3 {
                    assert(label_index(cols[3].0) == 3);
                } else if i == 4 {
                    assert(label_index(cols[4].0) == 4);
                } else if i == 5 {
                    assert(label_index(cols[5].0) == 5);
                } else if i == 6 {
                    assert(label_index(cols[6].0) == 6);
                } else if i == 7 {
                    assert(label_index(cols[7].0) == 7);
                } else if i == 8 {
                    assert(label_index(cols[8].0) == 8);
                } else if i == 9 {
                    assert(label_index(cols[9].0) == 9);
                } else if i == 10 {
                    assert(label_index(cols[10].0) == 10);
                } else if i == 11 {
                    assert(label_index(cols[11].0) == 11);
                }
    }
}

pub fn columns() -> (r: Vec<Column>)
    ensures
        columns_view(r@) == column_spec(),
{
    let r = vec![
        Column::text("Name"),
        Column::text("OS type"),
        Column::text("API type"),
        Column::text("API version"),
        Column::text("Version"),
        Column::text("Patch level"),
        Column::text("Build"),
        Column::text("Fullname"),
        Column::text("Product name"),
        Column::text("Product version"),
        Column::text("Product line"),
        Column::text("Vendor"),
    ];
    proof { assert(columns_view(r@) =~= column_spec()); }
    r
}

/// The vCenter's name, OS, API and build.
pub open spec fn build_cells(about: XNode) -> Seq<CellValue> {
    seq![
        opt_text_value(text_of(about, "name"@)),
        opt_text_value(text_of(about, "osType"@)),
        opt_text_value(text_of(about, "apiType"@)),
        opt_text_value(text_of(about, "apiVersion"@)),
        opt_text_value(text_of(about, "version"@)),
        opt_text_value(text_of(about, "patchLevel"@)),
    ]
}

/// The vCenter's build, full name and product.
pub open spec fn product_cells(about: XNode) -> Seq<CellValue> {
    seq![
        opt_text_value(text_of(about, "build"@)),
        opt_text_value(text_of(about, "fullName"@)),
        opt_text_value(text_of(about, "licenseProductName"@)),
        opt_text_value(text_of(about, "licenseProductVersion"@)),
        opt_text_value(text_of(about, "productLineId"@)),
        opt_text_value(text_of(about, "vendor"@)),
    ]
}

/// The vCenter's own description, from its `about` block.
pub open spec fn about_cells(about: XNode) -> Seq<CellValue> {
    build_cells(about) + product_cells(about)
}

/// `about` is not a managed object, so its row carries the instance UUID,
/// the closest stable identity vCenter offers, or nothing.
pub open spec fn source_rows(about: Option<XNode>) -> Seq<(Seq<char>, Seq<CellValue>)> {
    match about {
        None => Seq::empty(),
        Some(a) => seq![
            (
                match text_of(a, "instanceUuid"@) {
                    Some(u) => u,
                    None => Seq::empty(),
                },
                about_cells(a),
            ),
        ],
    }
}

fn build_row(about: &Element) -> (r: Vec<Cell>)
    ensures
        row_view(r) == build_cells(about@),
{
    let r = vec![
        Cell::opt_text(text(about, "name")),
        Cell::opt_text(text(about, "osType")),
        Cell::opt_text(text(about, "apiType")),
        Cell::opt_text(text(about, "apiVersion")),
        Cell::opt_text(text(about, "version")),
        Cell::opt_text(text(about, "patchLevel")),
    ];
    proof { assert(row_view(r) =~= build_cells(about@)); }
    r
}

fn product_row(about: &Element) -> (r: Vec<Cell>)
    ensures
        row_view(r) == product_cells(about@),
{
    let r = vec![
        Cell::opt_text(text(about, "build")),
        Cell::opt_text(text(about, "fullName")),
        Cell::opt_text(text(about, "licenseProductName")),
        Cell::opt_text(text(about, "licenseProductVersion")),
        Cell::opt_text(text(about, "productLineId")),
        Cell::opt_text(text(about, "vendor")),
    ];
    proof { assert(row_view(r) =~= product_cells(about@)); }
    r
}

/// vSource: one row describing the vCenter, when its `about` was fetched.
pub fn rows(about: Option<&Element>) -> (r: Result<Vec<(String, Vec<Cell>)>, String>)
    ensures
        r matches Ok(v) && tagged_rows(v@) == source_rows(opt_node(about)),
{
    match about {
        None => {
            let out: Vec<(String, Vec<Cell>)> = Vec::new();
            proof { assert(tagged_rows(out@) =~= source_rows(opt_node(about))); }
            Ok(out)
        },
        Some(a) => {
            let id = match text(a, "instanceUuid") {
                Some(u) => u,
                None => String::new(),
            };
            let out = vec![(id, append_cells(build_row(a), product_row(a)))];
            proof { assert(tagged_rows(out@) =~= source_rows(opt_node(about))); }
            Ok(out)
        },
    }
}
} // verus!
