//! vLicense — one row per license assigned to the vCenter.

use vstd::prelude::*;
use super::{columns_view, hundredths_value, opt_hundredths, opt_text_value, row_view, Cell, CellValue, Column, ColumnKind};
use super::vdisk::{number, number_of, tagged_rows, text, text_of};
use crate::text::chars_of;
use crate::vcenter::soap::{array_prop_of, ManagedObject, MoView};
use crate::vcenter::xml::{first_with_text, find_by_text, named, opt_str_view, text_at_path, Element, XNode};

verus! {

/// The sheet's columns, labels as RVTools writes them.
pub open spec fn column_spec() -> Seq<(Seq<char>, ColumnKind)> {
    seq![
        ("Name"@, ColumnKind::Text),
        ("Key"@, ColumnKind::Text),
        ("Edition"@, ColumnKind::Text),
        ("Cost Unit"@, ColumnKind::Text),
        ("Total"@, ColumnKind::Number),
        ("Used"@, ColumnKind::Number),
        ("Expiration Date"@, ColumnKind::Text),
    ]
}

/// Which column a label names; `-1` for none.
#[verifier::opaque]
pub open spec fn label_index(s: Seq<char>) -> int {
    if s == "Name"@ {
        0
    } else if s == "Key"@ {
        1
    } else if s == "Edition"@ {
        2
    } else if s == "Cost Unit"@ {
        3
    } else if s == "Total"@ {
        4
    } else if s == "Used"@ {
        5
    } else if s == "Expiration Date"@ {
        6
    } else {
        -1
    }
}

/// The sheet's labels are distinct, and none is `VI SDK Server`.
pub proof fn lemma_labels_ok()
    ensures
        super::labels_ok(column_spec()),
{
    reveal(label_index);
    reveal_strlit("Name");
    assert("Name"@.len() == 4);
    reveal_strlit("Key");
    assert("Key"@.len() == 3);
    reveal_strlit("Edition");
    assert("Edition"@.len() == 7);
    reveal_strlit("Cost Unit");
    assert("Cost Unit"@.len() == 9);
    reveal_strlit("Total");
    assert("Total"@.len() == 5);
    reveal_strlit("Used");
    assert("Used"@.len() == 4);
    reveal_strlit("Expiration Date");
    assert("Expiration Date"@.len() == 15);
    reveal_strlit("VI SDK Server");
    assert("VI SDK Server"@.len() == 13);
    assert("Name"@[0] == 'N');
    assert("Used"@[0] == 'U');
    let cols = column_spec();
    assert(label_index(super::VI_SDK_SERVER@) == -1);
    assert forall|i: int| 0 <= i < cols.len() implies label_index(#[trigger] cols[i].0) == i by {
        if i == 0 {
                    assert(label_index(cols[0].0) == 0);
                } else if i == 1 {
                    assert(label_index(cols[1].0) == 1);
                } else if i == 2 {
                    assert(label_index(cols[2].0) == 2);
                } else if i == 3 {
                    assert(label_index(cols[3].0) == 3);
                } else if i == 4 {
                    assert(label_index(cols[4].0) == 4);
                } else if i == 5 {
                    assert(label_index(cols[5].0) == 5);
                } else if i == 6 {
                    assert(label_index(cols[6].0) == 6);
                }
    }
}

pub fn columns() -> (r: Vec<Column>)
    ensures
        columns_view(r@) == column_spec(),
{
    let r = vec![
        Column::text("Name"),
        Column::text("Key"),
        Column::text("Edition"),
        Column::text("Cost Unit"),
        Column::number("Total"),
        Column::number("Used"),
        Column::text("Expiration Date"),
    ];
    proof { assert(columns_view(r@) =~= column_spec()); }
    r
}

/// A named entry from a licence's `properties` bag, when it has a value.
pub open spec fn property_of(lic: XNode, key: Seq<char>) -> Option<Seq<char>> {
    match first_with_text(named(lic.children, "properties"@), "key"@, key) {
        Some(p) => match text_at_path(p, "value"@) {
            Some(v) => if v.len() > 0 {
                Some(v)
            } else {
                None
            },
            None => None,
        },
        None => None,
    }
}

pub fn property(lic: &Element, key: &str) -> (r: Option<String>)
    ensures
        opt_str_view(r) == property_of(lic@, key@),
{
    let props = lic.children_named("properties");
    proof { assert(props@.map_values(|x: &Element| x@) =~= named(lic@.children, "properties"@)); }
    match find_by_text(&props, "key", key) {
        Some(p) => match p.text_at("value") {
            Some(v) => if chars_of(v.as_str()).len() > 0 {
                Some(v)
            } else {
                None
            },
            None => None,
        },
        None => None,
    }
}
/// A licence's row; a total of 0 means unlimited on an evaluation licence,
/// and the expiry lives in the properties bag.
pub open spec fn license_cells(lic: XNode) -> Seq<CellValue> {
    seq![
        opt_text_value(text_of(lic, "name"@)),
        opt_text_value(text_of(lic, "licenseKey"@)),
        opt_text_value(text_of(lic, "editionKey"@)),
        opt_text_value(text_of(lic, "costUnit"@)),
        hundredths_value(number_of(lic, "total"@)),
        hundredths_value(number_of(lic, "used"@)),
        opt_text_value(property_of(lic, "expirationDate"@)),
    ]
}

fn license_row(lic: &Element) -> (r: Vec<Cell>)
    ensures
        row_view(r) == license_cells(lic@),
{
    let r = vec![
        Cell::opt_text(text(lic, "name")),
        Cell::opt_text(text(lic, "licenseKey")),
        Cell::opt_text(text(lic, "editionKey")),
        Cell::opt_text(text(lic, "costUnit")),
        opt_hundredths(number(lic, "total")),
        opt_hundredths(number(lic, "used")),
        Cell::opt_text(property(lic, "expirationDate")),
    ];
    proof { assert(row_view(r) =~= license_cells(lic@)); }
    r
}

/// The licences of a licence manager, each tagged with its moref; none
/// without one.
pub open spec fn licenses_of(lm: Option<MoView>) -> Seq<(Seq<char>, Seq<CellValue>)> {
    match lm {
        None => Seq::empty(),
        Some(m) => array_prop_of(m, "licenses"@).map_values(|l: XNode| (m.moref, license_cells(l))),
    }
}

/// vLicense: one row per licence the vCenter holds.
pub fn rows(lm: Option<&ManagedObject>) -> (r: Result<Vec<(String, Vec<Cell>)>, String>)
    ensures
        r matches Ok(v) && tagged_rows(v@) == licenses_of(
            match lm {
                Some(m) => Some(m@),
                None => None,
            },
        ),
{
    let mut out: Vec<(String, Vec<Cell>)> = Vec::new();
    let m = match lm {
        Some(m) => m,
        None => {
            proof { assert(tagged_rows(out@) =~= Seq::<(Seq<char>, Seq<CellValue>)>::empty()); }
            return Ok(out);
        },
    };
    let lics = m.array_prop("licenses");
    let ghost lv = array_prop_of(m@, "licenses"@);
    let ghost want = lv.map_values(|l: XNode| (m@.moref, license_cells(l)));
    let mut i: usize = 0;
    while i < lics.len()
        invariant
            i <= lics@.len(),
            lics@.len() == lv.len(),
            lv == array_prop_of(m@, "licenses"@),
            want == lv.map_values(|l: XNode| (m@.moref, license_cells(l))),
            forall|k: int| 0 <= k < lv.len() ==> (#[trigger] lics@[k])@ == lv[k],
            tagged_rows(out@) =~= want.take(i as int),
        decreases lics.len() - i,
    {
        let row = license_row(lics[i]);
        let ghost before = out@;
        out.push((m.moref.clone(), row));
        proof {
            assert(tagged_rows(out@) =~= tagged_rows(before).push((m@.moref, row_view(row))));
            assert(want.take(i + 1) =~= want.take(i as int).push(want[i as int]));
        }
        i += 1;
    }
    proof { assert(want.take(want.len() as int) =~= want); }
    Ok(out)
}
} // verus!
