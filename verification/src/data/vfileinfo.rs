//! vFileInfo — one row per file on a datastore.

use vstd::prelude::*;
use super::{columns_view, hundredths_value, opt_hundredths, opt_text_value, row_view, Cell, CellValue, Column, ColumnKind};
use super::vdisk::{number, number_of, tagged_rows, text, text_of};
use crate::text::chars_of;
use crate::vcenter::xml::{child_of, named, opt_str_view, text_at_path, Element, XNode};

verus! {

/// The sheet's columns, labels as RVTools writes them.
pub open spec fn column_spec() -> Seq<(Seq<char>, ColumnKind)> {
    seq![
        ("Friendly Path Name"@, ColumnKind::Text),
        ("File Name"@, ColumnKind::Text),
        ("File Type"@, ColumnKind::Text),
        ("File Size in bytes"@, ColumnKind::Number),
        ("Modification"@, ColumnKind::Text),
        ("Path"@, ColumnKind::Text),
    ]
}

/// Which column a label names; `-1` for none.
#[verifier::opaque]
pub open spec fn label_index(s: Seq<char>) -> int {
    if s == "Friendly Path Name"@ {
        0
    } else if s == "File Name"@ {
        1
    } else if s == "File Type"@ {
        2
    } else if s == "File Size in bytes"@ {
        3
    } else if s == "Modification"@ {
        4
    } else if s == "Path"@ {
        5
    } else {
        -1
    }
}

/// The sheet's labels are distinct, and none is `VI SDK Server`.
pub proof fn lemma_labels_ok()
    ensures
        super::labels_ok(column_spec()),
{
    reveal(label_index);
    reveal_strlit("Friendly Path Name");
    assert("Friendly Path Name"@.len() == 18);
    reveal_strlit("File Name");
    assert("File Name"@.len() == 9);
    reveal_strlit("File Type");
    assert("File Type"@.len() == 9);
    reveal_strlit("File Size in bytes");
    assert("File Size in bytes"@.len() == 18);
    reveal_strlit("Modification");
    assert("Modification"@.len() == 12);
    reveal_strlit("Path");
    assert("Path"@.len() == 4);
    reveal_strlit("VI SDK Server");
    assert("VI SDK Server"@.len() == 13);
    assert("Friendly Path Name"@[1] == 'r');
    assert("File Size in bytes"@[1] == 'i');
    assert("File Name"@[5] == 'N');
    assert("File Type"@[5] == 'T');
    let cols = column_spec();
    assert(label_index(super::VI_SDK_SERVER@) == -1);
    assert forall|i: int| 0 <= i < cols.len() implies label_index(#[trigger] cols[i].0) == i by {
        if i == 0 {
                    assert(label_index(cols[0].0) == 0);
                } else if i == 1 {
                    assert(label_index(cols[1].0) == 1);
                } else if i == 2 {
                    assert(label_index(cols[2].0) == 2);
                } else if i == 3 {
                    assert(label_index(cols[3].0) == 3);
                } else if i == 4 {
                    assert(label_index(cols[4].0) == 4);
                } else if i == 5 {
                    assert(label_index(cols[5].0) == 5);
                }
    }
}

pub fn columns() -> (r: Vec<Column>)
    ensures
        columns_view(r@) == column_spec(),
{
    let r = vec![
        Column::text("Friendly Path Name"),
        Column::text("File Name"),
        Column::text("File Type"),
        Column::number("File Size in bytes"),
        Column::text("Modification"),
        Column::text("Path"),
    ];
    proof { assert(columns_view(r@) =~= column_spec()); }
    r
}

/// Whether `c` has the Unicode `Uppercase` property.
pub uninterp spec fn unicode_uppercase(c: char) -> bool;

/// Whether `c` is an uppercase character: every ASCII capital is one, no
/// ASCII small letter is, and beyond them the Unicode property decides.
pub open spec fn is_upper(c: char) -> bool {
    if 'A' <= c <= 'Z' {
        true
    } else if 'a' <= c <= 'z' {
        false
    } else {
        unicode_uppercase(c)
    }
}

/// `char::is_uppercase`: the Unicode `Uppercase` property, which holds of
/// `A` to `Z` and not of `a` to `z`; the Unicode tables are std's.
#[verifier::external_body]
fn is_uppercase(c: char) -> (r: bool)
    ensures
        r == unicode_uppercase(c),
        r == is_upper(c),
{
    c.is_uppercase()
}

/// `t` without a trailing `FileInfo`.
pub open spec fn without_file_info(t: Seq<char>) -> Seq<char> {
    if t.len() >= 8 && t.skip(t.len() - 8) == "FileInfo"@ {
        t.take(t.len() - 8)
    } else {
        t
    }
}

/// A CamelCase name split into words: a space before every uppercase
/// character but the first.
pub open spec fn spaced(s: Seq<char>) -> Seq<char>
    decreases s.len(),
{
    if s.len() == 0 {
        Seq::empty()
    } else if s.len() > 1 && is_upper(s.last()) {
        spaced(s.drop_last()) + seq![' ', s.last()]
    } else {
        spaced(s.drop_last()).push(s.last())
    }
}

/// `FloppyImageFileInfo` reads `Floppy Image`, so the column reads as a file
/// type rather than as a class name; `FileInfo` alone stays as it is.
pub open spec fn friendly_type_of(xsi_type: Option<Seq<char>>) -> Option<Seq<char>> {
    match xsi_type {
        None => None,
        Some(t) => if without_file_info(t).len() == 0 {
            Some(t)
        } else {
            Some(spaced(without_file_info(t)))
        },
    }
}

pub fn friendly_type(xsi_type: Option<&str>) -> (r: Option<String>)
    ensures
        match r {
            Some(s) => friendly_type_of(
                match xsi_type {
                    Some(t) => Some(t@),
                    None => None,
                },
            ) == Some(s@),
            None => xsi_type.is_none(),
        },
{
    let t = match xsi_type {
        Some(t) => t,
        None => return None,
    };
    let cs = chars_of(t);
    let n = cs.len();
    let mut end = n;
    if n >= 8 {
        let suffix = chars_of("FileInfo");
        proof {
            reveal_strlit("FileInfo");
            assert(suffix@.len() == 8);
        }
        let mut k: usize = 0;
        let mut same = true;
        while k < 8
            invariant
                k <= 8,
                n >= 8,
                n == cs@.len(),
                suffix@ == "FileInfo"@,
                suffix@.len() == 8,
                same == (forall|j: int| 0 <= j < k ==> cs@[n - 8 + j] == suffix@[j]),
            decreases 8 - k,
        {
            if cs[n - 8 + k] != suffix[k] {
                same = false;
            }
            k += 1;
        }
        proof {
            if same {
                assert(cs@.skip(n - 8) =~= "FileInfo"@);
            } else {
                let j = choose|j: int| 0 <= j < 8 && cs@[n - 8 + j] != suffix@[j];
                assert(cs@.skip(n - 8)[j] != "FileInfo"@[j]);
            }
        }
        if same {
            end = n - 8;
        }
    }
    let ghost base = without_file_info(t@);
    proof { assert(base =~= cs@.take(end as int)); }
    if end == 0 {
        return Some(String::from_str(t));
    }
    let mut out = String::new();
    let mut i: usize = 0;
    proof { assert(base.take(0) =~= Seq::<char>::empty()); }
    while i < end
        invariant
            i <= end <= cs@.len(),
            base == cs@.take(end as int),
            out@ == spaced(base.take(i as int)),
        decreases end - i,
    {
        let c = cs[i];
        proof {
            assert(base.take(i + 1).drop_last() =~= base.take(i as int));
            assert(base.take(i + 1).last() == c);
        }
        if i > 0 && is_uppercase(c) {
            out.push(' ');
            out.push(c);
            proof { assert(out@ =~= spaced(base.take(i as int)) + seq![' ', c]); }
        } else {
            out.push(c);
        }
        i += 1;
    }
    proof { assert(base.take(end as int) =~= base); }
    Some(out)
}
pub open spec fn or_empty(t: Option<Seq<char>>) -> Seq<char> {
    match t {
        Some(x) => x,
        None => Seq::empty(),
    }
}

fn or_empty_str(t: Option<String>) -> (r: String)
    ensures
        r@ == or_empty(opt_str_view(t)),
{
    match t {
        Some(x) => x,
        None => String::new(),
    }
}

/// A file's row: its folder, its name, what kind of file it is, its size
/// and modification time, and the full datastore path anyone would paste
/// back into a command.
pub open spec fn file_cells(folder_path: Seq<char>, file: XNode) -> Seq<CellValue> {
    let name = or_empty(text_at_path(file, "path"@));
    seq![
        CellValue::Text(folder_path),
        CellValue::Text(name),
        opt_text_value(friendly_type_of(file.xsi_type)),
        hundredths_value(number_of(file, "fileSize"@)),
        opt_text_value(text_of(file, "modification"@)),
        CellValue::Text(folder_path + name),
    ]
}

fn file_row(folder_path: &String, file: &Element) -> (r: Vec<Cell>)
    ensures
        row_view(r) == file_cells(folder_path@, file@),
{
    let name = or_empty_str(file.text_at("path"));
    let kind = match &file.xsi_type {
        Some(t) => friendly_type(Some(t.as_str())),
        None => None,
    };
    let full = folder_path.clone().concat(name.as_str());
    let r = vec![
        Cell::Text(folder_path.clone()),
        Cell::Text(name),
        Cell::opt_text(kind),
        opt_hundredths(number(file, "fileSize")),
        Cell::opt_text(text(file, "modification")),
        Cell::Text(full),
    ];
    proof { assert(row_view(r) =~= file_cells(folder_path@, file@)); }
    r
}

/// The datastore a folder listing came from, or nothing.
pub open spec fn folder_moref(folder: XNode) -> Seq<char> {
    match child_of(folder, "datastore"@) {
        Some(d) => d.text,
        None => Seq::empty(),
    }
}

/// A folder's files, each tagged with the folder's datastore.
pub open spec fn folder_rows(folder: XNode) -> Seq<(Seq<char>, Seq<CellValue>)> {
    let path = or_empty(text_at_path(folder, "folderPath"@));
    named(folder.children, "file"@).map_values(|f: XNode| (folder_moref(folder), file_cells(path, f)))
}

/// Every folder's files, in order.
pub open spec fn folders_rows(folders: Seq<XNode>) -> Seq<(Seq<char>, Seq<CellValue>)>
    decreases folders.len(),
{
    if folders.len() == 0 {
        Seq::empty()
    } else {
        folders_rows(folders.drop_last()) + folder_rows(folders.last())
    }
}

pub open spec fn elements_view(v: Seq<Element>) -> Seq<XNode> {
    v.map_values(|e: Element| e@)
}

/// vFileInfo: one row per file of each datastore folder listing.
pub fn rows(folders: &Vec<Element>) -> (r: Result<Vec<(String, Vec<Cell>)>, String>)
    ensures
        r matches Ok(v) && tagged_rows(v@) == folders_rows(elements_view(folders@)),
{
    let ghost fv = elements_view(folders@);
    let mut out: Vec<(String, Vec<Cell>)> = Vec::new();
    let mut i: usize = 0;
    proof {
        assert(fv.take(0) =~= Seq::<XNode>::empty());
        assert(tagged_rows(out@) =~= Seq::<(Seq<char>, Seq<CellValue>)>::empty());
    }
    while i < folders.len()
        invariant
            i <= folders@.len(),
            fv == elements_view(folders@),
            tagged_rows(out@) == folders_rows(fv.take(i as int)),
        decreases folders.len() - i,
    {
        let folder = &folders[i];
        proof {
            assert(fv.take(i + 1).drop_last() =~= fv.take(i as int));
            assert(fv.take(i + 1).last() == folder@);
        }
        let path = or_empty_str(folder.text_at("folderPath"));
        let moref = match folder.child("datastore") {
            Some(d) => d.text.clone(),
            None => String::new(),
        };
        let files = folder.children_named("file");
        let ghost nv = named(folder@.children, "file"@);
        let ghost want = folder_rows(folder@);
        let ghost start = tagged_rows(out@);
        let mut j: usize = 0;
        while j < files.len()
            invariant
                j <= files@.len(),
                files@.len() == nv.len(),
                nv == named(folder@.children, "file"@),
                forall|k: int| 0 <= k < nv.len() ==> (#[trigger] files@[k])@ == nv[k],
                want == folder_rows(folder@),
                path@ == or_empty(text_at_path(folder@, "folderPath"@)),
                moref@ == folder_moref(folder@),
                tagged_rows(out@) =~= start + want.take(j as int),
            decreases files.len() - j,
        {
            let row = file_row(&path, files[j]);
            let ghost before = out@;
            out.push((moref.clone(), row));
            proof {
                assert(tagged_rows(out@) =~= tagged_rows(before).push((moref@, row_view(row))));
                assert(want.take(j + 1) =~= want.take(j as int).push(want[j as int]));
            }
            j += 1;
        }
        proof { assert(want.take(want.len() as int) =~= want); }
        i += 1;
    }
    proof { assert(fv.take(fv.len() as int) =~= fv); }
    Ok(out)
}
} // verus!
