//! vSnapshot — one row per snapshot.

use vstd::prelude::*;
use super::{
    columns_view,
    opt_bool_value,
    opt_text_value,
    row_view,
    text_cell,
    hundredths_value,
    opt_hundredths,
    Cell,
    CellValue,
    Column,
    ColumnKind,
};
use super::common::{div_round_wide, key_pos, lemma_key_pos, lookup, mib_hundredths, upsert, vm_context_of, VmContext, VmContextView};
use super::snapshot::{mos_view, names_view, InventorySnapshot};
use super::vhost::bool_word;
use crate::text::{chars_of, parse_i64, parse_i64_str, str_eq};
use crate::vcenter::soap::{strs_view, array_prop_of, str_prop_of, ManagedObject, MoView};
use crate::vcenter::xml::{lemma_children_view, opt_str_view, text_at_path, Element, XNode};

verus! {

/// The sheet's columns, labels as RVTools writes them.
pub open spec fn column_spec() -> Seq<(Seq<char>, ColumnKind)> {
    seq![
        ("VM"@, ColumnKind::Text),
        ("Powerstate"@, ColumnKind::Text),
        ("Name"@, ColumnKind::Text),
        ("Description"@, ColumnKind::Text),
        ("Date / time"@, ColumnKind::Text),
        ("Filename"@, ColumnKind::Text),
        ("Size MiB (vmsn)"@, ColumnKind::Number),
        ("Size MiB (total)"@, ColumnKind::Number),
        ("Quiesced"@, ColumnKind::Bool),
        ("State"@, ColumnKind::Text),
        ("Is current"@, ColumnKind::Bool),
        ("Host"@, ColumnKind::Text),
        ("Annotation"@, ColumnKind::Text),
        ("VM ID"@, ColumnKind::Text),
        ("VM UUID"@, ColumnKind::Text),
    ]
}

/// Which column a label names; `-1` for none.
#[verifier::opaque]
pub open spec fn label_index(s: Seq<char>) -> int {
    if s == "VM"@ {
        0
    } else if s == "Powerstate"@ {
        1
    } else if s == "Name"@ {
        2
    } else if s == "Description"@ {
        3
    } else if s == "Date / time"@ {
        4
    } else if s == "Filename"@ {
        5
    } else if s == "Size MiB (vmsn)"@ {
        6
    } else if s == "Size MiB (total)"@ {
        7
    } else if s == "Quiesced"@ {
        8
    } else if s == "State"@ {
        9
    } else if s == "Is current"@ {
        10
    } else if s == "Host"@ {
        11
    } else if s == "Annotation"@ {
        12
    } else if s == "VM ID"@ {
        13
    } else if s == "VM UUID"@ {
        14
    } else {
        -1
    }
}

/// The sheet's labels are distinct, and none is `VI SDK Server`.
pub proof fn lemma_labels_ok()
    ensures
        super::labels_ok(column_spec()),
{
    reveal(label_index);
    reveal_strlit("VM");
    assert("VM"@.len() == 2);
    reveal_strlit("Powerstate");
    assert("Powerstate"@.len() == 10);
    reveal_strlit("Name");
    assert("Name"@.len() == 4);
    reveal_strlit("Description");
    assert("Description"@.len() == 11);
    reveal_strlit("Date / time");
    assert("Date / time"@.len() == 11);
    reveal_strlit("Filename");
    assert("Filename"@.len() == 8);
    reveal_strlit("Size MiB (vmsn)");
    assert("Size MiB (vmsn)"@.len() == 15);
    reveal_strlit("Size MiB (total)");
    assert("Size MiB (total)"@.len() == 16);
    reveal_strlit("Quiesced");
    assert("Quiesced"@.len() == 8);
    reveal_strlit("State");
    assert("State"@.len() == 5);
    reveal_strlit("Is current");
    assert("Is current"@.len() == 10);
    reveal_strlit("Host");
    assert("Host"@.len() == 4);
    reveal_strlit("Annotation");
    assert("Annotation"@.len() == 10);
    reveal_strlit("VM ID");
    assert("VM ID"@.len() == 5);
    reveal_strlit("VM UUID");
    assert("VM UUID"@.len() == 7);
    reveal_strlit("VI SDK Server");
    assert("VI SDK Server"@.len() == 13);
    assert("Powerstate"@[0] == 'P');
    assert("Is current"@[0] == 'I');
    assert("Annotation"@[0] == 'A');
    assert("Name"@[0] == 'N');
    assert("Host"@[0] == 'H');
    assert("Description"@[1] == 'e');
    assert("Date / time"@[1] == 'a');
    assert("Filename"@[0] == 'F');
    assert("Quiesced"@[0] == 'Q');
    assert("State"@[0] == 'S');
    assert("VM ID"@[0] == 'V');
    let cols = column_spec();
    assert(label_index(super::VI_SDK_SERVER@) == -1);
    assert forall|i: int| 0 <= i < cols.len() implies label_index(#[trigger] cols[i].0) == i by {
        if i == 0 {
                    assert(label_index(cols[0].0) == 0);
                } else if i == 1 {
                    assert(label_index(cols[1].0) == 1);
                } else if i == 2 {
                    assert(label_index(cols[2].0) == 2);
                } else if i == 3 {
                    assert(label_index(cols[3].0) == 3);
                } else if i == 4 {
                    assert(label_index(cols[4].0) == 4);
                } else if i == 5 {
                    assert(label_index(cols[5].0) == 5);
                } else if i == 6 {
                    assert(label_index(cols[6].0) == 6);
                } else if i == 7 {
                    assert(label_index(cols[7].0) == 7);
                } else if i == 8 {
                    assert(label_index(cols[8].0) == 8);
                } else if i == 9 {
                    assert(label_index(cols[9].0) == 9);
                } else if i == 10 {
                    assert(label_index(cols[10].0) == 10);
                } else if i == 11 {
                    assert(label_index(cols[11].0) == 11);
                } else if i == 12 {
                    assert(label_index(cols[12].0) == 12);
                } else if i == 13 {
                    assert(label_index(cols[13].0) == 13);
                } else if i == 14 {
                    assert(label_index(cols[14].0) == 14);
                }
    }
}

pub fn columns() -> (r: Vec<Column>)
    ensures
        columns_view(r@) == column_spec(),
{
    let r = vec![
        Column::text("VM"),
        Column::text("Powerstate"),
        Column::text("Name"),
        Column::text("Description"),
        Column::text("Date / time"),
        Column::text("Filename"),
        Column::number("Size MiB (vmsn)"),
        Column::number("Size MiB (total)"),
        Column::bool("Quiesced"),
        Column::text("State"),
        Column::bool("Is current"),
        Column::text("Host"),
        Column::text("Annotation"),
        Column::text("VM ID"),
        Column::text("VM UUID"),
    ];
    proof { assert(columns_view(r@) =~= column_spec()); }
    r
}

/// What this sheet reads beyond the VM context: the snapshot tree, and the `layoutEx` files the per-snapshot sizes index into.
pub open spec fn vm_prop_names() -> Seq<Seq<char>> {
    seq![
        "snapshot.rootSnapshotList"@,
        "snapshot.currentSnapshot"@,
        "layoutEx.file"@,
        "layoutEx.snapshot"@,
        "config.uuid"@,
    ]
}

/// What this sheet reads beyond the VM context: the snapshot tree, and the `layoutEx` files the per-snapshot sizes index into.
pub fn vm_props() -> (r: Vec<&'static str>)
    ensures
        strs_view(r@) == vm_prop_names(),
{
    let r = vec![
        "snapshot.rootSnapshotList",
        "snapshot.currentSnapshot",
        "layoutEx.file",
        "layoutEx.snapshot",
        "config.uuid",
    ];
    proof { assert(strs_view(r@) =~= vm_prop_names()); }
    r
}

/// One snapshot, flattened out of the tree.
pub struct Snapshot {
    pub moref: String,
    pub name: Option<String>,
    pub description: Option<String>,
    pub create_time: Option<String>,
    pub state: Option<String>,
    pub quiesced: Option<bool>,
}

pub struct SnapView {
    pub moref: Seq<char>,
    pub name: Option<Seq<char>>,
    pub description: Option<Seq<char>>,
    pub create_time: Option<Seq<char>>,
    pub state: Option<Seq<char>>,
    pub quiesced: Option<bool>,
}

impl View for Snapshot {
    type V = SnapView;

    open spec fn view(&self) -> SnapView {
        SnapView {
            moref: self.moref@,
            name: opt_str_view(self.name),
            description: opt_str_view(self.description),
            create_time: opt_str_view(self.create_time),
            state: opt_str_view(self.state),
            quiesced: self.quiesced,
        }
    }
}

pub open spec fn filled(t: Option<Seq<char>>) -> Option<Seq<char>> {
    match t {
        Some(s) => if s.len() > 0 {
            Some(s)
        } else {
            None
        },
        None => None,
    }
}

/// What a `VirtualMachineSnapshotTree` node says of its own snapshot.
pub open spec fn snapshot_of(n: XNode) -> SnapView {
    SnapView {
        moref: match text_at_path(n, "snapshot"@) {
            Some(m) => m,
            None => Seq::empty(),
        },
        name: filled(text_at_path(n, "name"@)),
        description: filled(text_at_path(n, "description"@)),
        create_time: filled(text_at_path(n, "createTime"@)),
        state: filled(text_at_path(n, "state"@)),
        quiesced: bool_word(text_at_path(n, "quiesced"@)),
    }
}

/// A tree depth first: the node, then each `childSnapshotList` child's tree
/// in order.
pub open spec fn tree_of(n: XNode) -> Seq<SnapView>
    decreases n,
{
    seq![snapshot_of(n)] + forest_of(n.children)
}

/// The trees of the `childSnapshotList` nodes among `cs`, in order.
pub open spec fn forest_of(cs: Seq<XNode>) -> Seq<SnapView>
    decreases cs,
{
    if cs.len() == 0 {
        Seq::empty()
    } else {
        forest_of(cs.drop_last()) + if cs.last().name == "childSnapshotList"@ {
            tree_of(cs.last())
        } else {
            Seq::empty()
        }
    }
}

pub open spec fn snaps_of(v: Seq<Snapshot>) -> Seq<SnapView> {
    v.map_values(|s: Snapshot| s@)
}

fn filled_text(t: Option<String>) -> (r: Option<String>)
    ensures
        opt_str_view(r) == filled(opt_str_view(t)),
{
    match t {
        Some(s) => if chars_of(s.as_str()).len() > 0 {
            Some(s)
        } else {
            None
        },
        None => None,
    }
}

/// Flatten `rootSnapshotList` depth-first. A child is a
/// `<childSnapshotList>` element inside its parent tree node.
pub fn flatten(node: &Element, out: &mut Vec<Snapshot>)
    ensures
        snaps_of(final(out)@) == snaps_of(old(out)@) + tree_of(node@),
    decreases node,
{
    let ghost start = snaps_of(out@);
    let moref = match node.text_at("snapshot") {
        Some(m) => m,
        None => String::new(),
    };
    let quiesced = match node.text_at("quiesced") {
        Some(q) => if str_eq(q.as_str(), "true") {
            Some(true)
        } else if str_eq(q.as_str(), "false") {
            Some(false)
        } else {
            None
        },
        None => None,
    };
    let s = Snapshot {
        moref,
        name: filled_text(node.text_at("name")),
        description: filled_text(node.text_at("description")),
        create_time: filled_text(node.text_at("createTime")),
        state: filled_text(node.text_at("state")),
        quiesced,
    };
    let ghost sv = s@;
    out.push(s);
    proof {
        assert(sv == snapshot_of(node@));
        assert(snaps_of(out@) =~= start + seq![snapshot_of(node@)]);
        lemma_children_view(*node);
    }
    let ghost mid = snaps_of(out@);
    let mut i: usize = 0;
    proof { assert(node@.children.take(0) =~= Seq::<XNode>::empty()); }
    while i < node.children.len()
        invariant
            i <= node.children@.len(),
            node@.children.len() == node.children@.len(),
            forall|k: int| 0 <= k < node.children@.len() ==> #[trigger] node@.children[k] == node.children@[k]@,
            snaps_of(out@) =~= mid + forest_of(node@.children.take(i as int)),
        decreases node.children.len() - i,
    {
        proof {
            assert(node@.children.take(i + 1).drop_last() =~= node@.children.take(i as int));
            assert(node@.children.take(i + 1).last() == node.children@[i as int]@);
            assert(decreases_to!(node => node.children));
        }
        let child = &node.children[i];
        if str_eq(child.name.as_str(), "childSnapshotList") {
            flatten(child, out);
        }
        i += 1;
    }
    proof { assert(node@.children.take(node@.children.len() as int) =~= node@.children); }
}

/// `layoutEx.file` key and (name, size in bytes), for each file that has
/// all three; a key seen twice keeps the later file.
pub open spec fn files_of(fs: Seq<XNode>) -> Seq<(Seq<char>, (Seq<char>, i64))>
    decreases fs.len(),
{
    if fs.len() == 0 {
        Seq::empty()
    } else {
        let m = files_of(fs.drop_last());
        let f = fs.last();
        match (text_at_path(f, "key"@), text_at_path(f, "name"@), text_at_path(f, "size"@)) {
            (Some(k), Some(n), Some(sz)) => match parse_i64(sz) {
                Some(b) => upsert(m, k, (n, b)),
                None => m,
            },
            _ => m,
        }
    }
}

pub open spec fn file_entries(v: Seq<(String, (String, i64))>) -> Seq<(Seq<char>, (Seq<char>, i64))> {
    v.map_values(|p: (String, (String, i64))| (p.0@, (p.1.0@, p.1.1)))
}

/// `layoutEx.file` key to (name, size in bytes).
pub fn file_layout(vm: &ManagedObject) -> (r: Vec<(String, (String, i64))>)
    ensures
        file_entries(r@) == files_of(array_prop_of(vm@, "layoutEx.file"@)),
{
    let items = vm.array_prop("layoutEx.file");
    let ghost nv = array_prop_of(vm@, "layoutEx.file"@);
    let mut out: Vec<(String, (String, i64))> = Vec::new();
    let mut i: usize = 0;
    proof { assert(nv.take(0) =~= Seq::<XNode>::empty()); }
    while i < items.len()
        invariant
            i <= items@.len(),
            items@.len() == nv.len(),
            nv == array_prop_of(vm@, "layoutEx.file"@),
            forall|k: int| 0 <= k < nv.len() ==> (#[trigger] items@[k])@ == nv[k],
            file_entries(out@) == files_of(nv.take(i as int)),
        decreases items.len() - i,
    {
        proof {
            assert(nv.take(i + 1).drop_last() =~= nv.take(i as int));
            assert(nv.take(i + 1).last() == items@[i as int]@);
        }
        let f = items[i];
        match (f.text_at("key"), f.text_at("name"), f.text_at("size")) {
            (Some(k), Some(n), Some(sz)) => match parse_i64_str(sz.as_str()) {
                Some(b) => {
                    let ghost mv = file_entries(out@);
                    proof { lemma_key_pos(mv, k@); }
                    let mut j: usize = 0;
                    while j < out.len()
                        invariant
                            j <= out@.len(),
                            mv == file_entries(out@),
                            forall|m: int| 0 <= m < j ==> mv[m].0 != k@,
                        ensures
                            j <= out@.len(),
                            mv == file_entries(out@),
                            forall|m: int| 0 <= m < j ==> mv[m].0 != k@,
                            j < out@.len() ==> mv[j as int].0 == k@,
                        decreases out.len() - j,
                    {
                        if str_eq(out[j].0.as_str(), k.as_str()) {
                            break;
                        }
                        j += 1;
                    }
                    proof { lemma_key_pos(mv, k@); }
                    let ghost kv = (k@, (n@, b));
                    if j < out.len() {
                        proof { assert(key_pos(mv, k@) == Some(j as int)); }
                        out.set(j, (k, (n, b)));
                        proof { assert(file_entries(out@) =~= mv.update(j as int, kv)); }
                    } else {
                        proof { assert(key_pos(mv, k@).is_none()); }
                        out.push((k, (n, b)));
                        proof { assert(file_entries(out@) =~= mv.push(kv)); }
                    }
                },
                None => {},
            },
            _ => {},
        }
        i += 1;
    }
    proof { assert(nv.take(nv.len() as int) =~= nv); }
    out
}

/// Snapshot moref and its `dataKey` and `memoryKey` file references; a
/// snapshot seen twice keeps the later entry.
pub open spec fn snapshot_keys_of(ss: Seq<XNode>) -> Seq<(Seq<char>, (Option<Seq<char>>, Option<Seq<char>>))>
    decreases ss.len(),
{
    if ss.len() == 0 {
        Seq::empty()
    } else {
        let m = snapshot_keys_of(ss.drop_last());
        let s = ss.last();
        match text_at_path(s, "key"@) {
            Some(k) => upsert(m, k, (text_at_path(s, "dataKey"@), text_at_path(s, "memoryKey"@))),
            None => m,
        }
    }
}

pub open spec fn key_entries(v: Seq<(String, (Option<String>, Option<String>))>) -> Seq<
    (Seq<char>, (Option<Seq<char>>, Option<Seq<char>>)),
> {
    v.map_values(|p: (String, (Option<String>, Option<String>))| (p.0@, (opt_str_view(p.1.0), opt_str_view(p.1.1))))
}

/// Snapshot moref to its `dataKey` and `memoryKey` file references.
pub fn snapshot_layout(vm: &ManagedObject) -> (r: Vec<(String, (Option<String>, Option<String>))>)
    ensures
        key_entries(r@) == snapshot_keys_of(array_prop_of(vm@, "layoutEx.snapshot"@)),
{
    let items = vm.array_prop("layoutEx.snapshot");
    let ghost nv = array_prop_of(vm@, "layoutEx.snapshot"@);
    let mut out: Vec<(String, (Option<String>, Option<String>))> = Vec::new();
    let mut i: usize = 0;
    proof { assert(nv.take(0) =~= Seq::<XNode>::empty()); }
    while i < items.len()
        invariant
            i <= items@.len(),
            items@.len() == nv.len(),
            nv == array_prop_of(vm@, "layoutEx.snapshot"@),
            forall|k: int| 0 <= k < nv.len() ==> (#[trigger] items@[k])@ == nv[k],
            key_entries(out@) == snapshot_keys_of(nv.take(i as int)),
        decreases items.len() - i,
    {
        proof {
            assert(nv.take(i + 1).drop_last() =~= nv.take(i as int));
            assert(nv.take(i + 1).last() == items@[i as int]@);
        }
        let s = items[i];
        match s.text_at("key") {
            Some(k) => {
                let v = (s.text_at("dataKey"), s.text_at("memoryKey"));
                let ghost mv = key_entries(out@);
                proof { lemma_key_pos(mv, k@); }
                let mut j: usize = 0;
                while j < out.len()
                    invariant
                        j <= out@.len(),
                        mv == key_entries(out@),
                        forall|m: int| 0 <= m < j ==> mv[m].0 != k@,
                    ensures
                        j <= out@.len(),
                        mv == key_entries(out@),
                        forall|m: int| 0 <= m < j ==> mv[m].0 != k@,
                        j < out@.len() ==> mv[j as int].0 == k@,
                    decreases out.len() - j,
                {
                    if str_eq(out[j].0.as_str(), k.as_str()) {
                        break;
                    }
                    j += 1;
                }
                proof { lemma_key_pos(mv, k@); }
                let ghost kv = (k@, (opt_str_view(v.0), opt_str_view(v.1)));
                if j < out.len() {
                    proof { assert(key_pos(mv, k@) == Some(j as int)); }
                    out.set(j, (k, v));
                    proof { assert(key_entries(out@) =~= mv.update(j as int, kv)); }
                } else {
                    proof { assert(key_pos(mv, k@).is_none()); }
                    out.push((k, v));
                    proof { assert(key_entries(out@) =~= mv.push(kv)); }
                }
            },
            None => {},
        }
        i += 1;
    }
    proof { assert(nv.take(nv.len() as int) =~= nv); }
    out
}

/// Every snapshot under the roots, depth first, root by root.
pub open spec fn roots_of(roots: Seq<XNode>) -> Seq<SnapView>
    decreases roots.len(),
{
    if roots.len() == 0 {
        Seq::empty()
    } else {
        roots_of(roots.drop_last()) + tree_of(roots.last())
    }
}

/// The file a `dataKey` or `memoryKey` names; `-1` names none (a snapshot
/// that captured no memory state).
pub open spec fn file_of(files: Seq<(Seq<char>, (Seq<char>, i64))>, key: Option<Seq<char>>) -> Option<(Seq<char>, i64)> {
    match key {
        Some(k) => if k == "-1"@ {
            None
        } else {
            lookup(files, k)
        },
        None => None,
    }
}

pub open spec fn size_or_zero(f: Option<(Seq<char>, i64)>) -> int {
    match f {
        Some(x) => x.1 as int,
        None => 0,
    }
}

/// A snapshot's own files in MiB hundredths: the .vmsn plus a .vmem when
/// memory was captured; none when neither is known. Delta growth is not
/// attributable to a single snapshot, so it is not counted.
pub open spec fn total_of(data: Option<(Seq<char>, i64)>, memory: Option<(Seq<char>, i64)>) -> Option<int> {
    if data is None && memory is None {
        None
    } else {
        Some(mib_hundredths(size_or_zero(data) + size_or_zero(memory)))
    }
}

/// One snapshot's row.
pub open spec fn snapshot_row_of(
    vm: MoView,
    ctx: VmContextView,
    s: SnapView,
    files: Seq<(Seq<char>, (Seq<char>, i64))>,
    keys: Seq<(Seq<char>, (Option<Seq<char>>, Option<Seq<char>>))>,
) -> Seq<CellValue> {
    let refs = match lookup(keys, s.moref) {
        Some(r) => r,
        None => (None, None),
    };
    let data = file_of(files, refs.0);
    let memory = file_of(files, refs.1);
    seq![
        CellValue::Text(ctx.name),
        opt_text_value(ctx.power_state),
        opt_text_value(s.name),
        opt_text_value(s.description),
        opt_text_value(s.create_time),
        opt_text_value(match data {
            Some(f) => Some(f.0),
            None => None,
        }),
        hundredths_value(match data {
            Some(f) => Some(mib_hundredths(f.1 as int)),
            None => None,
        }),
        hundredths_value(total_of(data, memory)),
        opt_bool_value(s.quiesced),
        opt_text_value(s.state),
        CellValue::Bool(str_prop_of(vm, "snapshot.currentSnapshot"@) == Some(s.moref)),
        opt_text_value(ctx.host),
        opt_text_value(ctx.annotation),
        CellValue::Text(vm.moref),
        opt_text_value(str_prop_of(vm, "config.uuid"@)),
    ]
}

/// A snapshot that captured memory counts both of its files: the total
/// is the `dataKey` file's size plus the `memoryKey` file's size, in MiB.
pub proof fn lemma_total_counts_memory(
    vm: MoView,
    ctx: VmContextView,
    s: SnapView,
    files: Seq<(Seq<char>, (Seq<char>, i64))>,
    keys: Seq<(Seq<char>, (Option<Seq<char>>, Option<Seq<char>>))>,
    data_key: Seq<char>,
    memory_key: Seq<char>,
)
    requires
        lookup(keys, s.moref) == Some((Some(data_key), Some(memory_key))),
        data_key != "-1"@,
        memory_key != "-1"@,
        lookup(files, data_key) is Some,
        lookup(files, memory_key) is Some,
    ensures
        snapshot_row_of(vm, ctx, s, files, keys)[7] == CellValue::Number(
            mib_hundredths(lookup(files, data_key)->Some_0.1 + lookup(files, memory_key)->Some_0.1) as i128,
        ),
        snapshot_row_of(vm, ctx, s, files, keys)[6] == CellValue::Number(
            mib_hundredths(lookup(files, data_key)->Some_0.1 as int) as i128,
        ),
{
}

/// A snapshot without a memory file (its `memoryKey` is `-1`, absent, or
/// names no file) totals its data file alone: the total equals the data
/// file's size.
pub proof fn lemma_total_without_memory(
    vm: MoView,
    ctx: VmContextView,
    s: SnapView,
    files: Seq<(Seq<char>, (Seq<char>, i64))>,
    keys: Seq<(Seq<char>, (Option<Seq<char>>, Option<Seq<char>>))>,
    data_key: Seq<char>,
    memory_key: Option<Seq<char>>,
)
    requires
        lookup(keys, s.moref) == Some((Some(data_key), memory_key)),
        data_key != "-1"@,
        lookup(files, data_key) is Some,
        match memory_key {
            Some(k) => k == "-1"@ || lookup(files, k) is None,
            None => true,
        },
    ensures
        snapshot_row_of(vm, ctx, s, files, keys)[7] == snapshot_row_of(vm, ctx, s, files, keys)[6],
{
}

/// A VM's rows, each with the VM's moref: one per snapshot; none for a VM
/// without snapshots or a vCLS VM; an error for a VM without a name.
pub open spec fn vm_snapshot_rows_of(vm: MoView, names: Seq<(Seq<char>, Seq<char>)>) -> Result<Seq<(Seq<char>, Seq<CellValue>)>, Seq<char>> {
    match vm_context_of(vm, names) {
        Err(e) => Err(e),
        Ok(None) => Ok(Seq::empty()),
        Ok(Some(ctx)) => {
            let snaps = roots_of(array_prop_of(vm, "snapshot.rootSnapshotList"@));
            let files = files_of(array_prop_of(vm, "layoutEx.file"@));
            let keys = snapshot_keys_of(array_prop_of(vm, "layoutEx.snapshot"@));
            Ok(Seq::new(snaps.len(), |k: int| (vm.moref, snapshot_row_of(vm, ctx, snaps[k], files, keys))))
        },
    }
}

/// Every VM's snapshot rows, in order; the first nameless VM is an error.
pub open spec fn snapshot_rows_of(vms: Seq<MoView>, names: Seq<(Seq<char>, Seq<char>)>) -> Result<Seq<(Seq<char>, Seq<CellValue>)>, Seq<char>>
    decreases vms.len(),
{
    if vms.len() == 0 {
        Ok(Seq::empty())
    } else {
        match snapshot_rows_of(vms.drop_last(), names) {
            Err(e) => Err(e),
            Ok(rows) => match vm_snapshot_rows_of(vms.last(), names) {
                Err(e) => Err(e),
                Ok(more) => Ok(rows + more),
            },
        }
    }
}

pub open spec fn tagged_rows(v: Seq<(String, Vec<Cell>)>) -> Seq<(Seq<char>, Seq<CellValue>)> {
    v.map_values(|p: (String, Vec<Cell>)| (p.0@, row_view(p.1)))
}

fn find_file(files: &Vec<(String, (String, i64))>, key: &Option<String>) -> (r: Option<(String, i64)>)
    ensures
        match r {
            Some(f) => file_of(file_entries(files@), opt_str_view(*key)) == Some((f.0@, f.1)),
            None => file_of(file_entries(files@), opt_str_view(*key)).is_none(),
        },
{
    let k = match key {
        Some(k) => k,
        None => return None,
    };
    if str_eq(k.as_str(), "-1") {
        return None;
    }
    let ghost mv = file_entries(files@);
    proof { lemma_key_pos(mv, k@); }
    let mut i: usize = 0;
    while i < files.len()
        invariant
            i <= files@.len(),
            mv == file_entries(files@),
            k@ != "-1"@,
            opt_str_view(*key) == Some(k@),
            forall|j: int| 0 <= j < i ==> mv[j].0 != k@,
        decreases files.len() - i,
    {
        if str_eq(files[i].0.as_str(), k.as_str()) {
            proof {
                lemma_key_pos(mv, k@);
                assert(mv[i as int] == (files@[i as int].0@, (files@[i as int].1.0@, files@[i as int].1.1)));
                assert(mv[i as int].0 == k@);
                assert(key_pos(mv, k@) == Some(i as int));
                assert(k@ != "-1"@);
            }
            let r = (files[i].1.0.clone(), files[i].1.1);
            proof { assert(lookup(mv, k@) == Some((r.0@, r.1))); }
            return Some(r);
        }
        i += 1;
    }
    proof { lemma_key_pos(mv, k@); }
    None
}

fn find_refs(keys: &Vec<(String, (Option<String>, Option<String>))>, moref: &str) -> (r: (Option<String>, Option<String>))
    ensures
        (opt_str_view(r.0), opt_str_view(r.1)) == match lookup(key_entries(keys@), moref@) {
            Some(x) => x,
            None => (None, None),
        },
{
    let ghost mv = key_entries(keys@);
    proof { lemma_key_pos(mv, moref@); }
    let mut i: usize = 0;
    while i < keys.len()
        invariant
            i <= keys@.len(),
            mv == key_entries(keys@),
            forall|j: int| 0 <= j < i ==> mv[j].0 != moref@,
        decreases keys.len() - i,
    {
        if str_eq(keys[i].0.as_str(), moref) {
            proof {
                lemma_key_pos(mv, moref@);
                assert(mv[i as int].0 == moref@);
                assert(key_pos(mv, moref@) == Some(i as int));
            }
            let a = match &keys[i].1.0 {
                Some(x) => Some(x.clone()),
                None => None,
            };
            let b = match &keys[i].1.1 {
                Some(x) => Some(x.clone()),
                None => None,
            };
            return (a, b);
        }
        i += 1;
    }
    proof { lemma_key_pos(mv, moref@); }
    (None, None)
}

fn mib_wide(bytes: i128) -> (r: i128)
    requires
        -0x1_0000_0000_0000_0000_0000 < bytes < 0x1_0000_0000_0000_0000_0000,
    ensures
        r == mib_hundredths(bytes as int),
{
    div_round_wide(bytes * 100, 1024 * 1024)
}

fn snapshot_row(
    vm: &ManagedObject,
    ctx: &VmContext,
    s: &Snapshot,
    files: &Vec<(String, (String, i64))>,
    keys: &Vec<(String, (Option<String>, Option<String>))>,
) -> (r: Vec<Cell>)
    ensures
        row_view(r) == snapshot_row_of(vm@, ctx@, s@, file_entries(files@), key_entries(keys@)),
{
    let refs = find_refs(keys, s.moref.as_str());
    let data = find_file(files, &refs.0);
    let memory = find_file(files, &refs.1);
    let data_name = match &data {
        Some(f) => Some(f.0.clone()),
        None => None,
    };
    let data_size: Option<i128> = match &data {
        Some(f) => Some(mib_wide(f.1 as i128)),
        None => None,
    };
    let total: Option<i128> = if data.is_none() && memory.is_none() {
        None
    } else {
        let a: i128 = match &data {
            Some(f) => f.1 as i128,
            None => 0,
        };
        let b: i128 = match &memory {
            Some(f) => f.1 as i128,
            None => 0,
        };
        Some(mib_wide(a + b))
    };
    let current = match vm.str_prop("snapshot.currentSnapshot") {
        Some(c) => str_eq(c.as_str(), s.moref.as_str()),
        None => false,
    };
    let c6 = opt_hundredths(data_size);
    let c7 = opt_hundredths(total);
    let r = vec![
        Cell::Text(ctx.name.clone()),
        text_cell(crate::text::clone_opt(&ctx.power_state)),
        text_cell(crate::text::clone_opt(&s.name)),
        text_cell(crate::text::clone_opt(&s.description)),
        text_cell(crate::text::clone_opt(&s.create_time)),
        text_cell(data_name),
        c6,
        c7,
        Cell::opt_bool(s.quiesced),
        text_cell(crate::text::clone_opt(&s.state)),
        Cell::Bool(current),
        text_cell(crate::text::clone_opt(&ctx.host)),
        text_cell(crate::text::clone_opt(&ctx.annotation)),
        Cell::Text(vm.moref.clone()),
        text_cell(vm.str_prop("config.uuid")),
    ];
    proof { assert(row_view(r) =~= snapshot_row_of(vm@, ctx@, s@, file_entries(files@), key_entries(keys@))); }
    r
}

pub proof fn lemma_snapshot_rows_err_stays(vms: Seq<MoView>, names: Seq<(Seq<char>, Seq<char>)>, k: int)
    requires
        0 <= k <= vms.len(),
        snapshot_rows_of(vms.take(k), names) is Err,
    ensures
        snapshot_rows_of(vms, names) == snapshot_rows_of(vms.take(k), names),
    decreases vms.len() - k,
{
    if k < vms.len() {
        assert(vms.take(k + 1).drop_last() =~= vms.take(k));
        lemma_snapshot_rows_err_stays(vms, names, k + 1);
    } else {
        assert(vms.take(k) =~= vms);
    }
}

/// vSnapshot: one row per snapshot, each with its VM's moref.
pub fn rows(snap: &InventorySnapshot) -> (r: Result<Vec<(String, Vec<Cell>)>, String>)
    ensures
        match r {
            Ok(v) => snapshot_rows_of(mos_view(snap.vms@), names_view(snap.host_names@)) == Ok::<Seq<(Seq<char>, Seq<CellValue>)>, Seq<char>>(tagged_rows(v@)),
            Err(e) => snapshot_rows_of(mos_view(snap.vms@), names_view(snap.host_names@)) == Err::<Seq<(Seq<char>, Seq<CellValue>)>, Seq<char>>(e@),
        },
{
    let ghost vv = mos_view(snap.vms@);
    let ghost nv = names_view(snap.host_names@);
    let mut out: Vec<(String, Vec<Cell>)> = Vec::new();
    let mut i: usize = 0;
    proof {
        assert(vv.take(0) =~= Seq::<MoView>::empty());
        assert(tagged_rows(out@) =~= Seq::<(Seq<char>, Seq<CellValue>)>::empty());
    }
    while i < snap.vms.len()
        invariant
            i <= snap.vms@.len(),
            vv == mos_view(snap.vms@),
            nv == names_view(snap.host_names@),
            snapshot_rows_of(vv.take(i as int), nv) == Ok::<Seq<(Seq<char>, Seq<CellValue>)>, Seq<char>>(tagged_rows(out@)),
        decreases snap.vms.len() - i,
    {
        proof {
            assert(vv.take(i + 1).drop_last() =~= vv.take(i as int));
            assert(vv.take(i + 1).last() == snap.vms@[i as int]@);
        }
        let vm = &snap.vms[i];
        let ctx = match VmContext::from(vm, &snap.host_names) {
            Err(e) => {
                proof { lemma_snapshot_rows_err_stays(vv, nv, i as int + 1); }
                return Err(e);
            },
            Ok(None) => {
                proof { assert(tagged_rows(out@) + Seq::<(Seq<char>, Seq<CellValue>)>::empty() =~= tagged_rows(out@)); }
                i += 1;
                continue;
            },
            Ok(Some(c)) => c,
        };
        let roots = vm.array_prop("snapshot.rootSnapshotList");
        let ghost rv = array_prop_of(vm@, "snapshot.rootSnapshotList"@);
        let mut snaps: Vec<Snapshot> = Vec::new();
        let mut k: usize = 0;
        proof {
            assert(rv.take(0) =~= Seq::<XNode>::empty());
            assert(snaps_of(snaps@) =~= Seq::<SnapView>::empty());
        }
        while k < roots.len()
            invariant
                k <= roots@.len(),
                roots@.len() == rv.len(),
                forall|m: int| 0 <= m < rv.len() ==> (#[trigger] roots@[m])@ == rv[m],
                snaps_of(snaps@) == roots_of(rv.take(k as int)),
            decreases roots.len() - k,
        {
            proof {
                assert(rv.take(k + 1).drop_last() =~= rv.take(k as int));
                assert(rv.take(k + 1).last() == roots@[k as int]@);
            }
            flatten(roots[k], &mut snaps);
            k += 1;
        }
        proof { assert(rv.take(rv.len() as int) =~= rv); }
        let files = file_layout(vm);
        let keys = snapshot_layout(vm);
        let ghost sv = snaps_of(snaps@);
        let ghost before = tagged_rows(out@);
        let ghost more = Seq::new(
            sv.len(),
            |m: int| (vm@.moref, snapshot_row_of(vm@, ctx@, sv[m], file_entries(files@), key_entries(keys@))),
        );
        let mut m: usize = 0;
        while m < snaps.len()
            invariant
                m <= snaps@.len(),
                sv == snaps_of(snaps@),
                more == Seq::new(
                    sv.len(),
                    |j: int| (vm@.moref, snapshot_row_of(vm@, ctx@, sv[j], file_entries(files@), key_entries(keys@))),
                ),
                tagged_rows(out@) =~= before + more.take(m as int),
            decreases snaps.len() - m,
        {
            let row = snapshot_row(vm, &ctx, &snaps[m], &files, &keys);
            let ghost ob = out@;
            out.push((vm.moref.clone(), row));
            proof {
                assert(tagged_rows(out@) =~= tagged_rows(ob).push((vm@.moref, row_view(row))));
                assert(more.take(m + 1) =~= more.take(m as int).push(more[m as int]));
            }
            m += 1;
        }
        proof {
            assert(more.take(sv.len() as int) =~= more);
            assert(vm_snapshot_rows_of(vm@, nv) == Ok::<Seq<(Seq<char>, Seq<CellValue>)>, Seq<char>>(more));
        }
        i += 1;
    }
    proof { assert(vv.take(vv.len() as int) =~= vv); }
    Ok(out)
}

/// Every vSnapshot row has one cell per column.
pub proof fn lemma_snapshot_rows_width(vms: Seq<MoView>, names: Seq<(Seq<char>, Seq<char>)>)
    ensures
        snapshot_rows_of(vms, names) matches Ok(rows) ==> crate::data::tagged_width(rows, column_spec().len() as int),
    decreases vms.len(),
{
    if vms.len() > 0 {
        lemma_snapshot_rows_width(vms.drop_last(), names);
        if let Ok(rows) = snapshot_rows_of(vms, names) {
            let prev = snapshot_rows_of(vms.drop_last(), names)->Ok_0;
            let more = vm_snapshot_rows_of(vms.last(), names)->Ok_0;
            assert(rows == prev + more);
            assert forall|i: int| 0 <= i < more.len() implies (#[trigger] more[i]).1.len() == column_spec().len() by {
                let vm = vms.last();
                let ctx = vm_context_of(vm, names)->Ok_0->Some_0;
                let snaps = roots_of(array_prop_of(vm, "snapshot.rootSnapshotList"@));
                let files = files_of(array_prop_of(vm, "layoutEx.file"@));
                let keys = snapshot_keys_of(array_prop_of(vm, "layoutEx.snapshot"@));
                assert(more[i].1 == snapshot_row_of(vm, ctx, snaps[i], files, keys));
            }
            crate::data::lemma_tagged_width_concat(prev, more, column_spec().len() as int);
        }
    }
}
} // verus!
