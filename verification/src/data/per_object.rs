//! Sheets whose rows come object by object: each VM (or host) contributes
//! its rows in turn, each tagged with the object's moref, and the first
//! object that cannot be named stops the sheet with an error.

use vstd::prelude::*;
use super::{rows_view, Cell, CellValue};
use super::snapshot::names_view;
use super::vdisk::tagged_rows;
use super::vdisk::{number, number_of, text, text_of};
use crate::text::{clone_opt, str_eq};
use crate::vcenter::soap::{ManagedObject, MoView};
use crate::vcenter::xml::{child_of, opt_str_view, text_at_path, Element, XNode};

verus! {

/// The sheets built object by object.
#[derive(Debug, Clone, Copy, PartialEq, Eq, Structural)]
pub enum PerObject {
    Cpu,
    Memory,
    Tools,
    Cd,
    Usb,
    Partition,
    Hba,
    Nic,
    Switch,
    Port,
    Cluster,
    Pool,
    Datastore,
    Multipath,
    Vmk,
    Network,
}

/// One object's rows for a sheet, or why it has none.
pub open spec fn object_rows_of(
    sheet: PerObject,
    o: MoView,
    names: Seq<(Seq<char>, Seq<char>)>,
) -> Result<Seq<Seq<CellValue>>, Seq<char>> {
    match sheet {
        PerObject::Cpu => super::vcpu::object_rows_of(o, names),
        PerObject::Memory => super::vmemory::object_rows_of(o, names),
        PerObject::Tools => super::vtools::object_rows_of(o, names),
        PerObject::Cd => super::vcd::object_rows_of(o, names),
        PerObject::Usb => super::vusb::object_rows_of(o, names),
        PerObject::Partition => super::vpartition::object_rows_of(o, names),
        PerObject::Hba => super::vhba::object_rows_of(o),
        PerObject::Nic => super::vnic::object_rows_of(o),
        PerObject::Switch => super::vswitch::object_rows_of(o),
        PerObject::Port => super::vport::object_rows_of(o),
        PerObject::Cluster => super::vcluster::object_rows_of(o),
        PerObject::Pool => super::vrp::object_rows_of(o),
        PerObject::Datastore => super::vdatastore::object_rows_of(o),
        PerObject::Multipath => super::vmultipath::object_rows_of(o),
        PerObject::Vmk => super::vsc_vmk::object_rows_of(o, names),
        PerObject::Network => super::vnetwork::object_rows_of(o, names),
    }
}

fn object_rows(sheet: PerObject, o: &ManagedObject, names: &Vec<(String, String)>) -> (r: Result<Vec<Vec<Cell>>, String>)
    ensures
        match r {
            Ok(v) => object_rows_of(sheet, o@, names_view(names@)) == Ok::<Seq<Seq<CellValue>>, Seq<char>>(rows_view(v@)),
            Err(e) => object_rows_of(sheet, o@, names_view(names@)) == Err::<Seq<Seq<CellValue>>, Seq<char>>(e@),
        },
{
    match sheet {
        PerObject::Cpu => super::vcpu::object_rows(o, names),
        PerObject::Memory => super::vmemory::object_rows(o, names),
        PerObject::Tools => super::vtools::object_rows(o, names),
        PerObject::Cd => super::vcd::object_rows(o, names),
        PerObject::Usb => super::vusb::object_rows(o, names),
        PerObject::Partition => super::vpartition::object_rows(o, names),
        PerObject::Hba => super::vhba::object_rows(o),
        PerObject::Nic => super::vnic::object_rows(o),
        PerObject::Switch => super::vswitch::object_rows(o),
        PerObject::Port => super::vport::object_rows(o),
        PerObject::Cluster => super::vcluster::object_rows(o),
        PerObject::Pool => super::vrp::object_rows(o),
        PerObject::Datastore => super::vdatastore::object_rows(o),
        PerObject::Multipath => super::vmultipath::object_rows(o),
        PerObject::Vmk => super::vsc_vmk::object_rows(o, names),
        PerObject::Network => super::vnetwork::object_rows(o, names),
    }
}

/// Rows, each tagged with the moref of the object they came from.
pub open spec fn tag(moref: Seq<char>, rows: Seq<Seq<CellValue>>) -> Seq<(Seq<char>, Seq<CellValue>)> {
    rows.map_values(|r: Seq<CellValue>| (moref, r))
}

/// Every object's rows, in order; the first object that fails stops the
/// sheet with its error.
pub open spec fn per_object_rows_of(
    sheet: PerObject,
    objs: Seq<MoView>,
    names: Seq<(Seq<char>, Seq<char>)>,
) -> Result<Seq<(Seq<char>, Seq<CellValue>)>, Seq<char>>
    decreases objs.len(),
{
    if objs.len() == 0 {
        Ok(Seq::empty())
    } else {
        match per_object_rows_of(sheet, objs.drop_last(), names) {
            Err(e) => Err(e),
            Ok(rows) => match object_rows_of(sheet, objs.last(), names) {
                Err(e) => Err(e),
                Ok(more) => Ok(rows + tag(objs.last().moref, more)),
            },
        }
    }
}

/// Once an object fails, the sheet fails with that object's error.
pub proof fn lemma_per_object_err_stays(
    sheet: PerObject,
    objs: Seq<MoView>,
    names: Seq<(Seq<char>, Seq<char>)>,
    k: int,
)
    requires
        0 <= k <= objs.len(),
        per_object_rows_of(sheet, objs.take(k), names) is Err,
    ensures
        per_object_rows_of(sheet, objs, names) == per_object_rows_of(sheet, objs.take(k), names),
    decreases objs.len() - k,
{
    if k < objs.len() {
        assert(objs.take(k + 1).drop_last() =~= objs.take(k));
        lemma_per_object_err_stays(sheet, objs, names, k + 1);
    } else {
        assert(objs.take(k) =~= objs);
    }
}

pub open spec fn mos(v: Seq<ManagedObject>) -> Seq<MoView> {
    v.map_values(|m: ManagedObject| m@)
}

/// A sheet's rows over `objs`, each tagged with its object's moref.
pub fn per_object_rows(sheet: PerObject, objs: &Vec<ManagedObject>, names: &Vec<(String, String)>) -> (r: Result<
    Vec<(String, Vec<Cell>)>,
    String,
>)
    ensures
        match r {
            Ok(v) => per_object_rows_of(sheet, mos(objs@), names_view(names@)) == Ok::<
                Seq<(Seq<char>, Seq<CellValue>)>,
                Seq<char>,
            >(tagged_rows(v@)),
            Err(e) => per_object_rows_of(sheet, mos(objs@), names_view(names@)) == Err::<
                Seq<(Seq<char>, Seq<CellValue>)>,
                Seq<char>,
            >(e@),
        },
{
    let ghost ov = mos(objs@);
    let ghost nv = names_view(names@);
    let mut out: Vec<(String, Vec<Cell>)> = Vec::new();
    let mut i: usize = 0;
    proof {
        assert(ov.take(0) =~= Seq::<MoView>::empty());
        assert(tagged_rows(out@) =~= Seq::<(Seq<char>, Seq<CellValue>)>::empty());
    }
    while i < objs.len()
        invariant
            i <= objs@.len(),
            ov == mos(objs@),
            nv == names_view(names@),
            per_object_rows_of(sheet, ov.take(i as int), nv) == Ok::<Seq<(Seq<char>, Seq<CellValue>)>, Seq<char>>(
                tagged_rows(out@),
            ),
        decreases objs.len() - i,
    {
        proof {
            assert(ov.take(i + 1).drop_last() =~= ov.take(i as int));
            assert(ov.take(i + 1).last() == objs@[i as int]@);
        }
        match object_rows(sheet, &objs[i], names) {
            Err(e) => {
                proof { lemma_per_object_err_stays(sheet, ov, nv, i as int + 1); }
                return Err(e);
            },
            Ok(more) => {
                let ghost before = tagged_rows(out@);
                let ghost mv = rows_view(more@);
                let ghost moref = objs@[i as int].moref@;
                for row in it: more.into_iter()
                    invariant
                        it.seq().map_values(|r: Vec<Cell>| super::row_view(r)) == mv,
                        i < objs@.len(),
                        moref == objs@[i as int].moref@,
                        tagged_rows(out@) =~= before + tag(moref, mv.take(it.index() as int)),
                {
                    let ghost prev = out@;
                    let m = objs[i].moref.clone();
                    proof { assert(super::row_view(row) == mv[it.index() as int]); }
                    out.push((m, row));
                    proof {
                        assert(tagged_rows(out@) =~= tagged_rows(prev).push((m@, super::row_view(row))));
                        assert(mv.take(it.index() + 1) =~= mv.take(it.index() as int).push(mv[it.index() as int]));
                    }
                }
                proof { assert(mv.take(mv.len() as int) =~= mv); }
            },
        }
        i += 1;
    }
    proof { assert(ov.take(ov.len() as int) =~= ov); }
    Ok(out)
}

/// A count or size reported as a whole number, as a cell.
pub open spec fn whole_value(v: Option<i64>) -> CellValue {
    match v {
        Some(x) => CellValue::Number((x * 100) as i128),
        None => CellValue::Empty,
    }
}

pub fn whole_cell(v: Option<i64>) -> (c: Cell)
    ensures
        c@ == whole_value(v),
{
    match v {
        Some(x) => Cell::Number(x as i128 * 100),
        None => Cell::Empty,
    }
}

/// The VM columns every per-VM sheet starts with: name, power state,
/// template flag.
pub open spec fn vm_head(ctx: super::common::VmContextView) -> Seq<CellValue> {
    seq![
        CellValue::Text(ctx.name),
        super::opt_text_value(ctx.power_state),
        super::opt_bool_value(ctx.template),
    ]
}

/// The VM columns every per-VM sheet ends with: host and annotation.
pub open spec fn vm_tail(ctx: super::common::VmContextView) -> Seq<CellValue> {
    seq![super::opt_text_value(ctx.host), super::opt_text_value(ctx.annotation)]
}

pub fn vm_head_cells(ctx: &super::common::VmContext) -> (r: Vec<Cell>)
    ensures
        super::row_view(r) == vm_head(ctx@),
{
    let r = vec![
        Cell::Text(ctx.name.clone()),
        Cell::opt_text(crate::text::clone_opt(&ctx.power_state)),
        Cell::opt_bool(ctx.template),
    ];
    proof { assert(super::row_view(r) =~= vm_head(ctx@)); }
    r
}

pub fn vm_tail_cells(ctx: &super::common::VmContext) -> (r: Vec<Cell>)
    ensures
        super::row_view(r) == vm_tail(ctx@),
{
    let r = vec![
        Cell::opt_text(crate::text::clone_opt(&ctx.host)),
        Cell::opt_text(crate::text::clone_opt(&ctx.annotation)),
    ];
    proof { assert(super::row_view(r) =~= vm_tail(ctx@)); }
    r
}

/// Whether the text at a path is `true`; absent when there is no text.
pub open spec fn true_at(el: Option<XNode>, path: Seq<char>) -> Option<bool> {
    match el {
        Some(e) => match text_at_path(e, path) {
            Some(v) => Some(v == "true"@),
            None => None,
        },
        None => None,
    }
}

pub fn true_at_el(el: Option<&Element>, path: &str) -> (r: Option<bool>)
    ensures
        r == true_at(opt_node(el), path@),
{
    match el {
        Some(e) => match e.text_at(path) {
            Some(v) => Some(str_eq(v.as_str(), "true")),
            None => None,
        },
        None => None,
    }
}

pub open spec fn opt_node(el: Option<&Element>) -> Option<XNode> {
    match el {
        Some(e) => Some(e@),
        None => None,
    }
}

/// The text at a path under an element that may be absent.
pub open spec fn text_under(el: Option<XNode>, path: Seq<char>) -> Option<Seq<char>> {
    match el {
        Some(e) => text_at_path(e, path),
        None => None,
    }
}

pub fn text_under_el(el: Option<&Element>, path: &str) -> (r: Option<String>)
    ensures
        opt_str_view(r) == text_under(opt_node(el), path@),
{
    match el {
        Some(e) => e.text_at(path),
        None => None,
    }
}

/// Non-empty text at a path under an element that may be absent.
pub open spec fn nonempty_under(el: Option<XNode>, path: Seq<char>) -> Option<Seq<char>> {
    match el {
        Some(e) => text_of(e, path),
        None => None,
    }
}

pub fn nonempty_under_el(el: Option<&Element>, path: &str) -> (r: Option<String>)
    ensures
        opt_str_view(r) == nonempty_under(opt_node(el), path@),
{
    match el {
        Some(e) => text(e, path),
        None => None,
    }
}

/// A whole number at a path under an element that may be absent, in
/// hundredths.
pub open spec fn number_under(el: Option<XNode>, path: Seq<char>) -> Option<int> {
    match el {
        Some(e) => number_of(e, path),
        None => None,
    }
}

pub fn number_under_el(el: Option<&Element>, path: &str) -> (r: Option<i128>)
    ensures
        match r {
            Some(x) => number_under(opt_node(el), path@) == Some(x as int),
            None => number_under(opt_node(el), path@).is_none(),
        },
{
    match el {
        Some(e) => number(e, path),
        None => None,
    }
}

/// A property's value element, if the object carries the property.
pub open spec fn prop_node(m: MoView, name: Seq<char>) -> Option<XNode> {
    crate::vcenter::soap::prop_of(m.props, name)
}

pub fn prop_el<'a>(m: &'a ManagedObject, name: &str) -> (r: Option<&'a Element>)
    ensures
        opt_node(r) == prop_node(m@, name@),
{
    m.prop(name)
}

/// The first child of that name under an element that may be absent.
pub open spec fn child_under(el: Option<XNode>, name: Seq<char>) -> Option<XNode> {
    match el {
        Some(e) => child_of(e, name),
        None => None,
    }
}

pub fn child_under_el<'a>(el: Option<&'a Element>, name: &str) -> (r: Option<&'a Element>)
    ensures
        opt_node(r) == child_under(opt_node(el), name@),
{
    match el {
        Some(e) => e.child(name),
        None => None,
    }
}

/// A whole number at a path under an element that may be absent.
pub open spec fn int_under(el: Option<XNode>, path: Seq<char>) -> Option<i64> {
    match text_under(el, path) {
        Some(t) => crate::text::parse_i64(t),
        None => None,
    }
}

pub fn int_under_el(el: Option<&Element>, path: &str) -> (r: Option<i64>)
    ensures
        r == int_under(opt_node(el), path@),
{
    match text_under_el(el, path) {
        Some(t) => crate::text::parse_i64_str(t.as_str()),
        None => None,
    }
}

/// The `xsi:type` of a device's backing.
pub open spec fn backing_type(d: XNode) -> Option<Seq<char>> {
    match child_of(d, "backing"@) {
        Some(b) => b.xsi_type,
        None => None,
    }
}

pub fn backing_type_of(d: &Element) -> (r: Option<String>)
    ensures
        opt_str_view(r) == backing_type(d@),
{
    match d.child("backing") {
        Some(b) => clone_opt(&b.xsi_type),
        None => None,
    }
}

/// The number of columns of a sheet.
pub open spec fn sheet_width(sheet: PerObject) -> int {
    match sheet {
        PerObject::Cpu => super::vcpu::column_spec().len() as int,
        PerObject::Memory => super::vmemory::column_spec().len() as int,
        PerObject::Tools => super::vtools::column_spec().len() as int,
        PerObject::Cd => super::vcd::column_spec().len() as int,
        PerObject::Usb => super::vusb::column_spec().len() as int,
        PerObject::Partition => super::vpartition::column_spec().len() as int,
        PerObject::Hba => super::vhba::column_spec().len() as int,
        PerObject::Nic => super::vnic::column_spec().len() as int,
        PerObject::Switch => super::vswitch::column_spec().len() as int,
        PerObject::Port => super::vport::column_spec().len() as int,
        PerObject::Cluster => super::vcluster::column_spec().len() as int,
        PerObject::Pool => super::vrp::column_spec().len() as int,
        PerObject::Datastore => super::vdatastore::column_spec().len() as int,
        PerObject::Multipath => super::vmultipath::column_spec().len() as int,
        PerObject::Vmk => super::vsc_vmk::column_spec().len() as int,
        PerObject::Network => super::vnetwork::column_spec().len() as int,
    }
}

#[verifier::spinoff_prover]
#[verifier::rlimit(40)]
proof fn lemma_object_rows_width(sheet: PerObject, o: MoView, names: Seq<(Seq<char>, Seq<char>)>)
    ensures
        object_rows_of(sheet, o, names) matches Ok(rows) ==> super::all_width(rows, sheet_width(sheet)),
{
    match sheet {
        PerObject::Cd => {
            if let Ok(Some(ctx)) = super::common::vm_context_of(o, names) {
                super::vcd::lemma_device_rows_width(ctx, crate::vcenter::soap::array_prop_of(o, "config.hardware.device"@));
            }
        },
        PerObject::Usb => {
            if let Ok(Some(ctx)) = super::common::vm_context_of(o, names) {
                super::vusb::lemma_device_rows_width(ctx, crate::vcenter::soap::array_prop_of(o, "config.hardware.device"@));
            }
        },
        PerObject::Partition => {
            if let Ok(Some(ctx)) = super::common::vm_context_of(o, names) {
                super::vpartition::lemma_device_rows_width(ctx, crate::vcenter::soap::array_prop_of(o, "guest.disk"@));
            }
        },
        PerObject::Cluster => super::vcluster::lemma_rows_width(o),
        PerObject::Pool => super::vrp::lemma_rows_width(o),
        PerObject::Datastore => super::vdatastore::lemma_rows_width(o),
        PerObject::Multipath => super::vmultipath::lemma_rows_width(o),
        PerObject::Network => {
            if let Ok(Some(ctx)) = super::common::vm_context_of(o, names) {
                super::vnetwork::lemma_nic_rows_width(
                    ctx,
                    crate::vcenter::soap::array_prop_of(o, "config.hardware.device"@),
                    super::vnetwork::ipv4_by_device_of(crate::vcenter::soap::array_prop_of(o, "guest.net"@)),
                    names,
                );
            }
        },
        _ => {},
    }
}

/// Every row of a sheet built object by object has one cell per column.
pub proof fn lemma_per_object_width(sheet: PerObject, objs: Seq<MoView>, names: Seq<(Seq<char>, Seq<char>)>)
    ensures
        per_object_rows_of(sheet, objs, names) matches Ok(rows) ==> super::tagged_width(rows, sheet_width(sheet)),
    decreases objs.len(),
{
    if objs.len() > 0 {
        lemma_per_object_width(sheet, objs.drop_last(), names);
        lemma_object_rows_width(sheet, objs.last(), names);
        if let Ok(rows) = per_object_rows_of(sheet, objs, names) {
            let prev = per_object_rows_of(sheet, objs.drop_last(), names)->Ok_0;
            let more = object_rows_of(sheet, objs.last(), names)->Ok_0;
            let t = tag(objs.last().moref, more);
            assert forall|i: int| 0 <= i < t.len() implies (#[trigger] t[i]).1.len() == sheet_width(sheet) by {
                assert(t[i].1 == more[i]);
            }
            super::lemma_tagged_width_concat(prev, t, sheet_width(sheet));
        }
    }
}

} // verus!
