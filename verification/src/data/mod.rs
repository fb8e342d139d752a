//! Table model shared by every sheet.
//!
//! Each sheet declares its columns once and emits rows against them. The
//! workbook writer and the screen both consume [`Table`], so a cross-cutting
//! column like `VI SDK Server` is appended in one generic place rather than
//! written into every sheet.

pub mod common;
pub mod hostnet;
pub mod snapshot;
pub mod insights;
pub mod timestamp;
pub mod topology;
pub mod drift;
pub mod dvport;
pub mod dvswitch;
pub mod exceptions;
pub mod per_object;
pub mod vcd;
pub mod vcluster;
pub mod vcpu;
pub mod vdatastore;
pub mod vdisk;
pub mod vfileinfo;
pub mod vhba;
pub mod vhealth;
pub mod vhost;
pub mod vinfo;
pub mod vlicense;
pub mod vmemory;
pub mod vmultipath;
pub mod vnetwork;
pub mod vnic;
pub mod vpartition;
pub mod vport;
pub mod vrp;
pub mod vsc_vmk;
pub mod vsnapshot;
pub mod vsource;
pub mod vswitch;
pub mod vtools;
pub mod vusb;

use vstd::prelude::*;
use crate::text::strings_view;
use crate::vcenter::xml::opt_str_view;

verus! {

#[derive(Debug, Clone, Copy, PartialEq, Eq, Structural)]
pub enum ColumnKind {
    Text,
    Number,
    Bool,
}

#[derive(Debug)]
pub struct Column {
    /// RVTools' exact label, so exports match its sheets.
    pub label: String,
    pub kind: ColumnKind,
}

pub open spec fn column_view(c: Column) -> (Seq<char>, ColumnKind) {
    (c.label@, c.kind)
}

pub open spec fn columns_view(cs: Seq<Column>) -> Seq<(Seq<char>, ColumnKind)> {
    cs.map_values(|c: Column| column_view(c))
}

impl Column {
    pub fn text(label: &str) -> (c: Self)
        ensures
            column_view(c) == (label@, ColumnKind::Text),
    {
        Column { label: String::from_str(label), kind: ColumnKind::Text }
    }

    pub fn number(label: &str) -> (c: Self)
        ensures
            column_view(c) == (label@, ColumnKind::Number),
    {
        Column { label: String::from_str(label), kind: ColumnKind::Number }
    }

    pub fn bool(label: &str) -> (c: Self)
        ensures
            column_view(c) == (label@, ColumnKind::Bool),
    {
        Column { label: String::from_str(label), kind: ColumnKind::Bool }
    }
}

impl Clone for Column {
    fn clone(&self) -> (r: Self)
        ensures
            column_view(r) == column_view(*self),
    {
        Column { label: self.label.clone(), kind: self.kind }
    }
}

/// One cell. A number has two decimal places and is held as its value in
/// hundredths: `Number(150)` is 1.5. Every figure a sheet shows is a count
/// or a value rounded to at most two places.
#[derive(Debug)]
pub enum Cell {
    Text(String),
    Number(i128),
    Bool(bool),
    Empty,
}

/// The value of a cell.
pub enum CellValue {
    Text(Seq<char>),
    Number(i128),
    Bool(bool),
    Empty,
}

impl View for Cell {
    type V = CellValue;

    open spec fn view(&self) -> CellValue {
        match self {
            Cell::Text(s) => CellValue::Text(s@),
            Cell::Number(n) => CellValue::Number(*n),
            Cell::Bool(b) => CellValue::Bool(*b),
            Cell::Empty => CellValue::Empty,
        }
    }
}

impl Clone for Cell {
    fn clone(&self) -> (r: Self)
        ensures
            r@ == self@,
    {
        match self {
            Cell::Text(s) => Cell::Text(s.clone()),
            Cell::Number(n) => Cell::Number(*n),
            Cell::Bool(b) => Cell::Bool(*b),
            Cell::Empty => Cell::Empty,
        }
    }
}

pub open spec fn opt_text_value(v: Option<Seq<char>>) -> CellValue {
    match v {
        Some(s) => CellValue::Text(s),
        None => CellValue::Empty,
    }
}

pub open spec fn opt_num_value(v: Option<i128>) -> CellValue {
    match v {
        Some(n) => CellValue::Number(n),
        None => CellValue::Empty,
    }
}

pub open spec fn opt_bool_value(v: Option<bool>) -> CellValue {
    match v {
        Some(b) => CellValue::Bool(b),
        None => CellValue::Empty,
    }
}

impl Cell {
    /// A missing value stays empty rather than becoming `0` or `"unknown"`:
    /// in an inventory, "not reported" and "zero" are different facts.
    pub fn opt_text(v: Option<String>) -> (c: Self)
        ensures
            c@ == opt_text_value(match v {
                Some(s) => Some(s@),
                None => None,
            }),
    {
        match v {
            Some(s) => Cell::Text(s),
            None => Cell::Empty,
        }
    }

    /// A number in hundredths, or empty.
    pub fn opt_num(v: Option<i128>) -> (c: Self)
        ensures
            c@ == opt_num_value(v),
    {
        match v {
            Some(n) => Cell::Number(n),
            None => Cell::Empty,
        }
    }

    pub fn opt_bool(v: Option<bool>) -> (c: Self)
        ensures
            c@ == opt_bool_value(v),
    {
        match v {
            Some(b) => Cell::Bool(b),
            None => Cell::Empty,
        }
    }
}

/// A figure in hundredths as a cell value.
pub open spec fn hundredths_value(v: Option<int>) -> CellValue {
    match v {
        Some(n) => CellValue::Number(n as i128),
        None => CellValue::Empty,
    }
}

/// A figure in hundredths, or empty.
pub fn opt_hundredths(v: Option<i128>) -> (c: Cell)
    ensures
        c@ == match v {
            Some(n) => CellValue::Number(n),
            None => CellValue::Empty,
        },
{
    Cell::opt_num(v)
}

/// Optional text, or empty.
pub fn text_cell(v: Option<String>) -> (c: Cell)
    ensures
        c@ == opt_text_value(opt_str_view(v)),
{
    Cell::opt_text(v)
}

/// `a` followed by `b`.
pub fn append_cells(a: Vec<Cell>, b: Vec<Cell>) -> (r: Vec<Cell>)
    ensures
        row_view(r) == row_view(a) + row_view(b),
{
    let mut a = a;
    let mut b = b;
    let ghost va = a@;
    let ghost vb = b@;
    a.append(&mut b);
    proof { assert(row_view(a) =~= va.map_values(|c: Cell| c@) + vb.map_values(|c: Cell| c@)); }
    a
}

pub open spec fn row_view(r: Vec<Cell>) -> Seq<CellValue> {
    r@.map_values(|c: Cell| c@)
}

pub open spec fn rows_view(rs: Seq<Vec<Cell>>) -> Seq<Seq<CellValue>> {
    rs.map_values(|r: Vec<Cell>| row_view(r))
}

#[derive(Debug)]
pub struct Table {
    /// RVTools sheet name, e.g. `vInfo`.
    pub name: String,
    pub columns: Vec<Column>,
    pub rows: Vec<Vec<Cell>>,
    /// Per-vCenter failures that did not stop the rest of the fetch: a short
    /// list that looks complete is the worst outcome for an inventory tool.
    pub warnings: Vec<String>,
}

/// What a table holds: its name, its columns, its rows and its warnings.
pub struct TableView {
    pub name: Seq<char>,
    pub columns: Seq<(Seq<char>, ColumnKind)>,
    pub rows: Seq<Seq<CellValue>>,
    pub warnings: Seq<Seq<char>>,
}

impl View for Table {
    type V = TableView;

    open spec fn view(&self) -> TableView {
        TableView {
            name: self.name@,
            columns: columns_view(self.columns@),
            rows: rows_view(self.rows@),
            warnings: strings_view(self.warnings@),
        }
    }
}

/// The source-vCenter column RVTools puts on nearly every sheet.
pub const VI_SDK_SERVER: &'static str = "VI SDK Server";

/// A sheet's own labels name distinct columns, and none of them is
/// [`VI_SDK_SERVER`], which the table appends itself.
pub open spec fn labels_ok(cols: Seq<(Seq<char>, ColumnKind)>) -> bool {
    &&& forall|i: int, j: int| 0 <= i < j < cols.len() ==> (#[trigger] cols[i]).0 != (#[trigger] cols[j]).0
    &&& forall|i: int| 0 <= i < cols.len() ==> (#[trigger] cols[i]).0 != VI_SDK_SERVER@
}

impl Table {
    pub fn new(name: &str, columns: Vec<Column>) -> (t: Self)
        ensures
            t.name@ == name@,
            columns_view(t.columns@) == columns_view(columns@),
            t.rows@.len() == 0,
            t.warnings@.len() == 0,
    {
        Table { name: String::from_str(name), columns, rows: Vec::new(), warnings: Vec::new() }
    }

    /// Append rows from one vCenter, tagging each with its source server.
    pub fn extend_from(&mut self, server: &str, rows: Vec<Vec<Cell>>)
        ensures
            final(self).name@ == old(self).name@,
            columns_view(final(self).columns@) == columns_view(old(self).columns@),
            final(self).warnings@ == old(self).warnings@,
            rows_view(final(self).rows@) == rows_view(old(self).rows@) + rows_view(rows@).map_values(
                |r: Seq<CellValue>| r.push(CellValue::Text(server@)),
            ),
    {
        let ghost before = rows_view(self.rows@);
        let ghost added = rows_view(rows@).map_values(|r: Seq<CellValue>| r.push(CellValue::Text(server@)));
        let mut i: usize = 0;
        while i < rows.len()
            invariant
                i <= rows@.len(),
                added == rows_view(rows@).map_values(|r: Seq<CellValue>| r.push(CellValue::Text(server@))),
                self.name@ == old(self).name@,
                columns_view(self.columns@) == columns_view(old(self).columns@),
                self.warnings@ == old(self).warnings@,
                rows_view(self.rows@) =~= before + added.take(i as int),
            decreases rows.len() - i,
        {
            let mut row: Vec<Cell> = Vec::new();
            let mut j: usize = 0;
            while j < rows[i].len()
                invariant
                    i < rows@.len(),
                    j <= rows@[i as int]@.len(),
                    row_view(row) =~= row_view(rows@[i as int]).take(j as int),
                decreases rows@[i as int]@.len() - j,
            {
                let c = rows[i][j].clone();
                let ghost before = row@;
                row.push(c);
                proof {
                    assert(row_view(row) =~= before.map_values(|c: Cell| c@).push(c@));
                    assert(row_view(rows@[i as int]).take(j + 1) =~= row_view(rows@[i as int]).take(j as int).push(rows@[i as int]@[j as int]@));
                }
                j += 1;
            }
            row.push(Cell::Text(String::from_str(server)));
            proof {
                assert(row_view(rows@[i as int]).take(rows@[i as int]@.len() as int) =~= row_view(rows@[i as int]));
                assert(row_view(row) =~= added[i as int]);
            }
            let ghost prev = self.rows@;
            self.rows.push(row);
            proof {
                assert(rows_view(self.rows@) =~= rows_view(prev).push(row_view(row)));
                assert(added.take(i + 1) =~= added.take(i as int).push(added[i as int]));
            }
            i += 1;
        }
        proof { assert(added.take(rows@.len() as int) =~= added); }
    }

    /// Call once after construction so `VI SDK Server` lines up with the
    /// value [`Table::extend_from`] appends.
    pub fn with_source_column(self) -> (t: Self)
        ensures
            t.name@ == self.name@,
            columns_view(t.columns@) == columns_view(self.columns@).push((VI_SDK_SERVER@, ColumnKind::Text)),
            rows_view(t.rows@) == rows_view(self.rows@),
            t.warnings@ == self.warnings@,
    {
        let mut t = self;
        let ghost before = t.columns@;
        t.columns.push(Column::text(VI_SDK_SERVER));
        proof { assert(columns_view(t.columns@) =~= columns_view(before).push((VI_SDK_SERVER@, ColumnKind::Text))); }
        t
    }
}

/// Every row has `w` cells.
pub open spec fn all_width(rows: Seq<Seq<CellValue>>, w: int) -> bool {
    forall|i: int| 0 <= i < rows.len() ==> (#[trigger] rows[i]).len() == w
}

/// Every tagged row has `w` cells.
pub open spec fn tagged_width(rows: Seq<(Seq<char>, Seq<CellValue>)>, w: int) -> bool {
    forall|i: int| 0 <= i < rows.len() ==> (#[trigger] rows[i]).1.len() == w
}

/// Rows of `w` cells, joined, are rows of `w` cells.
pub proof fn lemma_width_concat(a: Seq<Seq<CellValue>>, b: Seq<Seq<CellValue>>, w: int)
    requires
        all_width(a, w),
        all_width(b, w),
    ensures
        all_width(a + b, w),
{
    assert forall|i: int| 0 <= i < (a + b).len() implies (#[trigger] (a + b)[i]).len() == w by {
        if i < a.len() {
            assert((a + b)[i] == a[i]);
        } else {
            assert((a + b)[i] == b[i - a.len()]);
        }
    }
}

pub proof fn lemma_tagged_width_concat(a: Seq<(Seq<char>, Seq<CellValue>)>, b: Seq<(Seq<char>, Seq<CellValue>)>, w: int)
    requires
        tagged_width(a, w),
        tagged_width(b, w),
    ensures
        tagged_width(a + b, w),
{
    assert forall|i: int| 0 <= i < (a + b).len() implies (#[trigger] (a + b)[i]).1.len() == w by {
        if i < a.len() {
            assert((a + b)[i] == a[i]);
        } else {
            assert((a + b)[i] == b[i - a.len()]);
        }
    }
}
} // verus!
