//! What a multi-sheet export in RVTools' format holds.
//!
//! The formatting follows a real RVTools 4.6 export:
//!
//! | Element        | RVTools                                                  |
//! |----------------|----------------------------------------------------------|
//! | Header row     | Verdana 9pt bold, white on solid black, left aligned     |
//! | Body text      | Verdana 9pt black, general alignment                     |
//! | Body integers  | Verdana 9pt, `#,##0`, right aligned                      |
//! | Body decimals  | Verdana 9pt, `#,##0.00`, right aligned                   |
//! | Dates          | real Excel serial dates, `yyyy/MM/dd HH:mm:ss`           |
//! | Booleans       | the text `True` / `False`, not Excel booleans            |
//! | Freeze panes   | `B2`: first row and first column frozen                  |
//! | AutoFilter     | the whole range, header row included                     |
//! | Sheet order    | RVTools' own order, not the order sheets were fetched    |
//!
//! This module decides each column's format, what every cell is written
//! as, and the order of the sheets; writing the workbook file is left to
//! the caller.

use vstd::prelude::*;
use crate::data::{row_view, rows_view, Cell, CellValue, Column, ColumnKind, Table};
use crate::data::timestamp::{is_timestamp, rfc3339_utc};
use crate::text::str_eq;

verus! {

/// How a column's body cells are written.
#[derive(Clone, Copy, Debug, PartialEq, Eq, Structural)]
pub enum ColumnFormat {
    Text,
    Integer,
    Decimal,
    Date,
}

/// The cell at `index` of each row that has one.
pub open spec fn column_values(rows: Seq<Seq<CellValue>>, index: int) -> Seq<CellValue>
    decreases rows.len(),
{
    if rows.len() == 0 {
        Seq::empty()
    } else if 0 <= index < rows.last().len() {
        column_values(rows.drop_last(), index).push(rows.last()[index])
    } else {
        column_values(rows.drop_last(), index)
    }
}

/// A number cell with a fractional part.
pub open spec fn fractional(c: CellValue) -> bool {
    match c {
        CellValue::Number(n) => n % 100 != 0,
        _ => false,
    }
}

/// A non-empty text cell.
pub open spec fn nonempty_text(c: CellValue) -> bool {
    match c {
        CellValue::Text(s) => s.len() > 0,
        _ => false,
    }
}

/// A non-empty text cell that is not a timestamp.
pub open spec fn undated_text(c: CellValue) -> bool {
    match c {
        CellValue::Text(s) => s.len() > 0 && rfc3339_utc(s) is None,
        _ => false,
    }
}

/// RVTools styles a column uniformly, so the format is decided from the
/// whole column: numbers are integers unless one has a fraction; text is
/// dates when there is some and all of it is RFC 3339 timestamps.
pub open spec fn column_format_of(kind: ColumnKind, values: Seq<CellValue>) -> ColumnFormat {
    match kind {
        ColumnKind::Number => if exists|i: int| 0 <= i < values.len() && fractional(#[trigger] values[i]) {
            ColumnFormat::Decimal
        } else {
            ColumnFormat::Integer
        },
        ColumnKind::Bool => ColumnFormat::Text,
        ColumnKind::Text => if (exists|i: int| 0 <= i < values.len() && nonempty_text(#[trigger] values[i]))
            && !(exists|i: int| 0 <= i < values.len() && undated_text(#[trigger] values[i])) {
            ColumnFormat::Date
        } else {
            ColumnFormat::Text
        },
    }
}

/// The format of column `index` of `table`.
pub fn column_format(table: &Table, index: usize) -> (r: ColumnFormat)
    requires
        index < table.columns@.len(),
    ensures
        r == column_format_of(table.columns@[index as int].kind, column_values(rows_view(table.rows@), index as int)),
{
    let ghost rv = rows_view(table.rows@);
    let mut fraction = false;
    let mut seen = false;
    let mut undated = false;
    let mut i: usize = 0;
    proof { assert(rv.take(0) =~= Seq::<Seq<CellValue>>::empty()); }
    while i < table.rows.len()
        invariant
            i <= table.rows@.len(),
            rv == rows_view(table.rows@),
            fraction == exists|k: int| 0 <= k < column_values(rv.take(i as int), index as int).len()
                && fractional(#[trigger] column_values(rv.take(i as int), index as int)[k]),
            seen == exists|k: int| 0 <= k < column_values(rv.take(i as int), index as int).len()
                && nonempty_text(#[trigger] column_values(rv.take(i as int), index as int)[k]),
            undated == exists|k: int| 0 <= k < column_values(rv.take(i as int), index as int).len()
                && undated_text(#[trigger] column_values(rv.take(i as int), index as int)[k]),
        decreases table.rows.len() - i,
    {
        let ghost prev = column_values(rv.take(i as int), index as int);
        proof {
            assert(rv.take(i + 1).drop_last() =~= rv.take(i as int));
            assert(rv.take(i + 1).last() == row_view(table.rows@[i as int]));
        }
        let row = &table.rows[i];
        if index < row.len() {
            let ghost c = row@[index as int]@;
            proof {
                assert(row_view(*row)[index as int] == c);
                assert(column_values(rv.take(i + 1), index as int) == prev.push(c));
            }
            match &row[index] {
                Cell::Number(n) => {
                    if *n % 100 != 0 {
                        fraction = true;
                    }
                },
                Cell::Text(s) => {
                    if crate::text::chars_of(s.as_str()).len() > 0 {
                        seen = true;
                        if !is_timestamp(s.as_str()) {
                            undated = true;
                        }
                    }
                },
                _ => {},
            }
            proof {
                let next = prev.push(c);
                assert(forall|k: int| 0 <= k < prev.len() ==> next[k] == prev[k]);
                assert(next[prev.len() as int] == c);
            }
        } else {
            proof { assert(column_values(rv.take(i + 1), index as int) == prev); }
        }
        i += 1;
    }
    proof { assert(rv.take(rv.len() as int) =~= rv); }
    match table.columns[index].kind {
        ColumnKind::Number => if fraction {
            ColumnFormat::Decimal
        } else {
            ColumnFormat::Integer
        },
        ColumnKind::Bool => ColumnFormat::Text,
        ColumnKind::Text => if seen && !undated {
            ColumnFormat::Date
        } else {
            ColumnFormat::Text
        },
    }
}

/// What one body cell is written as.
#[derive(Debug)]
pub enum CellWrite {
    /// Styled but blank, as RVTools writes empty cells.
    Blank,
    Text(String),
    /// A figure in hundredths, with the integer or the decimal format.
    Number { hundredths: i128, integer: bool },
    /// An RFC 3339 timestamp, written as a real date.
    Date(String),
}

pub enum WriteView {
    Blank,
    Text(Seq<char>),
    Number { hundredths: i128, integer: bool },
    Date(Seq<char>),
}

impl View for CellWrite {
    type V = WriteView;

    open spec fn view(&self) -> WriteView {
        match self {
            CellWrite::Blank => WriteView::Blank,
            CellWrite::Text(s) => WriteView::Text(s@),
            CellWrite::Number { hundredths, integer } => WriteView::Number { hundredths: *hundredths, integer: *integer },
            CellWrite::Date(s) => WriteView::Date(s@),
        }
    }
}

/// A cell as its column's format writes it: booleans as the words `True`
/// and `False` (filters and lookups depend on that), numbers with the
/// column's number format, and text as a date only in a date column.
pub open spec fn cell_write_of(c: CellValue, f: ColumnFormat) -> WriteView {
    match c {
        CellValue::Empty => WriteView::Blank,
        CellValue::Bool(b) => WriteView::Text(if b { "True"@ } else { "False"@ }),
        CellValue::Number(n) => WriteView::Number { hundredths: n, integer: f == ColumnFormat::Integer },
        CellValue::Text(s) => if f == ColumnFormat::Date && rfc3339_utc(s) is Some {
            WriteView::Date(s)
        } else {
            WriteView::Text(s)
        },
    }
}

pub fn cell_write(c: &Cell, f: ColumnFormat) -> (r: CellWrite)
    ensures
        r@ == cell_write_of(c@, f),
{
    match c {
        Cell::Empty => CellWrite::Blank,
        Cell::Bool(b) => CellWrite::Text(String::from_str(if *b { "True" } else { "False" })),
        Cell::Number(n) => CellWrite::Number { hundredths: *n, integer: f == ColumnFormat::Integer },
        Cell::Text(s) => if f == ColumnFormat::Date && is_timestamp(s.as_str()) {
            CellWrite::Date(s.clone())
        } else {
            CellWrite::Text(s.clone())
        },
    }
}

/// A row's cells as written; a cell past the last column keeps the text
/// format.
pub open spec fn row_writes_of(row: Seq<CellValue>, formats: Seq<ColumnFormat>) -> Seq<WriteView> {
    Seq::new(row.len(), |c: int| cell_write_of(row[c], if c < formats.len() { formats[c] } else { ColumnFormat::Text }))
}

pub open spec fn writes_view(v: Seq<CellWrite>) -> Seq<WriteView> {
    v.map_values(|w: CellWrite| w@)
}

/// Every column's format, in column order.
pub fn column_formats(table: &Table) -> (r: Vec<ColumnFormat>)
    ensures
        r@.len() == table.columns@.len(),
        forall|i: int| 0 <= i < r@.len() ==> #[trigger] r@[i] == column_format_of(
            table.columns@[i].kind,
            column_values(rows_view(table.rows@), i),
        ),
{
    let mut out: Vec<ColumnFormat> = Vec::new();
    let mut i: usize = 0;
    while i < table.columns.len()
        invariant
            i <= table.columns@.len(),
            out@.len() == i,
            forall|k: int| 0 <= k < i ==> #[trigger] out@[k] == column_format_of(
                table.columns@[k].kind,
                column_values(rows_view(table.rows@), k),
            ),
        decreases table.columns.len() - i,
    {
        out.push(column_format(table, i));
        i += 1;
    }
    out
}

/// One row as written under the columns' formats.
pub fn row_writes(row: &Vec<Cell>, formats: &Vec<ColumnFormat>) -> (r: Vec<CellWrite>)
    ensures
        writes_view(r@) == row_writes_of(row_view(*row), formats@),
{
    let mut out: Vec<CellWrite> = Vec::new();
    let mut c: usize = 0;
    while c < row.len()
        invariant
            c <= row@.len(),
            out@.len() == c,
            forall|k: int| 0 <= k < c ==> (#[trigger] out@[k])@ == cell_write_of(
                row@[k]@,
                if k < formats@.len() { formats@[k] } else { ColumnFormat::Text },
            ),
        decreases row.len() - c,
    {
        let f = if c < formats.len() { formats[c] } else { ColumnFormat::Text };
        out.push(cell_write(&row[c], f));
        c += 1;
    }
    proof { assert(writes_view(out@) =~= row_writes_of(row_view(*row), formats@)); }
    out
}

/// Every body row of a sheet as written.
pub fn sheet_writes(table: &Table) -> (r: Vec<Vec<CellWrite>>)
    ensures
        r@.len() == table.rows@.len(),
        forall|i: int| 0 <= i < r@.len() ==> writes_view(#[trigger] r@[i]@) == row_writes_of(
            row_view(table.rows@[i]),
            Seq::new(table.columns@.len(), |k: int| column_format_of(table.columns@[k].kind, column_values(rows_view(table.rows@), k))),
        ),
{
    let formats = column_formats(table);
    proof {
        assert(formats@ =~= Seq::new(
            table.columns@.len(),
            |k: int| column_format_of(table.columns@[k].kind, column_values(rows_view(table.rows@), k)),
        ));
    }
    let mut out: Vec<Vec<CellWrite>> = Vec::new();
    let mut i: usize = 0;
    while i < table.rows.len()
        invariant
            i <= table.rows@.len(),
            out@.len() == i,
            formats@ == Seq::new(
                table.columns@.len(),
                |k: int| column_format_of(table.columns@[k].kind, column_values(rows_view(table.rows@), k)),
            ),
            forall|k: int| 0 <= k < i ==> writes_view(#[trigger] out@[k]@) == row_writes_of(row_view(table.rows@[k]), formats@),
        decreases table.rows.len() - i,
    {
        out.push(row_writes(&table.rows[i], &formats));
        i += 1;
    }
    out
}

/// RVTools' sheet order.
pub open spec fn rvtools_order() -> Seq<Seq<char>> {
    seq![
        "vInfo"@,
        "vCPU"@,
        "vMemory"@,
        "vDisk"@,
        "vPartition"@,
        "vNetwork"@,
        "vCD"@,
        "vUSB"@,
        "vSnapshot"@,
        "vTools"@,
        "vSource"@,
        "vRP"@,
        "vCluster"@,
        "vHost"@,
        "vHBA"@,
        "vNIC"@,
        "vSwitch"@,
        "vPort"@,
        "dvSwitch"@,
        "dvPort"@,
        "vSC_VMK"@,
        "vDatastore"@,
        "vMultiPath"@,
        "vLicense"@,
        "vFileInfo"@,
        "vHealth"@,
        "vMetaData"@,
    ]
}

/// RVTools' sheet order. Sheets not produced are simply skipped, so the
/// ones produced still appear in the order RVTools would put them.
pub fn rvtools_sheet_order() -> (r: Vec<&'static str>)
    ensures
        r@.map_values(|s: &str| s@) == rvtools_order(),
{
    let r = vec![
        "vInfo",
        "vCPU",
        "vMemory",
        "vDisk",
        "vPartition",
        "vNetwork",
        "vCD",
        "vUSB",
        "vSnapshot",
        "vTools",
        "vSource",
        "vRP",
        "vCluster",
        "vHost",
        "vHBA",
        "vNIC",
        "vSwitch",
        "vPort",
        "dvSwitch",
        "dvPort",
        "vSC_VMK",
        "vDatastore",
        "vMultiPath",
        "vLicense",
        "vFileInfo",
        "vHealth",
        "vMetaData",
    ];
    proof { assert(r@.map_values(|s: &str| s@) =~= rvtools_order()); }
    r
}

/// The index of the first table with this name.
pub open spec fn first_named(names: Seq<Seq<char>>, name: Seq<char>) -> Option<int>
    decreases names.len(),
{
    if names.len() == 0 {
        None
    } else {
        match first_named(names.drop_last(), name) {
            Some(i) => Some(i),
            None => if names.last() == name {
                Some(names.len() - 1)
            } else {
                None
            },
        }
    }
}

/// For each name of `order` in turn, the first table with that name.
pub open spec fn known_part(names: Seq<Seq<char>>, order: Seq<Seq<char>>) -> Seq<int>
    decreases order.len(),
{
    if order.len() == 0 {
        Seq::empty()
    } else {
        match first_named(names, order.last()) {
            Some(i) => known_part(names, order.drop_last()).push(i),
            None => known_part(names, order.drop_last()),
        }
    }
}

/// The tables whose names `order` does not list, in their own order.
pub open spec fn unknown_part(names: Seq<Seq<char>>, order: Seq<Seq<char>>, n: int) -> Seq<int>
    decreases n,
{
    if n <= 0 {
        Seq::empty()
    } else if order.contains(names[n - 1]) {
        unknown_part(names, order, n - 1)
    } else {
        unknown_part(names, order, n - 1).push(n - 1)
    }
}

/// Tables in RVTools' order, then anything not in RVTools' list, which
/// still gets exported rather than dropped.
pub open spec fn sheet_order_of(names: Seq<Seq<char>>) -> Seq<int> {
    known_part(names, rvtools_order()) + unknown_part(names, rvtools_order(), names.len() as int)
}

pub open spec fn table_names(tables: Seq<Table>) -> Seq<Seq<char>> {
    tables.map_values(|t: Table| t.name@)
}

proof fn lemma_first_named(names: Seq<Seq<char>>, name: Seq<char>)
    ensures
        match first_named(names, name) {
            Some(i) => 0 <= i < names.len() && names[i] == name && forall|j: int| 0 <= j < i ==> names[j] != name,
            None => forall|j: int| 0 <= j < names.len() ==> names[j] != name,
        },
    decreases names.len(),
{
    if names.len() > 0 {
        let d = names.drop_last();
        lemma_first_named(d, name);
        assert(forall|j: int| 0 <= j < d.len() ==> d[j] == names[j]);
    }
}

/// The order in which the tables are written, as indices into `tables`.
pub fn sheet_order(tables: &Vec<Table>) -> (r: Vec<usize>)
    ensures
        r@.map_values(|i: usize| i as int) == sheet_order_of(table_names(tables@)),
{
    let ghost nv = table_names(tables@);
    let order = rvtools_sheet_order();
    let ghost ov = rvtools_order();
    let mut out: Vec<usize> = Vec::new();
    let mut k: usize = 0;
    proof { assert(ov.take(0) =~= Seq::<Seq<char>>::empty()); }
    while k < order.len()
        invariant
            k <= order@.len(),
            order@.map_values(|s: &str| s@) == ov,
            ov == rvtools_order(),
            nv == table_names(tables@),
            out@.map_values(|i: usize| i as int) =~= known_part(nv, ov.take(k as int)),
        decreases order.len() - k,
    {
        proof {
            assert(ov.take(k + 1).drop_last() =~= ov.take(k as int));
            assert(ov.take(k + 1).last() == order@[k as int]@);
            lemma_first_named(nv, order@[k as int]@);
        }
        let mut j: usize = 0;
        while j < tables.len()
            invariant
                j <= tables@.len(),
                k < order@.len(),
                nv == table_names(tables@),
                forall|m: int| 0 <= m < j ==> nv[m] != order@[k as int]@,
            ensures
                j <= tables@.len(),
                forall|m: int| 0 <= m < j ==> nv[m] != order@[k as int]@,
                j < tables@.len() ==> nv[j as int] == order@[k as int]@,
            decreases tables.len() - j,
        {
            if str_eq(tables[j].name.as_str(), order[k]) {
                break;
            }
            j += 1;
        }
        if j < tables.len() {
            proof { assert(first_named(nv, order@[k as int]@) == Some(j as int)); }
            let ghost before = out@;
            out.push(j);
            proof { assert(out@.map_values(|i: usize| i as int) =~= before.map_values(|i: usize| i as int).push(j as int)); }
        } else {
            proof { assert(first_named(nv, order@[k as int]@).is_none()); }
        }
        k += 1;
    }
    proof { assert(ov.take(ov.len() as int) =~= ov); }
    let ghost known = out@.map_values(|i: usize| i as int);
    let mut t: usize = 0;
    while t < tables.len()
        invariant
            t <= tables@.len(),
            order@.map_values(|s: &str| s@) == ov,
            ov == rvtools_order(),
            nv == table_names(tables@),
            out@.map_values(|i: usize| i as int) =~= known + unknown_part(nv, ov, t as int),
        decreases tables.len() - t,
    {
        let mut listed = false;
        let mut k2: usize = 0;
        while k2 < order.len()
            invariant
                k2 <= order@.len(),
                t < tables@.len(),
                order@.map_values(|s: &str| s@) == ov,
                nv == table_names(tables@),
                listed == exists|m: int| 0 <= m < k2 && ov[m] == nv[t as int],
            decreases order.len() - k2,
        {
            if str_eq(tables[t].name.as_str(), order[k2]) {
                listed = true;
            }
            proof { assert(ov[k2 as int] == order@[k2 as int]@); }
            k2 += 1;
        }
        proof {
            assert(listed == ov.contains(nv[t as int]));
        }
        if !listed {
            let ghost before = out@;
            out.push(t);
            proof { assert(out@.map_values(|i: usize| i as int) =~= before.map_values(|i: usize| i as int).push(t as int)); }
        }
        t += 1;
    }
    out
}

/// Every table whose name RVTools does not list, and the first table of
/// each name it does list, is written: no sheet is silently dropped.
pub proof fn lemma_no_sheet_dropped(names: Seq<Seq<char>>, i: int)
    requires
        0 <= i < names.len(),
        first_named(names, names[i]) == Some(i),
    ensures
        sheet_order_of(names).contains(i),
{
    if rvtools_order().contains(names[i]) {
        let o = rvtools_order();
        let m = choose|m: int| 0 <= m < o.len() && o[m] == names[i];
        lemma_known_part_has(names, o, m);
        let kp = known_part(names, o);
        let k = choose|k: int| 0 <= k < kp.len() && kp[k] == i;
        assert(sheet_order_of(names)[k] == i);
    } else {
        lemma_unknown_part_has(names, rvtools_order(), names.len() as int, i);
        let up = unknown_part(names, rvtools_order(), names.len() as int);
        let kp = known_part(names, rvtools_order());
        let k = choose|k: int| 0 <= k < up.len() && up[k] == i;
        assert(sheet_order_of(names)[kp.len() + k] == i);
    }
}

proof fn lemma_known_part_has(names: Seq<Seq<char>>, order: Seq<Seq<char>>, m: int)
    requires
        0 <= m < order.len(),
        first_named(names, order[m]) is Some,
    ensures
        exists|k: int| 0 <= k < known_part(names, order).len() && known_part(names, order)[k] == first_named(names, order[m])->0,
    decreases order.len(),
{
    let kp = known_part(names, order);
    if m == order.len() - 1 {
        assert(kp[kp.len() - 1] == first_named(names, order[m])->0);
    } else {
        let d = order.drop_last();
        assert(d[m] == order[m]);
        lemma_known_part_has(names, d, m);
        let dp = known_part(names, d);
        let k = choose|k: int| 0 <= k < dp.len() && dp[k] == first_named(names, d[m])->0;
        match first_named(names, order.last()) {
            Some(x) => assert(kp[k] == dp[k]),
            None => assert(kp[k] == dp[k]),
        }
    }
}

proof fn lemma_unknown_part_has(names: Seq<Seq<char>>, order: Seq<Seq<char>>, n: int, i: int)
    requires
        0 <= i < n <= names.len(),
        !order.contains(names[i]),
    ensures
        exists|k: int| 0 <= k < unknown_part(names, order, n).len() && unknown_part(names, order, n)[k] == i,
    decreases n,
{
    let up = unknown_part(names, order, n);
    if i == n - 1 {
        assert(up[up.len() - 1] == i);
    } else {
        lemma_unknown_part_has(names, order, n - 1, i);
        let dp = unknown_part(names, order, n - 1);
        let k = choose|k: int| 0 <= k < dp.len() && dp[k] == i;
        assert(up[k] == dp[k]);
    }
}

/// The columns of the `vMetaData` sheet: RVTools' names, kept so anything
/// that parses its exports still works.
pub open spec fn metadata_columns() -> Seq<(Seq<char>, ColumnKind)> {
    seq![
        ("RVTools major version"@, ColumnKind::Text),
        ("RVTools version"@, ColumnKind::Text),
        ("xlsx creation datetime"@, ColumnKind::Text),
        ("Server"@, ColumnKind::Text),
    ]
}

/// One server's `vMetaData` row. The values name this tool: claiming to be
/// an RVTools version would misstate where the data came from.
pub open spec fn metadata_row(tool: Seq<char>, version: Seq<char>, created: Seq<char>, server: Seq<char>) -> Seq<CellValue> {
    seq![
        CellValue::Text(tool),
        CellValue::Text(tool + " "@ + version),
        CellValue::Text(created),
        CellValue::Text(server),
    ]
}

/// The `vMetaData` sheet: one row per server, stamped with the tool's name
/// and version and the export's creation time.
pub fn metadata_table(servers: &Vec<String>, tool: &str, version: &str, created: &str) -> (t: Table)
    ensures
        t.name@ == "vMetaData"@,
        crate::data::columns_view(t.columns@) == metadata_columns(),
        rows_view(t.rows@) == servers@.map_values(|s: String| metadata_row(tool@, version@, created@, s@)),
        t.warnings@.len() == 0,
{
    let columns = vec![
        Column::text("RVTools major version"),
        Column::text("RVTools version"),
        Column::text("xlsx creation datetime"),
        Column::text("Server"),
    ];
    proof { assert(crate::data::columns_view(columns@) =~= metadata_columns()); }
    let mut rows: Vec<Vec<Cell>> = Vec::new();
    let mut i: usize = 0;
    while i < servers.len()
        invariant
            i <= servers@.len(),
            rows_view(rows@) =~= servers@.take(i as int).map_values(|s: String| metadata_row(tool@, version@, created@, s@)),
        decreases servers.len() - i,
    {
        let row = vec![
            Cell::Text(String::from_str(tool)),
            Cell::Text(String::from_str(tool).concat(" ").concat(version)),
            Cell::Text(String::from_str(created)),
            Cell::Text(servers[i].clone()),
        ];
        proof { assert(row_view(row) =~= metadata_row(tool@, version@, created@, servers@[i as int]@)); }
        let ghost before = rows@;
        rows.push(row);
        proof {
            assert(rows_view(rows@) =~= rows_view(before).push(row_view(row)));
            assert(servers@.take(i + 1) =~= servers@.take(i as int).push(servers@[i as int]));
        }
        i += 1;
    }
    proof { assert(servers@.take(servers@.len() as int) =~= servers@); }
    Table { name: String::from_str("vMetaData"), columns, rows, warnings: Vec::new() }
}

/// A character that forces a CSV field into quotes.
pub open spec fn csv_special(c: char) -> bool {
    c == ',' || c == '"' || c == '\n' || c == '\r'
}

/// `s` with every double quote doubled.
pub open spec fn quotes_doubled(s: Seq<char>) -> Seq<char>
    decreases s.len(),
{
    if s.len() == 0 {
        Seq::empty()
    } else if s.last() == '"' {
        quotes_doubled(s.drop_last()) + seq!['"', '"']
    } else {
        quotes_doubled(s.drop_last()).push(s.last())
    }
}

/// One CSV field: as it is, or quoted with its quotes doubled when it holds
/// a comma, a quote or a line break.
pub open spec fn csv_field_of(s: Seq<char>) -> Seq<char> {
    if exists|i: int| 0 <= i < s.len() && csv_special(#[trigger] s[i]) {
        seq!['"'] + quotes_doubled(s) + seq!['"']
    } else {
        s
    }
}

pub fn csv_field(s: &str) -> (r: String)
    ensures
        r@ == csv_field_of(s@),
{
    let cs = crate::text::chars_of(s);
    let mut special = false;
    let mut doubled = String::new();
    let mut i: usize = 0;
    while i < cs.len()
        invariant
            i <= cs@.len(),
            cs@ == s@,
            doubled@ == quotes_doubled(cs@.take(i as int)),
            special == exists|k: int| 0 <= k < i && csv_special(#[trigger] cs@[k]),
        decreases cs.len() - i,
    {
        let c = cs[i];
        proof { assert(cs@.take(i + 1).drop_last() =~= cs@.take(i as int)); }
        if c == '"' {
            doubled.push('"');
            doubled.push('"');
            proof { assert(doubled@ =~= quotes_doubled(cs@.take(i + 1))); }
        } else {
            doubled.push(c);
        }
        if c == ',' || c == '"' || c == '\n' || c == '\r' {
            special = true;
        }
        proof {
            if special {
                if csv_special(c) {
                    assert(csv_special(cs@[i as int]));
                }
            } else {
                assert forall|k: int| 0 <= k < i + 1 implies !csv_special(#[trigger] cs@[k]) by {
                    if k < i {
                    } else {
                        assert(cs@[k] == c);
                    }
                }
            }
        }
        i += 1;
    }
    proof {
        assert(cs@.take(cs@.len() as int) =~= cs@);
    }
    if special {
        let mut out = String::new();
        out.push('"');
        let out = out.concat(doubled.as_str());
        let mut out = out;
        out.push('"');
        proof { assert(out@ =~= seq!['"'] + quotes_doubled(s@) + seq!['"']); }
        out
    } else {
        String::from_str(s)
    }
}

/// One CSV line: the fields, each as [`csv_field`] writes it, separated by
/// commas.
pub open spec fn csv_line_of(fields: Seq<Seq<char>>) -> Seq<char> {
    crate::text::joined(fields.map_values(|f: Seq<char>| csv_field_of(f)), ","@)
}

pub fn csv_line(fields: &Vec<String>) -> (r: String)
    ensures
        r@ == csv_line_of(crate::text::strings_view(fields@)),
{
    let mut quoted: Vec<String> = Vec::new();
    let mut i: usize = 0;
    while i < fields.len()
        invariant
            i <= fields@.len(),
            crate::text::strings_view(quoted@) =~= crate::text::strings_view(fields@).take(i as int).map_values(
                |f: Seq<char>| csv_field_of(f),
            ),
        decreases fields.len() - i,
    {
        let q = csv_field(fields[i].as_str());
        let ghost before = quoted@;
        quoted.push(q);
        proof { assert(crate::text::strings_view(quoted@) =~= crate::text::strings_view(before).push(q@)); }
        i += 1;
    }
    proof {
        assert(crate::text::strings_view(fields@).take(fields@.len() as int) =~= crate::text::strings_view(fields@));
    }
    crate::text::join(&quoted, ",")
}

} // verus!
