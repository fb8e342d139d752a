//! The export's command line: what the arguments ask for, which sheets they
//! name, and the exit status a run ends with.

use vstd::prelude::*;
use crate::data::{Table, TableView};
use crate::data::snapshot::{tables_view, SheetSpec};
use crate::text::{chars_of, split_char, split_on, str_eq, strings_view, trim, trim_ws};

verus! {

/// What one export run was asked to do.
pub struct Args {
    pub config: Option<String>,
    pub xlsx: Option<String>,
    pub csv: Option<String>,
    /// The sheets named by `--sheets`, as given; `None` for all of them.
    pub sheets: Option<Vec<String>>,
    pub include_file_info: bool,
    pub quiet: bool,
}

pub struct ArgsView {
    pub config: Option<Seq<char>>,
    pub xlsx: Option<Seq<char>>,
    pub csv: Option<Seq<char>>,
    pub sheets: Option<Seq<Seq<char>>>,
    pub include_file_info: bool,
    pub quiet: bool,
}

pub open spec fn opt_view(o: Option<String>) -> Option<Seq<char>> {
    match o {
        Some(s) => Some(s@),
        None => None,
    }
}

impl View for Args {
    type V = ArgsView;

    open spec fn view(&self) -> ArgsView {
        ArgsView {
            config: opt_view(self.config),
            xlsx: opt_view(self.xlsx),
            csv: opt_view(self.csv),
            sheets: match self.sheets {
                Some(v) => Some(strings_view(v@)),
                None => None,
            },
            include_file_info: self.include_file_info,
            quiet: self.quiet,
        }
    }
}

/// What the command line asks for.
pub enum Command {
    /// Print the usage text.
    Help,
    /// Print the sheet names.
    ListSheets,
    Run(Args),
}

pub enum CommandView {
    Help,
    ListSheets,
    Run(ArgsView),
}

impl View for Command {
    type V = CommandView;

    open spec fn view(&self) -> CommandView {
        match self {
            Command::Help => CommandView::Help,
            Command::ListSheets => CommandView::ListSheets,
            Command::Run(a) => CommandView::Run(a@),
        }
    }
}

/// The names in a `--sheets` value: split at commas, trimmed, empty ones
/// dropped.
pub open spec fn sheet_list_of(pieces: Seq<Seq<char>>) -> Seq<Seq<char>>
    decreases pieces.len(),
{
    if pieces.len() == 0 {
        Seq::empty()
    } else if trim_ws(pieces.last()).len() > 0 {
        sheet_list_of(pieces.drop_last()).push(trim_ws(pieces.last()))
    } else {
        sheet_list_of(pieces.drop_last())
    }
}

/// The sheet names a `--sheets` value lists.
pub fn sheet_list(value: &str) -> (r: Vec<String>)
    ensures
        strings_view(r@) == sheet_list_of(split_on(value@, ',')),
{
    let pieces = split_char(value, ',');
    let ghost pv = split_on(value@, ',');
    proof { assert(strings_view(pieces@) =~= pv); }
    let mut out: Vec<String> = Vec::new();
    let mut i: usize = 0;
    while i < pieces.len()
        invariant
            i <= pieces@.len(),
            strings_view(pieces@) == pv,
            strings_view(out@) =~= sheet_list_of(pv.take(i as int)),
        decreases pieces.len() - i,
    {
        proof {
            assert(pv.take(i + 1).drop_last() =~= pv.take(i as int));
            assert(pv.take(i + 1).last() == pieces@[i as int]@);
        }
        let t = trim(pieces[i].as_str());
        if t.as_str().unicode_len() > 0 {
            let ghost before = out@;
            out.push(t);
            proof { assert(strings_view(out@) =~= strings_view(before).push(t@)); }
        }
        i += 1;
    }
    proof { assert(pv.take(pv.len() as int) =~= pv); }
    out
}

pub open spec fn no_args() -> ArgsView {
    ArgsView { config: None, xlsx: None, csv: None, sheets: None, include_file_info: false, quiet: false }
}

pub open spec fn takes_value(a: Seq<char>) -> bool {
    a == "--config"@ || a == "--xlsx"@ || a == "--csv"@ || a == "--sheets"@
}

/// `acc` with the value of the flag `flag` set to `v`.
pub open spec fn with_value(acc: ArgsView, flag: Seq<char>, v: Seq<char>) -> ArgsView {
    if flag == "--config"@ {
        ArgsView { config: Some(v), ..acc }
    } else if flag == "--xlsx"@ {
        ArgsView { xlsx: Some(v), ..acc }
    } else if flag == "--csv"@ {
        ArgsView { csv: Some(v), ..acc }
    } else {
        ArgsView { sheets: Some(sheet_list_of(split_on(v, ','))), ..acc }
    }
}

/// The arguments from position `i` on, read into `acc`: help and the sheet
/// list answer at once; a flag that takes a value and is last, or an
/// argument nobody knows, is an error; at the end at least one output must
/// have been named.
pub open spec fn parse_from(argv: Seq<Seq<char>>, i: int, acc: ArgsView) -> Result<CommandView, Seq<char>>
    decreases argv.len() - i,
{
    if i < 0 || i >= argv.len() {
        if acc.xlsx is None && acc.csv is None {
            Err("nothing to write: pass --xlsx, --csv, or both"@)
        } else {
            Ok(CommandView::Run(acc))
        }
    } else {
        let a = argv[i];
        if a == "-h"@ || a == "--help"@ {
            Ok(CommandView::Help)
        } else if a == "--list-sheets"@ {
            Ok(CommandView::ListSheets)
        } else if takes_value(a) {
            if i + 1 >= argv.len() {
                Err(a + " needs a value"@)
            } else {
                parse_from(argv, i + 2, with_value(acc, a, argv[i + 1]))
            }
        } else if a == "--include-file-info"@ {
            parse_from(argv, i + 1, ArgsView { include_file_info: true, ..acc })
        } else if a == "--quiet"@ {
            parse_from(argv, i + 1, ArgsView { quiet: true, ..acc })
        } else {
            Err("unknown argument: "@ + a)
        }
    }
}

/// What the arguments after the program's name ask for.
pub fn parse_args(argv: &Vec<String>) -> (r: Result<Command, String>)
    ensures
        match r {
            Ok(c) => parse_from(strings_view(argv@), 0, no_args()) == Ok::<CommandView, Seq<char>>(c@),
            Err(e) => parse_from(strings_view(argv@), 0, no_args()) == Err::<CommandView, Seq<char>>(e@),
        },
{
    let ghost av = strings_view(argv@);
    let mut args = Args { config: None, xlsx: None, csv: None, sheets: None, include_file_info: false, quiet: false };
    let mut i: usize = 0;
    proof { assert(args@ == no_args()); }
    while i < argv.len()
        invariant
            i <= argv@.len(),
            av == strings_view(argv@),
            parse_from(av, i as int, args@) == parse_from(av, 0, no_args()),
        decreases argv.len() - i,
    {
        let a = argv[i].as_str();
        proof { assert(av[i as int] == a@); }
        if str_eq(a, "-h") || str_eq(a, "--help") {
            return Ok(Command::Help);
        } else if str_eq(a, "--list-sheets") {
            return Ok(Command::ListSheets);
        } else if str_eq(a, "--config") || str_eq(a, "--xlsx") || str_eq(a, "--csv") || str_eq(a, "--sheets") {
            if i + 1 >= argv.len() {
                return Err(String::from_str(a).concat(" needs a value"));
            }
            let v = argv[i + 1].clone();
            proof { assert(av[i + 1] == v@); }
            let ghost before = args@;
            if str_eq(a, "--config") {
                args.config = Some(v);
            } else if str_eq(a, "--xlsx") {
                args.xlsx = Some(v);
            } else if str_eq(a, "--csv") {
                args.csv = Some(v);
            } else {
                args.sheets = Some(sheet_list(v.as_str()));
            }
            proof { assert(args@ == with_value(before, a@, v@)); }
            i += 2;
        } else if str_eq(a, "--include-file-info") {
            args.include_file_info = true;
            i += 1;
        } else if str_eq(a, "--quiet") {
            args.quiet = true;
            i += 1;
        } else {
            return Err(String::from_str("unknown argument: ").concat(a));
        }
    }
    if args.xlsx.is_none() && args.csv.is_none() {
        return Err(String::from_str("nothing to write: pass --xlsx, --csv, or both"));
    }
    Ok(Command::Run(args))
}

pub open spec fn is_upper(c: char) -> bool {
    'A' <= c && c <= 'Z'
}

/// Two characters that are equal once ASCII letters are lowered.
pub open spec fn same_letter(a: char, b: char) -> bool {
    a == b || (is_upper(a) && b as int == a as int + 32) || (is_upper(b) && a as int == b as int + 32)
}

/// `str::eq_ignore_ascii_case`.
pub open spec fn eq_ignoring_case(a: Seq<char>, b: Seq<char>) -> bool {
    a.len() == b.len() && forall|i: int| 0 <= i < a.len() ==> same_letter(#[trigger] a[i], b[i])
}

/// Whether `a` and `b` are equal once ASCII letters are lowered.
pub fn eq_ignore_ascii_case(a: &str, b: &str) -> (r: bool)
    ensures
        r == eq_ignoring_case(a@, b@),
{
    let x = chars_of(a);
    let y = chars_of(b);
    if x.len() != y.len() {
        return false;
    }
    let mut i: usize = 0;
    while i < x.len()
        invariant
            i <= x@.len(),
            x@ == a@,
            y@ == b@,
            x@.len() == y@.len(),
            forall|k: int| 0 <= k < i ==> same_letter(#[trigger] x@[k], y@[k]),
        decreases x.len() - i,
    {
        let c = x[i];
        let d = y[i];
        let same = c == d || ('A' <= c && c <= 'Z' && 'a' <= d && d <= 'z' && (d as u32) == (c as u32) + 32)
            || ('A' <= d && d <= 'Z' && 'a' <= c && c <= 'z' && (c as u32) == (d as u32) + 32);
        if !same {
            proof { assert(!same_letter(x@[i as int], y@[i as int])); }
            return false;
        }
        i += 1;
    }
    true
}

/// The position of the first of `names` equal to `n` ignoring ASCII case.
pub open spec fn first_match(names: Seq<Seq<char>>, n: Seq<char>) -> Option<int>
    decreases names.len(),
{
    if names.len() == 0 {
        None
    } else {
        match first_match(names.drop_last(), n) {
            Some(i) => Some(i),
            None => if eq_ignoring_case(names.last(), n) {
                Some(names.len() - 1)
            } else {
                None
            },
        }
    }
}

/// `no such sheet: <name>. Run --list-sheets for the names.`
pub open spec fn no_such_sheet(name: Seq<char>) -> Seq<char> {
    "no such sheet: "@ + name + ". Run --list-sheets for the names."@
}

/// The registry positions of the requested names, in the order requested;
/// the first name that matches no sheet is an error.
pub open spec fn pick(names: Seq<Seq<char>>, requested: Seq<Seq<char>>) -> Result<Seq<int>, Seq<char>>
    decreases requested.len(),
{
    if requested.len() == 0 {
        Ok(Seq::empty())
    } else {
        match pick(names, requested.drop_last()) {
            Err(e) => Err(e),
            Ok(v) => match first_match(names, requested.last()) {
                Some(i) => Ok(v.push(i)),
                None => Err(no_such_sheet(requested.last())),
            },
        }
    }
}

/// Every registry position, in order, but those of sheets that walk
/// datastore filesystems unless they were asked for.
pub open spec fn default_pick(wants_files: Seq<bool>, include_file_info: bool) -> Seq<int>
    decreases wants_files.len(),
{
    if wants_files.len() == 0 {
        Seq::empty()
    } else if include_file_info || !wants_files.last() {
        default_pick(wants_files.drop_last(), include_file_info).push(wants_files.len() - 1)
    } else {
        default_pick(wants_files.drop_last(), include_file_info)
    }
}

pub open spec fn spec_names(specs: Seq<SheetSpec>) -> Seq<Seq<char>> {
    specs.map_values(|s: SheetSpec| s.name@)
}

pub open spec fn spec_wants_files(specs: Seq<SheetSpec>) -> Seq<bool> {
    specs.map_values(|s: SheetSpec| s.wants_files)
}

pub open spec fn positions(v: Seq<usize>) -> Seq<int> {
    v.map_values(|u: usize| u as int)
}

/// The sheets an export covers: the requested ones by name, ignoring ASCII
/// case, or by default every sheet but those that walk datastore
/// filesystems. A name that matches no sheet is an error rather than an
/// empty file, so a typo cannot pass for a sheet with no rows.
pub fn select_sheets(specs: &Vec<SheetSpec>, requested: &Option<Vec<String>>, include_file_info: bool) -> (r: Result<Vec<usize>, String>)
    ensures
        match r {
            Ok(v) => match requested {
                Some(req) => pick(spec_names(specs@), strings_view(req@)) == Ok::<Seq<int>, Seq<char>>(positions(v@)),
                None => default_pick(spec_wants_files(specs@), include_file_info) == positions(v@),
            },
            Err(e) => match requested {
                Some(req) => pick(spec_names(specs@), strings_view(req@)) == Err::<Seq<int>, Seq<char>>(e@),
                None => false,
            },
        },
        match r {
            Ok(v) => forall|i: int| 0 <= i < v@.len() ==> (#[trigger] v@[i]) < specs@.len(),
            Err(_) => true,
        },
{
    let ghost names = spec_names(specs@);
    let mut out: Vec<usize> = Vec::new();
    match requested {
        Some(req) => {
            let ghost rv = strings_view(req@);
            let mut i: usize = 0;
            proof {
                assert(rv.take(0) =~= Seq::<Seq<char>>::empty());
                assert(positions(out@) =~= Seq::<int>::empty());
            }
            while i < req.len()
                invariant
                    i <= req@.len(),
                    rv == strings_view(req@),
                    *requested == Some(*req),
                    names == spec_names(specs@),
                    pick(names, rv.take(i as int)) == Ok::<Seq<int>, Seq<char>>(positions(out@)),
                    forall|k: int| 0 <= k < out@.len() ==> (#[trigger] out@[k]) < specs@.len(),
                decreases req.len() - i,
            {
                proof {
                    assert(rv.take(i + 1).drop_last() =~= rv.take(i as int));
                    assert(rv.take(i + 1).last() == req@[i as int]@);
                }
                let name = req[i].as_str();
                let mut j: usize = 0;
                let mut found: Option<usize> = None;
                while j < specs.len()
                    invariant
                        j <= specs@.len(),
                        names == spec_names(specs@),
                        match found {
                            Some(k) => k < j && first_match(names.take(j as int), name@) == Some(k as int),
                            None => first_match(names.take(j as int), name@) is None,
                        },
                    decreases specs.len() - j,
                {
                    proof {
                        assert(names.take(j + 1).drop_last() =~= names.take(j as int));
                        assert(names.take(j + 1).last() == specs@[j as int].name@);
                    }
                    if found.is_none() && eq_ignore_ascii_case(specs[j].name, name) {
                        found = Some(j);
                    }
                    j += 1;
                }
                proof { assert(names.take(names.len() as int) =~= names); }
                match found {
                    Some(k) => {
                        let ghost before = out@;
                        out.push(k);
                        proof { assert(positions(out@) =~= positions(before).push(k as int)); }
                    },
                    None => {
                        proof {
                            assert(first_match(names, name@) is None);
                            assert(pick(names, rv.take(i + 1)) == Err::<Seq<int>, Seq<char>>(no_such_sheet(name@)));
                            lemma_pick_err_stays(names, rv, i as int + 1);
                        }
                        let e = String::from_str("no such sheet: ").concat(name).concat(
                            ". Run --list-sheets for the names.",
                        );
                        proof {
                            assert(e@ == no_such_sheet(name@));
                            assert(pick(names, rv) == Err::<Seq<int>, Seq<char>>(e@));
                        }
                        return Err(e);
                    },
                }
                i += 1;
            }
            proof { assert(rv.take(rv.len() as int) =~= rv); }
            Ok(out)
        },
        None => {
            let ghost wv = spec_wants_files(specs@);
            let mut j: usize = 0;
            while j < specs.len()
                invariant
                    j <= specs@.len(),
                    wv == spec_wants_files(specs@),
                    default_pick(wv.take(j as int), include_file_info) == positions(out@),
                    forall|k: int| 0 <= k < out@.len() ==> (#[trigger] out@[k]) < specs@.len(),
                decreases specs.len() - j,
            {
                proof {
                    assert(wv.take(j + 1).drop_last() =~= wv.take(j as int));
                    assert(wv.take(j + 1).last() == specs@[j as int].wants_files);
                }
                if include_file_info || !specs[j].wants_files {
                    let ghost before = out@;
                    out.push(j);
                    proof { assert(positions(out@) =~= positions(before).push(j as int)); }
                }
                j += 1;
            }
            proof { assert(wv.take(wv.len() as int) =~= wv); }
            Ok(out)
        },
    }
}

/// Once a requested name matches no sheet, longer requests fail the same way.
pub proof fn lemma_pick_err_stays(names: Seq<Seq<char>>, requested: Seq<Seq<char>>, k: int)
    requires
        0 < k <= requested.len(),
        pick(names, requested.take(k)) is Err,
    ensures
        pick(names, requested) == pick(names, requested.take(k)),
    decreases requested.len() - k,
{
    if k < requested.len() {
        assert(requested.take(k + 1).drop_last() =~= requested.take(k));
        lemma_pick_err_stays(names, requested, k + 1);
    } else {
        assert(requested.take(k) =~= requested);
    }
}

/// The exit status of a run: `0` clean, `1` nothing was produced, `2`
/// written but at least one vCenter left a warning, so a scheduled job can
/// tell a short inventory from a complete one.
pub fn exit_code(outcome: &Result<Vec<String>, String>) -> (r: i32)
    ensures
        r == match outcome {
            Ok(w) => if w@.len() == 0 { 0i32 } else { 2i32 },
            Err(_) => 1i32,
        },
{
    match outcome {
        Ok(w) => if w.len() == 0 { 0 } else { 2 },
        Err(_) => 1,
    }
}

/// Every table's warnings, table by table.
pub open spec fn warnings_of(ts: Seq<TableView>) -> Seq<Seq<char>> {
    ts.map_values(|t: TableView| t.warnings).flatten()
}

/// The number of rows across all tables.
pub open spec fn row_total(ts: Seq<TableView>) -> int
    decreases ts.len(),
{
    if ts.len() == 0 {
        0
    } else {
        row_total(ts.drop_last()) + ts.last().rows.len()
    }
}

/// The warnings a run ends with: every table's, in table order.
pub fn all_warnings(tables: &Vec<Table>) -> (r: Vec<String>)
    ensures
        strings_view(r@) == warnings_of(tables_view(tables@)),
{
    let ghost per = tables_view(tables@).map_values(|t: TableView| t.warnings);
    let mut out: Vec<String> = Vec::new();
    let mut i: usize = 0;
    proof { assert(per.take(0).flatten() =~= Seq::<Seq<char>>::empty()); }
    while i < tables.len()
        invariant
            i <= tables@.len(),
            per == tables_view(tables@).map_values(|t: TableView| t.warnings),
            strings_view(out@) =~= per.take(i as int).flatten(),
        decreases tables.len() - i,
    {
        let ws = &tables[i].warnings;
        let ghost flat_before = per.take(i as int).flatten();
        proof { assert(strings_view(ws@) == per[i as int]); }
        let mut j: usize = 0;
        while j < ws.len()
            invariant
                j <= ws@.len(),
                strings_view(out@) =~= flat_before + strings_view(ws@).take(j as int),
            decreases ws.len() - j,
        {
            let ghost before = out@;
            out.push(ws[j].clone());
            proof {
                assert(strings_view(out@) =~= strings_view(before).push(ws@[j as int]@));
                assert(strings_view(ws@).take(j + 1) =~= strings_view(ws@).take(j as int).push(ws@[j as int]@));
            }
            j += 1;
        }
        proof {
            assert(strings_view(ws@).take(ws@.len() as int) =~= strings_view(ws@));
            assert(per.take(i + 1) =~= per.take(i as int).push(per[i as int]));
            per.take(i as int).lemma_flatten_push(per[i as int]);
        }
        i += 1;
    }
    proof { assert(per.take(tables@.len() as int) =~= per); }
    out
}

/// The number of rows across all tables.
pub fn total_rows(tables: &Vec<Table>) -> (r: u128)
    ensures
        r == row_total(tables_view(tables@)),
{
    let ghost tv = tables_view(tables@);
    let mut n: u128 = 0;
    let mut i: usize = 0;
    while i < tables.len()
        invariant
            i <= tables@.len(),
            tv == tables_view(tables@),
            n == row_total(tv.take(i as int)),
            n <= i * 0x1_0000_0000_0000_0000,
        decreases tables.len() - i,
    {
        proof {
            assert(tv.take(i + 1).drop_last() =~= tv.take(i as int));
            assert(tv.take(i + 1).last().rows.len() == tables@[i as int].rows@.len());
            assert(i < 0x1_0000_0000_0000_0000);
        }
        n = n + tables[i].rows.len() as u128;
        i += 1;
    }
    proof { assert(tv.take(tv.len() as int) =~= tv); }
    n
}

} // verus!
