//! The workbook cell model and the sheet-level readers: the guiding
//! sheet classifier and the extractors for accounting and reference
//! sheets. The workbook parser is an outside collaborator; it hands the
//! library rectangular matrices of plain cell values. Numeric cells
//! are carried in micro-units and date-time cells as plain dates.

use vstd::prelude::*;

use crate::date::{Date, spec_parse_date, spec_serial_date, valid_date, parse_date_chars, serial_to_date};
use crate::money::{AMOUNT_LIMIT, spec_amount_text, spec_parse_amount, amount_chars, parse_amount};
use crate::text::{chars_string, spec_trim, str_chars, trim_chars};
use crate::date::spec_date_iso;
use crate::date::date_iso_chars;

verus! {

/// One spreadsheet cell, as a plain value.
#[derive(Clone, Debug)]
pub enum CellValue {
    Empty,
    Text(String),
    /// A numeric cell, in micro-units.
    Number { micros: i64 },
    Boolean(bool),
    DateTime(Date),
    Error,
}

/// Configuration for sheet processing, one per guiding-sheet row.
#[derive(Clone, Debug)]
pub struct SheetConfig {
    pub table_name: String,
    pub is_accounting: bool,
    pub is_loadable: bool,
}

/// Financial transaction record as extracted, fields still optional.
#[derive(Clone, Debug)]
pub struct Transaction {
    pub date: Option<Date>,
    pub transaction_type: Option<String>,
    pub description: Option<String>,
    /// Credit amount in micro-units.
    pub credit: Option<i64>,
    /// Debit amount in micro-units.
    pub debit: Option<i64>,
    pub origin: String,
}

/// Raw sheet data: one sheet's cells with its guiding flags.
#[derive(Clone, Debug)]
pub struct SheetData {
    pub name: String,
    pub data: Vec<Vec<CellValue>>,
    pub is_accounting: bool,
    pub is_loadable: bool,
}

/// A well-formed cell: numbers within the amount range, dates valid.
pub open spec fn cell_ok(c: CellValue) -> bool {
    match c {
        CellValue::Number { micros } => -AMOUNT_LIMIT < micros < AMOUNT_LIMIT,
        CellValue::DateTime(d) => valid_date(d),
        _ => true,
    }
}

pub open spec fn row_ok(r: Seq<CellValue>) -> bool {
    forall|j: int| 0 <= j < r.len() ==> cell_ok(#[trigger] r[j])
}

pub open spec fn matrix_ok(rows: Seq<Seq<CellValue>>) -> bool {
    forall|i: int| 0 <= i < rows.len() ==> row_ok(#[trigger] rows[i])
}

/// The character sequences of a cell matrix, row by row.
pub open spec fn mat_view(rows: Seq<Vec<CellValue>>) -> Seq<Seq<CellValue>> {
    rows.map_values(|r: Vec<CellValue>| r@)
}

/// A cell as text: numbers in decimal, dates in ISO form, booleans as
/// `true`/`false`, empty and error cells as the empty string.
pub open spec fn spec_cell_text(c: CellValue) -> Seq<char> {
    match c {
        CellValue::Empty => Seq::<char>::empty(),
        CellValue::Error => Seq::<char>::empty(),
        CellValue::Text(s) => s@,
        CellValue::Number { micros } => spec_amount_text(micros as int, '.'),
        CellValue::Boolean(b) => if b {
            "true"@
        } else {
            "false"@
        },
        CellValue::DateTime(d) => spec_date_iso(d),
    }
}

/// Converts a cell to text.
pub fn cell_to_string(c: &CellValue) -> (r: String)
    requires
        cell_ok(*c),
    ensures
        r@ == spec_cell_text(*c),
{
    match c {
        CellValue::Empty => String::new(),
        CellValue::Error => String::new(),
        CellValue::Text(s) => s.clone(),
        CellValue::Number { micros } => {
            let cs = amount_chars(*micros, '.');
            chars_string(&cs)
        },
        CellValue::Boolean(b) => {
            if *b {
                "true".to_owned()
            } else {
                "false".to_owned()
            }
        },
        CellValue::DateTime(d) => {
            let cs = date_iso_chars(d);
            chars_string(&cs)
        },
    }
}

/// Converts a cell to text, `None` when the text is empty.
pub fn cell_to_string_option(c: &CellValue) -> (r: Option<String>)
    requires
        cell_ok(*c),
    ensures
        spec_cell_text(*c).len() == 0 <==> r is None,
        r is Some ==> r->0@ == spec_cell_text(*c),
{
    let s = cell_to_string(c);
    if s.as_str().unicode_len() == 0 {
        None
    } else {
        Some(s)
    }
}

/// The date held by a cell: date-time cells directly, numeric cells as
/// day serials (micro-units truncated to whole days), text cells by
/// parsing; other cells hold none.
pub open spec fn spec_cell_date(c: CellValue) -> Option<Date> {
    match c {
        CellValue::DateTime(d) => Some(d),
        CellValue::Number { micros } => spec_serial_date(micros as int / 1000000),
        CellValue::Text(s) => spec_parse_date(s@),
        _ => None,
    }
}

/// Decodes a date from a cell.
pub fn cell_to_date(c: &CellValue) -> (r: Option<Date>)
    requires
        cell_ok(*c),
    ensures
        r == spec_cell_date(*c),
        r is Some ==> valid_date(r->0),
{
    match c {
        CellValue::DateTime(d) => Some(*d),
        CellValue::Number { micros } => {
            if *micros < 0 {
                proof {
                    vstd::arithmetic::div_mod::lemma_fundamental_div_mod(
                        micros as int,
                        1000000,
                    );
                    if micros as int / 1000000 >= 0 {
                        vstd::arithmetic::mul::lemma_mul_nonnegative(
                            1000000,
                            micros as int / 1000000,
                        );
                    }
                }
                assert(micros as int / 1000000 < 0);
                return None;
            }
            let serial: u64 = (*micros as u64) / 1000000;
            let r = serial_to_date(serial as i64);
            r
        },
        CellValue::Text(s) => {
            let cs = str_chars(s.as_str());
            parse_date_chars(&cs)
        },
        _ => None,
    }
}

/// The amount held by a cell, in micro-units: numeric cells directly,
/// text cells by decimal parsing; other cells hold none.
pub open spec fn spec_cell_amount(c: CellValue) -> Option<int> {
    match c {
        CellValue::Number { micros } => Some(micros as int),
        CellValue::Text(s) => spec_parse_amount(s@, '.'),
        _ => None,
    }
}

/// Decodes an amount from a cell.
pub fn cell_to_amount(c: &CellValue) -> (r: Option<i64>)
    requires
        cell_ok(*c),
    ensures
        match r {
            Some(v) => spec_cell_amount(*c) == Some(v as int) && -AMOUNT_LIMIT < v < AMOUNT_LIMIT,
            None => spec_cell_amount(*c) is None,
        },
{
    match c {
        CellValue::Number { micros } => Some(*micros),
        CellValue::Text(s) => {
            let cs = str_chars(s.as_str());
            parse_amount(&cs, '.')
        },
        _ => None,
    }
}

/// Whether a guiding-sheet flag cell is set: its text, trimmed and
/// upper-cased, is exactly `X`.
pub open spec fn is_x_mark(s: Seq<char>) -> bool {
    spec_trim(s) == seq!['X'] || spec_trim(s) == seq!['x']
}

fn x_mark(s: &Vec<char>) -> (r: bool)
    ensures
        r == is_x_mark(s@),
{
    let t = trim_chars(s);
    if t.len() == 1 && (t[0] == 'X' || t[0] == 'x') {
        proof {
            assert(spec_trim(s@) =~= seq![t@[0]]);
        }
        true
    } else {
        proof {
            if spec_trim(s@) == seq!['X'] || spec_trim(s@) == seq!['x'] {
                assert(t@.len() == 1);
            }
        }
        false
    }
}

/// The plain view of a sheet descriptor.
pub open spec fn config_view(c: SheetConfig) -> (Seq<char>, bool, bool) {
    (c.table_name@, c.is_accounting, c.is_loadable)
}

/// The guiding entries of the rows from index `i` on: one per row of
/// at least three columns whose first cell has non-empty text; the two
/// flags hold when the matching cell is marked `X`.
pub open spec fn spec_guiding_from(rows: Seq<Seq<CellValue>>, i: int) -> Seq<
    (Seq<char>, bool, bool),
>
    decreases rows.len() - i,
{
    if i < 0 || i >= rows.len() {
        Seq::empty()
    } else {
        let rest = spec_guiding_from(rows, i + 1);
        let r = rows[i];
        if r.len() >= 3 && spec_cell_text(r[0]).len() > 0 {
            seq![
                (
                    spec_cell_text(r[0]),
                    is_x_mark(spec_cell_text(r[1])),
                    is_x_mark(spec_cell_text(r[2])),
                ),
            ] + rest
        } else {
            rest
        }
    }
}

/// The guiding entries of a sheet: its rows after the header row.
pub open spec fn spec_guiding(rows: Seq<Seq<CellValue>>) -> Seq<(Seq<char>, bool, bool)> {
    spec_guiding_from(rows, 1)
}

/// Reads the guiding sheet: every row after the header whose first
/// column is non-empty becomes a sheet descriptor, in row order.
pub fn read_guiding_sheet(rows: &Vec<Vec<CellValue>>) -> (r: Vec<SheetConfig>)
    requires
        matrix_ok(mat_view(rows@)),
    ensures
        r@.map_values(|c: SheetConfig| config_view(c)) == spec_guiding(mat_view(rows@)),
{
    let ghost m = mat_view(rows@);
    let mut r: Vec<SheetConfig> = Vec::new();
    let mut i: usize = 1;
    proof {
        assert(r@.map_values(|c: SheetConfig| config_view(c)) =~= Seq::<(
            Seq<char>,
            bool,
            bool,
        )>::empty());
    }
    while i < rows.len()
        invariant
            1 <= i,
            m == mat_view(rows@),
            matrix_ok(m),
            i <= vstd::math::max(rows@.len() as int, 1),
            spec_guiding(m) == r@.map_values(|c: SheetConfig| config_view(c))
                + spec_guiding_from(m, i as int),
        decreases rows@.len() - i,
    {
        let ghost pre = r@;
        let row = &rows[i];
        proof {
            assert(m[i as int] == rows@[i as int]@);
            assert(row_ok(m[i as int]));
        }
        if row.len() >= 3 {
            assert(cell_ok(m[i as int][0]) && cell_ok(m[i as int][1]) && cell_ok(
                m[i as int][2],
            ));
            let name = cell_to_string(&row[0]);
            if name.as_str().unicode_len() > 0 {
                let acc_cs = str_chars(cell_to_string(&row[1]).as_str());
                let load_cs = str_chars(cell_to_string(&row[2]).as_str());
                let cfg = SheetConfig {
                    table_name: name,
                    is_accounting: x_mark(&acc_cs),
                    is_loadable: x_mark(&load_cs),
                };
                r.push(cfg);
            }
        }
        proof {
            let f = |c: SheetConfig| config_view(c);
            if r@.len() > pre.len() {
                assert(r@.map_values(f) =~= pre.map_values(f).push(config_view(r@.last())));
            } else {
                assert(r@.map_values(f) =~= pre.map_values(f));
            }
        }
        i = i + 1;
    }
    proof {
        assert(spec_guiding_from(m, i as int) =~= Seq::<(Seq<char>, bool, bool)>::empty());
        assert(r@.map_values(|c: SheetConfig| config_view(c)) + Seq::<(
            Seq<char>,
            bool,
            bool,
        )>::empty() =~= r@.map_values(|c: SheetConfig| config_view(c)));
    }
    r
}

/// A well-formed extracted transaction: its date, when present, is a
/// valid calendar date, and its amounts lie within the range.
pub open spec fn transaction_ok(t: Transaction) -> bool {
    &&& (t.date matches Some(d) ==> valid_date(d))
    &&& (t.credit matches Some(v) ==> -AMOUNT_LIMIT < v < AMOUNT_LIMIT)
    &&& (t.debit matches Some(v) ==> -AMOUNT_LIMIT < v < AMOUNT_LIMIT)
}

/// The plain view of an extracted transaction.
pub open spec fn transaction_view(t: Transaction) -> (
    Option<Date>,
    Option<Seq<char>>,
    Option<Seq<char>>,
    Option<int>,
    Option<int>,
    Seq<char>,
) {
    (
        t.date,
        match t.transaction_type {
            Some(s) => Some(s@),
            None => None,
        },
        match t.description {
            Some(s) => Some(s@),
            None => None,
        },
        match t.credit {
            Some(v) => Some(v as int),
            None => None,
        },
        match t.debit {
            Some(v) => Some(v as int),
            None => None,
        },
        t.origin@,
    )
}

/// The optional text of a cell: `None` for empty text.
pub open spec fn spec_cell_text_opt(c: CellValue) -> Option<Seq<char>> {
    if spec_cell_text(c).len() == 0 {
        None
    } else {
        Some(spec_cell_text(c))
    }
}

/// The transactions extracted from the rows from index `i` on: one per
/// row of at least five columns that decodes a date or names a type.
pub open spec fn spec_transactions_from(
    rows: Seq<Seq<CellValue>>,
    i: int,
    origin: Seq<char>,
) -> Seq<(Option<Date>, Option<Seq<char>>, Option<Seq<char>>, Option<int>, Option<int>, Seq<char>)>
    decreases rows.len() - i,
{
    if i < 0 || i >= rows.len() {
        Seq::empty()
    } else {
        let rest = spec_transactions_from(rows, i + 1, origin);
        let r = rows[i];
        if r.len() >= 5 && (spec_cell_date(r[0]) is Some || spec_cell_text(r[1]).len() > 0) {
            seq![
                (
                    spec_cell_date(r[0]),
                    spec_cell_text_opt(r[1]),
                    spec_cell_text_opt(r[2]),
                    spec_cell_amount(r[3]),
                    spec_cell_amount(r[4]),
                    origin,
                ),
            ] + rest
        } else {
            rest
        }
    }
}

/// The transactions of an accounting sheet: its rows after the header.
pub open spec fn spec_transactions(rows: Seq<Seq<CellValue>>, origin: Seq<char>) -> Seq<
    (Option<Date>, Option<Seq<char>>, Option<Seq<char>>, Option<int>, Option<int>, Seq<char>),
> {
    spec_transactions_from(rows, 1, origin)
}

/// Reads an accounting sheet. The expected positional columns are
/// date, type, description, credit and debit; a row is kept only when
/// it decodes a date or names a type.
pub fn read_accounting_sheet(rows: &Vec<Vec<CellValue>>, sheet_name: &str) -> (r: Vec<
    Transaction,
>)
    requires
        matrix_ok(mat_view(rows@)),
    ensures
        r@.map_values(|t: Transaction| transaction_view(t)) == spec_transactions(
            mat_view(rows@),
            sheet_name@,
        ),
        forall|k: int| 0 <= k < r@.len() ==> transaction_ok(#[trigger] r@[k]),
{
    let ghost m = mat_view(rows@);
    let mut r: Vec<Transaction> = Vec::new();
    let mut i: usize = 1;
    proof {
        assert(r@.map_values(|t: Transaction| transaction_view(t)) =~= Seq::<(
            Option<Date>,
            Option<Seq<char>>,
            Option<Seq<char>>,
            Option<int>,
            Option<int>,
            Seq<char>,
        )>::empty());
    }
    while i < rows.len()
        invariant
            1 <= i,
            m == mat_view(rows@),
            matrix_ok(m),
            i <= vstd::math::max(rows@.len() as int, 1),
            spec_transactions(m, sheet_name@) == r@.map_values(
                |t: Transaction| transaction_view(t),
            ) + spec_transactions_from(m, i as int, sheet_name@),
            forall|k: int| 0 <= k < r@.len() ==> transaction_ok(#[trigger] r@[k]),
        decreases rows@.len() - i,
    {
        let ghost pre = r@;
        let row = &rows[i];
        proof {
            assert(m[i as int] == rows@[i as int]@);
            assert(row_ok(m[i as int]));
        }
        if row.len() >= 5 {
            assert(forall|j: int| 0 <= j < 5 ==> cell_ok(#[trigger] m[i as int][j]));
            let date = cell_to_date(&row[0]);
            let transaction_type = cell_to_string_option(&row[1]);
            let keep = date.is_some() || transaction_type.is_some();
            if keep {
                let t = Transaction {
                    date,
                    transaction_type,
                    description: cell_to_string_option(&row[2]),
                    credit: cell_to_amount(&row[3]),
                    debit: cell_to_amount(&row[4]),
                    origin: sheet_name.to_owned(),
                };
                r.push(t);
            }
        }
        proof {
            let f = |t: Transaction| transaction_view(t);
            if r@.len() > pre.len() {
                assert(r@.map_values(f) =~= pre.map_values(f).push(transaction_view(r@.last())));
            } else {
                assert(r@.map_values(f) =~= pre.map_values(f));
            }
        }
        i = i + 1;
    }
    proof {
        let f = |t: Transaction| transaction_view(t);
        assert(spec_transactions_from(m, i as int, sheet_name@) =~= Seq::<(
            Option<Date>,
            Option<Seq<char>>,
            Option<Seq<char>>,
            Option<int>,
            Option<int>,
            Seq<char>,
        )>::empty());
        assert(r@.map_values(f) + spec_transactions_from(m, i as int, sheet_name@) =~= r@
            .map_values(f));
    }
    r
}

/// Reads a reference sheet: every row, including the header, becomes a
/// row of plain text, cell by cell.
pub fn read_reference_sheet(rows: &Vec<Vec<CellValue>>) -> (r: Vec<Vec<String>>)
    requires
        matrix_ok(mat_view(rows@)),
    ensures
        r@.len() == rows@.len(),
        forall|i: int| 0 <= i < r@.len() ==> (#[trigger] r@[i])@.len() == rows@[i]@.len(),
        forall|i: int, j: int|
            0 <= i < r@.len() && 0 <= j < r@[i]@.len() ==> (#[trigger] r@[i]@[j])@
                == spec_cell_text(rows@[i]@[j]),
{
    let ghost m = mat_view(rows@);
    let mut r: Vec<Vec<String>> = Vec::new();
    let mut i: usize = 0;
    while i < rows.len()
        invariant
            0 <= i <= rows@.len(),
            m == mat_view(rows@),
            matrix_ok(m),
            r@.len() == i,
            forall|k: int| 0 <= k < i ==> (#[trigger] r@[k])@.len() == rows@[k]@.len(),
            forall|k: int, j: int|
                0 <= k < i && 0 <= j < r@[k]@.len() ==> (#[trigger] r@[k]@[j])@
                    == spec_cell_text(rows@[k]@[j]),
        decreases rows@.len() - i,
    {
        let row = &rows[i];
        proof {
            assert(m[i as int] == rows@[i as int]@);
            assert(row_ok(m[i as int]));
        }
        let mut out: Vec<String> = Vec::new();
        let mut j: usize = 0;
        while j < row.len()
            invariant
                0 <= j <= row@.len(),
                row_ok(row@),
                out@.len() == j,
                forall|k: int|
                    0 <= k < j ==> (#[trigger] out@[k])@ == spec_cell_text(row@[k]),
            decreases row@.len() - j,
        {
            out.push(cell_to_string(&row[j]));
            j = j + 1;
        }
        r.push(out);
        i = i + 1;
    }
    r
}

} // verus!
