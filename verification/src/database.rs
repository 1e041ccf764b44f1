//! The relational store: statement synthesis and execution. Every
//! statement text is built by verified code with an exact contract;
//! only the calls into the store itself are trusted. Identifiers
//! discovered at runtime (category labels from the types table) pass
//! through a sanitizer before they stand in generated statements.

use vstd::prelude::*;

use crate::date::{Date, spec_date_iso, valid_date, date_iso_chars};
use crate::error::{DatabaseError, PdwError};
use crate::money::{AMOUNT_LIMIT, spec_cents_text, cents_chars};
use crate::text::{chars_string, push_chars, push_str_chars, spec_digits, str_chars, u64_to_chars};

verus! {

/// One typed value of a query result row.
#[derive(Clone, Debug)]
pub enum Datum {
    Null,
    Int(i64),
    /// A floating-point store value, carried as its decimal text.
    Real(String),
    Text(String),
}

/// Processed transaction with enriched temporal data. Amounts are in
/// cents, rounded half-away-from-zero.
#[derive(Clone, Debug)]
pub struct ProcessedTransaction {
    pub date: Date,
    pub day_of_week: String,
    pub transaction_type: String,
    pub description: String,
    pub credit: i64,
    pub debit: i64,
    pub month: String,
    pub year: String,
    pub month_name: String,
    pub year_month: String,
    pub origin: String,
}

pub open spec fn processed_ok(t: ProcessedTransaction) -> bool {
    &&& valid_date(t.date)
    &&& -AMOUNT_LIMIT < t.credit < AMOUNT_LIMIT
    &&& -AMOUNT_LIMIT < t.debit < AMOUNT_LIMIT
}

/// The reason text of a failed batch row: the row index and the
/// underlying cause.
pub open spec fn spec_row_reason(s: Seq<char>, n: int) -> bool {
    exists|i: int, cause: Seq<char>|
        0 <= i < n && s == #[trigger] ("row "@ + crate::text::spec_digits(i) + ": "@ + cause)
}

fn row_reason(i: usize, cause: &str) -> (r: String)
    ensures
        r@ == "row "@ + crate::text::spec_digits(i as int) + ": "@ + cause@,
{
    let mut v: Vec<char> = Vec::new();
    push_str_chars(&mut v, "row ");
    let digits = u64_to_chars(i as u64);
    push_chars(&mut v, &digits);
    push_str_chars(&mut v, ": ");
    push_str_chars(&mut v, cause);
    chars_string(&v)
}

/// The eleven statement parameters of one transaction row: the date in
/// ISO form, the amounts as two-decimal text, the rest verbatim.
pub fn transaction_params(t: &ProcessedTransaction) -> (r: Vec<String>)
    requires
        processed_ok(*t),
    ensures
        r@.len() == 11,
        r@[0]@ == spec_date_iso(t.date),
        r@[1]@ == t.day_of_week@,
        r@[2]@ == t.transaction_type@,
        r@[3]@ == t.description@,
        r@[4]@ == spec_cents_text(t.credit as int, '.'),
        r@[5]@ == spec_cents_text(t.debit as int, '.'),
        r@[6]@ == t.month@,
        r@[7]@ == t.year@,
        r@[8]@ == t.month_name@,
        r@[9]@ == t.year_month@,
        r@[10]@ == t.origin@,
{
    let mut r: Vec<String> = Vec::new();
    let date_cs = date_iso_chars(&t.date);
    r.push(chars_string(&date_cs));
    r.push(t.day_of_week.clone());
    r.push(t.transaction_type.clone());
    r.push(t.description.clone());
    let credit_cs = cents_chars(t.credit, '.');
    r.push(chars_string(&credit_cs));
    let debit_cs = cents_chars(t.debit, '.');
    r.push(chars_string(&debit_cs));
    r.push(t.month.clone());
    r.push(t.year.clone());
    r.push(t.month_name.clone());
    r.push(t.year_month.clone());
    r.push(t.origin.clone());
    r
}

/// Concatenates text fragments.
pub(crate) fn join2(a: &str, b: &str) -> (r: String)
    ensures
        r@ == a@ + b@,
{
    let mut v: Vec<char> = Vec::new();
    push_str_chars(&mut v, a);
    push_str_chars(&mut v, b);
    chars_string(&v)
}

pub(crate) fn join3(a: &str, b: &str, c: &str) -> (r: String)
    ensures
        r@ == a@ + b@ + c@,
{
    let mut v: Vec<char> = Vec::new();
    push_str_chars(&mut v, a);
    push_str_chars(&mut v, b);
    push_str_chars(&mut v, c);
    chars_string(&v)
}

/// The statement dropping a table if it exists.
pub open spec fn spec_drop_stmt(table: Seq<char>) -> Seq<char> {
    "DROP TABLE IF EXISTS "@ + table
}

pub fn drop_table_stmt(table: &str) -> (r: String)
    ensures
        r@ == spec_drop_stmt(table@),
{
    join2("DROP TABLE IF EXISTS ", table)
}

/// Whether a character may stand in a generated identifier: bracket
/// and quote characters are stripped, since category labels originate
/// from user-controlled spreadsheet data.
pub open spec fn ident_char_ok(c: char) -> bool {
    c != '[' && c != ']' && c != '\'' && c != '"'
}

/// The label with bracket and quote characters removed.
pub open spec fn spec_sanitize(s: Seq<char>) -> Seq<char>
    decreases s.len(),
{
    if s.len() == 0 {
        s
    } else if ident_char_ok(s[0]) {
        seq![s[0]] + spec_sanitize(s.drop_first())
    } else {
        spec_sanitize(s.drop_first())
    }
}

/// Strips bracket and quote characters from a discovered label.
pub fn sanitize_identifier(s: &str) -> (r: Vec<char>)
    ensures
        r@ == spec_sanitize(s@),
{
    let cs = str_chars(s);
    let mut r: Vec<char> = Vec::new();
    let mut i: usize = 0;
    proof {
        assert(cs@.skip(0) =~= cs@);
        assert(r@ + spec_sanitize(cs@) =~= spec_sanitize(cs@));
    }
    while i < cs.len()
        invariant
            0 <= i <= cs@.len(),
            cs@ == s@,
            spec_sanitize(s@) == r@ + spec_sanitize(cs@.skip(i as int)),
        decreases cs@.len() - i,
    {
        let ghost rest = cs@.skip(i as int);
        proof {
            assert(rest[0] == cs@[i as int]);
            assert(rest.drop_first() =~= cs@.skip(i + 1));
        }
        let c = cs[i];
        if !(c == '[' || c == ']' || c == '\'' || c == '"') {
            r.push(c);
            proof {
                assert(seq![rest[0]] + spec_sanitize(rest.drop_first()) == spec_sanitize(rest));
            }
        }
        i = i + 1;
    }
    proof {
        assert(cs@.skip(cs@.len() as int) =~= Seq::<char>::empty());
        assert(r@ + Seq::<char>::empty() =~= r@);
    }
    r
}

/// The generic column list of a reference table: `col1 TEXT` through
/// `colN TEXT`, comma separated.
pub open spec fn spec_ref_columns(n: int) -> Seq<char>
    decreases n,
{
    if n <= 1 {
        "col"@ + spec_digits(1) + " TEXT"@
    } else {
        spec_ref_columns(n - 1) + ", col"@ + spec_digits(n) + " TEXT"@
    }
}

/// The placeholder list `?1, ?2, ...` up to `?N`.
pub open spec fn spec_placeholders(n: int) -> Seq<char>
    decreases n,
{
    if n <= 1 {
        "?"@ + spec_digits(1)
    } else {
        spec_placeholders(n - 1) + ", ?"@ + spec_digits(n)
    }
}

/// The statement creating a reference table of `width` text columns.
pub open spec fn spec_ref_create_stmt(table: Seq<char>, width: int) -> Seq<char> {
    "CREATE TABLE IF NOT EXISTS "@ + table + " ("@ + spec_ref_columns(width) + ")"@
}

/// The statement inserting one row of `width` values.
pub open spec fn spec_ref_insert_stmt(table: Seq<char>, width: int) -> Seq<char> {
    "INSERT INTO "@ + table + " VALUES ("@ + spec_placeholders(width) + ")"@
}

pub fn ref_create_stmt(table: &str, width: usize) -> (r: String)
    requires
        1 <= width,
    ensures
        r@ == spec_ref_create_stmt(table@, width as int),
{
    let mut v: Vec<char> = Vec::new();
    push_str_chars(&mut v, "CREATE TABLE IF NOT EXISTS ");
    push_str_chars(&mut v, table);
    push_str_chars(&mut v, " (");
    let mut k: usize = 1;
    push_str_chars(&mut v, "col");
    let ones = u64_to_chars(1);
    push_chars(&mut v, &ones);
    push_str_chars(&mut v, " TEXT");
    while k < width
        invariant
            1 <= k <= width,
            v@ == "CREATE TABLE IF NOT EXISTS "@ + table@ + " ("@ + spec_ref_columns(k as int),
        decreases width - k,
    {
        k = k + 1;
        push_str_chars(&mut v, ", col");
        let ds = u64_to_chars(k as u64);
        push_chars(&mut v, &ds);
        push_str_chars(&mut v, " TEXT");
        proof {
            assert(v@ =~= "CREATE TABLE IF NOT EXISTS "@ + table@ + " ("@ + spec_ref_columns(
                k as int,
            ));
        }
    }
    push_str_chars(&mut v, ")");
    proof {
        assert(v@ =~= spec_ref_create_stmt(table@, width as int));
    }
    chars_string(&v)
}

pub fn ref_insert_stmt(table: &str, width: usize) -> (r: String)
    requires
        1 <= width,
    ensures
        r@ == spec_ref_insert_stmt(table@, width as int),
{
    let mut v: Vec<char> = Vec::new();
    push_str_chars(&mut v, "INSERT INTO ");
    push_str_chars(&mut v, table);
    push_str_chars(&mut v, " VALUES (");
    push_str_chars(&mut v, "?");
    let ones = u64_to_chars(1);
    push_chars(&mut v, &ones);
    let mut k: usize = 1;
    while k < width
        invariant
            1 <= k <= width,
            v@ == "INSERT INTO "@ + table@ + " VALUES ("@ + spec_placeholders(k as int),
        decreases width - k,
    {
        k = k + 1;
        push_str_chars(&mut v, ", ?");
        let ds = u64_to_chars(k as u64);
        push_chars(&mut v, &ds);
        proof {
            assert(v@ =~= "INSERT INTO "@ + table@ + " VALUES ("@ + spec_placeholders(k as int));
        }
    }
    push_str_chars(&mut v, ")");
    proof {
        assert(v@ =~= spec_ref_insert_stmt(table@, width as int));
    }
    chars_string(&v)
}

/// A row cut or padded with empty text to exactly `width` cells: the
/// policy for reference rows of uneven width.
pub fn normalize_row(row: &Vec<String>, width: usize) -> (r: Vec<String>)
    ensures
        r@.len() == width,
        forall|j: int|
            0 <= j < width ==> (#[trigger] r@[j])@ == if j < row@.len() {
                row@[j]@
            } else {
                Seq::<char>::empty()
            },
{
    let mut r: Vec<String> = Vec::new();
    let mut j: usize = 0;
    while j < width
        invariant
            0 <= j <= width,
            r@.len() == j,
            forall|k: int|
                0 <= k < j ==> (#[trigger] r@[k])@ == if k < row@.len() {
                    row@[k]@
                } else {
                    Seq::<char>::empty()
                },
        decreases width - j,
    {
        if j < row.len() {
            r.push(row[j].clone());
        } else {
            r.push(String::new());
        }
        j = j + 1;
    }
    r
}

/// The column texts of a pivot create statement past the period key.
pub open spec fn spec_pivot_cols(domain: Seq<Seq<char>>) -> Seq<char>
    decreases domain.len(),
{
    if domain.len() == 0 {
        Seq::empty()
    } else {
        ", ["@ + spec_sanitize(domain[0]) + "] REAL"@ + spec_pivot_cols(domain.drop_first())
    }
}

/// The select expressions of a pivot insert statement past the period
/// key: one conditional debit sum per category, defaulting to zero.
pub open spec fn spec_pivot_selects(domain: Seq<Seq<char>>) -> Seq<char>
    decreases domain.len(),
{
    if domain.len() == 0 {
        Seq::empty()
    } else {
        ", COALESCE(SUM(CASE WHEN TIPO = '"@ + spec_sanitize(domain[0])
            + "' THEN Debito ELSE 0 END), 0) AS ["@ + spec_sanitize(domain[0]) + "]"@
            + spec_pivot_selects(domain.drop_first())
    }
}

/// The statement creating a pivot table: the period key column, then
/// one numeric column per category of the domain, in order.
pub open spec fn spec_pivot_create(
    pivot: Seq<char>,
    period: Seq<char>,
    domain: Seq<Seq<char>>,
) -> Seq<char> {
    "CREATE TABLE "@ + pivot + " ("@ + period + " TEXT"@ + spec_pivot_cols(domain) + ")"@
}

/// The statement populating a pivot table, grouped and ordered by the
/// period key ascending.
pub open spec fn spec_pivot_insert(
    pivot: Seq<char>,
    period: Seq<char>,
    domain: Seq<Seq<char>>,
    entries: Seq<char>,
) -> Seq<char> {
    "INSERT INTO "@ + pivot + " SELECT "@ + period + spec_pivot_selects(domain) + " FROM "@
        + entries + " GROUP BY "@ + period + " ORDER BY "@ + period
}

/// The texts of a domain, in order.
pub open spec fn domain_view(domain: Seq<String>) -> Seq<Seq<char>> {
    domain.map_values(|s: String| s@)
}

/// Builds the three statements that rebuild one pivot table: drop,
/// create, populate.
pub fn build_pivot_statements(pivot: &str, period: &str, entries: &str, domain: &Vec<String>) -> (r:
    (String, String, String))
    ensures
        r.0@ == spec_drop_stmt(pivot@),
        r.1@ == spec_pivot_create(pivot@, period@, domain_view(domain@)),
        r.2@ == spec_pivot_insert(pivot@, period@, domain_view(domain@), entries@),
{
    let ghost dv = domain_view(domain@);
    let drop = drop_table_stmt(pivot);
    let mut c: Vec<char> = Vec::new();
    push_str_chars(&mut c, "CREATE TABLE ");
    push_str_chars(&mut c, pivot);
    push_str_chars(&mut c, " (");
    push_str_chars(&mut c, period);
    push_str_chars(&mut c, " TEXT");
    let ghost chead = c@;
    let mut i: usize = 0;
    proof {
        assert(dv.skip(0) =~= dv);
    }
    while i < domain.len()
        invariant
            0 <= i <= domain@.len(),
            dv == domain_view(domain@),
            chead + spec_pivot_cols(dv) == c@ + spec_pivot_cols(dv.skip(i as int)),
        decreases domain@.len() - i,
    {
        let ghost rest = dv.skip(i as int);
        proof {
            assert(rest[0] == dv[i as int]);
            assert(dv[i as int] == domain@[i as int]@);
            assert(rest.drop_first() =~= dv.skip(i + 1));
        }
        push_str_chars(&mut c, ", [");
        let san = sanitize_identifier(domain[i].as_str());
        push_chars(&mut c, &san);
        push_str_chars(&mut c, "] REAL");
        i = i + 1;
    }
    proof {
        assert(dv.skip(dv.len() as int) =~= Seq::<Seq<char>>::empty());
        assert(c@ + Seq::<char>::empty() =~= c@);
    }
    push_str_chars(&mut c, ")");
    proof {
        assert(c@ =~= spec_pivot_create(pivot@, period@, dv));
    }
    let create = chars_string(&c);
    let mut s: Vec<char> = Vec::new();
    push_str_chars(&mut s, "INSERT INTO ");
    push_str_chars(&mut s, pivot);
    push_str_chars(&mut s, " SELECT ");
    push_str_chars(&mut s, period);
    let ghost shead = s@;
    let mut j: usize = 0;
    proof {
        assert(dv.skip(0) =~= dv);
    }
    while j < domain.len()
        invariant
            0 <= j <= domain@.len(),
            dv == domain_view(domain@),
            shead + spec_pivot_selects(dv) == s@ + spec_pivot_selects(dv.skip(j as int)),
        decreases domain@.len() - j,
    {
        let ghost rest = dv.skip(j as int);
        proof {
            assert(rest[0] == dv[j as int]);
            assert(dv[j as int] == domain@[j as int]@);
            assert(rest.drop_first() =~= dv.skip(j + 1));
        }
        push_str_chars(&mut s, ", COALESCE(SUM(CASE WHEN TIPO = '");
        let san = sanitize_identifier(domain[j].as_str());
        push_chars(&mut s, &san);
        push_str_chars(&mut s, "' THEN Debito ELSE 0 END), 0) AS [");
        let san2 = sanitize_identifier(domain[j].as_str());
        push_chars(&mut s, &san2);
        push_str_chars(&mut s, "]");
        j = j + 1;
    }
    proof {
        assert(dv.skip(dv.len() as int) =~= Seq::<Seq<char>>::empty());
        assert(s@ + Seq::<char>::empty() =~= s@);
    }
    push_str_chars(&mut s, " FROM ");
    push_str_chars(&mut s, entries);
    push_str_chars(&mut s, " GROUP BY ");
    push_str_chars(&mut s, period);
    push_str_chars(&mut s, " ORDER BY ");
    push_str_chars(&mut s, period);
    proof {
        assert(s@ =~= spec_pivot_insert(pivot@, period@, dv, entries@));
    }
    let insert = chars_string(&s);
    (drop, create, insert)
}

/// The column names of a pivot table: the period key, then the
/// sanitized categories of the domain, in order.
pub open spec fn spec_pivot_columns(period: Seq<char>, domain: Seq<Seq<char>>) -> Seq<Seq<char>> {
    seq![period] + domain.map_values(|d: Seq<char>| spec_sanitize(d))
}

/// Law: the pivot column set is discovered from the declared category
/// domain alone — the period key first, then exactly one column per
/// declared category, in declaration order. A label that is not in
/// the domain never becomes a column, whatever the transaction rows
/// hold.
pub proof fn lemma_pivot_columns_from_domain(period: Seq<char>, domain: Seq<Seq<char>>)
    ensures
        spec_pivot_columns(period, domain).len() == 1 + domain.len(),
        spec_pivot_columns(period, domain)[0] == period,
        forall|i: int|
            0 <= i < domain.len() ==> spec_pivot_columns(period, domain)[i + 1] == spec_sanitize(
                #[trigger] domain[i],
            ),
{
}

/// Law: rebuilding a pivot is idempotent. The statement plan is a
/// function of the table names, the period key and the category
/// domain alone — equal inputs give the letter-for-letter same plan —
/// and the plan begins by dropping the previous table, so a rerun on
/// identical inputs recreates an identical table: the same column
/// set, and no rows carried over from the earlier build.
pub proof fn lemma_pivot_rebuild_idempotent(
    pivot: Seq<char>,
    period: Seq<char>,
    entries: Seq<char>,
    d1: Seq<Seq<char>>,
    d2: Seq<Seq<char>>,
)
    requires
        d1 == d2,
    ensures
        spec_pivot_create(pivot, period, d1) == spec_pivot_create(pivot, period, d2),
        spec_pivot_insert(pivot, period, d1, entries) == spec_pivot_insert(
            pivot,
            period,
            d2,
            entries,
        ),
        spec_drop_stmt(pivot) == "DROP TABLE IF EXISTS "@ + pivot,
{
}

/// The statement creating the discard archive when absent: the
/// entries table's shape with no rows.
pub open spec fn spec_discard_create_stmt(discarded: Seq<char>, entries: Seq<char>) -> Seq<
    char,
> {
    "CREATE TABLE IF NOT EXISTS "@ + discarded + " AS SELECT * FROM "@ + entries
        + " WHERE 0 = 1"@
}

pub fn discard_create_stmt(discarded: &str, entries: &str) -> (r: String)
    ensures
        r@ == spec_discard_create_stmt(discarded@, entries@),
{
    let mut v: Vec<char> = Vec::new();
    push_str_chars(&mut v, "CREATE TABLE IF NOT EXISTS ");
    push_str_chars(&mut v, discarded);
    push_str_chars(&mut v, " AS SELECT * FROM ");
    push_str_chars(&mut v, entries);
    push_str_chars(&mut v, " WHERE 0 = 1");
    chars_string(&v)
}

/// The statement archiving rows with null key fields into the discard
/// table, so that every cleanup run archives, not only the first.
pub open spec fn spec_discard_insert_stmt(discarded: Seq<char>, entries: Seq<char>) -> Seq<
    char,
> {
    "INSERT INTO "@ + discarded + " SELECT * FROM "@ + entries
        + " WHERE (Data IS NULL OR TIPO IS NULL)"@
}

pub fn discard_insert_stmt(discarded: &str, entries: &str) -> (r: String)
    ensures
        r@ == spec_discard_insert_stmt(discarded@, entries@),
{
    let mut v: Vec<char> = Vec::new();
    push_str_chars(&mut v, "INSERT INTO ");
    push_str_chars(&mut v, discarded);
    push_str_chars(&mut v, " SELECT * FROM ");
    push_str_chars(&mut v, entries);
    push_str_chars(&mut v, " WHERE (Data IS NULL OR TIPO IS NULL)");
    chars_string(&v)
}

#[verifier::external_type_specification]
#[verifier::external_body]
pub struct ExConnection(rusqlite::Connection);

/// Relies on `rusqlite::Connection::open`: opens the database file at
/// the path, creating it when absent. The error is carried as text.
#[verifier::external_body]
fn open_connection(path: &str) -> Result<rusqlite::Connection, String> {
    rusqlite::Connection::open(path).map_err(|e| e.to_string())
}

/// Relies on `rusqlite::Connection::execute` without parameters: runs
/// one statement, returning how many rows it changed.
#[verifier::external_body]
fn exec_sql(conn: &rusqlite::Connection, sql: &str) -> Result<usize, String> {
    conn.execute(sql, []).map_err(|e| e.to_string())
}

/// Relies on `rusqlite::Connection::execute` with
/// `rusqlite::params_from_iter`: runs one statement binding the given
/// text parameters in order.
#[verifier::external_body]
fn exec_sql_params(conn: &rusqlite::Connection, sql: &str, params: &Vec<String>) -> Result<
    usize,
    String,
> {
    conn.execute(sql, rusqlite::params_from_iter(params.iter())).map_err(|e| e.to_string())
}

/// Relies on the `Value` variants of rusqlite: maps each store value
/// to its plain form, one arm per variant. A floating-point value is
/// carried as its decimal text and a blob as the text `BLOB`.
#[verifier::external_body]
fn datum_of(v: rusqlite::types::Value) -> Datum {
    match v {
        rusqlite::types::Value::Null => Datum::Null,
        rusqlite::types::Value::Integer(i) => Datum::Int(i),
        rusqlite::types::Value::Real(f) => Datum::Real(f.to_string()),
        rusqlite::types::Value::Text(s) => Datum::Text(s),
        rusqlite::types::Value::Blob(_) => Datum::Text(String::from("BLOB")),
    }
}

#[verifier::external_type_specification]
#[verifier::external_body]
pub struct ExValue(rusqlite::types::Value);

/// Relies on `prepare`, `query_map` and `get` of rusqlite: runs a
/// query and hands every row back as plain values, each cell through
/// the value conversion above. The error is carried as text.
#[verifier::external_body]
fn query_rows(conn: &rusqlite::Connection, sql: &str) -> Result<Vec<Vec<Datum>>, String> {
    let run = || -> rusqlite::Result<Vec<Vec<Datum>>> {
        let mut stmt = conn.prepare(sql)?;
        let n = stmt.column_count();
        let rows = stmt.query_map([], |row| {
            (0..n).map(|i| row.get(i).map(datum_of)).collect()
        })?;
        rows.collect()
    };
    run().map_err(|e| e.to_string())
}

/// Database manager holding the one store connection of a run.
pub struct DatabaseManager {
    connection: rusqlite::Connection,
}

/// The datum rows of a result matrix.
pub open spec fn datum_mat_view(rows: Seq<Vec<Datum>>) -> Seq<Seq<Datum>> {
    rows.map_values(|r: Vec<Datum>| r@)
}

/// The category domain read from a types query result: the text of
/// the first column of every row that holds text there, in row order.
pub open spec fn spec_domain_of(rows: Seq<Seq<Datum>>, i: int) -> Seq<Seq<char>>
    decreases rows.len() - i,
{
    if i < 0 || i >= rows.len() {
        Seq::empty()
    } else {
        let rest = spec_domain_of(rows, i + 1);
        if rows[i].len() > 0 && rows[i][0] is Text {
            seq![rows[i][0]->Text_0@] + rest
        } else {
            rest
        }
    }
}

/// The labels with later repeats dropped: each label keeps only its
/// first occurrence, given the labels already seen.
pub open spec fn spec_dedup_from(s: Seq<Seq<char>>, seen: Seq<Seq<char>>) -> Seq<Seq<char>>
    decreases s.len(),
{
    if s.len() == 0 {
        Seq::empty()
    } else if seen.contains(s[0]) {
        spec_dedup_from(s.drop_first(), seen)
    } else {
        seq![s[0]] + spec_dedup_from(s.drop_first(), seen.push(s[0]))
    }
}

/// The distinct labels, first occurrences in order.
pub open spec fn spec_dedup(s: Seq<Seq<char>>) -> Seq<Seq<char>> {
    spec_dedup_from(s, Seq::empty())
}

/// Whether a label already stands in the list, compared as text.
fn contains_label(labels: &Vec<String>, candidate: &String) -> (r: bool)
    ensures
        r == domain_view(labels@).contains(candidate@),
{
    let mut j: usize = 0;
    while j < labels.len()
        invariant
            0 <= j <= labels@.len(),
            forall|k: int| 0 <= k < j ==> domain_view(labels@)[k] != candidate@,
        decreases labels@.len() - j,
    {
        if labels[j] == *candidate {
            proof {
                assert(domain_view(labels@)[j as int] == candidate@);
            }
            return true;
        }
        proof {
            assert(domain_view(labels@)[j as int] == labels@[j as int]@);
        }
        j = j + 1;
    }
    proof {
        if domain_view(labels@).contains(candidate@) {
            let w = choose|k: int|
                0 <= k < domain_view(labels@).len() && domain_view(labels@)[k] == candidate@;
            assert(domain_view(labels@)[w] != candidate@);
        }
    }
    false
}

/// Drops repeated labels, keeping first occurrences in order.
fn dedup_labels(labels: Vec<String>) -> (r: Vec<String>)
    ensures
        domain_view(r@) == spec_dedup(domain_view(labels@)),
{
    let ghost lv = domain_view(labels@);
    let mut r: Vec<String> = Vec::new();
    let mut i: usize = 0;
    proof {
        assert(domain_view(r@) =~= Seq::<Seq<char>>::empty());
        assert(lv.skip(0) =~= lv);
    }
    while i < labels.len()
        invariant
            0 <= i <= labels@.len(),
            lv == domain_view(labels@),
            spec_dedup(lv) == domain_view(r@) + spec_dedup_from(
                lv.skip(i as int),
                domain_view(r@),
            ),
        decreases labels@.len() - i,
    {
        let ghost pre = r@;
        let ghost rest = lv.skip(i as int);
        proof {
            assert(rest[0] == lv[i as int]);
            assert(lv[i as int] == labels@[i as int]@);
            assert(rest.drop_first() =~= lv.skip(i + 1));
        }
        if !contains_label(&r, &labels[i]) {
            r.push(labels[i].clone());
            proof {
                let f = |t: String| t@;
                assert(domain_view(r@) =~= pre.map_values(f).push(r@.last()@));
            }
        }
        i = i + 1;
    }
    proof {
        assert(lv.skip(lv.len() as int) =~= Seq::<Seq<char>>::empty());
        assert(domain_view(r@) + Seq::<Seq<char>>::empty() =~= domain_view(r@));
    }
    r
}

/// Collects the category domain from a types query result: the
/// distinct labels, first occurrences in row order.
pub fn domain_of_rows(rows: &Vec<Vec<Datum>>) -> (r: Vec<String>)
    ensures
        domain_view(r@) == spec_dedup(spec_domain_of(datum_mat_view(rows@), 0)),
{
    let ghost m = datum_mat_view(rows@);
    let mut r: Vec<String> = Vec::new();
    let mut i: usize = 0;
    proof {
        assert(domain_view(r@) =~= Seq::<Seq<char>>::empty());
    }
    while i < rows.len()
        invariant
            0 <= i <= rows@.len(),
            m == datum_mat_view(rows@),
            spec_domain_of(m, 0) == domain_view(r@) + spec_domain_of(m, i as int),
        decreases rows@.len() - i,
    {
        let ghost pre = r@;
        let row = &rows[i];
        proof {
            assert(m[i as int] == rows@[i as int]@);
        }
        if row.len() > 0 {
            match &row[0] {
                Datum::Text(s) => {
                    r.push(s.clone());
                },
                _ => {},
            }
        }
        proof {
            let f = |s: String| s@;
            if r@.len() > pre.len() {
                assert(r@.map_values(f) =~= pre.map_values(f).push(r@.last()@));
            } else {
                assert(r@.map_values(f) =~= pre.map_values(f));
            }
        }
        i = i + 1;
    }
    proof {
        assert(spec_domain_of(m, i as int) =~= Seq::<Seq<char>>::empty());
        assert(domain_view(r@) + Seq::<Seq<char>>::empty() =~= domain_view(r@));
    }
    dedup_labels(r)
}

impl DatabaseManager {
    /// Opens the store at the given path.
    pub fn new(db_path: &str) -> (r: Result<DatabaseManager, PdwError>)
        ensures
            r matches Err(e) ==> e matches PdwError::Database(
                DatabaseError::ConnectionFailed { path, .. },
            ) && path@ == db_path@,
    {
        match open_connection(db_path) {
            Ok(connection) => Ok(DatabaseManager { connection }),
            Err(reason) => Err(
                PdwError::Database(
                    DatabaseError::ConnectionFailed { path: db_path.to_owned(), reason },
                ),
            ),
        }
    }

    /// Runs one statement; an error carries the statement text.
    pub fn execute(&self, sql: &str) -> (r: Result<usize, PdwError>)
        ensures
            r matches Err(e) ==> e matches PdwError::Database(
                DatabaseError::SqlExecution { query, .. },
            ) && query@ == sql@,
    {
        match exec_sql(&self.connection, sql) {
            Ok(n) => Ok(n),
            Err(reason) => Err(
                PdwError::Database(DatabaseError::SqlExecution { query: sql.to_owned(), reason }),
            ),
        }
    }

    /// Creates the canonical tables of a run when absent: the general
    /// entries table, the entry types table, the guiding table and the
    /// installments table.
    pub fn create_tables(&self) -> (r: Result<(), PdwError>)
        ensures
            r matches Err(e) ==> e matches PdwError::Database(DatabaseError::SqlExecution { .. }),
    {
        if let Err(e) = self.execute(
            "CREATE TABLE IF NOT EXISTS LANCAMENTOS_GERAIS (Data DATE, DIA_SEMANA TEXT, TIPO TEXT, DESCRICAO TEXT, Credito REAL, Debito REAL, Mes TEXT, Ano TEXT, MES_EXTENSO TEXT, AnoMes TEXT, Origem TEXT)",
        ) {
            return Err(e);
        }
        if let Err(e) = self.execute(
            "CREATE TABLE IF NOT EXISTS TiposLancamentos (Código TEXT, Descrição TEXT)",
        ) {
            return Err(e);
        }
        if let Err(e) = self.execute(
            "CREATE TABLE IF NOT EXISTS GUIDING (TABLE_NAME TEXT, ACCOUNTING TEXT, LOADABLE TEXT)",
        ) {
            return Err(e);
        }
        if let Err(e) = self.execute(
            "CREATE TABLE IF NOT EXISTS PARCELAMENTOS (Data DATE, 'Tipo Lançamento' TEXT, Descricao TEXT, Debito REAL)",
        ) {
            return Err(e);
        }
        Ok(())
    }

    /// Drops the named table if it exists.
    pub fn drop_table(&self, table_name: &str) -> (r: Result<(), PdwError>)
        ensures
            r matches Err(e) ==> e matches PdwError::Database(
                DatabaseError::SqlExecution { query, .. },
            ) && query@ == spec_drop_stmt(table_name@),
    {
        let stmt = drop_table_stmt(table_name);
        match self.execute(stmt.as_str()) {
            Ok(_) => Ok(()),
            Err(e) => Err(e),
        }
    }

    /// Inserts the processed transactions in order, inside one store
    /// transaction, so the batch is all or nothing: the first failing
    /// row rolls the whole batch back and surfaces the table name, the
    /// row index and the cause.
    pub fn insert_transactions(&self, transactions: &Vec<ProcessedTransaction>) -> (r: Result<
        usize,
        PdwError,
    >)
        requires
            forall|i: int|
                0 <= i < transactions@.len() ==> processed_ok(#[trigger] transactions@[i]),
        ensures
            transactions@.len() == 0 ==> r is Ok,
            r matches Ok(n) ==> n == transactions@.len(),
            r matches Err(e) ==> e matches PdwError::Database(_),
            r matches Err(e) ==> (e matches PdwError::Database(
                DatabaseError::DataInsertion { table, reason },
            ) ==> table@ == "LANCAMENTOS_GERAIS"@ && spec_row_reason(
                reason@,
                transactions@.len() as int,
            )),
    {
        if transactions.len() == 0 {
            return Ok(0);
        }
        if let Err(reason) = exec_sql(&self.connection, "BEGIN") {
            return Err(PdwError::Database(DatabaseError::TransactionFailed { reason }));
        }
        let mut count: usize = 0;
        let mut i: usize = 0;
        while i < transactions.len()
            invariant
                0 <= i <= transactions@.len(),
                count == i,
                forall|k: int|
                    0 <= k < transactions@.len() ==> processed_ok(#[trigger] transactions@[k]),
            decreases transactions@.len() - i,
        {
            let params = transaction_params(&transactions[i]);
            match exec_sql_params(
                &self.connection,
                "INSERT INTO LANCAMENTOS_GERAIS (Data, DIA_SEMANA, TIPO, DESCRICAO, Credito, Debito, Mes, Ano, MES_EXTENSO, AnoMes, Origem) VALUES (?1, ?2, ?3, ?4, ?5, ?6, ?7, ?8, ?9, ?10, ?11)",
                &params,
            ) {
                Ok(_) => {},
                Err(cause) => {
                    let _ = exec_sql(&self.connection, "ROLLBACK");
                    let reason = row_reason(i, cause.as_str());
                    proof {
                        assert(spec_row_reason(reason@, transactions@.len() as int)) by {
                            assert(reason@ == "row "@ + crate::text::spec_digits(i as int)
                                + ": "@ + cause@);
                        }
                    }
                    return Err(
                        PdwError::Database(
                            DatabaseError::DataInsertion {
                                table: "LANCAMENTOS_GERAIS".to_owned(),
                                reason,
                            },
                        ),
                    );
                },
            }
            count = count + 1;
            i = i + 1;
        }
        match exec_sql(&self.connection, "COMMIT") {
            Ok(_) => Ok(count),
            Err(reason) => Err(
                PdwError::Database(DatabaseError::TransactionFailed { reason }),
            ),
        }
    }

    /// Inserts reference rows into a table created from the first
    /// row's width; shorter rows are padded with empty text and longer
    /// rows cut, so every row inserts with the schema width. A first
    /// row without cells is refused. The whole load runs inside one
    /// store transaction: a failing row rolls everything back and
    /// surfaces the table name, the row index and the cause.
    pub fn insert_reference_data(&self, table_name: &str, data: &Vec<Vec<String>>) -> (r: Result<
        usize,
        PdwError,
    >)
        ensures
            data@.len() == 0 ==> r is Ok,
            r matches Ok(n) ==> n == data@.len(),
            data@.len() > 0 && data@[0]@.len() == 0 ==> (r matches Err(e) && e matches
                PdwError::Database(DatabaseError::SchemaValidation { .. })),
            r matches Err(e) ==> e matches PdwError::Database(_),
            r matches Err(e) ==> (e matches PdwError::Database(
                DatabaseError::DataInsertion { table, reason },
            ) ==> table@ == table_name@ && spec_row_reason(reason@, data@.len() as int)),
    {
        if data.len() == 0 {
            return Ok(0);
        }
        let width = data[0].len();
        if width == 0 {
            return Err(
                PdwError::Database(
                    DatabaseError::SchemaValidation {
                        reason: "reference data has an empty first row".to_owned(),
                    },
                ),
            );
        }
        if let Err(reason) = exec_sql(&self.connection, "BEGIN") {
            return Err(PdwError::Database(DatabaseError::TransactionFailed { reason }));
        }
        let create = ref_create_stmt(table_name, width);
        if let Err(e) = self.execute(create.as_str()) {
            let _ = exec_sql(&self.connection, "ROLLBACK");
            return Err(e);
        }
        let insert = ref_insert_stmt(table_name, width);
        let mut count: usize = 0;
        let mut i: usize = 0;
        while i < data.len()
            invariant
                0 <= i <= data@.len(),
                count == i,
                data@.len() > 0,
                data@[0]@.len() == width >= 1,
            decreases data@.len() - i,
        {
            let params = normalize_row(&data[i], width);
            match exec_sql_params(&self.connection, insert.as_str(), &params) {
                Ok(_) => {},
                Err(cause) => {
                    let _ = exec_sql(&self.connection, "ROLLBACK");
                    let reason = row_reason(i, cause.as_str());
                    proof {
                        assert(spec_row_reason(reason@, data@.len() as int)) by {
                            assert(reason@ == "row "@ + crate::text::spec_digits(i as int)
                                + ": "@ + cause@);
                        }
                    }
                    return Err(
                        PdwError::Database(
                            DatabaseError::DataInsertion { table: table_name.to_owned(), reason },
                        ),
                    );
                },
            }
            count = count + 1;
            i = i + 1;
        }
        match exec_sql(&self.connection, "COMMIT") {
            Ok(_) => Ok(count),
            Err(reason) => Err(
                PdwError::Database(DatabaseError::TransactionFailed { reason }),
            ),
        }
    }

    /// Runs a query, returning its rows as plain values.
    pub fn execute_query(&self, sql: &str) -> (r: Result<Vec<Vec<Datum>>, PdwError>)
        ensures
            r matches Err(e) ==> e matches PdwError::Database(
                DatabaseError::SqlExecution { query, .. },
            ) && query@ == sql@,
    {
        match query_rows(&self.connection, sql) {
            Ok(rows) => Ok(rows),
            Err(reason) => Err(
                PdwError::Database(DatabaseError::SqlExecution { query: sql.to_owned(), reason }),
            ),
        }
    }

    /// Rebuilds one pivot table from the category domain: drop, create
    /// with one column per category, populate grouped by the period key.
    fn rebuild_pivot(
        &self,
        entries_table: &str,
        pivot_table: &str,
        period: &str,
        domain: &Vec<String>,
    ) -> (r: Result<(), PdwError>)
        ensures
            r matches Err(e) ==> e matches PdwError::Database(DatabaseError::SqlExecution { .. }),
    {
        let (drop, create, insert) = build_pivot_statements(
            pivot_table,
            period,
            entries_table,
            domain,
        );
        if let Err(e) = self.execute(drop.as_str()) {
            return Err(e);
        }
        if let Err(e) = self.execute(create.as_str()) {
            return Err(e);
        }
        if let Err(e) = self.execute(insert.as_str()) {
            return Err(e);
        }
        Ok(())
    }

    /// Rebuilds the monthly pivot, keyed by year/month.
    fn create_monthly_pivot(
        &self,
        entries_table: &str,
        pivot_table: &str,
        domain: &Vec<String>,
    ) -> (r: Result<(), PdwError>)
        ensures
            r matches Err(e) ==> e matches PdwError::Database(DatabaseError::SqlExecution { .. }),
    {
        self.rebuild_pivot(entries_table, pivot_table, "AnoMes", domain)
    }

    /// Rebuilds the annual pivot, keyed by year.
    fn create_annual_pivot(
        &self,
        entries_table: &str,
        pivot_table: &str,
        domain: &Vec<String>,
    ) -> (r: Result<(), PdwError>)
        ensures
            r matches Err(e) ==> e matches PdwError::Database(DatabaseError::SqlExecution { .. }),
    {
        self.rebuild_pivot(entries_table, pivot_table, "Ano", domain)
    }

    /// Builds both pivot tables: discovers the category domain from
    /// the types reference table, then rebuilds the monthly and the
    /// annual cross-tab against that same domain.
    pub fn create_pivot_tables(
        &self,
        entries_table: &str,
        types_table: &str,
        full_pivot_table: &str,
        annual_pivot_table: &str,
    ) -> (r: Result<(), PdwError>)
        ensures
            r matches Err(e) ==> e matches PdwError::Database(DatabaseError::SqlExecution { .. }),
    {
        let types_query = join2("SELECT Descrição FROM ", types_table);
        let rows = match self.execute_query(types_query.as_str()) {
            Ok(rows) => rows,
            Err(e) => {
                return Err(e);
            },
        };
        let domain = domain_of_rows(&rows);
        if let Err(e) = self.create_monthly_pivot(entries_table, full_pivot_table, &domain) {
            return Err(e);
        }
        self.create_annual_pivot(entries_table, annual_pivot_table, &domain)
    }

    /// Deletes rows with null key fields (optionally archiving them
    /// first) and recreates the origins view over the sheets flagged
    /// both loadable and accounting.
    pub fn validate_and_clean_data(
        &self,
        entries_table: &str,
        types_table: &str,
        save_discarded: bool,
        discarded_table: &str,
    ) -> (r: Result<(), PdwError>)
        ensures
            r matches Err(e) ==> e matches PdwError::Database(DatabaseError::SqlExecution { .. }),
    {
        if save_discarded {
            let create = discard_create_stmt(discarded_table, entries_table);
            if let Err(e) = self.execute(create.as_str()) {
                return Err(e);
            }
            let archive = discard_insert_stmt(discarded_table, entries_table);
            if let Err(e) = self.execute(archive.as_str()) {
                return Err(e);
            }
        }
        let del_entries = join3(
            "DELETE FROM ",
            entries_table,
            " WHERE (Data IS NULL OR TIPO IS NULL)",
        );
        if let Err(e) = self.execute(del_entries.as_str()) {
            return Err(e);
        }
        let del_types = join3(
            "DELETE FROM ",
            types_table,
            " WHERE (Código IS NULL OR Descrição IS NULL)",
        );
        if let Err(e) = self.execute(del_types.as_str()) {
            return Err(e);
        }
        if let Err(e) = self.execute(
            "DELETE FROM PARCELAMENTOS WHERE (DATA IS NULL OR \"Tipo Lançamento\" IS NULL)",
        ) {
            return Err(e);
        }
        if let Err(e) = self.execute("DROP VIEW IF EXISTS Origens") {
            return Err(e);
        }
        if let Err(e) = self.execute(
            "CREATE VIEW Origens AS SELECT TABLE_NAME as nome FROM GUIDING WHERE LOADABLE = 'X' AND ACCOUNTING = 'X'",
        ) {
            return Err(e);
        }
        Ok(())
    }
}

} // verus!
