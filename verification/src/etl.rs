//! The transformation stage: raw extracted transactions become
//! canonical enriched records, or are dropped. A record is dropped
//! exactly when it has no date or its category trims to nothing.
//! Description text is cleaned by a fixed substitution table, amounts
//! are rounded half-away-from-zero to cents, and the calendar fields
//! (weekday and month labels in the target locale, zero-padded month,
//! year, year/month key) derive from the date alone. The stage's
//! output is sorted by date descending.

use vstd::prelude::*;

use crate::config::PdwConfig;
use crate::database::{DatabaseManager, ProcessedTransaction, processed_ok};
use crate::date::{Date, date_le, date_le_exec, valid_date, weekday_of, weekday_index};
use crate::error::{DatabaseError, EtlError, PdwError};
use crate::excel::{SheetData, Transaction, transaction_ok};
use crate::money::{spec_round_to_cents, round_to_cents};
use crate::text::{
    chars_string,
    push_chars,
    push_str_chars,
    spec_digits,
    spec_trim,
    spec_zero_pad,
    str_chars,
    trim_chars,
    u64_to_chars,
    u64_zero_pad,
};

verus! {

/// What one description character becomes: the separators `;` and `,`
/// turn into `|`, the therefore sign into a spaced token, the accented
/// `s` into its plain form, and every other character stands.
pub open spec fn repl_char(c: char) -> Seq<char> {
    if c == ';' || c == ',' {
        seq!['|']
    } else if c == '∴' {
        seq![' ', '.', '\'', '.', ' ']
    } else if c == 'ś' {
        seq!['s']
    } else {
        seq![c]
    }
}

/// The description cleanup: every character replaced by its
/// substitution, in order.
pub open spec fn spec_clean(s: Seq<char>) -> Seq<char>
    decreases s.len(),
{
    if s.len() == 0 {
        Seq::empty()
    } else {
        repl_char(s[0]) + spec_clean(s.drop_first())
    }
}

/// Applies the description substitution table.
fn clean_chars(s: &Vec<char>) -> (r: Vec<char>)
    ensures
        r@ == spec_clean(s@),
{
    let mut r: Vec<char> = Vec::new();
    let mut i: usize = 0;
    proof {
        assert(s@.skip(0) =~= s@);
        assert(r@ + spec_clean(s@) =~= spec_clean(s@));
    }
    while i < s.len()
        invariant
            0 <= i <= s@.len(),
            spec_clean(s@) == r@ + spec_clean(s@.skip(i as int)),
        decreases s@.len() - i,
    {
        let ghost rest = s@.skip(i as int);
        proof {
            assert(rest[0] == s@[i as int]);
            assert(rest.drop_first() =~= s@.skip(i + 1));
        }
        let ghost pre = r@;
        let c = s[i];
        if c == ';' || c == ',' {
            r.push('|');
            assert(r@ =~= pre + repl_char(rest[0]));
        } else if c == '∴' {
            push_str_chars(&mut r, " .'. ");
            proof {
                reveal_strlit(" .'. ");
                assert(" .'. "@ =~= repl_char(rest[0]));
            }
        } else if c == 'ś' {
            r.push('s');
            assert(r@ =~= pre + repl_char(rest[0]));
        } else {
            r.push(c);
            assert(r@ =~= pre + repl_char(rest[0]));
        }
        i = i + 1;
    }
    proof {
        assert(s@.skip(s@.len() as int) =~= Seq::<char>::empty());
        assert(r@ + Seq::<char>::empty() =~= r@);
    }
    r
}

/// The weekday label in the target locale, by weekday index: 0 is
/// Saturday through 6 Friday.
pub open spec fn spec_weekday_label(w: int) -> Seq<char> {
    if w == 2 {
        "Segunda-feira"@
    } else if w == 3 {
        "Terça-feira"@
    } else if w == 4 {
        "Quarta-feira"@
    } else if w == 5 {
        "Quinta-feira"@
    } else if w == 6 {
        "Sexta-feira"@
    } else if w == 0 {
        "Sábado"@
    } else {
        "Domingo"@
    }
}

/// The month label: the zero-padded number and the month name, or the
/// sentinel label for a number outside one to twelve.
pub open spec fn spec_month_label(m: int) -> Seq<char> {
    if m == 1 {
        "01-Janeiro"@
    } else if m == 2 {
        "02-Fevereiro"@
    } else if m == 3 {
        "03-Março"@
    } else if m == 4 {
        "04-Abril"@
    } else if m == 5 {
        "05-Maio"@
    } else if m == 6 {
        "06-Junho"@
    } else if m == 7 {
        "07-Julho"@
    } else if m == 8 {
        "08-Agosto"@
    } else if m == 9 {
        "09-Setembro"@
    } else if m == 10 {
        "10-Outubro"@
    } else if m == 11 {
        "11-Novembro"@
    } else if m == 12 {
        "12-Dezembro"@
    } else {
        "00-Inválido"@
    }
}

/// The year/month grouping key: the year and the zero-padded month.
pub open spec fn spec_year_month(d: Date) -> Seq<char> {
    spec_digits(d.year as int) + seq!['/'] + spec_zero_pad(d.month as int, 2)
}

/// The text of an optional field, absent meaning empty.
pub open spec fn spec_opt_text(o: Option<String>) -> Seq<char> {
    match o {
        Some(s) => s@,
        None => Seq::empty(),
    }
}

/// The value of an optional amount, absent meaning zero.
pub open spec fn spec_opt_amount(o: Option<i64>) -> int {
    match o {
        Some(v) => v as int,
        None => 0,
    }
}

/// Whether enrichment drops a raw transaction: no date, or a category
/// that trims to nothing.
pub open spec fn spec_drops(t: Transaction) -> bool {
    t.date is None || spec_trim(spec_opt_text(t.transaction_type)).len() == 0
}

/// The plain view of an enriched record.
pub open spec fn processed_view(p: ProcessedTransaction) -> (
    Date,
    Seq<char>,
    Seq<char>,
    Seq<char>,
    int,
    int,
    Seq<char>,
    Seq<char>,
    Seq<char>,
    Seq<char>,
    Seq<char>,
) {
    (
        p.date,
        p.day_of_week@,
        p.transaction_type@,
        p.description@,
        p.credit as int,
        p.debit as int,
        p.month@,
        p.year@,
        p.month_name@,
        p.year_month@,
        p.origin@,
    )
}

/// What a kept transaction enriches to.
pub open spec fn spec_enrich_view(t: Transaction) -> (
    Date,
    Seq<char>,
    Seq<char>,
    Seq<char>,
    int,
    int,
    Seq<char>,
    Seq<char>,
    Seq<char>,
    Seq<char>,
    Seq<char>,
) {
    let d = t.date->0;
    (
        d,
        spec_weekday_label(weekday_of(d)),
        spec_trim(spec_opt_text(t.transaction_type)),
        spec_clean(spec_trim(spec_opt_text(t.description))),
        spec_round_to_cents(spec_opt_amount(t.credit)),
        spec_round_to_cents(spec_opt_amount(t.debit)),
        spec_zero_pad(d.month as int, 2),
        spec_digits(d.year as int),
        spec_month_label(d.month as int),
        spec_year_month(d),
        t.origin@,
    )
}

/// The enriched views of the kept transactions, in input order.
pub open spec fn spec_enriched_list(ts: Seq<Transaction>) -> Seq<
    (
        Date,
        Seq<char>,
        Seq<char>,
        Seq<char>,
        int,
        int,
        Seq<char>,
        Seq<char>,
        Seq<char>,
        Seq<char>,
        Seq<char>,
    ),
>
    decreases ts.len(),
{
    if ts.len() == 0 {
        Seq::empty()
    } else {
        (if spec_drops(ts[0]) {
            Seq::empty()
        } else {
            seq![spec_enrich_view(ts[0])]
        }) + spec_enriched_list(ts.drop_first())
    }
}

/// Sorted by date, most recent first.
pub open spec fn sorted_desc(s: Seq<ProcessedTransaction>) -> bool {
    forall|i: int, j: int|
        0 <= i < j < s.len() ==> date_le((#[trigger] s[j]).date, (#[trigger] s[i]).date)
}

/// Sorts enriched records by date descending, by repeatedly moving
/// the earliest remaining latest-dated record to the output; records
/// of equal date therefore keep their input order.
fn sort_by_date_desc(input: Vec<ProcessedTransaction>) -> (r: Vec<ProcessedTransaction>)
    requires
        forall|k: int| 0 <= k < input@.len() ==> processed_ok(#[trigger] input@[k]),
    ensures
        sorted_desc(r@),
        r@.len() == input@.len(),
        r@.map_values(|p: ProcessedTransaction| processed_view(p)).to_multiset() == input@
            .map_values(|p: ProcessedTransaction| processed_view(p)).to_multiset(),
        forall|k: int| 0 <= k < r@.len() ==> processed_ok(#[trigger] r@[k]),
{
    broadcast use vstd::seq_lib::group_to_multiset_ensures;

    let ghost f = |p: ProcessedTransaction| processed_view(p);
    let mut v = input;
    let mut r: Vec<ProcessedTransaction> = Vec::new();
    while v.len() > 0
        invariant
            r@.len() + v@.len() == input@.len(),
            r@.map_values(|p: ProcessedTransaction| processed_view(p)).to_multiset().add(
                v@.map_values(|p: ProcessedTransaction| processed_view(p)).to_multiset(),
            ) == input@.map_values(|p: ProcessedTransaction| processed_view(p)).to_multiset(),
            sorted_desc(r@),
            forall|i: int, j: int|
                0 <= i < r@.len() && 0 <= j < v@.len() ==> date_le(
                    (#[trigger] v@[j]).date,
                    (#[trigger] r@[i]).date,
                ),
            forall|k: int| 0 <= k < r@.len() ==> processed_ok(#[trigger] r@[k]),
            forall|k: int| 0 <= k < v@.len() ==> processed_ok(#[trigger] v@[k]),
        decreases v@.len(),
    {
        let mut best: usize = 0;
        let mut j: usize = 1;
        while j < v.len()
            invariant
                0 <= best < j <= v@.len(),
                v@.len() > 0,
                forall|k: int| 0 <= k < j ==> date_le((#[trigger] v@[k]).date, v@[best as int].date),
            decreases v@.len() - j,
        {
            if !date_le_exec(&v[j].date, &v[best].date) {
                best = j;
            }
            j = j + 1;
        }
        let ghost pre_v = v@;
        let ghost pre_r = r@;
        let t = v.remove(best);
        r.push(t);
        proof {
            let fm = |p: ProcessedTransaction| processed_view(p);
            assert(r@ =~= pre_r.push(t));
            assert(r@.map_values(fm) =~= pre_r.map_values(fm).push(fm(t)));
            assert(v@.map_values(fm) =~= pre_v.map_values(fm).remove(best as int));
            assert(pre_v.map_values(fm)[best as int] == fm(t));
            vstd::seq_lib::to_multiset_build(pre_r.map_values(fm), fm(t));
            assert(r@.map_values(fm).to_multiset() =~= pre_r.map_values(fm).to_multiset().insert(
                fm(t),
            ));
            vstd::seq_lib::to_multiset_remove(pre_v.map_values(fm), best as int);
            assert(v@.map_values(fm).to_multiset() =~= pre_v.map_values(fm).to_multiset().remove(
                fm(t),
            ));
            pre_v.map_values(fm).to_multiset_ensures();
            assert(pre_v.map_values(fm).to_multiset().count(fm(t)) > 0) by {
                assert(pre_v.map_values(fm)[best as int] == fm(t));
                assert(pre_v.map_values(fm).contains(fm(t)));
            }
            assert(r@.map_values(fm).to_multiset().add(v@.map_values(fm).to_multiset()) =~= pre_r
                .map_values(fm).to_multiset().add(pre_v.map_values(fm).to_multiset()));
            assert(forall|k: int|
                0 <= k < v@.len() ==> date_le((#[trigger] v@[k]).date, t.date)) by {
                assert(forall|k: int|
                    0 <= k < pre_v.len() ==> date_le((#[trigger] pre_v[k]).date, t.date));
            }
        }
    }
    proof {
        let fm = |p: ProcessedTransaction| processed_view(p);
        assert(v@.map_values(fm) =~= Seq::<
            (
                Date,
                Seq<char>,
                Seq<char>,
                Seq<char>,
                int,
                int,
                Seq<char>,
                Seq<char>,
                Seq<char>,
                Seq<char>,
                Seq<char>,
            ),
        >::empty());
        assert(r@.map_values(fm).to_multiset().add(v@.map_values(fm).to_multiset()) =~= r@
            .map_values(fm).to_multiset());
    }
    r
}

/// ETL pipeline orchestrator.
pub struct EtlPipeline {
    pub config: PdwConfig,
    pub database: DatabaseManager,
}

impl EtlPipeline {
    /// Creates the pipeline: opens the store at the configured path.
    pub fn new(config: PdwConfig) -> (r: Result<EtlPipeline, PdwError>)
        ensures
            r matches Err(e) ==> e matches PdwError::Database(
                DatabaseError::ConnectionFailed { .. },
            ),
    {
        let db_path = config.get_database_path();
        match DatabaseManager::new(db_path.as_str()) {
            Ok(database) => Ok(EtlPipeline { config, database }),
            Err(e) => Err(e),
        }
    }

    /// The configuration of this run.
    pub fn config(&self) -> (r: &PdwConfig)
        ensures
            *r == self.config,
    {
        &self.config
    }

    /// The weekday label of a date in the target locale.
    pub fn get_day_of_week_portuguese(&self, date: Date) -> (r: String)
        requires
            valid_date(date),
        ensures
            r@ == spec_weekday_label(weekday_of(date)),
    {
        let w = weekday_index(&date);
        if w == 2 {
            "Segunda-feira".to_owned()
        } else if w == 3 {
            "Terça-feira".to_owned()
        } else if w == 4 {
            "Quarta-feira".to_owned()
        } else if w == 5 {
            "Quinta-feira".to_owned()
        } else if w == 6 {
            "Sexta-feira".to_owned()
        } else if w == 0 {
            "Sábado".to_owned()
        } else {
            "Domingo".to_owned()
        }
    }

    /// The month label of a month number; out of range, the sentinel.
    pub fn get_month_name_portuguese(&self, month: u32) -> (r: String)
        ensures
            r@ == spec_month_label(month as int),
    {
        if month == 1 {
            "01-Janeiro".to_owned()
        } else if month == 2 {
            "02-Fevereiro".to_owned()
        } else if month == 3 {
            "03-Março".to_owned()
        } else if month == 4 {
            "04-Abril".to_owned()
        } else if month == 5 {
            "05-Maio".to_owned()
        } else if month == 6 {
            "06-Junho".to_owned()
        } else if month == 7 {
            "07-Julho".to_owned()
        } else if month == 8 {
            "08-Agosto".to_owned()
        } else if month == 9 {
            "09-Setembro".to_owned()
        } else if month == 10 {
            "10-Outubro".to_owned()
        } else if month == 11 {
            "11-Novembro".to_owned()
        } else if month == 12 {
            "12-Dezembro".to_owned()
        } else {
            "00-Inválido".to_owned()
        }
    }

    /// Enriches a single raw transaction, or drops it. The record is
    /// dropped exactly when it has no date or its category trims to
    /// nothing; enrichment itself never fails.
    pub fn process_single_transaction(&self, transaction: Transaction) -> (r: Result<
        Option<ProcessedTransaction>,
        PdwError,
    >)
        requires
            transaction_ok(transaction),
        ensures
            r is Ok,
            r matches Ok(opt) ==> ((opt is None) <==> spec_drops(transaction)),
            r matches Ok(opt) ==> (opt matches Some(p) ==> processed_view(p) == spec_enrich_view(
                transaction,
            ) && processed_ok(p)),
    {
        let date = match transaction.date {
            Some(d) => d,
            None => {
                return Ok(None);
            },
        };
        let type_chars = match &transaction.transaction_type {
            Some(t) => str_chars(t.as_str()),
            None => Vec::new(),
        };
        proof {
            assert(type_chars@ == spec_opt_text(transaction.transaction_type));
        }
        let trimmed_type = trim_chars(&type_chars);
        if trimmed_type.len() == 0 {
            return Ok(None);
        }
        let desc_chars = match &transaction.description {
            Some(d) => str_chars(d.as_str()),
            None => Vec::new(),
        };
        proof {
            assert(desc_chars@ == spec_opt_text(transaction.description));
        }
        let trimmed_desc = trim_chars(&desc_chars);
        let cleaned_desc = clean_chars(&trimmed_desc);
        let credit_micros: i64 = match transaction.credit {
            Some(c) => c,
            None => 0,
        };
        let debit_micros: i64 = match transaction.debit {
            Some(d) => d,
            None => 0,
        };
        let credit = round_to_cents(credit_micros);
        let debit = round_to_cents(debit_micros);
        let day_of_week = self.get_day_of_week_portuguese(date);
        let month_cs = u64_zero_pad(date.month as u64, 2);
        let year_cs = u64_to_chars(date.year as u64);
        let month_name = self.get_month_name_portuguese(date.month);
        let mut ym: Vec<char> = Vec::new();
        push_chars(&mut ym, &year_cs);
        ym.push('/');
        push_chars(&mut ym, &month_cs);
        proof {
            assert(ym@ =~= spec_year_month(date));
        }
        Ok(
            Some(
                ProcessedTransaction {
                    date,
                    day_of_week,
                    transaction_type: chars_string(&trimmed_type),
                    description: chars_string(&cleaned_desc),
                    credit,
                    debit,
                    month: chars_string(&month_cs),
                    year: chars_string(&year_cs),
                    month_name,
                    year_month: chars_string(&ym),
                    origin: transaction.origin.clone(),
                },
            ),
        )
    }

    /// Transforms raw transactions into enriched records: records
    /// without a date or category are dropped, the rest enriched, and
    /// the whole output sorted by date descending (records of equal
    /// date keeping their input order). This stage only filters; it
    /// never fails.
    pub fn transform_transactions(&self, transactions: Vec<Transaction>) -> (r: Result<
        Vec<ProcessedTransaction>,
        PdwError,
    >)
        requires
            forall|k: int|
                0 <= k < transactions@.len() ==> transaction_ok(#[trigger] transactions@[k]),
        ensures
            r is Ok,
            r matches Ok(out) ==> sorted_desc(out@) && out@.map_values(
                |p: ProcessedTransaction| processed_view(p),
            ).to_multiset() == spec_enriched_list(transactions@).to_multiset() && (forall|k: int|
                0 <= k < out@.len() ==> processed_ok(#[trigger] out@[k])),
    {
        let ghost orig = transactions@;
        let mut v = transactions;
        let mut processed: Vec<ProcessedTransaction> = Vec::new();
        proof {
            assert(processed@.map_values(|p: ProcessedTransaction| processed_view(p))
                + spec_enriched_list(v@) =~= spec_enriched_list(orig));
        }
        while v.len() > 0
            invariant
                spec_enriched_list(orig) == processed@.map_values(
                    |p: ProcessedTransaction| processed_view(p),
                ) + spec_enriched_list(v@),
                forall|k: int| 0 <= k < v@.len() ==> transaction_ok(#[trigger] v@[k]),
                forall|k: int|
                    0 <= k < processed@.len() ==> processed_ok(#[trigger] processed@[k]),
            decreases v@.len(),
        {
            let ghost pre_v = v@;
            let ghost pre_p = processed@;
            let t = v.remove(0);
            proof {
                assert(v@ =~= pre_v.drop_first());
            }
            match self.process_single_transaction(t) {
                Ok(opt) => {
                    match opt {
                        Some(p) => {
                            processed.push(p);
                            proof {
                                let fm = |q: ProcessedTransaction| processed_view(q);
                                assert(processed@.map_values(fm) =~= pre_p.map_values(fm).push(
                                    fm(p),
                                ));
                                assert(seq![spec_enrich_view(pre_v[0])] + spec_enriched_list(v@)
                                    =~= seq![fm(p)] + spec_enriched_list(v@));
                                assert(pre_p.map_values(fm).push(fm(p)) + spec_enriched_list(v@)
                                    =~= pre_p.map_values(fm) + (seq![fm(p)] + spec_enriched_list(
                                    v@,
                                )));
                            }
                        },
                        None => {
                            proof {
                                let fm = |q: ProcessedTransaction| processed_view(q);
                                assert(Seq::<
                                    (
                                        Date,
                                        Seq<char>,
                                        Seq<char>,
                                        Seq<char>,
                                        int,
                                        int,
                                        Seq<char>,
                                        Seq<char>,
                                        Seq<char>,
                                        Seq<char>,
                                        Seq<char>,
                                    ),
                                >::empty() + spec_enriched_list(v@) =~= spec_enriched_list(v@));
                            }
                        },
                    }
                },
                Err(e) => {
                    return Err(e);
                },
            }
        }
        proof {
            let fm = |q: ProcessedTransaction| processed_view(q);
            assert(spec_enriched_list(v@) =~= Seq::<
                (
                    Date,
                    Seq<char>,
                    Seq<char>,
                    Seq<char>,
                    int,
                    int,
                    Seq<char>,
                    Seq<char>,
                    Seq<char>,
                    Seq<char>,
                    Seq<char>,
                ),
            >::empty());
            assert(processed@.map_values(fm) + spec_enriched_list(v@) =~= processed@.map_values(
                fm,
            ));
        }
        let out = sort_by_date_desc(processed);
        Ok(out)
    }

    /// Runs the loading phase over classified sheet contents: drops
    /// the previous entries table, creates the canonical tables, loads
    /// each enabled sheet by its kind, transforms and inserts the
    /// collected transactions, then cleans invalid rows and recreates
    /// the origins view.
    pub fn execute_data_loading(&self, sheets: &Vec<SheetData>) -> (r: Result<(), PdwError>)
        requires
            forall|s: int|
                0 <= s < sheets@.len() ==> crate::excel::matrix_ok(
                    crate::excel::mat_view((#[trigger] sheets@[s]).data@),
                ),
        ensures
            r matches Err(e) ==> e matches PdwError::Database(_),
    {
        if let Err(e) = self.database.drop_table(
            self.config.settings.general_entries_table.as_str(),
        ) {
            return Err(e);
        }
        if let Err(e) = self.database.create_tables() {
            return Err(e);
        }
        let mut all_transactions: Vec<Transaction> = Vec::new();
        let mut i: usize = 0;
        while i < sheets.len()
            invariant
                0 <= i <= sheets@.len(),
                forall|s: int|
                    0 <= s < sheets@.len() ==> crate::excel::matrix_ok(
                        crate::excel::mat_view((#[trigger] sheets@[s]).data@),
                    ),
                forall|k: int|
                    0 <= k < all_transactions@.len() ==> transaction_ok(
                        #[trigger] all_transactions@[k],
                    ),
            decreases sheets@.len() - i,
        {
            let sheet = &sheets[i];
            if sheet.is_loadable {
                if sheet.is_accounting {
                    let mut txns = crate::excel::read_accounting_sheet(
                        &sheet.data,
                        sheet.name.as_str(),
                    );
                    while txns.len() > 0
                        invariant
                            forall|k: int|
                                0 <= k < txns@.len() ==> transaction_ok(#[trigger] txns@[k]),
                            forall|k: int|
                                0 <= k < all_transactions@.len() ==> transaction_ok(
                                    #[trigger] all_transactions@[k],
                                ),
                        decreases txns@.len(),
                    {
                        let t = txns.remove(0);
                        all_transactions.push(t);
                    }
                } else {
                    let rows = crate::excel::read_reference_sheet(&sheet.data);
                    match self.database.insert_reference_data(sheet.name.as_str(), &rows) {
                        Ok(_) => {},
                        Err(e) => {
                            return Err(e);
                        },
                    }
                }
            }
            i = i + 1;
        }
        let processed = match self.transform_transactions(all_transactions) {
            Ok(p) => p,
            Err(e) => {
                return Err(e);
            },
        };
        if let Err(e) = self.database.insert_transactions(&processed) {
            return Err(e);
        }
        if let Err(e) = self.database.validate_and_clean_data(
            self.config.settings.general_entries_table.as_str(),
            self.config.settings.types_of_entries.as_str(),
            self.config.settings.save_discarted_data,
            self.config.settings.discarted_data_table.as_str(),
        ) {
            return Err(e);
        }
        Ok(())
    }

    /// Rebuilds both pivot tables against the configured names.
    pub fn create_pivot_tables(&self) -> (r: Result<(), PdwError>)
        ensures
            r matches Err(e) ==> e matches PdwError::Database(_),
    {
        self.database.create_pivot_tables(
            self.config.settings.general_entries_table.as_str(),
            self.config.settings.types_of_entries.as_str(),
            self.config.settings.full_pivot_table.as_str(),
            self.config.settings.anual_pivot_table.as_str(),
        )
    }

    /// Derives the summary tables: the period-grouped progress count,
    /// the period/origin, year/origin and origin aggregates, and the
    /// installment summary.
    pub fn generate_reports(&self) -> (r: Result<(), PdwError>)
        ensures
            r matches Err(e) ==> e matches PdwError::Etl(EtlError::TransformationFailed { .. }),
    {
        if let Err(e) = self.create_daily_progress() {
            return Err(e);
        }
        if let Err(e) = self.create_monthly_summaries() {
            return Err(e);
        }
        if let Err(e) = self.create_installment_summaries() {
            return Err(e);
        }
        Ok(())
    }

    /// Runs one derived-table statement, naming the stage on failure.
    fn run_summary_stmt(&self, stmt: &str, stage: &str) -> (r: Result<(), PdwError>)
        ensures
            r matches Err(e) ==> e matches PdwError::Etl(
                EtlError::TransformationFailed { stage: s, .. },
            ) && s@ == stage@,
    {
        match self.database.execute(stmt) {
            Ok(_) => Ok(()),
            Err(e) => {
                let reason = match e {
                    PdwError::Database(DatabaseError::SqlExecution { reason, .. }) => reason,
                    _ => String::new(),
                };
                Err(
                    PdwError::Etl(
                        EtlError::TransformationFailed { stage: stage.to_owned(), reason },
                    ),
                )
            },
        }
    }

    /// Creates the daily progress table: a count per date with a
    /// running cumulative count, date descending.
    fn create_daily_progress(&self) -> (r: Result<(), PdwError>)
        ensures
            r matches Err(e) ==> e matches PdwError::Etl(
                EtlError::TransformationFailed { stage, .. },
            ) && stage@ == "daily_progress"@,
    {
        let stmt = build_daily_progress_stmt(
            self.config.settings.dayly_progress.as_str(),
            self.config.settings.general_entries_table.as_str(),
        );
        self.run_summary_stmt(stmt.as_str(), "daily_progress")
    }

    /// Creates the monthly, annual and overall credit/debit summaries
    /// grouped by period and origin.
    fn create_monthly_summaries(&self) -> (r: Result<(), PdwError>)
        ensures
            r matches Err(e) ==> e matches PdwError::Etl(EtlError::TransformationFailed { .. }),
    {
        let base = self.config.settings.monthly_summaties.as_str();
        let entries = self.config.settings.general_entries_table.as_str();
        let monthly = build_monthly_summary_stmt(base, entries);
        if let Err(e) = self.run_summary_stmt(monthly.as_str(), "monthly_summaries") {
            return Err(e);
        }
        let annual = build_annual_summary_stmt(base, entries);
        if let Err(e) = self.run_summary_stmt(annual.as_str(), "annual_summaries") {
            return Err(e);
        }
        let full = build_full_summary_stmt(base, entries);
        if let Err(e) = self.run_summary_stmt(full.as_str(), "full_summaries") {
            return Err(e);
        }
        Ok(())
    }

    /// Creates the installment summary grouped by calendar month from
    /// the installments source table.
    fn create_installment_summaries(&self) -> (r: Result<(), PdwError>)
        ensures
            r matches Err(e) ==> e matches PdwError::Etl(
                EtlError::TransformationFailed { stage, .. },
            ) && stage@ == "installment_summaries"@,
    {
        let stmt = build_installment_summary_stmt(
            self.config.settings.out_res_pmnt_tab.as_str(),
            self.config.settings.splt_paymnt_tab.as_str(),
        );
        self.run_summary_stmt(stmt.as_str(), "installment_summaries")
    }
}

/// The statement deriving the daily progress table.
pub fn build_daily_progress_stmt(progress: &str, entries: &str) -> (r: String)
    ensures
        r@ == "CREATE TABLE IF NOT EXISTS "@ + progress@
            + " AS SELECT Data, COUNT(*) as Contagem, SUM(COUNT(*)) OVER (ORDER BY Data) as 'Contagem Acumulada' FROM "@
            + entries@ + " GROUP BY Data ORDER BY Data DESC"@,
{
    let mut v: Vec<char> = Vec::new();
    push_str_chars(&mut v, "CREATE TABLE IF NOT EXISTS ");
    push_str_chars(&mut v, progress);
    push_str_chars(
        &mut v,
        " AS SELECT Data, COUNT(*) as Contagem, SUM(COUNT(*)) OVER (ORDER BY Data) as 'Contagem Acumulada' FROM ",
    );
    push_str_chars(&mut v, entries);
    push_str_chars(&mut v, " GROUP BY Data ORDER BY Data DESC");
    chars_string(&v)
}

/// The statement deriving the period/origin summary.
pub fn build_monthly_summary_stmt(base: &str, entries: &str) -> (r: String)
    ensures
        r@ == "CREATE TABLE IF NOT EXISTS "@ + base@
            + " AS SELECT AnoMes, Origem, SUM(Credito) as CREDITO, SUM(Debito) as DEBITO, (SUM(Credito) - SUM(Debito)) as Posição FROM "@
            + entries@ + " GROUP BY AnoMes, Origem ORDER BY Origem, AnoMes"@,
{
    let mut v: Vec<char> = Vec::new();
    push_str_chars(&mut v, "CREATE TABLE IF NOT EXISTS ");
    push_str_chars(&mut v, base);
    push_str_chars(
        &mut v,
        " AS SELECT AnoMes, Origem, SUM(Credito) as CREDITO, SUM(Debito) as DEBITO, (SUM(Credito) - SUM(Debito)) as Posição FROM ",
    );
    push_str_chars(&mut v, entries);
    push_str_chars(&mut v, " GROUP BY AnoMes, Origem ORDER BY Origem, AnoMes");
    chars_string(&v)
}

/// The statement deriving the year/origin summary.
pub fn build_annual_summary_stmt(base: &str, entries: &str) -> (r: String)
    ensures
        r@ == "CREATE TABLE IF NOT EXISTS "@ + base@
            + "_ANUAL AS SELECT Ano, Origem, SUM(Credito) as CREDITO, SUM(Debito) as DEBITO, (SUM(Credito) - SUM(Debito)) as Posição FROM "@
            + entries@ + " GROUP BY Ano, Origem ORDER BY Origem, Ano"@,
{
    let mut v: Vec<char> = Vec::new();
    push_str_chars(&mut v, "CREATE TABLE IF NOT EXISTS ");
    push_str_chars(&mut v, base);
    push_str_chars(
        &mut v,
        "_ANUAL AS SELECT Ano, Origem, SUM(Credito) as CREDITO, SUM(Debito) as DEBITO, (SUM(Credito) - SUM(Debito)) as Posição FROM ",
    );
    push_str_chars(&mut v, entries);
    push_str_chars(&mut v, " GROUP BY Ano, Origem ORDER BY Origem, Ano");
    chars_string(&v)
}

/// The statement deriving the overall per-origin summary.
pub fn build_full_summary_stmt(base: &str, entries: &str) -> (r: String)
    ensures
        r@ == "CREATE TABLE IF NOT EXISTS "@ + base@
            + "_FULL AS SELECT Origem, SUM(Credito) as CREDITO, SUM(Debito) as DEBITO, (SUM(Credito) - SUM(Debito)) as Posição FROM "@
            + entries@ + " GROUP BY Origem ORDER BY Origem"@,
{
    let mut v: Vec<char> = Vec::new();
    push_str_chars(&mut v, "CREATE TABLE IF NOT EXISTS ");
    push_str_chars(&mut v, base);
    push_str_chars(
        &mut v,
        "_FULL AS SELECT Origem, SUM(Credito) as CREDITO, SUM(Debito) as DEBITO, (SUM(Credito) - SUM(Debito)) as Posição FROM ",
    );
    push_str_chars(&mut v, entries);
    push_str_chars(&mut v, " GROUP BY Origem ORDER BY Origem");
    chars_string(&v)
}

/// The statement deriving the installment summary by calendar month.
pub fn build_installment_summary_stmt(target: &str, source: &str) -> (r: String)
    ensures
        r@ == "CREATE TABLE IF NOT EXISTS "@ + target@
            + " AS SELECT strftime('%Y-%m', Data) as Ano_Mes, COUNT(*) as Quantidade, ROUND(SUM(Debito), 2) as Valor, 0 as Diff_QTD, 0.0 as Diff_Vlr FROM "@
            + source@ + " GROUP BY strftime('%Y-%m', Data) ORDER BY Ano_Mes DESC"@,
{
    let mut v: Vec<char> = Vec::new();
    push_str_chars(&mut v, "CREATE TABLE IF NOT EXISTS ");
    push_str_chars(&mut v, target);
    push_str_chars(
        &mut v,
        " AS SELECT strftime('%Y-%m', Data) as Ano_Mes, COUNT(*) as Quantidade, ROUND(SUM(Debito), 2) as Valor, 0 as Diff_QTD, 0.0 as Diff_Vlr FROM ",
    );
    push_str_chars(&mut v, source);
    push_str_chars(&mut v, " GROUP BY strftime('%Y-%m', Data) ORDER BY Ano_Mes DESC");
    chars_string(&v)
}

} // verus!
