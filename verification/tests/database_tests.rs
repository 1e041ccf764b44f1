use pdw_rust::database::{DatabaseManager, Datum, ProcessedTransaction, sanitize_identifier};
use pdw_rust::date::Date;
use pdw_rust::error::{DatabaseError, PdwError};
use tempfile::TempDir;

fn open_db(temp_dir: &TempDir) -> DatabaseManager {
    let path = temp_dir.path().join("test.db");
    DatabaseManager::new(path.to_str().unwrap()).unwrap()
}

fn sample_transaction() -> ProcessedTransaction {
    ProcessedTransaction {
        date: Date { year: 2024, month: 1, day: 15 },
        day_of_week: "Segunda-feira".to_string(),
        transaction_type: "ALM".to_string(),
        description: "Test transaction".to_string(),
        credit: 0,
        debit: 10000, // 100.00 in cents
        month: "01".to_string(),
        year: "2024".to_string(),
        month_name: "01-Janeiro".to_string(),
        year_month: "2024/01".to_string(),
        origin: "TestSheet".to_string(),
    }
}

#[test]
fn test_database_creation() {
    let temp_dir = TempDir::new().unwrap();
    let path = temp_dir.path().join("test.db");
    let db = DatabaseManager::new(path.to_str().unwrap());
    assert!(db.is_ok());
}

#[test]
fn test_table_creation() {
    let temp_dir = TempDir::new().unwrap();
    let db = open_db(&temp_dir);
    db.create_tables().unwrap();

    let result = db
        .execute_query(
            "SELECT name FROM sqlite_master WHERE type='table' AND name='LANCAMENTOS_GERAIS'",
        )
        .unwrap();
    assert!(!result.is_empty());
}

#[test]
fn test_transaction_insertion() {
    let temp_dir = TempDir::new().unwrap();
    let db = open_db(&temp_dir);
    db.create_tables().unwrap();

    let transactions = vec![sample_transaction()];
    let count = db.insert_transactions(&transactions).unwrap();
    assert_eq!(count, 1);

    // the date went in as ISO text and the amount as its two-decimal value
    let rows = db
        .execute_query("SELECT Data, Debito FROM LANCAMENTOS_GERAIS")
        .unwrap();
    assert!(matches!(&rows[0][0], Datum::Text(s) if s == "2024-01-15"));
    assert!(matches!(&rows[0][1], Datum::Real(s) if s == "100"));
}

#[test]
fn test_query_execution() {
    let temp_dir = TempDir::new().unwrap();
    let db = open_db(&temp_dir);
    db.create_tables().unwrap();

    let result = db.execute_query("SELECT COUNT(*) FROM LANCAMENTOS_GERAIS").unwrap();
    assert_eq!(result.len(), 1);
}

#[test]
fn test_sql_error_carries_statement() {
    let temp_dir = TempDir::new().unwrap();
    let db = open_db(&temp_dir);
    let err = db.execute("NOT A STATEMENT").unwrap_err();
    match err {
        PdwError::Database(DatabaseError::SqlExecution { query, .. }) => {
            assert_eq!(query, "NOT A STATEMENT");
        }
        other => panic!("unexpected error: {:?}", other),
    }
}

#[test]
fn test_insert_reference_data_pads_and_truncates() {
    let temp_dir = TempDir::new().unwrap();
    let db = open_db(&temp_dir);
    let data = vec![
        vec!["a".to_string(), "b".to_string()],
        vec!["only".to_string()],
        vec!["x".to_string(), "y".to_string(), "extra".to_string()],
    ];
    let count = db.insert_reference_data("RefTable", &data).unwrap();
    assert_eq!(count, 3);
    let rows = db.execute_query("SELECT col1, col2 FROM RefTable").unwrap();
    assert_eq!(rows.len(), 3);
    assert!(matches!(&rows[1][0], Datum::Text(s) if s == "only"));
    assert!(matches!(&rows[1][1], Datum::Text(s) if s.is_empty()));
    assert!(matches!(&rows[2][1], Datum::Text(s) if s == "y"));
}

#[test]
fn test_insert_reference_data_rejects_empty_first_row() {
    let temp_dir = TempDir::new().unwrap();
    let db = open_db(&temp_dir);
    let data = vec![Vec::<String>::new()];
    let err = db.insert_reference_data("RefTable", &data).unwrap_err();
    assert!(matches!(
        err,
        PdwError::Database(DatabaseError::SchemaValidation { .. })
    ));
}

#[test]
fn test_sanitize_identifier() {
    // brackets and quotes are stripped, the rest stands
    let got: String = sanitize_identifier("A[1]'B\"C").into_iter().collect();
    assert_eq!(got, "A1BC");
    let got: String = sanitize_identifier("Plain Label").into_iter().collect();
    assert_eq!(got, "Plain Label");
}

fn load_pivot_fixture(db: &DatabaseManager) {
    db.create_tables().unwrap();
    db.execute("INSERT INTO TiposLancamentos VALUES ('a', 'A')").unwrap();
    db.execute("INSERT INTO TiposLancamentos VALUES ('b', 'B')").unwrap();
    // a repeated label: the domain keeps distinct labels only
    db.execute("INSERT INTO TiposLancamentos VALUES ('a2', 'A')").unwrap();
    let mk = |tipo: &str, debit: i64| {
        let mut t = sample_transaction();
        t.transaction_type = tipo.to_string();
        t.debit = debit;
        t
    };
    // debits in cents: A sums to 10.0, B to 20.0; C is undeclared
    let txns = vec![mk("A", 400), mk("A", 600), mk("B", 2000), mk("C", 9900)];
    db.insert_transactions(&txns).unwrap();
}

#[test]
fn test_pivot_correctness() {
    let temp_dir = TempDir::new().unwrap();
    let db = open_db(&temp_dir);
    load_pivot_fixture(&db);
    db.create_pivot_tables("LANCAMENTOS_GERAIS", "TiposLancamentos", "HistoricoGeral", "HistoricoAnual")
        .unwrap();

    // one period row with the two declared categories summed
    let rows = db
        .execute_query("SELECT AnoMes, [A], [B] FROM HistoricoGeral")
        .unwrap();
    assert_eq!(rows.len(), 1);
    assert!(matches!(&rows[0][0], Datum::Text(s) if s == "2024/01"));
    assert!(matches!(&rows[0][1], Datum::Real(s) if s == "10"));
    assert!(matches!(&rows[0][2], Datum::Real(s) if s == "20"));

    // the undeclared category never becomes a column
    let cols = db
        .execute_query("SELECT name FROM pragma_table_info('HistoricoGeral')")
        .unwrap();
    let names: Vec<String> = cols
        .iter()
        .map(|r| match &r[0] {
            Datum::Text(s) => s.clone(),
            other => panic!("unexpected column name datum: {:?}", other),
        })
        .collect();
    assert_eq!(names, vec!["AnoMes".to_string(), "A".to_string(), "B".to_string()]);

    // the annual pivot uses the same domain against the year key
    let rows = db.execute_query("SELECT Ano, [A], [B] FROM HistoricoAnual").unwrap();
    assert_eq!(rows.len(), 1);
    assert!(matches!(&rows[0][0], Datum::Text(s) if s == "2024"));
}

#[test]
fn test_pivot_rebuild_idempotent() {
    let temp_dir = TempDir::new().unwrap();
    let db = open_db(&temp_dir);
    load_pivot_fixture(&db);

    let dump = |db: &DatabaseManager| -> Vec<Vec<String>> {
        db.execute_query("SELECT * FROM HistoricoGeral ORDER BY AnoMes")
            .unwrap()
            .iter()
            .map(|row| {
                row.iter()
                    .map(|d| format!("{:?}", d))
                    .collect()
            })
            .collect()
    };

    db.create_pivot_tables("LANCAMENTOS_GERAIS", "TiposLancamentos", "HistoricoGeral", "HistoricoAnual")
        .unwrap();
    let first = dump(&db);
    db.create_pivot_tables("LANCAMENTOS_GERAIS", "TiposLancamentos", "HistoricoGeral", "HistoricoAnual")
        .unwrap();
    let second = dump(&db);
    assert_eq!(first, second);
    assert_eq!(second.len(), 1);
}

#[test]
fn test_validate_and_clean_data() {
    let temp_dir = TempDir::new().unwrap();
    let db = open_db(&temp_dir);
    db.create_tables().unwrap();
    db.execute("INSERT INTO GUIDING VALUES ('Conta1', 'X', 'X')").unwrap();
    db.execute("INSERT INTO GUIDING VALUES ('Tipos', '', 'X')").unwrap();
    db.execute("INSERT INTO LANCAMENTOS_GERAIS (Data, TIPO) VALUES (NULL, 'x')").unwrap();
    db.execute(
        "INSERT INTO LANCAMENTOS_GERAIS (Data, TIPO) VALUES ('2024-01-15', 'ok')",
    )
    .unwrap();

    db.validate_and_clean_data("LANCAMENTOS_GERAIS", "TiposLancamentos", false, "discarted_data")
        .unwrap();

    let rows = db.execute_query("SELECT COUNT(*) FROM LANCAMENTOS_GERAIS").unwrap();
    assert!(matches!(rows[0][0], Datum::Int(1)));

    // the origins view lists only sheets flagged both ways
    let rows = db.execute_query("SELECT nome FROM Origens").unwrap();
    assert_eq!(rows.len(), 1);
    assert!(matches!(&rows[0][0], Datum::Text(s) if s == "Conta1"));
}

#[test]
fn test_empty_batches_succeed() {
    let temp_dir = TempDir::new().unwrap();
    let db = open_db(&temp_dir);
    db.create_tables().unwrap();
    assert_eq!(db.insert_transactions(&Vec::new()).unwrap(), 0);
    assert_eq!(db.insert_reference_data("RefTable", &Vec::new()).unwrap(), 0);
}

#[test]
fn test_batch_insert_all_or_nothing() {
    let temp_dir = TempDir::new().unwrap();
    let db = open_db(&temp_dir);
    // a constrained entries table: the second row violates the check
    db.execute(
        "CREATE TABLE LANCAMENTOS_GERAIS (Data DATE, DIA_SEMANA TEXT, TIPO TEXT CHECK (TIPO <> 'BAD'), DESCRICAO TEXT, Credito REAL, Debito REAL, Mes TEXT, Ano TEXT, MES_EXTENSO TEXT, AnoMes TEXT, Origem TEXT)",
    )
    .unwrap();
    let mk = |tipo: &str| {
        let mut t = sample_transaction();
        t.transaction_type = tipo.to_string();
        t
    };
    let txns = vec![mk("ok1"), mk("BAD"), mk("ok2")];
    let err = db.insert_transactions(&txns).unwrap_err();
    match err {
        PdwError::Database(DatabaseError::DataInsertion { table, reason }) => {
            assert_eq!(table, "LANCAMENTOS_GERAIS");
            assert!(reason.starts_with("row 1: "));
        }
        other => panic!("unexpected error: {:?}", other),
    }
    // the rows before the failing one were rolled back
    let rows = db.execute_query("SELECT COUNT(*) FROM LANCAMENTOS_GERAIS").unwrap();
    assert!(matches!(rows[0][0], Datum::Int(0)));
}

#[test]
fn test_discard_archive_accumulates() {
    let temp_dir = TempDir::new().unwrap();
    let db = open_db(&temp_dir);
    db.create_tables().unwrap();
    db.execute("INSERT INTO LANCAMENTOS_GERAIS (Data, TIPO) VALUES (NULL, 'one')").unwrap();
    db.validate_and_clean_data("LANCAMENTOS_GERAIS", "TiposLancamentos", true, "discarted_data")
        .unwrap();
    db.execute("INSERT INTO LANCAMENTOS_GERAIS (Data, TIPO) VALUES (NULL, 'two')").unwrap();
    db.validate_and_clean_data("LANCAMENTOS_GERAIS", "TiposLancamentos", true, "discarted_data")
        .unwrap();
    // both cleanup runs archived their invalid row
    let rows = db.execute_query("SELECT COUNT(*) FROM discarted_data").unwrap();
    assert!(matches!(rows[0][0], Datum::Int(2)));
}
