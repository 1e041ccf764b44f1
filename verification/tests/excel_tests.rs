use pdw_rust::date::Date;
use pdw_rust::excel::{
    cell_to_amount, cell_to_date, cell_to_string, read_accounting_sheet, read_guiding_sheet,
    read_reference_sheet, CellValue, SheetConfig, Transaction,
};

fn text(s: &str) -> CellValue {
    CellValue::Text(s.to_string())
}

#[test]
fn test_sheet_config() {
    let config = SheetConfig {
        table_name: "TestSheet".to_string(),
        is_accounting: true,
        is_loadable: true,
    };

    assert_eq!(config.table_name, "TestSheet");
    assert!(config.is_accounting);
    assert!(config.is_loadable);
}

#[test]
fn test_transaction_creation() {
    let transaction = Transaction {
        date: Some(Date { year: 2024, month: 1, day: 15 }),
        transaction_type: Some("ALM".to_string()),
        description: Some("Test transaction".to_string()),
        credit: Some(100_000_000),
        debit: None,
        origin: "TestSheet".to_string(),
    };

    assert!(transaction.date.is_some());
    assert_eq!(transaction.origin, "TestSheet");
}

#[test]
fn test_cell_conversions() {
    // string conversion
    let cell = text("test");
    assert_eq!(cell_to_string(&cell), "test");

    // numeric conversion, in micro-units
    let cell = CellValue::Number { micros: 123_450_000 };
    assert_eq!(cell_to_amount(&cell), Some(123_450_000));
    assert_eq!(cell_to_string(&cell), "123.45");

    // empty cell
    let cell = CellValue::Empty;
    assert_eq!(cell_to_string(&cell), "");
}

#[test]
fn test_cell_to_date_variants() {
    let d = Date { year: 2024, month: 1, day: 15 };
    assert_eq!(cell_to_date(&CellValue::DateTime(d)), Some(d));
    // a numeric cell is a day serial
    assert_eq!(cell_to_date(&CellValue::Number { micros: 45306 * 1_000_000 }), Some(d));
    assert_eq!(cell_to_date(&text("2024-01-15")), Some(d));
    assert_eq!(cell_to_date(&text("nonsense")), None);
    assert_eq!(cell_to_date(&CellValue::Empty), None);
}

#[test]
fn test_read_guiding_sheet_marks() {
    let rows = vec![
        vec![text("TABLE_NAME"), text("ACCOUNTING"), text("LOADABLE")],
        vec![text("Sheet1"), text("X"), text("x")],
        vec![text("Sheet2"), text(" x "), text("")],
        vec![text(""), text("X"), text("X")],
        vec![text("Sheet3"), text("no"), text("X")],
        vec![text("Short")],
    ];
    let configs = read_guiding_sheet(&rows);
    assert_eq!(configs.len(), 3);
    assert_eq!(configs[0].table_name, "Sheet1");
    assert!(configs[0].is_accounting);
    assert!(configs[0].is_loadable);
    assert_eq!(configs[1].table_name, "Sheet2");
    assert!(configs[1].is_accounting);
    assert!(!configs[1].is_loadable);
    assert_eq!(configs[2].table_name, "Sheet3");
    assert!(!configs[2].is_accounting);
    assert!(configs[2].is_loadable);
}

#[test]
fn test_read_accounting_sheet_prefilter() {
    let rows = vec![
        vec![text("Data"), text("TIPO"), text("DESCRICAO"), text("Credito"), text("Debito")],
        // kept: has a date
        vec![text("2024-01-15"), text(""), text("x"), text("1.5"), text("")],
        // kept: has a type
        vec![text(""), text("ALM"), text(""), text(""), text("2")],
        // dropped: neither date nor type
        vec![text(""), text(""), text("ignored"), text("3"), text("4")],
        // dropped: too few columns
        vec![text("2024-01-15"), text("ALM")],
    ];
    let txns = read_accounting_sheet(&rows, "Origin1");
    assert_eq!(txns.len(), 2);
    assert_eq!(txns[0].date, Some(Date { year: 2024, month: 1, day: 15 }));
    assert_eq!(txns[0].credit, Some(1_500_000));
    assert_eq!(txns[1].transaction_type.as_deref(), Some("ALM"));
    assert_eq!(txns[1].debit, Some(2_000_000));
    assert_eq!(txns[1].origin, "Origin1");
}

#[test]
fn test_read_reference_sheet_verbatim() {
    let rows = vec![
        vec![text("Código"), text("Descrição")],
        vec![text("A"), CellValue::Number { micros: 7_000_000 }],
    ];
    let data = read_reference_sheet(&rows);
    assert_eq!(data.len(), 2);
    assert_eq!(data[0], vec!["Código".to_string(), "Descrição".to_string()]);
    assert_eq!(data[1], vec!["A".to_string(), "7".to_string()]);
}
