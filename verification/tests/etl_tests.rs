use pdw_rust::config::PdwConfig;
use pdw_rust::database::Datum;
use pdw_rust::date::Date;
use pdw_rust::etl::EtlPipeline;
use pdw_rust::excel::{CellValue, SheetData, Transaction};
use tempfile::TempDir;

fn temp_config(temp_dir: &TempDir) -> PdwConfig {
    let mut config = PdwConfig::default();
    config.directories.database_dir = temp_dir.path().to_str().unwrap().to_string();
    config
}

fn text(s: &str) -> CellValue {
    CellValue::Text(s.to_string())
}

#[test]
fn test_day_of_week_portuguese() {
    let temp_dir = TempDir::new().unwrap();
    let pipeline = EtlPipeline::new(temp_config(&temp_dir)).unwrap();

    let date = Date { year: 2024, month: 1, day: 15 }; // Monday
    assert_eq!(pipeline.get_day_of_week_portuguese(date), "Segunda-feira");

    let date = Date { year: 2024, month: 1, day: 20 }; // Saturday
    assert_eq!(pipeline.get_day_of_week_portuguese(date), "Sábado");
}

#[test]
fn test_month_name_portuguese() {
    let temp_dir = TempDir::new().unwrap();
    let pipeline = EtlPipeline::new(temp_config(&temp_dir)).unwrap();

    assert_eq!(pipeline.get_month_name_portuguese(1), "01-Janeiro");
    assert_eq!(pipeline.get_month_name_portuguese(12), "12-Dezembro");
    assert_eq!(pipeline.get_month_name_portuguese(13), "00-Inválido");
}

#[test]
fn test_transaction_processing() {
    let temp_dir = TempDir::new().unwrap();
    let pipeline = EtlPipeline::new(temp_config(&temp_dir)).unwrap();

    let transaction = Transaction {
        date: Some(Date { year: 2024, month: 1, day: 15 }),
        transaction_type: Some("ALM".to_string()),
        description: Some("Test; transaction, with∴special chars".to_string()),
        credit: Some(100_555_000),
        debit: Some(50_999_000),
        origin: "TestSheet".to_string(),
    };

    let processed = pipeline.process_single_transaction(transaction).unwrap().unwrap();

    assert_eq!(processed.transaction_type, "ALM");
    assert_eq!(processed.credit, 10056); // rounded, in cents: 100.56
    assert_eq!(processed.debit, 5100); // rounded, in cents: 51.00
    assert_eq!(processed.description, "Test| transaction| with .'. special chars");
    assert_eq!(processed.day_of_week, "Segunda-feira");
    assert_eq!(processed.month_name, "01-Janeiro");
    assert_eq!(processed.month, "01");
    assert_eq!(processed.year, "2024");
    assert_eq!(processed.year_month, "2024/01");
}

#[test]
fn test_enrichment_drop_rule() {
    let temp_dir = TempDir::new().unwrap();
    let pipeline = EtlPipeline::new(temp_config(&temp_dir)).unwrap();

    // no date: dropped
    let no_date = Transaction {
        date: None,
        transaction_type: Some("ALM".to_string()),
        description: None,
        credit: None,
        debit: None,
        origin: "S".to_string(),
    };
    assert!(pipeline.process_single_transaction(no_date).unwrap().is_none());

    // category blank after trimming: dropped
    let blank_type = Transaction {
        date: Some(Date { year: 2024, month: 1, day: 15 }),
        transaction_type: Some("   ".to_string()),
        description: None,
        credit: None,
        debit: None,
        origin: "S".to_string(),
    };
    assert!(pipeline.process_single_transaction(blank_type).unwrap().is_none());

    // both present: kept, with missing amounts defaulted to zero
    let kept = Transaction {
        date: Some(Date { year: 2024, month: 1, day: 15 }),
        transaction_type: Some(" ALM ".to_string()),
        description: None,
        credit: None,
        debit: None,
        origin: "S".to_string(),
    };
    let p = pipeline.process_single_transaction(kept).unwrap().unwrap();
    assert_eq!(p.transaction_type, "ALM");
    assert_eq!(p.credit, 0);
    assert_eq!(p.debit, 0);
    assert_eq!(p.description, "");
}

#[test]
fn test_transform_sorts_descending() {
    let temp_dir = TempDir::new().unwrap();
    let pipeline = EtlPipeline::new(temp_config(&temp_dir)).unwrap();

    let mk = |y: u32, m: u32, d: u32| Transaction {
        date: Some(Date { year: y, month: m, day: d }),
        transaction_type: Some("T".to_string()),
        description: None,
        credit: None,
        debit: None,
        origin: "S".to_string(),
    };
    let input = vec![mk(2023, 5, 1), mk(2024, 1, 15), mk(2022, 12, 31), mk(2024, 1, 2)];
    let out = pipeline.transform_transactions(input).unwrap();
    assert_eq!(out.len(), 4);
    let dates: Vec<Date> = out.iter().map(|p| p.date).collect();
    assert_eq!(
        dates,
        vec![
            Date { year: 2024, month: 1, day: 15 },
            Date { year: 2024, month: 1, day: 2 },
            Date { year: 2023, month: 5, day: 1 },
            Date { year: 2022, month: 12, day: 31 },
        ]
    );
}

#[test]
fn test_transform_keeps_input_order_on_equal_dates() {
    let temp_dir = TempDir::new().unwrap();
    let pipeline = EtlPipeline::new(temp_config(&temp_dir)).unwrap();

    let mk = |desc: &str, y: u32, m: u32, d: u32| Transaction {
        date: Some(Date { year: y, month: m, day: d }),
        transaction_type: Some("T".to_string()),
        description: Some(desc.to_string()),
        credit: None,
        debit: None,
        origin: "S".to_string(),
    };
    let input = vec![
        mk("first", 2024, 1, 15),
        mk("older", 2023, 1, 1),
        mk("second", 2024, 1, 15),
        mk("third", 2024, 1, 15),
    ];
    let out = pipeline.transform_transactions(input).unwrap();
    let descs: Vec<String> = out.iter().map(|p| p.description.clone()).collect();
    assert_eq!(
        descs,
        vec![
            "first".to_string(),
            "second".to_string(),
            "third".to_string(),
            "older".to_string(),
        ]
    );
}

#[test]
fn test_execute_data_loading_end_to_end() {
    let temp_dir = TempDir::new().unwrap();
    let pipeline = EtlPipeline::new(temp_config(&temp_dir)).unwrap();

    let sheets = vec![
        SheetData {
            name: "TiposLancamentos".to_string(),
            data: vec![
                vec![text("A"), text("Alpha")],
                vec![text("B"), text("Beta")],
            ],
            is_accounting: false,
            is_loadable: true,
        },
        SheetData {
            name: "Conta1".to_string(),
            data: vec![
                vec![text("Data"), text("TIPO"), text("DESC"), text("Cr"), text("De")],
                vec![text("2024-01-15"), text("Alpha"), text("d1"), text(""), text("10")],
                vec![text("2024-01-16"), text("Beta"), text("d2"), text(""), text("20")],
                vec![text(""), text(""), text(""), text(""), text("")],
            ],
            is_accounting: true,
            is_loadable: true,
        },
        SheetData {
            name: "Skipped".to_string(),
            data: vec![vec![text("ignored")]],
            is_accounting: true,
            is_loadable: false,
        },
    ];
    pipeline.execute_data_loading(&sheets).unwrap();

    let rows = pipeline
        .database
        .execute_query("SELECT COUNT(*) FROM LANCAMENTOS_GERAIS")
        .unwrap();
    assert_eq!(rows.len(), 1);
    assert!(matches!(rows[0][0], Datum::Int(2)));

    // the reference sheet went in verbatim, header row included
    let refs = pipeline
        .database
        .execute_query("SELECT COUNT(*) FROM TiposLancamentos")
        .unwrap();
    assert!(matches!(refs[0][0], Datum::Int(2)));
}

#[test]
fn test_generate_reports_builds_summaries() {
    let temp_dir = TempDir::new().unwrap();
    let pipeline = EtlPipeline::new(temp_config(&temp_dir)).unwrap();

    let sheets = vec![SheetData {
        name: "Conta1".to_string(),
        data: vec![
            vec![text("Data"), text("TIPO"), text("DESC"), text("Cr"), text("De")],
            vec![text("2024-01-15"), text("A"), text("d1"), text("5"), text("10")],
        ],
        is_accounting: true,
        is_loadable: true,
    }];
    pipeline.execute_data_loading(&sheets).unwrap();
    pipeline.generate_reports().unwrap();

    let rows = pipeline
        .database
        .execute_query("SELECT Contagem FROM contagem_diaria")
        .unwrap();
    assert_eq!(rows.len(), 1);
    assert!(matches!(rows[0][0], Datum::Int(1)));

    let rows = pipeline
        .database
        .execute_query("SELECT CREDITO, DEBITO FROM Resumido_In_Out")
        .unwrap();
    assert_eq!(rows.len(), 1);
}
