use pdw_rust::config::PdwConfig;
use pdw_rust::database::DatabaseManager;
use pdw_rust::reporting::{
    xml_escape, QueryConfig, QueryDefinition, ReportGenerator, render_json_doc, render_xml_doc,
};
use pdw_rust::database::Datum;
use tempfile::TempDir;

fn generator(temp_dir: &TempDir) -> ReportGenerator {
    let path = temp_dir.path().join("test.db");
    let database = DatabaseManager::new(path.to_str().unwrap()).unwrap();
    ReportGenerator::new(database, PdwConfig::default())
}

fn typed_fixture(g: &ReportGenerator) {
    // a 2-row by 3-cell typed result set: integer, real, text
    g.database
        .execute("CREATE TABLE Typed (a INTEGER, b REAL, c TEXT)")
        .unwrap();
    g.database.execute("INSERT INTO Typed VALUES (1, 1.5, 'x;y')").unwrap();
    g.database.execute("INSERT INTO Typed VALUES (-2, 10.0, 'plain')").unwrap();
}

#[test]
fn test_xml_escape() {
    assert_eq!(xml_escape("test & <data>"), "test &amp; &lt;data&gt;");
    assert_eq!(xml_escape("'quoted'"), "&apos;quoted&apos;");
}

#[test]
fn test_variable_substitution() {
    let temp_dir = TempDir::new().unwrap();
    let g = generator(&temp_dir);
    let variables = g.create_variable_map();

    let template = "SELECT * FROM {entries_table} WHERE date > '{full_hist}'";
    let result = g.substitute_variables(template, &variables);

    assert!(result.contains("LANCAMENTOS_GERAIS"));
    assert!(result.contains("HistoricoGeral"));
}

#[test]
fn test_plan_report_queries_groups() {
    let temp_dir = TempDir::new().unwrap();
    let mut g = generator(&temp_dir);
    let qc = QueryConfig {
        queries_gera_hist: vec![QueryDefinition {
            sql: "SELECT * FROM {full_hist}".to_string(),
            sheet_name: "{anual_hist}".to_string(),
        }],
        queries_padrao: vec![QueryDefinition {
            sql: "SELECT * FROM {entries_table}".to_string(),
            sheet_name: "{entries_table}".to_string(),
        }],
    };
    let plan = g.plan_report_queries(&qc);
    assert_eq!(plan.len(), 2);
    // history queries have template and sheet name substituted
    assert_eq!(plan[0].sql, "SELECT * FROM HistoricoGeral");
    assert_eq!(plan[0].sheet_name, "HistoricoAnual");
    // standard sheet names stand verbatim
    assert_eq!(plan[1].sql, "SELECT * FROM LANCAMENTOS_GERAIS");
    assert_eq!(plan[1].sheet_name, "{entries_table}");

    // with pivot generation off, the conditional group is skipped
    g.config.settings.create_pivot = false;
    let plan = g.plan_report_queries(&qc);
    assert_eq!(plan.len(), 1);
    assert_eq!(plan[0].sql, "SELECT * FROM LANCAMENTOS_GERAIS");
}

#[test]
fn test_csv_export_round_trip() {
    let temp_dir = TempDir::new().unwrap();
    let g = generator(&temp_dir);
    typed_fixture(&g);

    let bytes = g.export_csv("SELECT a, b, c FROM Typed ORDER BY a DESC").unwrap();
    let mut reader = csv::ReaderBuilder::new()
        .delimiter(b';')
        .has_headers(false)
        .from_reader(bytes.as_slice());
    let records: Vec<Vec<String>> = reader
        .records()
        .map(|r| r.unwrap().iter().map(|f| f.to_string()).collect())
        .collect();
    assert_eq!(
        records,
        vec![
            vec!["1".to_string(), "1,5".to_string(), "x;y".to_string()],
            vec!["-2".to_string(), "10".to_string(), "plain".to_string()],
        ]
    );
}

#[test]
fn test_json_export_round_trip() {
    let temp_dir = TempDir::new().unwrap();
    let g = generator(&temp_dir);
    typed_fixture(&g);

    let doc = g.export_json("SELECT a, b, c FROM Typed ORDER BY a DESC").unwrap();
    let parsed: serde_json::Value = serde_json::from_str(&doc).unwrap();
    let rows = parsed.as_array().unwrap();
    assert_eq!(rows.len(), 2);
    assert_eq!(rows[0][0], serde_json::Value::from(1));
    assert_eq!(rows[0][1].as_f64().unwrap(), 1.5);
    assert_eq!(rows[0][2], serde_json::Value::from("x;y"));
    assert_eq!(rows[1][0], serde_json::Value::from(-2));
    assert_eq!(rows[1][1].as_f64().unwrap(), 10.0);
    assert_eq!(rows[1][2], serde_json::Value::from("plain"));
}

#[test]
fn test_json_escapes_strings() {
    let rows = vec![vec![Datum::Text("a\"b\\c\nd".to_string())]];
    let doc = render_json_doc(&rows);
    let parsed: serde_json::Value = serde_json::from_str(&doc).unwrap();
    assert_eq!(parsed[0][0], serde_json::Value::from("a\"b\\c\nd"));
}

#[test]
fn test_xml_export_document() {
    let rows = vec![
        vec![Datum::Int(1), Datum::Text("a & b".to_string())],
        vec![Datum::Null, Datum::Real("1.5".to_string())],
    ];
    let doc = render_xml_doc(&rows);
    let expected = "<?xml version=\"1.0\" encoding=\"UTF-8\"?>\n<data>\n   <item>\n      <col1>1</col1>\n      <col2>a &amp; b</col2>\n   </item>\n   <item>\n      <col1></col1>\n      <col2>1.5</col2>\n   </item>\n</data>\n";
    assert_eq!(doc, expected);
}

#[test]
fn test_export_general_entries_formats() {
    let temp_dir = TempDir::new().unwrap();
    let mut g = generator(&temp_dir);
    g.database.execute("CREATE TABLE LANCAMENTOS_GERAIS (Data DATE, DIA_SEMANA TEXT, TIPO TEXT, DESCRICAO TEXT, Credito REAL, Debito REAL, Mes TEXT, Ano TEXT, MES_EXTENSO TEXT, AnoMes TEXT, Origem TEXT)").unwrap();
    g.database.execute("INSERT INTO LANCAMENTOS_GERAIS VALUES ('2024-01-15', 'Segunda-feira', 'ALM', 'd', 0.0, 100.56, '01', '2024', '01-Janeiro', '2024/01', 'S')").unwrap();

    // by default only the delimited text is produced
    let (csv_bytes, json, xml) = g.export_general_entries().unwrap();
    assert!(!csv_bytes.is_empty());
    assert!(json.is_none() && xml.is_none());
    let text = String::from_utf8(csv_bytes).unwrap();
    assert!(text.contains("15-01-2024"));
    assert!(text.contains("100,56"));

    // with other types enabled, all three come back
    g.config.settings.export_other_types = true;
    let (_, json, xml) = g.export_general_entries().unwrap();
    assert!(json.is_some() && xml.is_some());
    assert!(xml.unwrap().contains("<data>"));
}

#[test]
fn test_generate_excel_reports_with_dynamic_group() {
    let temp_dir = TempDir::new().unwrap();
    let mut g = generator(&temp_dir);
    g.database.execute("CREATE TABLE T1 (v TEXT)").unwrap();
    g.database.execute("INSERT INTO T1 VALUES ('hello')").unwrap();
    g.database.execute("CREATE TABLE Dyn (v TEXT)").unwrap();
    g.database.execute("INSERT INTO Dyn VALUES ('dyn-cell')").unwrap();
    g.database
        .execute("CREATE TABLE General_din_reports (dest TEXT, label TEXT)")
        .unwrap();
    g.database
        .execute("INSERT INTO General_din_reports VALUES ('Dyn', 'DynSheet')")
        .unwrap();
    g.config.settings.create_pivot = false;

    let qc = QueryConfig {
        queries_gera_hist: vec![],
        queries_padrao: vec![
            QueryDefinition {
                sql: "SELECT v FROM T1".to_string(),
                sheet_name: "First".to_string(),
            },
            QueryDefinition {
                sql: "SELECT v FROM T1 WHERE v = 'nothing'".to_string(),
                sheet_name: "Empty".to_string(),
            },
        ],
    };
    let sheets = g.generate_excel_reports(&qc).unwrap();
    // the empty result set produced no sheet; the dynamic group added one
    assert_eq!(sheets.len(), 2);
    assert_eq!(sheets[0].0, "First");
    assert_eq!(sheets[0].1, vec![vec!["hello".to_string()]]);
    assert_eq!(sheets[1].0, "DynSheet");
    assert_eq!(sheets[1].1, vec![vec!["dyn-cell".to_string()]]);
}
