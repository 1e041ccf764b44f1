use pdw_rust::error::{ConfigError, EtlError, PdwError};

#[test]
fn test_error_creation() {
    let error = PdwError::missing_config_field("test_field");
    assert!(matches!(error, PdwError::Config(ConfigError::MissingField { .. })));
}

#[test]
fn test_error_recoverability() {
    let config_error = PdwError::missing_config_field("test");
    assert!(!config_error.is_recoverable());

    let etl_error = PdwError::Etl(EtlError::ValidationFailed {
        check: "test".to_string(),
        reason: "test".to_string(),
    });
    assert!(etl_error.is_recoverable());
}

#[test]
fn test_user_messages() {
    let error = PdwError::Config(ConfigError::FileNotFound {
        path: "test.toml".to_string(),
    });
    let message = error.user_message();
    assert!(message.contains("Configuration file not found"));
    assert!(message.contains("test.toml"));
}

#[test]
fn test_sheet_not_found_helper() {
    let error = PdwError::sheet_not_found("Missing");
    match error {
        PdwError::Excel(pdw_rust::error::ExcelError::SheetNotFound { sheet_name }) => {
            assert_eq!(sheet_name, "Missing");
        }
        other => panic!("unexpected error: {:?}", other),
    }
}

#[test]
fn test_sql_execution_error_helper() {
    let error = PdwError::sql_execution_error("SELECT 1", "boom");
    match error {
        PdwError::Database(pdw_rust::error::DatabaseError::SqlExecution { query, reason }) => {
            assert_eq!(query, "SELECT 1");
            assert_eq!(reason, "boom");
        }
        other => panic!("unexpected error: {:?}", other),
    }
}
