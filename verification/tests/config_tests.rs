use pdw_rust::config::PdwConfig;
use pdw_rust::error::{ConfigError, PdwError};

#[test]
fn test_default_config() {
    let config = PdwConfig::default();
    assert_eq!(config.settings.current_version, "9.11.0");
    assert_eq!(config.file_types.type_in, "xlsx");
    assert!(config.settings.run_data_loader);
}

#[test]
fn test_version_info() {
    assert_eq!(pdw_rust::config::SUPPORTED_VERSION, "9.11.0");
    let config = PdwConfig::default();
    assert_eq!(config.settings.current_version, "9.11.0");
}

#[test]
fn test_validate_accepts_pinned_version() {
    let config = PdwConfig::default();
    assert!(config.validate().is_ok());
}

#[test]
fn test_validate_rejects_other_version() {
    let mut config = PdwConfig::default();
    config.settings.current_version = "9.10.0".to_string();
    let err = config.validate().unwrap_err();
    match err {
        PdwError::Config(ConfigError::VersionMismatch { expected, found }) => {
            assert_eq!(expected, "9.11.0");
            assert_eq!(found, "9.10.0");
        }
        other => panic!("unexpected error: {:?}", other),
    }
}

#[test]
fn test_ini_compatibility() {
    let entries = vec![
        ("DIRECTORIES".to_string(), "DIR_IN".to_string(), "./input/".to_string()),
        ("DIRECTORIES".to_string(), "DIR_OUT".to_string(), "./output/".to_string()),
        ("FILE_TYPES".to_string(), "TYPE_IN".to_string(), "xlsx".to_string()),
        ("FILE_TYPES".to_string(), "INPUT_FILE".to_string(), "PDW".to_string()),
        ("SETTINGS".to_string(), "CURRENT_VERSION".to_string(), "9.11.0".to_string()),
        ("SETTINGS".to_string(), "RUN_DATA_LOADER".to_string(), "True".to_string()),
    ];
    let config = PdwConfig::load_from_ini(&entries);
    assert_eq!(config.settings.current_version, "9.11.0");
    // a flag that is not exactly `true` or `false` keeps its default
    assert!(config.settings.run_data_loader);
    assert_eq!(config.directories.dir_in, "./input/");
    assert_eq!(config.file_types.input_file, "PDW");
}

#[test]
fn test_ini_flag_override() {
    let entries = vec![
        ("SETTINGS".to_string(), "RUN_REPORTS".to_string(), "false".to_string()),
        ("SETTINGS".to_string(), "MULTITHREADING".to_string(), "true".to_string()),
    ];
    let config = PdwConfig::load_from_ini(&entries);
    assert!(!config.settings.run_reports);
    assert!(config.settings.multithreading);
}

#[test]
fn test_path_generation() {
    let config = PdwConfig::default();
    let input_path = config.get_input_file_path();
    assert!(input_path.contains("PDW.xlsx"));

    let db_path = config.get_database_path();
    assert!(db_path.contains(".db"));
}

#[test]
fn test_yaml_queries_path() {
    let config = PdwConfig::default();
    assert_eq!(config.get_yaml_queries_path(), "./input/PDW_QUERIES.yaml");
    assert_eq!(config.get_log_file_path(), "./logs/PDW.SysMap.log");
}
