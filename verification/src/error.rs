//! Error types for every stage of the pipeline. Faults raised by
//! outside collaborators (the workbook reader, the relational store,
//! the format writers) are carried as their message text.

use vstd::prelude::*;

use crate::text::{chars_string, push_str_chars};

verus! {

/// Configuration-related errors.
#[derive(Clone, Debug)]
pub enum ConfigError {
    FileNotFound { path: String },
    InvalidFormat { message: String },
    MissingField { field: String },
    InvalidPath { path: String, reason: String },
    VersionMismatch { expected: String, found: String },
    TomlParse(String),
    IniParse(String),
}

/// Workbook processing errors.
#[derive(Clone, Debug)]
pub enum ExcelError {
    FileOpen { path: String, reason: String },
    SheetNotFound { sheet_name: String },
    InvalidStructure { sheet_name: String, reason: String },
    DataConversion { sheet_name: String, row: usize, col: usize, reason: String },
    MissingColumn { column: String, sheet_name: String },
    Calamine(String),
}

/// Relational store errors.
#[derive(Clone, Debug)]
pub enum DatabaseError {
    ConnectionFailed { path: String, reason: String },
    SqlExecution { query: String, reason: String },
    TransactionFailed { reason: String },
    SchemaValidation { reason: String },
    DataInsertion { table: String, reason: String },
    Sqlite(String),
}

/// Pipeline errors.
#[derive(Clone, Debug)]
pub enum EtlError {
    InitializationFailed { reason: String },
    ExtractionFailed { source: String, reason: String },
    TransformationFailed { stage: String, reason: String },
    LoadingFailed { target: String, reason: String },
    ValidationFailed { check: String, reason: String },
    ConfigurationError { reason: String },
}

/// Report generation errors.
#[derive(Clone, Debug)]
pub enum ReportError {
    QueryProcessing { query_name: String, reason: String },
    TemplateError { template: String, reason: String },
    OutputGeneration { format: String, reason: String },
    YamlQueryFile { path: String, reason: String },
    UnsupportedFormat { format: String },
    YamlParse(String),
    ExcelWriter(String),
    CsvWriter(String),
    JsonSerialization(String),
}

/// Main error type for all pipeline operations.
#[derive(Clone, Debug)]
pub enum PdwError {
    Config(ConfigError),
    Excel(ExcelError),
    Database(DatabaseError),
    Etl(EtlError),
    Report(ReportError),
    Io(String),
    Logging(String),
}

impl PdwError {
    /// A configuration error for a missing field.
    pub fn missing_config_field(field: &str) -> (r: PdwError)
        ensures
            r matches PdwError::Config(ConfigError::MissingField { field: f }) && f@ == field@,
    {
        PdwError::Config(ConfigError::MissingField { field: field.to_owned() })
    }

    /// A workbook error for a missing sheet.
    pub fn sheet_not_found(sheet_name: &str) -> (r: PdwError)
        ensures
            r matches PdwError::Excel(ExcelError::SheetNotFound { sheet_name: s }) && s@
                == sheet_name@,
    {
        PdwError::Excel(ExcelError::SheetNotFound { sheet_name: sheet_name.to_owned() })
    }

    /// A store error for a failed statement.
    pub fn sql_execution_error(query: &str, reason: &str) -> (r: PdwError)
        ensures
            r matches PdwError::Database(DatabaseError::SqlExecution { query: q, reason: c })
                && q@ == query@ && c@ == reason@,
    {
        PdwError::Database(
            DatabaseError::SqlExecution { query: query.to_owned(), reason: reason.to_owned() },
        )
    }

    /// Whether processing may go on after this error: configuration,
    /// file-open, connection and input/output failures end the run.
    pub open spec fn spec_is_recoverable(&self) -> bool {
        match self {
            PdwError::Config(_) => false,
            PdwError::Excel(ExcelError::FileOpen { .. }) => false,
            PdwError::Database(DatabaseError::ConnectionFailed { .. }) => false,
            PdwError::Io(_) => false,
            _ => true,
        }
    }

    /// Whether processing may go on after this error.
    pub fn is_recoverable(&self) -> (r: bool)
        ensures
            r == self.spec_is_recoverable(),
    {
        match self {
            PdwError::Config(_) => false,
            PdwError::Excel(ExcelError::FileOpen { .. }) => false,
            PdwError::Database(DatabaseError::ConnectionFailed { .. }) => false,
            PdwError::Io(_) => false,
            _ => true,
        }
    }

    /// The user-facing message of this error.
    pub open spec fn spec_user_message(&self) -> Seq<char> {
        match self {
            PdwError::Config(ConfigError::FileNotFound { path }) => "Configuration file not found: "@
                + path@ + ". Please check the file path."@,
            PdwError::Config(ConfigError::VersionMismatch { expected, found }) => "Configuration version mismatch. Expected "@
                + expected@ + ", but found "@ + found@
                + ". Please update your configuration file."@,
            PdwError::Excel(ExcelError::FileOpen { path, .. }) => "Cannot open Excel file: "@
                + path@ + ". Please ensure the file exists and is not open in another application."@,
            PdwError::Database(DatabaseError::ConnectionFailed { path, .. }) => "Cannot connect to database: "@
                + path@ + ". Please check file permissions and disk space."@,
            PdwError::Config(_) => "Configuration error"@,
            PdwError::Excel(_) => "Excel processing error"@,
            PdwError::Database(_) => "Database error"@,
            PdwError::Etl(_) => "ETL pipeline error"@,
            PdwError::Report(_) => "Report generation error"@,
            PdwError::Io(m) => "IO error: "@ + m@,
            PdwError::Logging(m) => "Logging initialization error: "@ + m@,
        }
    }

    /// Renders the user-facing message.
    pub fn user_message(&self) -> (r: String)
        ensures
            r@ == self.spec_user_message(),
    {
        let mut b: Vec<char> = Vec::new();
        match self {
            PdwError::Config(ConfigError::FileNotFound { path }) => {
                push_str_chars(&mut b, "Configuration file not found: ");
                push_str_chars(&mut b, path.as_str());
                push_str_chars(&mut b, ". Please check the file path.");
            },
            PdwError::Config(ConfigError::VersionMismatch { expected, found }) => {
                push_str_chars(&mut b, "Configuration version mismatch. Expected ");
                push_str_chars(&mut b, expected.as_str());
                push_str_chars(&mut b, ", but found ");
                push_str_chars(&mut b, found.as_str());
                push_str_chars(&mut b, ". Please update your configuration file.");
            },
            PdwError::Excel(ExcelError::FileOpen { path, .. }) => {
                push_str_chars(&mut b, "Cannot open Excel file: ");
                push_str_chars(&mut b, path.as_str());
                push_str_chars(
                    &mut b,
                    ". Please ensure the file exists and is not open in another application.",
                );
            },
            PdwError::Database(DatabaseError::ConnectionFailed { path, .. }) => {
                push_str_chars(&mut b, "Cannot connect to database: ");
                push_str_chars(&mut b, path.as_str());
                push_str_chars(&mut b, ". Please check file permissions and disk space.");
            },
            PdwError::Config(_) => {
                push_str_chars(&mut b, "Configuration error");
            },
            PdwError::Excel(_) => {
                push_str_chars(&mut b, "Excel processing error");
            },
            PdwError::Database(_) => {
                push_str_chars(&mut b, "Database error");
            },
            PdwError::Etl(_) => {
                push_str_chars(&mut b, "ETL pipeline error");
            },
            PdwError::Report(_) => {
                push_str_chars(&mut b, "Report generation error");
            },
            PdwError::Io(m) => {
                push_str_chars(&mut b, "IO error: ");
                push_str_chars(&mut b, m.as_str());
            },
            PdwError::Logging(m) => {
                push_str_chars(&mut b, "Logging initialization error: ");
                push_str_chars(&mut b, m.as_str());
            },
        }
        chars_string(&b)
    }
}

} // verus!
