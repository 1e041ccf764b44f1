//! Personal data warehouse core: a guiding-sheet-driven ETL pipeline that
//! turns spreadsheet cell matrices into enriched transaction records, loads
//! them into a relational store, derives pivot and summary tables whose
//! columns are discovered at runtime, and renders query results into
//! spreadsheet, delimited-text, JSON and XML report formats.

pub mod config;
pub mod database;
pub mod date;
pub mod error;
pub mod etl;
pub mod excel;
pub mod logging;
pub mod money;
pub mod reporting;
pub mod text;
