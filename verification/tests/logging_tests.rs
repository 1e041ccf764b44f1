use pdw_rust::logging::{log_completion_line, log_phase_start, log_result, log_separator, log_step, log_system_info};

#[test]
fn test_log_separator_width() {
    let line = log_separator();
    assert_eq!(line.chars().count(), 120);
    assert!(line.chars().all(|c| c == '='));
}

#[test]
fn test_log_step_format() {
    let line = log_step(7, "Table (Sheet) :-> Conta1", "");
    assert_eq!(line, "   . .. ... Step: 0007 :-> Table (Sheet) :-> Conta1 :-> ");
}

#[test]
fn test_log_result_format() {
    let line = log_result("Lines Created", 42);
    assert_eq!(line, "   . .. ... Lines Created :-> \u{1b}[32m    42\u{1b}[0m");
}

#[test]
fn test_log_phase_start_lines() {
    let lines = log_phase_start("Creating pivot Tables");
    assert_eq!(lines.len(), 2);
    assert!(lines[0].starts_with("===="));
    assert_eq!(lines[1], "Creating pivot Tables");
}

#[test]
fn test_log_system_info_lines() {
    let lines = log_system_info("9.11.0", "cfg", "yaml", "log", "in", "db", "GUIDING");
    assert_eq!(lines.len(), 10);
    assert!(lines[1].contains("9.11.0"));
    assert!(lines[6].contains("db"));
    assert!(lines[9].contains("Personal Data Warehouse"));
}

#[test]
fn test_log_completion_line_format() {
    let line = log_completion_line("A", "B", "1.25", "9.11.0", "host1", "linux");
    assert_eq!(
        line,
        "A Started | B Ended | 1.25 TotalSecs | Version 9.11.0 | Hostname host1 | OS linux"
    );
}
