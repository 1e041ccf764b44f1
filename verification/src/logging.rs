//! Log message formatting. The library renders every log line as
//! plain text with an exact contract; emitting the lines (console,
//! file) is the calling program's business.

use vstd::prelude::*;

use crate::text::{
    chars_string,
    pad_left,
    push_chars,
    push_str_chars,
    spec_digits,
    spec_pad_left,
    spec_repeat,
    spec_zero_pad,
    repeat_char,
    u64_zero_pad,
    u64_to_chars,
};

verus! {

/// The separator line: one hundred and twenty equals signs.
pub open spec fn spec_separator() -> Seq<char> {
    spec_repeat('=', 120)
}

/// Formats the section separator line.
pub fn log_separator() -> (r: String)
    ensures
        r@ == spec_separator(),
{
    let cs = repeat_char('=', 120);
    chars_string(&cs)
}

/// The step line: the step number zero-padded to four digits, then
/// the description and the detail.
pub open spec fn spec_step_line(step: int, description: Seq<char>, detail: Seq<char>) -> Seq<
    char,
> {
    "   . .. ... Step: "@ + spec_zero_pad(step, 4) + " :-> "@ + description + " :-> "@ + detail
}

/// Formats a processing step line.
pub fn log_step(step_number: usize, description: &str, detail: &str) -> (r: String)
    ensures
        r@ == spec_step_line(step_number as int, description@, detail@),
{
    let mut v: Vec<char> = Vec::new();
    push_str_chars(&mut v, "   . .. ... Step: ");
    let num = u64_zero_pad(step_number as u64, 4);
    push_chars(&mut v, &num);
    push_str_chars(&mut v, " :-> ");
    push_str_chars(&mut v, description);
    push_str_chars(&mut v, " :-> ");
    push_str_chars(&mut v, detail);
    chars_string(&v)
}

/// The result line: the description and the count right-aligned to
/// six characters, highlighted.
pub open spec fn spec_result_line(description: Seq<char>, count: int) -> Seq<char> {
    "   . .. ... "@ + description + " :-> \u{1b}[32m"@ + spec_pad_left(
        spec_digits(count),
        6,
        ' ',
    ) + "\u{1b}[0m"@
}

/// Formats a processing result line with its count.
pub fn log_result(description: &str, count: usize) -> (r: String)
    ensures
        r@ == spec_result_line(description@, count as int),
{
    let mut v: Vec<char> = Vec::new();
    push_str_chars(&mut v, "   . .. ... ");
    push_str_chars(&mut v, description);
    push_str_chars(&mut v, " :-> \u{1b}[32m");
    let digits = u64_to_chars(count as u64);
    let padded = pad_left(&digits, 6, ' ');
    push_chars(&mut v, &padded);
    push_str_chars(&mut v, "\u{1b}[0m");
    chars_string(&v)
}

/// Formats the start of a processing phase: the separator line and
/// the phase name.
pub fn log_phase_start(phase_name: &str) -> (r: Vec<String>)
    ensures
        r@.len() == 2,
        r@[0]@ == spec_separator(),
        r@[1]@ == phase_name@,
{
    let mut r: Vec<String> = Vec::new();
    r.push(log_separator());
    r.push(phase_name.to_owned());
    r
}

/// One labelled, highlighted value line of the startup banner.
pub open spec fn spec_info_line(label: Seq<char>, value: Seq<char>) -> Seq<char> {
    label + " :-> \u{1b}[32m"@ + value + "\u{1b}[0m"@
}

fn info_line(label: &str, value: &str) -> (r: String)
    ensures
        r@ == spec_info_line(label@, value@),
{
    let mut v: Vec<char> = Vec::new();
    push_str_chars(&mut v, label);
    push_str_chars(&mut v, " :-> \u{1b}[32m");
    push_str_chars(&mut v, value);
    push_str_chars(&mut v, "\u{1b}[0m");
    chars_string(&v)
}

/// Formats the startup banner: the run's version, configuration and
/// file paths, each labelled, between separator lines, ending with
/// the opening message.
pub fn log_system_info(
    version: &str,
    config_file: &str,
    yaml_file: &str,
    log_file: &str,
    input_file: &str,
    database_file: &str,
    guiding_sheet: &str,
) -> (r: Vec<String>)
    ensures
        r@.len() == 10,
        r@[0]@ == spec_separator(),
        r@[1]@ == spec_info_line("Current Version        "@, version@),
        r@[2]@ == spec_info_line("Config/TOML File       "@, config_file@),
        r@[3]@ == spec_info_line("YAML Queries File      "@, yaml_file@),
        r@[4]@ == spec_info_line("LOG File               "@, log_file@),
        r@[5]@ == spec_info_line("Excel Sheet Input file "@, input_file@),
        r@[6]@ == spec_info_line("Output SQLite3 Database"@, database_file@),
        r@[7]@ == spec_info_line("Guiding Excel Sheet    "@, guiding_sheet@),
        r@[8]@ == spec_separator(),
        r@[9]@
            == "Personal Data Warehouse Processes are Starting | ET&L -> Extract, Transform & Loader !"@,
{
    let mut r: Vec<String> = Vec::new();
    r.push(log_separator());
    r.push(info_line("Current Version        ", version));
    r.push(info_line("Config/TOML File       ", config_file));
    r.push(info_line("YAML Queries File      ", yaml_file));
    r.push(info_line("LOG File               ", log_file));
    r.push(info_line("Excel Sheet Input file ", input_file));
    r.push(info_line("Output SQLite3 Database", database_file));
    r.push(info_line("Guiding Excel Sheet    ", guiding_sheet));
    r.push(log_separator());
    r.push(
        "Personal Data Warehouse Processes are Starting | ET&L -> Extract, Transform & Loader !".to_owned(),
    );
    r
}

/// The completion line of a run log: start and end stamps, the
/// elapsed seconds, version, host and operating system, each piece
/// preformatted by the caller.
pub fn log_completion_line(
    started: &str,
    ended: &str,
    total_secs: &str,
    version: &str,
    host: &str,
    os: &str,
) -> (r: String)
    ensures
        r@ == started@ + " Started | "@ + ended@ + " Ended | "@ + total_secs@
            + " TotalSecs | Version "@ + version@ + " | Hostname "@ + host@ + " | OS "@ + os@,
{
    let mut v: Vec<char> = Vec::new();
    push_str_chars(&mut v, started);
    push_str_chars(&mut v, " Started | ");
    push_str_chars(&mut v, ended);
    push_str_chars(&mut v, " Ended | ");
    push_str_chars(&mut v, total_secs);
    push_str_chars(&mut v, " TotalSecs | Version ");
    push_str_chars(&mut v, version);
    push_str_chars(&mut v, " | Hostname ");
    push_str_chars(&mut v, host);
    push_str_chars(&mut v, " | OS ");
    push_str_chars(&mut v, os);
    chars_string(&v)
}

} // verus!
