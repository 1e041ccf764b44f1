//! Run configuration: directories, file names and settings, with the
//! documented defaults, the version pin, path synthesis and the
//! legacy key/value merge. Reading and writing configuration files is
//! the caller's business; the library works on plain values. Paths
//! are plain strings joined with a single separator.

use vstd::prelude::*;

use crate::error::{ConfigError, PdwError};
use crate::text::{chars_string, push_str_chars};

verus! {

/// Directory configuration.
#[derive(Clone, Debug)]
pub struct DirectoryConfig {
    pub dir_in: String,
    pub dir_out: String,
    pub database_dir: String,
    pub log_dir: String,
}

/// File type configuration.
#[derive(Clone, Debug)]
pub struct FileTypeConfig {
    pub type_in: String,
    pub type_out: String,
    pub db_file_type: String,
    pub log_file: String,
    pub input_file: String,
    pub out_db_file: String,
    pub out_rpt_file: String,
    pub transient_data_file: Option<String>,
}

/// Settings configuration.
#[derive(Clone, Debug)]
pub struct SettingsConfig {
    pub current_version: String,
    pub api_version: Option<String>,
    pub guiding_table: String,
    pub types_of_entries: String,
    pub general_entries_table: String,
    pub run_data_loader: bool,
    pub run_reports: bool,
    pub overwrite_db: bool,
    pub create_pivot: bool,
    pub rpt_single_file: bool,
    pub parallels: Option<u32>,
    pub multithreading: bool,
    pub save_discarted_data: bool,
    pub discarted_data_table: String,
    pub anual_pivot_table: String,
    pub full_pivot_table: String,
    pub run_dinamic_report: bool,
    pub din_report_guiding: String,
    pub export_transient_data: bool,
    pub transient_data_table: Option<String>,
    pub transient_data_column: String,
    pub export_other_types: bool,
    pub dayly_progress: String,
    pub splt_paymnt_tab: String,
    pub out_res_pmnt_tab: String,
    pub monthly_summaties: String,
    pub yaml_sql_file: String,
}

/// Main configuration structure.
#[derive(Clone, Debug)]
pub struct PdwConfig {
    pub directories: DirectoryConfig,
    pub file_types: FileTypeConfig,
    pub settings: SettingsConfig,
}

/// The version this library is pinned to.
pub const SUPPORTED_VERSION: &'static str = "9.11.0";

impl Default for PdwConfig {
    /// The documented default configuration.
    fn default() -> (r: PdwConfig)
        ensures
            r.directories.dir_in@ == "./input/"@,
            r.directories.dir_out@ == "./output/"@,
            r.directories.database_dir@ == "./database/"@,
            r.directories.log_dir@ == "./logs/"@,
            r.file_types.type_in@ == "xlsx"@,
            r.file_types.type_out@ == "xlsx"@,
            r.file_types.db_file_type@ == "db"@,
            r.file_types.log_file@ == "PDW.SysMap.log"@,
            r.file_types.input_file@ == "PDW"@,
            r.file_types.out_db_file@ == "PDW"@,
            r.file_types.out_rpt_file@ == "PDW_REPORTS.v2"@,
            r.file_types.transient_data_file matches Some(s) && s@
                == "Lancamentos_Gerais_TMP"@,
            r.settings.current_version@ == "9.11.0"@,
            r.settings.api_version matches Some(s) && s@ == "2.0.0"@,
            r.settings.guiding_table@ == "GUIDING"@,
            r.settings.types_of_entries@ == "TiposLancamentos"@,
            r.settings.general_entries_table@ == "LANCAMENTOS_GERAIS"@,
            r.settings.run_data_loader == true,
            r.settings.run_reports == true,
            r.settings.overwrite_db == true,
            r.settings.create_pivot == true,
            r.settings.rpt_single_file == true,
            r.settings.parallels == Some(89u32),
            r.settings.multithreading == false,
            r.settings.save_discarted_data == false,
            r.settings.discarted_data_table@ == "discarted_data"@,
            r.settings.anual_pivot_table@ == "HistoricoAnual"@,
            r.settings.full_pivot_table@ == "HistoricoGeral"@,
            r.settings.run_dinamic_report == true,
            r.settings.din_report_guiding@ == "General_din_reports"@,
            r.settings.export_transient_data == false,
            r.settings.transient_data_table matches Some(s) && s@ == "Transient_data"@,
            r.settings.transient_data_column@ == "Origem"@,
            r.settings.export_other_types == false,
            r.settings.dayly_progress@ == "contagem_diaria"@,
            r.settings.splt_paymnt_tab@ == "PARCELAMENTOS"@,
            r.settings.out_res_pmnt_tab@ == "Resumo_Parcelamentos"@,
            r.settings.monthly_summaties@ == "Resumido_In_Out"@,
            r.settings.yaml_sql_file@ == "PDW_QUERIES.yaml"@,
    {
        PdwConfig {
            directories: DirectoryConfig {
                dir_in: "./input/".to_owned(),
                dir_out: "./output/".to_owned(),
                database_dir: "./database/".to_owned(),
                log_dir: "./logs/".to_owned(),
            },
            file_types: FileTypeConfig {
                type_in: "xlsx".to_owned(),
                type_out: "xlsx".to_owned(),
                db_file_type: "db".to_owned(),
                log_file: "PDW.SysMap.log".to_owned(),
                input_file: "PDW".to_owned(),
                out_db_file: "PDW".to_owned(),
                out_rpt_file: "PDW_REPORTS.v2".to_owned(),
                transient_data_file: Some("Lancamentos_Gerais_TMP".to_owned()),
            },
            settings: SettingsConfig {
                current_version: "9.11.0".to_owned(),
                api_version: Some("2.0.0".to_owned()),
                guiding_table: "GUIDING".to_owned(),
                types_of_entries: "TiposLancamentos".to_owned(),
                general_entries_table: "LANCAMENTOS_GERAIS".to_owned(),
                run_data_loader: true,
                run_reports: true,
                overwrite_db: true,
                create_pivot: true,
                rpt_single_file: true,
                parallels: Some(89),
                multithreading: false,
                save_discarted_data: false,
                discarted_data_table: "discarted_data".to_owned(),
                anual_pivot_table: "HistoricoAnual".to_owned(),
                full_pivot_table: "HistoricoGeral".to_owned(),
                run_dinamic_report: true,
                din_report_guiding: "General_din_reports".to_owned(),
                export_transient_data: false,
                transient_data_table: Some("Transient_data".to_owned()),
                transient_data_column: "Origem".to_owned(),
                export_other_types: false,
                dayly_progress: "contagem_diaria".to_owned(),
                splt_paymnt_tab: "PARCELAMENTOS".to_owned(),
                out_res_pmnt_tab: "Resumo_Parcelamentos".to_owned(),
                monthly_summaties: "Resumido_In_Out".to_owned(),
                yaml_sql_file: "PDW_QUERIES.yaml".to_owned(),
            },
        }
    }
}

/// A directory and a file name joined with a single separator.
pub open spec fn spec_path_join(dir: Seq<char>, name: Seq<char>) -> Seq<char> {
    if dir.len() > 0 && dir[dir.len() - 1] == '/' {
        dir + name
    } else {
        dir + seq!['/'] + name
    }
}

fn path_join(dir: &str, name: &str) -> (r: String)
    ensures
        r@ == spec_path_join(dir@, name@),
{
    let dc = crate::text::str_chars(dir);
    let mut v: Vec<char> = Vec::new();
    crate::text::push_chars(&mut v, &dc);
    if !(dc.len() > 0 && dc[dc.len() - 1] == '/') {
        v.push('/');
    }
    push_str_chars(&mut v, name);
    proof {
        assert(v@ =~= spec_path_join(dir@, name@));
    }
    chars_string(&v)
}

/// Relies on `chrono::Local::now` and its `format`: the current local
/// time rendered with the pattern `%Y%m%d.%H%M%S`. The result depends
/// on the clock, so nothing is promised of it.
#[verifier::external_body]
fn local_timestamp() -> String {
    chrono::Local::now().format("%Y%m%d.%H%M%S").to_string()
}

/// The first value under the given section and key, if any.
pub open spec fn ini_lookup(
    entries: Seq<(Seq<char>, Seq<char>, Seq<char>)>,
    section: Seq<char>,
    key: Seq<char>,
) -> Option<Seq<char>>
    decreases entries.len(),
{
    if entries.len() == 0 {
        None
    } else if entries[0].0 == section && entries[0].1 == key {
        Some(entries[0].2)
    } else {
        ini_lookup(entries.drop_first(), section, key)
    }
}

/// The view of legacy key/value entries.
pub open spec fn entries_view(entries: Seq<(String, String, String)>) -> Seq<
    (Seq<char>, Seq<char>, Seq<char>),
> {
    entries.map_values(|e: (String, String, String)| (e.0@, e.1@, e.2@))
}

/// A setting text as a flag: exactly `true` or `false`, anything else
/// keeping the default.
pub open spec fn spec_flag_of(v: Option<Seq<char>>, default: bool) -> bool {
    match v {
        Some(s) => if s == "true"@ {
            true
        } else if s == "false"@ {
            false
        } else {
            default
        },
        None => default,
    }
}

fn lookup_entry(entries: &Vec<(String, String, String)>, section: &str, key: &str) -> (r: Option<
    String,
>)
    ensures
        match r {
            Some(s) => ini_lookup(entries_view(entries@), section@, key@) == Some(s@),
            None => ini_lookup(entries_view(entries@), section@, key@) is None,
        },
{
    let ghost ev = entries_view(entries@);
    let mut i: usize = 0;
    proof {
        assert(ev.skip(0) =~= ev);
    }
    while i < entries.len()
        invariant
            0 <= i <= entries@.len(),
            ev == entries_view(entries@),
            ini_lookup(ev, section@, key@) == ini_lookup(ev.skip(i as int), section@, key@),
        decreases entries@.len() - i,
    {
        let ghost rest = ev.skip(i as int);
        proof {
            assert(rest[0] == ev[i as int]);
            assert(ev[i as int] == (entries@[i as int].0@, entries@[i as int].1@, entries@[i as int].2@));
            assert(rest.drop_first() =~= ev.skip(i + 1));
        }
        let e = &entries[i];
        let sec = section.to_owned();
        let k = key.to_owned();
        if e.0 == sec && e.1 == k {
            return Some(e.2.clone());
        }
        i = i + 1;
    }
    proof {
        assert(ev.skip(ev.len() as int) =~= Seq::<(Seq<char>, Seq<char>, Seq<char>)>::empty());
    }
    None
}

fn flag_of(v: &Option<String>, default: bool) -> (r: bool)
    ensures
        r == spec_flag_of(
            match v {
                Some(s) => Some(s@),
                None => None,
            },
            default,
        ),
{
    match v {
        Some(s) => {
            let t = "true".to_owned();
            let f = "false".to_owned();
            if *s == t {
                true
            } else if *s == f {
                false
            } else {
                default
            }
        },
        None => default,
    }
}

impl PdwConfig {
    /// Checks the version pin: any other version is refused.
    /// Filesystem validation (directories, the input workbook) is the
    /// calling program's business.
    pub fn validate(&self) -> (r: Result<(), PdwError>)
        ensures
            r is Ok <==> self.settings.current_version@ == "9.11.0"@,
            r matches Err(e) ==> e matches PdwError::Config(
                ConfigError::VersionMismatch { expected, found },
            ) && expected@ == "9.11.0"@ && found@ == self.settings.current_version@,
    {
        let expected = SUPPORTED_VERSION.to_owned();
        if self.settings.current_version == expected {
            Ok(())
        } else {
            Err(
                PdwError::Config(
                    ConfigError::VersionMismatch {
                        expected: SUPPORTED_VERSION.to_owned(),
                        found: self.settings.current_version.clone(),
                    },
                ),
            )
        }
    }

    /// The input workbook path: the input directory, the input file
    /// name and the input type.
    pub fn get_input_file_path(&self) -> (r: String)
        ensures
            r@ == spec_path_join(
                self.directories.dir_in@,
                self.file_types.input_file@ + "."@ + self.file_types.type_in@,
            ),
    {
        let mut v: Vec<char> = Vec::new();
        push_str_chars(&mut v, self.file_types.input_file.as_str());
        push_str_chars(&mut v, ".");
        push_str_chars(&mut v, self.file_types.type_in.as_str());
        let name = chars_string(&v);
        path_join(self.directories.dir_in.as_str(), name.as_str())
    }

    /// The database path. With overwriting on, the fixed name; else a
    /// name carrying a clock stamp, about which nothing is promised
    /// beyond its place in the name.
    pub fn get_database_path(&self) -> (r: String)
        ensures
            self.settings.overwrite_db ==> r@ == spec_path_join(
                self.directories.database_dir@,
                self.file_types.out_db_file@ + "."@ + self.file_types.db_file_type@,
            ),
            !self.settings.overwrite_db ==> exists|stamp: Seq<char>|
                r@ == spec_path_join(
                    self.directories.database_dir@,
                    self.file_types.out_db_file@ + "."@ + stamp + "."@
                        + self.file_types.db_file_type@,
                ),
    {
        let mut v: Vec<char> = Vec::new();
        push_str_chars(&mut v, self.file_types.out_db_file.as_str());
        push_str_chars(&mut v, ".");
        if !self.settings.overwrite_db {
            let stamp = local_timestamp();
            let ghost st = stamp@;
            push_str_chars(&mut v, stamp.as_str());
            push_str_chars(&mut v, ".");
            push_str_chars(&mut v, self.file_types.db_file_type.as_str());
            let name = chars_string(&v);
            let r = path_join(self.directories.database_dir.as_str(), name.as_str());
            proof {
                assert(name@ == self.file_types.out_db_file@ + "."@ + st + "."@
                    + self.file_types.db_file_type@);
            }
            r
        } else {
            push_str_chars(&mut v, self.file_types.db_file_type.as_str());
            let name = chars_string(&v);
            path_join(self.directories.database_dir.as_str(), name.as_str())
        }
    }

    /// The log file path.
    pub fn get_log_file_path(&self) -> (r: String)
        ensures
            r@ == spec_path_join(self.directories.log_dir@, self.file_types.log_file@),
    {
        path_join(self.directories.log_dir.as_str(), self.file_types.log_file.as_str())
    }

    /// The templated-queries file path.
    pub fn get_yaml_queries_path(&self) -> (r: String)
        ensures
            r@ == spec_path_join(self.directories.dir_in@, self.settings.yaml_sql_file@),
    {
        path_join(self.directories.dir_in.as_str(), self.settings.yaml_sql_file.as_str())
    }

    /// Merges legacy key/value entries (section, key, value) into the
    /// defaults: a named entry overrides its field, the first
    /// occurrence winning; flags take exactly `true` or `false`.
    #[verifier::rlimit(100)]
    pub fn load_from_ini(entries: &Vec<(String, String, String)>) -> (r: PdwConfig)
        ensures
            r.directories.dir_in@ == spec_text_or(
                ini_lookup(entries_view(entries@), "DIRECTORIES"@, "DIR_IN"@),
                "./input/"@,
            ),
            r.directories.dir_out@ == spec_text_or(
                ini_lookup(entries_view(entries@), "DIRECTORIES"@, "DIR_OUT"@),
                "./output/"@,
            ),
            r.directories.database_dir@ == spec_text_or(
                ini_lookup(entries_view(entries@), "DIRECTORIES"@, "DATABASE_DIR"@),
                "./database/"@,
            ),
            r.directories.log_dir@ == spec_text_or(
                ini_lookup(entries_view(entries@), "DIRECTORIES"@, "LOG_DIR"@),
                "./logs/"@,
            ),
            r.file_types.type_in@ == spec_text_or(
                ini_lookup(entries_view(entries@), "FILE_TYPES"@, "TYPE_IN"@),
                "xlsx"@,
            ),
            r.file_types.type_out@ == spec_text_or(
                ini_lookup(entries_view(entries@), "FILE_TYPES"@, "TYPE_OUT"@),
                "xlsx"@,
            ),
            r.file_types.db_file_type@ == spec_text_or(
                ini_lookup(entries_view(entries@), "FILE_TYPES"@, "DB_FILE_TYPE"@),
                "db"@,
            ),
            r.file_types.log_file@ == spec_text_or(
                ini_lookup(entries_view(entries@), "FILE_TYPES"@, "LOG_FILE"@),
                "PDW.SysMap.log"@,
            ),
            r.file_types.input_file@ == spec_text_or(
                ini_lookup(entries_view(entries@), "FILE_TYPES"@, "INPUT_FILE"@),
                "PDW"@,
            ),
            r.file_types.out_db_file@ == spec_text_or(
                ini_lookup(entries_view(entries@), "FILE_TYPES"@, "OUT_DB_FILE"@),
                "PDW"@,
            ),
            r.file_types.out_rpt_file@ == spec_text_or(
                ini_lookup(entries_view(entries@), "FILE_TYPES"@, "OUT_RPT_FILE"@),
                "PDW_REPORTS.v2"@,
            ),
            r.settings.current_version@ == spec_text_or(
                ini_lookup(entries_view(entries@), "SETTINGS"@, "CURRENT_VERSION"@),
                "9.11.0"@,
            ),
            r.settings.guiding_table@ == spec_text_or(
                ini_lookup(entries_view(entries@), "SETTINGS"@, "GUIDING_TABLE"@),
                "GUIDING"@,
            ),
            r.settings.types_of_entries@ == spec_text_or(
                ini_lookup(entries_view(entries@), "SETTINGS"@, "TYPES_OF_ENTRIES"@),
                "TiposLancamentos"@,
            ),
            r.settings.general_entries_table@ == spec_text_or(
                ini_lookup(entries_view(entries@), "SETTINGS"@, "GENERAL_ENTRIES_TABLE"@),
                "LANCAMENTOS_GERAIS"@,
            ),
            r.settings.run_data_loader == spec_flag_of(
                ini_lookup(entries_view(entries@), "SETTINGS"@, "RUN_DATA_LOADER"@),
                true,
            ),
            r.settings.run_reports == spec_flag_of(
                ini_lookup(entries_view(entries@), "SETTINGS"@, "RUN_REPORTS"@),
                true,
            ),
            r.settings.overwrite_db == spec_flag_of(
                ini_lookup(entries_view(entries@), "SETTINGS"@, "OVERWRITE_DB"@),
                true,
            ),
            r.settings.create_pivot == spec_flag_of(
                ini_lookup(entries_view(entries@), "SETTINGS"@, "CREATE_PIVOT"@),
                true,
            ),
            r.settings.multithreading == spec_flag_of(
                ini_lookup(entries_view(entries@), "SETTINGS"@, "MULTITHREADING"@),
                false,
            ),
            r.settings.yaml_sql_file@ == spec_text_or(
                ini_lookup(entries_view(entries@), "SETTINGS"@, "YAML_SQL_FILE"@),
                "PDW_QUERIES.yaml"@,
            ),
            r.settings.anual_pivot_table@ == "HistoricoAnual"@,
            r.settings.full_pivot_table@ == "HistoricoGeral"@,
            r.settings.discarted_data_table@ == "discarted_data"@,
            r.settings.din_report_guiding@ == "General_din_reports"@,
            r.settings.dayly_progress@ == "contagem_diaria"@,
            r.settings.splt_paymnt_tab@ == "PARCELAMENTOS"@,
            r.settings.out_res_pmnt_tab@ == "Resumo_Parcelamentos"@,
            r.settings.monthly_summaties@ == "Resumido_In_Out"@,
            r.settings.save_discarted_data == false,
            r.settings.run_dinamic_report == true,
            r.settings.export_other_types == false,
            r.settings.rpt_single_file == true,
    {
        let dir_in = text_or(lookup_entry(entries, "DIRECTORIES", "DIR_IN"), "./input/");
        let dir_out = text_or(lookup_entry(entries, "DIRECTORIES", "DIR_OUT"), "./output/");
        let database_dir = text_or(
            lookup_entry(entries, "DIRECTORIES", "DATABASE_DIR"),
            "./database/",
        );
        let log_dir = text_or(lookup_entry(entries, "DIRECTORIES", "LOG_DIR"), "./logs/");
        let type_in = text_or(lookup_entry(entries, "FILE_TYPES", "TYPE_IN"), "xlsx");
        let type_out = text_or(lookup_entry(entries, "FILE_TYPES", "TYPE_OUT"), "xlsx");
        let db_file_type = text_or(lookup_entry(entries, "FILE_TYPES", "DB_FILE_TYPE"), "db");
        let log_file = text_or(
            lookup_entry(entries, "FILE_TYPES", "LOG_FILE"),
            "PDW.SysMap.log",
        );
        let input_file = text_or(lookup_entry(entries, "FILE_TYPES", "INPUT_FILE"), "PDW");
        let out_db_file = text_or(lookup_entry(entries, "FILE_TYPES", "OUT_DB_FILE"), "PDW");
        let out_rpt_file = text_or(
            lookup_entry(entries, "FILE_TYPES", "OUT_RPT_FILE"),
            "PDW_REPORTS.v2",
        );
        let current_version = text_or(
            lookup_entry(entries, "SETTINGS", "CURRENT_VERSION"),
            "9.11.0",
        );
        let guiding_table = text_or(lookup_entry(entries, "SETTINGS", "GUIDING_TABLE"), "GUIDING");
        let types_of_entries = text_or(
            lookup_entry(entries, "SETTINGS", "TYPES_OF_ENTRIES"),
            "TiposLancamentos",
        );
        let general_entries_table = text_or(
            lookup_entry(entries, "SETTINGS", "GENERAL_ENTRIES_TABLE"),
            "LANCAMENTOS_GERAIS",
        );
        let run_data_loader_txt = lookup_entry(entries, "SETTINGS", "RUN_DATA_LOADER");
        let run_reports_txt = lookup_entry(entries, "SETTINGS", "RUN_REPORTS");
        let overwrite_db_txt = lookup_entry(entries, "SETTINGS", "OVERWRITE_DB");
        let create_pivot_txt = lookup_entry(entries, "SETTINGS", "CREATE_PIVOT");
        let multithreading_txt = lookup_entry(entries, "SETTINGS", "MULTITHREADING");
        let yaml_sql_file = text_or(
            lookup_entry(entries, "SETTINGS", "YAML_SQL_FILE"),
            "PDW_QUERIES.yaml",
        );
        PdwConfig {
            directories: DirectoryConfig { dir_in, dir_out, database_dir, log_dir },
            file_types: FileTypeConfig {
                type_in,
                type_out,
                db_file_type,
                log_file,
                input_file,
                out_db_file,
                out_rpt_file,
                transient_data_file: Some("Lancamentos_Gerais_TMP".to_owned()),
            },
            settings: SettingsConfig {
                current_version,
                api_version: Some("2.0.0".to_owned()),
                guiding_table,
                types_of_entries,
                general_entries_table,
                run_data_loader: flag_of(&run_data_loader_txt, true),
                run_reports: flag_of(&run_reports_txt, true),
                overwrite_db: flag_of(&overwrite_db_txt, true),
                create_pivot: flag_of(&create_pivot_txt, true),
                rpt_single_file: true,
                parallels: Some(89),
                multithreading: flag_of(&multithreading_txt, false),
                save_discarted_data: false,
                discarted_data_table: "discarted_data".to_owned(),
                anual_pivot_table: "HistoricoAnual".to_owned(),
                full_pivot_table: "HistoricoGeral".to_owned(),
                run_dinamic_report: true,
                din_report_guiding: "General_din_reports".to_owned(),
                export_transient_data: false,
                transient_data_table: Some("Transient_data".to_owned()),
                transient_data_column: "Origem".to_owned(),
                export_other_types: false,
                dayly_progress: "contagem_diaria".to_owned(),
                splt_paymnt_tab: "PARCELAMENTOS".to_owned(),
                out_res_pmnt_tab: "Resumo_Parcelamentos".to_owned(),
                monthly_summaties: "Resumido_In_Out".to_owned(),
                yaml_sql_file,
            },
        }
    }
}

/// The looked-up value when present, else the default text.
fn text_or(v: Option<String>, default: &str) -> (r: String)
    ensures
        r@ == spec_text_or(
            match v {
                Some(s) => Some(s@),
                None => None,
            },
            default@,
        ),
{
    match v {
        Some(s) => s,
        None => default.to_owned(),
    }
}

/// A setting text when present, the default otherwise.
pub open spec fn spec_text_or(v: Option<Seq<char>>, default: Seq<char>) -> Seq<char> {
    match v {
        Some(s) => s,
        None => default,
    }
}

} // verus!
