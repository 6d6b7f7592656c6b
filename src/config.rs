//! Settings of the service, from defaults and from values given as text
//! (as the environment holds them).
use vstd::prelude::*;
use crate::text::str_eq;

verus! {

/// How much the service logs.
#[derive(Debug, Clone, Copy, PartialEq, Eq, Structural)]
pub enum LogLevel {
    Error,
    Warn,
    Info,
    Debug,
    Trace,
}

/// Settings of the service.
#[derive(Debug, Clone)]
pub struct AppConfig {
    /// Port the server listens on.
    pub port: u16,
    /// How much is logged.
    pub log_level: LogLevel,
    /// Largest request body accepted, in bytes.
    pub max_file_size: usize,
    /// Directory for uploaded files.
    pub upload_dir: String,
}

/// Largest request body accepted by default: 10 MiB.
pub const DEFAULT_MAX_FILE_SIZE: usize = 10 * 1024 * 1024;

impl Default for AppConfig {
    fn default() -> (r: AppConfig)
        ensures
            r.port == 8080,
            r.log_level == LogLevel::Info,
            r.max_file_size == DEFAULT_MAX_FILE_SIZE,
            r.upload_dir@ == "uploads"@,
    {
        AppConfig {
            port: 8080,
            log_level: LogLevel::Info,
            max_file_size: DEFAULT_MAX_FILE_SIZE,
            upload_dir: String::from_str("uploads"),
        }
    }
}

/// The value of the decimal digits `d`.
pub open spec fn digits_value(d: Seq<char>) -> nat
    decreases d.len(),
{
    if d.len() == 0 {
        0
    } else {
        digits_value(d.drop_last()) * 10 + (d.last() as nat - 48) as nat
    }
}

/// What `str::parse` gives for an unsigned integer type whose largest value is
/// `max`: an optional `+` then one or more ASCII digits, of value at most `max`.
pub open spec fn parse_unsigned(s: Seq<char>, max: nat) -> Option<nat> {
    let d = if s.len() > 0 && s[0] == '+' {
        s.drop_first()
    } else {
        s
    };
    if d.len() > 0 && (forall|i: int| 0 <= i < d.len() ==> '0' <= #[trigger] d[i] <= '9')
        && digits_value(d) <= max {
        Some(digits_value(d))
    } else {
        None
    }
}

/// Relies on `<u16 as FromStr>::from_str`: an optional `+` and decimal digits
/// of a value that fits; anything else is an error.
#[verifier::external_body]
fn parse_u16(s: &str) -> (r: Option<u16>)
    ensures
        match parse_unsigned(s@, u16::MAX as nat) {
            Some(v) => r == Some(v as u16),
            None => r is None,
        },
{
    s.parse::<u16>().ok()
}

/// Relies on `<usize as FromStr>::from_str`: an optional `+` and decimal
/// digits of a value that fits; anything else is an error.
#[verifier::external_body]
fn parse_usize(s: &str) -> (r: Option<usize>)
    ensures
        match parse_unsigned(s@, usize::MAX as nat) {
            Some(v) => r == Some(v as usize),
            None => r is None,
        },
{
    s.parse::<usize>().ok()
}

/// What `str::to_lowercase` gives for `s`.
pub uninterp spec fn lowercase_of(s: Seq<char>) -> Seq<char>;

/// Relies on `str::to_lowercase`, whose result depends on the characters alone.
#[verifier::external_body]
fn lowercase(s: &str) -> (r: String)
    ensures
        r@ == lowercase_of(s@),
{
    s.to_lowercase()
}

/// The level that a lowercase name stands for.
pub open spec fn log_level_of_name(s: Seq<char>) -> Option<LogLevel> {
    if s == "error"@ {
        Some(LogLevel::Error)
    } else if s == "warn"@ {
        Some(LogLevel::Warn)
    } else if s == "info"@ {
        Some(LogLevel::Info)
    } else if s == "debug"@ {
        Some(LogLevel::Debug)
    } else if s == "trace"@ {
        Some(LogLevel::Trace)
    } else {
        None
    }
}

/// The level that the lowercase name `s` stands for, if any.
pub fn log_level_from_lowercase(s: &str) -> (r: Option<LogLevel>)
    ensures
        r == log_level_of_name(s@),
{
    if str_eq(s, "error") {
        Some(LogLevel::Error)
    } else if str_eq(s, "warn") {
        Some(LogLevel::Warn)
    } else if str_eq(s, "info") {
        Some(LogLevel::Info)
    } else if str_eq(s, "debug") {
        Some(LogLevel::Debug)
    } else if str_eq(s, "trace") {
        Some(LogLevel::Trace)
    } else {
        None
    }
}

/// The level that `s` names, in any case.
pub fn parse_log_level(s: &str) -> (r: Option<LogLevel>)
    ensures
        r == log_level_of_name(lowercase_of(s@)),
{
    let lower = lowercase(s);
    log_level_from_lowercase(lower.as_str())
}

impl AppConfig {
    /// `self` with each setting replaced by the given text, where the text
    /// reads as a value of the setting; other settings are kept. The port and
    /// the size are decimal numbers, the level a name in any case, the
    /// directory any text.
    pub fn with_env_values(
        self,
        port: Option<&str>,
        log_level: Option<&str>,
        max_file_size: Option<&str>,
        upload_dir: Option<String>,
    ) -> (r: AppConfig)
        ensures
            r.port == match port {
                Some(p) => match parse_unsigned(p@, u16::MAX as nat) {
                    Some(v) => v as u16,
                    None => self.port,
                },
                None => self.port,
            },
            r.log_level == match log_level {
                Some(l) => match log_level_of_name(lowercase_of(l@)) {
                    Some(v) => v,
                    None => self.log_level,
                },
                None => self.log_level,
            },
            r.max_file_size == match max_file_size {
                Some(m) => match parse_unsigned(m@, usize::MAX as nat) {
                    Some(v) => v as usize,
                    None => self.max_file_size,
                },
                None => self.max_file_size,
            },
            r.upload_dir@ == match upload_dir {
                Some(d) => d@,
                None => self.upload_dir@,
            },
    {
        let mut config = self;
        if let Some(p) = port {
            if let Some(v) = parse_u16(p) {
                config.port = v;
            }
        }
        if let Some(l) = log_level {
            if let Some(v) = parse_log_level(l) {
                config.log_level = v;
            }
        }
        if let Some(m) = max_file_size {
            if let Some(v) = parse_usize(m) {
                config.max_file_size = v;
            }
        }
        if let Some(d) = upload_dir {
            config.upload_dir = d;
        }
        config
    }
}

} // verus!
