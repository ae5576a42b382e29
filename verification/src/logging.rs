//! Reading the logging settings: the level named by `LOGLEVEL` (any case,
//! `INFO` when unset or unknown) and whether `ENABLE_TRACING` asks for
//! tracing.
use vstd::prelude::*;

verus! {

/// Severity threshold of the log.
#[derive(Clone, Copy, Debug, PartialEq, Eq, Structural)]
pub enum LogLevel {
    /// Everything.
    Trace,
    /// Debugging and above.
    Debug,
    /// Information and above.
    Info,
    /// Warnings and errors.
    Warn,
    /// Errors only.
    Error,
}

/// What `str::to_uppercase` makes of a text.
pub uninterp spec fn upper_text(s: Seq<char>) -> Seq<char>;

/// `str::to_uppercase`; the result is named `upper_text`.
#[verifier::external_body]
fn to_uppercase(s: &str) -> (r: String)
    ensures
        r@ == upper_text(s@),
{
    s.to_uppercase()
}

/// The level an upper-case level name stands for; an unknown name is
/// `Info`.
pub open spec fn level_of_name(name: Seq<char>) -> LogLevel {
    if name == "DEBUG"@ {
        LogLevel::Debug
    } else if name == "ERROR"@ {
        LogLevel::Error
    } else if name == "WARN"@ {
        LogLevel::Warn
    } else if name == "TRACE"@ {
        LogLevel::Trace
    } else {
        LogLevel::Info
    }
}

/// The log level for the value of the `LOGLEVEL` setting: the value is
/// upper-cased and looked up; `Info` when the setting is absent.
pub fn log_level_setting(value: Option<&str>) -> (l: LogLevel)
    ensures
        l == (match value {
            None => LogLevel::Info,
            Some(v) => level_of_name(upper_text(v@)),
        }),
{
    match value {
        None => LogLevel::Info,
        Some(v) => {
            let name = to_uppercase(v);
            if name == "DEBUG".to_owned() {
                LogLevel::Debug
            } else if name == "ERROR".to_owned() {
                LogLevel::Error
            } else if name == "WARN".to_owned() {
                LogLevel::Warn
            } else if name == "TRACE".to_owned() {
                LogLevel::Trace
            } else {
                LogLevel::Info
            }
        },
    }
}

/// Whether the value of the `ENABLE_TRACING` setting turns tracing on:
/// exactly `true`, in lower case.
pub fn tracing_setting(value: Option<&str>) -> (b: bool)
    ensures
        b == (match value {
            None => false,
            Some(v) => v@ == "true"@,
        }),
{
    match value {
        None => false,
        Some(v) => v.to_owned() == "true".to_owned(),
    }
}

impl LogLevel {
    /// The level's name in upper case.
    pub fn name(&self) -> (s: String)
        ensures
            s@ == (match self {
                LogLevel::Trace => "TRACE"@,
                LogLevel::Debug => "DEBUG"@,
                LogLevel::Info => "INFO"@,
                LogLevel::Warn => "WARN"@,
                LogLevel::Error => "ERROR"@,
            }),
    {
        match self {
            LogLevel::Trace => "TRACE".to_owned(),
            LogLevel::Debug => "DEBUG".to_owned(),
            LogLevel::Info => "INFO".to_owned(),
            LogLevel::Warn => "WARN".to_owned(),
            LogLevel::Error => "ERROR".to_owned(),
        }
    }
}

} // verus!
