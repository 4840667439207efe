use vstd::prelude::*;

verus! {

#[verifier::external_type_specification]
#[verifier::external_body]
pub struct ExTracingLevel(tracing::Level);

/// The `tracing` level that a level name parses to.
pub uninterp spec fn tracing_level_named(name: Seq<char>) -> tracing::Level;

/// Relies on `tracing::Level`'s `FromStr`: each of the names `trace`,
/// `debug`, `info`, `warn` and `error` parses to a level (so the `unwrap`
/// cannot fail), and the level a name parses to depends on the name alone.
#[verifier::external_body]
fn parse_tracing_level(name: &str) -> (r: tracing::Level)
    requires
        name@ == "trace"@ || name@ == "debug"@ || name@ == "info"@ || name@ == "warn"@
            || name@ == "error"@,
    ensures
        r == tracing_level_named(name@),
{
    name.parse::<tracing::Level>().unwrap()
}

/// Logging verbosity.
#[derive(Debug, Clone, Copy, PartialEq, Eq, Structural)]
pub enum LogLevel {
    Trace,
    Debug,
    Info,
    Warn,
    Error,
}

impl LogLevel {
    /// The level's name, in lower case.
    pub open spec fn name(self) -> Seq<char> {
        match self {
            LogLevel::Trace => "trace"@,
            LogLevel::Debug => "debug"@,
            LogLevel::Info => "info"@,
            LogLevel::Warn => "warn"@,
            LogLevel::Error => "error"@,
        }
    }

    /// The level's name, in lower case.
    pub fn to_string(&self) -> (r: String)
        ensures
            r@ == self.name(),
    {
        match self {
            LogLevel::Trace => "trace".to_owned(),
            LogLevel::Debug => "debug".to_owned(),
            LogLevel::Info => "info".to_owned(),
            LogLevel::Warn => "warn".to_owned(),
            LogLevel::Error => "error".to_owned(),
        }
    }

    /// The `tracing` level of the same name.
    pub fn as_tracing_level(&self) -> (r: tracing::Level)
        ensures
            r == tracing_level_named(self.name()),
    {
        let name = match self {
            LogLevel::Trace => "trace",
            LogLevel::Debug => "debug",
            LogLevel::Info => "info",
            LogLevel::Warn => "warn",
            LogLevel::Error => "error",
        };
        parse_tracing_level(name)
    }
}

impl Default for LogLevel {
    fn default() -> (r: LogLevel)
        ensures
            r == LogLevel::Info,
    {
        LogLevel::Info
    }
}

/// Where log lines go.
#[derive(Debug, PartialEq, Eq)]
pub enum LogOutput {
    Stdout,
    Stderr,
    /// Appended to the file at this path.
    File(String),
}

impl Default for LogOutput {
    fn default() -> (r: LogOutput)
        ensures
            r == LogOutput::Stdout,
    {
        LogOutput::Stdout
    }
}

/// How log lines are laid out.
#[derive(Debug, Clone, Copy, PartialEq, Eq, Structural)]
pub enum LogFormat {
    Compact,
    Pretty,
    Json,
}

impl Default for LogFormat {
    fn default() -> (r: LogFormat)
        ensures
            r == LogFormat::Compact,
    {
        LogFormat::Compact
    }
}

/// The logging section of the configuration.
#[derive(Debug)]
pub struct LoggingConfig {
    pub level: LogLevel,
    pub output: LogOutput,
    pub format: LogFormat,
}

impl Default for LoggingConfig {
    fn default() -> (r: LoggingConfig)
        ensures
            r.level == LogLevel::Info,
            r.output == LogOutput::Stdout,
            r.format == LogFormat::Compact,
    {
        LoggingConfig { level: LogLevel::Info, output: LogOutput::Stdout, format: LogFormat::Compact }
    }
}

/// Port the server listens on when the configuration names none.
pub fn default_port() -> (r: u16)
    ensures
        r == 3000,
{
    3000
}

} // verus!
