//! The logging rules: levels, the runtime log configuration, and what
//! each message produces. The daemon supplies the timestamp and writes
//! the returned lines; only the decision and the formatting live here.

use vstd::prelude::*;

verus! {

/// A log file is rotated away once it reaches this size in bytes.
pub const MAX_LOG_SIZE: u64 = 50 * 1024 * 1024;

/// Log levels, most severe first.
#[derive(Clone, Copy, Debug, PartialEq, Eq, Structural)]
pub enum LogLevel {
    Error,
    Warn,
    Info,
    Debug,
}

/// The runtime logging configuration.
#[derive(Clone, Copy, Debug, PartialEq, Eq, Structural)]
pub struct Config {
    pub level: LogLevel,
}

impl Default for Config {
    fn default() -> (r: Self)
        ensures
            r.level == LogLevel::Info,
    {
        Config { level: LogLevel::Info }
    }
}

/// Turn verbose output on or off: verbose means the debug level.
pub fn set_verbose(cfg: &mut Config, enabled: bool)
    ensures
        final(cfg).level == if enabled {
            LogLevel::Debug
        } else {
            LogLevel::Info
        },
{
    cfg.level = if enabled {
        LogLevel::Debug
    } else {
        LogLevel::Info
    };
}

/// Set the log level directly.
pub fn set_log_level(cfg: &mut Config, level: LogLevel)
    ensures
        final(cfg).level == level,
{
    cfg.level = level;
}

/// What one message produces: a line for the log file, a line for the
/// console, or neither.
#[derive(Debug)]
pub struct LogOutput {
    pub file_line: Option<String>,
    pub console_line: Option<String>,
    pub console_is_error: bool,
}

/// The formatted line: `[timestamp][prefix] message`.
pub open spec fn formatted_line(ts: Seq<char>, prefix: Seq<char>, message: Seq<char>) -> Seq<
    char,
> {
    "["@ + ts + "]["@ + prefix + "] "@ + message
}

/// Whether a message of this level reaches the log file: debug lines
/// only in debug mode, everything else always.
pub open spec fn writes_file(cfg: Config, level: LogLevel) -> bool {
    level != LogLevel::Debug || cfg.level == LogLevel::Debug
}

/// Whether a message of this level reaches the console: only in debug
/// mode.
pub open spec fn writes_console(cfg: Config, level: LogLevel) -> bool {
    cfg.level == LogLevel::Debug
}

/// Format one message and decide where it goes.
pub fn log(cfg: &Config, level: LogLevel, prefix: &str, timestamp: &str, message: &str) -> (r:
    LogOutput)
    ensures
        (r.file_line is Some) == writes_file(*cfg, level),
        (r.console_line is Some) == writes_console(*cfg, level),
        (r.file_line matches Some(l) ==> l@ == formatted_line(timestamp@, prefix@, message@)),
        (r.console_line matches Some(l) ==> l@ == formatted_line(timestamp@, prefix@, message@)),
        r.console_is_error == (level == LogLevel::Error),
{
    let mut line = String::new();
    line.append("[");
    line.append(timestamp);
    line.append("][");
    line.append(prefix);
    line.append("] ");
    line.append(message);
    proof {
        assert(line@ =~= formatted_line(timestamp@, prefix@, message@));
    }
    let to_file = !matches!(level, LogLevel::Debug) || matches!(cfg.level, LogLevel::Debug);
    let to_console = matches!(cfg.level, LogLevel::Debug);
    let file_line = if to_file {
        Some(line.clone())
    } else {
        None
    };
    let console_line = if to_console {
        Some(line)
    } else {
        None
    };
    LogOutput { file_line, console_line, console_is_error: matches!(level, LogLevel::Error) }
}

/// An informational message, under the daemon's own name.
pub fn log_message(cfg: &Config, timestamp: &str, message: &str) -> (r: LogOutput)
    ensures
        (r.file_line is Some) == writes_file(*cfg, LogLevel::Info),
        (r.file_line matches Some(l) ==> l@ == formatted_line(timestamp@, "Stasis"@, message@)),
        (r.console_line is Some) == writes_console(*cfg, LogLevel::Info),
        !r.console_is_error,
{
    log(cfg, LogLevel::Info, "Stasis", timestamp, message)
}

/// A debug message; visible only in verbose mode.
pub fn log_debug_message(cfg: &Config, timestamp: &str, message: &str) -> (r: LogOutput)
    ensures
        (r.file_line is Some) == writes_file(*cfg, LogLevel::Debug),
        (r.file_line matches Some(l) ==> l@ == formatted_line(timestamp@, "Debug"@, message@)),
        (r.console_line is Some) == writes_console(*cfg, LogLevel::Debug),
        !r.console_is_error,
{
    log(cfg, LogLevel::Debug, "Debug", timestamp, message)
}

/// A warning.
pub fn log_warning_message(cfg: &Config, timestamp: &str, message: &str) -> (r: LogOutput)
    ensures
        (r.file_line is Some) == writes_file(*cfg, LogLevel::Warn),
        (r.file_line matches Some(l) ==> l@ == formatted_line(timestamp@, "Warning"@, message@)),
        !r.console_is_error,
{
    log(cfg, LogLevel::Warn, "Warning", timestamp, message)
}

/// An error; on the console it goes to the error stream.
pub fn log_error_message(cfg: &Config, timestamp: &str, message: &str) -> (r: LogOutput)
    ensures
        (r.file_line is Some) == writes_file(*cfg, LogLevel::Error),
        (r.file_line matches Some(l) ==> l@ == formatted_line(timestamp@, "Error"@, message@)),
        r.console_is_error,
{
    log(cfg, LogLevel::Error, "Error", timestamp, message)
}

/// A media-bridge debug message.
pub fn log_media_bridge_message(cfg: &Config, timestamp: &str, message: &str) -> (r: LogOutput)
    ensures
        (r.file_line is Some) == writes_file(*cfg, LogLevel::Debug),
        (r.file_line matches Some(l) ==> l@ == formatted_line(timestamp@, "Media"@, message@)),
        !r.console_is_error,
{
    log(cfg, LogLevel::Debug, "Media", timestamp, message)
}

/// A compositor-adapter debug message.
pub fn log_wayland_message(cfg: &Config, timestamp: &str, message: &str) -> (r: LogOutput)
    ensures
        (r.file_line is Some) == writes_file(*cfg, LogLevel::Debug),
        (r.file_line matches Some(l) ==> l@ == formatted_line(timestamp@, "Wayland"@, message@)),
        !r.console_is_error,
{
    log(cfg, LogLevel::Debug, "Wayland", timestamp, message)
}

/// A DBus-adapter debug message.
pub fn log_dbus_message(cfg: &Config, timestamp: &str, message: &str) -> (r: LogOutput)
    ensures
        (r.file_line is Some) == writes_file(*cfg, LogLevel::Debug),
        (r.file_line matches Some(l) ==> l@ == formatted_line(timestamp@, "D-Bus"@, message@)),
        !r.console_is_error,
{
    log(cfg, LogLevel::Debug, "D-Bus", timestamp, message)
}

/// Whether a log file of this size must be rotated away.
pub fn should_rotate(size: u64) -> (r: bool)
    ensures
        r == (size >= MAX_LOG_SIZE),
{
    size >= MAX_LOG_SIZE
}

} // verus!
