use vstd::prelude::*;

verus! {

/// The two logging levels the module uses: errors only by default,
/// informational output when the configuration enables debugging.
#[derive(Clone, Copy, PartialEq, Eq, Structural, Debug)]
pub enum LogLevel {
    ErrorOnly,
    Info,
}

/// The level the debug flag selects.
pub open spec fn spec_log_level_for(debug: bool) -> LogLevel {
    if debug {
        LogLevel::Info
    } else {
        LogLevel::ErrorOnly
    }
}

/// Picks the logging level for a loaded configuration: informational when
/// debugging is enabled, errors only otherwise.
pub fn log_level_for(debug_enabled: bool) -> (r: LogLevel)
    ensures
        r == spec_log_level_for(debug_enabled),
{
    if debug_enabled {
        LogLevel::Info
    } else {
        LogLevel::ErrorOnly
    }
}

/// Relies on log::set_max_level: stores the given filter in the log
/// crate's global maximum-level cell; it returns nothing and never fails.
#[verifier::external_body]
fn set_platform_max_level(level: &LogLevel) {
    log::set_max_level(
        match level {
            LogLevel::ErrorOnly => log::LevelFilter::Error,
            LogLevel::Info => log::LevelFilter::Info,
        },
    )
}

/// Applies the level the debug flag selects to the platform logger.
pub fn configure_log_level(debug_enabled: bool) {
    let level = log_level_for(debug_enabled);
    set_platform_max_level(&level);
}

/// Whether the lazily created log file has been set up in this process.
pub struct LogState {
    pub file_logging_initialized: bool,
}

impl LogState {
    /// No file logging set up yet.
    pub fn new() -> (r: Self)
        ensures
            !r.file_logging_initialized,
    {
        LogState { file_logging_initialized: false }
    }
}

/// Decides whether the append-only log file must be created now: true on
/// the first call in a process, false afterwards, so the file is set up
/// lazily and exactly once.
pub fn init_file_logging_if_needed(log_state: &mut LogState) -> (do_init: bool)
    ensures
        final(log_state).file_logging_initialized,
        do_init == !old(log_state).file_logging_initialized,
{
    let first = !log_state.file_logging_initialized;
    log_state.file_logging_initialized = true;
    first
}

} // verus!
