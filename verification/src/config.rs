//! What a run needs to know: the device to read and the log to write.

use vstd::prelude::*;

verus! {

/// The device file and the log file of a run.
#[derive(Debug)]
pub struct Config {
    /// Path of the input device.
    pub device_file: String,
    /// Path of the log.
    pub log_file: String,
}

impl Config {
    /// A configuration of the two paths.
    pub fn new(device_file: String, log_file: String) -> (config: Self)
        ensures
            config.device_file == device_file,
            config.log_file == log_file,
    {
        Self { device_file, log_file }
    }
}

/// What a command line asks for.
#[derive(Debug)]
pub enum Invocation {
    /// Print the usage and leave.
    Help,
    /// Print the version and leave.
    Version,
    /// Log the keys of a device. Where no device is named, one has to be
    /// detected.
    Run {
        /// The device that was named, if any.
        device_file: Option<String>,
        /// The log to write.
        log_file: String,
    },
}

/// The name of the log where none is asked for.
pub open spec fn default_log_file() -> Seq<char> {
    "keys.log"@
}

/// Whether `log_file` is the log to use where `choice` was asked for: the
/// choice itself, or `keys.log` where none was made.
pub open spec fn is_log_file_for(choice: Option<String>, log_file: String) -> bool {
    match choice {
        Some(name) => log_file == name,
        None => log_file@ == default_log_file(),
    }
}

/// The log file to use: the one that was asked for, or `keys.log`.
pub fn log_file_or_default(choice: Option<String>) -> (log_file: String)
    ensures
        is_log_file_for(choice, log_file),
{
    match choice {
        Some(name) => name,
        None => "keys.log".to_owned(),
    }
}

/// Reads the flags and options of a command line: the help flag goes before
/// the version flag, and both go before a run.
pub fn choose_invocation(
    help: bool,
    version: bool,
    device_file: Option<String>,
    log_file: Option<String>,
) -> (invocation: Invocation)
    ensures
        help ==> invocation is Help,
        !help && version ==> invocation is Version,
        !help && !version ==> invocation is Run,
        invocation matches Invocation::Run { device_file: device, log_file: log } ==> device
            == device_file && is_log_file_for(log_file, log),
{
    if help {
        Invocation::Help
    } else if version {
        Invocation::Version
    } else {
        Invocation::Run { device_file, log_file: log_file_or_default(log_file) }
    }
}

} // verus!
