//! Starting at sign-in: what the registry's answers mean and what is written
//! there.
use vstd::prelude::*;

verus! {

/// The key whose values start at sign-in.
pub const RUN_SUBKEY: &'static str = "Software\\Microsoft\\Windows\\CurrentVersion\\Run";

/// The value that starts the daemon.
pub const REG_VALUE: &'static str = "LeopardWM";

/// The file that supervises the daemon, beside it.
pub const WATCHDOG_FILE: &'static str = "leopardwm-watchdog.exe";

/// What the registry said.
#[derive(Clone, Copy, Debug, PartialEq, Eq, Structural)]
pub enum RegistryAnswer {
    Done,
    NotFound,
    Failed,
}

/// Why the setting could not be read or changed.
#[derive(Clone, Copy, Debug, PartialEq, Eq, Structural)]
pub enum AutostartError {
    ReadFailed,
    RemoveFailed,
    /// The program lies in a directory that does not last.
    InTempDirectory,
}

/// Which program starts at sign-in.
#[derive(Clone, Copy, Debug, PartialEq, Eq, Structural)]
pub enum AutostartTarget {
    Daemon,
    Watchdog,
}

/// Whether the daemon starts at sign-in, from reading its value; a missing value
/// says no.
pub fn get_autostart(read: RegistryAnswer) -> (r: Result<bool, AutostartError>)
    ensures
        r == (match read {
            RegistryAnswer::Done => Ok::<bool, AutostartError>(true),
            RegistryAnswer::NotFound => Ok(false),
            RegistryAnswer::Failed => Err(AutostartError::ReadFailed),
        }),
{
    match read {
        RegistryAnswer::Done => Ok(true),
        RegistryAnswer::NotFound => Ok(false),
        RegistryAnswer::Failed => Err(AutostartError::ReadFailed),
    }
}

/// The program to start: the watchdog where both it and the daemon are installed,
/// else the daemon.
pub fn preferred_autostart_executable(
    has_directory: bool,
    daemon_is_file: bool,
    watchdog_is_file: bool,
) -> (r: AutostartTarget)
    ensures
        r == (if has_directory && daemon_is_file && watchdog_is_file {
            AutostartTarget::Watchdog
        } else {
            AutostartTarget::Daemon
        }),
{
    if has_directory && daemon_is_file && watchdog_is_file {
        AutostartTarget::Watchdog
    } else {
        AutostartTarget::Daemon
    }
}

/// The value to write so that the program starts: its path in double quotes.
/// Refused for a program in the temporary directory, which would be gone.
pub fn enable_autostart(exe_path: &str, in_temp_dir: bool) -> (r: Result<String, AutostartError>)
    ensures
        match r {
            Ok(value) => !in_temp_dir && value@ == seq!['"'] + exe_path@ + seq!['"'],
            Err(error) => in_temp_dir && error == AutostartError::InTempDirectory,
        },
{
    if in_temp_dir {
        return Err(AutostartError::InTempDirectory);
    }
    let mut value: String = "\"".to_owned();
    value.append(exe_path);
    value.append("\"");
    proof {
        reveal_strlit("\"");
        assert("\""@ =~= seq!['"']);
    }
    Ok(value)
}

/// Whether the value is gone after removing it; a missing value is as good.
pub fn disable_autostart(removed: RegistryAnswer) -> (r: Result<(), AutostartError>)
    ensures
        r == (match removed {
            RegistryAnswer::Failed => Err::<(), AutostartError>(AutostartError::RemoveFailed),
            _ => Ok(()),
        }),
{
    match removed {
        RegistryAnswer::Done | RegistryAnswer::NotFound => Ok(()),
        RegistryAnswer::Failed => Err(AutostartError::RemoveFailed),
    }
}

/// The daemon is started through the watchdog just where both are installed together;
/// a value that is missing is no error, be it read or removed.
pub proof fn law_missing_values_are_no_error(
    has_directory: bool,
    daemon_is_file: bool,
    watchdog_is_file: bool,
    target: AutostartTarget,
    answer: RegistryAnswer,
    read: Result<bool, AutostartError>,
    removed: Result<(), AutostartError>,
)
    requires
        call_ensures(
            preferred_autostart_executable,
            (has_directory, daemon_is_file, watchdog_is_file),
            target,
        ),
        call_ensures(get_autostart, (answer,), read),
        call_ensures(disable_autostart, (answer,), removed),
    ensures
        target == AutostartTarget::Daemon <==> !has_directory || !daemon_is_file
            || !watchdog_is_file,
        read is Err <==> answer == RegistryAnswer::Failed,
        removed is Err <==> answer == RegistryAnswer::Failed,
        read matches Ok(enabled) ==> enabled == (answer == RegistryAnswer::Done),
{
}

} // verus!
