//! Command dispatch from a shell for wicket.

use vstd::prelude::*;

use crate::net::SocketAddrV6;

verus! {

/// The port of wicketd.
pub const WICKETD_PORT: u16 = 12226;

/// What an environment variable holds.
#[derive(Debug)]
pub enum EnvVar {
    /// It is set.
    Present(String),
    /// It is not set.
    NotPresent,
    /// It is set to something that is not valid unicode.
    NotUnicode,
}

/// Whether log messages are also exposed via standard error.
#[derive(Copy, Clone, Debug, PartialEq, Eq, Structural)]
pub enum WithStderr {
    Yes,
    No,
}

/// What a shell command runs.
#[derive(Debug)]
pub enum Command {
    /// The command-line interface, with arguments.
    Cli { args: String },
    /// The terminal user interface.
    Tui,
}

/// How a shell command is run.
#[derive(Debug)]
pub struct Dispatch {
    pub command: Command,
    pub wicketd_addr: SocketAddrV6,
    pub with_stderr: WithStderr,
    pub log_path: String,
}

/// The path of the log where none is given.
pub const DEFAULT_LOG_PATH: &'static str = "/tmp/wicket.log";

/// The error for a log path that is not valid unicode.
pub const LOG_PATH_NOT_UNICODE: &'static str = "WICKET_LOG_PATH is not valid unicode";

/// The path of the log, given what the variable `WICKET_LOG_PATH` holds.
pub fn log_path(var: EnvVar) -> (r: Result<String, &'static str>)
    ensures
        match var {
            EnvVar::Present(path) => r is Ok && r->Ok_0@ == path@,
            EnvVar::NotPresent => r is Ok && r->Ok_0@ == DEFAULT_LOG_PATH@,
            EnvVar::NotUnicode => r is Err && r->Err_0@ == LOG_PATH_NOT_UNICODE@,
        },
{
    match var {
        EnvVar::Present(path) => Ok(path),
        EnvVar::NotPresent => Ok(DEFAULT_LOG_PATH.to_owned()),
        EnvVar::NotUnicode => Err(LOG_PATH_NOT_UNICODE),
    }
}

/// What is logged via standard error.
#[derive(Debug)]
pub enum StderrFilter {
    /// What a filter says.
    Parse(String),
    /// Everything from the info level on.
    Info,
}

/// What is logged via standard error, given what the variable with the filter
/// holds.
pub fn stderr_env_drain(var: EnvVar) -> (r: StderrFilter)
    ensures
        match var {
            EnvVar::Present(filter) => r == StderrFilter::Parse(filter),
            _ => r is Info,
        },
{
    match var {
        EnvVar::Present(filter) => StderrFilter::Parse(filter),
        // Log at the info level by default.
        EnvVar::NotPresent => StderrFilter::Info,
        EnvVar::NotUnicode => StderrFilter::Info,
    }
}

/// How a shell command is run, given what the variables
/// `SSH_ORIGINAL_COMMAND` and `WICKET_LOG_PATH` hold.
///
/// The first contains additional arguments, if any.
pub fn exec(ssh_command: EnvVar, wicket_log_path: EnvVar) -> (r: Result<Dispatch, &'static str>)
    ensures
        r is Err <==> wicket_log_path is NotUnicode,
        r is Err ==> r->Err_0@ == LOG_PATH_NOT_UNICODE@,
        r is Ok ==> {
            let d = r->Ok_0;
            &&& d.wicketd_addr == (SocketAddrV6 {
                ip: 1,
                port: WICKETD_PORT,
                flowinfo: 0,
                scope_id: 0,
            })
            &&& match wicket_log_path {
                EnvVar::Present(path) => d.log_path@ == path@,
                _ => d.log_path@ == DEFAULT_LOG_PATH@,
            }
            &&& match ssh_command {
                EnvVar::Present(args) => {
                    d.command == (Command::Cli { args }) && d.with_stderr is Yes
                },
                _ => d.command is Tui && d.with_stderr is No,
            }
        },
{
    let wicketd_addr = SocketAddrV6 { ip: 1, port: WICKETD_PORT, flowinfo: 0, scope_id: 0 };
    let log_path = match log_path(wicket_log_path) {
        Ok(path) => path,
        Err(e) => return Err(e),
    };
    let (command, with_stderr) = match ssh_command {
        EnvVar::Present(args) => (Command::Cli { args }, WithStderr::Yes),
        // Do not expose log messages via standard error since they'll show up
        // on top of the TUI.
        EnvVar::NotPresent => (Command::Tui, WithStderr::No),
        EnvVar::NotUnicode => (Command::Tui, WithStderr::No),
    };
    Ok(Dispatch { command, wicketd_addr, with_stderr, log_path })
}

/// The error for a log file that could not be opened.
pub fn open_error(path: &str) -> (r: String)
    ensures
        r@ == "error opening log file "@ + path@,
{
    "error opening log file ".to_owned().concat(path)
}

} // verus!
