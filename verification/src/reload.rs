//! How the device service is told that there are new definitions.

use vstd::prelude::*;
use vstd::string::*;
use vstd::utf8::*;
use crate::text;
use crate::text::{first_line, text_of_bytes};

verus! {

/// The command lines of the device service, as a pattern.
pub const LWM2M_SERVER_PATTERN: &'static str = "(lwm2mserver_native|python.+lwm2mserver)";

/// Why the process of the device service is not known.
#[derive(Clone, Copy, Debug, PartialEq, Eq, Structural)]
pub enum PidError {
    /// What was printed is not UTF-8.
    NotUtf8,
    /// Nothing was printed.
    NoProcess,
}

/// The process that stands in the first line of what the search for processes printed.
pub open spec fn pid_of(stdout: Seq<u8>) -> Result<Seq<char>, PidError> {
    if !valid_utf8(stdout) {
        Err(PidError::NotUtf8)
    } else {
        match text::first_line_of(decode_utf8(stdout)) {
            Some(line) => Ok(line),
            None => Err(PidError::NoProcess),
        }
    }
}

/// The process of the device service, out of what the search for it printed.
pub fn get_lwm2m_pid(stdout: Vec<u8>) -> (r: Result<String, PidError>)
    ensures
        match r {
            Ok(pid) => pid_of(stdout@) == Ok::<Seq<char>, PidError>(pid@),
            Err(e) => pid_of(stdout@) == Err::<Seq<char>, PidError>(e),
        },
{
    match text_of_bytes(stdout) {
        None => Err(PidError::NotUtf8),
        Some(output) => match first_line(output.as_str()) {
            Some(line) => Ok(line),
            None => Err(PidError::NoProcess),
        },
    }
}

/// What has happened to the reload of the device service.
#[derive(Debug)]
pub enum ReloadEvent {
    Begin,
    /// The search for the process has been run and printed this, or could not be run.
    Searched(Option<Vec<u8>>),
    /// The signal has been sent, or could not be sent.
    Signalled { pid: String, success: bool },
}

/// What to do next to have the device service reload.
#[derive(Debug)]
pub enum ReloadStep {
    /// Search for the process whose command line matches the pattern.
    Search,
    /// Send the hang-up signal to the process.
    SignalHup { pid: String },
    Finished(Result<String, ReloadError>),
}

/// Why the device service has not been told.
#[derive(Clone, Copy, Debug, PartialEq, Eq, Structural)]
pub enum ReloadError {
    NotSearched,
    Pid(PidError),
    NotSignalled,
}

/// Whether the step is what an event leads to.
pub open spec fn reloaded(event: ReloadEvent, step: ReloadStep) -> bool {
    match event {
        ReloadEvent::Begin => step == ReloadStep::Search,
        ReloadEvent::Searched(None) => step == ReloadStep::Finished(Err(ReloadError::NotSearched)),
        ReloadEvent::Searched(Some(stdout)) => match pid_of(stdout@) {
            Ok(pid) => step matches ReloadStep::SignalHup { pid: p } && p@ == pid,
            Err(e) => step == ReloadStep::Finished(Err(ReloadError::Pid(e))),
        },
        ReloadEvent::Signalled { pid, success } => step == if success {
            ReloadStep::Finished(Ok(pid))
        } else {
            ReloadStep::Finished(Err(ReloadError::NotSignalled))
        },
    }
}

/// Has the device service reload, one step at a time.
pub fn reload_lwm2m_server(event: ReloadEvent) -> (r: ReloadStep)
    ensures
        reloaded(event, r),
{
    match event {
        ReloadEvent::Begin => ReloadStep::Search,
        ReloadEvent::Searched(output) => match output {
            None => ReloadStep::Finished(Err(ReloadError::NotSearched)),
            Some(stdout) => match get_lwm2m_pid(stdout) {
                Ok(pid) => ReloadStep::SignalHup { pid },
                Err(e) => ReloadStep::Finished(Err(ReloadError::Pid(e))),
            },
        },
        ReloadEvent::Signalled { pid, success } => {
            if success {
                ReloadStep::Finished(Ok(pid))
            } else {
                ReloadStep::Finished(Err(ReloadError::NotSignalled))
            }
        },
    }
}

} // verus!
