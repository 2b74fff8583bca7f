//! How the service talks to the device services: connections, time limits and answers.

use vstd::prelude::*;
use crate::config::ReqServiceConfig;
use crate::protocol::Request;
use crate::report::Severity;

verus! {

/// Seconds that a connection may take, and that an answer may take.
pub const IPC_REQUEST_TIMEOUT: u64 = 60;

/// Seconds that the download of an image or of the index file may take.
pub const DOWNLOAD_TIMEOUT: u64 = 300;

/// Seconds that the upload of an image may take in all.
pub const UPLOAD_TIMEOUT: u64 = 3600;

/// Failures to connect that are nothing to worry about: the device service may still be starting.
pub const EARLY_ATTEMPTS: u32 = 20;

/// What has happened to a connection. `attempt` counts the failures, as far as they are early.
#[derive(Clone, Copy, Debug, PartialEq, Eq, Structural)]
pub enum ConnectEvent {
    Begin,
    Failed { attempt: u32 },
    Waited { attempt: u32 },
}

/// What to do next to get a connection.
#[derive(Debug)]
pub enum ConnectStep {
    /// Connect to the socket.
    Connect { path: String, attempt: u32 },
    /// Report the failure, and wait.
    Wait { severity: Severity, seconds: u64, attempt: u32 },
}

/// The count after one more failure.
pub open spec fn counted(attempt: u32) -> u32 {
    if attempt < EARLY_ATTEMPTS {
        (attempt + 1) as u32
    } else {
        attempt
    }
}

/// How loud a failure is to be reported.
pub open spec fn loudness(attempt: u32) -> Severity {
    if attempt < EARLY_ATTEMPTS {
        Severity::Info
    } else {
        Severity::Error
    }
}

/// What an event makes of a connection.
pub open spec fn connected(req_service_config: ReqServiceConfig, event: ConnectEvent) -> ConnectStep {
    match event {
        ConnectEvent::Begin => ConnectStep::Connect {
            path: req_service_config.socket_path,
            attempt: 0,
        },
        ConnectEvent::Failed { attempt } => ConnectStep::Wait {
            severity: loudness(attempt),
            seconds: req_service_config.retry_interval,
            attempt: counted(attempt),
        },
        ConnectEvent::Waited { attempt } => ConnectStep::Connect {
            path: req_service_config.socket_path,
            attempt,
        },
    }
}

/// Connects to a device service, one step at a time. It is tried until it works.
pub fn make_reqservice(req_service_config: &ReqServiceConfig, event: ConnectEvent) -> (r:
    ConnectStep)
    ensures
        r == connected(*req_service_config, event),
{
    match event {
        ConnectEvent::Begin => ConnectStep::Connect {
            path: req_service_config.socket_path.clone(),
            attempt: 0,
        },
        ConnectEvent::Failed { attempt } => {
            let seconds: u64 = req_service_config.retry_interval;
            if attempt < EARLY_ATTEMPTS {
                ConnectStep::Wait { severity: Severity::Info, seconds, attempt: attempt + 1 }
            } else {
                ConnectStep::Wait { severity: Severity::Error, seconds, attempt }
            }
        },
        ConnectEvent::Waited { attempt } => ConnectStep::Connect {
            path: req_service_config.socket_path.clone(),
            attempt,
        },
    }
}

/// The count after a number of failures.
pub open spec fn count_after(failures: nat) -> u32
    decreases failures,
{
    if failures == 0 {
        0
    } else {
        counted(count_after((failures - 1) as nat))
    }
}

/// The first failures to connect are reported softly, and all further ones loudly.
pub proof fn law_only_early_failures_are_soft(failures: nat)
    ensures
        loudness(count_after(failures)) == if failures < EARLY_ATTEMPTS {
            Severity::Info
        } else {
            Severity::Error
        },
        count_after(failures) == if failures < EARLY_ATTEMPTS {
            failures as int
        } else {
            EARLY_ATTEMPTS as int
        },
    decreases failures,
{
    if failures > 0 {
        law_only_early_failures_are_soft((failures - 1) as nat);
    }
}

/// What has happened to a request that is answered with success or not.
#[derive(Clone, Copy, Debug, PartialEq, Eq, Structural)]
pub enum ExchangeEvent {
    Begin,
    Connected,
    /// It took too long to connect.
    ConnectTimedOut,
    /// The request could not be sent, or its answer not be read.
    RequestFailed,
    /// It took too long to answer.
    AnswerTimedOut,
    Answered { success: bool },
    /// It all took too long.
    OutOfTime,
}

/// What to do next about a request.
#[derive(Debug)]
pub enum ExchangeStep {
    /// Connect to the device service, within so many seconds. It may all take `total` seconds.
    Connect { service: ReqServiceConfig, seconds: u64, total: u64 },
    /// Send the request, and take the answer within so many seconds.
    Send { request: Request, seconds: u64 },
    Finished(Result<(), ExchangeError>),
}

/// Why a request came to nothing.
#[derive(Clone, Copy, Debug, PartialEq, Eq, Structural)]
pub enum ExchangeError {
    NotConnected,
    RequestFailed,
    NoAnswer,
    /// The device service said no.
    Refused,
    OutOfTime,
}

/// What an event makes of a request that is sent once there is a connection.
pub open spec fn exchanged(
    req_service_config: ReqServiceConfig,
    request: Request,
    event: ExchangeEvent,
) -> ExchangeStep {
    match event {
        ExchangeEvent::Begin => ExchangeStep::Connect {
            service: req_service_config,
            seconds: IPC_REQUEST_TIMEOUT,
            total: UPLOAD_TIMEOUT,
        },
        ExchangeEvent::Connected => ExchangeStep::Send { request, seconds: IPC_REQUEST_TIMEOUT },
        ExchangeEvent::ConnectTimedOut => ExchangeStep::Finished(Err(ExchangeError::NotConnected)),
        ExchangeEvent::RequestFailed => ExchangeStep::Finished(Err(ExchangeError::RequestFailed)),
        ExchangeEvent::AnswerTimedOut => ExchangeStep::Finished(Err(ExchangeError::NoAnswer)),
        ExchangeEvent::Answered { success } => if success {
            ExchangeStep::Finished(Ok(()))
        } else {
            ExchangeStep::Finished(Err(ExchangeError::Refused))
        },
        ExchangeEvent::OutOfTime => ExchangeStep::Finished(Err(ExchangeError::OutOfTime)),
    }
}

/// Sends a request, one step at a time.
pub fn exchange(
    req_service_config: &ReqServiceConfig,
    request: Request,
    event: ExchangeEvent,
) -> (r: ExchangeStep)
    ensures
        r == exchanged(*req_service_config, request, event),
{
    match event {
        ExchangeEvent::Begin => ExchangeStep::Connect {
            service: req_service_config.clone(),
            seconds: IPC_REQUEST_TIMEOUT,
            total: UPLOAD_TIMEOUT,
        },
        ExchangeEvent::Connected => ExchangeStep::Send { request, seconds: IPC_REQUEST_TIMEOUT },
        ExchangeEvent::ConnectTimedOut => ExchangeStep::Finished(Err(ExchangeError::NotConnected)),
        ExchangeEvent::RequestFailed => ExchangeStep::Finished(Err(ExchangeError::RequestFailed)),
        ExchangeEvent::AnswerTimedOut => ExchangeStep::Finished(Err(ExchangeError::NoAnswer)),
        ExchangeEvent::Answered { success } => {
            if success {
                ExchangeStep::Finished(Ok(()))
            } else {
                ExchangeStep::Finished(Err(ExchangeError::Refused))
            }
        },
        ExchangeEvent::OutOfTime => ExchangeStep::Finished(Err(ExchangeError::OutOfTime)),
    }
}

} // verus!
