//! What holds of the talk with the device services.

use vstd::prelude::*;
use vstd::string::*;
use vstd::utf8::*;
use crate::config::ReqServiceConfig;
use crate::exchange;
use crate::exchange::{
    ConnectEvent,
    ConnectStep,
    ExchangeError,
    ExchangeEvent,
    ExchangeStep,
};
use crate::protocol::Request;
use crate::reload;
use crate::reload::{PidError, ReloadError, ReloadEvent, ReloadStep};
use crate::report::Severity;
use crate::text;

verus! {

/// A connection is always tried at the socket of the device service, right away at first and after
/// each wait; each failure leads to a wait of the configured length. The count starts at none and
/// grows with each failure up to twenty; a failure is reported loudly just where twenty have been
/// counted before it.
pub proof fn law_connection_is_tried_again(
    service: ReqServiceConfig,
    event: ConnectEvent,
    step: ConnectStep,
)
    requires
        step == exchange::connected(service, event),
    ensures
        step matches ConnectStep::Connect { path, attempt } ==> {
            &&& path == service.socket_path
            &&& event == (ConnectEvent::Waited { attempt }) || (event is Begin && attempt == 0)
        },
        step matches ConnectStep::Wait { severity, seconds, attempt } ==> {
            &&& seconds == service.retry_interval
            &&& event matches ConnectEvent::Failed { attempt: before }
            &&& before < 20 ==> severity == Severity::Info && attempt == before + 1
            &&& before >= 20 ==> severity == Severity::Error && attempt == before
        },
{
}

/// The first twenty failures to connect are reported softly, and all further ones loudly.
pub proof fn law_twenty_failures_are_soft(failures: nat)
    ensures
        exchange::loudness(exchange::count_after(failures)) == Severity::Info <==> failures < 20,
{
    exchange::law_only_early_failures_are_soft(failures);
}

/// A request is sent only once there is a connection, and then as it stands. It went well just where
/// the device service answered so, and every other end has its own reason. A connection and an answer
/// may each take a minute, and all together an hour.
pub proof fn law_request_went_well_just_where_answered_so(
    service: ReqServiceConfig,
    request: Request,
    event: ExchangeEvent,
    step: ExchangeStep,
)
    requires
        step == exchange::exchanged(service, request, event),
    ensures
        match step {
            ExchangeStep::Connect { service: to, seconds, total } => event is Begin && to == service
                && seconds == 60 && total == 60 * 60,
            ExchangeStep::Send { request: sent, seconds } => event is Connected && sent == request
                && seconds == 60,
            ExchangeStep::Finished(Ok(_)) => event == (ExchangeEvent::Answered { success: true }),
            ExchangeStep::Finished(Err(ExchangeError::Refused)) => event == (
            ExchangeEvent::Answered { success: false }),
            ExchangeStep::Finished(Err(ExchangeError::NotConnected)) => event is ConnectTimedOut,
            ExchangeStep::Finished(Err(ExchangeError::RequestFailed)) => event is RequestFailed,
            ExchangeStep::Finished(Err(ExchangeError::NoAnswer)) => event is AnswerTimedOut,
            ExchangeStep::Finished(Err(ExchangeError::OutOfTime)) => event is OutOfTime,
        },
{
}

/// The process that is signalled is the one in the first line that the search printed, and it is
/// signalled before the reload is over; everything else ends it with its own reason.
pub proof fn law_first_process_is_signalled(event: ReloadEvent, step: ReloadStep)
    requires
        reload::reloaded(event, step),
    ensures
        match step {
            ReloadStep::Search => event is Begin,
            ReloadStep::SignalHup { pid } => {
                &&& event matches ReloadEvent::Searched(Some(stdout))
                &&& valid_utf8(stdout@)
                &&& text::first_line_of(decode_utf8(stdout@)) == Some(pid@)
            },
            ReloadStep::Finished(Ok(pid)) => event == (ReloadEvent::Signalled {
                pid,
                success: true,
            }),
            ReloadStep::Finished(Err(ReloadError::NotSearched)) => event == ReloadEvent::Searched(
                None,
            ),
            ReloadStep::Finished(Err(ReloadError::Pid(PidError::NotUtf8))) => {
                event matches ReloadEvent::Searched(Some(stdout)) && !valid_utf8(stdout@)
            },
            ReloadStep::Finished(Err(ReloadError::Pid(PidError::NoProcess))) => {
                &&& event matches ReloadEvent::Searched(Some(stdout))
                &&& valid_utf8(stdout@)
                &&& decode_utf8(stdout@).len() == 0
            },
            ReloadStep::Finished(Err(ReloadError::NotSignalled)) => {
                event matches ReloadEvent::Signalled { success, .. } && !success
            },
        },
{
}

/// The process is known just where what was printed is text and not empty.
pub proof fn law_process_is_known_from_any_text(stdout: Seq<u8>)
    ensures
        reload::pid_of(stdout) is Ok <==> valid_utf8(stdout) && decode_utf8(stdout).len() > 0,
        reload::pid_of(stdout) == Err::<Seq<char>, PidError>(PidError::NotUtf8) <==> !valid_utf8(
            stdout,
        ),
        reload::pid_of(stdout) matches Ok(pid) ==> text::first_line_of(decode_utf8(stdout)) == Some(
            pid,
        ),
{
}

} // verus!
