//! Sending a report.
//!
//! Every payload is first appended, verbatim, to a plain log that the user can
//! read. If the log cannot be written, nothing is sent.
use vstd::prelude::*;

use crate::paths::{user_file_path, NoBaseDir};
use crate::text::decimal;
#[allow(unused_imports)]
use crate::paths::user_file;
#[allow(unused_imports)]
use crate::text::decimal_digits;
#[allow(unused_imports)]
use vstd::utf8::encode_utf8;

verus! {

/// Where reports are sent.
pub const UPLOAD_ENDPOINT: &'static str = "https://api.hookbase.app/ingest/remi-mixo-1171db02/telemetry";

/// The payload's media type.
pub const CONTENT_TYPE: &'static str = "application/json";

/// Seconds after which an attempt to send is given up.
pub const SEND_TIMEOUT_SECS: u64 = 10;

/// How far the sending of one report has come.
#[derive(Debug)]
pub enum UplinkState {
    /// The report is being serialized.
    Serializing,
    /// The payload is being written to the log.
    Logging { body: String },
    /// The payload is being sent.
    Posting,
    Sent,
    Failed,
}

/// What came of the last action.
#[derive(Debug)]
pub enum UplinkEvent {
    /// The payload, and the time in seconds since the Unix epoch.
    Serialized { body: String, now: u64 },
    LogWritten,
    Posted,
    /// The last action failed.
    Failed,
}

/// What to do next.
#[derive(Debug)]
pub enum UplinkAction {
    /// Append this text to the outbound log.
    AppendLog { line: String },
    /// Send this payload.
    Post { body: String },
    /// The report was sent.
    Finish,
    /// Give up on this report.
    GiveUp,
}

/// States, events and actions without their storage.
pub enum UplinkPhase {
    Serializing,
    Logging(Seq<char>),
    Posting,
    Sent,
    Failed,
}

pub enum UplinkInput {
    Serialized(Seq<char>, u64),
    LogWritten,
    Posted,
    Failed,
}

pub enum UplinkOutput {
    AppendLog(Seq<char>),
    Post(Seq<char>),
    Finish,
    GiveUp,
}

impl View for UplinkState {
    type V = UplinkPhase;

    open spec fn view(&self) -> UplinkPhase {
        match self {
            UplinkState::Serializing => UplinkPhase::Serializing,
            UplinkState::Logging { body } => UplinkPhase::Logging(body@),
            UplinkState::Posting => UplinkPhase::Posting,
            UplinkState::Sent => UplinkPhase::Sent,
            UplinkState::Failed => UplinkPhase::Failed,
        }
    }
}

impl View for UplinkEvent {
    type V = UplinkInput;

    open spec fn view(&self) -> UplinkInput {
        match self {
            UplinkEvent::Serialized { body, now } => UplinkInput::Serialized(body@, *now),
            UplinkEvent::LogWritten => UplinkInput::LogWritten,
            UplinkEvent::Posted => UplinkInput::Posted,
            UplinkEvent::Failed => UplinkInput::Failed,
        }
    }
}

impl View for UplinkAction {
    type V = UplinkOutput;

    open spec fn view(&self) -> UplinkOutput {
        match self {
            UplinkAction::AppendLog { line } => UplinkOutput::AppendLog(line@),
            UplinkAction::Post { body } => UplinkOutput::Post(body@),
            UplinkAction::Finish => UplinkOutput::Finish,
            UplinkAction::GiveUp => UplinkOutput::GiveUp,
        }
    }
}

/// A line of the outbound log: the time in brackets, then the payload.
pub open spec fn log_entry(now: u64, body: Seq<char>) -> Seq<char> {
    "["@ + decimal_digits(now as nat) + "] "@ + body + "\n"@
}

/// The next phase, and what to do in it. An event that does not belong to the
/// phase counts as a failure.
pub open spec fn uplink_next(phase: UplinkPhase, input: UplinkInput) -> (UplinkPhase, UplinkOutput) {
    match (phase, input) {
        (UplinkPhase::Serializing, UplinkInput::Serialized(body, now)) => (
            UplinkPhase::Logging(body),
            UplinkOutput::AppendLog(log_entry(now, body)),
        ),
        (UplinkPhase::Logging(body), UplinkInput::LogWritten) => (
            UplinkPhase::Posting,
            UplinkOutput::Post(body),
        ),
        (UplinkPhase::Posting, UplinkInput::Posted) => (UplinkPhase::Sent, UplinkOutput::Finish),
        _ => (UplinkPhase::Failed, UplinkOutput::GiveUp),
    }
}

/// A line of the outbound log.
pub fn log_line(now: u64, body: &str) -> (line: String)
    ensures
        line@ == log_entry(now, body@),
{
    let open: String = "[".to_string();
    let stamped: String = open.concat(decimal(now).as_str());
    let closed: String = stamped.concat("] ");
    let filled: String = closed.concat(body);
    filled.concat("\n")
}

/// Takes the sending of a report one step further.
pub fn send_step(state: UplinkState, event: UplinkEvent) -> (next: (UplinkState, UplinkAction))
    ensures
        (next.0@, next.1@) == uplink_next(state@, event@),
{
    match (state, event) {
        (UplinkState::Serializing, UplinkEvent::Serialized { body, now }) => {
            let line: String = log_line(now, body.as_str());
            (UplinkState::Logging { body }, UplinkAction::AppendLog { line })
        },
        (UplinkState::Logging { body }, UplinkEvent::LogWritten) => {
            (UplinkState::Posting, UplinkAction::Post { body })
        },
        (UplinkState::Posting, UplinkEvent::Posted) => (UplinkState::Sent, UplinkAction::Finish),
        _ => (UplinkState::Failed, UplinkAction::GiveUp),
    }
}

/// The path of the outbound log, from the values of `XDG_STATE_HOME` and
/// `HOME`.
pub fn outbound_log_path(xdg_state_home: &Option<Vec<u8>>, home: &Option<Vec<u8>>) -> (path: Result<
    Vec<u8>,
    NoBaseDir,
>)
    ensures
        match path {
            Ok(p) => outbound_log_file(*xdg_state_home, *home) == Some(p@),
            Err(_) => outbound_log_file(*xdg_state_home, *home) is None,
        },
{
    match user_file_path(xdg_state_home, home, ".local/state", "telemetry-outbound.log") {
        Some(path) => Ok(path),
        None => Err(NoBaseDir),
    }
}

/// Where the outbound log is: under the state directory, or under
/// `.local/state` in the home directory.
pub open spec fn outbound_log_file(xdg_state_home: Option<Vec<u8>>, home: Option<Vec<u8>>) -> Option<
    Seq<u8>,
> {
    user_file(
        xdg_state_home,
        home,
        encode_utf8(".local/state"@),
        encode_utf8("telemetry-outbound.log"@),
    )
}

/// The phase after the first `n` events.
pub open spec fn uplink_phase(inputs: Seq<UplinkInput>, n: int) -> UplinkPhase
    decreases n,
{
    if n <= 0 {
        UplinkPhase::Serializing
    } else {
        uplink_next(uplink_phase(inputs, n - 1), inputs[n - 1]).0
    }
}

/// The action that event `n` leads to.
pub open spec fn uplink_output(inputs: Seq<UplinkInput>, n: int) -> UplinkOutput {
    uplink_next(uplink_phase(inputs, n), inputs[n]).1
}

/// Nothing is sent before the user can read it: whenever a payload is sent, the
/// action just before it was to log that same payload verbatim, and the log had
/// been written.
pub proof fn law_logged_before_sent(inputs: Seq<UplinkInput>, n: int, body: Seq<char>)
    requires
        0 <= n < inputs.len(),
        uplink_output(inputs, n) == UplinkOutput::Post(body),
    ensures
        n == 1,
        inputs[1] is LogWritten,
        exists|now: u64|
            uplink_output(inputs, 0) == UplinkOutput::AppendLog(#[trigger] log_entry(now, body)),
{
    lemma_uplink_order(inputs, n);
    assert(uplink_phase(inputs, n) == UplinkPhase::Logging(body));
    assert(uplink_phase(inputs, 0) == UplinkPhase::Serializing);
    let now = inputs[0]->Serialized_1;
    assert(uplink_phase(inputs, 1) == uplink_next(uplink_phase(inputs, 0), inputs[0]).0);
    assert(uplink_output(inputs, 0) == UplinkOutput::AppendLog(log_entry(now, body)));
}

/// If the log cannot be written, nothing is ever sent.
pub proof fn law_no_log_no_send(inputs: Seq<UplinkInput>, n: int)
    requires
        0 <= n < inputs.len(),
        inputs.len() >= 2 ==> !(inputs[1] is LogWritten),
    ensures
        !(uplink_output(inputs, n) is Post),
{
    if uplink_output(inputs, n) is Post {
        law_logged_before_sent(inputs, n, uplink_output(inputs, n)->Post_0);
    }
}

proof fn lemma_uplink_order(inputs: Seq<UplinkInput>, n: int)
    requires
        0 <= n <= inputs.len(),
    ensures
        uplink_phase(inputs, n) is Serializing ==> n == 0,
        uplink_phase(inputs, n) is Logging ==> n == 1,
        uplink_phase(inputs, n) is Posting ==> n == 2,
    decreases n,
{
    if n > 0 {
        lemma_uplink_order(inputs, n - 1);
    }
}

/// A report that meets no trouble goes through: its payload is logged under the
/// time it was made, then sent as it was logged, and then the work is done.
pub proof fn law_report_goes_through(body: Seq<char>, now: u64)
    ensures
        ({
            let inputs = seq![
                UplinkInput::Serialized(body, now),
                UplinkInput::LogWritten,
                UplinkInput::Posted,
            ];
            &&& uplink_output(inputs, 0) == UplinkOutput::AppendLog(log_entry(now, body))
            &&& uplink_output(inputs, 1) == UplinkOutput::Post(body)
            &&& uplink_output(inputs, 2) is Finish
            &&& uplink_phase(inputs, 3) is Sent
        }),
{
    reveal_with_fuel(uplink_phase, 4);
}

/// After any failure nothing more is logged or sent, and the report never counts
/// as sent.
pub proof fn law_failure_is_final(inputs: Seq<UplinkInput>, k: int, n: int)
    requires
        0 <= k <= n < inputs.len(),
        inputs[k] is Failed,
    ensures
        uplink_output(inputs, n) is GiveUp,
        uplink_phase(inputs, n + 1) is Failed,
    decreases n,
{
    if n > k {
        law_failure_is_final(inputs, k, n - 1);
    }
    assert(uplink_phase(inputs, n + 1) == uplink_next(uplink_phase(inputs, n), inputs[n]).0);
}

/// A line of the log holds the payload verbatim, behind the time in brackets and a
/// space, and ends with a line feed.
pub proof fn law_log_line_holds_payload(now: u64, body: Seq<char>)
    ensures
        ({
            let line = log_entry(now, body);
            let digits = decimal_digits(now as nat);
            let d = digits.len() as int;
            let b = body.len() as int;
            &&& line.len() == d + b + 4
            &&& line[0] == '['
            &&& line.subrange(1, 1 + d) == digits
            &&& line[1 + d] == ']'
            &&& line[2 + d] == ' '
            &&& line.subrange(3 + d, 3 + d + b) == body
            &&& line.last() == '\n'
        }),
{
    reveal_strlit("[");
    reveal_strlit("] ");
    reveal_strlit("\n");
    let line = log_entry(now, body);
    let digits = decimal_digits(now as nat);
    let d = digits.len() as int;
    let b = body.len() as int;
    assert(line.subrange(1, 1 + d) =~= digits);
    assert(line.subrange(3 + d, 3 + d + b) =~= body);
}

/// The outbound log is `kibad/telemetry-outbound.log` in the state directory, or
/// in `.local/state` of the home directory if no other is set.
pub proof fn law_log_is_in_state_directory(xdg_state_home: Option<Vec<u8>>, home: Option<Vec<u8>>)
    ensures
        ({
            let path = outbound_log_file(xdg_state_home, home);
            let dir_set = xdg_state_home is Some && xdg_state_home->0@.len() > 0;
            let home_set = home is Some && home->0@.len() > 0;
            &&& path is Some <==> dir_set || home_set
            &&& path is Some ==> exists|dir: Seq<u8>|
                path->0 == #[trigger] (dir + encode_utf8("kibad/"@) + encode_utf8(
                    "telemetry-outbound.log"@,
                ))
            &&& dir_set ==> xdg_state_home->0@.is_prefix_of(path->0)
            &&& !dir_set && home_set ==> crate::paths::joined(
                home->0@,
                encode_utf8(".local/state"@),
            ).is_prefix_of(path->0)
        }),
{
    let fallback = encode_utf8(".local/state"@);
    let name = encode_utf8("telemetry-outbound.log"@);
    crate::paths::law_preferred_directory_comes_first(xdg_state_home, home, fallback, name);
    if crate::paths::is_set(xdg_state_home) || crate::paths::is_set(home) {
        crate::paths::law_user_file_is_under_kibad(xdg_state_home, home, fallback, name);
    }
}

/// A report only counts as sent after it was sent and that went well.
pub proof fn law_done_only_after_sending(inputs: Seq<UplinkInput>, n: int)
    requires
        0 <= n < inputs.len(),
        uplink_output(inputs, n) is Finish,
    ensures
        n == 2,
        inputs[2] is Posted,
        uplink_output(inputs, 1) is Post,
{
    lemma_uplink_order(inputs, n);
    assert(uplink_phase(inputs, 2) == uplink_next(uplink_phase(inputs, 1), inputs[1]).0);
}

} // verus!
