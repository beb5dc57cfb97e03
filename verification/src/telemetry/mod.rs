//! Telemetry: the host's hardware inventory, opt-in only.
//!
//! Without consent on file nothing here runs; there is no way to collect
//! without sending. Reports go out on a fixed interval, never in answer to
//! something the user does.
use vstd::prelude::*;

pub mod aggregate;
pub mod collectors;
pub mod consent;
pub mod uplink;

use rand::RngCore;

use crate::paths::user_file_path;
use crate::text::{chars_of, decimal, string_of, trim};
use aggregate::{build_report, hex_encode, AggregatedReport};
use collectors::{collect_device_inventory, HostSources};
use consent::ConsentScopes;

#[allow(unused_imports)]
use crate::paths::user_file;
#[allow(unused_imports)]
use crate::text::{decimal_digits, optional_text, trimmed};
#[allow(unused_imports)]
use aggregate::{hex_digits, report_of};
#[allow(unused_imports)]
use collectors::{gpus_in, inventory_of, peripherals_in, plainly_printed};
#[allow(unused_imports)]
use vstd::utf8::encode_utf8;

verus! {

/// Seconds between two reports: six hours.
pub const REPORT_INTERVAL_SECS: u64 = 21_600;

/// Seconds in a day, the granularity of a report's period.
pub const DAY_SECS: u64 = 86_400;

/// Where the install salt was kept before it moved to the user's data
/// directory. It is still read, never written.
pub const LEGACY_SALT_PATH: &'static str = "/var/lib/kibad/telemetry-salt";

/// How far the reporting loop has come.
#[derive(Debug, Clone, Copy, PartialEq, Eq, Structural)]
pub enum TelemetryState {
    /// Consent has not been looked at yet.
    Start,
    /// A report is being made.
    Reporting,
    /// The loop waits for the next interval.
    Waiting,
    Stopped,
}

/// What came of the last action.
#[derive(Debug, Clone, Copy, PartialEq, Eq, Structural)]
pub enum TelemetryEvent {
    /// Consent was looked up.
    Consent { scopes: ConsentScopes },
    /// The attempt to report is over, well or badly.
    ReportEnded { panicked: bool },
    /// The interval has passed.
    Slept,
}

/// What to do next.
#[derive(Debug, Clone, Copy, PartialEq, Eq, Structural)]
pub enum TelemetryAction {
    /// Leave the loop for good.
    Stop,
    /// Make and send one report.
    Report,
    /// Wait for this many seconds.
    Sleep { secs: u64 },
}

/// The reporting loop. An event that does not belong to the state stops it.
pub open spec fn telemetry_next(state: TelemetryState, event: TelemetryEvent) -> (
    TelemetryState,
    TelemetryAction,
) {
    match (state, event) {
        (TelemetryState::Start, TelemetryEvent::Consent { scopes }) => if scopes.device_inventory {
            (TelemetryState::Reporting, TelemetryAction::Report)
        } else {
            (TelemetryState::Stopped, TelemetryAction::Stop)
        },
        (TelemetryState::Reporting, TelemetryEvent::ReportEnded { .. }) => (
            TelemetryState::Waiting,
            TelemetryAction::Sleep { secs: REPORT_INTERVAL_SECS },
        ),
        (TelemetryState::Waiting, TelemetryEvent::Slept) => (
            TelemetryState::Reporting,
            TelemetryAction::Report,
        ),
        _ => (TelemetryState::Stopped, TelemetryAction::Stop),
    }
}

/// Takes the reporting loop one step further. A report that ends badly is tried
/// again at the next interval.
pub fn run_step(state: TelemetryState, event: TelemetryEvent) -> (next: (
    TelemetryState,
    TelemetryAction,
))
    ensures
        next == telemetry_next(state, event),
{
    match (state, event) {
        (TelemetryState::Start, TelemetryEvent::Consent { scopes }) => {
            if scopes.any() {
                (TelemetryState::Reporting, TelemetryAction::Report)
            } else {
                (TelemetryState::Stopped, TelemetryAction::Stop)
            }
        },
        (TelemetryState::Reporting, TelemetryEvent::ReportEnded { .. }) => (
            TelemetryState::Waiting,
            TelemetryAction::Sleep { secs: REPORT_INTERVAL_SECS },
        ),
        (TelemetryState::Waiting, TelemetryEvent::Slept) => (
            TelemetryState::Reporting,
            TelemetryAction::Report,
        ),
        _ => (TelemetryState::Stopped, TelemetryAction::Stop),
    }
}

/// The state after the first `n` events.
pub open spec fn telemetry_state(events: Seq<TelemetryEvent>, n: int) -> TelemetryState
    decreases n,
{
    if n <= 0 {
        TelemetryState::Start
    } else {
        telemetry_next(telemetry_state(events, n - 1), events[n - 1]).0
    }
}

/// The action that event `n` leads to.
pub open spec fn telemetry_action(events: Seq<TelemetryEvent>, n: int) -> TelemetryAction {
    telemetry_next(telemetry_state(events, n), events[n]).1
}

/// Without consent nothing is ever collected or sent: unless the first event is
/// that consent was given, every action is to stop.
pub proof fn law_no_consent_no_report(events: Seq<TelemetryEvent>, n: int)
    requires
        0 <= n < events.len(),
        !(events[0] matches TelemetryEvent::Consent { scopes } && scopes.device_inventory),
    ensures
        telemetry_action(events, n) is Stop,
        telemetry_state(events, n + 1) is Stopped,
    decreases n,
{
    if n > 0 {
        law_no_consent_no_report(events, n - 1);
    } else {
        assert(telemetry_state(events, 0) == TelemetryState::Start);
    }
    assert(telemetry_state(events, n + 1) == telemetry_next(telemetry_state(events, n), events[n]).0);
}

/// Reports come on an interval: two reports are never made without the full
/// interval between them.
pub proof fn law_reports_are_spaced(events: Seq<TelemetryEvent>, n: int)
    requires
        0 < n < events.len(),
        telemetry_action(events, n) is Report,
    ensures
        telemetry_action(events, n - 1) == (TelemetryAction::Sleep { secs: REPORT_INTERVAL_SECS }),
        events[n] is Slept,
{
    assert(telemetry_state(events, n) == telemetry_next(
        telemetry_state(events, n - 1),
        events[n - 1],
    ).0);
}

/// The period of a report made `secs` seconds after the Unix epoch: the number
/// of whole days.
pub fn current_period_label(secs: u64) -> (label: String)
    ensures
        label@ == decimal_digits((secs / DAY_SECS) as nat),
{
    decimal(secs / DAY_SECS)
}

/// A report shows the day, not the time of day: the period is the same from
/// midnight to midnight.
pub proof fn law_period_hides_time_of_day(day: nat, a: u64, b: u64)
    requires
        day * DAY_SECS <= a < (day + 1) * DAY_SECS,
        day * DAY_SECS <= b < (day + 1) * DAY_SECS,
    ensures
        decimal_digits((a / DAY_SECS) as nat) == decimal_digits(day),
        decimal_digits((b / DAY_SECS) as nat) == decimal_digits(day),
{
    assert(a / DAY_SECS == day && b / DAY_SECS == day);
}

/// The report for this host at the given time.
pub fn report_once(install_salt: &str, now_secs: u64, sources: &HostSources) -> (report:
    AggregatedReport)
    ensures
        report@ == report_of(
            install_salt@,
            decimal_digits((now_secs / DAY_SECS) as nat),
            inventory_of(*sources),
        ),
        report@.install_id.len() == 64,
        plainly_printed(sources.lspci) matches Some(text) ==> report@.device.gpu_models == gpus_in(
            text,
        ),
        plainly_printed(sources.lsusb) matches Some(text) ==> report@.device.usb_peripherals
            == peripherals_in(text),
{
    let device = collect_device_inventory(sources);
    let period: String = current_period_label(now_secs);
    build_report(install_salt, period.as_str(), device)
}

/// Where the install salt is kept: under the data directory, or under
/// `.local/share` in the home directory.
pub open spec fn salt_file(xdg_data_home: Option<Vec<u8>>, home: Option<Vec<u8>>) -> Option<
    Seq<u8>,
> {
    user_file(
        xdg_data_home,
        home,
        encode_utf8(".local/share"@),
        encode_utf8("telemetry-salt"@),
    )
}

/// The path of the install salt, from the values of `XDG_DATA_HOME` and `HOME`.
pub fn salt_path(xdg_data_home: &Option<Vec<u8>>, home: &Option<Vec<u8>>) -> (path: Option<Vec<u8>>)
    ensures
        match path {
            Some(p) => salt_file(*xdg_data_home, *home) == Some(p@),
            None => salt_file(*xdg_data_home, *home) is None,
        },
{
    user_file_path(xdg_data_home, home, ".local/share", "telemetry-salt")
}

/// The salt in a file's contents, unless there is nothing but white space.
pub open spec fn salt_in(contents: Option<String>) -> Option<Seq<char>> {
    match contents {
        Some(text) => if trimmed(text@).len() > 0 {
            Some(trimmed(text@))
        } else {
            None
        },
        None => None,
    }
}

/// The salt in a file's contents.
pub fn read_salt(contents: &Option<String>) -> (salt: Option<String>)
    ensures
        optional_text(salt) == salt_in(*contents),
{
    match contents {
        None => None,
        Some(text) => {
            let value: String = string_of(&trim(&chars_of(text.as_str())));
            if value.as_str().is_empty() {
                None
            } else {
                Some(value)
            }
        },
    }
}

/// What to do for an install salt.
#[derive(Debug)]
pub enum SaltChoice {
    /// Keep using this one.
    Existing { salt: String },
    /// Make a new one, and save it if there is a place to save it to.
    Generate { persist: bool },
}

/// The salt that is already on the machine: the one in the current place, if
/// there is such a place, else the one in the legacy place.
pub open spec fn existing_salt(
    has_path: bool,
    stored: Option<String>,
    legacy: Option<String>,
) -> Option<Seq<char>> {
    if has_path && salt_in(stored) is Some {
        salt_in(stored)
    } else {
        salt_in(legacy)
    }
}

/// Decides between the salts on the machine and a new one. `stored` and
/// `legacy` are the contents of the files in the current and the legacy place.
pub fn choose_install_salt(has_path: bool, stored: &Option<String>, legacy: &Option<String>) -> (
choice: SaltChoice)
    ensures
        match choice {
            SaltChoice::Existing { salt } => existing_salt(has_path, *stored, *legacy) == Some(
                salt@,
            ),
            SaltChoice::Generate { persist } => existing_salt(has_path, *stored, *legacy) is None
                && persist == has_path,
        },
{
    if has_path {
        if let Some(salt) = read_salt(stored) {
            return SaltChoice::Existing { salt };
        }
    }
    if let Some(salt) = read_salt(legacy) {
        return SaltChoice::Existing { salt };
    }
    SaltChoice::Generate { persist: has_path }
}

/// `OsRng::try_fill_bytes` of the `rand` crate: 32 bytes from the operating
/// system, or `None` if it has none to give. Nothing is claimed of the bytes.
#[verifier::external_body]
fn os_random_bytes() -> (bytes: Option<[u8; 32]>) {
    let mut bytes = [0u8; 32];
    match rand::rngs::OsRng.try_fill_bytes(&mut bytes) {
        Ok(()) => Some(bytes),
        Err(_) => None,
    }
}

/// A salt made of 32 bytes.
pub fn salt_from_bytes(bytes: &[u8; 32]) -> (salt: String)
    ensures
        salt@ == hex_digits(bytes@),
        salt@.len() == 64,
{
    hex_encode(bytes.as_slice())
}

/// The salt made of what was drawn: one if there are bytes, none if there are
/// not.
pub fn salt_from_draw(drawn: Option<[u8; 32]>) -> (salt: Option<String>)
    ensures
        match drawn {
            Some(bytes) => salt matches Some(text) && text@ == hex_digits(bytes@),
            None => salt is None,
        },
{
    match drawn {
        Some(bytes) => Some(salt_from_bytes(&bytes)),
        None => None,
    }
}

/// A new salt of 32 random bytes, or `None` if the operating system has no
/// randomness to give.
pub fn generate_salt() -> (salt: Option<String>)
    ensures
        salt matches Some(text) ==> exists|bytes: Seq<u8>|
            bytes.len() == 32 && text@ == #[trigger] hex_digits(bytes),
{
    salt_from_draw(os_random_bytes())
}

/// An install salt, and whether it is new and has to be saved.
#[derive(Debug)]
pub struct InstallSalt {
    pub salt: String,
    pub persist: bool,
}

/// The install salt, and whether it has to be saved: the one on the machine, or
/// one made of the bytes that were drawn.
pub open spec fn install_salt_of(
    has_path: bool,
    stored: Option<String>,
    legacy: Option<String>,
    drawn: Option<Seq<u8>>,
) -> Option<(Seq<char>, bool)> {
    match (existing_salt(has_path, stored, legacy), drawn) {
        (Some(salt), _) => Some((salt, false)),
        (None, Some(bytes)) => Some((hex_digits(bytes), has_path)),
        (None, None) => None,
    }
}

/// The install salt, given what was drawn for a new one.
pub fn install_salt_from_draw(
    has_path: bool,
    stored: &Option<String>,
    legacy: &Option<String>,
    drawn: Option<[u8; 32]>,
) -> (salt: Option<InstallSalt>)
    ensures
        (match salt {
            Some(install) => Some((install.salt@, install.persist)),
            None => None,
        }) == install_salt_of(
            has_path,
            *stored,
            *legacy,
            match drawn {
                Some(bytes) => Some(bytes@),
                None => None,
            },
        ),
{
    match choose_install_salt(has_path, stored, legacy) {
        SaltChoice::Existing { salt } => Some(InstallSalt { salt, persist: false }),
        SaltChoice::Generate { persist } => match salt_from_draw(drawn) {
            Some(salt) => Some(InstallSalt { salt, persist }),
            None => None,
        },
    }
}

/// The install salt: the one on the machine, or a new one. `None` if a new one
/// is needed and cannot be made.
pub fn load_or_create_install_salt(
    has_path: bool,
    stored: &Option<String>,
    legacy: &Option<String>,
) -> (salt: Option<InstallSalt>)
    ensures
        existing_salt(has_path, *stored, *legacy) is Some ==> (salt matches Some(kept) && Some(
            kept.salt@,
        ) == existing_salt(has_path, *stored, *legacy) && !kept.persist),
        existing_salt(has_path, *stored, *legacy) is None ==> (salt matches Some(made) ==> {
            &&& made.persist == has_path
            &&& exists|bytes: Seq<u8>|
                bytes.len() == 32 && made.salt@ == #[trigger] hex_digits(bytes)
        }),
{
    let drawn: Option<[u8; 32]> = match choose_install_salt(has_path, stored, legacy) {
        SaltChoice::Existing { .. } => None,
        SaltChoice::Generate { .. } => os_random_bytes(),
    };
    install_salt_from_draw(has_path, stored, legacy, drawn)
}

/// An installation keeps its identity: a salt saved in the current place is the
/// one that is used from then on, whatever else is on the machine.
pub proof fn law_saved_salt_is_kept(salt: String, legacy: Option<String>)
    requires
        trimmed(salt@) == salt@,
        salt@.len() > 0,
    ensures
        existing_salt(true, Some(salt), legacy) == Some(salt@),
{
}

/// An installation with a salt in the legacy place keeps its identity, whether
/// or not there is a current place, as long as no other salt was saved there.
pub proof fn law_legacy_salt_is_kept(
    has_path: bool,
    stored: Option<String>,
    legacy: Option<String>,
    drawn: Option<Seq<u8>>,
)
    requires
        salt_in(legacy) is Some,
        !has_path || salt_in(stored) is None,
    ensures
        existing_salt(has_path, stored, legacy) == salt_in(legacy),
        install_salt_of(has_path, stored, legacy, drawn) == Some((salt_in(legacy)->0, false)),
{
}

/// A new salt survives being saved: read back from the current place it is the
/// salt that was made.
pub proof fn law_new_salt_is_read_back(bytes: Seq<u8>, saved: String, legacy: Option<String>)
    requires
        bytes.len() > 0,
        saved@ == hex_digits(bytes),
    ensures
        existing_salt(true, Some(saved), legacy) == Some(hex_digits(bytes)),
{
    let text = hex_digits(bytes);
    aggregate::law_hex_alphabet(bytes, 0);
    aggregate::law_hex_alphabet(bytes, text.len() - 1);
    assert(!crate::text::white_space(text[0]));
    assert(!crate::text::white_space(text.last()));
    law_saved_salt_is_kept(saved, legacy);
}

/// With consent the reports go on: one at once, then, however it ended, another
/// after every six hours.
pub proof fn law_reports_go_on(scopes: ConsentScopes, panicked: bool)
    requires
        scopes.device_inventory,
    ensures
        ({
            let (reporting, first) = telemetry_next(
                TelemetryState::Start,
                TelemetryEvent::Consent { scopes },
            );
            let (waiting, pause) = telemetry_next(
                reporting,
                TelemetryEvent::ReportEnded { panicked },
            );
            let (again, second) = telemetry_next(waiting, TelemetryEvent::Slept);
            &&& first is Report
            &&& pause == (TelemetryAction::Sleep { secs: 21_600 })
            &&& second is Report
            &&& again == reporting
        }),
{
}

/// The salt in a file is its trimmed contents, unless they are blank.
pub proof fn law_salt_is_trimmed_contents(contents: Option<String>)
    ensures
        salt_in(contents) is Some <==> contents is Some && trimmed(contents->0@).len() > 0,
        salt_in(contents) matches Some(salt) ==> salt == trimmed(contents->0@),
{
}

/// A new salt is made only if there is none on the machine. It is the text of the
/// bytes that were drawn, and it is to be saved exactly if there is a place for
/// it; without bytes there is no salt.
pub proof fn law_new_salt_only_if_none_is_there(
    has_path: bool,
    stored: Option<String>,
    legacy: Option<String>,
    bytes: Seq<u8>,
)
    requires
        !has_path || salt_in(stored) is None,
        salt_in(legacy) is None,
    ensures
        existing_salt(has_path, stored, legacy) is None,
        install_salt_of(has_path, stored, legacy, Some(bytes)) == Some(
            (hex_digits(bytes), has_path),
        ),
        install_salt_of(has_path, stored, legacy, None) is None,
{
}

/// A salt in the current place goes before one in the legacy place, and before
/// anything that was drawn.
pub proof fn law_current_salt_goes_first(
    stored: Option<String>,
    legacy: Option<String>,
    drawn: Option<Seq<u8>>,
)
    requires
        salt_in(stored) is Some,
    ensures
        install_salt_of(true, stored, legacy, drawn) == Some((salt_in(stored)->0, false)),
{
}

/// The salt is `kibad/telemetry-salt` in the data directory, or in `.local/share`
/// of the home directory if no other is set.
pub proof fn law_salt_is_in_data_directory(xdg_data_home: Option<Vec<u8>>, home: Option<Vec<u8>>)
    ensures
        ({
            let path = salt_file(xdg_data_home, home);
            let dir_set = xdg_data_home is Some && xdg_data_home->0@.len() > 0;
            let home_set = home is Some && home->0@.len() > 0;
            &&& path is Some <==> dir_set || home_set
            &&& path is Some ==> exists|dir: Seq<u8>|
                path->0 == #[trigger] (dir + encode_utf8("kibad/"@) + encode_utf8(
                    "telemetry-salt"@,
                ))
            &&& dir_set ==> xdg_data_home->0@.is_prefix_of(path->0)
            &&& !dir_set && home_set ==> crate::paths::joined(
                home->0@,
                encode_utf8(".local/share"@),
            ).is_prefix_of(path->0)
        }),
{
    let fallback = encode_utf8(".local/share"@);
    let name = encode_utf8("telemetry-salt"@);
    crate::paths::law_preferred_directory_comes_first(xdg_data_home, home, fallback, name);
    if crate::paths::is_set(xdg_data_home) || crate::paths::is_set(home) {
        crate::paths::law_user_file_is_under_kibad(xdg_data_home, home, fallback, name);
    }
}

} // verus!
