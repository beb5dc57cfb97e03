use kibad::telemetry::aggregate::{
    assemble_report, build_report, derive_install_id, install_id_input, install_id_text,
    KIBAD_VERSION, SCHEMA_VERSION,
};
use kibad::telemetry::collectors::{
    collect_device_inventory, parse_gpu_models, parse_usb_peripherals, read_cpu_model, read_dmi,
    read_gpu_models, read_usb_peripherals, CommandOutput, DeviceInventory, HostSources,
};
use kibad::telemetry::consent::{
    check_permissions, evaluate, load, load_inner, ConsentError, ConsentFile, ConsentRead,
    ConsentScopes, FileMeta, CONSENT_PATH, SUPPORTED_VERSION,
};
use kibad::telemetry::uplink::{
    log_line, outbound_log_path, send_step, UplinkAction, UplinkEvent, UplinkState,
};
use kibad::telemetry::{
    choose_install_salt, current_period_label, generate_salt, install_salt_from_draw,
    load_or_create_install_salt, read_salt, report_once, run_step, salt_from_bytes,
    salt_from_draw, salt_path, SaltChoice, TelemetryAction, TelemetryEvent, TelemetryState, REPORT_INTERVAL_SECS,
};

const ROOT_FILE: FileMeta = FileMeta { uid: 0, mode: 0o100644 };

fn parse(raw: &str) -> ConsentFile {
    let value: serde_json::Value = serde_json::from_str(raw).unwrap();
    ConsentFile {
        version: value["version"].as_u64().unwrap() as u32,
        agreed: value["agreed"].as_bool().unwrap(),
        scopes: ConsentScopes {
            device_inventory: value["scopes"]["device_inventory"].as_bool().unwrap(),
        },
        recorded_at: value["recorded_at"].as_str().unwrap().to_string(),
    }
}

fn print(file: &ConsentFile) -> String {
    let mut scopes = serde_json::Map::new();
    scopes.insert("device_inventory".to_string(), file.scopes.device_inventory.into());
    let mut value = serde_json::Map::new();
    value.insert("version".to_string(), file.version.into());
    value.insert("agreed".to_string(), file.agreed.into());
    value.insert("scopes".to_string(), serde_json::Value::Object(scopes));
    value.insert("recorded_at".to_string(), file.recorded_at.clone().into());
    serde_json::Value::Object(value).to_string()
}

fn agreed() -> ConsentFile {
    ConsentFile {
        version: SUPPORTED_VERSION,
        agreed: true,
        scopes: ConsentScopes { device_inventory: true },
        recorded_at: "2026-01-01T00:00:00Z".into(),
    }
}

#[test]
fn missing_file_is_no_consent() {
    let path = std::path::Path::new("/nonexistent/does-not-exist");
    assert!(!path.exists());
    assert!(load_inner(None, &ConsentRead::Unreadable).is_err());
    assert_eq!(load(None, &ConsentRead::Unreadable), ConsentScopes::none());
}

#[test]
fn declined_yields_no_scopes() {
    let f = ConsentFile {
        version: SUPPORTED_VERSION,
        agreed: false,
        scopes: ConsentScopes { device_inventory: true },
        recorded_at: "2026-01-01T00:00:00Z".into(),
    };
    let json = print(&f);
    let parsed = parse(&json);
    assert!(!parsed.agreed);
    assert_eq!(evaluate(&parsed), Ok(ConsentScopes::none()));
    assert!(!load(Some(ROOT_FILE), &ConsentRead::Parsed(parsed)).any());
}

#[test]
fn unsupported_version_rejected() {
    let raw = r#"{"version":99,"agreed":true,"scopes":{"device_inventory":true},"recorded_at":"2026-01-01T00:00:00Z"}"#;
    let f = parse(raw);
    assert_ne!(f.version, SUPPORTED_VERSION);
    assert_eq!(evaluate(&f), Err(ConsentError::UnsupportedVersion { found: 99 }));
    assert!(!load(Some(ROOT_FILE), &ConsentRead::Parsed(f)).any());
}

#[test]
fn agreement_grants_the_listed_scopes() {
    let read = ConsentRead::Parsed(agreed());
    assert_eq!(load_inner(Some(ROOT_FILE), &read), Ok(ConsentScopes { device_inventory: true }));
    assert!(load(Some(ROOT_FILE), &read).any());
    let mut narrow = agreed();
    narrow.scopes.device_inventory = false;
    assert!(!load(Some(ROOT_FILE), &ConsentRead::Parsed(narrow)).any());
    assert_eq!(CONSENT_PATH, "/etc/kibad/telemetry-consent.state");
}

#[test]
fn permissions_are_checked_first() {
    let read = ConsentRead::Parsed(agreed());
    let user = FileMeta { uid: 1000, mode: 0o100666 };
    assert_eq!(check_permissions(user), Err(ConsentError::NotRootOwned));
    assert_eq!(load_inner(Some(user), &read), Err(ConsentError::NotRootOwned));
    for mode in [0o100664, 0o100646, 0o100622] {
        let meta = FileMeta { uid: 0, mode };
        assert_eq!(check_permissions(meta), Err(ConsentError::SharedWritable));
        assert!(!load(Some(meta), &read).any());
    }
    for mode in [0o100644, 0o100755, 0o100600] {
        assert_eq!(check_permissions(FileMeta { uid: 0, mode }), Ok(()));
    }
}

#[test]
fn bad_contents_grant_nothing() {
    assert_eq!(load_inner(None, &ConsentRead::Malformed), Err(ConsentError::Missing));
    let unreadable = load_inner(Some(ROOT_FILE), &ConsentRead::Unreadable);
    assert_eq!(unreadable, Err(ConsentError::Unreadable));
    let malformed = load_inner(Some(ROOT_FILE), &ConsentRead::Malformed);
    assert_eq!(malformed, Err(ConsentError::Malformed));
    assert!(!load(Some(ROOT_FILE), &ConsentRead::Malformed).any());
}

#[test]
fn consent_errors_have_words() {
    assert_eq!(
        ConsentError::UnsupportedVersion { found: 99 }.message(),
        "unsupported consent file version 99 (expected 1)"
    );
    assert_eq!(ConsentError::NotRootOwned.message(), "consent file is not root-owned");
    assert_eq!(ConsentError::SharedWritable.message(), "consent file is group/world-writable");
    for error in [ConsentError::Missing, ConsentError::Unreadable, ConsentError::Malformed] {
        assert!(error.message().starts_with("consent file "));
    }
}

#[test]
fn cpu_model_follows_the_colon() {
    let table = "processor\t: 0\nmodel name\t: Fancy CPU: 9000 \nmodel name\t: Other\n";
    assert_eq!(read_cpu_model(table), Some("Fancy CPU".to_string()));
    assert_eq!(read_cpu_model("model name\nmodel name: x\n"), None);
    assert_eq!(read_cpu_model("cpu model: x\n"), None);
    assert_eq!(read_cpu_model(""), None);
    assert_eq!(read_cpu_model("model name:\n"), Some(String::new()));
}

const LSPCI: &str = "00:00.0 \"Host bridge\" \"Intel\" \"Bridge\" -r02 \"\" \"\"\n\
     00:02.0 \"VGA compatible controller\" \"Intel\" \"UHD 620\" -r02 \"Dell\" \"Sub\"\n\
     01:00.0 \"3D controller\" \"NVIDIA\" \"GM108M\" -ra2 \"Dell\" \"GeForce\"\r\n\
     02:00.0 \"Display controller\" \"AMD\"\n";

#[test]
fn gpus_are_the_display_adapters() {
    assert_eq!(parse_gpu_models(LSPCI), vec!["UHD 620".to_string(), "GM108M".to_string()]);
    assert!(parse_gpu_models("").is_empty());
}

#[test]
fn peripherals_leave_out_hubs_and_bus_numbers() {
    let listing = "Bus 001 Device 004: ID 046d:c52b Logitech, Inc. Unifying Receiver\n\
                   Bus 001 Device 001: ID 1d6b:0002 Linux Foundation 2.0 root hub\n\
                   Bus 002 Device 001: ID 8087:0024 Intel root hub\n\
                   nothing here\n\
                   Bus 002 Device 002: ID  05ac:024f ID Apple  ";
    assert_eq!(
        parse_usb_peripherals(listing),
        vec![
            "046d:c52b Logitech, Inc. Unifying Receiver".to_string(),
            "05ac:024f ID Apple".to_string(),
        ]
    );
}

#[test]
fn board_fields_skip_placeholders() {
    let field = |text: &str| read_dmi(&Some(text.to_string()));
    assert_eq!(field(" Dell Inc.\n"), Some("Dell Inc.".to_string()));
    assert_eq!(field("To Be Filled By O.E.M.\n"), None);
    assert_eq!(field(" \n"), None);
    assert_eq!(read_dmi(&None), None);
}

#[test]
fn failed_commands_give_nothing() {
    let failed = Some(CommandOutput { success: false, stdout: LSPCI.as_bytes().to_vec() });
    assert!(read_gpu_models(&failed).is_empty());
    assert!(read_gpu_models(&None).is_empty());
    assert!(read_usb_peripherals(&None).is_empty());
    assert!(read_usb_peripherals(&failed).is_empty());
}

#[test]
fn undecodable_output_is_still_read() {
    let mut stdout = b"Bus 1: ID 1234:5678 Caf".to_vec();
    stdout.push(0xe9);
    stdout.extend_from_slice(b" Mouse\n");
    let found = read_usb_peripherals(&Some(CommandOutput { success: true, stdout }));
    assert_eq!(found, vec!["1234:5678 Caf\u{fffd} Mouse".to_string()]);
}

fn sources() -> HostSources {
    HostSources {
        cpuinfo: Some("model name : CPU\n".to_string()),
        lspci: Some(CommandOutput { success: true, stdout: LSPCI.as_bytes().to_vec() }),
        board_vendor: Some("Vendor\n".to_string()),
        board_name: Some("Board\n".to_string()),
        lsusb: Some(CommandOutput { success: true, stdout: b"ID 1:2 Mouse".to_vec() }),
    }
}

#[test]
fn inventory_takes_each_source() {
    let inventory = collect_device_inventory(&sources());
    assert_eq!(inventory.cpu_model.as_deref(), Some("CPU"));
    assert_eq!(inventory.gpu_models, vec!["UHD 620".to_string(), "GM108M".to_string()]);
    assert_eq!(inventory.board_vendor.as_deref(), Some("Vendor"));
    assert_eq!(inventory.board_model.as_deref(), Some("Board"));
    assert_eq!(inventory.usb_peripherals, vec!["1:2 Mouse".to_string()]);
    let copy = inventory.clone();
    assert_eq!(copy.gpu_models, inventory.gpu_models);
    let nothing = HostSources {
        cpuinfo: None,
        lspci: None,
        board_vendor: None,
        board_name: None,
        lsusb: None,
    };
    let empty = collect_device_inventory(&nothing);
    let default = DeviceInventory::default();
    assert_eq!(empty.cpu_model, default.cpu_model);
    assert_eq!(empty.gpu_models, default.gpu_models);
    assert_eq!(empty.usb_peripherals, default.usb_peripherals);
}

#[test]
fn install_id_is_the_salted_digest() {
    assert_eq!(
        derive_install_id("abc"),
        "f61fa87e4f191178a528dbcfee6414bc6c372518e748397435978166a2eaf698"
    );
    assert_eq!(
        derive_install_id(""),
        "2425a485fd14fd0c7abf563e39365506eac3798e2299de0c848539952ca62516"
    );
    assert_eq!(install_id_input("abc"), b"kibad-telemetry-install-id-v1:abc".to_vec());
    assert_eq!(install_id_text(&vec![0, 1, 15, 16, 171, 255]), "00010f10abff");
}

#[test]
fn report_carries_everything() {
    let report = build_report("abc", "20409", collect_device_inventory(&sources()));
    assert_eq!(report.schema_version, SCHEMA_VERSION);
    assert_eq!(report.schema_version, 1);
    assert_eq!(report.install_id, derive_install_id("abc"));
    assert_eq!(report.period, "20409");
    assert_eq!(report.kibad_version, KIBAD_VERSION);
    assert_eq!(report.device.cpu_model.as_deref(), Some("CPU"));
    let copy = report.clone();
    assert_eq!(copy.install_id, report.install_id);
    let other = assemble_report("id".to_string(), "1", DeviceInventory::default());
    assert_eq!((other.install_id.as_str(), other.period.as_str()), ("id", "1"));
    assert_eq!(report.install_id.len(), 64);
    let once = report_once("abc", 20409 * 86_400 + 86_399, &sources());
    assert_eq!(once.period, "20409");
    assert_eq!(once.install_id, report.install_id);
    assert_eq!(once.device.usb_peripherals, report.device.usb_peripherals);
}

#[test]
fn period_is_the_day() {
    assert_eq!(current_period_label(0), "0");
    assert_eq!(current_period_label(86_399), "0");
    assert_eq!(current_period_label(86_400), "1");
    assert_eq!(current_period_label(1_763_337_600), "20409");
}

#[test]
fn loop_runs_only_with_consent() {
    let no = TelemetryEvent::Consent { scopes: ConsentScopes::none() };
    let yes = TelemetryEvent::Consent { scopes: ConsentScopes { device_inventory: true } };
    let (state, action) = run_step(TelemetryState::Start, no);
    assert_eq!((state, action), (TelemetryState::Stopped, TelemetryAction::Stop));
    assert_eq!(run_step(state, yes).1, TelemetryAction::Stop);
    let (state, action) = run_step(TelemetryState::Start, yes);
    assert_eq!(action, TelemetryAction::Report);
    for panicked in [false, true] {
        let (waiting, action) = run_step(state, TelemetryEvent::ReportEnded { panicked });
        assert_eq!(action, TelemetryAction::Sleep { secs: REPORT_INTERVAL_SECS });
        let (again, action) = run_step(waiting, TelemetryEvent::Slept);
        assert_eq!((again, action), (TelemetryState::Reporting, TelemetryAction::Report));
    }
    assert_eq!(REPORT_INTERVAL_SECS, 6 * 60 * 60);
    assert_eq!(run_step(TelemetryState::Waiting, yes).1, TelemetryAction::Stop);
}

#[test]
fn payload_is_logged_before_it_is_sent() {
    let event = UplinkEvent::Serialized { body: "{\"a\":1}".to_string(), now: 1_700_000_000 };
    let (state, action) = send_step(UplinkState::Serializing, event);
    match action {
        UplinkAction::AppendLog { line } => assert_eq!(line, "[1700000000] {\"a\":1}\n"),
        other => panic!("{other:?}"),
    }
    let (state, action) = send_step(state, UplinkEvent::LogWritten);
    match action {
        UplinkAction::Post { body } => assert_eq!(body, "{\"a\":1}"),
        other => panic!("{other:?}"),
    }
    let (state, action) = send_step(state, UplinkEvent::Posted);
    assert!(matches!(state, UplinkState::Sent));
    assert!(matches!(action, UplinkAction::Finish));
    assert_eq!(log_line(7, "x"), "[7] x\n");
}

#[test]
fn unlogged_payload_is_not_sent() {
    let event = UplinkEvent::Serialized { body: "x".to_string(), now: 0 };
    let (state, _) = send_step(UplinkState::Serializing, event);
    let (state, action) = send_step(state, UplinkEvent::Failed);
    assert!(matches!(action, UplinkAction::GiveUp));
    let (state, action) = send_step(state, UplinkEvent::LogWritten);
    assert!(matches!(action, UplinkAction::GiveUp));
    assert!(matches!(state, UplinkState::Failed));
    let (_, action) = send_step(UplinkState::Serializing, UplinkEvent::Failed);
    assert!(matches!(action, UplinkAction::GiveUp));
    let (_, action) = send_step(UplinkState::Posting, UplinkEvent::Failed);
    assert!(matches!(action, UplinkAction::GiveUp));
}

fn bytes(text: &str) -> Option<Vec<u8>> {
    Some(text.as_bytes().to_vec())
}

fn shown(path: Option<Vec<u8>>) -> Option<String> {
    path.map(|p| String::from_utf8(p).unwrap())
}

#[test]
fn files_live_under_the_users_directories() {
    let data = shown(salt_path(&bytes("/data/"), &bytes("/home/u")));
    assert_eq!(data.as_deref(), Some("/data/kibad/telemetry-salt"));
    let home = shown(salt_path(&bytes(""), &bytes("/home/u")));
    assert_eq!(home.as_deref(), Some("/home/u/.local/share/kibad/telemetry-salt"));
    assert_eq!(salt_path(&None, &bytes("")), None);
    let log = shown(outbound_log_path(&None, &bytes("/home/u/")).ok());
    assert_eq!(log.as_deref(), Some("/home/u/.local/state/kibad/telemetry-outbound.log"));
    let state = shown(outbound_log_path(&bytes("/state"), &None).ok());
    assert_eq!(state.as_deref(), Some("/state/kibad/telemetry-outbound.log"));
    assert!(outbound_log_path(&None, &None).is_err());
}

#[test]
fn paths_join_like_the_standard_ones() {
    for base in ["/", "/a", "/a/", "a", "a//", "."] {
        let ours = shown(salt_path(&bytes(base), &None)).unwrap();
        let theirs = std::path::Path::new(base).join("kibad").join("telemetry-salt");
        assert_eq!(ours, theirs.to_str().unwrap());
        let ours = shown(salt_path(&None, &bytes(base))).unwrap();
        let theirs =
            std::path::Path::new(base).join(".local/share").join("kibad").join("telemetry-salt");
        assert_eq!(ours, theirs.to_str().unwrap());
    }
}

#[test]
fn salt_on_the_machine_is_kept() {
    let stored = Some(" new \n".to_string());
    let legacy = Some("old".to_string());
    let blank = Some(" \n".to_string());
    assert_eq!(read_salt(&stored).as_deref(), Some("new"));
    assert_eq!(read_salt(&blank), None);
    assert_eq!(read_salt(&None), None);
    let kept = load_or_create_install_salt(true, &stored, &legacy).unwrap();
    assert_eq!((kept.salt.as_str(), kept.persist), ("new", false));
    let kept = load_or_create_install_salt(true, &blank, &legacy).unwrap();
    assert_eq!((kept.salt.as_str(), kept.persist), ("old", false));
    assert!(matches!(
        choose_install_salt(true, &blank, &None),
        SaltChoice::Generate { persist: true }
    ));
    assert!(matches!(
        choose_install_salt(false, &stored, &blank),
        SaltChoice::Generate { persist: false }
    ));
}

#[test]
fn legacy_salt_is_kept_without_a_path() {
    let legacy = Some(" old\n".to_string());
    for has_path in [false, true] {
        let kept = load_or_create_install_salt(has_path, &None, &legacy).unwrap();
        assert_eq!((kept.salt.as_str(), kept.persist), ("old", false));
    }
    let stored = Some("new".to_string());
    let kept = load_or_create_install_salt(false, &stored, &legacy).unwrap();
    assert_eq!((kept.salt.as_str(), kept.persist), ("old", false));
}

#[test]
fn new_salt_is_what_was_drawn() {
    let text = "07".repeat(32);
    for has_path in [false, true] {
        let made = install_salt_from_draw(has_path, &None, &None, Some([7; 32])).unwrap();
        assert_eq!((made.salt.as_str(), made.persist), (text.as_str(), has_path));
        assert!(install_salt_from_draw(has_path, &None, &None, None).is_none());
    }
    let stored = Some("new".to_string());
    for drawn in [None, Some([7; 32])] {
        let kept = install_salt_from_draw(true, &stored, &None, drawn).unwrap();
        assert_eq!((kept.salt.as_str(), kept.persist), ("new", false));
    }
}

#[test]
fn plain_hubs_are_not_peripherals() {
    let run = |stdout: &[u8]| {
        read_usb_peripherals(&Some(CommandOutput { success: true, stdout: stdout.to_vec() }))
    };
    assert!(run(b"Bus 001 Device 002: ID 05e3:0608 Genesys Logic, Inc. Hub\n").is_empty());
    assert!(run(b"Bus 001 Device 002: ID 0000:0001 Generic USB hub\n").is_empty());
    assert!(run(b"Bus 001 Device 002: ID 0000:0002 4-Port HUB\n").is_empty());
    assert!(run(b"Bus 001 Device 002: ID 0000:0003 USB2.0-Hub [MTT]\n").is_empty());
    assert_eq!(run(b"ID 1:2 Hubble"), vec!["1:2 Hubble"]);
    assert_eq!(run(b"ID 1:2 Chub Dock"), vec!["1:2 Chub Dock"]);
    assert_eq!(run(b"Bus 001 Device 003: ID 046d:c31c Keyboard\n"), vec!["046d:c31c Keyboard"]);
}

#[test]
fn new_salt_is_random_hex() {
    let a = generate_salt().unwrap();
    let b = generate_salt().unwrap();
    assert_eq!(a.len(), 64);
    assert!(a.chars().all(|c| c.is_ascii_digit() || ('a'..='f').contains(&c)));
    assert_ne!(a, b);
    assert_ne!(a, "0".repeat(64));
    let made = load_or_create_install_salt(true, &None, &None).unwrap();
    assert!(made.persist && made.salt.len() == 64);
    let kept = load_or_create_install_salt(true, &Some(made.salt.clone()), &None).unwrap();
    assert!(!kept.persist && kept.salt == made.salt);
    let mut bytes = [0u8; 32];
    bytes[0] = 0xab;
    bytes[31] = 0x0c;
    assert_eq!(salt_from_bytes(&bytes), format!("ab{}0c", "0".repeat(60)));
    assert_eq!(salt_from_draw(Some(bytes)), Some(salt_from_bytes(&bytes)));
    assert_eq!(salt_from_draw(None), None);
}
