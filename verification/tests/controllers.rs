use sdsc_utils::controller::battery::{
    attempt_error, build_bt_control_off_report, calibration_request, dedupe_statuses,
    dualsense_status, next_power_off_attempt, percent_from_level, power_off_candidates,
    power_off_error, power_off_missing_error, BatteryRead, ReportOutcome, BT_CONTROL_FEATURE_REPORT,
    BT_CONTROL_FEATURE_SIZE, BT_CONTROL_FEATURE_SIZE_ALT, BT_CONTROL_FEATURE_SIZE_PADDED,
    BT_CONTROL_OFF, BT_POWER_OFFSET, BT_REPORT_FULL, BT_REPORT_SIZE, BT_REPORT_TRUNCATED,
    LOW_BATTERY_PERCENT, USB_POWER_OFFSET, USB_REPORT_ID, USB_REPORT_SIZE,
};
use sdsc_utils::controller::crc::report_crc;
use sdsc_utils::controller::driver::registry;
use sdsc_utils::controller::emulate::{apply_preset, is_emulated, Preset};
use sdsc_utils::controller::identity::{
    format_mac_from_le, is_dualsense_gamepad, is_storable_serial, list_presence_paths, mac_warning,
    normalize_identity, pairing_request, product_name, read_mac_address_le, resolve_device_identity,
    Bus, HidNode,
};
use sdsc_utils::controller::input::parse_report;
use sdsc_utils::controller::known::{KnownController, KnownControllers, KnownFile};
use sdsc_utils::controller::lightbar::{
    after_write, apply_on_open_device, build_bt_report, build_usb_report, choose_node,
    forget_all_claims, identify_flash_color, identify_flash_is_white, is_enabled,
    is_retryable_write_error, next_bt_seq_tag, prepare_connect_apply, set_enabled,
    sync_lightbar_claims, take_claim_if_needed, LightbarState, LightbarWrite, Rgb,
    IDENTIFY_FLASH_COUNT, IDENTIFY_FLASH_MS, OFF_LIGHTBAR_B, OFF_LIGHTBAR_G, OFF_LIGHTBAR_R,
    OFF_LIGHTBAR_SETUP, OFF_VALID_FLAG1, OFF_VALID_FLAG2, OUTPUT_LIGHTBAR_SETUP_LIGHT_OUT,
    OUTPUT_REPORT_BT_ID, OUTPUT_REPORT_BT_TAG, OUTPUT_REPORT_USB_ID, OUTPUT_VALID_FLAG1_LIGHTBAR,
    OUTPUT_VALID_FLAG2_LIGHTBAR_SETUP,
};
use sdsc_utils::controller::model::{Connection, ControllerKind, ControllerStatus, PowerState};
use sdsc_utils::controller::poll::poll_controllers;
use sdsc_utils::controller::worker::{HidCmd, Worker, WorkerAction};
use sdsc_utils::gesture::GestureControl;
use sdsc_utils::text_map::TextMap;

fn pad(serial: &str, percent: u8, connection: Connection) -> ControllerStatus {
    dualsense_status(
        1,
        "DualSense",
        connection,
        serial.to_string(),
        percent,
        PowerState::Discharging,
    )
}

fn node(path: &str, bus: Bus, serial: Option<&str>) -> HidNode {
    HidNode {
        path: path.to_string(),
        vendor_id: 0x054C,
        product_id: 0x0CE6,
        usage_page: 1,
        usage: 5,
        interface: 3,
        bus,
        serial: serial.map(|s| s.to_string()),
    }
}

// --- battery ---------------------------------------------------------------

#[test]
fn percent_buckets_match_linux_midpoints() {
    assert_eq!(percent_from_level(0, PowerState::Discharging), 5);
    assert_eq!(percent_from_level(1, PowerState::Discharging), 15);
    assert_eq!(percent_from_level(9, PowerState::Discharging), 95);
    assert_eq!(percent_from_level(10, PowerState::Discharging), 100);
    assert_eq!(percent_from_level(10, PowerState::Charging), 100);
    assert_eq!(percent_from_level(3, PowerState::Complete), 100);
    assert_eq!(percent_from_level(5, PowerState::AbnormalVoltage), 0);
    assert_eq!(percent_from_level(5, PowerState::ChargingError), 0);
}

#[test]
fn low_battery_requires_discharging() {
    let discharging = dualsense_status(
        1,
        "DualSense",
        Connection::Bluetooth,
        "abc".to_string(),
        5,
        PowerState::Discharging,
    );
    let mut charging = discharging.clone();
    charging.state = PowerState::Charging;
    assert!(discharging.is_low_battery(LOW_BATTERY_PERCENT));
    assert!(!charging.is_low_battery(LOW_BATTERY_PERCENT));
}

#[test]
fn low_battery_respects_threshold() {
    let pad = pad("abc", 25, Connection::Usb);
    assert!(!pad.is_low_battery(15));
    assert!(pad.is_low_battery(25));
    assert!(pad.is_low_battery(35));
}

#[test]
fn battery_normalize_identity_strips_separators_and_case() {
    assert_eq!(
        normalize_identity("AA:BB:CC:DD:EE:FF"),
        normalize_identity("aa-bb-cc-dd-ee-ff")
    );
}

#[test]
fn dedupe_prefers_usb_for_same_identity() {
    let mut bt = pad("444648156926", 35, Connection::Bluetooth);
    bt.index = 0;
    bt.state = PowerState::Charging;
    let mut usb = bt.clone();
    usb.connection = Connection::Usb;
    usb.percent = 35;
    let mut other = bt.clone();
    other.serial = "444648164f65".to_string();
    other.percent = 75;
    other.state = PowerState::Discharging;
    other.connection = Connection::Bluetooth;
    let merged = dedupe_statuses(&[bt, usb, other]);
    assert_eq!(merged.len(), 2);
    let charging = merged.iter().find(|s| s.serial == "444648156926").unwrap();
    assert_eq!(charging.connection, Connection::Usb);
}

#[test]
fn dedupe_keeps_pads_without_identity() {
    let a = pad("unknown", 35, Connection::Bluetooth);
    let b = pad("unknown", 45, Connection::Usb);
    assert_eq!(dedupe_statuses(&[a, b]).len(), 2);
}

#[test]
fn bt_power_off_report_has_id_command_and_crc() {
    let report = build_bt_control_off_report(BT_CONTROL_FEATURE_SIZE, 0xA3);
    assert_eq!(report.len(), BT_CONTROL_FEATURE_SIZE);
    assert_eq!(report[0], BT_CONTROL_FEATURE_REPORT);
    assert_eq!(report[1], BT_CONTROL_OFF);
    assert!(report[2..BT_CONTROL_FEATURE_SIZE - 4].iter().all(|&b| b == 0));
    assert!(report[BT_CONTROL_FEATURE_SIZE - 4..].iter().any(|&b| b != 0));

    let mut expected = vec![0u8; BT_CONTROL_FEATURE_SIZE];
    expected[0] = BT_CONTROL_FEATURE_REPORT;
    expected[1] = BT_CONTROL_OFF;
    let mut data = Vec::with_capacity(BT_CONTROL_FEATURE_SIZE - 3);
    data.push(0xA3);
    data.extend_from_slice(&expected[..BT_CONTROL_FEATURE_SIZE - 4]);
    let crc = crc32fast::hash(&data);
    expected[BT_CONTROL_FEATURE_SIZE - 4..].copy_from_slice(&crc.to_le_bytes());
    assert_eq!(report, expected);

    let alt = build_bt_control_off_report(BT_CONTROL_FEATURE_SIZE_ALT, 0x53);
    assert_eq!(alt.len(), BT_CONTROL_FEATURE_SIZE_ALT);
    assert_eq!(alt[0], BT_CONTROL_FEATURE_REPORT);
    assert_eq!(alt[1], BT_CONTROL_OFF);
}

#[test]
fn battery_is_read_from_either_bus() {
    let mut read = BatteryRead::begin(Bus::Usb).unwrap();
    assert_eq!(read.buffer_size(), USB_REPORT_SIZE);
    let mut buf = vec![0u8; USB_REPORT_SIZE];
    buf[0] = USB_REPORT_ID;
    buf[USB_POWER_OFFSET] = 0x18;
    match read.on_report(&buf, USB_REPORT_SIZE) {
        ReportOutcome::Reading(b) => {
            assert_eq!(b.percent, 85);
            assert_eq!(b.state, PowerState::Charging);
            assert_eq!(b.connection, Connection::Usb);
        }
        other => panic!("unexpected {other:?}"),
    }

    let mut read = BatteryRead::begin(Bus::Bluetooth).unwrap();
    let mut short = vec![0u8; BT_REPORT_SIZE];
    short[0] = BT_REPORT_TRUNCATED;
    assert_eq!(read.on_report(&short, 10), ReportOutcome::RequestFull);
    assert_eq!(read.on_report(&short, 10), ReportOutcome::Retry);
    let mut full = vec![0u8; BT_REPORT_SIZE];
    full[0] = BT_REPORT_FULL;
    full[BT_POWER_OFFSET] = 0x03;
    match read.on_report(&full, BT_REPORT_SIZE) {
        ReportOutcome::Reading(b) => assert_eq!(b.percent, 35),
        other => panic!("unexpected {other:?}"),
    }
}

#[test]
fn battery_read_errors() {
    assert_eq!(
        BatteryRead::begin(Bus::I2c).unwrap_err(),
        "unsupported connection type: I2c"
    );
    let mut read = BatteryRead::begin(Bus::Usb).unwrap();
    let mut buf = vec![0u8; USB_REPORT_SIZE];
    buf[0] = 0x42;
    let wrong = read.on_report(&buf, USB_REPORT_SIZE);
    assert_eq!(wrong, ReportOutcome::WrongId { got: 0x42, expected: USB_REPORT_ID });
    assert_eq!(
        wrong.message().unwrap(),
        "unexpected report id 0x42 (expected 0x01)"
    );
    buf[0] = USB_REPORT_ID;
    let short = read.on_report(&buf, 20);
    assert_eq!(short, ReportOutcome::TooShort { bytes: 20 });
    assert_eq!(short.message().unwrap(), "input report too short (20 bytes)");
    for _ in 0..4 {
        assert!(read.may_read());
        assert_eq!(read.on_report(&buf, 0), ReportOutcome::Retry);
    }
    assert!(!read.may_read());
    assert_eq!(calibration_request().len(), 41);
    assert_eq!(calibration_request()[0], 0x05);
}

#[test]
fn power_off_tries_every_size_and_seed() {
    let ids = vec!["unknown".to_string(), "aabb".to_string(), "cc".to_string()];
    assert_eq!(power_off_candidates(&ids, "AA:BB"), vec![1, 0]);
    assert_eq!(power_off_candidates(&ids, "dd"), vec![0]);

    let first = next_power_off_attempt(1, 0).unwrap();
    assert_eq!((first.seed, first.size), (0xA3, BT_CONTROL_FEATURE_SIZE));
    let third = next_power_off_attempt(1, 2).unwrap();
    assert_eq!((third.seed, third.size), (0xA3, BT_CONTROL_FEATURE_SIZE_PADDED));
    let fifth = next_power_off_attempt(1, 4).unwrap();
    assert_eq!((fifth.seed, fifth.size), (0x53, BT_CONTROL_FEATURE_SIZE_ALT));
    assert!(next_power_off_attempt(1, 6).is_none());

    assert_eq!(attempt_error("p", &first, "no"), "p size=48 seed=0xa3: no");
    assert_eq!(
        power_off_error(&["p size=48 seed=0xa3: no".to_string()]),
        "power-off feature report failed after 1 attempt(s): p size=48 seed=0xa3: no"
    );
    assert_eq!(
        power_off_missing_error("x"),
        "Bluetooth controller x not found (power-off is Bluetooth-only)"
    );
}

// --- identity --------------------------------------------------------------

#[test]
fn identity_normalize_identity_strips_separators_and_case() {
    assert_eq!(
        normalize_identity("AA:BB:CC:DD:EE:FF"),
        normalize_identity("aa-bb-cc-dd-ee-ff")
    );
}

#[test]
fn storable_serial_rejects_empty_and_unknown() {
    assert!(!is_storable_serial(""));
    assert!(!is_storable_serial("unknown"));
    assert!(is_storable_serial("aabbccddeeff"));
}

#[test]
fn identity_falls_back_to_the_mac() {
    let mut report = vec![0u8; 20];
    report[0] = 0x09;
    for (i, b) in [0x66u8, 0x55, 0x44, 0x33, 0x22, 0x11].iter().enumerate() {
        report[1 + i] = *b;
    }
    let mac = read_mac_address_le(&report, 20).unwrap();
    assert_eq!(format_mac_from_le(&mac), "112233445566");
    let bare = node("p", Bus::Usb, None);
    assert_eq!(resolve_device_identity(&bare, Some(&mac)), "112233445566");
    assert_eq!(resolve_device_identity(&bare, None), "unknown");
    let own = node("p", Bus::Bluetooth, Some("AA-BB"));
    assert_eq!(resolve_device_identity(&own, Some(&mac)), "aabb");
    assert_eq!(
        read_mac_address_le(&report, 3).unwrap_err(),
        "pairing-info report too short or unexpected id (3 bytes)"
    );
    assert_eq!(pairing_request()[0], 0x09);
    assert_eq!(
        mac_warning(&bare, "busy"),
        "could not read MAC for DualSense over USB: busy"
    );
    assert_eq!(product_name(0x0DF2), "DualSense Edge");
}

#[test]
fn unicode_identities_are_lowered() {
    assert_eq!(normalize_identity("ÄB"), "äb");
}

#[test]
fn presence_lists_gamepads_by_path() {
    let mut audio = node("c", Bus::Usb, None);
    audio.usage = 1;
    let nodes = vec![node("b", Bus::Usb, None), audio, node("a", Bus::Bluetooth, None)];
    assert!(is_dualsense_gamepad(&nodes[0]));
    assert!(!is_dualsense_gamepad(&nodes[1]));
    assert_eq!(list_presence_paths(&nodes), vec!["a".to_string(), "b".to_string()]);
}

// --- emulate ---------------------------------------------------------------

#[test]
fn charge_complete_step_two_phase() {
    let first = apply_preset(Preset::ChargeCompleteStep, &[]);
    assert_eq!(first.len(), 1);
    assert_eq!(first[0].state, PowerState::Charging);

    let second = apply_preset(Preset::ChargeCompleteStep, &first);
    assert_eq!(second[0].state, PowerState::Complete);
}

#[test]
fn clear_empties() {
    let pads = apply_preset(Preset::LowBattery, &[]);
    assert!(!pads.is_empty());
    assert!(apply_preset(Preset::Clear, &pads).is_empty());
}

#[test]
fn charge_advance_reaches_complete() {
    let mut pads = apply_preset(Preset::AnalyticsPlugEmpty, &[]);
    assert_eq!(pads[0].percent, 5);
    pads = apply_preset(Preset::AnalyticsChargeAdvance, &pads);
    assert_eq!(pads[0].percent, 25);
    for _ in 0..5 {
        pads = apply_preset(Preset::AnalyticsChargeAdvance, &pads);
    }
    assert_eq!(pads[0].state, PowerState::Complete);
}

#[test]
fn drain_advance_reaches_empty_bucket() {
    let mut pads = apply_preset(Preset::AnalyticsUnplugFull, &[]);
    assert_eq!(pads[0].percent, 100);
    for _ in 0..6 {
        pads = apply_preset(Preset::AnalyticsDrainAdvance, &pads);
    }
    assert_eq!(pads[0].percent, LOW_BATTERY_PERCENT);
}

#[test]
fn presets_make_emulated_pads() {
    for p in apply_preset(Preset::LowBattery, &[]) {
        assert!(is_emulated(&p.serial));
    }
    assert!(!is_emulated("aabbccddeeff"));
}

// --- known -----------------------------------------------------------------

#[test]
fn remember_and_forget() {
    let mut store = KnownControllers::default();
    let controller = pad("abc123", 50, Connection::Bluetooth);

    assert!(store.remember(&controller));
    assert!(store.is_remembered("abc123"));
    assert!(store.forget("abc123"));
    assert!(!store.is_remembered("abc123"));
}

#[test]
fn skips_unknown_and_empty_serials() {
    let mut store = KnownControllers::default();
    assert!(!store.remember(&pad("unknown", 50, Connection::Usb)));
    assert!(!store.remember(&pad("", 50, Connection::Usb)));
    assert!(!store.is_remembered("unknown"));
    assert!(!store.is_remembered(""));
}

#[test]
fn sync_from_live_updates_only_remembered() {
    let mut store = KnownControllers::default();
    store.remember(&pad("remembered", 50, Connection::Usb));
    store.dirty = false;

    let live = vec![
        pad("remembered", 75, Connection::Bluetooth),
        pad("other", 30, Connection::Usb),
    ];
    assert!(store.sync_from_live(&live));
    assert_eq!(store.by_serial.get("remembered").unwrap().percent, 75);
    assert_eq!(store.by_serial.get("remembered").unwrap().connection, "Bluetooth");
    assert!(!store.is_remembered("other"));
}

#[test]
fn remembered_disconnected_excludes_live() {
    let mut store = KnownControllers::default();
    store.remember(&pad("live", 50, Connection::Usb));
    store.remember(&pad("gone", 25, Connection::Bluetooth));

    let live = vec![pad("live", 60, Connection::Usb)];
    let disconnected = store.remembered_disconnected(&live);
    assert_eq!(disconnected.len(), 1);
    assert_eq!(disconnected[0].serial, "gone");
}

#[test]
fn nickname_set_and_clear() {
    let mut store = KnownControllers::default();
    assert!(store.set_nickname("abc123", Some("  Left pad  ".into())));
    assert_eq!(store.nickname("abc123"), Some("Left pad"));
    assert!(!store.set_nickname("abc123", Some("Left pad".into())));
    assert!(store.set_nickname("abc123", Some("   ".into())));
    assert_eq!(store.nickname("abc123"), None);
}

#[test]
fn nickname_survives_forget() {
    let mut store = KnownControllers::default();
    store.remember(&pad("abc123", 50, Connection::Usb));
    store.set_nickname("abc123", Some("Couch".into()));
    assert!(store.forget("abc123"));
    assert!(!store.is_remembered("abc123"));
    assert_eq!(store.nickname("abc123"), Some("Couch"));
}

#[test]
fn nickname_rejects_unknown_serials() {
    let mut store = KnownControllers::default();
    assert!(!store.set_nickname("unknown", Some("Nope".into())));
    assert!(!store.set_nickname("", Some("Nope".into())));
    assert_eq!(store.nickname("unknown"), None);
}

#[test]
fn older_controllers_file_without_nicknames_loads() {
    let file = KnownFile {
        controllers: vec![KnownController {
            serial: "abc".to_string(),
            product: "DualSense".to_string(),
            connection: "USB".to_string(),
            percent: 40,
            kind: ControllerKind::default(),
        }],
        nicknames: TextMap::new(),
    };
    let store = KnownControllers::from_file(file);
    assert!(store.is_remembered("abc"));
    assert!(store.nicknames.is_empty());
}

#[test]
fn known_file_reads_back() {
    let mut store = KnownControllers::default();
    store.remember(&pad("abc", 50, Connection::Usb));
    store.set_nickname("abc", Some("Couch".into()));
    let again = KnownControllers::from_file(store.to_file());
    assert!(again.is_remembered("abc"));
    assert_eq!(again.nickname("abc"), Some("Couch"));
    assert!(!again.needs_save());
}

// --- lightbar --------------------------------------------------------------

#[test]
fn bt_claim_report_has_setup_without_rgb() {
    let report = build_bt_report(LightbarWrite::Claim, 0);
    assert_eq!(report.len(), 78);
    assert_eq!(report[0], OUTPUT_REPORT_BT_ID);
    assert_eq!(report[2], OUTPUT_REPORT_BT_TAG);
    assert_eq!(report[3 + OFF_VALID_FLAG1], 0);
    assert_eq!(report[3 + OFF_VALID_FLAG2], OUTPUT_VALID_FLAG2_LIGHTBAR_SETUP);
    assert_eq!(report[3 + OFF_LIGHTBAR_SETUP], OUTPUT_LIGHTBAR_SETUP_LIGHT_OUT);
    assert_eq!(report[3 + OFF_LIGHTBAR_R], 0);
    assert!(report[74..78].iter().any(|&b| b != 0));
}

#[test]
fn bt_rgb_report_sets_color_without_setup() {
    let report = build_bt_report(LightbarWrite::Color(Rgb { r: 255, g: 100, b: 0 }), 0);
    assert_eq!(report[3 + OFF_VALID_FLAG1], OUTPUT_VALID_FLAG1_LIGHTBAR);
    assert_eq!(report[3 + OFF_VALID_FLAG2], 0);
    assert_eq!(report[3 + OFF_LIGHTBAR_SETUP], 0);
    assert_eq!(report[3 + OFF_LIGHTBAR_R], 255);
    assert_eq!(report[3 + OFF_LIGHTBAR_G], 100);
    assert_eq!(report[3 + OFF_LIGHTBAR_B], 0);
    assert!(report[74..78].iter().any(|&b| b != 0));
}

#[test]
fn bt_reports_end_in_their_crc() {
    let report = build_bt_report(LightbarWrite::Color(Rgb { r: 1, g: 2, b: 3 }), 0x20);
    assert_eq!(report[1], 0x20);
    let mut data = vec![0xA2u8];
    data.extend_from_slice(&report[..74]);
    assert_eq!(report[74..78], crc32fast::hash(&data).to_le_bytes());
}

#[test]
fn crc_is_that_of_ieee() {
    assert_eq!(report_crc(b'1', b"23456789????"), 0xCBF4_3926);
    assert_eq!(report_crc(b'a', &[0; 4]), 0xE8B7_BE43);
}

#[test]
fn usb_report_has_no_crc() {
    let report = build_usb_report(LightbarWrite::Color(Rgb { r: 9, g: 8, b: 7 }));
    assert_eq!(report.len(), 63);
    assert_eq!(report[0], OUTPUT_REPORT_USB_ID);
    assert_eq!(report[1 + OFF_LIGHTBAR_R], 9);
    assert_eq!(report[1 + OFF_LIGHTBAR_G], 8);
    assert_eq!(report[1 + OFF_LIGHTBAR_B], 7);
    assert_eq!(report[62], 0);
}

fn serials(v: &[&str]) -> Vec<String> {
    v.iter().map(|s| s.to_string()).collect()
}

#[test]
fn claim_once_per_connection() {
    let mut state = LightbarState::new();
    forget_all_claims(&mut state);

    sync_lightbar_claims(&mut state, &[]);
    assert!(take_claim_if_needed(&mut state, "aabbcc"));
    assert!(!take_claim_if_needed(&mut state, "aabbcc"));
    assert!(take_claim_if_needed(&mut state, "ddeeff"));
    sync_lightbar_claims(&mut state, &serials(&["ddeeff"]));
    assert!(!take_claim_if_needed(&mut state, "ddeeff"));
    assert!(take_claim_if_needed(&mut state, "aabbcc"));
    sync_lightbar_claims(&mut state, &[]);

    forget_all_claims(&mut state);
    assert!(take_claim_if_needed(&mut state, "aabbcc"));
    assert!(!take_claim_if_needed(&mut state, "aabbcc"));
    prepare_connect_apply(&mut state, "aabbcc");
    assert!(take_claim_if_needed(&mut state, "aabbcc"));
    forget_all_claims(&mut state);
}

#[test]
fn identify_flash_matches_lightbar_timing() {
    let start = 5_000;
    assert_eq!(identify_flash_is_white(start, start), Some(true));
    assert_eq!(identify_flash_is_white(start, start + IDENTIFY_FLASH_MS), Some(false));
    assert_eq!(identify_flash_is_white(start, start + IDENTIFY_FLASH_MS * 2), Some(true));
    let done_at = start + IDENTIFY_FLASH_MS * u64::from(IDENTIFY_FLASH_COUNT) * 2;
    assert_eq!(identify_flash_is_white(start, done_at), None);
}

#[test]
fn retryable_write_error_detects_io_pending() {
    assert!(is_retryable_write_error(
        "hidapi error: hid_write/WaitForSingleObject: (0x000003E5) Overlapped I/O operation is in progress."
    ));
    assert!(!is_retryable_write_error("controller not found"));
}

#[test]
fn color_follows_its_claim() {
    let mut state = LightbarState::new();
    let c = Rgb { r: 1, g: 2, b: 3 };
    let plan = apply_on_open_device(&mut state, "aa", c, true);
    assert!(plan.claim);
    assert_eq!(plan.report, build_bt_report(LightbarWrite::Claim, 0x00));
    let color = after_write(&mut state, "aa", plan, true).unwrap();
    assert_eq!(color.report, build_bt_report(LightbarWrite::Color(c), 0x10));
    assert!(after_write(&mut state, "aa", color, true).is_none());
    let again = apply_on_open_device(&mut state, "aa", c, true);
    assert!(!again.claim);
    assert_eq!(again.report, build_bt_report(LightbarWrite::Color(c), 0x20));
    assert!(after_write(&mut state, "aa", again, true).is_none());
    // A pad stays claimed when only its color failed to be written, and no claim was made.
    let plan = apply_on_open_device(&mut state, "aa", c, false);
    assert!(after_write(&mut state, "aa", plan, false).is_none());
    assert!(!apply_on_open_device(&mut state, "aa", c, false).claim);
}

#[test]
fn no_color_follows_a_failed_claim() {
    let mut state = LightbarState::new();
    let c = Rgb { r: 1, g: 2, b: 3 };
    let plan = apply_on_open_device(&mut state, "aa", c, true);
    assert!(after_write(&mut state, "aa", plan, false).is_none());
    assert_eq!(state.seq, 1);
    // The claim is made again, under the next number.
    let plan = apply_on_open_device(&mut state, "aa", c, true);
    assert!(plan.claim);
    assert_eq!(plan.report, build_bt_report(LightbarWrite::Claim, 0x10));
    // A claim counts as failed when its color could not be written.
    let color = after_write(&mut state, "aa", plan, true).unwrap();
    assert!(after_write(&mut state, "aa", color, false).is_none());
    assert_eq!(state.seq, 3);
    assert!(apply_on_open_device(&mut state, "aa", c, true).claim);
}

#[test]
fn sequence_tags_wrap() {
    let mut state = LightbarState::new();
    let first = next_bt_seq_tag(&mut state);
    for _ in 0..15 {
        let _ = next_bt_seq_tag(&mut state);
    }
    assert_eq!(next_bt_seq_tag(&mut state), first);
    set_enabled(&mut state, false);
    assert!(!is_enabled(&state));
    let red = Rgb { r: 255, g: 0, b: 0 };
    assert_eq!(identify_flash_color(0, red), Rgb::white());
    assert_eq!(identify_flash_color(1, red), red);
}

#[test]
fn usb_node_is_preferred() {
    let ids = serials(&["aa", "bb", "aa"]);
    let buses = vec![Bus::Bluetooth, Bus::Usb, Bus::Usb];
    assert_eq!(choose_node(&ids, &buses, "aa"), Some(2));
    assert_eq!(choose_node(&ids, &buses, "cc"), None);
}

// --- poll, worker, input ---------------------------------------------------

#[test]
fn poll_sorts_by_serial_and_claims_fresh_pads() {
    let mut state = LightbarState::new();
    let polled = vec![pad("bb", 50, Connection::Usb), pad("aa", 40, Connection::Bluetooth)];
    let out = poll_controllers(&mut state, &polled, &serials(&["bb"]));
    assert_eq!(out.order, vec![1, 0]);
    assert_eq!(out.pads[0].serial, "aa");
    assert!(out.apply);
    assert!(take_claim_if_needed(&mut state, "aa"));
}

#[test]
fn worker_flashes_in_turn() {
    let mut w = Worker::new();
    let normal = Rgb { r: 0, g: 9, b: 0 };
    let _ = w.handle_cmd(HidCmd::Identify { serial: "aa".to_string(), normal }, 1_000);
    let first = w.advance_identify(1_000);
    assert!(matches!(&first[..], [WorkerAction::Write { serial, color }] if serial == "aa" && *color == Rgb::white()));
    let _ = w.identify_written(true, 1_000);
    let second = w.advance_identify(1_000 + IDENTIFY_FLASH_MS);
    assert!(matches!(&second[..], [WorkerAction::Write { color, .. }] if *color == normal));
}

#[test]
fn driver_reads_buttons_over_both_buses() {
    let mut usb = vec![0u8; 64];
    usb[8] = 0x24;
    usb[9] = 0x24;
    usb[6] = 255;
    let mut bluetooth = vec![0x31u8];
    bluetooth.extend_from_slice(&usb);
    let pad = registry().dualsense;
    for s in [pad.parse_input(&usb, Connection::Usb), pad.parse_input(&bluetooth, Connection::Bluetooth)] {
        assert!(s.cross && s.dpad_down && s.options && s.l2 && s.r2);
        assert!(!s.circle && !s.square && !s.triangle && !s.dpad_up);
    }
}

#[test]
fn driver_registry_knows_pads() {
    let r = registry();
    assert!(r.for_device(&node("p", Bus::Usb, None)).is_some());
    let mut stranger = node("p", Bus::Usb, None);
    stranger.vendor_id = 1;
    assert!(r.for_device(&stranger).is_none());
}

#[test]
fn input_reports_are_parsed() {
    let mut buf = vec![0u8; 64];
    buf[1] = 128;
    buf[2] = 128;
    buf[3] = 128;
    buf[4] = 255;
    buf[8] = 0x20;
    let s = parse_report(&buf, 0);
    assert!(s.cross);
    assert!(s.dpad_up);
    assert!(s.held.contains(GestureControl::Cross));
    assert_eq!(s.sticks.lx, 0);
    assert_eq!(s.sticks.ry, 127);
    let rest = parse_report(&[], 0);
    assert_eq!(rest.sticks.lx, 0);
}
