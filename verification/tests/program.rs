use sdsc_utils::analytics::store::AnalyticsStore;
use sdsc_utils::app::configure::{
    bar_cursor, on_configure_message, BarAction, BarCursor, BarEvent, BarState, ConfigureEffect,
    ConfigureFacts, ConfigureMessage, NotificationSetting, Section, SpectrumEdit,
};
use sdsc_utils::app::dev::{apply_dev_preset, DevState, RESUME_PERCENT};
use sdsc_utils::app::pad_poll::{
    on_gesture_record, on_reopen_gesture, pad_input_panel, GestureDetectorBank, NavDiag, PadPollFacts,
    PadRoute, PadWarning, RecordStep,
};
use sdsc_utils::app::pads::{
    low_battery_list, pulse_next, ApplyFacts, Pads, PowerOffGate, Pulse, PulseStep, StartChange,
    START_CONNECT_COOLDOWN_MS,
};
use sdsc_utils::app::polling::{Polling, SpectrumCommit, SpectrumEdits, TickAction, TickFacts};
use sdsc_utils::app::popup::{PopupMessage, PopupState};
use sdsc_utils::app::running::{Candidate, LaunchStep, MatchCache, Running, RUNNING_CHECK_INTERVAL_MS};
use sdsc_utils::app::start::{
    FaceHeld, Overlay, RowFacts, ScrollReveal, StartEffect, StartFacts, StartMessage, StartNav,
    StartSlide,
};
use sdsc_utils::app::start_input::{
    after_move, after_request, after_toggle, handle_start_nav, merged_held, nav_gates, on_start_frame,
    KeyHold, KeyHolds, LaunchOutcome, NavAction, NavTick,
};
use sdsc_utils::app::toast::{ToastEffect, ToastMessage, Toasts};
use sdsc_utils::app::windows::{WindowEffect, WindowRole, Windows};
use sdsc_utils::controller::battery::dualsense_status;
use sdsc_utils::controller::diag::{
    enter_op, leave_op, note_progress, stall_line, steam_present, trace_write, SteamCache, Watchdog,
    WorkerPhase, WriteTrace,
};
use sdsc_utils::controller::driver::registry;
use sdsc_utils::controller::emulate::{is_emulated, Preset};
use sdsc_utils::controller::identity::{normalize_identity, Bus, HidNode};
use sdsc_utils::controller::input::{parse_report, PadSample};
use sdsc_utils::controller::known::KnownControllers;
use sdsc_utils::controller::lightbar::{
    after_write, apply_failed, apply_lightbar_rgb, apply_on_open_device, take_claim_if_needed,
    LightbarState, Rgb,
};
use sdsc_utils::controller::model::{Connection, ControllerKind, ControllerStatus, PowerState};
use sdsc_utils::controller::worker::{nodes_to_keep, put_reading, HidCmd, NavReading, Worker};
use sdsc_utils::gesture::{ControlSet, GestureControl, GestureRecorder};
use sdsc_utils::platform::UiSoundKind;
use sdsc_utils::prefs::{GamesSortMode, Prefs, StartPrefs, ToastPosition};
use sdsc_utils::process_match::{
    missing_installdir_warning, RunningSession, LAUNCH_GRACE_MS, MISS_CLEAR_MS,
};
use sdsc_utils::text_map::TextSet;

const SERIAL: &str = "aabbccddeeff";

fn pad(serial: &str, percent: u8) -> ControllerStatus {
    dualsense_status(
        1,
        "DualSense",
        Connection::Bluetooth,
        serial.to_string(),
        percent,
        PowerState::Discharging,
    )
}

fn no_pads() -> Pads {
    Pads::new(KnownControllers::default(), AnalyticsStore::default())
}

fn at(now_ms: u64) -> ApplyFacts {
    ApplyFacts { now_ms, start_open: false, fullscreen: false }
}

fn sounds() -> StartPrefs {
    StartPrefs {
        sounds_enabled: true,
        sound_volume: 40,
        games_sort_mode: GamesSortMode::Alphabetical,
        show_all_controllers: false,
    }
}

// --- pads ------------------------------------------------------------------

#[test]
fn first_pad_opens_the_start_screen_and_the_same_pad_is_quiet() {
    let mut p = no_pads();
    let prefs = Prefs::default();
    let a = p.apply_controllers(vec![pad(SERIAL, 45)], &prefs, at(10_000));
    assert_eq!(a.start, StartChange::Open);
    assert!(a.changed);
    assert_eq!(a.events.len(), 1);
    let a = p.apply_controllers(vec![pad(SERIAL, 45)], &prefs, at(11_000));
    assert_eq!(a.start, StartChange::Stay);
    assert!(!a.changed);
    assert!(a.events.is_empty());
}

#[test]
fn flapping_pad_does_not_reopen_the_start_screen() {
    let mut p = no_pads();
    let prefs = Prefs::default();
    p.apply_controllers(vec![pad(SERIAL, 45)], &prefs, at(10_000));
    let gone = p.apply_controllers(Vec::new(), &prefs, at(20_000));
    assert_ne!(gone.start, StartChange::Open);
    let back = p.apply_controllers(vec![pad(SERIAL, 45)], &prefs, at(20_000 + START_CONNECT_COOLDOWN_MS - 1));
    assert_eq!(back.start, StartChange::Stay);
    p.apply_controllers(Vec::new(), &prefs, at(40_000));
    let later = p.apply_controllers(vec![pad(SERIAL, 45)], &prefs, at(40_000 + START_CONNECT_COOLDOWN_MS));
    assert_eq!(later.start, StartChange::Open);
}

#[test]
fn covering_game_keeps_the_start_screen_away() {
    let mut p = no_pads();
    let facts = ApplyFacts { now_ms: 10_000, start_open: false, fullscreen: true };
    let a = p.apply_controllers(vec![pad(SERIAL, 45)], &Prefs::default(), facts);
    assert_eq!(a.start, StartChange::Stay);
}

#[test]
fn developer_pads_are_left_alone() {
    let mut p = no_pads();
    p.controllers = vec![pad("emu-1", 45)];
    assert!(is_emulated("emu-1"));
    assert_eq!(p.identify("emu-1"), None);
    assert_eq!(p.power_off("emu-1"), PowerOffGate::Emulated);
    assert!(!p.toggle_remember("emu-1"));
    assert!(!p.known.is_remembered("emu-1"));
}

#[test]
fn remembering_twice_forgets() {
    let mut p = no_pads();
    p.controllers = vec![pad(SERIAL, 45)];
    assert!(p.toggle_remember(SERIAL));
    assert!(p.known.is_remembered(SERIAL));
    assert!(p.toggle_remember(SERIAL));
    assert!(!p.known.is_remembered(SERIAL));
}

#[test]
fn pad_rows_tell_low_pads() {
    let mut p = no_pads();
    p.controllers = vec![pad(SERIAL, 5)];
    let rows = p.pad_rows(&Prefs::default(), false);
    assert_eq!(rows.len(), 1);
    assert!(rows[0].low);
    assert!(rows[0].can_power_off);
    assert_eq!(rows[0].connection, "Bluetooth");
    assert_eq!(low_battery_list(&p.controllers, 5, true), vec![(SERIAL.to_string(), 5)]);
    assert!(low_battery_list(&p.controllers, 5, false).is_empty());
}

#[test]
fn every_low_pad_shines_once_in_a_round() {
    let mut pulse = Pulse::At(0);
    let mut steps = Vec::new();
    for _ in 0..5 {
        steps.push(pulse_next(&mut pulse, false, 2));
    }
    assert_eq!(
        steps,
        vec![
            PulseStep::Light(0),
            PulseStep::Restore(0),
            PulseStep::Light(1),
            PulseStep::Restore(1),
            PulseStep::Rest,
        ]
    );
    let mut pulse = Pulse::Lit(1);
    assert_eq!(pulse_next(&mut pulse, true, 2), PulseStep::Rest);
    assert_eq!(pulse, Pulse::At(0));
}

#[test]
fn cancelled_nickname_changes_no_pad() {
    let mut p = no_pads();
    p.controllers = vec![pad(SERIAL, 45)];
    let mut s = PopupState::new();
    s.on_popup_message(PopupMessage::BeginEdit(SERIAL.to_string()), &mut p);
    s.on_popup_message(PopupMessage::DraftChanged("Couch".to_string()), &mut p);
    let e = s.on_popup_message(PopupMessage::CancelEdit, &mut p);
    assert!(e.is_empty());
    assert!(!s.is_editing_any());
    assert_eq!(p.known.nickname(SERIAL), None);
}

// --- developer presets -----------------------------------------------------

#[test]
fn paused_developer_pad_resumes_where_it_was() {
    let mut p = no_pads();
    let mut dev = DevState { emulating: false, paused_percent: None };
    let mut prefs = Prefs::default();
    let o = apply_dev_preset(&mut p, &mut dev, &mut prefs, Preset::AnalyticsResume, at(10_000));
    assert!(o.enabled_analytics);
    assert!(dev.emulating);
    assert_eq!(p.controllers[0].percent, RESUME_PERCENT);
    let o = apply_dev_preset(&mut p, &mut dev, &mut prefs, Preset::Discharging50, at(20_000));
    assert!(!o.enabled_analytics);
    let shown = p.controllers[0].percent;
    apply_dev_preset(&mut p, &mut dev, &mut prefs, Preset::AnalyticsPause, at(30_000));
    assert_eq!(dev.paused_percent, Some(shown));
    assert!(p.controllers.is_empty());
    apply_dev_preset(&mut p, &mut dev, &mut prefs, Preset::AnalyticsResume, at(40_000));
    assert_eq!(p.controllers[0].percent, shown);
    let o = apply_dev_preset(&mut p, &mut dev, &mut prefs, Preset::Clear, at(50_000));
    assert!(o.refresh);
    assert!(!dev.emulating);
    assert_eq!(dev.paused_percent, None);
}

#[test]
fn unplugging_from_full_shows_a_full_pad_first() {
    let mut p = no_pads();
    let mut dev = DevState { emulating: false, paused_percent: None };
    let mut prefs = Prefs::default();
    let o = apply_dev_preset(&mut p, &mut dev, &mut prefs, Preset::AnalyticsUnplugFull, at(10_000));
    assert!(o.first.is_some());
    assert_eq!(p.controllers[0].state, PowerState::Discharging);
    assert!(!Preset::AnalyticsUnplugFull.menu_label().is_empty());
    assert!(Preset::AnalyticsUnplugFull.is_analytics());
}

#[test]
fn presets_tell_what_a_poll_would() {
    let mut p = no_pads();
    let mut dev = DevState { emulating: false, paused_percent: None };
    let mut prefs = Prefs::default();
    let o = apply_dev_preset(&mut p, &mut dev, &mut prefs, Preset::LowBattery, at(10_000));
    let mut polled = no_pads();
    let same = polled.apply_controllers(p.controllers.clone(), &prefs, at(10_000));
    assert!(!o.applied.events.is_empty());
    assert_eq!(format!("{:?}", o.applied), format!("{same:?}"));
    assert!(o.save_analytics);
    assert_eq!(o.polled_at_ms, None);
    let o = apply_dev_preset(&mut p, &mut dev, &mut prefs, Preset::Clear, at(20_000));
    assert!(o.applied.changed);
    assert!(!o.save_analytics);
    assert_eq!(o.polled_at_ms, Some(20_000));
    // Both looks at the pad that is unplugged from full are told of.
    let mut p = no_pads();
    let o = apply_dev_preset(&mut p, &mut dev, &mut prefs, Preset::AnalyticsUnplugFull, at(30_000));
    let mut polled = no_pads();
    let full = dualsense_status(
        1,
        "DualSense",
        Connection::Usb,
        "emu-1".to_string(),
        100,
        PowerState::Complete,
    );
    let first = polled.apply_controllers(vec![full], &prefs, at(30_000));
    assert_eq!(format!("{:?}", o.first.unwrap()), format!("{first:?}"));
    let second = polled.apply_controllers(p.controllers.clone(), &prefs, at(30_000));
    assert_eq!(format!("{:?}", o.applied), format!("{second:?}"));
}

// --- polling ---------------------------------------------------------------

fn tick(now_ms: u64, no_pads: bool) -> TickFacts {
    TickFacts { now_ms, emulating: false, identifying: false, no_pads, start_screen_enabled: true }
}

#[test]
fn membership_changes_are_polled() {
    let mut p = Polling::new(Vec::new(), 0);
    assert_eq!(p.on_tick(Vec::new(), tick(1_000, true)), TickAction::Nothing);
    assert_eq!(p.on_tick(vec!["a".to_string()], tick(1_001, true)), TickAction::Refresh);
    assert!(p.request_refresh(false, false));
    assert!(!p.request_refresh(false, false));
    assert_eq!(p.on_tick(Vec::new(), tick(1_002, true)), TickAction::Nothing);
    assert!(p.on_poll_result(true, false, 1_003));
    assert_eq!(p.on_tick(Vec::new(), tick(1_004, false)), TickAction::Vanished);
}

#[test]
fn shown_pads_are_polled_for_liveness() {
    let mut p = Polling::new(vec!["a".to_string()], 0);
    let here = || vec!["a".to_string()];
    assert_eq!(p.on_tick(here(), tick(4_999, false)), TickAction::Nothing);
    assert_eq!(p.on_tick(here(), tick(5_000, false)), TickAction::Refresh);
    let mut q = Polling::new(here(), 0);
    assert_eq!(q.on_tick(here(), tick(499, true)), TickAction::Nothing);
    assert_eq!(q.on_tick(here(), tick(500, true)), TickAction::Refresh);
}

#[test]
fn only_the_last_color_edit_is_saved() {
    let mut e = SpectrumEdits { generation: u64::MAX };
    let first = e.edit();
    assert_eq!(first, 0);
    assert_eq!(e.on_spectrum_commit(first, false), SpectrumCommit::Save);
    let second = e.edit();
    assert_eq!(e.on_spectrum_commit(first, true), SpectrumCommit::Stale);
    assert_eq!(e.on_spectrum_commit(second, true), SpectrumCommit::SaveAndWrite);
}

// --- settings --------------------------------------------------------------

struct Settings {
    section: Section,
    prefs: Prefs,
    start: StartPrefs,
    recorder: GestureRecorder,
}

impl Settings {
    fn new() -> Self {
        Settings {
            section: Section::System,
            prefs: Prefs::default(),
            start: sounds(),
            recorder: GestureRecorder::default(),
        }
    }

    fn send(&mut self, m: ConfigureMessage, start_open: bool) -> Vec<ConfigureEffect> {
        let f = ConfigureFacts { start_open, window: Some(7) };
        on_configure_message(
            &mut self.section,
            &mut self.prefs,
            &mut self.start,
            &mut self.recorder,
            m,
            f,
        )
    }
}

#[test]
fn changed_settings_are_saved() {
    let mut s = Settings::new();
    let e = s.send(ConfigureMessage::SetNotification(NotificationSetting::Low, false), false);
    assert_eq!(e, vec![ConfigureEffect::SavePrefs]);
    assert!(!s.prefs.notify_low);
    let e = s.send(ConfigureMessage::SetLowBatteryPercent(20), false);
    assert_eq!(
        e,
        vec![ConfigureEffect::SavePrefs, ConfigureEffect::SyncLowBattery, ConfigureEffect::SyncRows]
    );
    assert_eq!(s.prefs.low_battery_percent, 15);
    assert!(s.send(ConfigureMessage::SetLowBatteryPercent(24), false).is_empty());
    let e = s.send(ConfigureMessage::SetToastPosition(ToastPosition::TopLeft), false);
    assert_eq!(e, vec![ConfigureEffect::SavePrefs, ConfigureEffect::ShowPositionPreview]);
    let e = s.send(ConfigureMessage::SetLightbarEnabled(true), false);
    assert_eq!(
        e,
        vec![
            ConfigureEffect::SavePrefs,
            ConfigureEffect::SetLightbars(true),
            ConfigureEffect::SyncLowBattery,
            ConfigureEffect::ReapplySpectrum,
        ]
    );
    let e = s.send(ConfigureMessage::SetStartScreenEnabled(false), true);
    assert!(e.contains(&ConfigureEffect::SavePrefs));
    assert!(e.contains(&ConfigureEffect::CloseStartScreen));
}

#[test]
fn volume_is_heard_while_cues_are_on() {
    let mut s = Settings::new();
    assert!(s.send(ConfigureMessage::SetStartScreenSoundVolume(40), false).is_empty());
    let e = s.send(ConfigureMessage::SetStartScreenSoundVolume(200), false);
    assert_eq!(e, vec![ConfigureEffect::SavePrefs, ConfigureEffect::Sound(UiSoundKind::Nav)]);
    assert_eq!(s.start.cue_volume(), Some(100));
    s.send(ConfigureMessage::SetStartScreenSounds(false), false);
    assert_eq!(s.start.cue_volume(), None);
}

#[test]
fn closing_the_settings_ends_a_recording() {
    let mut s = Settings::new();
    s.send(ConfigureMessage::StartGestureRecord, false);
    assert!(s.recorder.is_active());
    let e = s.send(ConfigureMessage::Close, false);
    assert_eq!(e, vec![ConfigureEffect::ClearRecordLatch, ConfigureEffect::HideAndClose(7)]);
    assert!(!s.recorder.is_active());
    s.prefs.start_screen_gesture = Vec::new();
    s.send(ConfigureMessage::ResetStartGesture, false);
    assert_eq!(s.prefs.start_screen_gesture.len(), 4);
}

#[test]
fn other_messages_leave_a_recording_alone() {
    let mut s = Settings::new();
    s.send(ConfigureMessage::StartGestureRecord, false);
    let mut held = ControlSet::new();
    held.insert(GestureControl::Cross);
    s.recorder.update(&held);
    let before = s.recorder;
    s.send(ConfigureMessage::SetNotification(NotificationSetting::Low, false), false);
    s.send(ConfigureMessage::SelectStop(1), false);
    assert_eq!(s.recorder, before);
    s.send(ConfigureMessage::StartGestureRecord, false);
    assert!(s.recorder.is_active() && !s.recorder.saw_input);
}

#[test]
fn spectrum_keeps_its_last_stops() {
    let mut b = BarState { dragging: false, remove_armed: false };
    assert_eq!(
        b.update(BarEvent::RightPressedStop(1), 2, 2),
        BarAction::Publish(ConfigureMessage::SelectStop(1))
    );
    assert_eq!(
        b.update(BarEvent::RightPressedStop(1), 3, 2),
        BarAction::Publish(ConfigureMessage::RemoveStopAt(1))
    );
    b.update(BarEvent::PressedStop(0), 2, 2);
    assert_eq!(
        b.update(BarEvent::Moved { percent: 30, far_off: true }, 2, 2),
        BarAction::Publish(ConfigureMessage::MoveStop(30))
    );
    assert_eq!(b.update(BarEvent::Released, 2, 2), BarAction::Redraw);
    b.update(BarEvent::PressedStop(0), 3, 2);
    assert_eq!(b.update(BarEvent::Moved { percent: 30, far_off: true }, 3, 2), BarAction::Redraw);
    assert_eq!(bar_cursor(b, true, true, 3, 8), BarCursor::NotAllowed);
    assert_eq!(
        b.update(BarEvent::Released, 3, 2),
        BarAction::Publish(ConfigureMessage::RemoveStop)
    );
    let mut s = Settings::new();
    assert_eq!(
        s.send(ConfigureMessage::RemoveStop, false),
        vec![ConfigureEffect::EditSpectrum(SpectrumEdit::RemoveSelected)]
    );
}

// --- pad input -------------------------------------------------------------

fn looking() -> PadPollFacts {
    PadPollFacts {
        now_ms: 1_000,
        start_open: true,
        nav_ready: true,
        pad_input_page: false,
        start_screen_enabled: true,
        no_pads: false,
        recording: false,
        readings: 1,
        age_ms: 0,
    }
}

#[test]
fn missing_input_is_said_once() {
    let mut d = NavDiag::new();
    let gone = PadPollFacts { readings: 0, age_ms: 70, ..looking() };
    let r = d.on_pad_poll(gone);
    assert_eq!(r.warnings, vec![PadWarning::Missing { age_ms: 70 }]);
    assert_eq!(r.route, PadRoute::Nothing);
    let r = d.on_pad_poll(PadPollFacts { now_ms: 1_010, ..gone });
    assert!(r.warnings.is_empty());
    let r = d.on_pad_poll(PadPollFacts { now_ms: 1_020, ..looking() });
    assert_eq!(r.warnings, vec![PadWarning::Restored { gap_ms: 20 }]);
    assert_eq!(r.route, PadRoute::Navigate);
}

#[test]
fn stalls_and_stale_input_are_said() {
    let mut d = NavDiag::new();
    d.on_pad_poll(looking());
    let r = d.on_pad_poll(PadPollFacts { now_ms: 1_080, age_ms: 100, ..looking() });
    assert_eq!(r.warnings, vec![PadWarning::Stall { gap_ms: 80 }, PadWarning::Stale { age_ms: 100 }]);
    let r = d.on_pad_poll(PadPollFacts { now_ms: 1_090, age_ms: 100, ..looking() });
    assert!(r.warnings.is_empty());
    d.opened_at_ms = Some(1_000);
    let r = d.on_pad_poll(PadPollFacts { now_ms: 1_200, nav_ready: false, ..looking() });
    assert!(r.warnings.contains(&PadWarning::NotReady { for_ms: 200 }));
}

#[test]
fn input_goes_where_it_is_wanted() {
    let mut d = NavDiag::new();
    let recording = PadPollFacts { recording: true, pad_input_page: true, ..looking() };
    let r = d.on_pad_poll(recording);
    assert_eq!(r.route, PadRoute::Record);
    assert!(r.show_panel);
    let closed = PadPollFacts { start_open: false, ..looking() };
    assert_eq!(d.on_pad_poll(closed).route, PadRoute::Reopen);
    let unready = PadPollFacts { nav_ready: false, ..looking() };
    assert_eq!(d.on_pad_poll(unready).route, PadRoute::Nothing);
    let off = PadPollFacts { start_screen_enabled: false, ..looking() };
    assert_eq!(d.on_pad_poll(off).route, PadRoute::Nothing);
    assert!(d.note_arming(0, 1));
    assert!(!d.note_arming(0, 1));
    assert!(!d.note_arming(1, 0));
    assert!(d.note_arming(0, 2));
}

/// A report with the d-pad centred and these button bytes.
fn holding(b0: u8, b1: u8) -> PadSample {
    let mut buf = vec![0u8; 64];
    buf[0] = 1;
    for axis in 1..5 {
        buf[axis] = 128;
    }
    buf[8] = b0 | 8;
    buf[9] = b1;
    parse_report(&buf, 0)
}

fn reading(id: &str, sample: PadSample) -> NavReading {
    NavReading { id: id.to_string(), sample }
}

#[test]
fn two_pads_do_not_make_up_one_gesture() {
    let required = [GestureControl::Cross, GestureControl::L1];
    let cross = holding(0x20, 0);
    let l1 = holding(0, 0x01);
    let both = holding(0x20, 0x01);
    let mut bank = GestureDetectorBank::new();
    assert!(!on_reopen_gesture(&mut bank, true, &required, &[reading("a", cross), reading("b", l1)]));
    assert!(!on_reopen_gesture(&mut bank, false, &required, &[reading("a", both)]));
    assert!(on_reopen_gesture(&mut bank, true, &required, &[reading("a", both), reading("b", l1)]));
    assert!(!on_reopen_gesture(&mut bank, true, &required, &[reading("a", both)]));
}

#[test]
fn recording_takes_what_one_pad_held() {
    let mut recorder = GestureRecorder::default();
    recorder.start();
    let mut warned = false;
    assert!(matches!(on_gesture_record(&mut recorder, &mut warned, None, false), RecordStep::Unreadable));
    assert!(matches!(on_gesture_record(&mut recorder, &mut warned, None, false), RecordStep::Nothing));
    let both = holding(0x20, 0x01);
    assert!(matches!(
        on_gesture_record(&mut recorder, &mut warned, Some(&both), false),
        RecordStep::Nothing
    ));
    assert!(!warned);
    let released = holding(0, 0);
    match on_gesture_record(&mut recorder, &mut warned, Some(&released), false) {
        RecordStep::Recorded(v) => assert_eq!(v, vec![GestureControl::Cross, GestureControl::L1]),
        _ => panic!("not recorded"),
    }
    assert!(!recorder.is_active());
}

#[test]
fn pad_input_page_names_what_is_held() {
    let shown = pad_input_panel(Some(&holding(0x20, 0x01)));
    assert!(shown.has_sample && shown.cross && !shown.circle);
    assert_eq!(shown.held, "Cross + L1");
    assert!(!pad_input_panel(None).has_sample);
}

#[test]
fn directions_exclude_their_opposites() {
    for hat in 0..=15u8 {
        let mut buf = vec![0u8; 64];
        buf[0] = 1;
        buf[8] = hat;
        let s = parse_report(&buf, 0);
        assert!(!(s.dpad_up && s.dpad_down));
        assert!(!(s.held.contains(GestureControl::DpadLeft)
            && s.held.contains(GestureControl::DpadRight)));
    }
}

// --- running games ---------------------------------------------------------

#[test]
fn fresh_launch_is_trusted_without_a_listing() {
    let mut r = Running::new();
    r.begin_running_session("A".into(), "a".into(), vec!["C:\\g\\a.exe".to_string()], 1_000);
    assert!(!r.refresh_running_badge(1_000 + LAUNCH_GRACE_MS - 1));
    assert_eq!(r.badge.as_deref(), Some("a"));
    assert!(r.refresh_running_badge(1_000 + LAUNCH_GRACE_MS));
    assert!(r.listing);
}

#[test]
fn listings_are_throttled() {
    let mut r = Running::new();
    assert!(r.refresh_running_badge(5_000));
    assert!(!r.refresh_running_badge(50_000));
    r.on_process_enum_result(None, &[], &[], 5_100);
    assert!(!r.refresh_running_badge(5_000 + RUNNING_CHECK_INTERVAL_MS - 1));
    r.force_check();
    assert!(r.refresh_running_badge(5_200));
}

#[test]
fn running_row_of_the_catalog_is_found() {
    let mut r = Running::new();
    let rows = vec![
        Candidate { title: "A".into(), target: "a".into() },
        Candidate { title: "B".into(), target: "b".into() },
    ];
    let sets = vec![vec!["a.exe".to_string()], vec!["C:\\games\\b".to_string()]];
    let images = vec![(4u32, "C:\\Games\\B\\bin\\x.exe".to_string())];
    r.on_process_enum_result(Some(&images), &rows, &sets, 90_000);
    assert_eq!(r.badge.as_deref(), Some("b"));
    assert!(r.asks_for_processes("a"));
    assert_eq!(r.launch_step("a", true), LaunchStep::AskReplace);
    assert_eq!(r.close_running_game_if_selected(Some("a")), None);
    assert_eq!(
        r.close_running_game_if_selected(Some("b")),
        Some(vec!["C:\\games\\b".to_string()])
    );
    assert!(r.session.is_none());
    let mut s = RunningSession::restored("B".into(), "b".into(), vec![], 90_000);
    assert!(!s.in_launch_grace(90_000));
    assert!(s.note_look(false, 90_000));
    assert!(!s.note_look(false, 90_000 + MISS_CLEAR_MS));
}

#[test]
fn match_paths_are_looked_up_once() {
    let mut c = MatchCache::new();
    assert!(c.lookup("a").is_none());
    c.store("a", vec!["x".to_string()]);
    assert_eq!(c.lookup("a").map(|v| v.len()), Some(1));
    c.clear();
    assert!(c.lookup("a").is_none());
    let mut seen = Vec::new();
    assert_eq!(
        missing_installdir_warning(&mut seen, 570).as_deref(),
        Some("steam installdir missing for appid 570; running match paths empty")
    );
    assert_eq!(missing_installdir_warning(&mut seen, 570), None);
}

// --- start screen ----------------------------------------------------------

fn page() -> StartNav {
    let mut n = StartNav::new();
    n.rows = 3;
    n.pads = 1;
    n
}

fn on(slide: StartSlide) -> StartFacts {
    StartFacts {
        slide,
        animating: false,
        window_open: true,
        row: Some(RowFacts { in_catalog: true, running: false, has_macros: true, manual: true }),
        pad_connected: true,
        pad_powers_off: true,
    }
}

fn quiet() -> NavTick {
    NavTick {
        action: None,
        cross_progress: 0,
        cross_completed: false,
        triangle_progress: 0,
        triangle_completed: false,
    }
}

fn idle() -> KeyHold {
    KeyHold { progress: 0, completed: false }
}

fn no_keys() -> KeyHolds {
    KeyHolds { confirm: false, cancel: false }
}

#[test]
fn closing_takes_one_layer_at_a_time() {
    let mut n = page();
    n.editing = true;
    n.overlay = Overlay::Edit;
    n.on_start_message(StartMessage::Close, on(StartSlide::Games));
    assert_eq!(n.overlay, Overlay::List { run_mode: false });
    assert!(n.editing);
    n.on_start_message(StartMessage::Close, on(StartSlide::Games));
    assert_eq!(n.overlay, Overlay::Closed);
    assert!(n.editing);
    n.on_start_message(StartMessage::Close, on(StartSlide::Games));
    assert!(!n.editing);
    let e = n.on_start_message(StartMessage::Close, on(StartSlide::Games));
    assert!(e.contains(&StartEffect::CloseWindow));
}

#[test]
fn overlay_keeps_the_page_still() {
    let mut n = page();
    n.overlay = Overlay::List { run_mode: false };
    assert!(n.overlay_blocking());
    for m in [StartMessage::PrevSlide, StartMessage::NextSlide, StartMessage::ToggleEdit, StartMessage::CycleSort] {
        let before = n;
        let e = n.on_start_message(m, on(StartSlide::Games));
        assert_eq!(n.editing, before.editing);
        assert!(!e.contains(&StartEffect::CycleSortMode));
        assert!(!e.iter().any(|x| matches!(x, StartEffect::RequestSlide(_))));
    }
}

#[test]
fn selecting_a_row_stays_in_the_list() {
    let mut n = page();
    n.on_start_message(StartMessage::SelectController(9), on(StartSlide::Controllers));
    assert!(n.pad_selected < n.pads);
    n.on_start_message(StartMessage::Launch(9), on(StartSlide::Games));
    assert!(n.game_selected < n.rows);
}

#[test]
fn replacing_a_running_game_takes_a_hold() {
    let mut n = page();
    let mut keys = KeyHolds { confirm: true, cancel: false };
    assert_eq!(n.after_launch(LaunchOutcome::Asked), vec![StartEffect::Sound(UiSoundKind::Action)]);
    assert_eq!(n.replace_next, Some(0));
    let e = n.on_start_message(StartMessage::Confirm, on(StartSlide::Games));
    assert!(!e.contains(&StartEffect::LaunchSelected));
    assert!(nav_gates(&n, on(StartSlide::Games)).hold_cross_replace);
    let half = NavTick { cross_progress: 500, ..quiet() };
    let e = handle_start_nav(&mut n, &mut keys, half, idle(), on(StartSlide::Games));
    assert_eq!(e, vec![StartEffect::TickHints]);
    assert_eq!(n.cross_progress, 500);
    let done = NavTick { cross_completed: true, ..quiet() };
    let e = handle_start_nav(&mut n, &mut keys, done, idle(), on(StartSlide::Games));
    assert_eq!(
        e,
        vec![
            StartEffect::TickHints,
            StartEffect::Sound(UiSoundKind::Hold),
            StartEffect::KeyboardHoldReset,
            StartEffect::CloseRunningGame,
            StartEffect::LaunchReplacement,
        ]
    );
    assert_eq!(n.replace_next, None);
    assert!(!keys.confirm);
}

#[test]
fn holds_act_on_the_plain_page_only() {
    let done = NavTick { cross_completed: true, triangle_completed: true, ..quiet() };
    let mut n = page();
    let e = handle_start_nav(&mut n, &mut no_keys(), done, idle(), on(StartSlide::Games));
    assert!(e.contains(&StartEffect::CloseRunningIfSelected));
    assert!(!e.contains(&StartEffect::PowerOffSelected));
    let mut n = page();
    let e = handle_start_nav(&mut n, &mut no_keys(), done, idle(), on(StartSlide::Controllers));
    assert!(e.contains(&StartEffect::PowerOffSelected));
    assert!(!e.contains(&StartEffect::CloseRunningIfSelected));
    let mut n = page();
    n.editing = true;
    let e = handle_start_nav(&mut n, &mut no_keys(), done, idle(), on(StartSlide::Games));
    assert!(!e.contains(&StartEffect::CloseRunningIfSelected));
    let moving = StartFacts { animating: true, ..on(StartSlide::Games) };
    let mut n = page();
    assert_eq!(
        handle_start_nav(&mut n, &mut no_keys(), done, idle(), moving),
        vec![StartEffect::TickHints]
    );
}

#[test]
fn form_takes_confirm_and_cancel_only() {
    let mut n = page();
    n.manual_add = true;
    let up = NavTick { action: Some(NavAction::Up), ..quiet() };
    let e = handle_start_nav(&mut n, &mut no_keys(), up, idle(), on(StartSlide::Games));
    assert_eq!(e, vec![StartEffect::KeyboardHoldReset, StartEffect::TickHints]);
    let cancel = NavTick { action: Some(NavAction::Cancel), ..quiet() };
    handle_start_nav(&mut n, &mut no_keys(), cancel, idle(), on(StartSlide::Games));
    assert!(!n.manual_add);
}

#[test]
fn start_screen_answers_what_was_done() {
    assert_eq!(
        after_move(Some(ScrollReveal::Down), true),
        vec![StartEffect::Sound(UiSoundKind::Nav), StartEffect::Scroll(ScrollReveal::Down)]
    );
    assert_eq!(after_move(None, true), vec![StartEffect::Scroll(ScrollReveal::Down)]);
    assert_eq!(after_move(None, false), vec![StartEffect::Scroll(ScrollReveal::Up)]);
    assert_eq!(
        after_toggle(true),
        vec![
            StartEffect::RefreshRows,
            StartEffect::Sound(UiSoundKind::Action),
            StartEffect::Scroll(ScrollReveal::Either),
        ]
    );
    assert_eq!(after_request(true), vec![StartEffect::Sound(UiSoundKind::Action)]);
    assert!(after_request(false).is_empty());
    let mut n = page();
    n.overlay = Overlay::Edit;
    assert!(n.after_macro_save(false).is_empty());
    assert_eq!(n.overlay, Overlay::Edit);
    n.after_macro_save(true);
    assert_eq!(n.overlay, Overlay::List { run_mode: false });
    let pads = FaceHeld { cross: false, circle: false, triangle: true, square: false };
    let held = merged_held(pads, KeyHolds { confirm: true, cancel: false });
    assert!(held.cross && !held.circle && held.triangle);
}

#[test]
fn key_hold_confirms_a_replacement() {
    let mut n = page();
    n.replace_next = Some(2);
    let mut keys = KeyHolds { confirm: true, cancel: false };
    on_start_frame(&mut n, &mut keys, KeyHold { progress: 1000, completed: true });
    assert_eq!(n.replace_next, None);
    assert_eq!(n.game_selected, 2);
}

// --- toasts and windows ----------------------------------------------------

#[test]
fn expiry_is_for_its_own_toast() {
    let mut t = Toasts::new(0);
    t.queue_notifications(vec![ToastMessage::CrashRestart]);
    let first = t.generation;
    t.place(first, 10);
    let e = t.show_position_preview();
    assert!(!e.is_empty());
    assert!(matches!(t.current, Some(ToastMessage::Preview)));
    assert!(t.on_dismiss(first, 20, 200).is_empty());
    assert!(matches!(t.current, Some(ToastMessage::Preview)));
}

#[test]
fn dismissed_toast_slides_out() {
    let mut t = Toasts::new(0);
    t.queue_notifications(vec![ToastMessage::Preview]);
    let g = t.generation;
    t.place(g, 0);
    t.on_dismiss(g, 1_000, 200);
    assert!(t.dismissing);
    t.on_frame(1_199, 200);
    assert!(t.current.is_some());
    let e = t.on_frame(1_200, 200);
    assert!(t.current.is_none());
    assert_eq!(e.last(), Some(&ToastEffect::Hide));
}

#[test]
fn settings_end_above_a_toast() {
    let mut w = Windows::none();
    w.open(WindowRole::Toast, 1, false);
    w.open(WindowRole::Start, 2, false);
    assert_eq!(
        w.open(WindowRole::Configure, 3, true),
        vec![
            WindowEffect::Open(WindowRole::Configure, 3),
            WindowEffect::PinToast(1),
            WindowEffect::Raise(2),
            WindowEffect::Raise(3),
            WindowEffect::Focus(3),
        ]
    );
    assert_eq!(w.open(WindowRole::Configure, 9, true), vec![WindowEffect::Focus(3)]);
    assert_eq!(w.title(3), "Settings");
    assert_eq!(w.title(1), "SDSC Utils");
    assert!(w.toast_themed(1) && !w.toast_themed(3));
    assert_eq!(w.role_of(2), Some(WindowRole::Start));
}

// --- controllers -----------------------------------------------------------

#[test]
fn failed_claim_is_made_again() {
    let mut s = LightbarState::new();
    let plan = apply_on_open_device(&mut s, SERIAL, Rgb::white(), true);
    assert!(plan.claim);
    assert_eq!(plan.next_color, Some(Rgb::white()));
    apply_failed(&mut s, SERIAL, &plan);
    assert!(take_claim_if_needed(&mut s, SERIAL));
    let plan = apply_on_open_device(&mut s, SERIAL, Rgb::white(), true);
    assert!(!plan.claim);
    apply_failed(&mut s, SERIAL, &plan);
    assert!(!take_claim_if_needed(&mut s, SERIAL));
}

#[test]
fn bluetooth_reports_are_numbered() {
    let mut s = LightbarState::new();
    let plan = apply_on_open_device(&mut s, SERIAL, Rgb::white(), true);
    assert_eq!(s.seq, 1);
    after_write(&mut s, SERIAL, plan, true);
    assert_eq!(s.seq, 2);
    apply_on_open_device(&mut s, SERIAL, Rgb::white(), true);
    assert_eq!(s.seq, 3);
    apply_on_open_device(&mut s, SERIAL, Rgb::white(), false);
    assert_eq!(s.seq, 3);
    assert!(apply_lightbar_rgb(&mut s, SERIAL, Rgb::white(), &[], &[]).is_err());
    assert_eq!(s.seq, 3);
    s.seq = 255;
    let ids = [SERIAL.to_string()];
    apply_lightbar_rgb(&mut s, SERIAL, Rgb::white(), &ids, &[Bus::Bluetooth]).unwrap();
    assert_eq!(s.seq, 0);
}

#[test]
fn commands_keep_the_lightbar_settings() {
    let mut w = Worker::new();
    w.lightbar.automatic = false;
    w.lightbar.seq = 9;
    w.handle_cmd(HidCmd::Poll { previously: Vec::new() }, 0);
    w.opened(SERIAL);
    w.handle_cmd(HidCmd::Identify { serial: SERIAL.to_string(), normal: Rgb::white() }, 0);
    w.identify_written(true, 0);
    w.advance_identify(200);
    assert!(!w.lightbar.automatic);
    assert_eq!(w.lightbar.seq, 9);
}

#[test]
fn one_handle_stays_open_per_pad() {
    let mut open = TextSet::new();
    open.insert("b".to_string());
    let ids: Vec<String> = ["a", "a", "b", "c"].iter().map(|s| s.to_string()).collect();
    let buses = [Bus::Bluetooth, Bus::Usb, Bus::Usb, Bus::Bluetooth];
    assert_eq!(nodes_to_keep(&open, &ids, &buses), vec![false, true, false, true]);
    let mut snapshot = vec![reading("a", holding(0, 0))];
    put_reading(&mut snapshot, reading("a", holding(0x20, 0)));
    put_reading(&mut snapshot, reading("b", holding(0, 0)));
    assert_eq!(snapshot.len(), 2);
    assert!(snapshot[0].sample.cross);
}

#[test]
fn labels_name_connections() {
    assert_eq!(Connection::from_label(Connection::Usb.as_str()), Some(Connection::Usb));
    assert_eq!(Connection::from_label(Connection::Bluetooth.as_str()), Some(Connection::Bluetooth));
    assert_eq!(Connection::from_label("Infrared"), None);
    let once = normalize_identity("AA:BB-Cc");
    assert_eq!(normalize_identity(&once), once);
}

#[test]
fn drivers_are_found_by_kind() {
    let node = HidNode {
        path: "p".to_string(),
        vendor_id: 0x054C,
        product_id: 0x0CE6,
        usage_page: 1,
        usage: 5,
        interface: 3,
        bus: Bus::Usb,
        serial: None,
    };
    assert!(registry().lightbar_for(&node).is_some());
    assert!(registry().power_off_for_kind(ControllerKind::DualSense).is_some());
    assert!(registry().driver_for_kind(ControllerKind::DualSense).is_some());
    let other = HidNode { vendor_id: 1, ..node };
    assert!(registry().lightbar_for(&other).is_none());
}

#[test]
fn stalled_worker_is_reported_by_tier() {
    let mut phase = WorkerPhase { op: "boot", entered_at: None, last_progress: None, tick: 0 };
    let guard = enter_op(&mut phase, "poll", false, 1_000);
    let mut dog = Watchdog { last_logged_tier: 0, last_tick: 0 };
    assert!(dog.look(&phase, 1_600).is_none());
    let stall = dog.look(&phase, 1_600).unwrap();
    assert_eq!(stall.tier, 500);
    assert_eq!(
        stall_line(&stall, phase.op),
        "hid-diag: worker stall kind=op last_op=poll gap_ms=600 tier=500"
    );
    assert!(dog.look(&phase, 1_700).is_none());
    assert_eq!(dog.look(&phase, 2_100).map(|s| s.tier), Some(1000));
    assert_eq!(
        leave_op(&mut phase, &guard, 2_200).as_deref(),
        Some("hid-diag: slow op=poll ms=1200")
    );
    assert_eq!(phase.op, "idle");
    note_progress(&mut phase, "wait", 2_300);
    assert_eq!(phase.op, "wait");
    assert_eq!(phase.last_progress, Some(2_300));
}

#[test]
fn traces_name_what_was_written() {
    let t = WriteTrace {
        caller: "poll",
        phase: "rgb",
        serial: "a",
        bus: "bt",
        rgb: Some((255, 0, 16)),
        claim_needed: true,
        retry: false,
        ms: 4,
    };
    assert_eq!(
        trace_write(&t, Ok((78, 78)), "steam=0"),
        "write caller=poll phase=rgb serial=a bus=bt rgb=ff0010 claim=true retry=false ms=4 ok bytes=78 expected=78 steam=0"
    );
    assert_eq!(
        trace_write(&t, Err("gone"), "steam=1 fg=? fs=0"),
        "write caller=poll phase=rgb serial=a bus=bt rgb=ff0010 claim=true retry=false ms=4 err=gone steam=1 fg=? fs=0"
    );
    let mut c = SteamCache { steam: false, refreshed_at: None };
    assert_eq!(steam_present(&c, 5), None);
    c.refresh(5, true);
    assert_eq!(steam_present(&c, 1_004), Some(true));
    assert_eq!(steam_present(&c, 1_005), None);
}

#[test]
fn held_controls_come_in_order() {
    let mut held = ControlSet::new();
    held.insert(GestureControl::R3);
    held.insert(GestureControl::Cross);
    assert_eq!(held.to_vec(), vec![GestureControl::Cross, GestureControl::R3]);
    held.remove(GestureControl::Cross);
    assert!(!held.contains(GestureControl::Cross));
}
