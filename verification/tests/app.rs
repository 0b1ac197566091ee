use sdsc_utils::analytics::estimate::StepSample;
use sdsc_utils::analytics::store::{AnalyticsStore, SerialRecord};
use sdsc_utils::app::configure::{drag_update, ring_fill, DragAction, DragEvent, RingFill};
use sdsc_utils::app::pads::{
    controllers_equivalent, pulse_next, should_auto_open_start, should_auto_open_with_games, Pads,
    PowerOffGate, Pulse, PulseStep,
};
use sdsc_utils::app::polling::{
    pad_input_hot, start_key, subscription, KeyName, SpectrumCommit, SpectrumEdits, StartKeyAction,
    TimerFacts,
};
use sdsc_utils::app::popup::{PopupEffect, PopupMessage, PopupState};
use sdsc_utils::app::shell::{Effect, Handler, Message, PadsTick, Shell, ShellFacts, TrayItem};
use sdsc_utils::app::start::{
    FaceHeld, Overlay, StartEffect, StartFacts, StartMessage, StartSlide,
};
use sdsc_utils::app::start_input::{KeyHold, NavAction, NavTick};
use sdsc_utils::app::toast::{ToastEffect, ToastMessage, Toasts};
use sdsc_utils::app::windows::{WindowEffect, WindowRole};
use sdsc_utils::controller::battery::dualsense_status;
use sdsc_utils::controller::known::KnownControllers;
use sdsc_utils::controller::model::{Connection, ControllerStatus, PowerState};
use sdsc_utils::prefs::Prefs;

fn pad(serial: &str, percent: u8, connection: Connection) -> ControllerStatus {
    dualsense_status(
        1,
        "DualSense",
        connection,
        serial.to_string(),
        percent,
        PowerState::Discharging,
    )
}

#[test]
fn app_opens_on_clean_zero_to_one() {
    assert!(should_auto_open_with_games(true, true, true, true, false, false, false));
}

#[test]
fn app_skips_when_disabled_empty_open_cooldown_or_fullscreen() {
    assert!(!should_auto_open_with_games(false, true, true, true, false, false, false));
    assert!(!should_auto_open_with_games(true, false, true, true, false, false, false));
    assert!(!should_auto_open_with_games(true, true, false, true, false, false, false));
    assert!(!should_auto_open_with_games(true, true, true, true, true, false, false));
    assert!(!should_auto_open_with_games(true, true, true, true, false, true, false));
    assert!(!should_auto_open_with_games(true, true, true, true, false, false, true));
}

#[test]
fn mod_opens_on_clean_zero_to_one() {
    assert!(should_auto_open_start(true, true, true, false, false, false));
}

#[test]
fn mod_skips_when_disabled_empty_open_cooldown_or_fullscreen() {
    assert!(!should_auto_open_start(false, true, true, false, false, false));
    assert!(!should_auto_open_start(true, false, true, false, false, false));
    assert!(!should_auto_open_start(true, true, true, true, false, false));
    assert!(!should_auto_open_start(true, true, true, false, true, false));
    assert!(!should_auto_open_start(true, true, true, false, false, true));
}

fn pads() -> Pads {
    let mut p = Pads::new(KnownControllers::default(), AnalyticsStore::default());
    p.controllers = vec![pad("aabbccddeeff", 45, Connection::Bluetooth)];
    p
}

#[test]
fn flyout_names_and_remembers_pads() {
    let mut p = pads();
    let mut s = PopupState::new();
    let e = s.on_popup_message(PopupMessage::ToggleRemember("aabbccddeeff".to_string()), &mut p);
    assert_eq!(e, vec![PopupEffect::SaveKnown]);
    assert!(p.known.is_remembered("aabbccddeeff"));
    let e = s.on_popup_message(PopupMessage::BeginEdit("aabbccddeeff".to_string()), &mut p);
    assert_eq!(e, vec![PopupEffect::FocusNickname]);
    assert!(s.is_editing_any());
    s.on_popup_message(PopupMessage::DraftChanged(" Couch ".to_string()), &mut p);
    let e = s.on_popup_message(PopupMessage::CommitNickname, &mut p);
    assert_eq!(e, vec![PopupEffect::SaveKnown]);
    assert_eq!(p.known.nickname("aabbccddeeff"), Some("Couch"));
    assert!(!s.is_editing_any());
    let e = s.on_popup_message(PopupMessage::Identify("aabbccddeeff".to_string()), &mut p);
    assert_eq!(e, vec![PopupEffect::Flash(45)]);
    let e = s.on_popup_message(PopupMessage::PowerOff("aabbccddeeff".to_string()), &mut p);
    assert_eq!(e, vec![PopupEffect::PowerOff]);
    let e = s.on_popup_message(PopupMessage::OpenSettings, &mut p);
    assert_eq!(e, vec![PopupEffect::ClosePopup, PopupEffect::OpenSettings]);
    assert_eq!(p.power_off("nobody"), PowerOffGate::NotConnected);
}

#[test]
fn analytics_page_labels_pads() {
    let mut p = pads();
    assert_eq!(p.panel_label("aabbccddeeff"), "DualSense");
    p.controllers.clear();
    assert_eq!(p.panel_label("aabbccddeeff"), "Pad …ddeeff");
    assert_eq!(p.panel_label("short"), "short");
    p.known.set_nickname("short", Some("Mine".to_string()));
    assert_eq!(p.panel_label("short"), "Mine");

    let mut r = SerialRecord::default();
    r.drain_steps.push(StepSample { from_percent: 45, to_percent: 35, samples_ms: vec![60_000] });
    p.analytics.by_serial.insert("aabbccddeeff".to_string(), r);
    let rows = p.analytics_panel(true);
    assert_eq!(rows.len(), 1);
    assert_eq!(rows[0].label, "Pad …ddeeff");
    assert!(p.analytics_panel(false).is_empty());
}

#[test]
fn same_pads_are_equivalent() {
    let a = vec![pad("a", 45, Connection::Usb)];
    let mut b = a.clone();
    assert!(controllers_equivalent(&a, &b));
    b[0].percent = 35;
    assert!(!controllers_equivalent(&a, &b));
}

#[test]
fn pulse_goes_round() {
    let mut p = Pulse::At(0);
    assert!(matches!(pulse_next(&mut p, false, 1), PulseStep::Light(0)));
    assert!(!matches!(p, Pulse::At(0)));
}

#[test]
fn drag_samples_while_it_lasts() {
    let mut dragging = false;
    assert_eq!(drag_update(&mut dragging, DragEvent::Moved, true), DragAction::Ignore);
    assert_eq!(
        drag_update(&mut dragging, DragEvent::Pressed { over: true }, true),
        DragAction::Sample
    );
    assert_eq!(drag_update(&mut dragging, DragEvent::Moved, false), DragAction::Ignore);
    assert_eq!(drag_update(&mut dragging, DragEvent::Moved, true), DragAction::Sample);
    assert_eq!(drag_update(&mut dragging, DragEvent::Released, true), DragAction::Redraw);
    assert!(!dragging);
    assert_eq!(ring_fill(0), RingFill::Empty);
    assert_eq!(ring_fill(25), RingFill::Arc(25));
    assert_eq!(ring_fill(140), RingFill::Whole);
}

fn timer_facts() -> TimerFacts {
    TimerFacts {
        start_screen_enabled: true,
        no_pads: true,
        toast: None,
        identify_flash: false,
        configure_open: false,
        pad_input_page: false,
        recording_gesture: false,
        start_open: false,
        start_needs_frames: false,
    }
}

#[test]
fn timers_follow_what_is_open() {
    let mut f = timer_facts();
    let t = subscription(f);
    assert_eq!(t.presence_ms, 500);
    assert!(!t.pad_poll && !t.toast_frames);
    assert!(!pad_input_hot(f));
    f.no_pads = false;
    f.toast = Some(4);
    let t = subscription(f);
    assert_eq!(t.presence_ms, 3000);
    assert!(t.pad_poll && t.toast_frames);
    assert_eq!(t.escape_for, Some(4));
    assert!(pad_input_hot(f));
    assert_eq!(start_key(KeyName::Enter, true), Some(StartKeyAction::Confirm));
    let mut e = SpectrumEdits { generation: 0 };
    let g = e.edit();
    let later = e.edit();
    assert_eq!(e.on_spectrum_commit(g, true), SpectrumCommit::Stale);
    assert_ne!(e.on_spectrum_commit(later, true), SpectrumCommit::Stale);
}

// --- shell -----------------------------------------------------------------

fn facts(next_id: u64) -> ShellFacts {
    ShellFacts {
        start: StartFacts {
            slide: StartSlide::Games,
            animating: false,
            window_open: true,
            row: None,
            pad_connected: false,
            pad_powers_off: false,
        },
        key: KeyHold { progress: 0, completed: false },
        typing: false,
        recording: false,
        now_ms: 1_000,
        slide_ms: 200,
        next_id,
    }
}

#[test]
fn boot_shows_the_tray_first() {
    let (s, e) = Shell::boot(5, false, 1);
    assert_eq!(e[0], Effect::CreateTray);
    assert_eq!(e.last(), Some(&Effect::ScanSteam));
    assert!(e.contains(&Effect::Toast(ToastEffect::OpenHidden)));
    assert_eq!(s.windows.toast, Some(1));
    let (s, e) = Shell::boot(5, true, 1);
    assert!(s.toasts.current.is_some());
    assert!(e.contains(&Effect::Toast(ToastEffect::Place(1))));
}

#[test]
fn tray_toggles_the_flyout() {
    let (mut s, _) = Shell::boot(5, false, 1);
    let e = s.update(Message::TrayLeftClick, facts(2));
    assert_eq!(
        e,
        vec![
            Effect::AnchorPopup,
            Effect::CancelTyping,
            Effect::Window(WindowEffect::Open(WindowRole::Popup, 2)),
        ]
    );
    assert_eq!(
        s.update(Message::PopupOpened(2), facts(3)),
        vec![Effect::Window(WindowEffect::MeasurePopup(2))]
    );
    s.update(Message::PlacePopup(2), facts(3));
    assert!(s.popup_measured);
    let mut typing = facts(3);
    typing.typing = true;
    assert!(s.update(Message::WindowUnfocused(2), typing).is_empty());
    let e = s.update(Message::TrayLeftClick, facts(3));
    assert!(e.contains(&Effect::Window(WindowEffect::Close(2))));
    s.update(Message::WindowClosed(2), facts(3));
    assert_eq!(s.windows.popup, None);
}

#[test]
fn toast_window_is_made_anew() {
    let (mut s, _) = Shell::boot(5, false, 1);
    let e = s.update(Message::WindowClosed(1), facts(8));
    assert_eq!(e, vec![Effect::Toast(ToastEffect::OpenHidden)]);
    assert_eq!(s.windows.toast, Some(8));
}

#[test]
fn start_screen_opens_and_closes() {
    let (mut s, _) = Shell::boot(5, false, 1);
    assert!(s.open_start_screen(false, 10, 4).is_empty());
    let e = s.open_start_screen(true, 10, 4);
    assert!(e.contains(&Effect::Window(WindowEffect::Open(WindowRole::Start, 4))));
    assert!(!s.nav_ready);
    assert_eq!(s.diag.opened_at_ms, Some(10));
    s.update(Message::StartOpened(4), facts(5));
    assert!(s.nav_ready);
    s.nav.file_dialog = true;
    assert!(s.update(Message::WindowUnfocused(4), facts(5)).is_empty());
    s.update(Message::ManualFilePicked { picked: false }, facts(5));
    let e = s.update(Message::WindowUnfocused(4), facts(5));
    assert!(e.contains(&Effect::Start(StartEffect::DropDraft)));
    assert_eq!(e.last(), Some(&Effect::Window(WindowEffect::Close(4))));
    assert!(!s.nav_ready);
}

#[test]
fn escape_closes_the_start_screen_when_released() {
    let (mut s, _) = Shell::boot(5, false, 1);
    s.open_start_screen(true, 10, 4);
    let down = Message::StartKey { id: 4, action: StartKeyAction::Cancel, pressed: true };
    assert_eq!(s.update(down, facts(5)), vec![Effect::Start(StartEffect::SyncHeld)]);
    assert!(s.keys.cancel);
    let up = Message::StartKey { id: 4, action: StartKeyAction::Cancel, pressed: false };
    let e = s.update(up, facts(5));
    assert_eq!(e.last(), Some(&Effect::Window(WindowEffect::Close(4))));
    assert!(!s.keys.cancel);
}

fn no_face() -> FaceHeld {
    FaceHeld::none()
}

fn resting() -> PadsTick {
    PadsTick {
        tick: NavTick {
            action: None,
            cross_progress: 0,
            cross_completed: false,
            triangle_progress: 0,
            triangle_completed: false,
        },
        held: no_face(),
        armed: 1,
        unarmed: 0,
        sampled: true,
    }
}

#[test]
fn look_at_the_pads_brings_rows_up_to_date() {
    let (mut s, _) = Shell::boot(5, false, 1);
    s.open_start_screen(true, 10, 4);
    s.diag.missing_warned = true;
    let still = facts(5).start;
    let look = s.begin_start_nav(still);
    assert_eq!(
        look.effects,
        vec![
            Effect::Start(StartEffect::RefreshControllers),
            Effect::RefreshRunning,
            Effect::TickAnimation,
        ]
    );
    assert!(look.gates.hold_cross_close);
    assert!(!s.diag.missing_warned);
    let moving = StartFacts { animating: true, ..still };
    let look = s.begin_start_nav(moving);
    assert_eq!(look.effects, vec![Effect::TickAnimation]);
    assert!(!look.gates.hold_cross_close);
}

#[test]
fn held_buttons_are_taken_over_and_given_up() {
    let (mut s, _) = Shell::boot(5, false, 1);
    s.open_start_screen(true, 10, 4);
    s.keys.cancel = true;
    let pressed = FaceHeld { cross: true, ..no_face() };
    let idle = KeyHold { progress: 0, completed: false };
    let f = facts(5).start;
    let e = s.handle_start_nav_readings(PadsTick { held: pressed, ..resting() }, idle, f);
    assert_eq!(
        e,
        vec![
            Effect::LogNav,
            Effect::DrawHeld(FaceHeld { circle: true, ..pressed }),
            Effect::Start(StartEffect::KeyboardHoldReset),
            Effect::Start(StartEffect::TickHints),
        ]
    );
    assert_eq!(s.pad_held, pressed);
    let tick = NavTick { action: Some(NavAction::Cancel), ..resting().tick };
    let e = s.handle_start_nav_readings(PadsTick { tick, held: pressed, ..resting() }, idle, f);
    assert_eq!(e.last(), Some(&Effect::Window(WindowEffect::Close(4))));
    assert_eq!(s.pad_held, no_face());
}

#[test]
fn waiting_pads_are_told_once() {
    let (mut s, _) = Shell::boot(5, false, 1);
    s.open_start_screen(true, 10, 4);
    let idle = KeyHold { progress: 0, completed: false };
    let f = facts(5).start;
    let waiting = PadsTick { armed: 0, unarmed: 1, ..resting() };
    let warns = |e: &[Effect]| e.contains(&Effect::WarnUnarmed);
    assert!(warns(&s.handle_start_nav_readings(waiting, idle, f)));
    assert!(!warns(&s.handle_start_nav_readings(waiting, idle, f)));
    assert!(!warns(&s.handle_start_nav_readings(resting(), idle, f)));
    assert!(warns(&s.handle_start_nav_readings(waiting, idle, f)));
    // Without a sample there is nothing to tell, but it counts as told.
    s.handle_start_nav_readings(resting(), idle, f);
    let blind = PadsTick { sampled: false, ..waiting };
    assert!(!warns(&s.handle_start_nav_readings(blind, idle, f)));
    assert!(!warns(&s.handle_start_nav_readings(waiting, idle, f)));
}

#[test]
fn escape_in_the_settings_stops_a_recording() {
    let (mut s, _) = Shell::boot(5, false, 1);
    s.update(Message::TrayMenu(TrayItem::Settings), facts(7));
    assert_eq!(s.windows.configure, Some(7));
    let m = Message::StartKey { id: 7, action: StartKeyAction::Cancel, pressed: true };
    assert!(s.update(m, facts(8)).is_empty());
    let mut f = facts(8);
    f.recording = true;
    assert_eq!(s.update(m, f), vec![Effect::CancelRecording]);
}

#[test]
fn macro_runs_behind_a_closed_start_screen() {
    let (mut s, _) = Shell::boot(5, false, 1);
    s.open_start_screen(true, 10, 4);
    s.nav.overlay = Overlay::List { run_mode: true };
    assert_eq!(
        s.update(Message::MacroFocusDone { focused: false }, facts(5)),
        vec![Effect::WarnFocusFailed]
    );
    let e = s.update(Message::MacroFocusDone { focused: true }, facts(5));
    assert_eq!(e.last(), Some(&Effect::RunMacroKeys));
    assert_eq!(s.nav.overlay, Overlay::Closed);
}

#[test]
fn quitting_saves_first() {
    let (mut s, _) = Shell::boot(5, false, 1);
    let e = s.update(Message::TrayMenu(TrayItem::Quit), facts(2));
    assert_eq!(e.first(), Some(&Effect::SaveKnown));
    assert_eq!(e.last(), Some(&Effect::Quit));
    assert_eq!(s.update(Message::Exit, facts(2)), e);
    assert_eq!(
        s.update(Message::Forward(Handler::Tick), facts(2)),
        vec![Effect::Handle(Handler::Tick)]
    );
}

#[test]
fn toasts_come_one_by_one() {
    let mut t = Toasts::new(0);
    let e = t.queue_notifications(vec![ToastMessage::Preview, ToastMessage::CrashRestart]);
    assert_eq!(e, vec![ToastEffect::OpenAndPlace(1), ToastEffect::ExpireLater(1)]);
    assert!(t.show_next_toast().is_empty());
    t.place(1, 10);
    assert!(t.toast_animating(11, 200));
    assert!(t.on_dismiss(9, 20, 200).is_empty());
    t.on_dismiss(1, 20, 200);
    let e = t.on_frame(220, 200);
    assert!(e.contains(&ToastEffect::Place(3)));
}

#[test]
fn start_messages_move_the_selection() {
    let (mut s, _) = Shell::boot(5, false, 1);
    s.nav.rows = 3;
    let e = s.update(Message::Start(StartMessage::MoveDown), facts(2));
    assert!(e.contains(&Effect::Start(StartEffect::MoveSelection { down: true })));
}

#[test]
fn preferences_are_read_back_clamped() {
    let mut p = Prefs::default();
    p.low_battery_percent = 20;
    assert_eq!(p.loaded().low_battery_percent, 15);
}
