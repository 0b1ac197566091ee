use sdsc_utils::controller::battery::dualsense_status;
use sdsc_utils::controller::model::{Connection, ControllerStatus, PowerState};
use sdsc_utils::notify::{NotifyKind, NotifyTracker};
use sdsc_utils::prefs::Prefs;
use sdsc_utils::text_map::TextMap;

const USB: Connection = Connection::Usb;
const BT: Connection = Connection::Bluetooth;

fn pad(serial: &str, percent: u8, state: PowerState, connection: Connection) -> ControllerStatus {
    dualsense_status(1, "DualSense", connection, serial.to_string(), percent, state)
}

fn prefs(notify_low: bool, notify_charged: bool, notify_connect: bool) -> Prefs {
    let mut p = Prefs::default();
    p.notify_low = notify_low;
    p.notify_charged = notify_charged;
    p.notify_connect = notify_connect;
    p.notify_disconnect = true;
    p
}

fn told_low(t: &NotifyTracker, serial: &str) -> bool {
    t.by_serial.get(serial).unwrap().notified_low
}

fn told_complete(t: &NotifyTracker, serial: &str) -> bool {
    t.by_serial.get(serial).unwrap().notified_complete
}

#[test]
fn connects_notifies_with_percent() {
    let mut tracker = NotifyTracker::new();
    let p = prefs(true, true, true);
    let connected = vec![pad("a", 65, PowerState::Discharging, BT)];

    let events = tracker.collect_events(&[], &connected, &p);
    assert_eq!(events.len(), 1);
    assert_eq!(events[0].1, NotifyKind::Connect);
    assert_eq!(connected[events[0].0].percent, 65);

    assert!(tracker.collect_events(&connected, &connected, &p).is_empty());
}

#[test]
fn reconnect_after_disconnect_notifies_again() {
    let mut tracker = NotifyTracker::new();
    let p = prefs(true, true, true);
    let connected = vec![pad("a", 40, PowerState::Discharging, USB)];

    assert_eq!(tracker.collect_events(&[], &connected, &p).len(), 1);
    assert!(tracker.collect_events(&connected, &[], &p).is_empty());
    assert_eq!(tracker.collect_events(&[], &connected, &p).len(), 1);
}

#[test]
fn disconnect_notifies_with_last_known_battery() {
    let mut tracker = NotifyTracker::new();
    let connected = vec![pad("a", 40, PowerState::Discharging, BT)];
    let events = tracker.evaluate(&connected, &[], &prefs(true, true, false), &TextMap::new());
    assert_eq!(events.len(), 1);
    assert_eq!(events[0].body, "Disconnected");
    assert_eq!(events[0].percent, Some(40));
    assert_eq!(events[0].heading, "DualSense (Bluetooth)");
}

#[test]
fn toast_heading_uses_nickname_when_set() {
    let mut tracker = NotifyTracker::new();
    let connected = vec![pad("a", 40, PowerState::Discharging, USB)];
    let mut names = TextMap::new();
    names.insert("a".to_string(), "Left pad".to_string());
    let events = tracker.evaluate(&[], &connected, &prefs(true, true, true), &names);
    assert_eq!(events.len(), 1);
    assert_eq!(events[0].heading, "Left pad (USB)");
}

#[test]
fn disconnect_notifications_can_be_disabled() {
    let mut tracker = NotifyTracker::new();
    let connected = vec![pad("a", 40, PowerState::Discharging, BT)];
    let mut preferences = prefs(true, true, false);
    preferences.notify_disconnect = false;
    assert!(tracker.evaluate(&connected, &[], &preferences, &TextMap::new()).is_empty());
}

#[test]
fn connect_prefs_can_disable() {
    let mut tracker = NotifyTracker::new();
    let p = prefs(true, true, false);
    let connected = vec![pad("a", 65, PowerState::Discharging, USB)];

    assert!(tracker.collect_events(&[], &connected, &p).is_empty());
}

#[test]
fn connect_and_low_can_both_fire() {
    let mut tracker = NotifyTracker::new();
    let p = prefs(true, true, true);
    let low = vec![pad("a", 5, PowerState::Discharging, USB)];

    let events = tracker.collect_events(&[], &low, &p);
    assert_eq!(events.len(), 2);
    assert_eq!(events[0].1, NotifyKind::Connect);
    assert_eq!(events[1].1, NotifyKind::Low);
}

#[test]
fn enters_low_once() {
    let mut tracker = NotifyTracker::new();
    let p = prefs(true, true, false);
    let mid = vec![pad("a", 50, PowerState::Discharging, USB)];
    let low = vec![pad("a", 5, PowerState::Discharging, USB)];

    assert!(tracker.collect_events(&[], &mid, &p).is_empty());
    assert!(!told_low(&tracker, "a"));

    let events = tracker.collect_events(&mid, &low, &p);
    assert_eq!(events.len(), 1);
    assert_eq!(events[0].1, NotifyKind::Low);
    assert!(told_low(&tracker, "a"));

    assert!(tracker.collect_events(&low, &low, &p).is_empty());
}

#[test]
fn low_threshold_is_configurable() {
    let mut tracker = NotifyTracker::new();
    let mut p = prefs(true, true, false);
    p.low_battery_percent = 25;
    let mid = vec![pad("a", 35, PowerState::Discharging, USB)];
    let at_threshold = vec![pad("a", 25, PowerState::Discharging, USB)];

    assert!(tracker.collect_events(&[], &mid, &p).is_empty());
    let events = tracker.collect_events(&mid, &at_threshold, &p);
    assert_eq!(events.len(), 1);
    assert_eq!(events[0].1, NotifyKind::Low);
    assert!(tracker.collect_events(&at_threshold, &at_threshold, &p).is_empty());
}

#[test]
fn above_custom_threshold_is_not_low() {
    let mut tracker = NotifyTracker::new();
    let mut p = prefs(true, true, false);
    p.low_battery_percent = 25;
    let mid = vec![pad("a", 50, PowerState::Discharging, USB)];
    let still_ok = vec![pad("a", 35, PowerState::Discharging, USB)];

    assert!(tracker.collect_events(&mid, &still_ok, &p).is_empty());
    assert!(!told_low(&tracker, "a"));
}

#[test]
fn leave_low_allows_reentry() {
    let mut tracker = NotifyTracker::new();
    let p = prefs(true, true, false);
    let low = vec![pad("a", 5, PowerState::Discharging, BT)];
    let mid = vec![pad("a", 50, PowerState::Discharging, BT)];

    assert_eq!(tracker.collect_events(&[], &low, &p).len(), 1);
    assert!(tracker.collect_events(&low, &mid, &p).is_empty());
    assert!(!told_low(&tracker, "a"));
    assert_eq!(tracker.collect_events(&mid, &low, &p).len(), 1);
}

#[test]
fn charging_to_complete_notifies() {
    let mut tracker = NotifyTracker::new();
    let p = prefs(true, true, false);
    let charging = vec![pad("a", 80, PowerState::Charging, USB)];
    let complete = vec![pad("a", 100, PowerState::Complete, USB)];

    assert!(tracker.collect_events(&[], &charging, &p).is_empty());
    let events = tracker.collect_events(&charging, &complete, &p);
    assert_eq!(events.len(), 1);
    assert_eq!(events[0].1, NotifyKind::Charged);
    assert!(told_complete(&tracker, "a"));
    assert!(tracker.collect_events(&complete, &complete, &p).is_empty());
}

#[test]
fn already_complete_on_connect_is_quiet() {
    let mut tracker = NotifyTracker::new();
    let p = prefs(true, true, false);
    let complete = vec![pad("a", 100, PowerState::Complete, USB)];

    assert!(tracker.collect_events(&[], &complete, &p).is_empty());
    assert!(!told_complete(&tracker, "a"));
}

#[test]
fn prefs_can_disable() {
    let mut tracker = NotifyTracker::new();
    let p = prefs(false, false, false);
    let mid = vec![pad("a", 50, PowerState::Discharging, USB)];
    let low = vec![pad("a", 5, PowerState::Discharging, USB)];
    let charging = vec![pad("a", 80, PowerState::Charging, USB)];
    let complete = vec![pad("a", 100, PowerState::Complete, USB)];

    assert!(tracker.collect_events(&mid, &low, &p).is_empty());
    assert!(!told_low(&tracker, "a"));
    assert!(tracker.collect_events(&charging, &complete, &p).is_empty());
    assert!(!told_complete(&tracker, "a"));
}

#[test]
fn multi_controller_independent() {
    let mut tracker = NotifyTracker::new();
    let p = prefs(true, true, false);
    let prev = vec![
        pad("a", 50, PowerState::Discharging, USB),
        pad("b", 80, PowerState::Charging, BT),
    ];
    let next = vec![
        pad("a", 5, PowerState::Discharging, USB),
        pad("b", 100, PowerState::Complete, BT),
    ];

    let events = tracker.collect_events(&prev, &next, &p);
    assert_eq!(events.len(), 2);
    assert!(told_low(&tracker, "a"));
    assert!(told_complete(&tracker, "b"));
}

#[test]
fn disconnect_clears_flags() {
    let mut tracker = NotifyTracker::new();
    let p = prefs(true, true, false);
    let low = vec![pad("a", 5, PowerState::Discharging, USB)];

    let _ = tracker.collect_events(&[], &low, &p);
    assert!(tracker.by_serial.contains_key("a"));

    assert!(tracker.collect_events(&low, &[], &p).is_empty());
    assert!(!tracker.by_serial.contains_key("a"));
}

#[test]
fn toast_texts_say_what_happened() {
    let mut tracker = NotifyTracker::new();
    let low = vec![pad("a", 5, PowerState::Discharging, USB)];
    let events = tracker.evaluate(&[], &low, &prefs(true, true, true), &TextMap::new());
    assert_eq!(events.len(), 2);
    assert_eq!(events[0].percent, Some(5));
    assert_eq!(events[1].heading, "DualSense (USB)");
    assert_ne!(events[0].body, events[1].body);
}

#[test]
fn every_change_of_a_run_is_told_once() {
    let p = prefs(true, true, false);
    let names = TextMap::new();
    let usb = Connection::Usb;
    let run = [
        vec![],
        vec![pad("a", 5, PowerState::Discharging, usb)],
        vec![pad("a", 5, PowerState::Discharging, usb)],
        vec![],
        vec![pad("a", 5, PowerState::Discharging, usb)],
        vec![pad("a", 95, PowerState::Charging, usb)],
        vec![pad("a", 100, PowerState::Complete, usb)],
        vec![pad("a", 100, PowerState::Complete, usb)],
        vec![],
        vec![pad("a", 100, PowerState::Complete, usb)],
    ];
    let mut t = NotifyTracker::new();
    let mut told = Vec::new();
    for i in 1..run.len() {
        let events = t.evaluate(&run[i - 1], &run[i], &p, &names);
        let count = |body: &str| events.iter().filter(|e| e.body == body).count();
        told.push((count("Is low"), count("Finished charging")));
    }
    assert_eq!(
        told,
        vec![(1, 0), (0, 0), (0, 0), (1, 0), (0, 0), (0, 1), (0, 0), (0, 0), (0, 0)]
    );
}
