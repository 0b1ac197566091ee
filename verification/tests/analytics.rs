use sdsc_utils::analytics::estimate::{
    drain_edges, drain_edges_from, format_duration_short, format_eta_ring, push_step_sample,
    step_median, BucketDirection, EtaHint, InProgressBucket, StepSample, MIN_STEP_SECS,
};
use sdsc_utils::analytics::store::{
    AnalyticsStore, SerialRecord, CONNECT_GRACE_MS, SERIAL_CAP, STALE_SERIAL_DAYS,
};
use sdsc_utils::controller::battery::dualsense_status;
use sdsc_utils::controller::model::{Connection, ControllerStatus, PowerState};
use sdsc_utils::text_map::TextSet;

fn pad(serial: &str, percent: u8, state: PowerState) -> ControllerStatus {
    dualsense_status(1, "DualSense", Connection::Usb, serial.to_string(), percent, state)
}

fn ms(secs: u64) -> u64 {
    secs * 1000
}

fn observe_enabled(
    store: &mut AnalyticsStore,
    prev: &[ControllerStatus],
    next: &[ControllerStatus],
    at: u64,
) {
    store.observe(prev, next, true, &TextSet::new(), at);
}

/// Connect at `t0`, then observe again after connect grace so a bucket window can open.
fn connect_past_grace(store: &mut AnalyticsStore, pads: &[ControllerStatus], t0: u64) -> u64 {
    observe_enabled(store, &[], pads, t0);
    let after = t0 + CONNECT_GRACE_MS + ms(1);
    observe_enabled(store, pads, pads, after);
    after
}

/// Accrue `minutes` of active time at a fixed percent/state via heartbeats.
fn accrue(
    store: &mut AnalyticsStore,
    serial: &str,
    percent: u8,
    state: PowerState,
    start: u64,
    minutes: u64,
) -> u64 {
    let cur = vec![pad(serial, percent, state)];
    let mut t = start;
    let ticks = (minutes * 60 / 90).max(1);
    for _ in 0..ticks {
        t += ms(90);
        observe_enabled(store, &cur, &cur, t);
    }
    t
}

fn step(from: u8, to: u8, samples_ms: Vec<u64>) -> StepSample {
    StepSample { from_percent: from, to_percent: to, samples_ms }
}

fn record(
    drain_steps: Vec<StepSample>,
    charge_steps: Vec<StepSample>,
    in_progress: Option<InProgressBucket>,
) -> SerialRecord {
    SerialRecord { last_seen_ms: 1, drain_steps, charge_steps, in_progress }
}

fn store_with(r: SerialRecord) -> AnalyticsStore {
    let mut store = AnalyticsStore::default();
    store.by_serial.insert("a".to_string(), r);
    store
}

fn play_secs(store: &AnalyticsStore, percent: u8) -> u64 {
    match store.eta_for(&pad("a", percent, PowerState::Discharging)) {
        Some(EtaHint::PlayLeft(d)) => d / 1000,
        other => panic!("unexpected {other:?}"),
    }
}

fn charge_secs(store: &AnalyticsStore, percent: u8) -> u64 {
    match store.eta_for(&pad("a", percent, PowerState::Charging)) {
        Some(EtaHint::ChargeToFull(d)) => d / 1000,
        other => panic!("unexpected {other:?}"),
    }
}

#[test]
fn drain_heartbeats_accrue_until_drop() {
    let mut store = AnalyticsStore::default();
    let forty_five = vec![pad("a", 45, PowerState::Discharging)];
    let t0 = connect_past_grace(&mut store, &forty_five, ms(1_000));
    assert_eq!(store.in_progress("a").map(|p| p.percent), Some(45));
    let t = accrue(&mut store, "a", 45, PowerState::Discharging, t0, 5);
    assert!(store.by_serial.get("a").unwrap().drain_steps.is_empty());
    let thirty_five = vec![pad("a", 35, PowerState::Discharging)];
    observe_enabled(&mut store, &forty_five, &thirty_five, t + ms(90));
    let steps = &store.by_serial.get("a").unwrap().drain_steps;
    assert_eq!(steps.len(), 1);
    assert_eq!(steps[0].from_percent, 45);
    assert_eq!(steps[0].to_percent, 35);
    assert!(steps[0].samples_ms[0] >= MIN_STEP_SECS * 1000);
}

#[test]
fn drain_step_survives_charge() {
    let mut store = AnalyticsStore::default();
    let forty_five = vec![pad("a", 45, PowerState::Discharging)];
    let thirty_five = vec![pad("a", 35, PowerState::Discharging)];
    let t0 = connect_past_grace(&mut store, &forty_five, ms(1_000));
    let t = accrue(&mut store, "a", 45, PowerState::Discharging, t0, 5);
    observe_enabled(&mut store, &forty_five, &thirty_five, t + ms(90));
    let charging = vec![pad("a", 35, PowerState::Charging)];
    observe_enabled(&mut store, &thirty_five, &charging, t + ms(180));
    assert_eq!(store.by_serial.get("a").unwrap().drain_steps.len(), 1);
    assert_eq!(
        store.in_progress("a").map(|p| p.direction),
        Some(BucketDirection::Charge)
    );
}

#[test]
fn drain_one_step_unlocks_speculative_eta() {
    let store = store_with(record(vec![step(45, 35, vec![5 * 60 * 1000])], vec![], None));
    // 10% in 5 min: 0.5 min per %. At 45%: 40% left, 20 min.
    assert_eq!(play_secs(&store, 45), 20 * 60);
    // At 25%: 20% left, 10 min.
    assert_eq!(play_secs(&store, 25), 10 * 60);
    let typical = store.typical_play("a").expect("speculative typical");
    // From 100 to 5: 95%, 47.5 min.
    assert_eq!(typical / 1000, 47 * 60 + 30);
}

#[test]
fn drain_half_bucket_alone_does_not_speculate() {
    let store = store_with(record(vec![step(100, 95, vec![5 * 60 * 1000])], vec![], None));
    assert!(store.eta_for(&pad("a", 100, PowerState::Discharging)).is_none());
    assert!(store.typical_play("a").is_none());
}

#[test]
fn drain_measured_preferred_over_speculation() {
    let store = store_with(record(
        vec![
            step(45, 35, vec![10 * 60 * 1000]),
            step(25, 15, vec![2 * 60 * 1000]),
        ],
        vec![],
        None,
    ));
    // Rates 60000 and 12000 ms per %, median 36000. At 25%: 2 min measured, 6 min speculated.
    assert_eq!(play_secs(&store, 25), 8 * 60);
}

#[test]
fn drain_disconnect_pauses_then_drop_commits() {
    let mut store = AnalyticsStore::default();
    let thirty_five = vec![pad("a", 35, PowerState::Discharging)];
    let t0 = connect_past_grace(&mut store, &thirty_five, ms(1_000));
    let t = accrue(&mut store, "a", 35, PowerState::Discharging, t0, 3);
    observe_enabled(&mut store, &thirty_five, &[], t + ms(90));
    assert!(store.in_progress("a").is_some());
    let resume = t + ms(120);
    observe_enabled(&mut store, &[], &thirty_five, resume);
    assert_eq!(store.in_progress("a").map(|p| p.percent), Some(35));
    let t2 = accrue(&mut store, "a", 35, PowerState::Discharging, resume, 3);
    let twenty_five = vec![pad("a", 25, PowerState::Discharging)];
    observe_enabled(&mut store, &thirty_five, &twenty_five, t2 + ms(90));
    let sample = store.by_serial.get("a").unwrap().drain_steps[0].samples_ms[0];
    // About 6 minutes across both sittings, not the gap.
    assert!((5 * 60 * 1000..15 * 60 * 1000).contains(&sample));
}

#[test]
fn full_drain_chain_gives_typical_and_eta() {
    let mut steps = Vec::new();
    for (from, to) in drain_edges() {
        steps.push(step(from, to, vec![10 * 60 * 1000]));
    }
    let store = store_with(record(steps, vec![], None));
    let typical = store.typical_play("a").expect("full chain");
    assert_eq!(typical / 1000, 10 * 60 * drain_edges().len() as u64);
    let edges = drain_edges_from(85).unwrap();
    assert_eq!(play_secs(&store, 85), 10 * 60 * edges.len() as u64);
}

#[test]
fn charge_step_survives_unplug() {
    let mut store = AnalyticsStore::default();
    let five = vec![pad("a", 5, PowerState::Charging)];
    let fifteen = vec![pad("a", 15, PowerState::Charging)];
    let t0 = connect_past_grace(&mut store, &five, ms(1_000));
    let t = accrue(&mut store, "a", 5, PowerState::Charging, t0, 5);
    observe_enabled(&mut store, &five, &fifteen, t + ms(90));
    let discharging = vec![pad("a", 15, PowerState::Discharging)];
    observe_enabled(&mut store, &fifteen, &discharging, t + ms(180));
    assert_eq!(store.by_serial.get("a").unwrap().charge_steps.len(), 1);
    assert_eq!(store.by_serial.get("a").unwrap().charge_steps[0].from_percent, 5);
}

#[test]
fn charge_one_step_unlocks_speculative_eta() {
    let store = store_with(record(vec![], vec![step(5, 15, vec![5 * 60 * 1000])], None));
    // 10% in 5 min: 0.5 min per %. At 5%: 95% left, 47.5 min.
    assert_eq!(charge_secs(&store, 5), 47 * 60 + 30);
    assert!(store.typical_charge("a").is_some());
}

#[test]
fn charge_half_bucket_alone_does_not_speculate() {
    let store = store_with(record(vec![], vec![step(95, 100, vec![5 * 60 * 1000])], None));
    assert!(store.eta_for(&pad("a", 95, PowerState::Charging)).is_none());
    assert!(store.typical_charge("a").is_none());
}

#[test]
fn charge_complete_commits_final_step() {
    let mut store = AnalyticsStore::default();
    let ninety_five = vec![pad("a", 95, PowerState::Charging)];
    let complete = vec![pad("a", 100, PowerState::Complete)];
    let t0 = connect_past_grace(&mut store, &ninety_five, ms(1_000));
    let t = accrue(&mut store, "a", 95, PowerState::Charging, t0, 5);
    observe_enabled(&mut store, &ninety_five, &complete, t + ms(90));
    assert!(store.in_progress("a").is_none());
    let step = store
        .by_serial
        .get("a")
        .unwrap()
        .charge_steps
        .iter()
        .find(|s| s.from_percent == 95 && s.to_percent == 100)
        .expect("95 to 100");
    assert!(!step.samples_ms.is_empty());
}

#[test]
fn connect_grace_skips_window_and_percent_jumps() {
    let mut store = AnalyticsStore::default();
    let wrong = vec![pad("a", 100, PowerState::Discharging)];
    observe_enabled(&mut store, &[], &wrong, ms(1_000));
    assert!(store.in_progress("a").is_none());

    let settled = vec![pad("a", 65, PowerState::Discharging)];
    observe_enabled(&mut store, &wrong, &settled, ms(1_000) + ms(10 * 60));
    assert!(store.in_progress("a").is_none());
    assert!(store.by_serial.get("a").unwrap().drain_steps.is_empty());
}

#[test]
fn connect_grace_then_window_at_settled_percent() {
    let mut store = AnalyticsStore::default();
    let wrong = vec![pad("a", 100, PowerState::Discharging)];
    observe_enabled(&mut store, &[], &wrong, ms(1_000));
    let settled = vec![pad("a", 65, PowerState::Discharging)];
    observe_enabled(&mut store, &wrong, &settled, ms(1_000) + ms(5 * 60));

    let after_grace = ms(1_000) + CONNECT_GRACE_MS + ms(1);
    observe_enabled(&mut store, &settled, &settled, after_grace);
    assert_eq!(store.in_progress("a").map(|p| p.percent), Some(65));

    let t = accrue(&mut store, "a", 65, PowerState::Discharging, after_grace, 5);
    let fifty_five = vec![pad("a", 55, PowerState::Discharging)];
    observe_enabled(&mut store, &settled, &fifty_five, t + ms(90));
    let steps = &store.by_serial.get("a").unwrap().drain_steps;
    assert_eq!(steps.len(), 1);
    assert_eq!(steps[0].from_percent, 65);
    assert_eq!(steps[0].to_percent, 55);
}

#[test]
fn overnight_reconnect_resets_connect_grace() {
    let mut store = AnalyticsStore::default();
    let pad35 = vec![pad("a", 35, PowerState::Discharging)];
    let t0 = connect_past_grace(&mut store, &pad35, ms(1_000));
    assert!(store.in_progress("a").is_some());

    observe_enabled(&mut store, &pad35, &[], t0 + ms(90));
    let day2 = t0 + ms(20 * 60 * 60);
    observe_enabled(&mut store, &[], &pad35, day2);
    // The stale window is cleared and the grace starts again.
    assert!(store.in_progress("a").is_none());
    assert!(store.in_connect_grace("a", day2));

    let still_grace = day2 + ms(10 * 60);
    observe_enabled(&mut store, &pad35, &pad35, still_grace);
    assert!(store.in_progress("a").is_none());
}

#[test]
fn brief_absence_does_not_reset_connect_grace() {
    let mut store = AnalyticsStore::default();
    let pad45 = vec![pad("a", 45, PowerState::Discharging)];
    let t0 = connect_past_grace(&mut store, &pad45, ms(1_000));
    let connected_at = *store.connected_at_ms.get("a").expect("grace clock");
    assert_eq!(store.in_progress("a").map(|p| p.percent), Some(45));

    observe_enabled(&mut store, &pad45, &[], t0 + ms(30));
    let resume = t0 + ms(90);
    observe_enabled(&mut store, &[], &pad45, resume);
    assert_eq!(
        store.connected_at_ms.get("a").copied(),
        Some(connected_at),
        "a brief HID blip must keep the original connect time"
    );
    assert_eq!(store.in_progress("a").map(|p| p.percent), Some(45));
    assert!(!store.in_connect_grace("a", resume));
}

#[test]
fn step_ring_keeps_three() {
    let mut steps = Vec::new();
    push_step_sample(&mut steps, 45, 35, 1);
    push_step_sample(&mut steps, 45, 35, 2);
    push_step_sample(&mut steps, 45, 35, 3);
    push_step_sample(&mut steps, 45, 35, 4);
    assert_eq!(steps[0].samples_ms, vec![2, 3, 4]);
    assert_eq!(step_median(&steps, 45, 35), Some(3));
}

#[test]
fn format_duration_floors_to_tier() {
    assert_eq!(format_duration_short(ms(40 * 60)), "~40m");
    assert_eq!(format_duration_short(ms(2 * 3600 + 15 * 60)), "~2h 15m");
    assert_eq!(format_duration_short(ms(3600)), "~1h");
    assert_eq!(format_duration_short(ms(4 * 3600 + 29 * 60)), "~4h");
    assert_eq!(format_duration_short(ms(3 * 3600 + 59 * 60)), "~3h 45m");
    assert_eq!(format_duration_short(ms(3600 + 59 * 60)), "~1h 55m");
    assert_eq!(format_duration_short(ms(4 * 60)), "~<5m");
    assert_eq!(format_duration_short(ms(8 * 3600)), "~8h");
    assert_eq!(format_duration_short(ms(2 * 3600)), "~2h");
}

#[test]
fn format_eta_ring_uses_same_floored_label() {
    assert_eq!(format_eta_ring(EtaHint::PlayLeft(ms(8 * 3600))), "~8h");
    assert_eq!(format_eta_ring(EtaHint::ChargeToFull(ms(40 * 60))), "~40m");
    assert_eq!(format_eta_ring(EtaHint::PlayLeft(ms(3 * 3600 + 30 * 60))), "~3h 30m");
}

fn drain_at(percent: u8, active_ms: u64) -> Option<InProgressBucket> {
    Some(InProgressBucket { direction: BucketDirection::Drain, percent, active_ms })
}

#[test]
fn drain_interpolates_within_current_bucket() {
    let mut store = store_with(record(
        vec![
            step(35, 25, vec![60 * 60 * 1000]),
            step(25, 15, vec![90 * 60 * 1000]),
            step(15, 5, vec![90 * 60 * 1000]),
        ],
        vec![],
        drain_at(35, 0),
    ));
    assert_eq!(play_secs(&store, 35), 4 * 3600);
    store.by_serial.get_mut("a").unwrap().in_progress = drain_at(35, 30 * 60 * 1000);
    assert_eq!(play_secs(&store, 35), 3 * 3600 + 30 * 60);
    store.by_serial.get_mut("a").unwrap().in_progress = drain_at(35, 45 * 60 * 1000);
    assert_eq!(play_secs(&store, 35), 3 * 3600 + 15 * 60);
}

fn three_hours() -> Vec<StepSample> {
    vec![
        step(35, 25, vec![60 * 60 * 1000]),
        step(25, 15, vec![60 * 60 * 1000]),
        step(15, 5, vec![60 * 60 * 1000]),
    ]
}

#[test]
fn drain_interpolation_clamps_to_next_breakpoint() {
    let store = store_with(record(three_hours(), vec![], drain_at(35, 3 * 60 * 60 * 1000)));
    assert_eq!(play_secs(&store, 35), 2 * 3600);
}

#[test]
fn drain_wrong_in_progress_does_not_interpolate() {
    let store = store_with(record(
        three_hours(),
        vec![],
        Some(InProgressBucket {
            direction: BucketDirection::Charge,
            percent: 35,
            active_ms: 30 * 60 * 1000,
        }),
    ));
    assert_eq!(play_secs(&store, 35), 3 * 3600);
}

#[test]
fn charge_interpolates_within_current_bucket() {
    let mut store = store_with(record(
        vec![],
        vec![
            step(5, 15, vec![20 * 60 * 1000]),
            step(15, 25, vec![20 * 60 * 1000]),
        ],
        Some(InProgressBucket {
            direction: BucketDirection::Charge,
            percent: 5,
            active_ms: 10 * 60 * 1000,
        }),
    ));
    // 2 min per %: 190 min for 95%, less the 10 min that passed.
    assert_eq!(charge_secs(&store, 5), 180 * 60);
    store.by_serial.get_mut("a").unwrap().in_progress = None;
    assert_eq!(charge_secs(&store, 5), 190 * 60);
}

#[test]
fn prune_stale_and_lru() {
    let mut store = AnalyticsStore::default();
    let now_ms = ms(STALE_SERIAL_DAYS * 24 * 60 * 60 + 10_000);
    for i in 0..35u64 {
        let mut r = SerialRecord::default();
        r.last_seen_ms = now_ms.saturating_sub((i + 1) * 1_000);
        store.by_serial.insert(format!("pad{i:02}"), r);
    }
    let mut old = SerialRecord::default();
    old.last_seen_ms = 1;
    store.by_serial.insert("ancient".to_string(), old);
    store.dirty = true;
    let mut keep = TextSet::new();
    keep.insert("pad00".to_string());
    store.prune(now_ms, &keep);
    assert!(!store.by_serial.contains_key("ancient"));
    assert!(store.by_serial.len() <= SERIAL_CAP);
    assert!(store.by_serial.contains_key("pad00"));
}

#[test]
fn disabled_observe_is_noop() {
    let mut store = AnalyticsStore::default();
    let mid = vec![pad("a", 45, PowerState::Discharging)];
    store.observe(&[], &mid, false, &TextSet::new(), ms(1_000));
    assert!(store.by_serial.is_empty());
}

#[test]
fn prune_drops_the_longest_unseen_first() {
    let mut store = AnalyticsStore::default();
    let now = ms(1_000_000);
    for i in 0..34u64 {
        let mut r = SerialRecord::default();
        r.last_seen_ms = now - i * 1_000;
        store.by_serial.insert(format!("pad{i:02}"), r);
    }
    store.prune(now, &TextSet::new());
    assert_eq!(store.by_serial.len(), SERIAL_CAP);
    assert!(store.by_serial.contains_key("pad31"));
    assert!(!store.by_serial.contains_key("pad32"));
    assert!(!store.by_serial.contains_key("pad33"));
}

#[test]
fn panel_rows_come_by_serial() {
    let mut store = store_with(record(vec![step(45, 35, vec![1000])], vec![], None));
    let mut other = record(vec![], vec![step(5, 15, vec![2000])], None);
    other.last_seen_ms = 2;
    store.by_serial.insert("B".to_string(), other);
    let rows = store.panel_rows();
    assert_eq!(rows.len(), 2);
    assert_eq!(rows[0].serial, "B");
    assert_eq!(rows[1].serial, "a");
}

#[test]
fn clearing_forgets_everything_learned() {
    let mut store = store_with(record(three_hours(), vec![], drain_at(35, 1)));
    store.clear();
    assert!(store.by_serial.is_empty());
    assert!(store.dirty);
    assert!(store.in_progress("a").is_none());
}

#[test]
fn samples_of_one_edge_keep_the_others() {
    let mut steps = Vec::new();
    push_step_sample(&mut steps, 45, 35, 1);
    push_step_sample(&mut steps, 35, 25, 2);
    push_step_sample(&mut steps, 45, 35, 3);
    assert_eq!(steps, vec![step(45, 35, vec![1, 3]), step(35, 25, vec![2])]);
}

#[test]
fn readings_of_one_pad_leave_the_others() {
    let mut store = AnalyticsStore::default();
    let here = vec![pad("a", 45, PowerState::Discharging)];
    let t = connect_past_grace(&mut store, &here, ms(1_000));
    let t = accrue(&mut store, "a", 45, PowerState::Discharging, t, 6);
    let before = store.in_progress("a");
    let both = vec![pad("a", 45, PowerState::Discharging), pad("unknown", 45, PowerState::Discharging)];
    observe_enabled(&mut store, &here, &both, t);
    assert_eq!(store.in_progress("a"), before);
    assert_eq!(store.by_serial.len(), 1);
    let after = connect_past_grace(&mut store, &[pad("b", 65, PowerState::Charging)], t);
    assert_eq!(store.in_progress("a"), before);
    assert!(store.in_connect_grace("b", t));
    assert!(!store.in_connect_grace("b", after));
}
