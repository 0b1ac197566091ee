use sdsc_utils::app::configure::gesture_recording_live;
use sdsc_utils::app::pad_poll::GestureDetectorBank;
use sdsc_utils::gesture::{
    default_gesture, format_gesture, ControlSet, GestureControl, GestureDetector, GestureRecorder,
};
use std::collections::BTreeSet;

#[test]
fn default_gesture_is_triggers_and_sticks() {
    assert_eq!(
        default_gesture(),
        vec![
            GestureControl::L2,
            GestureControl::R2,
            GestureControl::L3,
            GestureControl::R3,
        ]
    );
}

#[test]
fn format_sorts_and_joins() {
    let label = format_gesture(&[GestureControl::R3, GestureControl::L2]);
    assert_eq!(label, "L2 + R3");
    assert_eq!(format_gesture(&[]), "None");
}

#[test]
fn detector_fires_once_on_rising_edge() {
    let required = default_gesture();
    let mut detector = GestureDetector::new();
    let mut held = ControlSet::new();
    assert!(!detector.update(&required, &held));

    held.insert(GestureControl::L2);
    held.insert(GestureControl::R2);
    assert!(!detector.update(&required, &held));

    held.insert(GestureControl::L3);
    held.insert(GestureControl::R3);
    assert!(detector.update(&required, &held));
    assert!(!detector.update(&required, &held));

    // Extra buttons still match.
    held.insert(GestureControl::Cross);
    assert!(!detector.update(&required, &held));

    held.remove(GestureControl::L3);
    assert!(!detector.update(&required, &held));
    held.insert(GestureControl::L3);
    assert!(detector.update(&required, &held));
}

#[test]
fn empty_gesture_never_fires() {
    let mut detector = GestureDetector::new();
    let mut held = ControlSet::new();
    held.insert(GestureControl::L2);
    assert!(!detector.update(&[], &held));
}

#[test]
fn recorder_keeps_peak_across_staggered_release() {
    let mut recorder = GestureRecorder::default();
    recorder.start();
    let mut held = ControlSet::new();
    held.insert(GestureControl::L2);
    held.insert(GestureControl::R2);
    assert!(recorder.update(&held).is_none());
    held.insert(GestureControl::L3);
    held.insert(GestureControl::R3);
    assert!(recorder.update(&held).is_none());
    held.remove(GestureControl::R3);
    assert!(recorder.update(&held).is_none());
    held.clear();
    let peak = recorder.update(&held).expect("finished");
    assert_eq!(
        peak.into_iter().collect::<BTreeSet<_>>(),
        [
            GestureControl::L2,
            GestureControl::R2,
            GestureControl::L3,
            GestureControl::R3,
        ]
        .into_iter()
        .collect()
    );
    assert!(!recorder.is_active());
}

#[test]
fn recording_is_labelled_live() {
    let mut recorder = GestureRecorder::default();
    recorder.start();
    assert_eq!(gesture_recording_live(&recorder), "");
    let mut held = ControlSet::new();
    held.insert(GestureControl::R2);
    held.insert(GestureControl::L2);
    let _ = recorder.update(&held);
    assert_eq!(gesture_recording_live(&recorder), "L2 + R2");
}

#[test]
fn detector_bank_starts_empty() {
    let mut bank = GestureDetectorBank::new();
    assert!(!bank.update(&default_gesture(), &[]));
    bank.reset();
    assert!(!bank.update(&default_gesture(), &[]));
}

#[test]
fn recording_is_the_largest_set_held_at_one_time() {
    let set = |controls: &[GestureControl]| {
        let mut s = ControlSet::new();
        for c in controls {
            s.insert(*c);
        }
        s
    };
    let (l2, r2, r1) = (GestureControl::L2, GestureControl::R2, GestureControl::R1);
    let mut recorder = GestureRecorder::default();
    recorder.start();
    assert!(recorder.update(&set(&[l2])).is_none());
    assert!(recorder.update(&set(&[r2])).is_none());
    assert_eq!(recorder.update(&set(&[])), Some(vec![l2]));
    assert!(!recorder.is_active());
    recorder.start();
    recorder.update(&set(&[l2]));
    recorder.update(&set(&[r1, r2]));
    recorder.update(&set(&[l2]));
    assert_eq!(recorder.peak().len(), 2);
    assert_eq!(recorder.update(&set(&[])), Some(vec![r1, r2]));
}
