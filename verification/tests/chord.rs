use screen_toggle::chord::ChordDetector;
use screen_toggle::keys::{Key, KeyEvent, KeyboardState};
use screen_toggle::screen::ScreenState;

fn chord_held() -> KeyboardState {
    let mut kb = KeyboardState::new();
    kb.on_event(KeyEvent::Press(Key::control_left()));
    kb.on_event(KeyEvent::Press(Key::alt()));
    kb.on_event(KeyEvent::Press(Key::key_d()));
    kb
}

fn release_and_press_again(kb: &mut KeyboardState) {
    kb.on_event(KeyEvent::Release(Key::key_d()));
    kb.on_event(KeyEvent::Release(Key::alt()));
    kb.on_event(KeyEvent::Release(Key::control_left()));
    kb.on_event(KeyEvent::Press(Key::control_left()));
    kb.on_event(KeyEvent::Press(Key::alt()));
    kb.on_event(KeyEvent::Press(Key::key_d()));
}

#[test]
fn fresh_detector_has_no_last_toggle() {
    let d = ChordDetector::new(500);
    assert_eq!(d.debounce_ms, 500);
    assert_eq!(d.last_toggle_ms, None);
    assert!(d.ready(0));
    assert!(d.ready(u64::MAX));
}

#[test]
fn started_detector_waits_out_the_interval() {
    let d = ChordDetector::started_at(500, 1000);
    assert_eq!(d.last_toggle_ms, Some(1000));
    assert!(!d.ready(1000));
    assert!(!d.ready(1500));
    assert!(d.ready(1501));
}

#[test]
fn clock_stepping_back_counts_as_no_time() {
    let d = ChordDetector::started_at(0, 1000);
    assert!(!d.ready(999));
    assert!(!d.ready(0));
    assert!(!d.ready(1000));
    assert!(d.ready(1001));
}

#[test]
fn chord_scenario_with_debounce() {
    let mut kb = chord_held();
    let mut desired = ScreenState::new();
    let mut detector = ChordDetector::new(500);

    assert!(detector.sample(kb.states(), &mut desired, 0));
    assert!(desired.is_off());
    assert_eq!(detector.last_toggle_ms, Some(0));

    release_and_press_again(&mut kb);
    assert!(!detector.sample(kb.states(), &mut desired, 300));
    assert!(desired.is_off());
    assert_eq!(detector.last_toggle_ms, Some(0));

    release_and_press_again(&mut kb);
    assert!(detector.sample(kb.states(), &mut desired, 600));
    assert!(desired.is_on());
    assert_eq!(detector.last_toggle_ms, Some(600));
}

#[test]
fn no_chord_never_toggles() {
    let mut kb = KeyboardState::new();
    let mut desired = ScreenState::new();
    let mut detector = ChordDetector::new(500);
    let events = [
        KeyEvent::Press(Key::control_left()),
        KeyEvent::Press(Key::alt()),
        KeyEvent::Release(Key::alt()),
        KeyEvent::Press(Key::key_d()),
        KeyEvent::Release(Key::control_left()),
        KeyEvent::Press(Key::alt()),
        KeyEvent::Other,
        KeyEvent::Release(Key::key_d()),
        KeyEvent::Press(Key::control_left()),
    ];
    let mut now: u64 = 0;
    for e in events {
        kb.on_event(e);
        now += 1000;
        assert!(!detector.sample(kb.states(), &mut desired, now));
        assert!(desired.is_on());
        assert_eq!(detector.last_toggle_ms, None);
    }
}

#[test]
fn key_noise_never_toggles() {
    let mut kb = KeyboardState::new();
    let mut desired = ScreenState::new();
    let mut detector = ChordDetector::new(500);
    let mut now: u64 = 0;
    for round in 0..50u32 {
        for code in [38u32, 39, 41, 65, 105, 108] {
            kb.on_event(KeyEvent::Press(Key { code: code + round * 1000 }));
            now += 700;
            assert!(!detector.sample(kb.states(), &mut desired, now));
            kb.on_event(KeyEvent::Release(Key { code: code + round * 1000 }));
            now += 700;
            assert!(!detector.sample(kb.states(), &mut desired, now));
        }
    }
    assert!(desired.is_on());
    assert_eq!(detector.last_toggle_ms, None);
}

#[test]
fn debounce_boundary_is_strict() {
    let kb = chord_held();
    let mut desired = ScreenState::new();
    let mut detector = ChordDetector::new(500);
    assert!(detector.sample(kb.states(), &mut desired, 10_000));
    assert!(!detector.sample(kb.states(), &mut desired, 10_499));
    assert!(!detector.sample(kb.states(), &mut desired, 10_500));
    assert!(desired.is_off());
    assert!(detector.sample(kb.states(), &mut desired, 10_501));
    assert!(desired.is_on());
    assert_eq!(detector.last_toggle_ms, Some(10_501));
}

#[test]
fn held_chord_toggles_again_after_the_interval() {
    let kb = chord_held();
    let mut desired = ScreenState::new();
    let mut detector = ChordDetector::new(1000);
    let mut toggles = 0;
    let mut now: u64 = 0;
    while now <= 3_500 {
        if detector.sample(kb.states(), &mut desired, now) {
            toggles += 1;
        }
        now += 10;
    }
    // accepted at 0, 1010, 2020 and 3030
    assert_eq!(toggles, 4);
    assert!(desired.is_on());
    assert_eq!(detector.last_toggle_ms, Some(3030));
}

#[test]
fn spaced_activations_toggle_once_each() {
    let kb = chord_held();
    let mut desired = ScreenState::new();
    let mut detector = ChordDetector::new(500);
    let times: [u64; 5] = [3, 504, 1005, 5000, 5501];
    let mut expect_on = true;
    for t in times {
        assert!(detector.sample(kb.states(), &mut desired, t));
        expect_on = !expect_on;
        assert_eq!(desired.is_on(), expect_on);
        assert_eq!(detector.last_toggle_ms, Some(t));
    }
    assert!(desired.is_off());
}

#[test]
fn rejected_sample_changes_nothing() {
    let kb = KeyboardState::new();
    let mut desired = ScreenState::new();
    desired.set_off();
    let mut detector = ChordDetector::started_at(500, 100);
    let before = detector;
    assert!(!detector.sample(kb.states(), &mut desired, 10_000));
    assert_eq!(detector, before);
    assert!(desired.is_off());
}

#[test]
fn zero_debounce_still_needs_time_to_pass() {
    let kb = chord_held();
    let mut desired = ScreenState::new();
    let mut detector = ChordDetector::new(0);
    assert!(detector.sample(kb.states(), &mut desired, 5));
    assert!(!detector.sample(kb.states(), &mut desired, 5));
    assert!(detector.sample(kb.states(), &mut desired, 6));
    assert!(desired.is_on());
}
