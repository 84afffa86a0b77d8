use screen_toggle::chord::ChordDetector;
use screen_toggle::enforcer::{Phase, ScreenStateEnforcer};
use screen_toggle::keys::{Key, KeyEvent, KeyboardState};
use screen_toggle::screen::{PowerCommand, ScreenState};
use screen_toggle::settings::Settings;

fn press_chord(kb: &mut KeyboardState) {
    kb.on_event(KeyEvent::Press(Key::control_left()));
    kb.on_event(KeyEvent::Press(Key::alt()));
    kb.on_event(KeyEvent::Press(Key::key_d()));
}

fn release_chord(kb: &mut KeyboardState) {
    kb.on_event(KeyEvent::Release(Key::key_d()));
    kb.on_event(KeyEvent::Release(Key::alt()));
    kb.on_event(KeyEvent::Release(Key::control_left()));
}

/// Runs the enforcer on a simulated clock from `from` until `until` and
/// returns the commands it asked for, each with the time it was asked at.
fn enforce(
    enforcer: &mut ScreenStateEnforcer,
    desired: ScreenState,
    from: u64,
    until: u64,
) -> (Vec<(u64, PowerCommand)>, u64) {
    let mut sent = Vec::new();
    let mut now = from;
    while now < until {
        let d = enforcer.step(desired);
        if let Some(c) = d.command {
            sent.push((now, c));
        }
        now += d.pause_ms;
    }
    (sent, now)
}

#[test]
fn chord_toggles_and_enforcement_follows() {
    let settings = Settings::standard();
    let mut kb = KeyboardState::new();
    let mut desired = ScreenState::new();
    let mut detector = ChordDetector::new(settings.debounce_ms);
    let mut enforcer = ScreenStateEnforcer::with_settings(settings).unwrap();

    // t = 0: the chord goes down and the display is wanted dark
    press_chord(&mut kb);
    assert!(detector.sample(kb.states(), &mut desired, 0));
    assert!(desired.is_off());

    // "off" every 50 ms until t = 300
    let (sent, now) = enforce(&mut enforcer, desired, 0, 300);
    assert_eq!(now, 300);
    assert_eq!(sent.len(), 6);
    for (i, (at, c)) in sent.iter().enumerate() {
        assert_eq!(*at, 50 * i as u64);
        assert_eq!(*c, PowerCommand::ForceOff);
    }

    // t = 300: released and pressed again inside the debounce window
    release_chord(&mut kb);
    assert!(!detector.sample(kb.states(), &mut desired, 300));
    press_chord(&mut kb);
    assert!(!detector.sample(kb.states(), &mut desired, 300));
    assert!(desired.is_off());

    let (sent, now) = enforce(&mut enforcer, desired, 300, 600);
    assert_eq!(now, 600);
    assert_eq!(sent.len(), 6);
    assert!(sent.iter().all(|(_, c)| *c == PowerCommand::ForceOff));
    assert_eq!(enforcer.phase(), Phase::ConvergingOff);

    // t = 600: pressed once more, now the display is wanted lit
    release_chord(&mut kb);
    press_chord(&mut kb);
    assert!(detector.sample(kb.states(), &mut desired, 600));
    assert!(desired.is_on());

    // a burst of 100 "on", 100 ms apart, then silence
    let (sent, now) = enforce(&mut enforcer, desired, 600, 60_000);
    assert_eq!(sent.len(), 100);
    for (i, (at, c)) in sent.iter().enumerate() {
        assert_eq!(*at, 600 + 100 * i as u64);
        assert_eq!(*c, PowerCommand::ForceOn);
    }
    assert!(now >= 60_000);
    assert_eq!(enforcer.phase(), Phase::Stable);
}

#[test]
fn noise_leaves_the_enforcer_idle() {
    let mut kb = KeyboardState::new();
    let mut desired = ScreenState::new();
    let mut detector = ChordDetector::new(500);
    let mut enforcer = ScreenStateEnforcer::new();
    let mut now: u64 = 0;
    for code in 0u32..300 {
        let key = Key { code };
        if key.is_chord_key() {
            continue;
        }
        kb.on_event(KeyEvent::Press(key));
        assert!(!detector.sample(kb.states(), &mut desired, now));
        kb.on_event(KeyEvent::Release(key));
        assert!(!detector.sample(kb.states(), &mut desired, now + 5));
        let d = enforcer.step(desired);
        assert_eq!(d.command, None);
        assert_eq!(d.pause_ms, 50);
        now += d.pause_ms;
    }
    assert!(desired.is_on());
    assert_eq!(enforcer.phase(), Phase::Stable);
}
