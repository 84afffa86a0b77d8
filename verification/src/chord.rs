//! Chord detection with debounce, and what holds of every run of it.

use vstd::prelude::*;
use crate::keys::{after_event, chord_pressed, lemma_unrelated_key_keeps_chord, KeyEvent, KeyState, KeyStates};
use crate::screen::{toggled_times, ScreenState};

verus! {

/// Time that has passed at `now` since `since`. A clock that stepped back
/// counts as no time passed.
pub open spec fn elapsed_ms(since: u64, now: u64) -> nat {
    if now >= since {
        (now - since) as nat
    } else {
        0
    }
}

/// Whether a toggle may be accepted at `now`: none was accepted yet, or
/// strictly more than `debounce_ms` has passed since the last one.
pub open spec fn debounce_over(last: Option<u64>, debounce_ms: u64, now: u64) -> bool {
    match last {
        None => true,
        Some(since) => elapsed_ms(since, now) > debounce_ms,
    }
}

/// Decides, sample by sample, whether the chord toggles the wanted state.
#[derive(Clone, Copy, Debug, PartialEq, Eq, Structural)]
pub struct ChordDetector {
    pub debounce_ms: u64,
    /// When the last toggle was accepted, on the caller's monotonic clock.
    pub last_toggle_ms: Option<u64>,
}

impl ChordDetector {
    /// A sample of `table` at `now` toggles exactly when the chord is down
    /// and the debounce interval is over.
    pub open spec fn accepts(&self, table: Map<u32, KeyState>, now: u64) -> bool {
        chord_pressed(table) && debounce_over(self.last_toggle_ms, self.debounce_ms, now)
    }

    /// The detector after a sample of `table` at `now`.
    pub open spec fn after_sample(&self, table: Map<u32, KeyState>, now: u64) -> ChordDetector {
        if self.accepts(table, now) {
            ChordDetector { debounce_ms: self.debounce_ms, last_toggle_ms: Some(now) }
        } else {
            *self
        }
    }

    /// A detector that has accepted nothing yet: the first chord toggles.
    pub fn new(debounce_ms: u64) -> (d: Self)
        ensures
            d == (ChordDetector { debounce_ms, last_toggle_ms: None }),
    {
        ChordDetector { debounce_ms, last_toggle_ms: None }
    }

    /// A detector that counts `now_ms` as the time of its last toggle, so
    /// that a chord held down while the program starts does nothing.
    pub fn started_at(debounce_ms: u64, now_ms: u64) -> (d: Self)
        ensures
            d == (ChordDetector { debounce_ms, last_toggle_ms: Some(now_ms) }),
    {
        ChordDetector { debounce_ms, last_toggle_ms: Some(now_ms) }
    }

    /// Whether the debounce interval is over at `now_ms`.
    pub fn ready(&self, now_ms: u64) -> (r: bool)
        ensures
            r == debounce_over(self.last_toggle_ms, self.debounce_ms, now_ms),
    {
        match self.last_toggle_ms {
            None => true,
            Some(since) => now_ms >= since && now_ms - since > self.debounce_ms,
        }
    }

    /// One sampling cycle: looks at the three keys of the chord and, if all
    /// are pressed and the debounce interval is over, flips `desired` and
    /// restarts the interval at `now_ms`. Anything else changes nothing.
    pub fn sample(&mut self, keys: &KeyStates, desired: &mut ScreenState, now_ms: u64) -> (toggled: bool)
        ensures
            toggled == old(self).accepts(keys@, now_ms),
            *final(self) == old(self).after_sample(keys@, now_ms),
            final(desired)@ == (if toggled { !old(desired)@ } else { old(desired)@ }),
    {
        if keys.chord_down() && self.ready(now_ms) {
            desired.toggle();
            self.last_toggle_ms = Some(now_ms);
            true
        } else {
            false
        }
    }
}

/// Everything that detection reads and writes: the key table, the detector
/// and the wanted state.
pub struct Watch {
    pub table: Map<u32, KeyState>,
    pub detector: ChordDetector,
    pub desired: ScreenState,
}

/// One thing that happens to a `Watch`: a raw event arrives, or the detector
/// samples the table at a given time.
pub enum Step {
    Event(KeyEvent),
    Sample(u64),
}

impl Watch {
    /// The watch after one step: what `KeyStates::record` and
    /// `ChordDetector::sample` do to its parts.
    pub open spec fn step(self, s: Step) -> Watch {
        match s {
            Step::Event(event) => Watch { table: after_event(self.table, event), ..self },
            Step::Sample(now) => Watch {
                table: self.table,
                detector: self.detector.after_sample(self.table, now),
                desired: if self.detector.accepts(self.table, now) {
                    ScreenState { on: !self.desired.on }
                } else {
                    self.desired
                },
            },
        }
    }

    /// The watch after all of `steps`, in order.
    pub open spec fn run(self, steps: Seq<Step>) -> Watch
        decreases steps.len(),
    {
        if steps.len() == 0 {
            self
        } else {
            self.run(steps.drop_last()).step(steps.last())
        }
    }
}

/// The steps that sample once at each of `times`, with no event in between.
pub open spec fn samples_at(times: Seq<u64>) -> Seq<Step> {
    Seq::new(times.len(), |i: int| Step::Sample(times[i]))
}

/// As long as the three keys of the chord are never pressed all at once,
/// the wanted state never changes, whatever events arrive and whenever the
/// detector samples.
pub proof fn lemma_no_chord_no_toggle(w: Watch, steps: Seq<Step>)
    requires
        forall|i: int| 0 <= i <= steps.len() ==> !chord_pressed(#[trigger] w.run(steps.take(i)).table),
    ensures
        w.run(steps).desired == w.desired,
        w.run(steps).detector == w.detector,
    decreases steps.len(),
{
    if steps.len() > 0 {
        let front = steps.drop_last();
        assert forall|i: int| 0 <= i <= front.len() implies !chord_pressed(
            #[trigger] w.run(front.take(i)).table,
        ) by {
            assert(front.take(i) =~= steps.take(i));
        }
        lemma_no_chord_no_toggle(w, front);
        assert(front =~= steps.take(front.len() as int));
        assert(!chord_pressed(w.run(steps.take(front.len() as int)).table));
    }
}

/// Whether `s` is noise: an event on a key outside the chord, an event that
/// is no key event, or a sample.
pub open spec fn is_noise(s: Step) -> bool {
    match s {
        Step::Event(KeyEvent::Press(key)) => !key.in_chord(),
        Step::Event(KeyEvent::Release(key)) => !key.in_chord(),
        Step::Event(KeyEvent::Other) => true,
        Step::Sample(_) => true,
    }
}

/// With the chord not down to begin with, no amount of noise on other keys
/// toggles the wanted state.
pub proof fn lemma_noise_never_toggles(w: Watch, steps: Seq<Step>)
    requires
        !chord_pressed(w.table),
        forall|i: int| 0 <= i < steps.len() ==> is_noise(#[trigger] steps[i]),
    ensures
        w.run(steps).desired == w.desired,
        w.run(steps).detector == w.detector,
        !chord_pressed(w.run(steps).table),
    decreases steps.len(),
{
    if steps.len() > 0 {
        let front = steps.drop_last();
        assert forall|i: int| 0 <= i < front.len() implies is_noise(#[trigger] front[i]) by {
            assert(front[i] == steps[i]);
        }
        lemma_noise_never_toggles(w, front);
        assert(is_noise(steps[steps.len() - 1]));
        match steps.last() {
            Step::Event(event) => {
                lemma_unrelated_key_keeps_chord(w.run(front).table, event);
            },
            Step::Sample(_) => {},
        }
    }
}

/// Once a toggle was accepted at `at`, nothing that happens while no more
/// than the debounce interval has passed alters the wanted state: neither
/// events nor samples, chord down or not.
pub proof fn lemma_debounce_holds(w: Watch, at: u64, steps: Seq<Step>)
    requires
        w.detector.last_toggle_ms == Some(at),
        forall|i: int| 0 <= i < steps.len() ==> match #[trigger] steps[i] {
            Step::Sample(now) => now <= at + w.detector.debounce_ms,
            Step::Event(_) => true,
        },
    ensures
        w.run(steps).desired == w.desired,
        w.run(steps).detector == w.detector,
    decreases steps.len(),
{
    if steps.len() > 0 {
        let front = steps.drop_last();
        assert forall|i: int| 0 <= i < front.len() implies match #[trigger] front[i] {
            Step::Sample(now) => now <= at + w.detector.debounce_ms,
            Step::Event(_) => true,
        } by {
            assert(front[i] == steps[i]);
        }
        lemma_debounce_holds(w, at, front);
        let _ = steps[steps.len() - 1];
    }
}

/// A chord accepted at `first` flips the wanted state; a second activation
/// at `second`, no more than the debounce interval later, does not alter it.
pub proof fn lemma_second_activation_ignored(w: Watch, first: u64, second: u64)
    requires
        w.detector.accepts(w.table, first),
        second <= first + w.detector.debounce_ms,
    ensures
        w.step(Step::Sample(first)).desired@ == !w.desired@,
        w.step(Step::Sample(first)).step(Step::Sample(second)) == w.step(Step::Sample(first)),
{
}

/// Activations spaced more than the debounce interval apart toggle the
/// wanted state once each: after all of them it has flipped as many times
/// as there were activations.
pub proof fn lemma_spaced_activations_toggle_each(w: Watch, times: Seq<u64>)
    requires
        chord_pressed(w.table),
        times.len() > 0 ==> debounce_over(w.detector.last_toggle_ms, w.detector.debounce_ms, times[0]),
        forall|i: int| 0 <= i < times.len() - 1 ==> #[trigger] times[i + 1] - times[i] > w.detector.debounce_ms,
    ensures
        w.run(samples_at(times)).desired@ == toggled_times(w.desired@, times.len()),
        w.run(samples_at(times)).table == w.table,
        w.run(samples_at(times)).detector.debounce_ms == w.detector.debounce_ms,
        times.len() > 0 ==> w.run(samples_at(times)).detector.last_toggle_ms == Some(times.last()),
    decreases times.len(),
{
    if times.len() > 0 {
        let front = times.drop_last();
        assert(samples_at(front) =~= samples_at(times).drop_last());
        assert(samples_at(times).last() == Step::Sample(times.last()));
        assert forall|i: int| 0 <= i < front.len() - 1 implies #[trigger] front[i + 1] - front[i]
            > w.detector.debounce_ms by {
            assert(front[i + 1] == times[i + 1] && front[i] == times[i]);
        }
        if front.len() > 0 {
            assert(front[0] == times[0]);
            let j = front.len() - 1;
            assert(times[j + 1] - times[j] > w.detector.debounce_ms);
            assert(front.last() == times[j]);
        }
        lemma_spaced_activations_toggle_each(w, front);
    }
}

} // verus!
