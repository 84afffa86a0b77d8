//! Keys, their logical states, and the table that tracks them.

use futures_signals::signal::{Mutable, MutableSignal};
use std::collections::HashMap;
use vstd::prelude::*;

verus! {

broadcast use vstd::std_specs::hash::group_hash_axioms;

/// X keycode of the left Control key.
pub const CONTROL_LEFT_CODE: u32 = 37;

/// X keycode of the Alt key.
pub const ALT_CODE: u32 = 64;

/// X keycode of the letter D.
pub const KEY_D_CODE: u32 = 40;

/// A physical key, identified by the keycode that the X server reports for
/// it. Only the three keys of the chord mean anything to this library; any
/// other key is just some code that differs from theirs.
#[derive(Clone, Copy, Debug, PartialEq, Eq, Structural)]
pub struct Key {
    pub code: u32,
}

impl Key {
    pub fn control_left() -> (k: Self)
        ensures
            k.code == CONTROL_LEFT_CODE,
    {
        Key { code: CONTROL_LEFT_CODE }
    }

    pub fn alt() -> (k: Self)
        ensures
            k.code == ALT_CODE,
    {
        Key { code: ALT_CODE }
    }

    pub fn key_d() -> (k: Self)
        ensures
            k.code == KEY_D_CODE,
    {
        Key { code: KEY_D_CODE }
    }

    /// A key that the event source has no name for, known by its raw code
    /// alone. It is never taken for a key of the chord: a raw code that
    /// equals one of theirs is moved to the top of the range.
    pub fn unnamed(raw: u32) -> (k: Self)
        ensures
            !k.in_chord(),
            k.code == (if (Key { code: raw }).in_chord() { u32::MAX } else { raw }),
    {
        if raw == CONTROL_LEFT_CODE || raw == ALT_CODE || raw == KEY_D_CODE {
            Key { code: u32::MAX }
        } else {
            Key { code: raw }
        }
    }

    /// Whether the key is one of the three that form the chord.
    pub open spec fn in_chord(&self) -> bool {
        self.code == CONTROL_LEFT_CODE || self.code == ALT_CODE || self.code == KEY_D_CODE
    }

    pub fn is_chord_key(&self) -> (r: bool)
        ensures
            r == self.in_chord(),
    {
        self.code == CONTROL_LEFT_CODE || self.code == ALT_CODE || self.code == KEY_D_CODE
    }
}

/// The logical state of a key.
#[derive(Clone, Copy, Debug, PartialEq, Eq, Structural)]
pub enum KeyState {
    Pressed,
    Released,
}

/// One raw input event, as far as the table cares.
#[derive(Clone, Copy, Debug, PartialEq, Eq, Structural)]
pub enum KeyEvent {
    Press(Key),
    Release(Key),
    /// Any event that is neither a key press nor a key release.
    Other,
}

/// The state that `table` holds for `key`: what was last recorded for it, or
/// `Released` if nothing ever was.
pub open spec fn state_in(table: Map<u32, KeyState>, key: Key) -> KeyState {
    if table.contains_key(key.code) {
        table[key.code]
    } else {
        KeyState::Released
    }
}

/// The table after `event`: a press or release overwrites the key's entry,
/// anything else leaves the table as it is.
pub open spec fn after_event(table: Map<u32, KeyState>, event: KeyEvent) -> Map<u32, KeyState> {
    match event {
        KeyEvent::Press(key) => table.insert(key.code, KeyState::Pressed),
        KeyEvent::Release(key) => table.insert(key.code, KeyState::Released),
        KeyEvent::Other => table,
    }
}

/// Whether all three keys of the chord are pressed at once.
pub open spec fn chord_pressed(table: Map<u32, KeyState>) -> bool {
    &&& state_in(table, Key { code: CONTROL_LEFT_CODE }) == KeyState::Pressed
    &&& state_in(table, Key { code: ALT_CODE }) == KeyState::Pressed
    &&& state_in(table, Key { code: KEY_D_CODE }) == KeyState::Pressed
}

/// The most recent state seen of every key.
#[derive(Debug)]
pub struct KeyStates {
    table: HashMap<u32, KeyState>,
}

impl View for KeyStates {
    type V = Map<u32, KeyState>;

    closed spec fn view(&self) -> Map<u32, KeyState> {
        self.table@
    }
}

impl KeyStates {
    /// An empty table: every key counts as released.
    pub fn new() -> (s: Self)
        ensures
            s@ == Map::<u32, KeyState>::empty(),
    {
        KeyStates { table: HashMap::new() }
    }

    /// The state last recorded for `key`, `Released` if there is none.
    pub fn get_state(&self, key: Key) -> (state: KeyState)
        ensures
            state == state_in(self@, key),
    {
        match self.table.get(&key.code) {
            Some(state) => *state,
            None => KeyState::Released,
        }
    }

    /// Records `state` for `key`, over whatever was there.
    pub fn set_state(&mut self, key: &Key, state: KeyState)
        ensures
            final(self)@ == old(self)@.insert(key.code, state),
    {
        self.table.insert(key.code, state);
    }

    /// Takes one raw event into the table.
    pub fn record(&mut self, event: KeyEvent)
        ensures
            final(self)@ == after_event(old(self)@, event),
    {
        match event {
            KeyEvent::Press(key) => self.set_state(&key, KeyState::Pressed),
            KeyEvent::Release(key) => self.set_state(&key, KeyState::Released),
            KeyEvent::Other => {},
        }
    }

    /// Whether the chord is down right now.
    pub fn chord_down(&self) -> (down: bool)
        ensures
            down == chord_pressed(self@),
    {
        let control: KeyState = self.get_state(Key::control_left());
        let alt: KeyState = self.get_state(Key::alt());
        let letter: KeyState = self.get_state(Key::key_d());
        match (control, alt, letter) {
            (KeyState::Pressed, KeyState::Pressed, KeyState::Pressed) => true,
            _ => false,
        }
    }
}

/// The shared cell of `futures_signals`. It is carried around and handed to
/// that crate's own functions; nothing here looks inside.
#[verifier::external_type_specification]
#[verifier::external_body]
#[verifier::reject_recursive_types(A)]
pub struct ExMutable<A>(Mutable<A>);

/// `Mutable::new`: a fresh cell. Handles cloned from it share its value, so
/// nothing is claimed of what it holds later on.
#[verifier::external_body]
fn fresh_mark(raised: bool) -> (mark: Mutable<bool>) {
    Mutable::new(raised)
}

/// The signal that `futures_signals` hands out for a cell: a stream of the
/// cell's values for one waiter. It is only passed on.
#[verifier::external_type_specification]
#[verifier::external_body]
#[verifier::reject_recursive_types(A)]
pub struct ExMutableSignal<A>(MutableSignal<A>);

/// `Mutable::set`: stores `raised` in the cell and, still holding the
/// cell's lock, runs the waker of every signal that waits on it. The cell is
/// shared with the signals handed out, so nothing is claimed of its value
/// afterwards. The call would panic or block if the lock were poisoned or
/// held by the caller; the cell never leaves `KeyboardState`, which takes
/// the lock in no other way than through these calls.
#[verifier::external_body]
fn set_mark(mark: &Mutable<bool>, raised: bool) {
    mark.set(raised)
}

/// `Mutable::signal`: a new signal on the cell, whose first value is what
/// the cell holds when it is first polled. Nothing is claimed of it.
#[verifier::external_body]
fn signal_of(mark: &Mutable<bool>) -> (signal: MutableSignal<bool>) {
    mark.signal()
}

/// The key table together with the mark that wakes the detector: raised on
/// every raw event, and lowered by whoever waited for it.
#[derive(Debug)]
pub struct KeyboardState {
    states: KeyStates,
    updated: Mutable<bool>,
}

impl KeyboardState {
    /// What the key table holds.
    pub closed spec fn table(&self) -> Map<u32, KeyState> {
        self.states@
    }

    /// The cell that carries the mark. It is made once, by `new`, and stays
    /// the same cell for the life of the value.
    pub closed spec fn mark(&self) -> Mutable<bool> {
        self.updated
    }

    /// No key seen yet, the mark down.
    pub fn new() -> (kb: Self)
        ensures
            kb.table() == Map::<u32, KeyState>::empty(),
    {
        KeyboardState { states: KeyStates::new(), updated: fresh_mark(false) }
    }

    /// The key table, to sample it.
    pub fn states(&self) -> (s: &KeyStates)
        ensures
            s@ == self.table(),
    {
        &self.states
    }

    /// What the event source calls for every raw event: the mark is raised,
    /// whatever the event, and the table follows presses and releases. The
    /// mark is raised on the cell that was there: whoever waits on it is
    /// woken.
    pub fn on_event(&mut self, event: KeyEvent)
        ensures
            final(self).table() == after_event(old(self).table(), event),
            final(self).mark() == old(self).mark(),
    {
        set_mark(&self.updated, true);
        self.states.record(event);
    }

    /// Lowers the mark, once the waiter has woken and is about to sample.
    pub fn lower(&self) {
        set_mark(&self.updated, false);
    }

    /// A signal to wait on: it yields `true` once the mark is raised. The
    /// waker of whoever polls it is run from inside `on_event` and `lower`,
    /// and has to return.
    pub fn wake_signal(&self) -> (signal: MutableSignal<bool>) {
        signal_of(&self.updated)
    }
}

/// An event on a key outside the chord never changes whether the chord is
/// down.
pub proof fn lemma_unrelated_key_keeps_chord(table: Map<u32, KeyState>, event: KeyEvent)
    requires
        match event {
            KeyEvent::Press(key) => !key.in_chord(),
            KeyEvent::Release(key) => !key.in_chord(),
            KeyEvent::Other => true,
        },
    ensures
        chord_pressed(after_event(table, event)) == chord_pressed(table),
{
}

/// Of two events on the same key the later one decides, whatever came
/// before: duplicates and reorderings leave the last write standing.
pub proof fn lemma_last_write_wins(table: Map<u32, KeyState>, key: Key, first: KeyState, second: KeyState)
    ensures
        state_in(table.insert(key.code, first).insert(key.code, second), key) == second,
        table.insert(key.code, first).insert(key.code, second) =~= table.insert(key.code, second),
{
}

} // verus!
