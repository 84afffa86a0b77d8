//! The enforcement state machine: from the wanted state read in each cycle
//! to the command to issue and the pause to take.

use vstd::prelude::*;
use crate::screen::{PowerCommand, ScreenState};
use crate::settings::Settings;

verus! {

/// What the caller does in one cycle: run `command`, if there is one, then
/// sleep for `pause_ms` before asking again.
#[derive(Clone, Copy, Debug, PartialEq, Eq, Structural)]
pub struct Directive {
    pub command: Option<PowerCommand>,
    pub pause_ms: u64,
}

/// Where enforcement stands.
#[derive(Clone, Copy, Debug, PartialEq, Eq, Structural)]
pub enum Phase {
    /// "Off" is being re-issued, cycle after cycle.
    ConvergingOff,
    /// A burst of "on" commands is under way.
    ConvergingOn,
    /// The display was brought to lit and nothing is left to do.
    Stable,
}

/// Drives the display towards the wanted state.
#[derive(Clone, Copy, Debug, PartialEq, Eq, Structural)]
pub struct ScreenStateEnforcer {
    pub settings: Settings,
    /// The state that enforcement last brought about.
    pub old_state: ScreenState,
    /// "On" commands still owed in the burst under way; 0 outside a burst.
    pub burst_left: u32,
}

impl ScreenStateEnforcer {
    /// A burst is only ever under way while the display counts as dark, and
    /// never owes as many commands as a whole burst holds.
    pub open spec fn wf(&self) -> bool {
        &&& self.settings.wf()
        &&& self.burst_left < self.settings.on_burst_count
        &&& self.burst_left > 0 ==> !self.old_state@
    }

    pub open spec fn phase_of(&self) -> Phase {
        if self.burst_left > 0 {
            Phase::ConvergingOn
        } else if self.old_state@ {
            Phase::Stable
        } else {
            Phase::ConvergingOff
        }
    }

    /// Commands owed, this cycle's included, when the cycle begins: the
    /// rest of a burst under way, a whole burst when lit is wanted and the
    /// display counts as dark, none otherwise.
    pub open spec fn owed(&self, desired: ScreenState) -> nat {
        if self.burst_left > 0 {
            self.burst_left as nat
        } else if desired@ && !self.old_state@ {
            self.settings.on_burst_count as nat
        } else {
            0
        }
    }

    /// The enforcer after a cycle that read `desired`.
    ///
    /// A burst, once begun, runs to its end without looking at `desired`;
    /// its last command records the display as lit. Outside a burst, dark
    /// wanted records the display as dark, and lit wanted with the display
    /// lit changes nothing.
    pub open spec fn next(&self, desired: ScreenState) -> ScreenStateEnforcer {
        if self.owed(desired) > 0 {
            ScreenStateEnforcer {
                settings: self.settings,
                old_state: ScreenState { on: self.owed(desired) == 1 },
                burst_left: (self.owed(desired) - 1) as u32,
            }
        } else if !desired@ {
            ScreenStateEnforcer { settings: self.settings, old_state: ScreenState { on: false }, burst_left: 0 }
        } else {
            *self
        }
    }

    /// What a cycle that read `desired` asks of the caller.
    ///
    /// Within a burst: "on", then the burst spacing; after the last command
    /// of the burst the polling pause is added to it. Outside a burst with
    /// dark wanted: "off", then the retry pause. Else no command, and the
    /// polling pause.
    pub open spec fn directive(&self, desired: ScreenState) -> Directive {
        if self.owed(desired) > 1 {
            Directive {
                command: Some(PowerCommand::ForceOn),
                pause_ms: self.settings.on_burst_spacing_ms as u64,
            }
        } else if self.owed(desired) == 1 {
            Directive {
                command: Some(PowerCommand::ForceOn),
                pause_ms: (self.settings.on_burst_spacing_ms + self.settings.poll_ms) as u64,
            }
        } else if !desired@ {
            Directive {
                command: Some(PowerCommand::ForceOff),
                pause_ms: self.settings.off_retry_ms as u64,
            }
        } else {
            Directive { command: None, pause_ms: self.settings.poll_ms as u64 }
        }
    }

    /// An enforcer with the stock settings that takes the display for lit,
    /// so that nothing is sent before the wanted state first changes.
    pub fn new() -> (e: Self)
        ensures
            e == (ScreenStateEnforcer {
                settings: Settings::standard_values(),
                old_state: ScreenState { on: true },
                burst_left: 0,
            }),
            e.wf(),
    {
        ScreenStateEnforcer { settings: Settings::standard(), old_state: ScreenState::new(), burst_left: 0 }
    }

    /// As `new`, with settings of the caller's choice. `None` exactly when
    /// `settings` ask for an empty burst.
    pub fn with_settings(settings: Settings) -> (e: Option<Self>)
        ensures
            e == (if settings.wf() {
                Some(ScreenStateEnforcer { settings, old_state: ScreenState { on: true }, burst_left: 0 })
            } else {
                None
            }),
            e.is_some() ==> e.unwrap().wf(),
    {
        if settings.is_valid() {
            Some(ScreenStateEnforcer { settings, old_state: ScreenState::new(), burst_left: 0 })
        } else {
            None
        }
    }

    /// Whether the fields fit together, for callers that filled them in
    /// themselves.
    pub fn is_well_formed(&self) -> (ok: bool)
        ensures
            ok == self.wf(),
    {
        self.settings.is_valid() && self.burst_left < self.settings.on_burst_count && (self.burst_left == 0
            || self.old_state.is_off())
    }

    pub fn phase(&self) -> (p: Phase)
        ensures
            p == self.phase_of(),
    {
        if self.burst_left > 0 {
            Phase::ConvergingOn
        } else if self.old_state.is_on() {
            Phase::Stable
        } else {
            Phase::ConvergingOff
        }
    }

    /// One cycle of enforcement. `desired` is the wanted state as just read;
    /// the result says which command to run and how long to sleep before
    /// the next cycle.
    pub fn step(&mut self, desired: ScreenState) -> (d: Directive)
        requires
            old(self).wf(),
        ensures
            final(self).wf(),
            *final(self) == old(self).next(desired),
            d == old(self).directive(desired),
    {
        let owed: u32 = if self.burst_left > 0 {
            self.burst_left
        } else if desired.is_on() && self.old_state.is_off() {
            self.settings.on_burst_count
        } else {
            0
        };
        if owed > 1 {
            self.burst_left = owed - 1;
            Directive {
                command: Some(PowerCommand::ForceOn),
                pause_ms: self.settings.on_burst_spacing_ms as u64,
            }
        } else if owed == 1 {
            self.burst_left = 0;
            self.old_state.set_on();
            Directive {
                command: Some(PowerCommand::ForceOn),
                pause_ms: self.settings.on_burst_spacing_ms as u64 + self.settings.poll_ms as u64,
            }
        } else if desired.is_off() {
            self.old_state.set_from(&desired);
            Directive {
                command: Some(PowerCommand::forcing(desired)),
                pause_ms: self.settings.off_retry_ms as u64,
            }
        } else {
            Directive { command: None, pause_ms: self.settings.poll_ms as u64 }
        }
    }

    /// The enforcer after one cycle for each of `reads`, in order.
    pub open spec fn run(&self, reads: Seq<ScreenState>) -> ScreenStateEnforcer
        decreases reads.len(),
    {
        if reads.len() == 0 {
            *self
        } else {
            self.run(reads.drop_last()).next(reads.last())
        }
    }

    /// What cycle `i` of a run over `reads` asks of the caller.
    pub open spec fn issued(&self, reads: Seq<ScreenState>, i: int) -> Directive {
        self.run(reads.take(i)).directive(reads[i])
    }

    /// The enforcer after `n` cycles that all read lit.
    pub open spec fn after_lit_cycles(&self, n: nat) -> ScreenStateEnforcer {
        let lit = ScreenState { on: true };
        if n == 0 {
            *self
        } else if n < self.owed(lit) {
            ScreenStateEnforcer {
                settings: self.settings,
                old_state: ScreenState { on: false },
                burst_left: (self.owed(lit) - n) as u32,
            }
        } else {
            ScreenStateEnforcer { settings: self.settings, old_state: lit, burst_left: 0 }
        }
    }
}

/// While dark is wanted and no burst is under way, every cycle issues
/// "off" and nothing else happens: after the first such cycle the enforcer
/// no longer changes, however often the action is repeated.
pub proof fn lemma_off_enforcement_idempotent(e: ScreenStateEnforcer, reads: Seq<ScreenState>)
    requires
        e.wf(),
        e.burst_left == 0,
        forall|i: int| 0 <= i < reads.len() ==> !(#[trigger] reads[i])@,
    ensures
        forall|i: int| 0 <= i < reads.len() ==> #[trigger] e.issued(reads, i) == (Directive {
            command: Some(PowerCommand::ForceOff),
            pause_ms: e.settings.off_retry_ms as u64,
        }),
        reads.len() > 0 ==> e.run(reads) == e.next(ScreenState { on: false }),
        e.next(ScreenState { on: false }).next(ScreenState { on: false }) == e.next(ScreenState { on: false }),
    decreases reads.len(),
{
    let dark = ScreenState { on: false };
    if reads.len() > 0 {
        let front = reads.drop_last();
        lemma_off_enforcement_idempotent(e, front);
        assert(reads.last() == dark);
        assert(e.run(reads) == e.run(front).next(dark));
        if front.len() == 0 {
            assert(e.run(front) == e);
        }
        assert forall|i: int| 0 <= i < reads.len() implies #[trigger] e.issued(reads, i) == (Directive {
            command: Some(PowerCommand::ForceOff),
            pause_ms: e.settings.off_retry_ms as u64,
        }) by {
            assert(reads[i] == dark);
            if i < front.len() {
                assert(front.take(i) =~= reads.take(i));
                assert(e.issued(front, i) == e.issued(reads, i));
            } else {
                assert(reads.take(i) =~= front);
            }
        }
    }
}

/// The closed form of a run in which every cycle reads lit.
pub proof fn lemma_lit_run(e: ScreenStateEnforcer, reads: Seq<ScreenState>)
    requires
        e.wf(),
        forall|i: int| 0 <= i < reads.len() ==> (#[trigger] reads[i])@,
    ensures
        e.run(reads) == e.after_lit_cycles(reads.len()),
    decreases reads.len(),
{
    if reads.len() > 0 {
        let front = reads.drop_last();
        lemma_lit_run(e, front);
        assert(reads.last() == ScreenState { on: true });
    }
}

/// When lit is wanted from some cycle on, exactly the commands owed at that
/// point are issued, all of them "on", and then none at all for as long as
/// lit stays wanted. After a change from dark to lit that is a whole burst,
/// which holds at least one command; with the display already lit it is
/// nothing.
pub proof fn lemma_converges_then_idles(e: ScreenStateEnforcer, reads: Seq<ScreenState>)
    requires
        e.wf(),
        forall|i: int| 0 <= i < reads.len() ==> (#[trigger] reads[i])@,
    ensures
        forall|i: int| 0 <= i < reads.len() ==> (#[trigger] e.issued(reads, i)).command == (if i < e.owed(
            ScreenState { on: true },
        ) {
            Some(PowerCommand::ForceOn)
        } else {
            None
        }),
        e.phase_of() == Phase::ConvergingOff ==> e.owed(ScreenState { on: true }) == e.settings.on_burst_count,
        e.settings.on_burst_count >= 1,
        reads.len() >= e.owed(ScreenState { on: true }) ==> e.run(reads).phase_of() == Phase::Stable,
{
    let lit = ScreenState { on: true };
    lemma_lit_run(e, reads);
    assert forall|i: int| 0 <= i < reads.len() implies (#[trigger] e.issued(reads, i)).command == (if i
        < e.owed(lit) {
        Some(PowerCommand::ForceOn)
    } else {
        None
    }) by {
        let front = reads.take(i);
        assert forall|j: int| 0 <= j < front.len() implies (#[trigger] front[j])@ by {
            assert(front[j] == reads[j]);
        }
        lemma_lit_run(e, front);
        assert(reads[i] == lit);
    }
}

} // verus!
