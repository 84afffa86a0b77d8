//! The timing constants of detection and enforcement.

use vstd::prelude::*;

verus! {

/// All tunables, in milliseconds but for the burst count.
#[derive(Clone, Copy, Debug, PartialEq, Eq, Structural)]
pub struct Settings {
    /// Least time between two accepted toggles; an activation is accepted
    /// only when strictly more than this has passed since the last one.
    pub debounce_ms: u64,
    /// Pause of the chord detector after each sample.
    pub sample_ms: u32,
    /// Pause after each "off" command while the display is wanted dark.
    pub off_retry_ms: u32,
    /// Pause of the enforcer at the end of a cycle that found the display
    /// wanted lit.
    pub poll_ms: u32,
    /// Number of "on" commands issued on a change from dark to lit.
    pub on_burst_count: u32,
    /// Pause after each "on" command of a burst.
    pub on_burst_spacing_ms: u32,
}

impl Settings {
    /// A burst holds at least one command: a change to lit is never silent.
    pub open spec fn wf(&self) -> bool {
        self.on_burst_count >= 1
    }

    pub fn is_valid(&self) -> (ok: bool)
        ensures
            ok == self.wf(),
    {
        self.on_burst_count >= 1
    }

    /// The stock values: 500 ms debounce, a sample every 10 ms, "off" every
    /// 50 ms, and a burst of 100 "on" commands 100 ms apart.
    pub open spec fn standard_values() -> Settings {
        Settings {
            debounce_ms: 500,
            sample_ms: 10,
            off_retry_ms: 50,
            poll_ms: 50,
            on_burst_count: 100,
            on_burst_spacing_ms: 100,
        }
    }

    /// The stock values.
    pub fn standard() -> (s: Self)
        ensures
            s == Self::standard_values(),
            s.wf(),
    {
        Settings {
            debounce_ms: 500,
            sample_ms: 10,
            off_retry_ms: 50,
            poll_ms: 50,
            on_burst_count: 100,
            on_burst_spacing_ms: 100,
        }
    }

    /// The defensible variant: one second of debounce and a single "on"
    /// command per change to lit.
    pub fn single_shot() -> (s: Self)
        ensures
            s == (Settings {
                debounce_ms: 1000,
                sample_ms: 10,
                off_retry_ms: 100,
                poll_ms: 50,
                on_burst_count: 1,
                on_burst_spacing_ms: 100,
            }),
            s.wf(),
    {
        Settings {
            debounce_ms: 1000,
            sample_ms: 10,
            off_retry_ms: 100,
            poll_ms: 50,
            on_burst_count: 1,
            on_burst_spacing_ms: 100,
        }
    }
}

} // verus!
