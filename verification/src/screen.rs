//! The wanted display state and the commands that force it.

use vstd::prelude::*;

verus! {

/// Whether the display is wanted lit (`on`) or dark.
#[derive(Clone, Copy, Debug, PartialEq, Eq, Structural)]
pub struct ScreenState {
    pub on: bool,
}

impl View for ScreenState {
    type V = bool;

    open spec fn view(&self) -> bool {
        self.on
    }
}

impl ScreenState {
    /// A fresh state: the display is wanted lit.
    pub fn new() -> (s: Self)
        ensures
            s@ == true,
    {
        ScreenState { on: true }
    }

    pub fn is_off(&self) -> (r: bool)
        ensures
            r == !self@,
    {
        !self.on
    }

    pub fn is_on(&self) -> (r: bool)
        ensures
            r == self@,
    {
        self.on
    }

    pub fn set_on(&mut self)
        ensures
            final(self)@ == true,
    {
        self.on = true;
    }

    pub fn set_off(&mut self)
        ensures
            final(self)@ == false,
    {
        self.on = false;
    }

    /// Takes over the value of `other`.
    pub fn set_from(&mut self, other: &Self)
        ensures
            *final(self) == *other,
    {
        self.on = other.on;
    }

    /// Flips the state.
    pub fn toggle(&mut self)
        ensures
            final(self)@ == !old(self)@,
    {
        let current: bool = self.on;
        self.on = !current;
    }
}

/// The state reached from `on` after `n` toggles.
pub open spec fn toggled_times(on: bool, n: nat) -> bool {
    if n % 2 == 0 {
        on
    } else {
        !on
    }
}

/// One of the two display-power commands.
#[derive(Clone, Copy, Debug, PartialEq, Eq, Structural)]
pub enum PowerCommand {
    ForceOff,
    ForceOn,
}

impl PowerCommand {
    /// The command that forces the display into `state`.
    pub fn forcing(state: ScreenState) -> (c: Self)
        ensures
            c == (if state@ { PowerCommand::ForceOn } else { PowerCommand::ForceOff }),
    {
        if state.is_on() {
            PowerCommand::ForceOn
        } else {
            PowerCommand::ForceOff
        }
    }

    /// The executable that switches the display.
    pub fn program(&self) -> (p: &'static str)
        ensures
            p@ == "xset"@,
    {
        "xset"
    }

    /// The last argument of the invocation: the power level to force.
    pub fn level(&self) -> (l: &'static str)
        ensures
            l@ == (match *self {
                PowerCommand::ForceOff => "off"@,
                PowerCommand::ForceOn => "on"@,
            }),
    {
        match self {
            PowerCommand::ForceOff => "off",
            PowerCommand::ForceOn => "on",
        }
    }

    /// The full argument list handed to `program`.
    pub fn arguments(&self) -> (args: Vec<&'static str>)
        ensures
            args@.len() == 3,
            args@[0]@ == "dpms"@,
            args@[1]@ == "force"@,
            args@[2]@ == (match *self {
                PowerCommand::ForceOff => "off"@,
                PowerCommand::ForceOn => "on"@,
            }),
    {
        let mut args: Vec<&'static str> = Vec::new();
        args.push("dpms");
        args.push("force");
        args.push(self.level());
        args
    }
}

} // verus!
