//! Chord-driven display power control.
//!
//! A three-key chord toggles the wanted display state; an enforcement state
//! machine then decides, cycle by cycle, which display-power command to issue
//! so that the display converges to the wanted state and stays there.

pub mod screen;
pub mod keys;
pub mod settings;
pub mod chord;
pub mod enforcer;
