//! When a new duty is worth commanding.
//!
//! A fan at rest does not start on a low duty, so a low duty is commanded
//! only while the fan is already turning. Zero is always commanded: the fan
//! must be able to stop.

use crate::duty::Pwm;
use vstd::prelude::*;

verus! {

/// The duty to command, if any, for a new duty, a fan that is running or
/// not, and the least duty that starts it from rest.
pub open spec fn decision(new_pwm: Pwm, running: bool, minimum_pwm: Pwm) -> Option<Pwm> {
    if running || new_pwm > minimum_pwm || new_pwm == 0 {
        Some(new_pwm)
    } else {
        None
    }
}

/// Whether the fan is turning, judged by the duty that was last commanded.
pub fn is_running(last_pwm: Pwm) -> (running: bool)
    ensures
        running == (last_pwm != 0),
{
    last_pwm != 0
}

/// Decides whether `new_pwm` is commanded.
pub fn decide(new_pwm: Pwm, running: bool, minimum_pwm: Pwm) -> (r: Option<Pwm>)
    ensures
        r == decision(new_pwm, running, minimum_pwm),
        running ==> r == Some(new_pwm),
        !running ==> (r == Some(new_pwm) <==> new_pwm > minimum_pwm || new_pwm == 0),
{
    if running || new_pwm > minimum_pwm || new_pwm == 0 {
        Some(new_pwm)
    } else {
        None
    }
}

} // verus!
