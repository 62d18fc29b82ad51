//! Mapping of the controller's output onto the duty range of the actuator.
//!
//! The controller answers a temperature above the setpoint with a negative
//! output, and the fan must then turn faster: the sign is inverted first. The
//! demand that results is rounded up to whole duty units, since a fan driven
//! too little is worse than one driven a little too much, and floored at
//! zero, since the fan cannot run backwards.

use vstd::prelude::*;

verus! {

/// A duty value, in the actuator's units.
pub type Pwm = u16;

/// How many units of controller output make one unit of duty.
pub const RAW_PER_DUTY: i64 = 1_000_000;

/// The duty that stands for a demand of `x` whole units: nothing below zero
/// and nothing above what a `Pwm` holds.
pub open spec fn pwm_of(x: int) -> int {
    if x < 0 {
        0
    } else if x > Pwm::MAX as int {
        Pwm::MAX as int
    } else {
        x
    }
}

/// `x` units of controller output in whole units of duty, rounded up.
pub open spec fn ceiling(x: int) -> int {
    -((-x) / (RAW_PER_DUTY as int))
}

/// The duty for a demand of `x` units of controller output.
pub open spec fn duty_of(x: int) -> int {
    pwm_of(ceiling(x))
}

/// `ceiling(x)` is the least whole number of duty units that is no less than
/// `x`.
pub proof fn lemma_ceiling_is_least(x: int)
    ensures
        (ceiling(x) - 1) * RAW_PER_DUTY < x <= ceiling(x) * RAW_PER_DUTY,
{
}

/// Floors a demand in whole duty units at zero and caps it at the largest
/// duty.
pub fn to_pwm(x: i64) -> (pwm: Pwm)
    ensures
        pwm == pwm_of(x as int),
{
    if x < 0 {
        0
    } else if x > Pwm::MAX as i64 {
        Pwm::MAX
    } else {
        x as Pwm
    }
}

/// Maps a demand, in units of controller output, to a duty: rounded up to
/// whole units, floored at zero, capped at the largest duty.
pub fn duty_for_demand(x: i64) -> (pwm: Pwm)
    ensures
        pwm == duty_of(x as int),
        x < 0 ==> pwm == 0,
        x >= 0 ==> pwm == if ceiling(x as int) <= Pwm::MAX {
            ceiling(x as int)
        } else {
            Pwm::MAX as int
        },
        0 < x <= Pwm::MAX * RAW_PER_DUTY ==> (pwm - 1) * RAW_PER_DUTY < x <= pwm * RAW_PER_DUTY,
{
    let whole: i64 = if x > 0 {
        (x - 1) / RAW_PER_DUTY + 1
    } else {
        x / RAW_PER_DUTY
    };
    to_pwm(whole)
}

/// Maps the controller's output to a duty: the sign inverted, then as
/// `duty_for_demand`.
pub fn duty_for_output(output: i64) -> (pwm: Pwm)
    ensures
        pwm == duty_of(-(output as int)),
{
    if output >= 0 {
        0
    } else if output == i64::MIN {
        Pwm::MAX
    } else {
        duty_for_demand(-output)
    }
}

} // verus!
