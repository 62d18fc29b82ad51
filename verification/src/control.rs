//! A proportional-integral-derivative controller in exact integer arithmetic.
//!
//! The controller knows nothing of units: a measurement goes in, an output
//! comes out, and what either means is the caller's business. One call is one
//! tick, and the tick is the unit of time: the integral term sums over ticks
//! and the derivative term is the change per tick. The integral term and the
//! previous measurement are carried from tick to tick.

use vstd::prelude::*;

verus! {

/// `value` held within `-limit ..= limit`.
pub open spec fn clamp(limit: int, value: int) -> int {
    if value > limit {
        limit
    } else if value < -limit {
        -limit
    } else {
        value
    }
}

/// The state of a controller, as mathematics sees it.
pub struct PidModel {
    /// The measurement to strive for.
    pub setpoint: int,
    /// Bound on the magnitude of the output.
    pub output_limit: int,
    /// Proportional gain.
    pub kp: int,
    /// Integral gain.
    pub ki: int,
    /// Derivative gain.
    pub kd: int,
    /// Bound on the magnitude of the proportional term.
    pub p_limit: int,
    /// Bound on the magnitude of the integral term.
    pub i_limit: int,
    /// Bound on the magnitude of the derivative term.
    pub d_limit: int,
    /// The integral term as the last tick left it.
    pub integral_term: int,
    /// The measurement of the last tick, if there was one.
    pub prev_measurement: Option<int>,
}

impl PidModel {
    /// No limit is negative.
    pub open spec fn wf(self) -> bool {
        &&& 0 <= self.output_limit
        &&& 0 <= self.p_limit
        &&& 0 <= self.i_limit
        &&& 0 <= self.d_limit
    }

    /// How far `measurement` lies below the setpoint.
    pub open spec fn error(self, measurement: int) -> int {
        self.setpoint - measurement
    }

    /// The error of the last tick, if there was one.
    pub open spec fn prev_error(self) -> Option<int> {
        match self.prev_measurement {
            Some(prev) => Some(self.error(prev)),
            None => None,
        }
    }

    /// The proportional term: gain times error, within its limit.
    pub open spec fn p_term(self, measurement: int) -> int {
        clamp(self.p_limit, self.kp * self.error(measurement))
    }

    /// The integral term: the term so far plus gain times error, within its
    /// limit. What leaves the limit is lost, so the term cannot wind up.
    pub open spec fn i_term(self, measurement: int) -> int {
        clamp(self.i_limit, self.integral_term + self.ki * self.error(measurement))
    }

    /// The derivative term: gain times the change of the error since the last
    /// tick, within its limit; zero on the first tick.
    ///
    /// Time is counted in ticks, so the change over one tick is the rate of
    /// change and nothing divides it: the term is per tick, not per second,
    /// and a gain tuned for one polling interval does not carry over to
    /// another.
    pub open spec fn d_term(self, measurement: int) -> int {
        match self.prev_error() {
            Some(prev) => clamp(self.d_limit, self.kd * (self.error(measurement) - prev)),
            None => 0,
        }
    }

    /// The output: the sum of the three terms, within the output limit.
    pub open spec fn output(self, measurement: int) -> int {
        clamp(
            self.output_limit,
            self.p_term(measurement) + self.i_term(measurement) + self.d_term(measurement),
        )
    }

    /// The state after a tick that saw `measurement`.
    pub open spec fn next(self, measurement: int) -> PidModel {
        PidModel {
            integral_term: self.i_term(measurement),
            prev_measurement: Some(measurement),
            ..self
        }
    }

    /// The state after one tick for each of `measurements`, in order.
    pub open spec fn after(self, measurements: Seq<int>) -> PidModel
        decreases measurements.len(),
    {
        if measurements.len() == 0 {
            self
        } else {
            self.after(measurements.drop_last()).next(measurements.last())
        }
    }

    /// `other` has the setpoint, the gains and the limits of `self`.
    pub open spec fn same_settings(self, other: PidModel) -> bool {
        &&& other.setpoint == self.setpoint
        &&& other.output_limit == self.output_limit
        &&& other.kp == self.kp
        &&& other.ki == self.ki
        &&& other.kd == self.kd
        &&& other.p_limit == self.p_limit
        &&& other.i_limit == self.i_limit
        &&& other.d_limit == self.d_limit
    }
}

/// The controller is a function of its state and the measurement: from
/// equal states, equal measurements yield equal outputs, term by term, and
/// lead to equal states.
pub proof fn lemma_control_is_deterministic(a: PidModel, b: PidModel, measurement: int)
    requires
        a == b,
    ensures
        a.p_term(measurement) == b.p_term(measurement),
        a.i_term(measurement) == b.i_term(measurement),
        a.d_term(measurement) == b.d_term(measurement),
        a.output(measurement) == b.output(measurement),
        a.next(measurement) == b.next(measurement),
{
}

/// A measurement at the setpoint yields no proportional term, whatever the
/// gain.
pub proof fn lemma_no_error_no_proportional_term(pid: PidModel)
    requires
        pid.wf(),
    ensures
        pid.p_term(pid.setpoint) == 0,
{
}

/// Each term stays within its limit and the output within the output limit.
pub proof fn lemma_terms_within_limits(pid: PidModel, measurement: int)
    requires
        pid.wf(),
    ensures
        -pid.p_limit <= pid.p_term(measurement) <= pid.p_limit,
        -pid.i_limit <= pid.i_term(measurement) <= pid.i_limit,
        -pid.d_limit <= pid.d_term(measurement) <= pid.d_limit,
        -pid.output_limit <= pid.output(measurement) <= pid.output_limit,
{
}

/// A tick changes the integral term and the previous measurement and nothing
/// else; the integral term it leaves is within its limit.
pub proof fn lemma_tick_keeps_settings(pid: PidModel, measurement: int)
    requires
        pid.wf(),
    ensures
        pid.same_settings(pid.next(measurement)),
        pid.next(measurement).wf(),
        pid.next(measurement).prev_measurement == Some(measurement),
        -pid.i_limit <= pid.next(measurement).integral_term <= pid.i_limit,
{
}

/// However many ticks have passed, the controller has the settings it set
/// out with, and from the first tick on its integral term is within its
/// limit and it remembers the last measurement.
pub proof fn lemma_run_keeps_settings(pid: PidModel, measurements: Seq<int>)
    requires
        pid.wf(),
    ensures
        pid.same_settings(pid.after(measurements)),
        pid.after(measurements).wf(),
        measurements.len() > 0 ==> {
            &&& pid.after(measurements).prev_measurement == Some(measurements.last())
            &&& -pid.i_limit <= pid.after(measurements).integral_term <= pid.i_limit
        },
    decreases measurements.len(),
{
    if measurements.len() > 0 {
        lemma_run_keeps_settings(pid, measurements.drop_last());
        lemma_tick_keeps_settings(pid.after(measurements.drop_last()), measurements.last());
    }
}

/// What one tick of the controller yields.
#[derive(Clone, Copy, Debug, PartialEq, Eq, Structural)]
pub struct ControlOutput {
    /// Contribution of the proportional term.
    pub p: i64,
    /// Contribution of the integral term.
    pub i: i64,
    /// Contribution of the derivative term.
    pub d: i64,
    /// The output of the controller.
    pub output: i64,
}

/// The controller.
#[derive(Clone, Copy, Debug)]
pub struct Pid {
    setpoint: i64,
    output_limit: i64,
    kp: i64,
    ki: i64,
    kd: i64,
    p_limit: i64,
    i_limit: i64,
    d_limit: i64,
    integral_term: i64,
    prev_measurement: Option<i64>,
}

impl View for Pid {
    type V = PidModel;

    closed spec fn view(&self) -> PidModel {
        PidModel {
            setpoint: self.setpoint as int,
            output_limit: self.output_limit as int,
            kp: self.kp as int,
            ki: self.ki as int,
            kd: self.kd as int,
            p_limit: self.p_limit as int,
            i_limit: self.i_limit as int,
            d_limit: self.d_limit as int,
            integral_term: self.integral_term as int,
            prev_measurement: match self.prev_measurement {
                Some(prev) => Some(prev as int),
                None => None,
            },
        }
    }
}

/// The product of a difference of two `i64` and an `i64` fits an `i128`, with
/// room left for one more `i64`.
proof fn lemma_product_fits(a: int, b: int)
    requires
        -0xFFFF_FFFF_FFFF_FFFF <= a <= 0xFFFF_FFFF_FFFF_FFFF,
        -0x8000_0000_0000_0000 <= b <= 0x8000_0000_0000_0000,
    ensures
        -0x7FFF_FFFF_FFFF_FFFF_8000_0000_0000_0000 <= a * b,
        a * b <= 0x7FFF_FFFF_FFFF_FFFF_8000_0000_0000_0000,
        b * a == a * b,
{
    assert(-0x7FFF_FFFF_FFFF_FFFF_8000_0000_0000_0000 <= a * b
        <= 0x7FFF_FFFF_FFFF_FFFF_8000_0000_0000_0000 && b * a == a * b) by (nonlinear_arith)
        requires
            -0xFFFF_FFFF_FFFF_FFFF <= a <= 0xFFFF_FFFF_FFFF_FFFF,
            -0x8000_0000_0000_0000 <= b <= 0x8000_0000_0000_0000,
    ;
}

fn apply_limit(limit: i64, value: i128) -> (r: i64)
    requires
        limit >= 0,
    ensures
        r == clamp(limit as int, value as int),
    no_unwind
{
    if value > limit as i128 {
        limit
    } else if value < -(limit as i128) {
        -limit
    } else {
        value as i64
    }
}

impl Pid {
    #[verifier::type_invariant]
    spec fn inv(self) -> bool {
        self@.wf()
    }

    /// A controller for `setpoint` whose output stays within
    /// `-output_limit ..= output_limit`. Its three gains and their limits are
    /// zero until `p`, `i` and `d` set them.
    pub fn new(setpoint: i64, output_limit: i64) -> (pid: Pid)
        requires
            output_limit >= 0,
        ensures
            pid@ == (PidModel {
                setpoint: setpoint as int,
                output_limit: output_limit as int,
                kp: 0,
                ki: 0,
                kd: 0,
                p_limit: 0,
                i_limit: 0,
                d_limit: 0,
                integral_term: 0,
                prev_measurement: None,
            }),
    {
        Pid {
            setpoint,
            output_limit,
            kp: 0,
            ki: 0,
            kd: 0,
            p_limit: 0,
            i_limit: 0,
            d_limit: 0,
            integral_term: 0,
            prev_measurement: None,
        }
    }

    /// Sets the proportional gain and the limit of its term.
    pub fn p(self, gain: i64, limit: i64) -> (pid: Pid)
        requires
            limit >= 0,
        ensures
            pid@ == (PidModel { kp: gain as int, p_limit: limit as int, ..self@ }),
    {
        proof {
            use_type_invariant(&self);
        }
        Pid { kp: gain, p_limit: limit, ..self }
    }

    /// Sets the integral gain and the limit of its term.
    pub fn i(self, gain: i64, limit: i64) -> (pid: Pid)
        requires
            limit >= 0,
        ensures
            pid@ == (PidModel { ki: gain as int, i_limit: limit as int, ..self@ }),
    {
        proof {
            use_type_invariant(&self);
        }
        Pid { ki: gain, i_limit: limit, ..self }
    }

    /// Sets the derivative gain and the limit of its term.
    pub fn d(self, gain: i64, limit: i64) -> (pid: Pid)
        requires
            limit >= 0,
        ensures
            pid@ == (PidModel { kd: gain as int, d_limit: limit as int, ..self@ }),
    {
        proof {
            use_type_invariant(&self);
        }
        Pid { kd: gain, d_limit: limit, ..self }
    }

    /// Takes a measurement and computes the next output, carrying the
    /// integral term and the measurement over to the next tick.
    pub fn next_control_output(&mut self, measurement: i64) -> (out: ControlOutput)
        ensures
            final(self)@ == old(self)@.next(measurement as int),
            final(self)@.wf(),
            out.p == old(self)@.p_term(measurement as int),
            out.i == old(self)@.i_term(measurement as int),
            out.d == old(self)@.d_term(measurement as int),
            out.output == old(self)@.output(measurement as int),
        no_unwind
    {
        proof {
            use_type_invariant(&*self);
        }
        let error: i128 = self.setpoint as i128 - measurement as i128;
        proof {
            lemma_product_fits(error as int, self.kp as int);
            lemma_product_fits(error as int, self.ki as int);
        }
        let p = apply_limit(self.p_limit, error * self.kp as i128);
        let i = apply_limit(self.i_limit, self.integral_term as i128 + error * self.ki as i128);
        let d = match self.prev_measurement {
            Some(prev) => {
                let change: i128 = prev as i128 - measurement as i128;
                proof {
                    lemma_product_fits(change as int, self.kd as int);
                }
                apply_limit(self.d_limit, change * self.kd as i128)
            },
            None => 0,
        };
        let output = apply_limit(self.output_limit, p as i128 + i as i128 + d as i128);
        self.integral_term = i;
        self.prev_measurement = Some(measurement);
        ControlOutput { p, i, d, output }
    }
}

} // verus!
