//! One tick of the control loop: sample, compute, map, decide.
//!
//! The caller owns the clock and the files. Each tick it reads the sensors
//! and the actuator, hands their texts to `Fan::tick`, carries out the action
//! that comes back, and waits.

use crate::actuator::{is_actuation_of, last_duty_of, read_pwm, write_pwm, Actuation};
use crate::config::Config;
use crate::control::{ControlOutput, Pid, PidModel};
use crate::decimal::ParseError;
use crate::duty::{duty_for_output, duty_of, Pwm, RAW_PER_DUTY};
use crate::policy::{decide, decision, is_running};
use crate::sensor::{all_readable, get_thermal, is_thermal_of, SensorError, Temp};
use vstd::prelude::*;

verus! {

/// Milli-degrees in a degree: the controller measures in milli-degrees.
pub const MILLI_PER_DEGREE: i64 = 1000;

/// The largest duty that the controller asks for.
pub const MAX_DUTY: Pwm = 100;

/// The bound on the controller's output and on each of its terms:
/// `MAX_DUTY` in units of controller output.
pub const OUTPUT_LIMIT: i64 = MAX_DUTY as i64 * RAW_PER_DUTY;

/// Why a tick came to nothing.
#[derive(Clone, Copy, Debug, PartialEq, Eq, Structural)]
pub enum TickError {
    /// No temperature could be taken.
    Sensor(SensorError),
    /// The actuator's text is no duty.
    Actuator(ParseError),
}

/// What a tick found and what is to be done.
#[derive(Debug, PartialEq, Eq)]
pub struct Tick {
    /// The hottest temperature reported.
    pub temp: Temp,
    /// What the controller made of it.
    pub control: ControlOutput,
    /// The duty that the controller's output maps to.
    pub new_pwm: Pwm,
    /// Whether the fan was turning when the tick began.
    pub running: bool,
    /// What to do with the new duty; `None` where it is not worth commanding.
    pub action: Option<Actuation>,
}

/// The state of the loop, as mathematics sees it.
pub struct FanModel {
    /// The state of the controller.
    pub pid: PidModel,
    /// A fan at rest is started only by a duty above this one.
    pub minimum_pwm: Pwm,
    /// Whether nothing is to be persisted.
    pub dry_run: bool,
}

/// The measurement that the controller is given for a temperature.
pub open spec fn measurement_of(temp: Temp) -> int {
    temp * MILLI_PER_DEGREE
}

/// `tick` is what a loop in state `fan` makes of the temperature `temp` and
/// of `last_pwm`, the duty that the actuator was last given.
pub open spec fn is_step_of(fan: FanModel, temp: Temp, last_pwm: Pwm, tick: Tick) -> bool {
    let m = measurement_of(temp);
    &&& tick.temp == temp
    &&& tick.running == (last_pwm != 0)
    &&& tick.control.p == fan.pid.p_term(m)
    &&& tick.control.i == fan.pid.i_term(m)
    &&& tick.control.d == fan.pid.d_term(m)
    &&& tick.control.output == fan.pid.output(m)
    &&& tick.new_pwm == duty_of(-fan.pid.output(m))
    &&& match decision(tick.new_pwm, tick.running, fan.minimum_pwm) {
        Some(pwm) => tick.action matches Some(a) && is_actuation_of(fan.dry_run, pwm, a),
        None => tick.action is None,
    }
}

/// `r` is the outcome of a tick that starts in state `fan` and is given the
/// texts of the sensors and of the actuator: the first text that cannot be
/// read, the sensors before the actuator, or else what the loop makes of the
/// hottest temperature and the last duty.
pub open spec fn is_tick_of(
    fan: FanModel,
    sensors: Seq<Seq<char>>,
    actuator: Seq<char>,
    r: Result<Tick, TickError>,
) -> bool {
    match r {
        Err(TickError::Sensor(e)) => is_thermal_of(sensors, Err(e)),
        Err(TickError::Actuator(e)) => all_readable(sensors) && last_duty_of(actuator) == Err::<
            int,
            ParseError,
        >(e),
        Ok(tick) => {
            &&& is_thermal_of(sensors, Ok(tick.temp))
            &&& last_duty_of(actuator) matches Ok(last) && is_step_of(
                fan,
                tick.temp,
                last as Pwm,
                tick,
            )
        },
    }
}

/// The state in which a tick with outcome `r` leaves the loop: the
/// controller has taken the measurement where the tick went through, and
/// nothing has changed where it did not.
pub open spec fn state_after(fan: FanModel, r: Result<Tick, TickError>) -> FanModel {
    match r {
        Ok(tick) => FanModel { pid: fan.pid.next(measurement_of(tick.temp)), ..fan },
        Err(_) => fan,
    }
}

/// The control loop between two waits.
#[derive(Debug)]
pub struct Fan {
    pid: Pid,
    minimum_pwm: Pwm,
    dry_run: bool,
}

impl View for Fan {
    type V = FanModel;

    closed spec fn view(&self) -> FanModel {
        FanModel { pid: self.pid@, minimum_pwm: self.minimum_pwm, dry_run: self.dry_run }
    }
}

impl Fan {
    #[verifier::type_invariant]
    spec fn inv(self) -> bool {
        self.pid@.output_limit == OUTPUT_LIMIT
    }

    /// A loop at rest: gains, target, threshold and mode as `config` has
    /// them, nothing integrated and no measurement seen.
    pub fn new(config: &Config) -> (fan: Fan)
        ensures
            fan@ == (FanModel {
                pid: PidModel {
                    setpoint: config.target_temp as int,
                    output_limit: OUTPUT_LIMIT as int,
                    kp: config.p_value as int,
                    ki: config.i_value as int,
                    kd: config.d_value as int,
                    p_limit: OUTPUT_LIMIT as int,
                    i_limit: OUTPUT_LIMIT as int,
                    d_limit: OUTPUT_LIMIT as int,
                    integral_term: 0,
                    prev_measurement: None,
                },
                minimum_pwm: config.minimum_pwm,
                dry_run: config.dry_run,
            }),
    {
        let pid = Pid::new(config.target_temp, OUTPUT_LIMIT).p(config.p_value, OUTPUT_LIMIT).i(
            config.i_value,
            OUTPUT_LIMIT,
        ).d(config.d_value, OUTPUT_LIMIT);
        Fan { pid, minimum_pwm: config.minimum_pwm, dry_run: config.dry_run }
    }

    /// Takes the loop one tick further on a temperature and on the duty that
    /// the actuator was last given: the controller computes its output, the
    /// output is mapped to a duty, and the duty is commanded or not.
    pub fn step(&mut self, temp: Temp, last_pwm: Pwm) -> (tick: Tick)
        ensures
            is_step_of(old(self)@, temp, last_pwm, tick),
            final(self)@ == (FanModel {
                pid: old(self)@.pid.next(measurement_of(temp)),
                ..old(self)@
            }),
            tick.new_pwm <= MAX_DUTY,
            old(self)@.dry_run ==> !(tick.action matches Some(Actuation::Persist(_))),
    {
        proof {
            use_type_invariant(&*self);
        }
        let running = is_running(last_pwm);
        let control = self.pid.next_control_output(temp as i64 * MILLI_PER_DEGREE);
        let new_pwm = duty_for_output(control.output);
        let action = match decide(new_pwm, running, self.minimum_pwm) {
            Some(pwm) => Some(write_pwm(self.dry_run, pwm)),
            None => None,
        };
        Tick { temp, control, new_pwm, running, action }
    }

    /// Runs one tick on the texts just read from the sensors and from the
    /// actuator.
    ///
    /// The sensors are looked at first, then the actuator; the controller
    /// takes the measurement only if both could be read.
    pub fn tick(&mut self, sensor_texts: &Vec<String>, actuator_text: &str) -> (r: Result<
        Tick,
        TickError,
    >)
        ensures
            is_tick_of(old(self)@, sensor_texts.deep_view(), actuator_text@, r),
            final(self)@ == state_after(old(self)@, r),
            r matches Ok(tick) ==> tick.new_pwm <= MAX_DUTY,
            r matches Ok(tick) ==> old(self)@.dry_run ==> !(tick.action matches Some(
                Actuation::Persist(_),
            )),
    {
        let temp = match get_thermal(sensor_texts) {
            Ok(temp) => temp,
            Err(e) => {
                return Err(TickError::Sensor(e));
            },
        };
        let last_pwm = match read_pwm(actuator_text) {
            Ok(pwm) => pwm,
            Err(e) => {
                return Err(TickError::Actuator(e));
            },
        };
        Ok(self.step(temp, last_pwm))
    }
}

} // verus!
