//! The values that the controller is started with and never changes.

use crate::duty::Pwm;
use vstd::prelude::*;

verus! {

/// The configuration of a run.
///
/// Gains are held in thousandths and the target temperature in
/// milli-degrees, so that `1.0` is `1000` and `40.0` degrees are `40000`.
#[derive(Debug, PartialEq, Eq)]
pub struct Config {
    /// Compute and report, but persist nothing to the actuator.
    pub dry_run: bool,
    /// Report what is read and written.
    pub verbose: bool,
    /// Proportional gain, in thousandths.
    pub p_value: i64,
    /// Integral gain, in thousandths.
    pub i_value: i64,
    /// Derivative gain, in thousandths.
    pub d_value: i64,
    /// The temperature to hold, in milli-degrees.
    pub target_temp: i64,
    /// Where the first sensor is read.
    pub cpu_temperature_ctl: String,
    /// Where the second sensor is read.
    pub gpu_temperature_ctl: String,
    /// Where the actuator is read and written.
    pub fan_pwm_ctl: String,
    /// Seconds to wait between two ticks.
    pub poll_interval_secs: u64,
    /// A fan at rest is started only by a duty above this one.
    pub minimum_pwm: Pwm,
}

impl Default for Config {
    /// The configuration of a run that is told nothing.
    fn default() -> (config: Config)
        ensures
            !config.dry_run,
            !config.verbose,
            config.p_value == 1000,
            config.i_value == 700,
            config.d_value == 4000,
            config.target_temp == 40_000,
            config.cpu_temperature_ctl@ == "/sys/class/thermal/thermal_zone0/temp"@,
            config.gpu_temperature_ctl@ == "/sys/class/thermal/thermal_zone1/temp"@,
            config.fan_pwm_ctl@ == "/sys/class/hwmon/hwmon0/pwm1"@,
            config.poll_interval_secs == 10,
            config.minimum_pwm == 50,
    {
        Config {
            dry_run: false,
            verbose: false,
            p_value: 1000,
            i_value: 700,
            d_value: 4000,
            target_temp: 40_000,
            cpu_temperature_ctl: String::from_str("/sys/class/thermal/thermal_zone0/temp"),
            gpu_temperature_ctl: String::from_str("/sys/class/thermal/thermal_zone1/temp"),
            fan_pwm_ctl: String::from_str("/sys/class/hwmon/hwmon0/pwm1"),
            poll_interval_secs: 10,
            minimum_pwm: 50,
        }
    }
}

} // verus!
