//! A closed-loop fan controller.
//!
//! The controller keeps a cooled device near a target temperature. Once per
//! tick it takes the hottest of the temperatures that the sensors report,
//! feeds it to a proportional-integral-derivative controller, maps the
//! controller's output to a pulse-width-modulation duty, and decides whether
//! the duty is worth commanding to the fan.
//!
//! The library computes and decides; it touches no file and no clock. Its
//! caller reads the sensors and the actuator, hands over what it read, carries
//! out the action that comes back, and waits for the next tick.
//!
//! - [`sensor`]: sensor texts to whole degrees, and the hottest of them.
//! - [`control`]: the controller and its state.
//! - [`duty`]: controller output to duty.
//! - [`policy`]: whether a duty is commanded.
//! - [`actuator`]: the duty last commanded, and the text to command one.
//! - [`fan`]: one tick of the loop, from texts read to action to take.
//! - [`config`]: the values of a run and their defaults.
//! - [`decimal`]: decimal integers as text.
//!
//! # Units
//!
//! All arithmetic is exact integer arithmetic. Temperatures come from the
//! sensors in milli-degrees and are cut down to whole degrees. The controller
//! measures in milli-degrees and takes its gains in thousandths, so one unit
//! of its output is a millionth of a duty unit.

pub mod actuator;
pub mod config;
pub mod control;
pub mod decimal;
pub mod duty;
pub mod fan;
pub mod policy;
pub mod sensor;
