//! The actuator: a text interface that takes a duty and gives back the one
//! it was last given.

use crate::decimal::{
    decimal_digits, format_u16, lemma_digits_read_back, parse_decimal, parse_u16, read_u16, trim,
    ParseError,
};
use crate::duty::Pwm;
use vstd::prelude::*;

verus! {

/// What is to be done with a duty that was decided on.
#[derive(Debug, PartialEq, Eq)]
pub enum Actuation {
    /// Persist this text to the actuator, durably, before going on.
    Persist(String),
    /// Persist nothing; only report the duty that would have been written.
    Simulate(Pwm),
}

/// The duty that the actuator's text reports: an unsigned integer that a
/// `Pwm` holds. A number beyond that is no duty, and an error like any other
/// text that cannot be read.
pub open spec fn last_duty_of(text: Seq<char>) -> Result<int, ParseError> {
    read_u16(text)
}

/// What `write_pwm` answers for `pwm`.
pub open spec fn is_actuation_of(dry_run: bool, pwm: Pwm, w: Actuation) -> bool {
    if dry_run {
        w == Actuation::Simulate(pwm)
    } else {
        w matches Actuation::Persist(text) && text@ == decimal_digits(pwm as nat)
    }
}

/// The duty read is the number that the text holds, never a part of it: where
/// the text reads as the unsigned integer `v`, in however wide a type, the
/// duty is `v`, and so zero exactly where `v` is zero; where a `Pwm` cannot
/// hold `v`, there is no duty but an error.
pub proof fn lemma_duty_is_the_number_read(text: Seq<char>, v: int, hi: int)
    requires
        parse_decimal(trim(text), false, 0, hi) == Ok::<int, ParseError>(v),
    ensures
        v <= Pwm::MAX ==> last_duty_of(text) == Ok::<int, ParseError>(v),
        v > Pwm::MAX ==> last_duty_of(text) == Err::<int, ParseError>(ParseError::PosOverflow),
        last_duty_of(text) matches Ok(duty) ==> (duty != 0 <==> v != 0),
{
}

/// The text that is persisted for a duty reads back as that duty.
pub proof fn lemma_written_duty_reads_back(pwm: Pwm)
    ensures
        last_duty_of(decimal_digits(pwm as nat)) == Ok::<int, ParseError>(pwm as int),
{
    lemma_digits_read_back(pwm as nat, false, 0, Pwm::MAX as int);
}

/// Reads the duty that the actuator was last given from its text. The duty
/// is zero only where the number read is zero.
pub fn read_pwm(text: &str) -> (r: Result<Pwm, ParseError>)
    ensures
        last_duty_of(text@) == match r {
            Ok(pwm) => Ok::<int, ParseError>(pwm as int),
            Err(e) => Err(e),
        },
{
    parse_u16(text)
}

/// Prepares the write of `pwm`: its decimal text to persist, or, in a dry
/// run, nothing to persist at all.
pub fn write_pwm(dry_run: bool, pwm: Pwm) -> (w: Actuation)
    ensures
        is_actuation_of(dry_run, pwm, w),
        dry_run ==> !(w is Persist),
{
    if dry_run {
        Actuation::Simulate(pwm)
    } else {
        Actuation::Persist(format_u16(pwm))
    }
}

} // verus!
