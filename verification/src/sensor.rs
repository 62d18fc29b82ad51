//! Temperature sensors: each reports milli-degrees as text; the hottest counts.

use crate::decimal::{parse_i32, read_i32, ParseError};
use vstd::prelude::*;

verus! {

/// A temperature in whole degrees.
pub type Temp = i32;

/// Why no temperature could be taken.
#[derive(Clone, Copy, Debug, PartialEq, Eq, Structural)]
pub enum SensorError {
    /// There is no sensor to ask.
    NoSources,
    /// The sensor at `source` reported something that is no `i32`.
    Unreadable { source: usize, error: ParseError },
}

/// Whole degrees of `milli` milli-degrees: the fraction is dropped, towards
/// zero, never rounded.
pub open spec fn whole_degrees(milli: int) -> int {
    if milli >= 0 {
        milli / 1000
    } else {
        -((-milli) / 1000)
    }
}

/// The temperature that a sensor's text reports.
pub open spec fn reading_of(text: Seq<char>) -> Result<int, ParseError> {
    match read_i32(text) {
        Ok(milli) => Ok(whole_degrees(milli)),
        Err(e) => Err(e),
    }
}

/// `t` is one of `readings` and none of them is higher.
pub open spec fn is_hottest(readings: Seq<Temp>, t: Temp) -> bool {
    &&& readings.contains(t)
    &&& forall|i: int| 0 <= i < readings.len() ==> readings[i] <= t
}

/// The temperatures that `texts` report, where each of them is readable.
pub open spec fn readings_of(texts: Seq<Seq<char>>) -> Seq<Temp> {
    Seq::new(texts.len(), |i: int| reading_of(texts[i]).unwrap() as Temp)
}

/// There is at least one text, and each of `texts` reports a temperature.
pub open spec fn all_readable(texts: Seq<Seq<char>>) -> bool {
    &&& texts.len() > 0
    &&& forall|j: int| 0 <= j < texts.len() ==> reading_of(#[trigger] texts[j]) is Ok
}

/// `r` is what the sensors' `texts`, read in order, come to: the hottest
/// temperature where every text is readable, else the first that is not.
pub open spec fn is_thermal_of(texts: Seq<Seq<char>>, r: Result<Temp, SensorError>) -> bool {
    match r {
        Ok(t) => all_readable(texts) && is_hottest(readings_of(texts), t),
        Err(SensorError::NoSources) => texts.len() == 0,
        Err(SensorError::Unreadable { source, error }) => {
            &&& source < texts.len()
            &&& reading_of(texts[source as int]) == Err::<int, ParseError>(error)
            &&& forall|j: int| 0 <= j < source ==> reading_of(#[trigger] texts[j]) is Ok
        },
    }
}

/// There is at most one hottest temperature.
pub proof fn lemma_hottest_is_unique(readings: Seq<Temp>, a: Temp, b: Temp)
    requires
        is_hottest(readings, a),
        is_hottest(readings, b),
    ensures
        a == b,
{
}

/// Of two readings the hottest is the greater, whichever comes first.
pub proof fn lemma_hottest_of_two(a: Temp, b: Temp)
    ensures
        is_hottest(seq![a, b], if a >= b { a } else { b }),
        is_hottest(seq![b, a], if a >= b { a } else { b }),
{
}

/// The hottest temperature does not depend on the order of the readings:
/// what is hottest of `first` is hottest of every rearrangement of it.
pub proof fn lemma_hottest_ignores_order(first: Seq<Temp>, second: Seq<Temp>, t: Temp)
    requires
        first.to_multiset() == second.to_multiset(),
        is_hottest(first, t),
    ensures
        is_hottest(second, t),
{
    first.to_multiset_ensures();
    second.to_multiset_ensures();
    assert(second.contains(t)) by {
        assert(second.to_multiset().count(t) > 0);
    }
    assert forall|i: int| 0 <= i < second.len() implies second[i] <= t by {
        assert(first.to_multiset().count(second[i]) > 0);
    }
}

/// The texts of the sensors come to one outcome and no other.
pub proof fn lemma_thermal_is_unique(
    texts: Seq<Seq<char>>,
    a: Result<Temp, SensorError>,
    b: Result<Temp, SensorError>,
)
    requires
        is_thermal_of(texts, a),
        is_thermal_of(texts, b),
    ensures
        a == b,
{
}

/// Converts milli-degrees to whole degrees.
pub fn to_degrees(milli: i32) -> (t: Temp)
    ensures
        t == whole_degrees(milli as int),
        milli >= 0 ==> t * 1000 <= milli < t * 1000 + 1000,
        milli <= 0 ==> t * 1000 - 1000 < milli <= t * 1000,
{
    milli / 1000
}

/// Reads one sensor's text: white space dropped, a signed integer of
/// milli-degrees, converted to whole degrees.
pub fn read_temperature(text: &str) -> (r: Result<Temp, ParseError>)
    ensures
        reading_of(text@) == match r {
            Ok(t) => Ok::<int, ParseError>(t as int),
            Err(e) => Err(e),
        },
{
    match parse_i32(text) {
        Ok(milli) => Ok(to_degrees(milli)),
        Err(e) => Err(e),
    }
}

/// The highest of `readings`, if there is any.
pub fn aggregate(readings: &Vec<Temp>) -> (r: Option<Temp>)
    ensures
        r is None <==> readings.len() == 0,
        r matches Some(t) ==> is_hottest(readings@, t),
{
    if readings.len() == 0 {
        return None;
    }
    let mut max: Temp = readings[0];
    let mut i: usize = 1;
    assert(readings@.take(1)[0] == max);
    while i < readings.len()
        invariant
            1 <= i <= readings.len(),
            is_hottest(readings@.take(i as int), max),
        decreases readings.len() - i,
    {
        assert(readings@.take(i + 1)[i as int] == readings[i as int]);
        if readings[i] > max {
            max = readings[i];
        }
        i += 1;
    }
    assert(readings@.take(i as int) == readings@);
    Some(max)
}

/// Reads every sensor in order and returns the hottest temperature.
///
/// The first text that cannot be read ends the attempt and is named in the
/// error; later texts are not looked at.
pub fn get_thermal(texts: &Vec<String>) -> (r: Result<Temp, SensorError>)
    ensures
        is_thermal_of(texts.deep_view(), r),
{
    let mut readings: Vec<Temp> = Vec::new();
    let mut i: usize = 0;
    while i < texts.len()
        invariant
            i <= texts.len(),
            readings.len() == i,
            forall|j: int|
                0 <= j < i ==> reading_of(#[trigger] texts.deep_view()[j]) == Ok::<int, ParseError>(
                    readings[j] as int,
                ),
        decreases texts.len() - i,
    {
        match read_temperature(texts[i].as_str()) {
            Ok(t) => {
                readings.push(t);
            },
            Err(error) => {
                return Err(SensorError::Unreadable { source: i, error });
            },
        }
        i += 1;
    }
    assert(texts.len() > 0 ==> readings@ == readings_of(texts.deep_view()));
    match aggregate(&readings) {
        Some(t) => Ok(t),
        None => Err(SensorError::NoSources),
    }
}

} // verus!
