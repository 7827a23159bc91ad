//! Picking the processor temperature out of the machine's sensor list.

use vstd::prelude::*;
use crate::text::{contains_text, has_part};

verus! {

/// A temperature sensor as the operating system lists it.
pub struct Sensor {
    pub label: String,
    /// Reading in millidegrees Celsius.
    pub milli_c: u64,
}

/// Whether an upper-case sensor label names a processor sensor.
pub open spec fn cpu_label(upper: Seq<char>) -> bool {
    has_part(upper, "CPU"@) || has_part(upper, "PACKAGE"@) || has_part(upper, "CORE"@) || has_part(
        upper,
        "TCTL"@,
    )
}

/// The upper-case form of a label, as std's Unicode case mapping gives it.
pub uninterp spec fn upper_of(s: Seq<char>) -> Seq<char>;

/// Relies on `str::to_uppercase`: its result is a function of the text alone.
#[verifier::external_body]
fn to_upper(s: &str) -> (r: String)
    ensures
        r@ == upper_of(s@),
{
    s.to_uppercase()
}

/// The hottest reading among the processor sensors, zero where there is none.
pub open spec fn hottest(sensors: Seq<Sensor>) -> nat
    decreases sensors.len(),
{
    if sensors.len() == 0 {
        0
    } else {
        let rest = hottest(sensors.drop_last());
        let s = sensors.last();
        if cpu_label(upper_of(s.label@)) && s.milli_c > rest {
            s.milli_c as nat
        } else {
            rest
        }
    }
}

/// Whether an upper-case sensor label names a processor sensor.
pub fn is_cpu_label(upper: &str) -> (r: bool)
    ensures
        r == cpu_label(upper@),
{
    contains_text(upper, "CPU") || contains_text(upper, "PACKAGE") || contains_text(upper, "CORE")
        || contains_text(upper, "TCTL")
}

/// The processor temperature: the hottest processor sensor, in millidegrees.
pub fn cpu_temperature(sensors: &Vec<Sensor>) -> (r: u64)
    ensures
        r == hottest(sensors@),
{
    let mut best: u64 = 0;
    let mut i: usize = 0;
    assert(sensors@.subrange(0, 0) =~= Seq::<Sensor>::empty());
    while i < sensors.len()
        invariant
            i <= sensors@.len(),
            best == hottest(sensors@.subrange(0, i as int)),
        decreases sensors@.len() - i,
    {
        assert(sensors@.subrange(0, i + 1).drop_last() =~= sensors@.subrange(0, i as int));
        let upper = to_upper(sensors[i].label.as_str());
        if is_cpu_label(upper.as_str()) && sensors[i].milli_c > best {
            best = sensors[i].milli_c;
        }
        i += 1;
    }
    assert(sensors@.subrange(0, sensors@.len() as int) =~= sensors@);
    best
}

} // verus!
