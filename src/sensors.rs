//! Which hardware-monitor files hold the AMD GPU's readings.
use vstd::prelude::*;

use crate::text::{chars_of, has_prefix, same_text};

verus! {

/// A reading that the hardware monitor offers.
#[derive(Debug, Clone, Copy, PartialEq, Eq, Structural)]
pub enum HwmonMetric {
    MinRpm,
    MaxRpm,
    CurrentRpm,
    EdgeTemp,
    JunctionTemp,
    MemoryTemp,
}

/// Whether `s` begins with `p`.
pub open spec fn begins_with(s: Seq<char>, p: Seq<char>) -> bool {
    p.len() <= s.len() && s.take(p.len() as int) == p
}

/// Whether `s` ends with `p`.
pub open spec fn ends_with(s: Seq<char>, p: Seq<char>) -> bool {
    p.len() <= s.len() && s.skip(s.len() - p.len()) == p
}

/// Whether `s` begins with `p`.
pub fn text_begins_with(s: &str, p: &str) -> (r: bool)
    ensures
        r == begins_with(s@, p@),
{
    let t = chars_of(s);
    let q = chars_of(p);
    let r = has_prefix(&t, 0, t.len(), &q);
    proof {
        if q@.len() <= t@.len() {
            assert(t@.subrange(0, q@.len() as int) =~= t@.take(q@.len() as int));
        }
    }
    r
}

/// Whether `s` ends with `p`.
pub fn text_ends_with(s: &str, p: &str) -> (r: bool)
    ensures
        r == ends_with(s@, p@),
{
    let t = chars_of(s);
    let q = chars_of(p);
    if q.len() > t.len() {
        return false;
    }
    let start = t.len() - q.len();
    let r = has_prefix(&t, start, t.len(), &q);
    assert(t@.subrange(start as int, start + q@.len()) =~= t@.skip(start as int));
    r
}

/// The reading that a file of the hardware monitor holds, by its name: the
/// `fan*` files give the RPM bounds (`_min`, `_max`) and the current RPM
/// (`_input`); `temp1_input`, `temp2_input` and `temp3_input` give the edge,
/// junction and memory temperatures.
pub open spec fn metric_of(name: Seq<char>) -> Option<HwmonMetric> {
    if begins_with(name, "fan"@) {
        if ends_with(name, "_min"@) {
            Some(HwmonMetric::MinRpm)
        } else if ends_with(name, "_max"@) {
            Some(HwmonMetric::MaxRpm)
        } else if ends_with(name, "_input"@) {
            Some(HwmonMetric::CurrentRpm)
        } else {
            None
        }
    } else if name == "temp1_input"@ {
        Some(HwmonMetric::EdgeTemp)
    } else if name == "temp2_input"@ {
        Some(HwmonMetric::JunctionTemp)
    } else if name == "temp3_input"@ {
        Some(HwmonMetric::MemoryTemp)
    } else {
        None
    }
}

/// Classifies a file of the hardware monitor by its name.
pub fn hwmon_metric(file_name: &str) -> (r: Option<HwmonMetric>)
    ensures
        r == metric_of(file_name@),
{
    if text_begins_with(file_name, "fan") {
        if text_ends_with(file_name, "_min") {
            Some(HwmonMetric::MinRpm)
        } else if text_ends_with(file_name, "_max") {
            Some(HwmonMetric::MaxRpm)
        } else if text_ends_with(file_name, "_input") {
            Some(HwmonMetric::CurrentRpm)
        } else {
            None
        }
    } else if same_text(file_name, "temp1_input") {
        Some(HwmonMetric::EdgeTemp)
    } else if same_text(file_name, "temp2_input") {
        Some(HwmonMetric::JunctionTemp)
    } else if same_text(file_name, "temp3_input") {
        Some(HwmonMetric::MemoryTemp)
    } else {
        None
    }
}

} // verus!
