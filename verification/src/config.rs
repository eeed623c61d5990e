//! The typed input the configuration layer hands to the core: sensor
//! definitions, the listening port, and the default polling interval.

use vstd::prelude::*;

verus! {

/// The port the daemon listens on when the configuration names none.
pub const DEFAULT_PORT: u16 = 3112;

/// The default polling interval, in seconds, across sensors.
pub const DEFAULT_UPDATE_INTERVAL: u8 = 2;

/// How a sensor's value is produced: by running its command once per query,
/// or by listening to the line stream of a continuously running command.
#[derive(Debug, PartialEq, Eq, Structural, Clone, Copy)]
pub enum MonitorKind {
    Polling,
    Listening,
}

/// Whether a sensor reports one value with a range and unit, or a table of
/// columns.
#[derive(Debug, PartialEq, Eq, Structural, Clone, Copy)]
pub enum ValueKind {
    Single,
    Multi,
}

/// One sensor definition as produced by the configuration layer. Immutable
/// once read.
#[derive(Debug, Clone)]
pub struct MonitorDefinition {
    pub name: String,
    pub command: String,
    pub kind: MonitorKind,
    pub description: String,
    pub value_kind: ValueKind,
    pub value_spec: String,
}

/// Everything the configuration layer provides: a port, a default update
/// interval, and the ordered sensor definitions.
#[derive(Debug)]
pub struct Config {
    pub port: u16,
    pub update_interval: u8,
    pub monitors: Vec<MonitorDefinition>,
}

/// Whether `a` and `b` are the same letter for letter, treating ASCII upper
/// and lower case letters as equal.
pub open spec fn char_eq_nocase(a: char, b: char) -> bool {
    a == b || (65 <= a as u32 <= 90 && a as u32 + 32 == b as u32) || (65 <= b as u32 <= 90
        && b as u32 + 32 == a as u32)
}

pub open spec fn spec_eq_ignore_ascii_case(a: Seq<char>, b: Seq<char>) -> bool {
    a.len() == b.len() && (forall|i: int| 0 <= i < a.len() ==> char_eq_nocase(a[i], b[i]))
}

fn chars_eq_nocase(a: char, b: char) -> (r: bool)
    ensures
        r == char_eq_nocase(a, b),
{
    let au = a as u32;
    let bu = b as u32;
    a == b || (65 <= au && au <= 90 && au + 32 == bu) || (65 <= bu && bu <= 90 && bu + 32 == au)
}

/// Compares two strings, ignoring ASCII letter case.
pub fn eq_ignore_ascii_case(a: &str, b: &str) -> (r: bool)
    ensures
        r == spec_eq_ignore_ascii_case(a@, b@),
{
    let an = a.unicode_len();
    let bn = b.unicode_len();
    if an != bn {
        return false;
    }
    let mut i: usize = 0;
    while i < an
        invariant
            an == a@.len(),
            an == b@.len(),
            i <= an,
            forall|j: int| 0 <= j < i ==> char_eq_nocase(a@[j], b@[j]),
        decreases an - i,
    {
        if !chars_eq_nocase(a.get_char(i), b.get_char(i)) {
            return false;
        }
        i = i + 1;
    }
    true
}

/// Reads a sensor's kind out of its configuration value: `listening` in any
/// letter case selects a listening monitor, anything else polls.
pub fn get_sensor_kind(cfg_value: &str) -> (r: MonitorKind)
    ensures
        r == (if spec_eq_ignore_ascii_case(cfg_value@, "listening"@) {
            MonitorKind::Listening
        } else {
            MonitorKind::Polling
        }),
{
    if eq_ignore_ascii_case(cfg_value, "listening") {
        MonitorKind::Listening
    } else {
        MonitorKind::Polling
    }
}

/// Reads a sensor's value kind out of its configuration value: `multi` in any
/// letter case selects a multi-value sensor, anything else a single value.
pub fn get_value_kind(cfg_value: &str) -> (r: ValueKind)
    ensures
        r == (if spec_eq_ignore_ascii_case(cfg_value@, "multi"@) {
            ValueKind::Multi
        } else {
            ValueKind::Single
        }),
{
    if eq_ignore_ascii_case(cfg_value, "multi") {
        ValueKind::Multi
    } else {
        ValueKind::Single
    }
}

} // verus!
