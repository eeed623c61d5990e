//! Monitors and their metadata: the two monitor variants, the parsed sensor
//! metadata with its on-the-wire rendering, the lock-guarded value cell of a
//! listening monitor, and the decision logic of a listening worker.

use vstd::prelude::*;
use vstd::rwlock::{RwLock, RwLockPredicate};
use std::sync::Arc;
use crate::config::{MonitorDefinition, MonitorKind, ValueKind};
use crate::text::{
    spec_split, spec_splitn3, spec_join, split_char, splitn3_char, join_with,
};

verus! {

/// A sensor construction failure, isolated to the one sensor whose value
/// specification is malformed.
#[derive(Debug, Clone)]
pub struct ConfigError {
    pub sensor: String,
}

impl ConfigError {
    /// A readable description of the failure, naming the sensor.
    pub fn message(&self) -> (r: String)
        ensures
            r@ == "invalid value specification for sensor "@ + self.sensor@,
    {
        String::from_str("invalid value specification for sensor ").concat(self.sensor.as_str())
    }
}

/// Renders a value to the exact text the wire protocol carries for it.
pub trait AsOutput {
    spec fn spec_output(&self) -> Seq<char>;

    fn as_output(&self) -> (r: String)
        ensures
            r@ == self.spec_output(),
    ;
}

/// The unit code of one column of a multi-value sensor.
#[derive(Debug, PartialEq, Eq, Structural, Clone, Copy)]
pub enum MultiValueUnit {
    Integer,
    LocalizedInteger,
    Floating,
    Text,
    LocalizedText,
}

impl MultiValueUnit {
    /// The single-letter code the protocol uses for this unit.
    pub open spec fn spec_code(self) -> char {
        match self {
            MultiValueUnit::Integer => 'd',
            MultiValueUnit::LocalizedInteger => 'D',
            MultiValueUnit::Floating => 'f',
            MultiValueUnit::Text => 's',
            MultiValueUnit::LocalizedText => 'S',
        }
    }

    /// The unit a single-letter code stands for, if any.
    pub open spec fn spec_of_code(c: char) -> Option<MultiValueUnit> {
        if c == 'd' {
            Some(MultiValueUnit::Integer)
        } else if c == 'D' {
            Some(MultiValueUnit::LocalizedInteger)
        } else if c == 'f' {
            Some(MultiValueUnit::Floating)
        } else if c == 's' {
            Some(MultiValueUnit::Text)
        } else if c == 'S' {
            Some(MultiValueUnit::LocalizedText)
        } else {
            None
        }
    }

    /// Parses a unit code letter; any letter outside `d D f s S` is a
    /// configuration error.
    pub fn from_code(c: char) -> (r: Option<MultiValueUnit>)
        ensures
            r == Self::spec_of_code(c),
    {
        if c == 'd' {
            Some(MultiValueUnit::Integer)
        } else if c == 'D' {
            Some(MultiValueUnit::LocalizedInteger)
        } else if c == 'f' {
            Some(MultiValueUnit::Floating)
        } else if c == 's' {
            Some(MultiValueUnit::Text)
        } else if c == 'S' {
            Some(MultiValueUnit::LocalizedText)
        } else {
            None
        }
    }
}

impl AsOutput for MultiValueUnit {
    open spec fn spec_output(&self) -> Seq<char> {
        seq![self.spec_code()]
    }

    fn as_output(&self) -> (r: String) {
        proof {
            reveal_strlit("d");
            reveal_strlit("D");
            reveal_strlit("f");
            reveal_strlit("s");
            reveal_strlit("S");
        }
        let r = match self {
            MultiValueUnit::Integer => String::from_str("d"),
            MultiValueUnit::LocalizedInteger => String::from_str("D"),
            MultiValueUnit::Floating => String::from_str("f"),
            MultiValueUnit::Text => String::from_str("s"),
            MultiValueUnit::LocalizedText => String::from_str("S"),
        };
        proof {
            assert(r@ =~= seq![self.spec_code()]);
        }
        r
    }
}

/// Display metadata of a single-value sensor: description, range, and an
/// optional unit. A min and max of `0` ask the client to auto-range.
#[derive(Debug, Clone)]
pub struct SingleValueSensorMeta {
    pub description: String,
    pub min: String,
    pub max: String,
    pub unit: Option<String>,
}

impl AsOutput for SingleValueSensorMeta {
    /// One line of four tab-separated fields: description, min, max, unit
    /// (empty when absent).
    open spec fn spec_output(&self) -> Seq<char> {
        self.description@ + seq!['\t'] + self.min@ + seq!['\t'] + self.max@ + seq!['\t'] + (
        match self.unit {
            Some(u) => u@,
            None => Seq::<char>::empty(),
        })
    }

    fn as_output(&self) -> (r: String) {
        proof {
            reveal_strlit("\t");
        }
        let mut out = self.description.clone();
        out.append("\t");
        out.append(self.min.as_str());
        out.append("\t");
        out.append(self.max.as_str());
        out.append("\t");
        match &self.unit {
            Some(u) => {
                out.append(u.as_str());
            },
            None => {},
        }
        proof {
            assert(out@ =~= self.spec_output());
        }
        out
    }
}

/// Display metadata of a multi-value sensor: an ordered table of column
/// names and unit codes.
#[derive(Debug, Clone)]
pub struct MultiValueSensorMeta {
    pub fields: Vec<(String, MultiValueUnit)>,
}

impl MultiValueSensorMeta {
    pub open spec fn spec_names(&self) -> Seq<Seq<char>> {
        self.fields@.map_values(|p: (String, MultiValueUnit)| p.0@)
    }

    pub open spec fn spec_codes(&self) -> Seq<Seq<char>> {
        self.fields@.map_values(|p: (String, MultiValueUnit)| seq![p.1.spec_code()])
    }
}

impl AsOutput for MultiValueSensorMeta {
    /// Two lines: the tab-joined column names, then the tab-joined unit
    /// codes.
    open spec fn spec_output(&self) -> Seq<char> {
        spec_join(self.spec_names(), seq!['\t']) + seq!['\n'] + spec_join(
            self.spec_codes(),
            seq!['\t'],
        )
    }

    fn as_output(&self) -> (r: String) {
        proof {
            reveal_strlit("\t");
            reveal_strlit("\n");
            assert("\t"@ =~= seq!['\t']);
            assert("\n"@ =~= seq!['\n']);
        }
        let mut headers: Vec<String> = Vec::new();
        let mut codes: Vec<String> = Vec::new();
        let mut i: usize = 0;
        while i < self.fields.len()
            invariant
                i <= self.fields.len(),
                headers@.len() == i,
                codes@.len() == i,
                forall|j: int| 0 <= j < i ==> (#[trigger] headers@[j])@ == self.spec_names()[j],
                forall|j: int| 0 <= j < i ==> (#[trigger] codes@[j])@ == self.spec_codes()[j],
            decreases self.fields.len() - i,
        {
            let p = &self.fields[i];
            headers.push(p.0.clone());
            codes.push(p.1.as_output());
            proof {
                assert(self.spec_names()[i as int] == self.fields@[i as int].0@);
                assert(self.spec_codes()[i as int] == seq![self.fields@[i as int].1.spec_code()]);
            }
            i = i + 1;
        }
        proof {
            assert(headers.deep_view() =~= self.spec_names());
            assert(codes.deep_view() =~= self.spec_codes());
        }
        let mut out = join_with(&headers, "\t");
        out.append("\n");
        let second = join_with(&codes, "\t");
        out.append(second.as_str());
        proof {
            assert(out@ =~= self.spec_output());
        }
        out
    }
}

/// Parsed display metadata of a sensor: one value with a range, or a column
/// table. Parsed once at monitor construction, read-only afterwards.
#[derive(Debug, Clone)]
pub enum SensorMeta {
    Single(SingleValueSensorMeta),
    Multi(MultiValueSensorMeta),
}

impl AsOutput for SensorMeta {
    open spec fn spec_output(&self) -> Seq<char> {
        match self {
            SensorMeta::Single(m) => m.spec_output(),
            SensorMeta::Multi(m) => m.spec_output(),
        }
    }

    fn as_output(&self) -> (r: String) {
        match self {
            SensorMeta::Single(m) => m.as_output(),
            SensorMeta::Multi(m) => m.as_output(),
        }
    }
}

/// The whitespace-separated tokens of a single-value specification: min,
/// max, and an optional unit (which keeps any further spaces).
pub open spec fn spec_single_tokens(value_spec: Seq<char>) -> Seq<Seq<char>> {
    spec_splitn3(value_spec, ' ')
}

/// A single-value specification is well formed when it has at least two
/// tokens.
pub open spec fn spec_single_ok(value_spec: Seq<char>) -> bool {
    spec_single_tokens(value_spec).len() >= 2
}

pub open spec fn single_meta_matches(
    m: SingleValueSensorMeta,
    description: Seq<char>,
    value_spec: Seq<char>,
) -> bool {
    let toks = spec_single_tokens(value_spec);
    &&& m.description@ == description
    &&& m.min@ == toks[0]
    &&& m.max@ == toks[1]
    &&& if toks.len() >= 3 {
        m.unit matches Some(u) && u@ == toks[2]
    } else {
        m.unit is None
    }
}

/// One tab-separated entry of a multi-value specification is well formed
/// when it has at least four characters and ends in a known unit code.
pub open spec fn spec_entry_ok(e: Seq<char>) -> bool {
    e.len() >= 4 && MultiValueUnit::spec_of_code(e.last()) is Some
}

pub open spec fn spec_multi_ok(value_spec: Seq<char>) -> bool {
    let entries = spec_split(value_spec, '\t');
    forall|i: int| 0 <= i < entries.len() ==> spec_entry_ok(#[trigger] entries[i])
}

pub open spec fn multi_meta_matches(m: MultiValueSensorMeta, value_spec: Seq<char>) -> bool {
    let entries = spec_split(value_spec, '\t');
    &&& m.fields@.len() == entries.len()
    &&& forall|i: int|
        0 <= i < entries.len() ==> (#[trigger] m.fields@[i]).0@ == entries[i].take(
            entries[i].len() - 2,
        ) && Some(m.fields@[i].1) == MultiValueUnit::spec_of_code(entries[i].last())
}

/// Whether a definition's value specification parses for its value kind.
pub open spec fn spec_meta_ok(def: MonitorDefinition) -> bool {
    match def.value_kind {
        ValueKind::Single => spec_single_ok(def.value_spec@),
        ValueKind::Multi => spec_multi_ok(def.value_spec@),
    }
}

/// Whether `m` is exactly the metadata that `def`'s value specification
/// describes.
pub open spec fn meta_matches(m: SensorMeta, def: MonitorDefinition) -> bool {
    match def.value_kind {
        ValueKind::Single => m matches SensorMeta::Single(sm) && single_meta_matches(
            sm,
            def.description@,
            def.value_spec@,
        ),
        ValueKind::Multi => m matches SensorMeta::Multi(mm) && multi_meta_matches(
            mm,
            def.value_spec@,
        ),
    }
}

/// Parses a definition's raw value specification into sensor metadata. A
/// malformed specification fails only this sensor, naming it in the error.
pub fn parse_value_meta(definition: &MonitorDefinition) -> (r: Result<SensorMeta, ConfigError>)
    ensures
        r is Ok <==> spec_meta_ok(*definition),
        r matches Ok(m) ==> meta_matches(m, *definition),
        r matches Err(e) ==> e.sensor@ == definition.name@,
{
    match definition.value_kind {
        ValueKind::Single => {
            proof {
                reveal_strlit(" ");
                assert(" "@ =~= seq![' ']);
            }
            let toks = splitn3_char(definition.value_spec.as_str(), ' ', " ");
            if toks.len() < 2 {
                return Err(ConfigError { sensor: definition.name.clone() });
            }
            let unit = if toks.len() >= 3 {
                Some(toks[2].clone())
            } else {
                None
            };
            Ok(
                SensorMeta::Single(
                    SingleValueSensorMeta {
                        description: definition.description.clone(),
                        min: toks[0].clone(),
                        max: toks[1].clone(),
                        unit,
                    },
                ),
            )
        },
        ValueKind::Multi => {
            let entries = split_char(definition.value_spec.as_str(), '\t');
            let mut fields: Vec<(String, MultiValueUnit)> = Vec::new();
            let mut i: usize = 0;
            while i < entries.len()
                invariant
                    i <= entries.len(),
                    definition.value_kind == ValueKind::Multi,
                    entries.deep_view() == spec_split(definition.value_spec@, '\t'),
                    fields@.len() == i,
                    forall|j: int| 0 <= j < i ==> spec_entry_ok(#[trigger] entries.deep_view()[j]),
                    forall|j: int|
                        0 <= j < i ==> (#[trigger] fields@[j]).0@ == entries.deep_view()[j].take(
                            entries.deep_view()[j].len() - 2,
                        ) && Some(fields@[j].1) == MultiValueUnit::spec_of_code(
                            entries.deep_view()[j].last(),
                        ),
                decreases entries.len() - i,
            {
                let e = &entries[i];
                let n = e.unicode_len();
                proof {
                    assert(e@ == entries.deep_view()[i as int]);
                }
                if n < 4 {
                    proof {
                        assert(!spec_entry_ok(spec_split(definition.value_spec@, '\t')[i as int]));
                    }
                    return Err(ConfigError { sensor: definition.name.clone() });
                }
                let unit = match MultiValueUnit::from_code(e.get_char(n - 1)) {
                    Some(u) => u,
                    None => {
                        proof {
                            assert(!spec_entry_ok(
                                spec_split(definition.value_spec@, '\t')[i as int],
                            ));
                        }
                        return Err(ConfigError { sensor: definition.name.clone() });
                    },
                };
                let name = String::from_str(e.substring_char(0, n - 2));
                fields.push((name, unit));
                i = i + 1;
            }
            proof {
                let ghost sentries = spec_split(definition.value_spec@, '\t');
                assert forall|j: int| 0 <= j < sentries.len() implies spec_entry_ok(
                    #[trigger] sentries[j],
                ) by {
                    assert(spec_entry_ok(entries.deep_view()[j]));
                }
                assert forall|j: int|
                    0 <= j < sentries.len() implies (#[trigger] fields@[j]).0@ == sentries[j].take(
                    sentries[j].len() - 2,
                ) && Some(fields@[j].1) == MultiValueUnit::spec_of_code(sentries[j].last()) by {
                    assert(fields@[j].0@ == entries.deep_view()[j].take(
                        entries.deep_view()[j].len() - 2,
                    ));
                }
            }
            Ok(SensorMeta::Multi(MultiValueSensorMeta { fields }))
        },
    }
}

/// The invariant of a listening monitor's shared cell: any complete line
/// may be stored.
pub struct AnyLine;

impl RwLockPredicate<String> for AnyLine {
    open spec fn inv(self, v: String) -> bool {
        true
    }
}

/// The lock-guarded cell holding a listening monitor's current value.
/// Exactly one background worker writes it; arbitrarily many protocol
/// threads read it. The reader/writer lock guarantees that a reader observes
/// the value before or after any single write, never a torn one.
#[derive(Clone)]
pub struct ValueCell {
    lock: Arc<RwLock<String, AnyLine>>,
}

impl ValueCell {
    /// A fresh cell holding the empty string, a listening monitor's value
    /// before its first line arrives.
    pub fn new() -> ValueCell {
        ValueCell { lock: Arc::new(RwLock::new(String::new(), Ghost(AnyLine))) }
    }

    /// Atomically replaces the stored line. Which value a later read sees
    /// depends on how concurrent writes interleave, so no more is promised.
    pub fn store(&self, value: String) {
        let (_prev, handle) = self.lock.acquire_write();
        handle.release_write(value);
    }

    /// Returns a copy of the stored line: the most recently completed write
    /// wins, and the copy is whole even while a writer runs.
    pub fn load(&self) -> String {
        let handle = self.lock.acquire_read();
        let value = handle.borrow().clone();
        handle.release_read();
        value
    }
}

/// A sensor whose command is run anew, synchronously, on every value query.
/// It holds no cached value and never starts a background worker.
pub struct PollingMonitor {
    pub name: String,
    pub defined_command: String,
    pub meta: SensorMeta,
}

/// A sensor whose command runs continuously in the background; each line it
/// emits becomes the current value in the shared cell.
pub struct ListeningMonitor {
    pub name: String,
    pub defined_command: String,
    pub current_value: ValueCell,
    pub meta: SensorMeta,
}

impl ListeningMonitor {
    /// A copy of the shared cell's contents; never blocks on the
    /// subprocess.
    pub fn get_value(&self) -> String {
        self.current_value.load()
    }
}

/// A monitor of either kind, as a closed tagged variant.
pub enum Monitor {
    Polling(PollingMonitor),
    Listening(ListeningMonitor),
}

impl Monitor {
    pub open spec fn spec_name(&self) -> Seq<char> {
        match self {
            Monitor::Polling(m) => m.name@,
            Monitor::Listening(m) => m.name@,
        }
    }

    pub open spec fn spec_command(&self) -> Seq<char> {
        match self {
            Monitor::Polling(m) => m.defined_command@,
            Monitor::Listening(m) => m.defined_command@,
        }
    }

    pub open spec fn spec_kind(&self) -> MonitorKind {
        match self {
            Monitor::Polling(_) => MonitorKind::Polling,
            Monitor::Listening(_) => MonitorKind::Listening,
        }
    }

    pub open spec fn spec_meta(&self) -> SensorMeta {
        match self {
            Monitor::Polling(m) => m.meta,
            Monitor::Listening(m) => m.meta,
        }
    }

    pub fn name(&self) -> (r: &str)
        ensures
            r@ == self.spec_name(),
    {
        match self {
            Monitor::Polling(m) => m.name.as_str(),
            Monitor::Listening(m) => m.name.as_str(),
        }
    }

    pub fn defined_command(&self) -> (r: &str)
        ensures
            r@ == self.spec_command(),
    {
        match self {
            Monitor::Polling(m) => m.defined_command.as_str(),
            Monitor::Listening(m) => m.defined_command.as_str(),
        }
    }

    pub fn meta(&self) -> (r: &SensorMeta)
        ensures
            *r == self.spec_meta(),
    {
        match self {
            Monitor::Polling(m) => &m.meta,
            Monitor::Listening(m) => &m.meta,
        }
    }
}

/// Whether monitor `m` is exactly what definition `def` describes.
pub open spec fn monitor_matches(m: Monitor, def: MonitorDefinition) -> bool {
    &&& m.spec_name() == def.name@
    &&& m.spec_command() == def.command@
    &&& m.spec_kind() == def.kind
    &&& meta_matches(m.spec_meta(), def)
}

/// Builds the monitor a definition describes: polling, or listening with a
/// fresh value cell. A malformed value specification fails only this
/// sensor.
pub fn create(definition: &MonitorDefinition) -> (r: Result<Monitor, ConfigError>)
    ensures
        r is Ok <==> spec_meta_ok(*definition),
        r matches Ok(m) ==> monitor_matches(m, *definition),
        r matches Err(e) ==> e.sensor@ == definition.name@,
{
    let meta = match parse_value_meta(definition) {
        Ok(m) => m,
        Err(e) => {
            return Err(e);
        },
    };
    if definition.kind == MonitorKind::Listening {
        Ok(
            Monitor::Listening(
                ListeningMonitor {
                    name: definition.name.clone(),
                    defined_command: definition.command.clone(),
                    current_value: ValueCell::new(),
                    meta,
                },
            ),
        )
    } else {
        Ok(
            Monitor::Polling(
                PollingMonitor {
                    name: definition.name.clone(),
                    defined_command: definition.command.clone(),
                    meta,
                },
            ),
        )
    }
}

/// One blocking read of a listening worker, as the worker sees it: end of
/// the subprocess's output, or a line read into the buffer. A failed read
/// hands over the buffer contents as well, which the worker stores like a
/// line.
pub enum WorkerEvent {
    Eof,
    Line(String),
}

/// What a listening worker does after one read: stop, or atomically store
/// the line and then either keep reading or stop.
#[derive(Debug, PartialEq)]
pub enum WorkerDirective {
    Stop,
    StoreAndContinue(String),
    StoreAndStop(String),
}

/// The decision a listening worker takes after one blocking read, given
/// whether the process-wide cancellation signal is still alive. End of
/// stream stops the worker. A line is always stored; the cancellation
/// signal is observed only between reads, after the store, so a worker
/// blocked on a read that never returns cannot be cancelled promptly.
pub fn worker_step(event: WorkerEvent, cancel_alive: bool) -> (r: WorkerDirective)
    ensures
        r == match event {
            WorkerEvent::Eof => WorkerDirective::Stop,
            WorkerEvent::Line(s) => if cancel_alive {
                WorkerDirective::StoreAndContinue(s)
            } else {
                WorkerDirective::StoreAndStop(s)
            },
        },
{
    match event {
        WorkerEvent::Eof => WorkerDirective::Stop,
        WorkerEvent::Line(s) => if cancel_alive {
            WorkerDirective::StoreAndContinue(s)
        } else {
            WorkerDirective::StoreAndStop(s)
        },
    }
}

/// Splits a monitor's command string on spaces into the program to launch
/// and its argument list.
pub fn slice_command_spec(cmd_spec: &str) -> (r: (String, Vec<String>))
    ensures
        r.0@ == spec_split(cmd_spec@, ' ')[0],
        r.1.deep_view() == spec_split(cmd_spec@, ' ').drop_first(),
{
    let mut parts = split_char(cmd_spec, ' ');
    let prog = parts.remove(0);
    proof {
        assert(parts.deep_view() =~= spec_split(cmd_spec@, ' ').drop_first());
    }
    (prog, parts)
}

} // verus!
