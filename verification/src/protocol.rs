//! The wire-protocol engine: the registry of monitors, the per-line command
//! grammar and dispatch, the response framing, and the laws the engine obeys.

use vstd::prelude::*;
use crate::config::{MonitorDefinition, MonitorKind};
use crate::monitor::{
    AsOutput, ConfigError, Monitor, create, monitor_matches, spec_meta_ok,
};
use crate::text::{
    spec_join, spec_starts_with, spec_trim, join_with, starts_with, str_eq, trim,
};

verus! {

/// The literal answer to input that names no command and no monitor.
pub open spec fn unknown_reply() -> Seq<char> {
    seq!['U', 'N', 'K', 'N', 'O', 'W', 'N', ' ', 'C', 'O', 'M', 'M', 'A', 'N', 'D']
}

/// The fixed trailer that ends every response, the greeting included.
pub open spec fn spec_trailer() -> Seq<char> {
    seq!['\n', 'k', 's', 'y', 's', 'g', 'u', 'a', 'r', 'd', 'd', '>', ' ']
}

pub open spec fn quit_cmd() -> Seq<char> {
    seq!['q', 'u', 'i', 't']
}

pub open spec fn test_cmd() -> Seq<char> {
    seq!['t', 'e', 's', 't']
}

pub open spec fn test_prefix() -> Seq<char> {
    seq!['t', 'e', 's', 't', ' ']
}

pub open spec fn monitors_cmd() -> Seq<char> {
    seq!['m', 'o', 'n', 'i', 't', 'o', 'r', 's']
}

/// `quit` in any letter case.
pub open spec fn spec_is_quit(cmd: Seq<char>) -> bool {
    &&& cmd.len() == 4
    &&& (cmd[0] == 'q' || cmd[0] == 'Q')
    &&& (cmd[1] == 'u' || cmd[1] == 'U')
    &&& (cmd[2] == 'i' || cmd[2] == 'I')
    &&& (cmd[3] == 't' || cmd[3] == 'T')
}

/// `test` alone, or `test` followed by a space and a token.
pub open spec fn spec_is_test(cmd: Seq<char>) -> bool {
    cmd == test_cmd() || spec_starts_with(cmd, test_prefix())
}

/// The token of a `test` query: everything after the first space.
pub open spec fn spec_test_token(cmd: Seq<char>) -> Seq<char> {
    cmd.skip(5)
}

/// The built-in protocol command names a `test` query affirms.
pub open spec fn spec_is_protocol_command(t: Seq<char>) -> bool {
    t == test_cmd() || t == quit_cmd() || t == monitors_cmd()
}

/// A monitor name suffixed with `?`: a metadata query.
pub open spec fn spec_is_info(cmd: Seq<char>) -> bool {
    cmd.len() >= 1 && cmd.last() == '?'
}

/// The outcome of one line of client input.
#[derive(Debug, PartialEq)]
pub enum CommandResult {
    /// Text to send back, before framing.
    Response(String),
    /// Terminate the session; no text accompanies it.
    Exit,
    /// A polling monitor's value was asked for: run this command string and
    /// render what it produced with `poll_response`.
    Poll(String),
}

/// How producing a polling monitor's value can fail: the command cannot be
/// launched, or its output is not valid text.
#[derive(Debug, PartialEq, Eq, Structural, Clone, Copy)]
pub enum ValueError {
    SpawnFailure,
    DecodeFailure,
}

/// The error-safe text sent for a polling monitor's value: the captured
/// output as it stands, or the empty string when the spawn or the decode
/// failed — a failed value query never terminates the connection.
pub fn poll_response(outcome: Result<String, ValueError>) -> (r: String)
    ensures
        outcome matches Ok(s) ==> r@ == s@,
        outcome is Err ==> r@ == Seq::<char>::empty(),
{
    match outcome {
        Ok(s) => s,
        Err(_) => String::new(),
    }
}

/// Appends the protocol trailer that marks the end of every response.
pub fn frame_response(text: &str) -> (r: String)
    ensures
        r@ == text@ + spec_trailer(),
{
    proof {
        reveal_strlit("\nksysguardd> ");
        assert("\nksysguardd> "@ =~= spec_trailer());
    }
    let mut out = String::from_str(text);
    out.append("\nksysguardd> ");
    out
}

/// What a connection sends before reading any input: the empty greeting,
/// followed by the trailer.
pub fn greeting() -> (r: String)
    ensures
        r@ == spec_trailer(),
{
    proof {
        reveal_strlit("");
        assert(""@ =~= Seq::<char>::empty());
    }
    let r = frame_response("");
    proof {
        assert(r@ =~= spec_trailer());
    }
    r
}

/// The protocol engine's registry: the monitors, under distinct names,
/// fixed once built. The engine itself is stateless per line.
pub struct Commands {
    pub monitors: Vec<Monitor>,
}

impl Commands {
    /// Registry names are pairwise distinct.
    pub open spec fn wf(&self) -> bool {
        forall|a: int, b: int|
            0 <= a < self.monitors@.len() && 0 <= b < self.monitors@.len() && a != b ==> (
            #[trigger] self.monitors@[a]).spec_name() != (#[trigger] self.monitors@[b]).spec_name()
    }

    /// The monitor names, in registry order.
    pub open spec fn names(&self) -> Seq<Seq<char>> {
        self.monitors@.map_values(|m: Monitor| m.spec_name())
    }

    pub open spec fn has_monitor(&self, name: Seq<char>) -> bool {
        exists|i: int|
            0 <= i < self.monitors@.len() && (#[trigger] self.monitors@[i]).spec_name() == name
    }

    pub open spec fn index_named(&self, name: Seq<char>) -> int {
        choose|i: int|
            0 <= i < self.monitors@.len() && (#[trigger] self.monitors@[i]).spec_name() == name
    }

    /// The registry entry under `name`, when `has_monitor(name)` holds.
    pub open spec fn monitor_named(&self, name: Seq<char>) -> Monitor {
        self.monitors@[self.index_named(name)]
    }

    /// Whether this line ends the session: `quit` in any letter case.
    pub open spec fn spec_is_exit(&self, input: Seq<char>) -> bool {
        spec_is_quit(spec_trim(input))
    }

    /// Whether this line is a bare query for a registered monitor's value.
    pub open spec fn spec_is_value_query(&self, input: Seq<char>) -> bool {
        let cmd = spec_trim(input);
        &&& !spec_is_quit(cmd)
        &&& !spec_is_test(cmd)
        &&& cmd != monitors_cmd()
        &&& !spec_is_info(cmd)
        &&& self.has_monitor(cmd)
    }

    /// A value query against a polling monitor: its command must be run.
    pub open spec fn spec_is_poll(&self, input: Seq<char>) -> bool {
        self.spec_is_value_query(input) && self.monitor_named(spec_trim(input)).spec_kind()
            == MonitorKind::Polling
    }

    /// A value query against a listening monitor: its cell is read.
    pub open spec fn spec_is_cell_read(&self, input: Seq<char>) -> bool {
        self.spec_is_value_query(input) && self.monitor_named(spec_trim(input)).spec_kind()
            == MonitorKind::Listening
    }

    /// The command string a poll must run: the queried monitor's.
    pub open spec fn spec_poll_target(&self, input: Seq<char>) -> Seq<char> {
        self.monitor_named(spec_trim(input)).spec_command()
    }

    /// The exact response text for every line that is neither an exit, nor
    /// a poll, nor a listening-cell read.
    pub open spec fn spec_reply(&self, input: Seq<char>) -> Seq<char> {
        let cmd = spec_trim(input);
        if spec_is_test(cmd) {
            if cmd != test_cmd() && (spec_is_protocol_command(spec_test_token(cmd))
                || self.has_monitor(spec_test_token(cmd))) {
                seq!['1']
            } else {
                seq!['0']
            }
        } else if cmd == monitors_cmd() {
            spec_join(self.names(), seq!['\n'])
        } else if spec_is_info(cmd) {
            if self.has_monitor(cmd.drop_last()) {
                self.monitor_named(cmd.drop_last()).spec_meta().spec_output()
            } else {
                unknown_reply()
            }
        } else {
            unknown_reply()
        }
    }

    /// Finds the registry entry under `name`, if any.
    fn find_monitor(&self, name: &str) -> (r: Option<usize>)
        requires
            self.wf(),
        ensures
            match r {
                Some(i) => i < self.monitors@.len() && self.has_monitor(name@)
                    && self.monitors@[i as int] == self.monitor_named(name@),
                None => !self.has_monitor(name@),
            },
    {
        let mut i: usize = 0;
        while i < self.monitors.len()
            invariant
                self.wf(),
                i <= self.monitors@.len(),
                forall|j: int| 0 <= j < i ==> (#[trigger] self.monitors@[j]).spec_name() != name@,
            decreases self.monitors@.len() - i,
        {
            let m = &self.monitors[i];
            if str_eq(m.name(), name) {
                proof {
                    assert(self.has_monitor(name@));
                    let k = self.index_named(name@);
                    assert(self.monitors@[k].spec_name() == name@);
                    assert(k == i);
                }
                return Some(i);
            }
            i = i + 1;
        }
        None
    }

    /// Parses one line of client input and dispatches it against the
    /// registry. Operates on the trimmed line; stateless from line to line.
    pub fn on_command(&self, input: &str) -> (r: CommandResult)
        requires
            self.wf(),
        ensures
            r is Exit <==> self.spec_is_exit(input@),
            r is Poll <==> self.spec_is_poll(input@),
            r matches CommandResult::Poll(cmd) ==> cmd@ == self.spec_poll_target(input@),
            self.spec_is_cell_read(input@) ==> r is Response,
            !self.spec_is_exit(input@) && !self.spec_is_poll(input@) && !self.spec_is_cell_read(
                input@,
            ) ==> (r matches CommandResult::Response(s) && s@ == self.spec_reply(input@)),
    {
        proof {
            reveal_strlit("test");
            reveal_strlit("test ");
            reveal_strlit("monitors");
            reveal_strlit("quit");
            reveal_strlit("0");
            reveal_strlit("1");
            reveal_strlit("\n");
            reveal_strlit("UNKNOWN COMMAND");
            assert("test"@ =~= test_cmd());
            assert("test "@ =~= test_prefix());
            assert("monitors"@ =~= monitors_cmd());
            assert("\n"@ =~= seq!['\n']);
            assert("0"@ =~= seq!['0']);
            assert("1"@ =~= seq!['1']);
            assert("UNKNOWN COMMAND"@ =~= unknown_reply());
        }
        let command_string = trim(input);
        let command = command_string.as_str();
        if is_quit_cmd(command) {
            return CommandResult::Exit;
        }
        if str_eq(command, "test") {
            return CommandResult::Response(String::from_str("0"));
        }
        if starts_with(command, "test ") {
            let n = command.unicode_len();
            let token = command.substring_char(5, n);
            proof {
                assert(token@ =~= spec_test_token(spec_trim(input@)));
            }
            let supported = is_protocol_command(token) || match self.find_monitor(token) {
                Some(_) => true,
                None => false,
            };
            if supported {
                return CommandResult::Response(String::from_str("1"));
            } else {
                return CommandResult::Response(String::from_str("0"));
            }
        }
        if str_eq(command, "monitors") {
            let mut names: Vec<String> = Vec::new();
            let mut i: usize = 0;
            while i < self.monitors.len()
                invariant
                    i <= self.monitors@.len(),
                    names@.len() == i,
                    forall|j: int| 0 <= j < i ==> (#[trigger] names@[j])@ == self.names()[j],
                decreases self.monitors@.len() - i,
            {
                let m = &self.monitors[i];
                names.push(String::from_str(m.name()));
                proof {
                    assert(self.names()[i as int] == self.monitors@[i as int].spec_name());
                }
                i = i + 1;
            }
            proof {
                assert(names.deep_view() =~= self.names());
            }
            let joined = join_with(&names, "\n");
            return CommandResult::Response(joined);
        }
        let n = command.unicode_len();
        if n >= 1 && command.get_char(n - 1) == '?' {
            let queried = command.substring_char(0, n - 1);
            proof {
                assert(queried@ =~= spec_trim(input@).drop_last());
            }
            match self.find_monitor(queried) {
                Some(i) => {
                    let m = &self.monitors[i];
                    return CommandResult::Response(m.meta().as_output());
                },
                None => {
                    return CommandResult::Response(String::from_str("UNKNOWN COMMAND"));
                },
            }
        }
        match self.find_monitor(command) {
            Some(i) => {
                match &self.monitors[i] {
                    Monitor::Polling(pm) => CommandResult::Poll(pm.defined_command.clone()),
                    Monitor::Listening(lm) => CommandResult::Response(lm.get_value()),
                }
            },
            None => CommandResult::Response(String::from_str("UNKNOWN COMMAND")),
        }
    }
}

/// Definition names are pairwise distinct: each name is a unique key.
pub open spec fn distinct_names(defs: Seq<MonitorDefinition>) -> bool {
    forall|a: int, b: int|
        0 <= a < defs.len() && 0 <= b < defs.len() && a != b ==> (#[trigger] defs[a]).name@ != (
        #[trigger] defs[b]).name@
}

/// The definitions whose value specification parses, in their given order.
pub open spec fn spec_ok_defs(defs: Seq<MonitorDefinition>) -> Seq<MonitorDefinition>
    decreases defs.len(),
{
    if defs.len() == 0 {
        Seq::<MonitorDefinition>::empty()
    } else {
        spec_ok_defs(defs.drop_last()) + if spec_meta_ok(defs.last()) {
            seq![defs.last()]
        } else {
            Seq::<MonitorDefinition>::empty()
        }
    }
}

/// The definitions whose value specification is malformed, in order.
pub open spec fn spec_bad_defs(defs: Seq<MonitorDefinition>) -> Seq<MonitorDefinition>
    decreases defs.len(),
{
    if defs.len() == 0 {
        Seq::<MonitorDefinition>::empty()
    } else {
        spec_bad_defs(defs.drop_last()) + if !spec_meta_ok(defs.last()) {
            seq![defs.last()]
        } else {
            Seq::<MonitorDefinition>::empty()
        }
    }
}

proof fn lemma_ok_defs_name_in(defs: Seq<MonitorDefinition>, j: int)
    requires
        0 <= j < spec_ok_defs(defs).len(),
    ensures
        exists|i: int|
            0 <= i < defs.len() && (#[trigger] defs[i]).name@ == spec_ok_defs(defs)[j].name@,
    decreases defs.len(),
{
    if defs.len() > 0 {
        if j < spec_ok_defs(defs.drop_last()).len() {
            lemma_ok_defs_name_in(defs.drop_last(), j);
            let i = choose|i: int|
                0 <= i < defs.drop_last().len() && (#[trigger] defs.drop_last()[i]).name@
                    == spec_ok_defs(defs.drop_last())[j].name@;
            assert(defs[i].name@ == spec_ok_defs(defs)[j].name@);
        } else {
            assert(spec_ok_defs(defs)[j] == defs.last());
            assert(defs[defs.len() - 1].name@ == spec_ok_defs(defs)[j].name@);
        }
    }
}

proof fn lemma_ok_defs_distinct(defs: Seq<MonitorDefinition>)
    requires
        distinct_names(defs),
    ensures
        distinct_names(spec_ok_defs(defs)),
    decreases defs.len(),
{
    if defs.len() > 0 {
        let butlast = defs.drop_last();
        assert forall|a: int, b: int|
            0 <= a < butlast.len() && 0 <= b < butlast.len() && a != b implies (
        #[trigger] butlast[a]).name@ != (#[trigger] butlast[b]).name@ by {
            assert(butlast[a] == defs[a]);
            assert(butlast[b] == defs[b]);
        }
        lemma_ok_defs_distinct(butlast);
        if spec_meta_ok(defs.last()) {
            let ok = spec_ok_defs(defs);
            let okb = spec_ok_defs(butlast);
            assert forall|a: int, b: int|
                0 <= a < ok.len() && 0 <= b < ok.len() && a != b implies (
            #[trigger] ok[a]).name@ != (#[trigger] ok[b]).name@ by {
                if a < okb.len() && b < okb.len() {
                    assert(ok[a] == okb[a]);
                    assert(ok[b] == okb[b]);
                } else {
                    let j = if a < okb.len() {
                        a
                    } else {
                        b
                    };
                    assert(0 <= j < okb.len());
                    lemma_ok_defs_name_in(butlast, j);
                    let i = choose|i: int|
                        0 <= i < butlast.len() && (#[trigger] butlast[i]).name@ == okb[j].name@;
                    assert(butlast[i] == defs[i]);
                    assert(defs[i].name@ != defs[defs.len() - 1].name@);
                    assert(ok[j] == okb[j]);
                }
            }
        }
    }
}

/// Builds the registry from the configuration layer's definitions: one
/// monitor per definition, in definition order, each listening monitor with
/// a fresh cell. A definition whose value specification is malformed is
/// reported in the error list and excluded; it never prevents the other
/// sensors from being set up.
pub fn build(definitions: &Vec<MonitorDefinition>) -> (r: (Commands, Vec<ConfigError>))
    requires
        distinct_names(definitions@),
    ensures
        r.0.wf(),
        r.0.monitors@.len() == spec_ok_defs(definitions@).len(),
        forall|j: int|
            0 <= j < r.0.monitors@.len() ==> monitor_matches(
                #[trigger] r.0.monitors@[j],
                spec_ok_defs(definitions@)[j],
            ),
        r.0.names() == spec_ok_defs(definitions@).map_values(|d: MonitorDefinition| d.name@),
        r.1@.len() == spec_bad_defs(definitions@).len(),
        forall|j: int|
            0 <= j < r.1@.len() ==> (#[trigger] r.1@[j]).sensor@ == spec_bad_defs(
                definitions@,
            )[j].name@,
{
    let mut monitors: Vec<Monitor> = Vec::new();
    let mut errors: Vec<ConfigError> = Vec::new();
    let mut i: usize = 0;
    while i < definitions.len()
        invariant
            i <= definitions@.len(),
            monitors@.len() == spec_ok_defs(definitions@.take(i as int)).len(),
            forall|j: int|
                0 <= j < monitors@.len() ==> monitor_matches(
                    #[trigger] monitors@[j],
                    spec_ok_defs(definitions@.take(i as int))[j],
                ),
            errors@.len() == spec_bad_defs(definitions@.take(i as int)).len(),
            forall|j: int|
                0 <= j < errors@.len() ==> (#[trigger] errors@[j]).sensor@ == spec_bad_defs(
                    definitions@.take(i as int),
                )[j].name@,
        decreases definitions@.len() - i,
    {
        let def = &definitions[i];
        proof {
            assert(definitions@.take(i as int + 1).drop_last() =~= definitions@.take(i as int));
            assert(definitions@.take(i as int + 1).last() == definitions@[i as int]);
        }
        match create(def) {
            Ok(m) => {
                monitors.push(m);
            },
            Err(e) => {
                errors.push(e);
            },
        }
        i = i + 1;
    }
    proof {
        assert(definitions@.take(definitions@.len() as int) =~= definitions@);
        lemma_ok_defs_distinct(definitions@);
        let ok = spec_ok_defs(definitions@);
        assert forall|a: int, b: int|
            0 <= a < monitors@.len() && 0 <= b < monitors@.len() && a != b implies (
        #[trigger] monitors@[a]).spec_name() != (#[trigger] monitors@[b]).spec_name() by {
            assert(monitor_matches(monitors@[a], ok[a]));
            assert(monitor_matches(monitors@[b], ok[b]));
        }
    }
    let registry = Commands { monitors };
    proof {
        let ok = spec_ok_defs(definitions@);
        assert forall|j: int| 0 <= j < registry.monitors@.len() implies registry.names()[j] == ok.map_values(
            |d: MonitorDefinition| d.name@,
        )[j] by {
            assert(monitor_matches(registry.monitors@[j], ok[j]));
        }
        assert(registry.names() =~= ok.map_values(|d: MonitorDefinition| d.name@));
    }
    (registry, errors)
}

/// `quit` in any letter case, however surrounded by whitespace, directs an
/// exit — never a response, a poll, or a cell read — so the session ends
/// with no further text.
pub proof fn lemma_quit_terminates(c: Commands, input: Seq<char>)
    requires
        spec_is_quit(spec_trim(input)),
    ensures
        c.spec_is_exit(input),
        !c.spec_is_poll(input),
        !c.spec_is_cell_read(input),
{
}

/// Input that is no protocol command, no metadata query of a registered
/// monitor, and no registered monitor name is answered with exactly
/// `UNKNOWN COMMAND`.
pub proof fn lemma_unknown_command(c: Commands, input: Seq<char>)
    requires
        !spec_is_quit(spec_trim(input)),
        !spec_is_test(spec_trim(input)),
        spec_trim(input) != monitors_cmd(),
        spec_is_info(spec_trim(input)) ==> !c.has_monitor(spec_trim(input).drop_last()),
        !c.has_monitor(spec_trim(input)),
    ensures
        !c.spec_is_exit(input),
        !c.spec_is_poll(input),
        !c.spec_is_cell_read(input),
        c.spec_reply(input) == unknown_reply(),
{
}

/// A polling monitor's value is never served from a cache: the registry
/// stores no value for it, and a repeated query — the same line once more —
/// directs the very same fresh run of the monitor's command both times.
pub proof fn lemma_polling_never_cached(c: Commands, first: Seq<char>, second: Seq<char>)
    requires
        c.spec_is_poll(first),
        spec_trim(second) == spec_trim(first),
    ensures
        c.spec_is_poll(second),
        c.spec_poll_target(second) == c.spec_poll_target(first),
{
}

/// Every framed response ends with the protocol trailer — the greeting,
/// being the framed empty response, consists of it entirely.
pub proof fn lemma_response_ends_with_trailer(text: Seq<char>)
    ensures
        (text + spec_trailer()).len() >= spec_trailer().len(),
        (text + spec_trailer()).skip(text.len() as int) == spec_trailer(),
{
    assert((text + spec_trailer()).skip(text.len() as int) =~= spec_trailer());
}

/// With an empty registry, `monitors` answers with the empty string, and a
/// `test` of anything but the three built-in protocol commands answers `0`.
pub proof fn lemma_empty_registry(c: Commands, input: Seq<char>)
    requires
        c.monitors@.len() == 0,
    ensures
        spec_trim(input) == monitors_cmd() ==> c.spec_reply(input) == Seq::<char>::empty(),
        spec_is_test(spec_trim(input)) && !spec_is_protocol_command(
            spec_test_token(spec_trim(input)),
        ) ==> c.spec_reply(input) == seq!['0'],
{
    assert(c.names() =~= Seq::<Seq<char>>::empty());
}

fn is_quit_cmd(cmd: &str) -> (r: bool)
    ensures
        r == spec_is_quit(cmd@),
{
    let n = cmd.unicode_len();
    if n != 4 {
        return false;
    }
    let c0 = cmd.get_char(0);
    let c1 = cmd.get_char(1);
    let c2 = cmd.get_char(2);
    let c3 = cmd.get_char(3);
    (c0 == 'q' || c0 == 'Q') && (c1 == 'u' || c1 == 'U') && (c2 == 'i' || c2 == 'I') && (c3 == 't'
        || c3 == 'T')
}

fn is_protocol_command(t: &str) -> (r: bool)
    ensures
        r == spec_is_protocol_command(t@),
{
    proof {
        reveal_strlit("test");
        reveal_strlit("quit");
        reveal_strlit("monitors");
        assert("test"@ =~= test_cmd());
        assert("quit"@ =~= quit_cmd());
        assert("monitors"@ =~= monitors_cmd());
    }
    str_eq(t, "test") || str_eq(t, "quit") || str_eq(t, "monitors")
}

} // verus!

