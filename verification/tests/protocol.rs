use ksysguard_sensord::config::{MonitorDefinition, MonitorKind, ValueKind};
use ksysguard_sensord::monitor::{create, Monitor};
use ksysguard_sensord::protocol::{
    build, frame_response, greeting, poll_response, CommandResult, Commands, ValueError,
};

fn empty_registry() -> Commands {
    Commands { monitors: Vec::new() }
}

fn definition(
    name: &str,
    command: &str,
    kind: MonitorKind,
    description: &str,
    value_kind: ValueKind,
    value_spec: &str,
) -> MonitorDefinition {
    MonitorDefinition {
        name: name.to_string(),
        command: command.to_string(),
        kind,
        description: description.to_string(),
        value_kind,
        value_spec: value_spec.to_string(),
    }
}

fn registry_of(defs: Vec<MonitorDefinition>) -> Commands {
    let mut monitors = Vec::new();
    for def in defs.iter() {
        monitors.push(create(def).expect("definition should parse"));
    }
    Commands { monitors }
}

#[test]
fn quit_returns_exit() {
    let iut = empty_registry();
    assert_eq!(iut.on_command("quit"), CommandResult::Exit);
}

#[test]
fn no_monitors() {
    let iut = empty_registry();
    assert_eq!(iut.on_command("monitors"), CommandResult::Response("".to_string()));
}

#[test]
fn test_monitors_supported() {
    let iut = empty_registry();
    assert_eq!(iut.on_command("test monitors"), CommandResult::Response("1".to_string()));
}

#[test]
fn quit_any_letter_case_and_whitespace() {
    let iut = empty_registry();
    assert_eq!(iut.on_command("QUIT"), CommandResult::Exit);
    assert_eq!(iut.on_command("  QuIt \n"), CommandResult::Exit);
}

#[test]
fn test_unregistered_yields_zero() {
    let iut = empty_registry();
    assert_eq!(iut.on_command("test nosuch"), CommandResult::Response("0".to_string()));
    assert_eq!(iut.on_command("test"), CommandResult::Response("0".to_string()));
}

#[test]
fn test_known_monitor_yields_one() {
    let iut = registry_of(vec![definition(
        "cpu",
        "cat /proc/loadavg",
        MonitorKind::Polling,
        "CPU load",
        ValueKind::Single,
        "0 100 percent",
    )]);
    assert_eq!(iut.on_command("test cpu"), CommandResult::Response("1".to_string()));
    assert_eq!(iut.on_command("test quit"), CommandResult::Response("1".to_string()));
    assert_eq!(iut.on_command("test test"), CommandResult::Response("1".to_string()));
}

#[test]
fn unknown_command_reply() {
    let iut = empty_registry();
    assert_eq!(
        iut.on_command("definitely not a command"),
        CommandResult::Response("UNKNOWN COMMAND".to_string())
    );
    assert_eq!(
        iut.on_command("nosuch?"),
        CommandResult::Response("UNKNOWN COMMAND".to_string())
    );
    // only the exact command words match the grammar
    assert_eq!(
        iut.on_command("testing"),
        CommandResult::Response("UNKNOWN COMMAND".to_string())
    );
    assert_eq!(
        iut.on_command("monitorsx"),
        CommandResult::Response("UNKNOWN COMMAND".to_string())
    );
}

#[test]
fn monitors_lists_names_in_order() {
    let iut = registry_of(vec![
        definition("alpha", "a", MonitorKind::Polling, "", ValueKind::Single, "0 0"),
        definition("beta", "b", MonitorKind::Polling, "", ValueKind::Single, "0 0"),
    ]);
    assert_eq!(
        iut.on_command("monitors"),
        CommandResult::Response("alpha\nbeta".to_string())
    );
}

#[test]
fn single_value_info_query() {
    let iut = registry_of(vec![definition(
        "cpu",
        "cat /proc/loadavg",
        MonitorKind::Polling,
        "CPU load",
        ValueKind::Single,
        "0 100 percent",
    )]);
    assert_eq!(
        iut.on_command("cpu?"),
        CommandResult::Response("CPU load\t0\t100\tpercent".to_string())
    );
}

#[test]
fn multi_value_info_query() {
    let iut = registry_of(vec![definition(
        "table",
        "some-cmd",
        MonitorKind::Polling,
        "ignored for multi",
        ValueKind::Multi,
        "name1 d\tname2 f",
    )]);
    assert_eq!(
        iut.on_command("table?"),
        CommandResult::Response("name1\tname2\nd\tf".to_string())
    );
}

#[test]
fn polling_query_directs_a_fresh_run_each_time() {
    let iut = registry_of(vec![definition(
        "load",
        "cat /proc/loadavg",
        MonitorKind::Polling,
        "load",
        ValueKind::Single,
        "0 0",
    )]);
    let first = iut.on_command("load");
    let second = iut.on_command("load");
    assert_eq!(first, CommandResult::Poll("cat /proc/loadavg".to_string()));
    assert_eq!(second, CommandResult::Poll("cat /proc/loadavg".to_string()));
}

#[test]
fn listening_query_reads_the_cell() {
    let iut = registry_of(vec![definition(
        "stream",
        "tail -f log",
        MonitorKind::Listening,
        "stream",
        ValueKind::Single,
        "0 0",
    )]);
    assert_eq!(iut.on_command("stream"), CommandResult::Response("".to_string()));
    match &iut.monitors[0] {
        Monitor::Listening(lm) => lm.current_value.store("42\n".to_string()),
        Monitor::Polling(_) => panic!("expected a listening monitor"),
    }
    assert_eq!(iut.on_command("stream"), CommandResult::Response("42\n".to_string()));
}

#[test]
fn poll_outcome_rendering() {
    assert_eq!(poll_response(Ok("3.14 1.0\n".to_string())), "3.14 1.0\n".to_string());
    assert_eq!(poll_response(Err(ValueError::SpawnFailure)), "".to_string());
    assert_eq!(poll_response(Err(ValueError::DecodeFailure)), "".to_string());
}

#[test]
fn responses_end_with_trailer() {
    assert_eq!(frame_response("abc"), "abc\nksysguardd> ".to_string());
    assert_eq!(frame_response(""), "\nksysguardd> ".to_string());
    assert_eq!(greeting(), "\nksysguardd> ".to_string());
}

#[test]
fn build_isolates_a_malformed_sensor() {
    let defs = vec![
        definition("good", "a", MonitorKind::Polling, "fine", ValueKind::Single, "0 0"),
        definition("broken", "b", MonitorKind::Polling, "bad", ValueKind::Single, "0"),
        definition("also_good", "c", MonitorKind::Listening, "", ValueKind::Single, "0 0"),
    ];
    let (registry, errors) = build(&defs);
    assert_eq!(registry.monitors.len(), 2);
    assert_eq!(errors.len(), 1);
    assert_eq!(errors[0].sensor, "broken".to_string());
    assert!(errors[0].message().contains("broken"));
    assert_eq!(
        registry.on_command("monitors"),
        CommandResult::Response("good\nalso_good".to_string())
    );
}
