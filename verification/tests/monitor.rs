use ksysguard_sensord::config::{MonitorDefinition, MonitorKind, ValueKind};
use ksysguard_sensord::monitor::{
    create, parse_value_meta, slice_command_spec, worker_step, AsOutput, Monitor, MultiValueUnit,
    SensorMeta, SingleValueSensorMeta, ValueCell, WorkerDirective, WorkerEvent,
};

fn definition(
    name: &str,
    command: &str,
    kind: MonitorKind,
    description: &str,
    value_kind: ValueKind,
    value_spec: &str,
) -> MonitorDefinition {
    MonitorDefinition {
        name: name.to_string(),
        command: command.to_string(),
        kind,
        description: description.to_string(),
        value_kind,
        value_spec: value_spec.to_string(),
    }
}

#[test]
fn single_meta_parses_min_max_unit() {
    let def = definition(
        "cpu",
        "x",
        MonitorKind::Polling,
        "CPU load",
        ValueKind::Single,
        "0 100 percent",
    );
    match parse_value_meta(&def).expect("should parse") {
        SensorMeta::Single(m) => {
            assert_eq!(m.description, "CPU load".to_string());
            assert_eq!(m.min, "0".to_string());
            assert_eq!(m.max, "100".to_string());
            assert_eq!(m.unit, Some("percent".to_string()));
        },
        SensorMeta::Multi(_) => panic!("expected single-value metadata"),
    }
}

#[test]
fn single_meta_without_unit() {
    let def = definition("a", "x", MonitorKind::Polling, "d", ValueKind::Single, "0 0");
    match parse_value_meta(&def).expect("should parse") {
        SensorMeta::Single(m) => {
            assert_eq!(m.unit, None);
            assert_eq!(m.as_output(), "d\t0\t0\t".to_string());
        },
        SensorMeta::Multi(_) => panic!("expected single-value metadata"),
    }
}

#[test]
fn single_meta_with_too_few_tokens_fails() {
    let def = definition("lone", "x", MonitorKind::Polling, "", ValueKind::Single, "0");
    let err = parse_value_meta(&def).expect_err("one token is malformed");
    assert_eq!(err.sensor, "lone".to_string());
}

#[test]
fn single_meta_output_line() {
    let meta = SingleValueSensorMeta {
        description: "CPU load".to_string(),
        min: "0".to_string(),
        max: "100".to_string(),
        unit: Some("percent".to_string()),
    };
    assert_eq!(meta.as_output(), "CPU load\t0\t100\tpercent".to_string());
}

#[test]
fn multi_meta_parses_columns() {
    let def = definition(
        "t",
        "x",
        MonitorKind::Polling,
        "",
        ValueKind::Multi,
        "name1 d\tname2 f",
    );
    match parse_value_meta(&def).expect("should parse") {
        SensorMeta::Multi(m) => {
            assert_eq!(m.fields.len(), 2);
            assert_eq!(m.fields[0].0, "name1".to_string());
            assert_eq!(m.fields[0].1, MultiValueUnit::Integer);
            assert_eq!(m.fields[1].0, "name2".to_string());
            assert_eq!(m.fields[1].1, MultiValueUnit::Floating);
            assert_eq!(m.as_output(), "name1\tname2\nd\tf".to_string());
        },
        SensorMeta::Single(_) => panic!("expected multi-value metadata"),
    }
}

#[test]
fn multi_meta_short_entry_fails() {
    let def = definition("t", "x", MonitorKind::Polling, "", ValueKind::Multi, "ab d\tcd");
    let err = parse_value_meta(&def).expect_err("three-character entry is malformed");
    assert_eq!(err.sensor, "t".to_string());
}

#[test]
fn multi_meta_unknown_unit_code_fails() {
    let def = definition("t", "x", MonitorKind::Polling, "", ValueKind::Multi, "name x");
    let err = parse_value_meta(&def).expect_err("x is no unit code");
    assert_eq!(err.sensor, "t".to_string());
}

#[test]
fn unit_codes_render_as_letters() {
    assert_eq!(MultiValueUnit::Integer.as_output(), "d".to_string());
    assert_eq!(MultiValueUnit::LocalizedInteger.as_output(), "D".to_string());
    assert_eq!(MultiValueUnit::Floating.as_output(), "f".to_string());
    assert_eq!(MultiValueUnit::Text.as_output(), "s".to_string());
    assert_eq!(MultiValueUnit::LocalizedText.as_output(), "S".to_string());
}

#[test]
fn unit_codes_parse_back() {
    assert_eq!(MultiValueUnit::from_code('d'), Some(MultiValueUnit::Integer));
    assert_eq!(MultiValueUnit::from_code('D'), Some(MultiValueUnit::LocalizedInteger));
    assert_eq!(MultiValueUnit::from_code('f'), Some(MultiValueUnit::Floating));
    assert_eq!(MultiValueUnit::from_code('s'), Some(MultiValueUnit::Text));
    assert_eq!(MultiValueUnit::from_code('S'), Some(MultiValueUnit::LocalizedText));
    assert_eq!(MultiValueUnit::from_code('q'), None);
}

#[test]
fn command_spec_splits_into_program_and_arguments() {
    let (program, args) = slice_command_spec("nvidia-smi dmon -c 1");
    assert_eq!(program, "nvidia-smi".to_string());
    assert_eq!(args, vec!["dmon".to_string(), "-c".to_string(), "1".to_string()]);

    let (bare, none) = slice_command_spec("uptime");
    assert_eq!(bare, "uptime".to_string());
    assert!(none.is_empty());
}

#[test]
fn create_builds_the_kind_the_definition_names() {
    let polling = create(&definition("p", "c", MonitorKind::Polling, "", ValueKind::Single, "0 0"))
        .expect("should build");
    assert!(matches!(polling, Monitor::Polling(_)));
    assert_eq!(polling.name(), "p");
    assert_eq!(polling.defined_command(), "c");

    let listening =
        create(&definition("l", "c", MonitorKind::Listening, "", ValueKind::Single, "0 0"))
            .expect("should build");
    assert!(matches!(listening, Monitor::Listening(_)));
}

#[test]
fn create_fails_only_with_the_sensor_named() {
    let err = match create(&definition("bad", "c", MonitorKind::Polling, "", ValueKind::Single, "0"))
    {
        Err(e) => e,
        Ok(_) => panic!("expected a configuration error"),
    };
    assert_eq!(err.sensor, "bad".to_string());
}

#[test]
fn listening_value_is_empty_before_first_line() {
    let m = create(&definition("l", "c", MonitorKind::Listening, "", ValueKind::Single, "0 0"))
        .expect("should build");
    match m {
        Monitor::Listening(lm) => assert_eq!(lm.get_value(), "".to_string()),
        Monitor::Polling(_) => panic!("expected a listening monitor"),
    }
}

#[test]
fn listening_value_is_the_most_recent_line() {
    let cell = ValueCell::new();
    for line in ["1\n", "2\n", "3\n"] {
        match worker_step(WorkerEvent::Line(line.to_string()), true) {
            WorkerDirective::StoreAndContinue(s) => cell.store(s),
            other => panic!("worker should store and continue, got {:?}", other),
        }
        assert_eq!(cell.load(), line.to_string());
    }
    assert_eq!(cell.load(), "3\n".to_string());
}

#[test]
fn worker_stops_at_end_of_stream() {
    assert_eq!(worker_step(WorkerEvent::Eof, true), WorkerDirective::Stop);
    assert_eq!(worker_step(WorkerEvent::Eof, false), WorkerDirective::Stop);
}

#[test]
fn worker_stores_then_observes_cancellation() {
    assert_eq!(
        worker_step(WorkerEvent::Line("a\n".to_string()), true),
        WorkerDirective::StoreAndContinue("a\n".to_string())
    );
    assert_eq!(
        worker_step(WorkerEvent::Line("a\n".to_string()), false),
        WorkerDirective::StoreAndStop("a\n".to_string())
    );
}
