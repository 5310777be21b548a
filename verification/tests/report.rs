use databroker_cli::metadata::Metadata;
use databroker_cli::namespace::{ClientError, NamespaceCache};
use databroker_cli::report::{
    plan_write, render_error, report_feed, report_get, report_set, report_values,
    write_value_line, Output, WriteKind, WritePlan,
};
use databroker_cli::value::{DataType, Failure, TypedValue};

fn entry(id: i32, name: &str, data_type: i32, entry_type: i32) -> Metadata {
    Metadata {
        id,
        name: name.to_string(),
        data_type,
        entry_type,
        change_type: 0,
        description: String::new(),
    }
}

fn cache() -> NamespaceCache {
    let mut cache = NamespaceCache::new();
    cache.refresh(Ok(vec![
        entry(1, "Vehicle.Speed", DataType::Float.code(), 1),
        entry(2, "Vehicle.Cabin.Light", DataType::Bool.code(), 2),
        entry(3, "Vehicle.Doors", DataType::Uint8.code(), 3),
        entry(4, "Vehicle.Odd", 77, 2),
        entry(5, "Vehicle.Levels", DataType::Int8Array.code(), 2),
    ]));
    cache
}

fn info(text: &str) -> Output {
    Output::Info(text.to_string())
}

fn line(text: &str) -> Output {
    Output::Line(text.to_string())
}

fn ok(operation: &str) -> Output {
    Output::ResponseOk {
        operation: operation.to_string(),
    }
}

fn ok_with(operation: &str, detail: &str) -> Output {
    Output::ResponseOkWith {
        operation: operation.to_string(),
        detail: detail.to_string(),
    }
}

#[test]
fn errors_are_rendered_by_their_kind() {
    assert_eq!(
        render_error(
            "get",
            &ClientError::Status {
                code: "NotFound".to_string(),
                message: "no such signal".to_string()
            }
        ),
        Output::ResponseErr {
            operation: "get".to_string(),
            code: "NotFound".to_string(),
            message: "no such signal".to_string()
        }
    );
    assert_eq!(
        render_error("set", &ClientError::Connection("broken pipe".to_string())),
        Output::Error {
            operation: "set".to_string(),
            message: "broken pipe".to_string()
        }
    );
    assert_eq!(
        render_error("feed", &ClientError::Function("[Error { code: 1 }]".to_string())),
        Output::ResponseErrWith {
            operation: "feed".to_string(),
            detail: "Error [Error { code: 1 }]".to_string()
        }
    );
}

#[test]
fn a_path_that_is_not_known_is_never_written() {
    for kind in [WriteKind::Actuate, WriteKind::Provide] {
        for value in ["1", "true", "NotAvailable", "nonsense", ""] {
            assert_eq!(
                plan_write(&cache(), kind, "Vehicle.Unknown", value),
                WritePlan::Reply(vec![info(
                    "No metadata available for Vehicle.Unknown. Needed to determine data type for serialization."
                )])
            );
        }
        assert_eq!(
            plan_write(&NamespaceCache::new(), kind, "Vehicle.Speed", "1"),
            WritePlan::Reply(vec![info(
                "No metadata available for Vehicle.Speed. Needed to determine data type for serialization."
            )])
        );
        assert_eq!(
            plan_write(&cache(), kind, "vehicle.speed", "1"),
            WritePlan::Reply(vec![info(
                "No metadata available for vehicle.speed. Needed to determine data type for serialization."
            )])
        );
    }
}

#[test]
fn a_value_of_the_wrong_type_is_not_written() {
    assert_eq!(
        plan_write(&cache(), WriteKind::Actuate, "Vehicle.Cabin.Light", "on"),
        WritePlan::Reply(vec![line("Could not parse \"on\" as Bool")])
    );
    assert_eq!(
        plan_write(&cache(), WriteKind::Provide, "Vehicle.Doors", "256"),
        WritePlan::Reply(vec![line("Could not parse \"256\" as Uint8")])
    );
    // `feed` asks for no kind, so the same text fails for any signal.
    assert_eq!(
        plan_write(&cache(), WriteKind::Provide, "Vehicle.Speed", "fast"),
        WritePlan::Reply(vec![line("Could not parse \"fast\" as Float")])
    );
    assert_eq!(
        plan_write(&cache(), WriteKind::Actuate, "Vehicle.Levels", "[1, 200]"),
        WritePlan::Reply(vec![line("Could not parse \"[1, 200]\" as Int8Array")])
    );
    assert_eq!(
        plan_write(&cache(), WriteKind::Actuate, "Vehicle.Odd", "1"),
        WritePlan::Reply(vec![line("Could not parse \"1\" as Unknown")])
    );
}

#[test]
fn set_writes_to_actuators_only() {
    assert_eq!(
        plan_write(&cache(), WriteKind::Actuate, "Vehicle.Speed", "12.5"),
        WritePlan::Reply(vec![
            Output::Error {
                operation: "set".to_string(),
                message: "Vehicle.Speed is not an actuator.".to_string()
            },
            info("If you want to provide the signal value, use `feed`."),
        ])
    );
    assert_eq!(
        plan_write(&cache(), WriteKind::Actuate, "Vehicle.Doors", "NotAvailable"),
        WritePlan::Reply(vec![
            Output::Error {
                operation: "set".to_string(),
                message: "Vehicle.Doors is not an actuator.".to_string()
            },
            info("If you want to provide the signal value, use `feed`."),
        ])
    );
    assert_eq!(
        plan_write(&cache(), WriteKind::Actuate, "Vehicle.Cabin.Light", "true"),
        WritePlan::Write {
            id: 2,
            name: "Vehicle.Cabin.Light".to_string(),
            value: TypedValue::BoolValue(true)
        }
    );
    assert_eq!(
        plan_write(&cache(), WriteKind::Actuate, "Vehicle.Levels", "[1, -2]"),
        WritePlan::Write {
            id: 5,
            name: "Vehicle.Levels".to_string(),
            value: TypedValue::Int32Array(vec![1, -2])
        }
    );
    assert_eq!(
        plan_write(&cache(), WriteKind::Actuate, "Vehicle.Odd", "NotAvailable"),
        WritePlan::Write {
            id: 4,
            name: "Vehicle.Odd".to_string(),
            value: TypedValue::FailureValue(Failure::NotAvailable)
        }
    );
}

#[test]
fn set_judges_the_kind_before_the_text() {
    let not_an_actuator = WritePlan::Reply(vec![
        Output::Error {
            operation: "set".to_string(),
            message: "Vehicle.Doors is not an actuator.".to_string(),
        },
        info("If you want to provide the signal value, use `feed`."),
    ]);
    for value in ["4", "256", "nonsense", "", "NotAvailable", "[1]"] {
        assert_eq!(
            plan_write(&cache(), WriteKind::Actuate, "Vehicle.Doors", value),
            not_an_actuator,
            "{:?}",
            value
        );
    }
    assert_eq!(
        plan_write(&cache(), WriteKind::Actuate, "Vehicle.Speed", "fast"),
        WritePlan::Reply(vec![
            Output::Error {
                operation: "set".to_string(),
                message: "Vehicle.Speed is not an actuator.".to_string(),
            },
            info("If you want to provide the signal value, use `feed`."),
        ])
    );
}

#[test]
fn feed_writes_to_any_known_signal() {
    assert_eq!(
        plan_write(&cache(), WriteKind::Provide, "Vehicle.Speed", "12.5"),
        WritePlan::Write {
            id: 1,
            name: "Vehicle.Speed".to_string(),
            value: TypedValue::FloatValue("12.5".to_string())
        }
    );
    assert_eq!(
        plan_write(&cache(), WriteKind::Provide, "Vehicle.Doors", "4"),
        WritePlan::Write {
            id: 3,
            name: "Vehicle.Doors".to_string(),
            value: TypedValue::Uint32Value(4)
        }
    );
    assert_eq!(WriteKind::Actuate.name(), "set");
    assert_eq!(WriteKind::Provide.name(), "feed");
}

#[test]
fn the_answer_to_a_set() {
    assert_eq!(report_set("set", &vec![]), vec![ok("set")]);
    assert_eq!(
        report_set(
            "set",
            &vec![
                ("Vehicle.Cabin.Light".to_string(), 2),
                ("Vehicle.Other".to_string(), 17),
                ("Vehicle.Levels".to_string(), 4),
            ]
        ),
        vec![
            ok("set"),
            line("Error setting Vehicle.Cabin.Light: \u{1b}[31mAccessDenied\u{1b}[0m"),
            ok_with("set", "Error setting id Vehicle.Other"),
            ok("set"),
            line("Error setting Vehicle.Levels: \u{1b}[31mOutOfBounds\u{1b}[0m"),
        ]
    );
}

#[test]
fn the_answer_to_a_feed() {
    assert_eq!(report_feed("feed", 3, "Vehicle.Doors", &vec![]), vec![ok("feed")]);
    assert_eq!(
        report_feed(
            "feed",
            3,
            "Vehicle.Doors",
            &vec![(3, 1), (12, 0), (3, 99), (-4, 99)]
        ),
        vec![
            ok_with("feed", "Error providing Vehicle.Doors: InvalidType"),
            ok_with("feed", "Error providing id 12: UnknownDatapoint"),
            ok_with("feed", "Error providing Vehicle.Doors"),
            ok_with("feed", "Error providing id -4"),
        ]
    );
}

#[test]
fn the_answer_to_a_get() {
    let datapoints = vec![
        ("Vehicle.Speed".to_string(), Some(TypedValue::FloatValue("12.50".to_string()))),
        ("Vehicle.Cabin.Light".to_string(), None),
        (
            "Vehicle.Name".to_string(),
            Some(TypedValue::StringValue("car".to_string())),
        ),
    ];
    assert_eq!(
        report_get("get", &datapoints),
        vec![
            ok("get"),
            line("Vehicle.Speed: 12.50"),
            line("Vehicle.Cabin.Light: None"),
            line("Vehicle.Name: 'car'"),
        ]
    );
    assert_eq!(
        report_values(&datapoints),
        vec![
            line("Vehicle.Speed: 12.50"),
            line("Vehicle.Cabin.Light: None"),
            line("Vehicle.Name: 'car'"),
        ]
    );
    assert_eq!(report_get("get", &vec![]), vec![ok("get")]);
    assert_eq!(report_values(&vec![]), vec![]);
    assert_eq!(
        write_value_line("A.B", &Some(TypedValue::Int32Array(vec![1, 2]))),
        "A.B: [1, 2]"
    );
}
