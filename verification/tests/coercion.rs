use databroker_cli::value::{
    try_into_data_value, try_into_data_value_for_code, DataType, Failure, ParseError, TypedValue,
};

#[test]
fn test_parse_values() {
    // String
    assert!(matches!(
        try_into_data_value("test", DataType::String),
        Ok(TypedValue::StringValue(value)) if value == "test"
    ));

    // StringArray
    assert!(matches!(
        try_into_data_value("[test, test2, test4]", DataType::StringArray),
        Ok(TypedValue::StringArray(value)) if value == vec!["test".to_string(), "test2".to_string(), "test4".to_string()]
    ));

    // Bool
    assert!(matches!(
        try_into_data_value("true", DataType::Bool),
        Ok(TypedValue::BoolValue(value)) if value
    ));

    assert!(matches!(
        try_into_data_value("false", DataType::Bool),
        Ok(TypedValue::BoolValue(value)) if !value
    ));
    assert!(try_into_data_value("truefalse", DataType::Bool).is_err());
    // BoolArray
    assert!(matches!(
        try_into_data_value("[true, false, true]", DataType::BoolArray),
        Ok(TypedValue::BoolArray(value)) if value == vec![true, false, true]
    ));

    // Int8
    assert!(matches!(
        try_into_data_value("100", DataType::Int8),
        Ok(TypedValue::Int32Value(value)) if value == 100
    ));
    assert!(matches!(
        try_into_data_value("-100", DataType::Int8),
        Ok(TypedValue::Int32Value(value)) if value == -100
    ));
    assert!(try_into_data_value("300", DataType::Int8).is_err());
    assert!(try_into_data_value("-300", DataType::Int8).is_err());
    assert!(try_into_data_value("-100.1", DataType::Int8).is_err());

    // Int16
    assert!(matches!(
        try_into_data_value("100", DataType::Int16),
        Ok(TypedValue::Int32Value(value)) if value == 100
    ));
    assert!(matches!(
        try_into_data_value("-100", DataType::Int16),
        Ok(TypedValue::Int32Value(value)) if value == -100
    ));
    assert!(matches!(
        try_into_data_value("32000", DataType::Int16),
        Ok(TypedValue::Int32Value(value)) if value == 32000
    ));
    assert!(matches!(
        try_into_data_value("-32000", DataType::Int16),
        Ok(TypedValue::Int32Value(value)) if value == -32000
    ));
    assert!(try_into_data_value("33000", DataType::Int16).is_err());
    assert!(try_into_data_value("-33000", DataType::Int16).is_err());
    assert!(try_into_data_value("-32000.1", DataType::Int16).is_err());
}

const ALL_TYPES: [DataType; 24] = [
    DataType::String,
    DataType::Bool,
    DataType::Int8,
    DataType::Int16,
    DataType::Int32,
    DataType::Int64,
    DataType::Uint8,
    DataType::Uint16,
    DataType::Uint32,
    DataType::Uint64,
    DataType::Float,
    DataType::Double,
    DataType::StringArray,
    DataType::BoolArray,
    DataType::Int8Array,
    DataType::Int16Array,
    DataType::Int32Array,
    DataType::Int64Array,
    DataType::Uint8Array,
    DataType::Uint16Array,
    DataType::Uint32Array,
    DataType::Uint64Array,
    DataType::FloatArray,
    DataType::DoubleArray,
];

fn ok(input: &str, data_type: DataType) -> TypedValue {
    match try_into_data_value(input, data_type) {
        Ok(value) => value,
        Err(_) => panic!("{:?} is no {:?}", input, data_type),
    }
}

fn fails(input: &str, data_type: DataType) -> bool {
    try_into_data_value(input, data_type) == Err(ParseError {})
}

#[test]
fn not_available_is_the_absence_of_a_value_for_every_type() {
    for data_type in ALL_TYPES {
        assert_eq!(
            try_into_data_value("NotAvailable", data_type),
            Ok(TypedValue::FailureValue(
                Failure::NotAvailable
            ))
        );
    }
    assert_eq!(
        ok("notavailable", DataType::String),
        TypedValue::StringValue("notavailable".to_string())
    );
    assert!(fails("NotAvailable ", DataType::Int8));
    assert!(fails("[NotAvailable]", DataType::Int8Array));
}

#[test]
fn integers_within_the_declared_range_keep_their_value() {
    for n in i8::MIN..=i8::MAX {
        assert_eq!(
            ok(&n.to_string(), DataType::Int8),
            TypedValue::Int32Value(n as i32)
        );
    }
    for n in u8::MIN..=u8::MAX {
        assert_eq!(
            ok(&n.to_string(), DataType::Uint8),
            TypedValue::Uint32Value(n as u32)
        );
    }
    for n in [i16::MIN, -1, 0, 1, i16::MAX] {
        assert_eq!(
            ok(&n.to_string(), DataType::Int16),
            TypedValue::Int32Value(n as i32)
        );
    }
    for n in [0, 1, u16::MAX] {
        assert_eq!(
            ok(&n.to_string(), DataType::Uint16),
            TypedValue::Uint32Value(n as u32)
        );
    }
    for n in [i32::MIN, -1, 0, 1, i32::MAX] {
        assert_eq!(ok(&n.to_string(), DataType::Int32), TypedValue::Int32Value(n));
    }
    for n in [0, 1, u32::MAX] {
        assert_eq!(
            ok(&n.to_string(), DataType::Uint32),
            TypedValue::Uint32Value(n)
        );
    }
    for n in [i64::MIN, -1, 0, 1, i64::MAX] {
        assert_eq!(ok(&n.to_string(), DataType::Int64), TypedValue::Int64Value(n));
    }
    for n in [0, 1, u64::MAX] {
        assert_eq!(
            ok(&n.to_string(), DataType::Uint64),
            TypedValue::Uint64Value(n)
        );
    }
}

#[test]
fn integers_beyond_the_declared_range_fail_though_the_carrier_could_hold_them() {
    assert!(fails("128", DataType::Int8));
    assert!(fails("-129", DataType::Int8));
    assert!(fails("256", DataType::Uint8));
    assert!(fails("-1", DataType::Uint8));
    assert!(fails("32768", DataType::Int16));
    assert!(fails("-32769", DataType::Int16));
    assert!(fails("65536", DataType::Uint16));
    assert!(fails("2147483648", DataType::Int32));
    assert!(fails("-2147483649", DataType::Int32));
    assert!(fails("4294967296", DataType::Uint32));
    assert!(fails("9223372036854775808", DataType::Int64));
    assert!(fails("-9223372036854775809", DataType::Int64));
    assert!(fails("18446744073709551616", DataType::Uint64));
    assert!(fails("[1, 128]", DataType::Int8Array));
    assert!(fails("[256]", DataType::Uint8Array));
    assert!(fails("[0, 70000]", DataType::Uint16Array));
    assert!(fails("[-40000]", DataType::Int16Array));
}

#[test]
fn arrays() {
    assert_eq!(
        ok("[true, false, true]", DataType::BoolArray),
        TypedValue::BoolArray(vec![true, false, true])
    );
    assert!(fails("[true, maybe, true]", DataType::BoolArray));
    assert!(fails("[true, false, True]", DataType::BoolArray));
    assert_eq!(
        ok("[1, -2, 3]", DataType::Int8Array),
        TypedValue::Int32Array(vec![1, -2, 3])
    );
    assert_eq!(
        ok("[ 100 ,200,  300 ]", DataType::Int16Array),
        TypedValue::Int32Array(vec![100, 200, 300])
    );
    assert_eq!(
        ok("[2147483647]", DataType::Int32Array),
        TypedValue::Int32Array(vec![i32::MAX])
    );
    assert_eq!(
        ok("[-9223372036854775808, 5]", DataType::Int64Array),
        TypedValue::Int64Array(vec![i64::MIN, 5])
    );
    assert_eq!(
        ok("[0, 255]", DataType::Uint8Array),
        TypedValue::Uint32Array(vec![0, 255])
    );
    assert_eq!(
        ok("[65535]", DataType::Uint16Array),
        TypedValue::Uint32Array(vec![65535])
    );
    assert_eq!(
        ok("[4294967295]", DataType::Uint32Array),
        TypedValue::Uint32Array(vec![u32::MAX])
    );
    assert_eq!(
        ok("[18446744073709551615, 0]", DataType::Uint64Array),
        TypedValue::Uint64Array(vec![u64::MAX, 0])
    );
    assert_eq!(
        ok("[1.5, -2e3, inf]", DataType::FloatArray),
        TypedValue::FloatArray(vec!["1.5".to_string(), "-2e3".to_string(), "inf".to_string()])
    );
    assert_eq!(
        ok("[0.25]", DataType::DoubleArray),
        TypedValue::DoubleArray(vec!["0.25".to_string()])
    );
    assert!(fails("[1.5, x]", DataType::DoubleArray));
    assert!(fails("[1, 2.5]", DataType::Int32Array));
}

#[test]
fn array_brackets_and_empty_pieces() {
    for data_type in ALL_TYPES {
        if data_type.code() >= 20 {
            assert!(fails("", data_type));
            assert!(fails("[", data_type));
            assert!(fails("]", data_type));
            assert!(fails("1, 2", data_type));
            assert!(fails("[1, 2", data_type));
            assert!(fails("1, 2]", data_type));
            assert!(fails(" [1]", data_type));
        }
    }
    assert_eq!(ok("[]", DataType::Int32Array), TypedValue::Int32Array(vec![]));
    assert_eq!(ok("[]", DataType::StringArray), TypedValue::StringArray(vec![]));
    assert_eq!(ok("[]", DataType::BoolArray), TypedValue::BoolArray(vec![]));
    assert_eq!(
        ok("[1,,2,]", DataType::Int32Array),
        TypedValue::Int32Array(vec![1, 2])
    );
    assert_eq!(
        ok("[a, ,b]", DataType::StringArray),
        TypedValue::StringArray(vec!["a".to_string(), "".to_string(), "b".to_string()])
    );
    assert!(fails("[1, ,2]", DataType::Int32Array));
    assert_eq!(
        ok("[[a], b]", DataType::StringArray),
        TypedValue::StringArray(vec!["[a]".to_string(), "b".to_string()])
    );
}

#[test]
fn strings_pass_through() {
    for text in ["", " ", "  padded  ", "[a, b]", "true", "12", "ünï"] {
        assert_eq!(
            ok(text, DataType::String),
            TypedValue::StringValue(text.to_string())
        );
    }
}

#[test]
fn booleans_have_two_spellings() {
    assert_eq!(ok("true", DataType::Bool), TypedValue::BoolValue(true));
    assert_eq!(ok("false", DataType::Bool), TypedValue::BoolValue(false));
    for text in ["", "True", "FALSE", "1", "0", "yes", " true", "true ", "t"] {
        assert!(fails(text, DataType::Bool), "{:?}", text);
    }
}

#[test]
fn fractions_are_kept_as_their_literal() {
    assert_eq!(
        ok("-100.1", DataType::Float),
        TypedValue::FloatValue("-100.1".to_string())
    );
    assert_eq!(
        ok("1e-3", DataType::Double),
        TypedValue::DoubleValue("1e-3".to_string())
    );
    assert_eq!(ok("12", DataType::Float), TypedValue::FloatValue("12".to_string()));
    for text in ["", "abc", "1,5", "1.5.5", " 1.5", "--1"] {
        assert!(fails(text, DataType::Float), "{:?}", text);
        assert!(fails(text, DataType::Double), "{:?}", text);
    }
}

#[test]
fn scalars_agree_with_the_standard_library() {
    let texts = [
        "", "0", "-0", "+0", "7", "-7", "+7", "007", "127", "128", "-128", "-129", "255", "256",
        "1.0", "1e3", " 1", "1 ", "a", "true", "--1", "65535", "65536", "-32768", "-32769",
    ];
    for text in texts {
        assert_eq!(fails(text, DataType::Int8), text.parse::<i8>().is_err(), "{:?}", text);
        assert_eq!(fails(text, DataType::Int16), text.parse::<i16>().is_err(), "{:?}", text);
        assert_eq!(fails(text, DataType::Int32), text.parse::<i32>().is_err(), "{:?}", text);
        assert_eq!(fails(text, DataType::Int64), text.parse::<i64>().is_err(), "{:?}", text);
        assert_eq!(fails(text, DataType::Uint8), text.parse::<u8>().is_err(), "{:?}", text);
        assert_eq!(fails(text, DataType::Uint16), text.parse::<u16>().is_err(), "{:?}", text);
        assert_eq!(fails(text, DataType::Uint32), text.parse::<u32>().is_err(), "{:?}", text);
        assert_eq!(fails(text, DataType::Uint64), text.parse::<u64>().is_err(), "{:?}", text);
        assert_eq!(fails(text, DataType::Bool), text.parse::<bool>().is_err(), "{:?}", text);
        assert_eq!(fails(text, DataType::Float), text.parse::<f32>().is_err(), "{:?}", text);
        assert_eq!(fails(text, DataType::Double), text.parse::<f64>().is_err(), "{:?}", text);
    }
}

#[test]
fn wire_codes() {
    for data_type in ALL_TYPES {
        assert_eq!(DataType::from_i32(data_type.code()), Some(data_type));
        assert_eq!(
            try_into_data_value_for_code("[1]", data_type.code()),
            try_into_data_value("[1]", data_type)
        );
    }
    assert_eq!(DataType::String.code(), 0);
    assert_eq!(DataType::Double.code(), 11);
    assert_eq!(DataType::StringArray.code(), 20);
    assert_eq!(DataType::DoubleArray.code(), 31);
    for code in [-1, 12, 19, 32, 1000, i32::MIN, i32::MAX] {
        assert_eq!(DataType::from_i32(code), None);
        assert!(try_into_data_value_for_code("1", code).is_err());
        assert!(try_into_data_value_for_code("text", code).is_err());
        assert_eq!(
            try_into_data_value_for_code("NotAvailable", code),
            Ok(TypedValue::FailureValue(
                Failure::NotAvailable
            ))
        );
    }
}

#[test]
fn names_of_types_and_failures() {
    assert_eq!(DataType::Uint8Array.name(), "Uint8Array");
    assert_eq!(DataType::String.name(), "String");
    for data_type in ALL_TYPES {
        assert_eq!(data_type.name(), format!("{:?}", data_type));
    }
    for code in 0..5 {
        let failure = Failure::from_i32(code).unwrap();
        assert_eq!(failure.name(), format!("{:?}", failure));
    }
    assert_eq!(Failure::from_i32(1), Some(Failure::NotAvailable));
    assert_eq!(Failure::from_i32(5), None);
    assert_eq!(Failure::from_i32(-1), None);
}
