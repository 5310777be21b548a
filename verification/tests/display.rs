use databroker_cli::display::{
    display_array, metadata_table, value_text, DisplayChangeType, DisplayDataType,
    DisplayDatapoint, DisplayEntryType,
};
use databroker_cli::metadata::{ChangeType, EntryType, Metadata};
use databroker_cli::value::{DataType, Failure, TypedValue};

fn shown(value: Option<TypedValue>) -> String {
    DisplayDatapoint(value).text()
}

fn entry(name: &str, data_type: i32, entry_type: i32) -> Metadata {
    Metadata {
        id: 0,
        name: name.to_string(),
        data_type,
        entry_type,
        change_type: 0,
        description: String::new(),
    }
}

#[test]
fn scalars_are_written_plainly() {
    assert_eq!(shown(None), "None");
    assert_eq!(shown(Some(TypedValue::BoolValue(true))), "true");
    assert_eq!(shown(Some(TypedValue::BoolValue(false))), "false");
    assert_eq!(shown(Some(TypedValue::Int32Value(-100))), "-100");
    assert_eq!(shown(Some(TypedValue::Int32Value(i32::MIN))), "-2147483648");
    assert_eq!(
        shown(Some(TypedValue::Int64Value(i64::MIN))),
        "-9223372036854775808"
    );
    assert_eq!(shown(Some(TypedValue::Uint32Value(u32::MAX))), "4294967295");
    assert_eq!(
        shown(Some(TypedValue::Uint64Value(u64::MAX))),
        "18446744073709551615"
    );
    assert_eq!(shown(Some(TypedValue::Uint64Value(0))), "0");
    assert_eq!(shown(Some(TypedValue::FloatValue("12.50".to_string()))), "12.50");
    assert_eq!(shown(Some(TypedValue::DoubleValue("0.1".to_string()))), "0.1");
}

#[test]
fn strings_stand_in_quotes_and_failures_in_brackets() {
    assert_eq!(shown(Some(TypedValue::StringValue("test".to_string()))), "'test'");
    assert_eq!(shown(Some(TypedValue::StringValue(String::new()))), "''");
    assert_eq!(
        shown(Some(TypedValue::FailureValue(Failure::NotAvailable))),
        "( NotAvailable )"
    );
    assert_eq!(
        shown(Some(TypedValue::FailureValue(Failure::AccessDenied))),
        "( AccessDenied )"
    );
}

#[test]
fn arrays_are_lists_in_brackets() {
    assert_eq!(shown(Some(TypedValue::Int32Array(vec![]))), "[]");
    assert_eq!(shown(Some(TypedValue::Int32Array(vec![7]))), "[7]");
    assert_eq!(shown(Some(TypedValue::Int32Array(vec![1, -2, 3]))), "[1, -2, 3]");
    assert_eq!(shown(Some(TypedValue::Int64Array(vec![i64::MAX, 0]))), "[9223372036854775807, 0]");
    assert_eq!(shown(Some(TypedValue::Uint32Array(vec![0, 255]))), "[0, 255]");
    assert_eq!(shown(Some(TypedValue::Uint64Array(vec![u64::MAX]))), "[18446744073709551615]");
    assert_eq!(
        shown(Some(TypedValue::BoolArray(vec![true, false, true]))),
        "[true, false, true]"
    );
    assert_eq!(
        shown(Some(TypedValue::StringArray(vec![
            "test".to_string(),
            "test2".to_string()
        ]))),
        "[test, test2]"
    );
    assert_eq!(
        shown(Some(TypedValue::FloatArray(vec!["1.5".to_string(), "2".to_string()]))),
        "[1.5, 2]"
    );
    assert_eq!(
        shown(Some(TypedValue::DoubleArray(vec!["0.25".to_string()]))),
        "[0.25]"
    );
    let items: Vec<Vec<char>> = vec!["a".chars().collect(), "".chars().collect()];
    let listed: String = display_array(&items).iter().collect();
    assert_eq!(listed, "[a, ]");
    let text: String = value_text(&Some(TypedValue::Int32Value(5))).iter().collect();
    assert_eq!(text, "5");
}

#[test]
fn what_is_read_is_written_back() {
    use_round_trip("[1, 2, 3]", DataType::Int8Array);
    use_round_trip("[true, false]", DataType::BoolArray);
    use_round_trip("-32000", DataType::Int16);
    use_round_trip("[]", DataType::Uint64Array);
    use_round_trip("[a, b]", DataType::StringArray);
}

fn use_round_trip(text: &str, data_type: DataType) {
    let value = databroker_cli::value::try_into_data_value(text, data_type).unwrap();
    assert_eq!(shown(Some(value)), text);
}

#[test]
fn kinds_and_types_without_a_name_are_unknown() {
    assert_eq!(DisplayEntryType::from(None).text(), "Unknown");
    assert_eq!(DisplayEntryType::from(Some(EntryType::Actuator)).text(), "Actuator");
    assert_eq!(DisplayEntryType::from(EntryType::from_i32(0)).text(), "Unspecified");
    assert_eq!(DisplayEntryType::from(EntryType::from_i32(9)).text(), "Unknown");
    assert_eq!(DisplayDataType::from(None).text(), "Unknown");
    assert_eq!(DisplayDataType::from(Some(DataType::Uint16Array)).text(), "Uint16Array");
    assert_eq!(DisplayDataType::from(DataType::from_i32(12)).text(), "Unknown");
    assert_eq!(DisplayChangeType::from(None).text(), "Unknown");
    assert_eq!(DisplayChangeType::from(Some(ChangeType::OnChange)).text(), "OnChange");
    assert_eq!(DisplayChangeType::from(ChangeType::from_i32(2)).text(), "Continuous");
}

#[test]
fn nothing_selected_gives_no_table() {
    assert_eq!(metadata_table(&vec![]), None);
}

#[test]
fn the_table_is_as_wide_as_the_longest_name() {
    let signals = vec![
        entry("Vehicle.Speed", 10, 1),
        entry("Vehicle.Cabin.Light", 1, 2),
        entry("V", 99, 99),
    ];
    let selection: Vec<&Metadata> = signals.iter().collect();
    let table = metadata_table(&selection).unwrap();
    assert_eq!(table.header, "Path                Entry type Data type");
    assert_eq!(
        table.rows,
        vec![
            "Vehicle.Speed       Sensor     Float    ",
            "Vehicle.Cabin.Light Actuator   Bool     ",
            "V                   Unknown    Unknown  ",
        ]
    );
    let max_len_path = 19;
    for (row, signal) in table.rows.iter().zip(signals.iter()) {
        assert_eq!(
            *row,
            format!(
                "{:<max_len_path$} {:<10} {:<9}",
                signal.name,
                DisplayEntryType::from(EntryType::from_i32(signal.entry_type)).text(),
                DisplayDataType::from(DataType::from_i32(signal.data_type)).text(),
            )
        );
    }
}

#[test]
fn a_name_is_measured_in_bytes_and_padded_in_characters() {
    let signals = vec![entry("Tür", 0, 3), entry("Door", 20, 1)];
    let selection: Vec<&Metadata> = signals.iter().collect();
    let table = metadata_table(&selection).unwrap();
    assert_eq!(table.header, "Path Entry type Data type");
    assert_eq!(table.rows[0], "Tür  Attribute  String   ");
    assert_eq!(table.rows[1], "Door Sensor     StringArray");
    let one = vec![entry("äöü", 1, 1)];
    let selection: Vec<&Metadata> = one.iter().collect();
    let table = metadata_table(&selection).unwrap();
    assert_eq!(table.header, "Path   Entry type Data type");
    assert_eq!(table.rows[0], "äöü    Sensor     Bool     ");
}
