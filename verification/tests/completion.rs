use databroker_cli::metadata::{ChangeType, EntryType, Metadata};
use databroker_cli::trie::{CliCompleter, Completion, PathPart, Suffix};
use databroker_cli::value::DataType;

fn entry(id: i32, name: &str) -> Metadata {
    Metadata {
        id,
        name: name.into(),
        data_type: DataType::Bool.code(),
        entry_type: EntryType::Sensor.code(),
        change_type: ChangeType::OnChange.code(),
        description: "".into(),
    }
}

fn completer(names: &[&str]) -> CliCompleter {
    let mut metadata = Vec::new();
    for (i, name) in names.iter().enumerate() {
        metadata.push(entry(i as i32 + 1, name));
    }
    CliCompleter::from_metadata(&metadata)
}

fn shown(completions: &[Completion]) -> Vec<String> {
    completions.iter().map(|c| c.display()).collect()
}

fn inserted(completions: &[Completion]) -> Vec<String> {
    completions.iter().map(|c| c.completion.clone()).collect()
}

#[test]
fn test_entry_path_completion() {
    #[allow(unused_mut, unused_assignments)]
    let mut metadata = Vec::new();
    metadata = [
        Metadata {
            id: 1,
            name: "Vehicle.Test.Test1".into(),
            data_type: DataType::Bool.code(),
            entry_type: EntryType::Sensor.code(),
            change_type: ChangeType::OnChange.code(),
            description: "".into(),
        },
        Metadata {
            id: 2,
            name: "Vehicle.AnotherTest.AnotherTest1".into(),
            data_type: DataType::Bool.code(),
            entry_type: EntryType::Sensor.code(),
            change_type: ChangeType::OnChange.code(),
            description: "".into(),
        },
        Metadata {
            id: 3,
            name: "Vehicle.AnotherTest.AnotherTest2".into(),
            data_type: DataType::Bool.code(),
            entry_type: EntryType::Sensor.code(),
            change_type: ChangeType::OnChange.code(),
            description: "".into(),
        },
    ]
    .to_vec();

    let completer = CliCompleter::from_metadata(&metadata);

    assert_eq!(completer.paths.children.len(), 1);
    assert_eq!(
        completer.paths.child("vehicle").unwrap().children.len(),
        2
    );

    match completer.complete_entry_path("") {
        Some(completions) => {
            assert_eq!(completions.len(), 1);
            assert_eq!(completions[0].display(), "Vehicle.");
        }
        None => panic!("expected completions, got None"),
    }

    match completer.complete_entry_path("v") {
        Some(completions) => {
            assert_eq!(completions.len(), 1);
            assert_eq!(completions[0].display(), "Vehicle.");
        }
        None => panic!("expected completions, got None"),
    }

    match completer.complete_entry_path("vehicle.") {
        Some(completions) => {
            assert_eq!(completions.len(), 2);
            assert_eq!(completions[0].display(), "AnotherTest.");
            assert_eq!(completions[1].display(), "Test.");
        }
        None => panic!("expected completions, got None"),
    }

    match completer.complete_entry_path("vehicle") {
        Some(completions) => {
            assert_eq!(completions.len(), 2);
            assert_eq!(completions[0].display(), "AnotherTest.");
            assert_eq!(completions[1].display(), "Test.");
        }
        None => panic!("expected completions, got None"),
    }
}

#[test]
fn nothing_is_proposed_while_no_signal_is_known() {
    assert_eq!(CliCompleter::new().complete_entry_path(""), None);
    assert_eq!(CliCompleter::new().complete_entry_path("Vehicle."), None);
    assert_eq!(completer(&[]).complete_entry_path("v"), None);
    assert_eq!(PathPart::new().children.len(), 0);
}

#[test]
fn empty_word_proposes_every_root_child_sorted_and_tagged() {
    let c = completer(&["b.x", "Zeta", "a.y.z", "alpha", "B2"]);
    let list = c.complete_entry_path("").unwrap();
    assert_eq!(shown(&list), vec!["B2", "Zeta", "a.", "alpha", "b."]);
    assert_eq!(inserted(&list), vec!["B2", "Zeta", "a.", "alpha", "b."]);
    let suffixes: Vec<Suffix> = list.iter().map(|c| c.suffix).collect();
    assert_eq!(
        suffixes,
        vec![
            Suffix::Standard,
            Suffix::Standard,
            Suffix::Absent,
            Suffix::Standard,
            Suffix::Absent
        ]
    );
}

#[test]
fn empty_word_proposes_root_children_even_beside_an_empty_segment() {
    let c = completer(&[".x", "a"]);
    let list = c.complete_entry_path("").unwrap();
    assert_eq!(shown(&list), vec![".", "a"]);
}

#[test]
fn a_branch_completes_to_its_full_path_with_a_dot() {
    let c = completer(&["Vehicle.Cabin.Door.IsOpen", "Vehicle.Cabin.Light", "Vehicle.Speed"]);
    let list = c.complete_entry_path("vehicle.ca").unwrap();
    assert_eq!(list.len(), 1);
    assert_eq!(list[0].completion, "Vehicle.Cabin.");
    assert_eq!(list[0].display, Some("Cabin.".to_string()));
    assert_eq!(list[0].suffix, Suffix::Absent);

    let list = c.complete_entry_path("Vehicle.Cabin.").unwrap();
    assert_eq!(shown(&list), vec!["Door.", "Light"]);
    assert_eq!(inserted(&list), vec!["Vehicle.Cabin.Door.", "Vehicle.Cabin.Light"]);

    let list = c.complete_entry_path("VEHICLE.s").unwrap();
    assert_eq!(inserted(&list), vec!["Vehicle.Speed"]);
    assert_eq!(list[0].suffix, Suffix::Standard);
}

#[test]
fn a_token_without_a_match_stops_the_walk() {
    let c = completer(&["Vehicle.Cabin.Light", "Vehicle.Speed"]);
    // `x` matches no child of `Vehicle`, so what follows it is not looked at.
    assert_eq!(c.complete_entry_path("vehicle.x.light").unwrap().len(), 0);
    assert_eq!(c.complete_entry_path("nothing").unwrap().len(), 0);
    // An empty token in the middle matches every child by prefix.
    let list = c.complete_entry_path("vehicle..").unwrap();
    assert_eq!(shown(&list), vec!["Cabin.", "Speed"]);
}

#[test]
fn the_first_spelling_of_a_segment_is_kept() {
    let c = completer(&["Vehicle.Speed", "vehicle.Test", "VEHICLE.speed"]);
    assert_eq!(c.paths.children.len(), 1);
    let vehicle = c.paths.child("vehicle").unwrap();
    assert_eq!(vehicle.rel_path, "Vehicle");
    assert_eq!(vehicle.full_path, "Vehicle");
    assert_eq!(vehicle.children.len(), 2);
    assert_eq!(vehicle.child("test").unwrap().full_path, "Vehicle.Test");
    assert_eq!(vehicle.child("speed").unwrap().rel_path, "Speed");
    assert!(vehicle.child("Speed").is_none());
}

#[test]
fn keys_are_lower_cased_beyond_ascii() {
    let c = completer(&["Fahrzeug.ÄNDERUNG", "Fahrzeug.Öl"]);
    let list = c.complete_entry_path("fahrzeug.ä").unwrap();
    assert_eq!(shown(&list), vec!["ÄNDERUNG"]);
    let list = c.complete_entry_path("FAHRZEUG.Ö").unwrap();
    assert_eq!(shown(&list), vec!["Öl"]);
}

#[test]
fn proposals_are_sorted_by_code_point() {
    let c = completer(&["b", "a", "C", "D", "ä", "Z", "aa", "a.b"]);
    let list = c.complete_entry_path("").unwrap();
    let got = shown(&list);
    let mut want = got.clone();
    want.sort();
    assert_eq!(got, want);
    assert_eq!(got, vec!["C", "D", "Z", "a.", "aa", "b", "ä"]);
}

#[test]
fn simple_completion_is_shown_as_inserted() {
    let c = Completion::simple("SELECT".to_string());
    assert_eq!(c.completion, "SELECT");
    assert_eq!(c.display, None);
    assert_eq!(c.suffix, Suffix::Standard);
    assert_eq!(c.display(), "SELECT");
}

fn segments(list: &[&str]) -> Vec<Vec<char>> {
    list.iter().map(|s| s.chars().collect()).collect()
}

fn keyed(paths: &[(&[&str], &[&str])]) -> CliCompleter {
    let mut root = PathPart::new();
    for (parts, keys) in paths {
        root.insert_keyed(&segments(parts), &segments(keys));
    }
    CliCompleter { paths: root }
}

#[test]
fn segments_are_entered_under_the_keys_given() {
    let c = keyed(&[
        (&["Vehicle", "Test", "Test1"], &["vehicle", "test", "test1"]),
        (
            &["Vehicle", "AnotherTest", "AnotherTest1"],
            &["vehicle", "anothertest", "anothertest1"],
        ),
        (
            &["VEHICLE", "AnotherTest", "AnotherTest2"],
            &["vehicle", "anothertest", "anothertest2"],
        ),
    ]);
    assert_eq!(c.paths.children.len(), 1);
    let vehicle = c.paths.child("vehicle").unwrap();
    assert_eq!(vehicle.rel_path, "Vehicle");
    assert_eq!(vehicle.children.len(), 2);
    assert_eq!(
        vehicle.child("anothertest").unwrap().full_path,
        "Vehicle.AnotherTest"
    );
    assert_eq!(vehicle.child("anothertest").unwrap().children.len(), 2);
    assert_eq!(
        c.paths.children[0].children[0].children[0].full_path,
        "Vehicle.Test.Test1"
    );
    assert_eq!(c.paths.children[0].children[0].key, segments(&["test"])[0]);
}

#[test]
fn a_segment_without_a_key_is_left_out() {
    let c = keyed(&[(&["a", "b", "c"], &["a", "b"])]);
    let a = c.paths.child("a").unwrap();
    assert_eq!(a.children.len(), 1);
    assert_eq!(a.child("b").unwrap().children.len(), 0);
    let c = keyed(&[(&["a"], &["a", "b"]), (&[], &["x"]), (&["y"], &[])]);
    assert_eq!(c.paths.children.len(), 1);
    assert_eq!(c.paths.children[0].children.len(), 0);
}

#[test]
fn keys_need_not_be_the_lower_case_form() {
    let c = keyed(&[(&["Speed"], &["S"]), (&["Speed2"], &["s"]), (&["Other"], &["S"])]);
    assert_eq!(c.paths.children.len(), 2);
    assert_eq!(c.paths.children[0].rel_path, "Speed");
    assert_eq!(c.paths.children[1].rel_path, "Speed2");
}

#[test]
fn tokens_complete_as_the_lower_cased_word_does() {
    let names = ["Vehicle.Cabin.Door.IsOpen", "Vehicle.Cabin.Light", "Vehicle.Speed", "Other"];
    let c = completer(&names);
    let cases: [(&str, &[&str]); 8] = [
        ("", &[""]),
        ("v", &["v"]),
        ("Vehicle", &["vehicle"]),
        ("VEHICLE.", &["vehicle", ""]),
        ("vehicle.ca", &["vehicle", "ca"]),
        ("vehicle.cabin.d", &["vehicle", "cabin", "d"]),
        ("vehicle..x", &["vehicle", "", "x"]),
        ("nothing.here", &["nothing", "here"]),
    ];
    for (word, tokens) in cases {
        assert_eq!(
            c.complete_tokens(&segments(tokens)),
            c.complete_entry_path(word),
            "{:?}",
            word
        );
    }
    // Tokens are taken as they are: nothing lowers them.
    assert_eq!(c.complete_tokens(&segments(&["Vehicle"])).unwrap().len(), 0);
    assert_eq!(shown(&c.complete_tokens(&segments(&["vehicle"])).unwrap()), vec!["Cabin.", "Speed"]);
    // No token at all asks for the children of the root.
    assert_eq!(shown(&c.complete_tokens(&vec![]).unwrap()), vec!["Other", "Vehicle."]);
    assert_eq!(CliCompleter::new().complete_tokens(&segments(&[""])), None);
}

#[test]
fn tokens_complete_a_trie_of_given_keys() {
    let c = keyed(&[
        (&["Vehicle", "Test", "Test1"], &["vehicle", "test", "test1"]),
        (
            &["Vehicle", "AnotherTest", "AnotherTest1"],
            &["vehicle", "anothertest", "anothertest1"],
        ),
        (
            &["Vehicle", "AnotherTest", "AnotherTest2"],
            &["vehicle", "anothertest", "anothertest2"],
        ),
    ]);
    let list = c.complete_tokens(&segments(&["vehicle", ""])).unwrap();
    assert_eq!(shown(&list), vec!["AnotherTest.", "Test."]);
    assert_eq!(inserted(&list), vec!["Vehicle.AnotherTest.", "Vehicle.Test."]);
    let list = c.complete_tokens(&segments(&["vehicle", "anothertest", "another"])).unwrap();
    assert_eq!(shown(&list), vec!["AnotherTest1", "AnotherTest2"]);
    assert_eq!(list[0].suffix, Suffix::Standard);
}
