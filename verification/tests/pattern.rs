use databroker_cli::metadata::Metadata;
use databroker_cli::pattern::{matches_path, path_to_regex, select};

fn entry(id: i32, name: &str) -> Metadata {
    Metadata {
        id,
        name: name.to_string(),
        data_type: 1,
        entry_type: 1,
        change_type: 0,
        description: String::new(),
    }
}

fn signals() -> Vec<Metadata> {
    vec![
        entry(1, "Vehicle.Cabin.Door.IsOpen"),
        entry(2, "Vehicle.Cabin.Light"),
        entry(3, "Vehicle.Speed"),
        entry(4, "VehicleXSpeed"),
    ]
}

fn selected(patterns: &[&str]) -> (Vec<i32>, usize) {
    let properties = signals();
    let patterns: Vec<String> = patterns.iter().map(|p| p.to_string()).collect();
    let selection = select(&properties, &patterns);
    (
        selection.entries.iter().map(|m| m.id).collect(),
        selection.complaints.len(),
    )
}

#[test]
fn a_path_becomes_an_anchored_expression() {
    assert_eq!(path_to_regex(""), "^$");
    assert_eq!(path_to_regex("Vehicle"), "^Vehicle$");
    assert_eq!(path_to_regex("Vehicle.Speed"), "^Vehicle\\.Speed$");
    assert_eq!(path_to_regex("Vehicle.*"), "^Vehicle\\.(.*)$");
    assert_eq!(path_to_regex("*.*"), "^(.*)\\.(.*)$");
    assert_eq!(path_to_regex("a[b"), "^a[b$");
    for path in ["", "a.b", "*", "**.x", "Vehicle.*.IsOpen", "x(y", "ü.ö"] {
        assert_eq!(
            path_to_regex(path),
            format!("^{}$", path.replace('.', r"\.").replace('*', r"(.*)"))
        );
    }
}

#[test]
fn a_name_is_matched_as_a_whole() {
    assert_eq!(matches_path("Vehicle.Speed", "Vehicle.Speed").ok(), Some(true));
    assert_eq!(matches_path("Vehicle.Speed", "VehicleXSpeed").ok(), Some(false));
    assert_eq!(matches_path("Vehicle", "Vehicle.Speed").ok(), Some(false));
    assert_eq!(matches_path("Speed", "Vehicle.Speed").ok(), Some(false));
    assert_eq!(matches_path("Vehicle.*", "Vehicle.Speed").ok(), Some(true));
    assert_eq!(matches_path("*", "").ok(), Some(true));
    assert_eq!(matches_path("", "").ok(), Some(true));
    assert_eq!(matches_path("", "x").ok(), Some(false));
    assert!(matches_path("a[b", "a[b").is_err());
    assert!(matches_path("x(y", "").is_err());
    assert!(matches_path("a[b", "a[b")
        .unwrap_err()
        .contains("unclosed character class"));
    for path in ["a[b", "x(y", "a)", "a{2,1}"] {
        let expression = path_to_regex(path);
        let refused = regex::Regex::new(&expression).unwrap_err();
        assert_eq!(matches_path(path, "anything"), Err(refused.to_string()));
        assert_eq!(matches_path(path, ""), Err(refused.to_string()));
    }
}

#[test]
fn a_dot_is_a_dot_and_a_star_is_anything() {
    assert_eq!(selected(&["Vehicle.Speed"]), (vec![3], 0));
    assert_eq!(selected(&["Vehicle*Speed"]), (vec![3, 4], 0));
    assert_eq!(selected(&["Vehicle.Cabin.*"]), (vec![1, 2], 0));
    assert_eq!(selected(&["*"]), (vec![1, 2, 3, 4], 0));
    assert_eq!(selected(&["Vehicle"]), (vec![], 0));
    assert_eq!(selected(&["vehicle.speed"]), (vec![], 0));
    assert_eq!(selected(&[]), (vec![], 0));
}

#[test]
fn entries_are_listed_path_by_path() {
    assert_eq!(
        selected(&["*.Speed", "Vehicle.Cabin.*", "Vehicle.Speed"]),
        (vec![3, 1, 2, 3], 0)
    );
}

#[test]
fn a_refused_path_is_complained_of_once_and_the_others_still_apply() {
    assert_eq!(selected(&["a[b"]), (vec![], 1));
    assert_eq!(selected(&["Vehicle.Speed", "x(y", "*Light", "a[b"]), (vec![3, 2], 2));
    let properties = signals();
    let patterns = vec!["x(y".to_string()];
    let selection = select(&properties, &patterns);
    assert_eq!(
        selection.complaints,
        vec![format!(
            "Invalid path: {}",
            regex::Regex::new("^x(y$").unwrap_err()
        )]
    );
    let patterns = vec!["a[".to_string(), "*".to_string(), "x(y".to_string()];
    let selection = select(&properties, &patterns);
    assert_eq!(
        selection.complaints,
        vec![
            format!("Invalid path: {}", regex::Regex::new("^a[$").unwrap_err()),
            format!("Invalid path: {}", regex::Regex::new("^x(y$").unwrap_err()),
        ]
    );
}
