use databroker_cli::text::{
    chars_of, fold_case, is_space, split_fields, split_first_word, split_text, starts_with,
    string_of, text_less, trimmed, trimmed_start, Delimiter,
};

fn v(s: &str) -> Vec<char> {
    s.chars().collect()
}

fn s(v: &Vec<char>) -> String {
    v.iter().collect()
}

fn all(list: &Vec<Vec<char>>) -> Vec<String> {
    list.iter().map(s).collect()
}

const SAMPLES: [&str; 16] = [
    "",
    " ",
    "a",
    " a",
    "a ",
    "  set  Vehicle.Speed   12 ",
    "\tget\tA.B  C.D\n",
    "a.b.c",
    ".",
    "..",
    "a..b",
    ".a.",
    "\u{a0}x\u{2003}y\u{3000}",
    "x\u{85}y",
    "näme.Ünd.ß",
    "one two  three   ",
];

#[test]
fn conversions_keep_every_character() {
    for sample in SAMPLES {
        assert_eq!(chars_of(sample), v(sample));
        assert_eq!(string_of(&v(sample)), sample);
    }
}

#[test]
fn whitespace_is_what_the_standard_library_calls_whitespace() {
    for code in 0..=0x10ffffu32 {
        if let Some(c) = char::from_u32(code) {
            assert_eq!(is_space(c), c.is_whitespace(), "U+{:04X}", code);
        }
    }
}

#[test]
fn trimming_agrees_with_the_standard_library() {
    for sample in SAMPLES {
        assert_eq!(s(&trimmed(&v(sample))), sample.trim());
        assert_eq!(s(&trimmed_start(&v(sample))), sample.trim_start());
    }
}

#[test]
fn splitting_keeps_empty_pieces() {
    assert_eq!(all(&split_text(&v(""), Delimiter::Char('.'))), vec![""]);
    assert_eq!(all(&split_text(&v("."), Delimiter::Char('.'))), vec!["", ""]);
    assert_eq!(
        all(&split_text(&v("a..b"), Delimiter::Char('.'))),
        vec!["a", "", "b"]
    );
    for sample in SAMPLES {
        let want: Vec<String> = sample.split('.').map(|p| p.to_string()).collect();
        assert_eq!(all(&split_text(&v(sample), Delimiter::Char('.'))), want);
        let want: Vec<String> = sample
            .split(char::is_whitespace)
            .map(|p| p.to_string())
            .collect();
        assert_eq!(all(&split_text(&v(sample), Delimiter::Whitespace)), want);
    }
}

#[test]
fn fields_are_the_pieces_that_are_not_empty() {
    assert_eq!(all(&split_fields(&v(""), Delimiter::Whitespace)).len(), 0);
    assert_eq!(
        all(&split_fields(&v("a,,b,"), Delimiter::Char(','))),
        vec!["a", "b"]
    );
    for sample in SAMPLES {
        let want: Vec<String> = sample.split_whitespace().map(|p| p.to_string()).collect();
        assert_eq!(all(&split_fields(&v(sample), Delimiter::Whitespace)), want);
    }
}

#[test]
fn first_word_and_what_follows() {
    let cases = [
        ("", "", ""),
        ("   ", "", ""),
        ("get", "get", ""),
        ("  get  ", "get", ""),
        ("set Vehicle.Speed 12", "set", "Vehicle.Speed 12"),
        ("  set \t Vehicle.Speed   12  ", "set", "Vehicle.Speed   12"),
        ("subscribe SELECT a WHERE b > 1", "subscribe", "SELECT a WHERE b > 1"),
        ("a\u{3000}b c", "a", "b c"),
    ];
    for (line, word, rest) in cases {
        let (w, r) = split_first_word(&v(line));
        assert_eq!(s(&w), word, "{:?}", line);
        assert_eq!(s(&r), rest, "{:?}", line);
    }
}

#[test]
fn texts_are_ordered_as_strings_are() {
    for a in SAMPLES {
        for b in SAMPLES {
            assert_eq!(text_less(&v(a), &v(b)), a < b, "{:?} {:?}", a, b);
        }
    }
    assert!(text_less(&v("Z"), &v("a")));
    assert!(text_less(&v("a"), &v("a.")));
    assert!(!text_less(&v("a"), &v("a")));
    assert!(text_less(&v("z"), &v("ä")));
}

#[test]
fn prefixes() {
    assert!(starts_with(&v("vehicle"), &v("")));
    assert!(starts_with(&v("vehicle"), &v("veh")));
    assert!(starts_with(&v("vehicle"), &v("vehicle")));
    assert!(!starts_with(&v("vehicle"), &v("vehicles")));
    assert!(!starts_with(&v("vehicle"), &v("eh")));
    for a in SAMPLES {
        for b in SAMPLES {
            assert_eq!(starts_with(&v(a), &v(b)), a.starts_with(b));
        }
    }
}

#[test]
fn folding_lower_cases() {
    assert_eq!(s(&fold_case(&v("Vehicle.ABC"))), "vehicle.abc");
    assert_eq!(s(&fold_case(&v(""))), "");
    assert_eq!(s(&fold_case(&v("ÄÖÜ"))), "äöü");
    for sample in SAMPLES {
        assert_eq!(s(&fold_case(&v(sample))), sample.to_lowercase());
    }
    // One character may become two.
    assert_eq!(fold_case(&v("İ")).len(), 2);
}
