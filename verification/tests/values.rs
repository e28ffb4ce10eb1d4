use roma::{format_values, get_value, get_values, is_boolean, is_number, Arguments};

fn strings(items: &[&str]) -> Vec<String> {
    items.iter().map(|s| s.to_string()).collect()
}

fn arguments(typed: bool) -> Arguments {
    Arguments {
        source: String::from("people.csv"),
        target: String::from("people.sql"),
        target_type: String::from("sql"),
        delimiter: b',',
        has_headers: true,
        table: String::from("people"),
        columns: Vec::new(),
        chunk: 0,
        chunk_insert: 0,
        prefix: String::new(),
        suffix: String::new(),
        with_transaction: false,
        typed,
    }
}

#[test]
fn typed_integer_is_unquoted() {
    assert_eq!(get_value("42"), "42");
}

#[test]
fn typed_decimal_is_unquoted() {
    assert_eq!(get_value("3.14"), "3.14");
}

#[test]
fn typed_boolean_keeps_its_case() {
    assert_eq!(get_value("true"), "true");
    assert_eq!(get_value("FALSE"), "FALSE");
    assert_eq!(get_value("TrUe"), "TrUe");
}

#[test]
fn typed_empty_is_null() {
    assert_eq!(get_value(""), "NULL");
}

#[test]
fn typed_text_is_quoted_and_escaped() {
    assert_eq!(get_value("O'Brien"), "'O''Brien'");
    assert_eq!(get_value("abc"), "'abc'");
    assert_eq!(get_value("''"), "''''''");
}

#[test]
fn typed_number_wins_over_text() {
    assert_eq!(get_value("-1e-3"), "-1e-3");
    assert_eq!(get_value("+.5"), "+.5");
    assert_eq!(get_value("inf"), "inf");
    assert_eq!(get_value("NaN"), "NaN");
    assert_eq!(get_value("1e"), "'1e'");
    assert_eq!(get_value(" 1"), "' 1'");
}

#[test]
fn untyped_values_are_always_quoted() {
    let record = strings(&["42", "true", "", "O'Brien", "NULL"]);
    assert_eq!(
        get_values(&arguments(false), &record),
        "('42', 'true', '', 'O''Brien', 'NULL')"
    );
}

#[test]
fn untyped_empty_is_empty_literal() {
    assert_eq!(format_values(&strings(&[""]), false), "('')");
}

#[test]
fn typed_values_of_a_record() {
    let record = strings(&["42", "3.14", "true", "FALSE", "", "O'Brien", "abc"]);
    assert_eq!(
        get_values(&arguments(true), &record),
        "(42, 3.14, true, FALSE, NULL, 'O''Brien', 'abc')"
    );
}

#[test]
fn empty_record_is_empty_tuple() {
    assert_eq!(format_values(&Vec::new(), true), "()");
    assert_eq!(format_values(&Vec::new(), false), "()");
}

#[test]
fn numbers_by_example() {
    for s in [
        "0", "42", "-7", "+7", "3.14", "1.", ".5", "-.5", "1e5", "1E5", "1e+5", "1e-5", "1.e5",
        ".5e5", "inf", "-inf", "+INF", "infinity", "Infinity", "-INFINITY", "nan", "NaN", "-nan",
        "0000", "1234567890123456789012345678901234567890",
    ] {
        assert!(is_number(s), "{:?} reads as a number", s);
    }
    for s in [
        "", "+", "-", ".", "+.", "e", "e5", ".e5", "1e", "1e+", "1e-", "1e5.0", "1.2.3", "--1",
        "+-1", "1 ", " 1", "1_000", "0x10", "1f", "in", "infinit", "infinityy", "nana", "na",
        "１", "١", "1e٥", "abc", "true",
    ] {
        assert!(!is_number(s), "{:?} does not read as a number", s);
    }
}

#[test]
fn numbers_are_what_the_standard_parser_takes() {
    let alphabet = [
        '+', '-', '.', 'e', 'E', '0', '9', 'i', 'n', 'f', 'a', 'I', 'N', 'F', 't', 'y', 'x', ' ',
    ];
    let mut words: Vec<String> = vec![String::new()];
    let mut from = 0;
    for _ in 0..4 {
        let until = words.len();
        for i in from..until {
            for c in alphabet {
                let mut longer = words[i].clone();
                longer.push(c);
                words.push(longer);
            }
        }
        from = until;
    }
    for word in &words {
        assert_eq!(is_number(word), word.parse::<f64>().is_ok(), "{:?}", word);
    }
}

#[test]
fn long_numbers_are_what_the_standard_parser_takes() {
    let alphabet = ['+', '.', 'e', '1', '-'];
    let mut words: Vec<String> = vec![String::new()];
    let mut from = 0;
    for _ in 0..7 {
        let until = words.len();
        for i in from..until {
            for c in alphabet {
                let mut longer = words[i].clone();
                longer.push(c);
                words.push(longer);
            }
        }
        from = until;
    }
    for word in &words {
        assert_eq!(is_number(word), word.parse::<f64>().is_ok(), "{:?}", word);
    }
}

#[test]
fn special_numbers_in_every_case() {
    for word in ["inf", "nan", "infinity"] {
        let letters: Vec<char> = word.chars().collect();
        for mask in 0..(1u32 << letters.len()) {
            let mut mixed = String::new();
            for (i, c) in letters.iter().enumerate() {
                if mask & (1 << i) != 0 {
                    mixed.push(c.to_ascii_uppercase());
                } else {
                    mixed.push(*c);
                }
            }
            for sign in ["", "+", "-"] {
                let signed = format!("{}{}", sign, mixed);
                assert!(is_number(&signed), "{:?}", signed);
                assert!(signed.parse::<f64>().is_ok(), "{:?}", signed);
            }
        }
    }
}

#[test]
fn booleans_by_example() {
    for s in ["true", "false", "TRUE", "FALSE", "True", "fAlSe"] {
        assert!(is_boolean(String::from(s)), "{:?}", s);
    }
    for s in ["", "t", "tru", "truee", " true", "true ", "yes", "0", "1", "falsy", "ſalse"] {
        assert!(!is_boolean(String::from(s)), "{:?}", s);
    }
}

#[test]
fn booleans_are_what_lowercasing_gives() {
    let samples = [
        "true", "TRUE", "tRuE", "false", "FALSE", "FaLsE", "truE ", "\u{212a}", "tr\u{fc}e",
        "\u{130}", "fal\u{17f}e", "TRU\u{c9}", "", "true\n", "\u{ff54}rue",
    ];
    for s in samples {
        let lower = s.to_lowercase();
        assert_eq!(is_boolean(String::from(s)), lower == "true" || lower == "false", "{:?}", s);
    }
}
