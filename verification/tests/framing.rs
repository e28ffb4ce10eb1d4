use roma::{frame, is_white_space, render_framing, template_is_safe, ConvertError};

#[test]
fn missing_file_gives_no_framing() {
    assert_eq!(render_framing(None, "people"), Ok(String::new()));
}

#[test]
fn table_name_is_substituted() {
    assert_eq!(
        render_framing(Some("create table {table} (id int);\n"), "people"),
        Ok(String::from("create table people (id int);\n\n"))
    );
}

#[test]
fn table_name_is_substituted_everywhere() {
    assert_eq!(
        render_framing(Some("{ table }-{table}"), "t"),
        Ok(String::from("t-t\n"))
    );
}

#[test]
fn text_without_placeholder_is_copied() {
    assert_eq!(
        render_framing(Some("-- nothing to see\n"), "people"),
        Ok(String::from("-- nothing to see\n\n"))
    );
}

#[test]
fn empty_file_gives_a_line_break() {
    assert_eq!(render_framing(Some(""), "people"), Ok(String::from("\n")));
}

#[test]
fn conditional_blocks_are_rendered() {
    assert_eq!(
        render_framing(Some("{{ if table }}yes{{ else }}no{{ endif }}"), "t"),
        Ok(String::from("yes\n"))
    );
    assert_eq!(
        render_framing(Some("{{ if not table }}yes{{ else }}no{{ endif }}"), "t"),
        Ok(String::from("no\n"))
    );
}

#[test]
fn unknown_placeholder_is_a_configuration_error() {
    assert_eq!(
        render_framing(Some("create table {name};"), "people"),
        Err(ConvertError::InvalidConfiguration)
    );
}

#[test]
fn unclosed_placeholder_is_a_configuration_error() {
    assert_eq!(
        render_framing(Some("create table {table;"), "people"),
        Err(ConvertError::InvalidConfiguration)
    );
}

#[test]
fn unclosed_block_is_a_configuration_error() {
    assert_eq!(
        render_framing(Some("{{ if table }}yes"), "people"),
        Err(ConvertError::InvalidConfiguration)
    );
}

#[test]
fn table_name_is_put_in_unchanged() {
    assert_eq!(render_framing(Some("{table}\n"), "a&b"), Ok(String::from("a&b\n\n")));
    assert_eq!(
        render_framing(Some("drop table \"{table}\";"), "<o'neil> & \"sons\""),
        Ok(String::from("drop table \"<o'neil> & \"sons\"\";\n"))
    );
}

#[test]
fn file_without_final_line_break_gets_one() {
    assert_eq!(
        render_framing(Some("drop table {table};"), "t"),
        Ok(String::from("drop table t;\n"))
    );
}

#[test]
fn line_breaks_of_the_file_are_kept() {
    assert_eq!(
        render_framing(Some("create table {table} (\r\n  id int\r\n);\r\n"), "people"),
        Ok(String::from("create table people (\r\n  id int\r\n);\r\n\n"))
    );
}

#[test]
fn unsafe_templates_are_configuration_errors() {
    for text in [
        "{#}",
        "a {#} b",
        "\\\\x{#}",
        "ends with a backslash \\",
        "{{ if not }}x{{ endif }}",
        "{{ if not}}x{{ endif }}",
        "{{ if not -}}x{{ endif }}",
        "{{ if not- }}x{{ endif }}",
        "{{- if not -}}x{{ endif }}",
        "{{-if\tnot}}x{{ endif }}",
        "{{ if not\u{e9} }}x{{ endif }}",
        "{{ if not\u{a0}table }}x{{ endif }}",
        "{{ if not \u{a0}}}x{{ endif }}",
        "{{ if\u{2003}not}}x{{ endif }}",
        "{{ if table }}a{{ else }}{{ if not }}b{{ endif }}{{ endif }}",
    ] {
        assert!(!template_is_safe(text), "{:?}", text);
        assert_eq!(
            render_framing(Some(text), "people"),
            Err(ConvertError::InvalidConfiguration),
            "{:?}",
            text
        );
    }
}

#[test]
fn safe_templates() {
    for text in [
        "",
        "create table {table} (id int not null);",
        "-- whether or not",
        "{{ if table }}x{{ endif }}\n-- do not",
        "{{ if table }}x{{ endif }} not-}}",
        "{# a comment #}",
        "{##}",
        "\\{#}",
        "\\{table}",
        "\\{{ if not }}",
        "{{ if not table }}x{{ endif }}",
        "{{ if not -x }}x{{ endif }}",
        "{{ if not --}}x{{ endif }}",
        "{{ if not \u{e9} }}x{{ endif }}",
        "{{ if nothing }}x{{ endif }}",
        "{{ ifnot }}",
        "{{ if table not }}",
        "{ if not }",
        "backslash \\ inside",
    ] {
        assert!(template_is_safe(text), "{:?}", text);
    }
}

#[test]
fn safe_templates_are_rendered_or_rejected() {
    assert_eq!(render_framing(Some("{# a comment #}x"), "t"), Ok(String::from("x\n")));
    assert_eq!(render_framing(Some("{##}x"), "t"), Ok(String::from("x\n")));
    assert_eq!(render_framing(Some("\\{table}"), "t"), Ok(String::from("{table}\n")));
    assert_eq!(render_framing(Some("\\{#}"), "t"), Ok(String::from("{#}\n")));
    assert_eq!(
        render_framing(Some("-- whether or not"), "t"),
        Ok(String::from("-- whether or not\n"))
    );
    assert_eq!(
        render_framing(Some("{{ if table }}x{{ endif }}\n-- do not"), "t"),
        Ok(String::from("x\n-- do not\n"))
    );
    assert_eq!(
        render_framing(Some("{{ if table }}x{{ endif }} not-}}"), "t"),
        Ok(String::from("x not-}}\n"))
    );
    assert_eq!(
        render_framing(Some("{{ if table }}a{{ else }}{{ if not -x }}b{{ endif }}{{ endif }}"), "t"),
        Ok(String::from("a\n"))
    );
    assert_eq!(
        render_framing(Some("{{ if nothing }}x{{ endif }}"), "t"),
        Err(ConvertError::InvalidConfiguration)
    );
    assert_eq!(
        render_framing(Some("{{ if not -x }}x{{ endif }}"), "t"),
        Err(ConvertError::InvalidConfiguration)
    );
}

#[test]
fn spaces_are_what_trimming_removes() {
    for code in 0..=0x10ffffu32 {
        if let Some(c) = char::from_u32(code) {
            assert_eq!(is_white_space(c), c.is_whitespace(), "{:?}", c);
        }
    }
}

#[test]
fn rendering_outcome_becomes_framing() {
    assert_eq!(frame(Some(String::from("drop table t;"))), Ok(String::from("drop table t;\n")));
    assert_eq!(frame(Some(String::new())), Ok(String::from("\n")));
    assert_eq!(frame(None), Err(ConvertError::InvalidConfiguration));
}

fn all_sequences(pieces: &[&str], longest: usize) -> Vec<String> {
    let mut texts: Vec<String> = vec![String::new()];
    let mut from = 0;
    for _ in 0..longest {
        let until = texts.len();
        for i in from..until {
            for piece in pieces {
                let mut longer = texts[i].clone();
                longer.push_str(piece);
                texts.push(longer);
            }
        }
        from = until;
    }
    texts
}

#[test]
fn every_safe_template_of_few_characters_is_rendered_or_rejected() {
    let pieces = ["{", "}", "#", "\\", "-", " ", "n", "o", "t", "i", "f", "\n", "|", "@", "."];
    let mut safe = 0;
    for text in all_sequences(&pieces, 4) {
        if template_is_safe(&text) {
            safe += 1;
            let framing = render_framing(Some(&text), "people");
            assert!(
                framing.is_ok() || framing == Err(ConvertError::InvalidConfiguration),
                "{:?}",
                text
            );
        } else {
            assert_eq!(
                render_framing(Some(&text), "people"),
                Err(ConvertError::InvalidConfiguration),
                "{:?}",
                text
            );
        }
    }
    assert!(safe > 40000);
}

#[test]
fn every_safe_template_of_few_tags_is_rendered_or_rejected() {
    let pieces = [
        "{{", "}}", "{", "}", "{#", "#}", "if", "not", " ", "-", "table", "\\", "\n", "else",
        "endif", "\u{e9}", "\u{a0}", "|",
    ];
    let mut safe = 0;
    for text in all_sequences(&pieces, 4) {
        if template_is_safe(&text) {
            safe += 1;
            let framing = render_framing(Some(&text), "people");
            assert!(
                framing.is_ok() || framing == Err(ConvertError::InvalidConfiguration),
                "{:?}",
                text
            );
        }
    }
    assert!(safe > 50000);
}

#[test]
fn every_safe_condition_is_rendered_or_rejected() {
    let pieces = [
        "if", "not", " ", "\t", "-", "table", "x", "\u{e9}", "\u{a0}", "\u{2003}", "@root", ".",
        "}", "with", "as", "call", "for", "in", "endif", "n", "o", "t",
    ];
    for inner in all_sequences(&pieces, 4) {
        for text in [format!("{{{{{}}}}}", inner), format!("a{{{{{}}}}}b{{{{ endif }}}}", inner)] {
            if template_is_safe(&text) {
                let framing = render_framing(Some(&text), "people");
                assert!(
                    framing.is_ok() || framing == Err(ConvertError::InvalidConfiguration),
                    "{:?}",
                    text
                );
            }
        }
    }
}

#[test]
fn every_safe_negation_is_rendered_or_rejected() {
    let pieces = [" ", "-", "x", "\u{e9}", "\u{a0}", "}", "\n", "\\", "{"];
    for before in ["", " ", "-", " - ", "\u{a0}-\t", "--", "\\", "x"] {
        for between in [" ", "\t", "\u{2003} ", "", "\n", "-"] {
            for after in all_sequences(&pieces, 5) {
                let text = format!("{{{{{}if{}not{}}}}}x{{{{ endif }}}}", before, between, after);
                if template_is_safe(&text) {
                    let framing = render_framing(Some(&text), "people");
                    assert!(
                        framing.is_ok() || framing == Err(ConvertError::InvalidConfiguration),
                        "{:?}",
                        text
                    );
                }
            }
        }
    }
}
