use roma::{
    generate_sql_file, Arguments, ConvertError, Input, Record, Source, Target, TargetCsv,
    TargetSql,
};

fn strings(items: &[&str]) -> Vec<String> {
    items.iter().map(|s| s.to_string()).collect()
}

fn row(items: &[&str]) -> Record {
    Record::Fields(strings(items))
}

fn arguments() -> Arguments {
    Arguments {
        source: String::from("people.csv"),
        target: String::from("people.sql"),
        target_type: String::from("sql"),
        delimiter: b',',
        has_headers: true,
        table: String::from("people"),
        columns: Vec::new(),
        chunk: 0,
        chunk_insert: 0,
        prefix: String::from("prefix.sql"),
        suffix: String::from("suffix.sql"),
        with_transaction: false,
        typed: true,
    }
}

fn source() -> Source {
    Source {
        headers: row(&["id", "name"]),
        records: vec![row(&["1", "Ann"]), row(&["2", "O'Brien"])],
    }
}

const STATEMENTS: &str =
    "insert into people (id, name) values\n(1, 'Ann');\n\ninsert into people (id, name) values\n(2, 'O''Brien');";

#[test]
fn missing_source_is_not_found() {
    let input = Input {
        source: None,
        prefix: Some(String::from("create table {table};")),
        suffix: Some(String::from("{broken")),
    };
    assert_eq!(TargetSql {}.convert(arguments(), &input), Err(ConvertError::NotFound));
    assert_eq!(TargetCsv {}.convert(arguments(), &input), Err(ConvertError::NotFound));
}

#[test]
fn missing_framing_files_leave_the_statements_alone() {
    let input = Input { source: Some(source()), prefix: None, suffix: None };
    assert_eq!(TargetSql {}.convert(arguments(), &input), Ok(String::from(STATEMENTS)));
    assert_eq!(
        generate_sql_file(&arguments(), &source(), None, None),
        Ok(String::from(STATEMENTS))
    );
}

#[test]
fn framing_goes_around_the_statements() {
    let input = Input {
        source: Some(source()),
        prefix: Some(String::from("create table {table} (id int, name text);\n")),
        suffix: Some(String::from("\ncreate index on {table} (id);\n")),
    };
    let expected = format!(
        "create table people (id int, name text);\n\n{STATEMENTS}\ncreate index on people (id);\n\n"
    );
    assert_eq!(TargetSql {}.convert(arguments(), &input), Ok(expected));
}

#[test]
fn csv_target_is_written_as_sql() {
    let input = Input {
        source: Some(source()),
        prefix: Some(String::from("-- {table}")),
        suffix: None,
    };
    let expected = format!("-- people\n{STATEMENTS}");
    assert_eq!(TargetCsv {}.convert(arguments(), &input), Ok(expected.clone()));
    assert_eq!(TargetSql {}.convert(arguments(), &input), Ok(expected));
}

#[test]
fn broken_prefix_is_a_configuration_error() {
    assert_eq!(
        generate_sql_file(&arguments(), &source(), Some("{table"), None),
        Err(ConvertError::InvalidConfiguration)
    );
}

#[test]
fn broken_suffix_is_a_configuration_error() {
    assert_eq!(
        generate_sql_file(&arguments(), &source(), None, Some("{{ for }}")),
        Err(ConvertError::InvalidConfiguration)
    );
}

#[test]
fn first_failing_step_gives_the_error() {
    let mut broken = source();
    broken.records.push(Record::Malformed);
    assert_eq!(
        generate_sql_file(&arguments(), &broken, None, Some("{table")),
        Err(ConvertError::InvalidData)
    );
    assert_eq!(
        generate_sql_file(&arguments(), &broken, Some("{table"), None),
        Err(ConvertError::InvalidConfiguration)
    );
    broken.headers = Record::Malformed;
    assert_eq!(
        generate_sql_file(&arguments(), &broken, Some("{table"), None),
        Err(ConvertError::InvalidData)
    );
}

#[test]
fn unresolved_columns_come_before_everything_else() {
    let mut args = arguments();
    args.has_headers = false;
    let mut broken = source();
    broken.records.push(Record::Malformed);
    assert_eq!(
        generate_sql_file(&args, &broken, Some("{table"), None),
        Err(ConvertError::InvalidConfiguration)
    );
}

#[test]
fn every_error_has_a_message() {
    assert_eq!(ConvertError::NotFound.message(), "CSV file not found");
    assert_eq!(ConvertError::InvalidData.message(), "CSV record could not be read");
    assert_eq!(ConvertError::InvalidConfiguration.message(), "invalid configuration");
    assert_eq!(ConvertError::IoFailure.message(), "SQL file could not be written");
}
