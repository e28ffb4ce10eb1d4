use roma::{format_fields, get_fields, Arguments, ConvertError};

fn strings(items: &[&str]) -> Vec<String> {
    items.iter().map(|s| s.to_string()).collect()
}

fn arguments(has_headers: bool, columns: &[&str]) -> Arguments {
    Arguments {
        source: String::from("people.csv"),
        target: String::from("people.sql"),
        target_type: String::from("sql"),
        delimiter: b',',
        has_headers,
        table: String::from("people"),
        columns: strings(columns),
        chunk: 0,
        chunk_insert: 0,
        prefix: String::new(),
        suffix: String::new(),
        with_transaction: false,
        typed: false,
    }
}

#[test]
fn columns_win_over_headers() {
    let headers = strings(&["h1", "h2", "h3"]);
    assert_eq!(
        get_fields(&arguments(true, &["id", "name"]), &headers),
        Ok(strings(&["id", "name"]))
    );
}

#[test]
fn columns_are_used_without_headers() {
    let headers = strings(&["1", "Ann"]);
    assert_eq!(
        get_fields(&arguments(false, &["id", "name"]), &headers),
        Ok(strings(&["id", "name"]))
    );
}

#[test]
fn headers_are_used_without_columns() {
    let headers = strings(&["h1", "h2", "h3"]);
    assert_eq!(get_fields(&arguments(true, &[]), &headers), Ok(strings(&["h1", "h2", "h3"])));
}

#[test]
fn empty_header_record_gives_no_fields() {
    assert_eq!(get_fields(&arguments(true, &[]), &Vec::new()), Ok(Vec::new()));
}

#[test]
fn neither_columns_nor_headers_is_a_configuration_error() {
    let headers = strings(&["1", "Ann"]);
    assert_eq!(
        get_fields(&arguments(false, &[]), &headers),
        Err(ConvertError::InvalidConfiguration)
    );
}

#[test]
fn field_list_is_joined_with_comma_and_space() {
    assert_eq!(format_fields(strings(&["id", "name", "age"])), "(id, name, age)");
}

#[test]
fn field_list_of_one_name() {
    assert_eq!(format_fields(strings(&["id"])), "(id)");
}

#[test]
fn field_list_of_no_names() {
    assert_eq!(format_fields(Vec::new()), "()");
}

#[test]
fn field_list_keeps_names_as_they_are() {
    assert_eq!(format_fields(strings(&["first name", "", "a,b"])), "(first name, , a,b)");
}

#[test]
fn field_list_of_columns_whatever_the_headers() {
    let with = get_fields(&arguments(true, &["a", "b"]), &strings(&["x", "y", "z"])).unwrap();
    let without = get_fields(&arguments(false, &["a", "b"]), &Vec::new()).unwrap();
    assert_eq!(format_fields(with), "(a, b)");
    assert_eq!(format_fields(without), "(a, b)");
}
