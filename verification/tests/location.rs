use htmplate::Location;

#[test]
fn resolves_offset_to_line_and_column() {
    let loc = Location::from_byte_index(4, b"ab\ncd", "page.html");
    assert_eq!(loc.line, 2);
    assert_eq!(loc.column, 2);
    assert_eq!(loc.path, "page.html");
}

#[test]
fn resolves_offset_zero_to_start() {
    let loc = Location::from_byte_index(0, b"ab\ncd", "page.html");
    assert_eq!(loc.line, 1);
    assert_eq!(loc.column, 1);
}

#[test]
fn resolves_offset_on_first_line() {
    let loc = Location::from_byte_index(1, b"ab\ncd", "page.html");
    assert_eq!(loc.line, 1);
    assert_eq!(loc.column, 2);
}

#[test]
fn resolution_stops_at_end_of_source() {
    let loc = Location::from_byte_index(100, b"ab\ncd", "page.html");
    assert_eq!(loc.line, 2);
    assert_eq!(loc.column, 3);
}

#[test]
fn resolution_is_idempotent_for_same_inputs() {
    let first = Location::from_byte_index(4, b"ab\ncd", "page.html");
    let second = Location::from_byte_index(4, b"ab\ncd", "page.html");
    assert_eq!(first.line, second.line);
    assert_eq!(first.column, second.column);
}

#[test]
fn describes_as_path_line_column() {
    let loc = Location::from_byte_index(4, b"ab\ncd", "page.html");
    assert_eq!(loc.describe(), "page.html:2:2");
}
