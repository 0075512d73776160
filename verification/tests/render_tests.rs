use tabprint::Sink;
use tabprint::StringWriter;
use tabprint::Table;
use tabprint::TableError;

fn row(cells: &[&str]) -> Vec<String> {
    cells.iter().map(|c| c.to_string()).collect()
}

fn sample() -> Table {
    let mut t = Table::new(row(&["Name", "Age"]));
    t.add_row(row(&["Alice", "30"])).unwrap();
    t.add_row(row(&["Bob", "7"])).unwrap();
    t
}

#[test]
fn col_width_is_longest_of_title_and_cells() {
    let t = sample();
    assert_eq!(t.get_col_width(0), Ok(5));
    assert_eq!(t.get_col_width(1), Ok(3));
    assert_eq!(t.get_col_width(2), Err(TableError::ColumnIndexError));
}

#[test]
fn render_emits_two_lines_per_row_plus_three() {
    let t = sample();
    let s = t.render_to_string("\n").unwrap();
    assert_eq!(s.lines().count(), 2 * 2 + 3);
}

#[test]
fn render_sample_table_exactly() {
    let t = sample();
    let s = t.render_to_string("\n").unwrap();
    let expected = "+-------+-----+\n\
                    | Name  | Age |\n\
                    +-------+-----+\n\
                    | Alice | 30  |\n\
                    +-------+-----+\n\
                    | Bob   | 7   |\n\
                    +-------+-----+\n";
    assert_eq!(s, expected);
}

#[test]
fn empty_table_renders_three_lines_with_title_widths() {
    let t = Table::new(row(&["Name", "Age"]));
    let s = t.render_to_string("\n").unwrap();
    assert_eq!(s, "+------+-----+\n| Name | Age |\n+------+-----+\n");
    assert_eq!(t.get_col_width(0), Ok(4));
    assert_eq!(t.get_col_width(1), Ok(3));
}

#[test]
fn every_line_has_the_same_length() {
    let t = sample();
    let s = t.render_to_string("\n").unwrap();
    // One separator plus, per column, its width, two spaces and a separator.
    let expected_len = 1 + (5 + 3) + (3 + 3);
    for line in s.lines() {
        assert_eq!(line.chars().count(), expected_len);
    }
}

#[test]
fn string_render_round_trips_through_a_sink() {
    let t = sample();
    let direct = t.render_to_string("\n").unwrap();
    let mut w = StringWriter::new();
    t.print(&mut w, "\n").unwrap();
    assert_eq!(&direct, w.as_string());
    let a: Vec<&str> = direct.lines().collect();
    let b: Vec<&str> = w.as_string().lines().collect();
    assert_eq!(a, b);
    assert_eq!(a.len(), 7);
}

#[test]
fn sink_accumulates_writes_in_order() {
    let mut w = StringWriter::new();
    w.write_str("hello ").unwrap();
    w.write_str("world").unwrap();
    w.flush().unwrap();
    assert_eq!(w.as_string(), "hello world");
    assert_eq!(w.into_string(), "hello world");
}

#[test]
fn custom_separators_are_used() {
    let mut t = sample();
    t.separators('!', '=', '#');
    let s = t.render_to_string("\n").unwrap();
    let expected = "#=======#=====#\n\
                    ! Name  ! Age !\n\
                    #=======#=====#\n\
                    ! Alice ! 30  !\n\
                    #=======#=====#\n\
                    ! Bob   ! 7   !\n\
                    #=======#=====#\n";
    assert_eq!(s, expected);
}

#[test]
fn custom_line_terminator_is_used() {
    let t = sample();
    let s = t.render_to_string("\r\n").unwrap();
    let parts: Vec<&str> = s.split("\r\n").collect();
    assert_eq!(parts.len(), 8);
    assert_eq!(parts[0], "+-------+-----+");
    assert_eq!(parts[1], "| Name  | Age |");
    assert_eq!(parts[7], "");
}

#[test]
fn zero_column_table_renders_bare_separators() {
    let t = Table::new(Vec::new());
    let s = t.render_to_string("\n").unwrap();
    assert_eq!(s, "+\n|\n+\n");
}

#[test]
fn width_and_padding_count_characters_not_bytes() {
    // The layout counts characters (Unicode scalar values): a two-byte
    // character still occupies a single unit of column width.
    let mut t = Table::new(row(&["h"]));
    t.add_row(row(&["héllo"])).unwrap();
    let s = t.render_to_string("\n").unwrap();
    let expected = "+-------+\n\
                    | h     |\n\
                    +-------+\n\
                    | héllo |\n\
                    +-------+\n";
    assert_eq!(s, expected);
}

#[test]
fn cell_update_changes_the_rendering() {
    let mut t = sample();
    t.set_element("Robert".to_string(), 0, 1).unwrap();
    let s = t.render_to_string("\n").unwrap();
    let expected = "+--------+-----+\n\
                    | Name   | Age |\n\
                    +--------+-----+\n\
                    | Alice  | 30  |\n\
                    +--------+-----+\n\
                    | Robert | 7   |\n\
                    +--------+-----+\n";
    assert_eq!(s, expected);
}
