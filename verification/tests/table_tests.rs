use tabprint::Table;
use tabprint::TableError;

fn row(cells: &[&str]) -> Vec<String> {
    cells.iter().map(|c| c.to_string()).collect()
}

fn sample() -> Table {
    let mut t = Table::new(row(&["Name", "Age"]));
    t.add_row(row(&["Alice", "30"])).unwrap();
    t.add_row(row(&["Bob", "7"])).unwrap();
    t
}

#[test]
fn new_table_has_titles_and_no_rows() {
    let t = Table::new(row(&["Name", "Age"]));
    assert_eq!(t.get_column_num(), 2);
    assert_eq!(t.len(), 0);
}

#[test]
fn add_row_returns_dense_indices() {
    let mut t = Table::new(row(&["Name", "Age"]));
    assert_eq!(t.add_row(row(&["Alice", "30"])), Ok(0));
    assert_eq!(t.add_row(row(&["Bob", "7"])), Ok(1));
    assert_eq!(t.len(), 2);
}

#[test]
fn add_row_wrong_arity_is_rejected() {
    let mut t = sample();
    assert_eq!(t.add_row(row(&["only one"])), Err(TableError::RowArityError));
    assert_eq!(t.add_row(row(&["a", "b", "c"])), Err(TableError::RowArityError));
    assert_eq!(t.len(), 2);
    assert_eq!(t.get_row(0).unwrap(), &row(&["Alice", "30"]));
    assert_eq!(t.get_row(1).unwrap(), &row(&["Bob", "7"]));
}

#[test]
fn add_empty_row_appends_blank_cells() {
    let mut t = sample();
    assert_eq!(t.add_empty_row(), Ok(2));
    assert_eq!(t.len(), 3);
    assert_eq!(t.get_row(2).unwrap(), &row(&["", ""]));
}

#[test]
fn set_element_updates_single_cell() {
    let mut t = sample();
    assert_eq!(t.set_element("31".to_string(), 1, 0), Ok(()));
    assert_eq!(t.get_row(0).unwrap(), &row(&["Alice", "31"]));
    assert_eq!(t.get_row(1).unwrap(), &row(&["Bob", "7"]));
}

#[test]
fn set_element_column_out_of_bounds() {
    let mut t = sample();
    assert_eq!(
        t.set_element("x".to_string(), 2, 0),
        Err(TableError::ColumnIndexError)
    );
    assert_eq!(t.len(), 2);
    assert_eq!(t.get_row(0).unwrap(), &row(&["Alice", "30"]));
}

#[test]
fn set_element_row_at_count_is_out_of_bounds() {
    let mut t = sample();
    assert_eq!(
        t.set_element("x".to_string(), 0, 2),
        Err(TableError::RowIndexError)
    );
    assert_eq!(t.len(), 2);
    assert_eq!(t.get_row(0).unwrap(), &row(&["Alice", "30"]));
    assert_eq!(t.get_row(1).unwrap(), &row(&["Bob", "7"]));
}

#[test]
fn remove_row_shifts_later_rows_down() {
    let mut t = sample();
    t.remove_row(0);
    assert_eq!(t.len(), 1);
    assert_eq!(t.get_row(0).unwrap(), &row(&["Bob", "7"]));
}

#[test]
fn remove_row_out_of_range_is_noop() {
    let mut t = sample();
    t.remove_row(2);
    t.remove_row(17);
    assert_eq!(t.len(), 2);
    assert_eq!(t.get_row(0).unwrap(), &row(&["Alice", "30"]));
    assert_eq!(t.get_row(1).unwrap(), &row(&["Bob", "7"]));
}

#[test]
fn get_row_out_of_bounds_is_an_error() {
    let t = sample();
    assert_eq!(t.get_row(2), Err(TableError::RowIndexError));
}

#[test]
fn get_mut_row_mutates_in_place() {
    let mut t = sample();
    let r = t.get_mut_row(1);
    r[0] = "Carol".to_string();
    assert_eq!(t.get_row(1).unwrap(), &row(&["Carol", "7"]));
    assert_eq!(t.len(), 2);
}
