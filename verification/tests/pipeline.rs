use yew_custom_components::table::body::can_sort_by;
use yew_custom_components::table::Data;
use yew_custom_components::table::Msg;
use yew_custom_components::table::Pagination;
use yew_custom_components::table::Search;
use yew_custom_components::table::new_table;
use yew_custom_components::table::record::Record;
use yew_custom_components::table::types::Column;
use yew_custom_components::table::types::ColumnBuilder;
use yew_custom_components::table::visible_rows;

fn rec(id: i64, name: &str, value: i64) -> Record {
    Record::new(id, name.to_string(), value)
}

fn columns() -> Vec<Column> {
    vec![
        ColumnBuilder::new("id").orderable(true).data_property("id").build(),
        ColumnBuilder::new("name").orderable(true).data_property("name").build(),
        ColumnBuilder::new("value").orderable(true).data_property("value").build(),
    ]
}

fn rows() -> Vec<Record> {
    vec![rec(1, "b", 10), rec(2, "a", 20), rec(3, "a", 5)]
}

fn all(snapshot: &Data<Record>) -> Vec<Record> {
    visible_rows(snapshot, &Search { search: None }, &Pagination { limit: None, page: 0 })
}

#[test]
fn toggling_name_once_sorts_ascending_with_stable_ties() {
    let snapshot = new_table(columns(), rows(), true).dispatch(Msg::SortColumn(1));
    let visible = all(&snapshot);
    assert_eq!(visible, vec![rec(2, "a", 20), rec(3, "a", 5), rec(1, "b", 10)]);
}

#[test]
fn toggling_name_twice_sorts_descending_keeping_tie_order() {
    let snapshot = new_table(columns(), rows(), true)
        .dispatch(Msg::SortColumn(1))
        .dispatch(Msg::SortColumn(1));
    let visible = all(&snapshot);
    assert_eq!(visible, vec![rec(1, "b", 10), rec(2, "a", 20), rec(3, "a", 5)]);
}

#[test]
fn toggling_three_times_returns_to_input_order() {
    let snapshot = new_table(columns(), rows(), true)
        .dispatch(Msg::SortColumn(1))
        .dispatch(Msg::SortColumn(1))
        .dispatch(Msg::SortColumn(1));
    assert_eq!(all(&snapshot), rows());
}

#[test]
fn sorting_by_an_integer_column_orders_numerically() {
    let snapshot = new_table(columns(), rows(), true).dispatch(Msg::SortColumn(2));
    let visible = all(&snapshot);
    assert_eq!(visible, vec![rec(3, "a", 5), rec(1, "b", 10), rec(2, "a", 20)]);
}

#[test]
fn search_matches_case_insensitively() {
    let data = vec![rec(1, "Big Brown Fox", 1), rec(2, "Lazy Dog", 2)];
    let snapshot = new_table(columns(), data, true);
    let visible = visible_rows(
        &snapshot,
        &Search { search: Some("fox".to_string()) },
        &Pagination { limit: None, page: 0 },
    );
    assert_eq!(visible, vec![rec(1, "Big Brown Fox", 1)]);
    let visible = visible_rows(
        &snapshot,
        &Search { search: Some("FOX".to_string()) },
        &Pagination { limit: None, page: 0 },
    );
    assert_eq!(visible, vec![rec(1, "Big Brown Fox", 1)]);
}

#[test]
fn empty_search_keeps_every_row() {
    let snapshot = new_table(columns(), rows(), true);
    let visible = visible_rows(
        &snapshot,
        &Search { search: Some(String::new()) },
        &Pagination { limit: None, page: 0 },
    );
    assert_eq!(visible, rows());
}

#[test]
fn filtering_twice_by_the_same_needle_changes_nothing() {
    let data = vec![rec(1, "Big Brown Fox", 1), rec(2, "Lazy Dog", 2), rec(3, "Foxglove", 3)];
    let needle = Search { search: Some("fox".to_string()) };
    let window = Pagination { limit: None, page: 0 };
    let snapshot = new_table(columns(), data, true);
    let once = visible_rows(&snapshot, &needle, &window);
    let again = visible_rows(&new_table(columns(), once.clone(), true), &needle, &window);
    assert_eq!(again, once);
}

#[test]
fn can_sort_by_reports_the_misconfigured_field() {
    assert!(can_sort_by(&rows(), "id"));
    assert!(can_sort_by(&rows(), "name"));
    assert!(!can_sort_by(&rows(), "label"));
}

#[test]
fn sort_key_failure_falls_back_to_input_order() {
    // The "label" column is orderable but projects a field the row type
    // does not recognise: the read degrades to unsorted, never panics.
    let cols = vec![ColumnBuilder::new("label").orderable(true).data_property("label").build()];
    let snapshot = new_table(cols, rows(), true).dispatch(Msg::SortColumn(0));
    assert_eq!(all(&snapshot), rows());
}

#[test]
fn column_without_data_property_leaves_order_unchanged() {
    let cols = vec![ColumnBuilder::new("decor").orderable(true).build()];
    let snapshot = new_table(cols, rows(), true).dispatch(Msg::SortColumn(0));
    assert_eq!(all(&snapshot), rows());
}

#[test]
fn out_of_range_toggle_is_a_safe_no_op_on_the_rows() {
    let snapshot = new_table(columns(), rows(), true).dispatch(Msg::SortColumn(17));
    assert_eq!(all(&snapshot), rows());
}

#[test]
fn mixed_key_kinds_sort_integers_before_texts() {
    // Rows keyed by "id" all give integer keys; this checks the text/int
    // ordering through a name sort over ids rendered as names instead.
    let data = vec![rec(7, "10", 0), rec(8, "apple", 0), rec(9, "2", 0)];
    let snapshot = new_table(columns(), data, true).dispatch(Msg::SortColumn(1));
    let visible = all(&snapshot);
    // Text keys sort lexicographically by character: "10" < "2" < "apple".
    assert_eq!(visible, vec![rec(7, "10", 0), rec(9, "2", 0), rec(8, "apple", 0)]);
}
