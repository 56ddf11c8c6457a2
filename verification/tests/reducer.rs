use yew_custom_components::table::Msg;
use yew_custom_components::table::Pagination;
use yew_custom_components::table::Search;
use yew_custom_components::table::new_table;
use yew_custom_components::table::record::Record;
use yew_custom_components::table::types::Column;
use yew_custom_components::table::types::ColumnBuilder;
use yew_custom_components::table::types::TableOrder;
use yew_custom_components::table::visible_rows;

fn rec(id: i64, name: &str, value: i64) -> Record {
    Record::new(id, name.to_string(), value)
}

fn columns() -> Vec<Column> {
    vec![
        ColumnBuilder::new("id").orderable(true).data_property("id").build(),
        ColumnBuilder::new("name").orderable(true).data_property("name").build(),
    ]
}

fn active_count(order: &[TableOrder]) -> usize {
    order.iter().filter(|o| **o != TableOrder::Unordered).count()
}

#[test]
fn new_table_starts_with_every_column_unordered() {
    let snapshot = new_table(columns(), vec![rec(1, "a", 1)], true);
    assert_eq!(snapshot.state.order, vec![TableOrder::Unordered, TableOrder::Unordered]);
}

#[test]
fn any_sequence_of_toggles_leaves_at_most_one_active_column() {
    let mut snapshot = new_table(columns(), vec![rec(1, "a", 1)], true);
    for index in [0usize, 1, 1, 0, 1, 0, 0, 1, 1, 1] {
        snapshot = snapshot.dispatch(Msg::SortColumn(index));
        assert!(active_count(&snapshot.state.order) <= 1);
    }
}

#[test]
fn toggling_a_column_resets_the_other_columns() {
    let snapshot = new_table(columns(), vec![rec(1, "a", 1)], true)
        .dispatch(Msg::SortColumn(0))
        .dispatch(Msg::SortColumn(1));
    assert_eq!(snapshot.state.order, vec![TableOrder::Unordered, TableOrder::Ascending]);
}

#[test]
fn set_data_replaces_rows_and_keeps_the_sort_state() {
    let snapshot = new_table(columns(), vec![rec(1, "a", 1)], true).dispatch(Msg::SortColumn(0));
    let order_before = snapshot.state.order.clone();
    let replaced = snapshot.dispatch(Msg::SetData(vec![rec(9, "z", 9)]));
    assert_eq!(replaced.data, vec![rec(9, "z", 9)]);
    assert_eq!(replaced.state.order, order_before);
}

#[test]
fn set_rows_then_toggle_sorts_exactly_the_new_rows() {
    let stale = vec![rec(9, "stale", 9)];
    let fresh = vec![rec(2, "b", 2), rec(1, "a", 1)];
    let snapshot = new_table(columns(), stale, true)
        .dispatch(Msg::SetData(fresh))
        .dispatch(Msg::SortColumn(0));
    let visible = visible_rows(
        &snapshot,
        &Search { search: None },
        &Pagination { limit: None, page: 0 },
    );
    assert_eq!(visible, vec![rec(1, "a", 1), rec(2, "b", 2)]);
}
