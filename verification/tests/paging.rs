use yew_custom_components::pagination::Options;
use yew_custom_components::pagination::page_window;
use yew_custom_components::pagination::total_pages;
use yew_custom_components::table::Pagination;
use yew_custom_components::table::Search;
use yew_custom_components::table::new_table;
use yew_custom_components::table::record::Record;
use yew_custom_components::table::types::Column;
use yew_custom_components::table::types::ColumnBuilder;
use yew_custom_components::table::visible_rows;

fn rec(id: i64, name: &str, value: i64) -> Record {
    Record::new(id, name.to_string(), value)
}

fn columns() -> Vec<Column> {
    vec![ColumnBuilder::new("id").orderable(true).data_property("id").build()]
}

fn five_rows() -> Vec<Record> {
    (0..5).map(|i| rec(i, "row", i)).collect()
}

fn page(snapshot_rows: Vec<Record>, limit: usize, page: usize) -> Vec<Record> {
    let snapshot = new_table(columns(), snapshot_rows, true);
    visible_rows(
        &snapshot,
        &Search { search: None },
        &Pagination { limit: Some(limit), page },
    )
}

#[test]
fn page_one_of_five_rows_with_limit_two_holds_indices_two_and_three() {
    let visible = page(five_rows(), 2, 1);
    assert_eq!(visible, vec![rec(2, "row", 2), rec(3, "row", 3)]);
}

#[test]
fn a_page_past_the_end_is_empty_not_an_error() {
    let visible = page(five_rows(), 2, 3);
    assert_eq!(visible, Vec::<Record>::new());
}

#[test]
fn the_last_page_may_be_short() {
    let visible = page(five_rows(), 2, 2);
    assert_eq!(visible, vec![rec(4, "row", 4)]);
}

#[test]
fn no_limit_shows_every_row() {
    let snapshot = new_table(columns(), five_rows(), true);
    let visible = visible_rows(
        &snapshot,
        &Search { search: None },
        &Pagination { limit: None, page: 0 },
    );
    assert_eq!(visible, five_rows());
}

#[test]
fn concatenating_all_pages_reconstructs_the_rows() {
    let limit = 2usize;
    let rows = five_rows();
    let pages = total_pages(rows.len(), limit);
    assert_eq!(pages, 3);
    let mut joined = Vec::new();
    for p in 0..pages {
        joined.extend(page(rows.clone(), limit, p));
    }
    assert_eq!(joined, rows);
}

#[test]
fn total_pages_rounds_up_and_is_zero_for_no_rows() {
    assert_eq!(total_pages(0, 3), 0);
    assert_eq!(total_pages(1, 3), 1);
    assert_eq!(total_pages(3, 3), 1);
    assert_eq!(total_pages(4, 3), 2);
    assert_eq!(total_pages(9, 3), 3);
}

#[test]
fn page_window_without_a_cap_offers_every_page() {
    assert_eq!(page_window(7, 3, None), (0, 7));
}

#[test]
fn page_window_centres_the_current_page_where_it_can() {
    // Seven pages, a window of three: page 3 sits in the middle.
    assert_eq!(page_window(7, 3, Some(3)), (2, 5));
    // Near the start the window clamps to the first pages.
    assert_eq!(page_window(7, 0, Some(3)), (0, 3));
    // Near the end it clamps to the last pages.
    assert_eq!(page_window(7, 6, Some(3)), (4, 7));
}

#[test]
fn page_window_with_a_cap_above_the_page_count_offers_every_page() {
    assert_eq!(page_window(2, 1, Some(10)), (0, 2));
}

#[test]
fn pagination_options_default_and_builders() {
    let options = Options::new();
    assert!(options.show_prev_next);
    assert!(!options.show_first_last);
    assert_eq!(options.prev_text, "Previous");
    assert_eq!(options.next_text, "Next");
    assert_eq!(options.first_text, "First");
    assert_eq!(options.last_text, "Last");
    assert_eq!(options.list_classes, vec!["pagination".to_string()]);
    assert_eq!(options.item_classes, vec!["page-item".to_string()]);
    assert_eq!(options.link_classes, vec!["page-link".to_string()]);
    assert_eq!(options.active_item_classes, vec!["active".to_string()]);
    assert_eq!(options.disabled_item_classes, vec!["disabled".to_string()]);

    let options = Options::new()
        .show_prev_next(false)
        .show_first_last(true)
        .first_text("<<".to_string())
        .last_text(">>".to_string())
        .prev_text("<".to_string())
        .next_text(">".to_string())
        .list_classes(vec!["l".to_string()])
        .item_classes(vec!["i".to_string()])
        .active_item_classes(vec!["a".to_string()])
        .disabled_item_classes(vec!["d".to_string()])
        .link_classes(vec!["k".to_string()]);
    assert!(!options.show_prev_next);
    assert!(options.show_first_last);
    assert_eq!(options.first_text, "<<");
    assert_eq!(options.last_text, ">>");
    assert_eq!(options.prev_text, "<");
    assert_eq!(options.next_text, ">");
    assert_eq!(options.list_classes, vec!["l".to_string()]);
    assert_eq!(options.item_classes, vec!["i".to_string()]);
    assert_eq!(options.active_item_classes, vec!["a".to_string()]);
    assert_eq!(options.disabled_item_classes, vec!["d".to_string()]);
    assert_eq!(options.link_classes, vec!["k".to_string()]);
}
