use yew_custom_components::table::Options;
use yew_custom_components::table::error::Error;
use yew_custom_components::table::record::Record;
use yew_custom_components::table::render_cell;
use yew_custom_components::table::render_row;
use yew_custom_components::table::types::ColumnBuilder;
use yew_custom_components::table::types::TableData;
use yew_custom_components::table::types::TableOrder;

fn sample() -> Record {
    Record::new(-42, "Quick Brown Fox".to_string(), 7)
}

#[test]
fn render_cell_projects_the_data_property() {
    let column = ColumnBuilder::new("identity").data_property("id").build();
    assert_eq!(render_cell(&sample(), &column).unwrap(), "-42");
    let column = ColumnBuilder::new("name").build();
    assert_eq!(render_cell(&sample(), &column).unwrap(), "Quick Brown Fox");
    let column = ColumnBuilder::new("value").data_property("value").build();
    assert_eq!(render_cell(&sample(), &column).unwrap(), "7");
}

#[test]
fn render_cell_reports_an_unknown_field() {
    let column = ColumnBuilder::new("ghostly").build();
    match render_cell(&sample(), &column) {
        Err(Error::InvalidFieldName(name)) => assert_eq!(name, "ghostly"),
        other => panic!("expected an invalid-field error, got {other:?}"),
    }
}

#[test]
fn render_row_turns_a_failed_cell_into_empty_text() {
    let columns = vec![
        ColumnBuilder::new("id").data_property("id").build(),
        ColumnBuilder::new("missing").build(),
        ColumnBuilder::new("name").data_property("name").build(),
    ];
    let texts = render_row(&sample(), &columns);
    assert_eq!(texts, vec!["-42".to_string(), String::new(), "Quick Brown Fox".to_string()]);
}

#[test]
fn record_projects_values_and_matches_search() {
    let row = sample();
    assert!(row.matches_search(None));
    assert!(row.matches_search(Some("fox".to_string())));
    assert!(row.matches_search(Some("QUICK".to_string())));
    assert!(!row.matches_search(Some("lazy".to_string())));
    assert_eq!(row.get_field_as_html("id").unwrap(), "-42");
    assert!(row.get_field_as_value("nothing").is_err());
}

#[test]
fn error_description_and_field_name() {
    let error = Error::InvalidFieldName("width".to_string());
    assert_eq!(error.description(), "Invalid field name given.");
    assert_eq!(error.field_name(), "width");
    let error = Error::NonRenderableField("height".to_string());
    assert_eq!(error.description(), "Field has no HTML representation defined.");
    assert_eq!(error.field_name(), "height");
}

#[test]
fn column_display_name_prefers_the_short_name() {
    let column = ColumnBuilder::new("identity").short_name("ID").build();
    assert_eq!(column.display_name(), "ID");
    let column = ColumnBuilder::new("identity").build();
    assert_eq!(column.display_name(), "identity");
}

#[test]
fn column_builder_sets_every_field() {
    let column = ColumnBuilder::new("value")
        .orderable(true)
        .data_property("value")
        .short_name("Val")
        .header_class("w-10")
        .header_class("text-end")
        .build();
    assert_eq!(column.name, "value");
    assert_eq!(column.short_name.as_deref(), Some("Val"));
    assert_eq!(column.data_property.as_deref(), Some("value"));
    assert!(column.orderable);
    assert_eq!(column.header_classes, vec!["w-10".to_string(), "text-end".to_string()]);
}

#[test]
fn sorting_class_follows_the_order_state() {
    let options = Options {
        unordered_class: Some("fa-sort".to_string()),
        ascending_class: Some("fa-sort-up".to_string()),
        descending_class: Some("fa-sort-down".to_string()),
        orderable_classes: vec!["mx-1".to_string()],
    };
    assert_eq!(
        options.sorting_class(TableOrder::Unordered).as_deref(),
        Some("fa-sort")
    );
    assert_eq!(
        options.sorting_class(TableOrder::Ascending).as_deref(),
        Some("fa-sort-up")
    );
    assert_eq!(
        options.sorting_class(TableOrder::Descending).as_deref(),
        Some("fa-sort-down")
    );
}
