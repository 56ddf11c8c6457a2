use yew_custom_components::table::types::TableOrder;

#[test]
fn rotate_steps_through_the_cycle() {
    assert_eq!(TableOrder::Unordered.rotate(), TableOrder::Ascending);
    assert_eq!(TableOrder::Ascending.rotate(), TableOrder::Descending);
    assert_eq!(TableOrder::Descending.rotate(), TableOrder::Unordered);
}

#[test]
fn rotate_three_times_is_identity() {
    for o in [TableOrder::Unordered, TableOrder::Ascending, TableOrder::Descending] {
        assert_eq!(o.rotate().rotate().rotate(), o);
    }
}

#[test]
fn default_order_is_unordered() {
    assert_eq!(TableOrder::default(), TableOrder::Unordered);
}
