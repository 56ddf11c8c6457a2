use yew_custom_components::table::value::cell_eq;
use yew_custom_components::table::value::cell_lt;
use yew_custom_components::table::value::CellValue;

fn text(s: &str) -> CellValue {
    CellValue::Text(s.chars().collect())
}

#[test]
fn integers_order_numerically() {
    assert!(cell_lt(&CellValue::Int(-3), &CellValue::Int(4)));
    assert!(!cell_lt(&CellValue::Int(4), &CellValue::Int(-3)));
    assert!(!cell_lt(&CellValue::Int(4), &CellValue::Int(4)));
}

#[test]
fn texts_order_lexicographically_by_character() {
    assert!(cell_lt(&text("apple"), &text("banana")));
    assert!(cell_lt(&text("app"), &text("apple")));
    assert!(cell_lt(&text(""), &text("a")));
    assert!(!cell_lt(&text("apple"), &text("apple")));
    // Character order, not numeric order: "10" < "2".
    assert!(cell_lt(&text("10"), &text("2")));
}

#[test]
fn every_integer_orders_before_every_text() {
    assert!(cell_lt(&CellValue::Int(9999), &text("")));
    assert!(!cell_lt(&text("0"), &CellValue::Int(-9999)));
}

#[test]
fn equality_separates_kinds_and_contents() {
    assert!(cell_eq(&CellValue::Int(7), &CellValue::Int(7)));
    assert!(!cell_eq(&CellValue::Int(7), &CellValue::Int(8)));
    assert!(cell_eq(&text("fox"), &text("fox")));
    assert!(!cell_eq(&text("fox"), &text("Fox")));
    assert!(!cell_eq(&CellValue::Int(7), &text("7")));
}
