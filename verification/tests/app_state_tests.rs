use inventory_manager::app_state::{MyApp, Tab};
use inventory_manager::ledger::TransactionKind;
use inventory_manager::text::parse_or_zero;

#[test]
fn default_app_state() {
    let app = MyApp::default();
    assert_eq!(app.selected_tab, Tab::Inventory);
    assert_eq!(app.selected_year, 2025);
    assert_eq!(app.selected_month, 1);
    assert_eq!(app.selected_day, 1);
    assert_eq!(app.ledger.items.len(), 0);
    assert_eq!(app.ledger.transactions.len(), 0);
    assert_eq!(app.ledger.next_item_id, 1);
    assert_eq!(app.inventory_filter, "");
    assert_eq!(app.add_item_form.status, "");
    assert_eq!(app.warehousing_form.item_index, 0);
    assert_eq!(app.shipping_form.status, "");
}

#[test]
fn submit_add_item_success_clears_form() {
    let mut app = MyApp::default();
    app.add_item_form.name = "Widget".to_string();
    app.add_item_form.sku = "W1".to_string();
    app.add_item_form.unit = "ea".to_string();
    app.add_item_form.location = "Shelf1".to_string();
    app.add_item_form.quantity_text = "10".to_string();
    app.submit_add_item();
    assert_eq!(app.add_item_form.status, "Item added");
    assert_eq!(app.add_item_form.name, "");
    assert_eq!(app.add_item_form.sku, "");
    assert_eq!(app.add_item_form.quantity_text, "");
    assert_eq!(app.ledger.items.len(), 1);
    assert_eq!(app.ledger.items[0].name, "Widget");
    assert_eq!(app.ledger.items[0].quantity_on_hand, 10);
}

#[test]
fn submit_add_item_rejection_keeps_fields() {
    let mut app = MyApp::default();
    app.add_item_form.name = "Widget".to_string();
    app.add_item_form.sku = "".to_string();
    app.add_item_form.quantity_text = "10".to_string();
    app.submit_add_item();
    assert_eq!(app.add_item_form.status, "Name and SKU are required");
    assert_eq!(app.add_item_form.name, "Widget");
    assert_eq!(app.add_item_form.quantity_text, "10");
    assert_eq!(app.ledger.items.len(), 0);
}

#[test]
fn submit_movement_records_and_clears() {
    let mut app = MyApp::default();
    app.add_item_form.name = "Widget".to_string();
    app.add_item_form.sku = "W1".to_string();
    app.add_item_form.quantity_text = "10".to_string();
    app.submit_add_item();
    app.shipping_form.item_index = 0;
    app.shipping_form.quantity_text = "4".to_string();
    app.shipping_form.note = "order 7".to_string();
    app.submit_movement(false);
    assert_eq!(app.shipping_form.status, "Recorded");
    assert_eq!(app.shipping_form.quantity_text, "");
    assert_eq!(app.shipping_form.note, "");
    assert_eq!(app.ledger.items[0].quantity_on_hand, 6);
    assert_eq!(app.ledger.transactions.len(), 1);
    assert_eq!(app.ledger.transactions[0].kind, TransactionKind::Shipment);
    assert_eq!(app.ledger.transactions[0].note, "order 7");
    assert_eq!(app.ledger.transactions[0].date.year, 2025);
}

#[test]
fn submit_movement_insufficient_stock_keeps_fields() {
    let mut app = MyApp::default();
    app.add_item_form.name = "Widget".to_string();
    app.add_item_form.sku = "W1".to_string();
    app.add_item_form.quantity_text = "3".to_string();
    app.submit_add_item();
    app.shipping_form.quantity_text = "5".to_string();
    app.shipping_form.note = "too much".to_string();
    app.submit_movement(false);
    assert_eq!(app.shipping_form.status, "Insufficient stock");
    assert_eq!(app.shipping_form.quantity_text, "5");
    assert_eq!(app.shipping_form.note, "too much");
    assert_eq!(app.ledger.items[0].quantity_on_hand, 3);
    assert_eq!(app.ledger.transactions.len(), 0);
}

#[test]
fn submit_movement_with_empty_catalog_changes_nothing() {
    let mut app = MyApp::default();
    app.warehousing_form.quantity_text = "5".to_string();
    app.submit_movement(true);
    assert_eq!(app.warehousing_form.status, "");
    assert_eq!(app.warehousing_form.quantity_text, "5");
    assert_eq!(app.ledger.transactions.len(), 0);
}

#[test]
fn submit_movement_clamps_stale_index() {
    let mut app = MyApp::default();
    app.add_item_form.name = "Widget".to_string();
    app.add_item_form.sku = "W1".to_string();
    app.add_item_form.quantity_text = "2".to_string();
    app.submit_add_item();
    app.warehousing_form.item_index = 9;
    app.warehousing_form.quantity_text = "1".to_string();
    app.submit_movement(true);
    assert_eq!(app.warehousing_form.item_index, 0);
    assert_eq!(app.warehousing_form.status, "Recorded");
    assert_eq!(app.ledger.items[0].quantity_on_hand, 3);
}

#[test]
fn current_status_message_follows_tab() {
    let mut app = MyApp::default();
    app.add_item_form.status = "Item added".to_string();
    app.warehousing_form.status = "Recorded".to_string();
    app.selected_tab = Tab::Inventory;
    assert_eq!(app.current_status_message(), None);
    app.selected_tab = Tab::AddItem;
    assert_eq!(app.current_status_message(), Some("Item added".to_string()));
    app.selected_tab = Tab::Warehousing;
    assert_eq!(app.current_status_message(), Some("Recorded".to_string()));
    app.selected_tab = Tab::Shipping;
    assert_eq!(app.current_status_message(), None);
}

#[test]
fn parse_or_zero_exact_values() {
    assert_eq!(parse_or_zero("10"), 10);
    assert_eq!(parse_or_zero(" 42 "), 42);
    assert_eq!(parse_or_zero("+7"), 7);
    assert_eq!(parse_or_zero("-5"), -5);
    assert_eq!(parse_or_zero(""), 0);
    assert_eq!(parse_or_zero("abc"), 0);
    assert_eq!(parse_or_zero("12abc"), 0);
    assert_eq!(parse_or_zero("2147483647"), 2147483647);
    assert_eq!(parse_or_zero("2147483648"), 0);
    assert_eq!(parse_or_zero("-2147483648"), -2147483648);
    assert_eq!(parse_or_zero("-2147483649"), 0);
    assert_eq!(parse_or_zero("007"), 7);
    assert_eq!(parse_or_zero("- 5"), 0);
}
