use inventory_manager::ledger::{
    Date, Ledger, MovementError, TransactionKind, ValidationError,
};

fn date() -> Date {
    Date { year: 2025, month: 1, day: 1 }
}

#[test]
fn add_item_assigns_sequential_ids() {
    let mut l = Ledger::new();
    let id1 = l.add_item("Bolt", "B1", "ea", "A1", "3").unwrap();
    assert_eq!(id1, 1);
    // A failed attempt must not consume an id.
    let r = l.add_item("", "X", "ea", "A1", "1");
    assert_eq!(r, Err(ValidationError::MissingRequiredField));
    let id2 = l.add_item("Nut", "N1", "ea", "B2", "4").unwrap();
    assert_eq!(id2, 2);
    let id3 = l.add_item("Washer", "W9", "ea", "B3", "0").unwrap();
    assert_eq!(id3, 3);
}

#[test]
fn add_item_missing_name_rejected() {
    let mut l = Ledger::new();
    let r = l.add_item("", "X", "ea", "A1", "1");
    assert_eq!(r, Err(ValidationError::MissingRequiredField));
    assert_eq!(l.items.len(), 0);
}

#[test]
fn add_item_missing_sku_rejected() {
    let mut l = Ledger::new();
    let r = l.add_item("Bolt", "", "ea", "A1", "1");
    assert_eq!(r, Err(ValidationError::MissingRequiredField));
    assert_eq!(l.items.len(), 0);
}

#[test]
fn add_item_whitespace_only_name_rejected() {
    let mut l = Ledger::new();
    let r = l.add_item("   ", "X", "ea", "A1", "1");
    assert_eq!(r, Err(ValidationError::MissingRequiredField));
    assert_eq!(l.items.len(), 0);
}

#[test]
fn add_item_bad_quantity_defaults_to_zero() {
    let mut l = Ledger::new();
    let id = l.add_item("Bolt", "B1", "ea", "A1", "abc").unwrap();
    assert_eq!(id, 1);
    assert_eq!(l.items[0].quantity_on_hand, 0);
}

#[test]
fn add_item_trims_fields() {
    let mut l = Ledger::new();
    l.add_item("  Widget  ", "\tW1 ", " ea", "Shelf1", " 10 ").unwrap();
    assert_eq!(l.items[0].name, "Widget");
    assert_eq!(l.items[0].sku, "W1");
    assert_eq!(l.items[0].unit, "ea");
    assert_eq!(l.items[0].location, "Shelf1");
    assert_eq!(l.items[0].quantity_on_hand, 10);
}

#[test]
fn add_item_quantity_parsing_edges() {
    let mut l = Ledger::new();
    l.add_item("A", "S1", "ea", "L", "+7").unwrap();
    l.add_item("B", "S2", "ea", "L", "-5").unwrap();
    l.add_item("C", "S3", "ea", "L", "2147483648").unwrap();
    l.add_item("D", "S4", "ea", "L", "2147483647").unwrap();
    l.add_item("E", "S5", "ea", "L", "").unwrap();
    l.add_item("F", "S6", "ea", "L", "4e2").unwrap();
    l.add_item("G", "S7", "ea", "L", "-2147483648").unwrap();
    assert_eq!(l.items[0].quantity_on_hand, 7);
    assert_eq!(l.items[1].quantity_on_hand, -5);
    assert_eq!(l.items[2].quantity_on_hand, 0);
    assert_eq!(l.items[3].quantity_on_hand, 2147483647);
    assert_eq!(l.items[4].quantity_on_hand, 0);
    assert_eq!(l.items[5].quantity_on_hand, 0);
    assert_eq!(l.items[6].quantity_on_hand, -2147483648);
}

#[test]
fn movement_receipt_adds_stock() {
    let mut l = Ledger::new();
    l.add_item("Bolt", "B1", "ea", "A1", "3").unwrap();
    let r = l.record_movement(0, "4", "restock", TransactionKind::Receipt, date());
    assert!(r.is_ok());
    assert_eq!(l.items[0].quantity_on_hand, 7);
    assert_eq!(l.transactions.len(), 1);
    assert_eq!(l.transactions[0].quantity, 4);
    assert_eq!(l.transactions[0].item_id, 1);
    assert_eq!(l.transactions[0].note, "restock");
    assert_eq!(l.transactions[0].kind, TransactionKind::Receipt);
    assert_eq!(l.transactions[0].date, date());
}

#[test]
fn insufficient_stock_is_atomic() {
    let mut l = Ledger::new();
    l.add_item("Bolt", "B1", "ea", "A1", "3").unwrap();
    let qoh_before = l.items[0].quantity_on_hand;
    let log_before = l.transactions.len();
    let r = l.record_movement(0, "4", "too much", TransactionKind::Shipment, date());
    assert_eq!(r, Err(MovementError::InsufficientStock));
    assert_eq!(l.items[0].quantity_on_hand, qoh_before);
    assert_eq!(l.transactions.len(), log_before);
}

#[test]
fn zero_quantity_movement_is_recorded() {
    let mut l = Ledger::new();
    l.add_item("Bolt", "B1", "ea", "A1", "3").unwrap();
    let r = l.record_movement(0, "xyz", "noop", TransactionKind::Shipment, date());
    assert!(r.is_ok());
    assert_eq!(l.items[0].quantity_on_hand, 3);
    assert_eq!(l.transactions.len(), 1);
    assert_eq!(l.transactions[0].quantity, 0);
}

#[test]
fn filter_matches_case_insensitive() {
    let mut l = Ledger::new();
    l.add_item("Bolt", "B1", "ea", "A1", "0").unwrap();
    l.add_item("Nut", "N1", "ea", "B2", "0").unwrap();
    let hits = l.list_items("bolt");
    assert_eq!(hits.len(), 1);
    assert_eq!(hits[0].name, "Bolt");
    let all = l.list_items("");
    assert_eq!(all.len(), 2);
    assert_eq!(all[0].name, "Bolt");
    assert_eq!(all[1].name, "Nut");
}

#[test]
fn filter_uppercase_input_matches() {
    let mut l = Ledger::new();
    l.add_item("Bolt", "B1", "ea", "A1", "0").unwrap();
    let hits = l.list_items("BOLT");
    assert_eq!(hits.len(), 1);
    assert_eq!(hits[0].name, "Bolt");
}

#[test]
fn filter_matches_sku_and_location() {
    let mut l = Ledger::new();
    l.add_item("Bolt", "B1", "ea", "A1", "0").unwrap();
    l.add_item("Nut", "N1", "ea", "B2", "0").unwrap();
    let by_sku = l.list_items("n1");
    assert_eq!(by_sku.len(), 1);
    assert_eq!(by_sku[0].name, "Nut");
    let by_loc = l.list_items("a1");
    assert_eq!(by_loc.len(), 1);
    assert_eq!(by_loc[0].name, "Bolt");
}

#[test]
fn list_items_sorts_by_name_then_id() {
    let mut l = Ledger::new();
    l.add_item("Nut", "N1", "ea", "B2", "0").unwrap();
    l.add_item("Bolt", "B2", "ea", "A2", "0").unwrap();
    l.add_item("Bolt", "B1", "ea", "A1", "0").unwrap();
    let all = l.list_items("");
    assert_eq!(all.len(), 3);
    assert_eq!(all[0].name, "Bolt");
    assert_eq!(all[0].id, 2);
    assert_eq!(all[1].name, "Bolt");
    assert_eq!(all[1].id, 3);
    assert_eq!(all[2].name, "Nut");
}

#[test]
fn recent_transactions_most_recent_first() {
    let mut l = Ledger::new();
    l.add_item("Bolt", "B1", "ea", "A1", "10").unwrap();
    l.record_movement(0, "1", "M1", TransactionKind::Receipt, date()).unwrap();
    l.record_movement(0, "2", "M2", TransactionKind::Receipt, date()).unwrap();
    l.record_movement(0, "3", "M3", TransactionKind::Shipment, date()).unwrap();
    let recent = l.recent_transactions(2);
    assert_eq!(recent.len(), 2);
    assert_eq!(recent[0].note, "M3");
    assert_eq!(recent[0].quantity, 3);
    assert_eq!(recent[1].note, "M2");
    assert_eq!(recent[1].quantity, 2);
}

#[test]
fn recent_transactions_limit_beyond_log() {
    let mut l = Ledger::new();
    l.add_item("Bolt", "B1", "ea", "A1", "10").unwrap();
    l.record_movement(0, "1", "only", TransactionKind::Receipt, date()).unwrap();
    let recent = l.recent_transactions(20);
    assert_eq!(recent.len(), 1);
    assert_eq!(recent[0].note, "only");
    let none = l.recent_transactions(0);
    assert_eq!(none.len(), 0);
}

#[test]
fn recency_is_insertion_order_not_date_order() {
    let mut l = Ledger::new();
    l.add_item("Bolt", "B1", "ea", "A1", "10").unwrap();
    let late = Date { year: 2030, month: 12, day: 31 };
    let early = Date { year: 2001, month: 1, day: 1 };
    l.record_movement(0, "1", "first", TransactionKind::Receipt, late).unwrap();
    l.record_movement(0, "2", "second", TransactionKind::Receipt, early).unwrap();
    let recent = l.recent_transactions(1);
    assert_eq!(recent[0].note, "second");
    assert_eq!(recent[0].date, early);
}

#[test]
fn item_name_for_id_finds_items() {
    let mut l = Ledger::new();
    l.add_item("Bolt", "B1", "ea", "A1", "0").unwrap();
    l.add_item("Nut", "N1", "ea", "B2", "0").unwrap();
    assert_eq!(l.item_name_for_id(2), Some("Nut".to_string()));
    assert_eq!(l.item_name_for_id(7), None);
}

#[test]
fn end_to_end_widget_scenario() {
    let mut l = Ledger::new();
    let id = l.add_item("Widget", "W1", "ea", "Shelf1", "10").unwrap();
    assert_eq!(id, 1);
    assert_eq!(l.items[0].quantity_on_hand, 10);
    let r1 = l.record_movement(0, "4", "", TransactionKind::Shipment, date());
    assert!(r1.is_ok());
    assert_eq!(l.items[0].quantity_on_hand, 6);
    assert_eq!(l.transactions.len(), 1);
    assert_eq!(l.transactions[0].quantity, 4);
    let r2 = l.record_movement(0, "10", "", TransactionKind::Shipment, date());
    assert_eq!(r2, Err(MovementError::InsufficientStock));
    assert_eq!(l.items[0].quantity_on_hand, 6);
    assert_eq!(l.transactions.len(), 1);
}

#[test]
fn stock_stays_nonnegative_across_movements() {
    let mut l = Ledger::new();
    l.add_item("Bolt", "B1", "ea", "A1", "5").unwrap();
    let moves: Vec<(&str, TransactionKind)> = vec![
        ("3", TransactionKind::Shipment),
        ("3", TransactionKind::Shipment),
        ("4", TransactionKind::Receipt),
        ("6", TransactionKind::Shipment),
        ("1", TransactionKind::Shipment),
    ];
    for (qty, kind) in moves {
        let _ = l.record_movement(0, qty, "", kind, date());
        assert!(l.items[0].quantity_on_hand >= 0);
    }
}
