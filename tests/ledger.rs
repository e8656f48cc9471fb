use inventory_ledger::error::LedgerError;
use inventory_ledger::inventory::{fulfilment_percent, Inventory};
use inventory_ledger::models::incoming::{identifier_string, AddOrUpdateUniqueIdentifierRequest};
use inventory_ledger::models::reservations::{AddReservationForOrderNumber, Reservations};
use inventory_ledger::models::salesorder::SalesOrder;
use inventory_ledger::planner::AllocationRow;
use inventory_ledger::stock::{StockKey, StockLedger};

fn s(t: &str) -> String {
    t.to_string()
}

fn add_req(warehouse: &str, location: &str, pcs: i32) -> AddOrUpdateUniqueIdentifierRequest {
    AddOrUpdateUniqueIdentifierRequest {
        color: s("red"),
        product_name: s("chair"),
        warehouse: s(warehouse),
        location: s(location),
        pcs,
    }
}

fn key(product: &str, warehouse: &str, location: &str) -> StockKey {
    StockKey { product_code: s(product), warehouse: s(warehouse), location: s(location) }
}

fn line(order: &str, product: &str, pcs: i32) -> SalesOrder {
    SalesOrder {
        order_number: s(order),
        product_code: s(product),
        color: s("red"),
        product_name: s("chair"),
        pcs,
        company: s("Acme"),
    }
}

fn commit(order: &str, product: &str, wh: &str, loc: &str, pcs: i32) -> AddReservationForOrderNumber {
    AddReservationForOrderNumber {
        order_number: s(order),
        product_code: s(product),
        current_warehouse: s(wh),
        current_location: s(loc),
        reservation_warehouse: s(wh),
        reservation_location: s(loc),
        pcs,
    }
}

fn shape(rows: &[AllocationRow]) -> Vec<(String, i32, i32, i32)> {
    rows.iter().map(|r| (r.location.clone(), r.on_hand, r.deducted, r.leftover)).collect()
}

#[test]
fn merge_add_creates_then_accumulates() {
    let mut inv = Inventory::new();
    assert_eq!(inv.add_stock(&s("P"), &add_req("W1", "A", 4)), Ok(4));
    assert_eq!(inv.add_stock(&s("P"), &add_req("W1", "A", 6)), Ok(10));
    assert_eq!(inv.stock().quantity(&key("P", "W1", "A")), 10);
    let found = inv.stock().lookup(&s("P"));
    assert_eq!(found.len(), 1);
    assert_eq!(found[0].concatenated_string, "red^chair^W1^A");
    assert_eq!(found[0].color, "red");
}

#[test]
fn merge_add_rejects_non_positive_and_overflow() {
    let mut ledger = StockLedger::new();
    assert_eq!(ledger.merge_add(&s("P"), &add_req("W1", "A", 0)), Err(LedgerError::InvalidQuantity));
    assert_eq!(ledger.merge_add(&s("P"), &add_req("W1", "A", i32::MAX)), Ok(i32::MAX));
    assert_eq!(ledger.merge_add(&s("P"), &add_req("W1", "A", 1)), Err(LedgerError::InvalidQuantity));
    assert_eq!(ledger.quantity(&key("P", "W1", "A")), i32::MAX);
}

#[test]
fn subtract_to_zero_removes_record() {
    let mut inv = Inventory::new();
    inv.add_stock(&s("P"), &add_req("W1", "A", 5)).unwrap();
    assert_eq!(inv.remove_stock(&key("P", "W1", "A"), 2), Ok(3));
    assert_eq!(inv.remove_stock(&key("P", "W1", "A"), 4), Err(LedgerError::InsufficientStock));
    assert_eq!(inv.stock().quantity(&key("P", "W1", "A")), 3);
    assert_eq!(inv.remove_stock(&key("P", "W1", "A"), 3), Ok(0));
    assert!(inv.stock().lookup(&s("P")).is_empty());
    assert_eq!(inv.remove_stock(&key("P", "W1", "A"), 1), Err(LedgerError::NotFound));
    assert_eq!(inv.remove_stock(&key("P", "W1", "A"), 0), Err(LedgerError::InvalidQuantity));
}

#[test]
fn mixed_sequence_never_leaves_empty_records() {
    let mut ledger = StockLedger::new();
    let k = key("P", "W1", "A");
    for step in 0..20 {
        if step % 3 == 2 {
            let _ = ledger.conditional_subtract(&k, 2);
        } else {
            ledger.merge_add(&s("P"), &add_req("W1", "A", 1)).unwrap();
        }
        for r in ledger.lookup(&s("P")) {
            assert!(r.pcs > 0);
        }
        assert!(ledger.quantity(&k) >= 0);
    }
}

#[test]
fn plan_visits_smallest_location_first() {
    let mut inv = Inventory::new();
    inv.add_stock(&s("P"), &add_req("W1", "A", 5)).unwrap();
    inv.add_stock(&s("P"), &add_req("W1", "B", 3)).unwrap();
    inv.add_order_line(line("O", "P", 6)).unwrap();
    let rows = inv.plan_allocation(&s("O"), &s("P"));
    assert_eq!(shape(&rows), vec![(s("B"), 3, 3, 0), (s("A"), 5, 3, 2)]);
    assert!(rows.iter().all(|r| r.order_demand == 6 && r.product_code == "P"));
}

#[test]
fn plan_deducts_min_of_stock_and_demand() {
    let mut inv = Inventory::new();
    inv.add_stock(&s("P"), &add_req("W1", "A", 5)).unwrap();
    inv.add_stock(&s("P"), &add_req("W2", "B", 3)).unwrap();
    inv.add_stock(&s("Q"), &add_req("W2", "B", 9)).unwrap();
    inv.add_order_line(line("BIG", "P", 100)).unwrap();
    inv.add_order_line(line("SMALL", "P", 4)).unwrap();
    let big: i32 = inv.plan_allocation(&s("BIG"), &s("P")).iter().map(|r| r.deducted).sum();
    assert_eq!(big, 8);
    let small: i32 = inv.plan_allocation(&s("SMALL"), &s("P")).iter().map(|r| r.deducted).sum();
    assert_eq!(small, 4);
    let none = inv.plan_allocation(&s("OTHER"), &s("P"));
    assert_eq!(shape(&none), vec![(s("B"), 3, 0, 3), (s("A"), 5, 0, 5)]);
    assert!(inv.plan_allocation(&s("BIG"), &s("NOSTOCK")).is_empty());
}

#[test]
fn plan_leaves_ledgers_unchanged() {
    let mut inv = Inventory::new();
    inv.add_stock(&s("P"), &add_req("W1", "A", 5)).unwrap();
    inv.add_order_line(line("O", "P", 4)).unwrap();
    inv.commit_reservation(&commit("O", "P", "W1", "A", 1)).unwrap();
    let before = (inv.stock().quantity(&key("P", "W1", "A")), inv.reservations().reserved(&s("O"), &s("P")), inv.orders().demand_for(&s("O"), &s("P")));
    let rows = inv.plan_allocation(&s("O"), &s("P"));
    assert_eq!(shape(&rows), vec![(s("A"), 4, 4, 0)]);
    let after = (inv.stock().quantity(&key("P", "W1", "A")), inv.reservations().reserved(&s("O"), &s("P")), inv.orders().demand_for(&s("O"), &s("P")));
    assert_eq!(before, after);
}

#[test]
fn commit_beyond_stock_is_refused_without_change() {
    let mut inv = Inventory::new();
    inv.add_stock(&s("P"), &add_req("W1", "A", 5)).unwrap();
    inv.add_order_line(line("O", "P", 20)).unwrap();
    assert_eq!(inv.commit_reservation(&commit("O", "P", "W1", "A", 10)), Err(LedgerError::InsufficientStock));
    assert_eq!(inv.stock().quantity(&key("P", "W1", "A")), 5);
    assert_eq!(inv.reservations().reserved(&s("O"), &s("P")), 0);
    assert!(inv.reservations().get(&s("O"), &s("P")).is_none());
}

#[test]
fn commit_respects_demand_ceiling() {
    let mut inv = Inventory::new();
    inv.add_stock(&s("P"), &add_req("W1", "A", 50)).unwrap();
    inv.add_order_line(line("O", "P", 10)).unwrap();
    assert_eq!(inv.commit_reservation(&commit("O", "P", "W1", "A", 7)), Ok(()));
    assert_eq!(inv.commit_reservation(&commit("O", "P", "W1", "A", 5)), Err(LedgerError::OverReservation));
    assert_eq!(inv.reservations().reserved(&s("O"), &s("P")), 7);
    assert_eq!(inv.stock().quantity(&key("P", "W1", "A")), 43);
    assert_eq!(inv.commit_reservation(&commit("O", "P", "W1", "A", 3)), Ok(()));
    assert_eq!(inv.reservations().reserved(&s("O"), &s("P")), 10);
    assert_eq!(inv.stock().quantity(&key("P", "W1", "A")), 40);
}

#[test]
fn restored_reservation_counts_toward_demand() {
    let mut inv = Inventory::new();
    inv.add_stock(&s("P"), &add_req("W1", "A", 50)).unwrap();
    inv.add_order_line(line("O", "P", 10)).unwrap();
    let row = Reservations {
        order_number: s("O"),
        product_code: s("P"),
        reservation_warehouse: s("W9"),
        reservation_location: s("Z"),
        pcs: 7,
    };
    assert_eq!(inv.restore_reservation(row), Ok(()));
    assert_eq!(inv.commit_reservation(&commit("O", "P", "W1", "A", 5)), Err(LedgerError::OverReservation));
    assert_eq!(inv.commit_reservation(&commit("O", "P", "W1", "A", 3)), Ok(()));
    let held = inv.reservations().get(&s("O"), &s("P")).unwrap();
    assert_eq!(held.pcs, 10);
    assert_eq!(held.reservation_warehouse, "W9");
    assert_eq!(held.reservation_location, "Z");
}

#[test]
fn restore_reservation_errors() {
    let mut inv = Inventory::new();
    inv.add_order_line(line("O", "P", 10)).unwrap();
    let mk = |o: &str, p: &str, pcs: i32| Reservations {
        order_number: s(o),
        product_code: s(p),
        reservation_warehouse: s("W"),
        reservation_location: s("L"),
        pcs,
    };
    assert_eq!(inv.restore_reservation(mk("O", "P", -1)), Err(LedgerError::InvalidQuantity));
    assert_eq!(inv.restore_reservation(mk("O", "X", 1)), Err(LedgerError::UnknownOrderProduct));
    assert_eq!(inv.restore_reservation(mk("O", "P", 11)), Err(LedgerError::OverReservation));
    assert_eq!(inv.restore_reservation(mk("O", "P", 10)), Ok(()));
    assert_eq!(inv.restore_reservation(mk("O", "P", 0)), Err(LedgerError::AlreadyExists));
}

#[test]
fn two_commits_that_together_exceed_demand() {
    let mut inv = Inventory::new();
    inv.add_stock(&s("P"), &add_req("W1", "A", 100)).unwrap();
    inv.add_order_line(line("O", "P", 10)).unwrap();
    let first = inv.commit_reservation(&commit("O", "P", "W1", "A", 6));
    let second = inv.commit_reservation(&commit("O", "P", "W1", "A", 6));
    assert_eq!(first, Ok(()));
    assert_eq!(second, Err(LedgerError::OverReservation));
    assert_eq!(inv.reservations().reserved(&s("O"), &s("P")), 6);
}

#[test]
fn commit_error_order() {
    let mut inv = Inventory::new();
    inv.add_stock(&s("P"), &add_req("W1", "A", 5)).unwrap();
    assert_eq!(inv.commit_reservation(&commit("O", "P", "W1", "A", 0)), Err(LedgerError::InvalidQuantity));
    assert_eq!(inv.commit_reservation(&commit("O", "P", "W1", "NOPE", 1)), Err(LedgerError::InsufficientStock));
    assert_eq!(inv.commit_reservation(&commit("O", "P", "W1", "A", 1)), Err(LedgerError::UnknownOrderProduct));
    assert_eq!(inv.stock().quantity(&key("P", "W1", "A")), 5);
}

#[test]
fn commit_that_empties_source_removes_it() {
    let mut inv = Inventory::new();
    inv.add_stock(&s("P"), &add_req("W1", "A", 4)).unwrap();
    inv.add_order_line(line("O", "P", 4)).unwrap();
    let mut req = commit("O", "P", "W1", "A", 4);
    req.reservation_warehouse = s("STAGE");
    req.reservation_location = s("S1");
    assert_eq!(inv.commit_reservation(&req), Ok(()));
    assert!(inv.stock().lookup(&s("P")).is_empty());
    let held = inv.reservations().get(&s("O"), &s("P")).unwrap();
    assert_eq!((held.reservation_warehouse.as_str(), held.reservation_location.as_str(), held.pcs), ("STAGE", "S1", 4));
}

#[test]
fn fulfilment_percent_values() {
    assert_eq!(fulfilment_percent(0, 0), 0);
    assert_eq!(fulfilment_percent(5, 0), 0);
    assert_eq!(fulfilment_percent(1, 3), 3333);
    assert_eq!(fulfilment_percent(2, 3), 6667);
    assert_eq!(fulfilment_percent(10, 10), 10000);
    assert_eq!(fulfilment_percent(1, 8), 1250);
}

#[test]
fn fulfilment_report_joins_reservations() {
    let mut inv = Inventory::new();
    inv.add_stock(&s("P"), &add_req("W1", "A", 50)).unwrap();
    inv.add_order_line(line("O", "P", 3)).unwrap();
    inv.add_order_line(line("O", "Q", 8)).unwrap();
    inv.add_order_line(line("OTHER", "P", 5)).unwrap();
    inv.commit_reservation(&commit("O", "P", "W1", "A", 2)).unwrap();
    let rows = inv.fulfilment_for(&s("O")).unwrap();
    let got: Vec<(String, i32, i32, i64)> = rows
        .iter()
        .map(|r| (r.product_code.clone(), r.order_pcs, r.reserved_pcs, r.fulfilment_perc))
        .collect();
    assert_eq!(got, vec![(s("P"), 3, 2, 6667), (s("Q"), 8, 0, 0)]);
    assert_eq!(rows[0].company, "Acme");
    assert_eq!(inv.fulfilment_for(&s("MISSING")).err(), Some(LedgerError::NotFound));
}

#[test]
fn order_book_refuses_duplicates_and_zero_demand() {
    let mut inv = Inventory::new();
    assert_eq!(inv.add_order_line(line("O", "P", 0)), Err(LedgerError::InvalidQuantity));
    assert_eq!(inv.add_order_line(line("O", "P", 2)), Ok(()));
    assert_eq!(inv.add_order_line(line("O", "P", 3)), Err(LedgerError::AlreadyExists));
    assert_eq!(inv.orders().demand_for(&s("O"), &s("P")), Ok(2));
    assert_eq!(inv.orders().demand_for(&s("O"), &s("X")), Err(LedgerError::NotFound));
    assert_eq!(inv.orders().lines_for_order(&s("O")).len(), 1);
}

#[test]
fn identifier_string_joins_with_caret() {
    assert_eq!(identifier_string(&s("red"), &s("chair"), &s("W1"), &s("A-3")), "red^chair^W1^A-3");
}
