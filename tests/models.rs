use inventory_ledger::error::LedgerError;
use inventory_ledger::models::incoming::{AddOrUpdateUniqueIdentifierRequest, GetCodeAndPcsForSalesOrder, GetProductLocationsByCode};
use inventory_ledger::models::outgoing::RemoveUniqueIdentifierRequest;
use inventory_ledger::models::products::{product_code_for, AddProductCodeToUniqueIdentifiers, Products};
use inventory_ledger::models::reservations::{AddReservationForOrderNumber, DeleteReservations};
use inventory_ledger::models::salesorder::{GetSalesOrder, SalesOrder};
use inventory_ledger::planner::AllocationRow;

fn s(t: &str) -> String {
    t.to_string()
}

#[test]
fn add_request_validation() {
    let mut req = AddOrUpdateUniqueIdentifierRequest { color: s("red"), product_name: s("chair"), warehouse: s("W"), location: s("L"), pcs: 1 };
    assert_eq!(req.validate(), Ok(()));
    req.pcs = 10000;
    assert_eq!(req.validate(), Ok(()));
    req.pcs = 10001;
    assert_eq!(req.validate(), Err(LedgerError::InvalidQuantity));
    req.pcs = 0;
    assert_eq!(req.validate(), Err(LedgerError::InvalidQuantity));
    req.location = s("");
    assert_eq!(req.validate(), Err(LedgerError::MissingField));
}

#[test]
fn remove_request_validation() {
    let mut req = RemoveUniqueIdentifierRequest { color: s("red"), product_name: s("chair"), warehouse: s("W"), location: s("L"), pcs: 3 };
    assert_eq!(req.validate(), Ok(()));
    req.color = s("");
    assert_eq!(req.validate(), Err(LedgerError::MissingField));
}

#[test]
fn reservation_request_allows_zero() {
    let mut req = AddReservationForOrderNumber {
        order_number: s("O"),
        product_code: s("P"),
        current_warehouse: s("W"),
        current_location: s("L"),
        reservation_warehouse: s("W"),
        reservation_location: s("L"),
        pcs: 0,
    };
    assert_eq!(req.validate(), Ok(()));
    req.pcs = -1;
    assert_eq!(req.validate(), Err(LedgerError::InvalidQuantity));
    req.reservation_location = s("");
    assert_eq!(req.validate(), Err(LedgerError::MissingField));
}

#[test]
fn query_validation() {
    assert_eq!(GetSalesOrder { order_number: s("") }.validate(), Err(LedgerError::MissingField));
    assert_eq!(GetSalesOrder { order_number: s("O1") }.validate(), Ok(()));
    assert_eq!(DeleteReservations { order_number: s("") }.validate(), Err(LedgerError::MissingField));
    assert_eq!(GetProductLocationsByCode { product_code: s("806807071421") }.validate(), Ok(()));
    assert_eq!(GetCodeAndPcsForSalesOrder { product_code: s("P"), pcs: 0 }.validate(), Err(LedgerError::InvalidQuantity));
    assert_eq!(AddProductCodeToUniqueIdentifiers { color: s("red"), product_name: s("") }.validate(), Err(LedgerError::MissingField));
}

#[test]
fn sales_order_validation() {
    let mut line = SalesOrder { order_number: s("O"), product_code: s("P"), color: s("red"), product_name: s("chair"), pcs: 5, company: s("Acme") };
    assert_eq!(line.validate(), Ok(()));
    line.company = s("");
    assert_eq!(line.validate(), Err(LedgerError::MissingField));
}

#[test]
fn product_code_lookup() {
    let catalogue = vec![
        Products { product_code: s("111"), color: s("red"), product_name: s("chair") },
        Products { product_code: s("222"), color: s("blue"), product_name: s("chair") },
    ];
    assert_eq!(product_code_for(&catalogue, &s("blue"), &s("chair")), Some(s("222")));
    assert_eq!(product_code_for(&catalogue, &s("green"), &s("chair")), None);
}

#[test]
fn allocation_row_storage_shape() {
    let row = AllocationRow {
        product_code: s("P"),
        color: s("red"),
        product_name: s("chair"),
        warehouse: s("W"),
        location: s("L"),
        on_hand: 5,
        order_demand: 6,
        deducted: 3,
        leftover: 2,
    };
    let out = row.to_sales_order_product();
    assert_eq!(out.location, Some(s("L")));
    assert_eq!(out.warehouse_pcs, Some(5));
    assert_eq!(out.order_pcs, Some(6));
    assert_eq!(out.deducted_pcs, Some(3));
    assert_eq!(out.difference, Some(2));
}
