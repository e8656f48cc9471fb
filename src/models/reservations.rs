use vstd::prelude::*;
use crate::error::LedgerError;
use crate::validation::{present, require_in_range, require_present, MAX_PCS};

verus! {

/// Units committed to one (order, product), credited to a reservation bin.
pub struct Reservations {
    pub order_number: String,
    pub product_code: String,
    pub reservation_warehouse: String,
    pub reservation_location: String,
    pub pcs: i32,
}

/// The mathematical content of a reservation.
pub struct ReservationView {
    pub order_number: Seq<char>,
    pub product_code: Seq<char>,
    pub reservation_warehouse: Seq<char>,
    pub reservation_location: Seq<char>,
    pub pcs: int,
}

impl View for Reservations {
    type V = ReservationView;

    open spec fn view(&self) -> ReservationView {
        ReservationView {
            order_number: self.order_number@,
            product_code: self.product_code@,
            reservation_warehouse: self.reservation_warehouse@,
            reservation_location: self.reservation_location@,
            pcs: self.pcs as int,
        }
    }
}

pub open spec fn reservation_key(r: ReservationView) -> (Seq<char>, Seq<char>) {
    (r.order_number, r.product_code)
}

impl Reservations {
    /// A field-by-field copy.
    pub fn copy(&self) -> (r: Reservations)
        ensures
            r@ == self@,
    {
        Reservations {
            order_number: self.order_number.clone(),
            product_code: self.product_code.clone(),
            reservation_warehouse: self.reservation_warehouse.clone(),
            reservation_location: self.reservation_location.clone(),
            pcs: self.pcs,
        }
    }
}

/// A request to commit `pcs` units of a product to an order: they leave
/// (current_warehouse, current_location) and are credited to
/// (reservation_warehouse, reservation_location).
pub struct AddReservationForOrderNumber {
    pub order_number: String,
    pub product_code: String,
    pub current_warehouse: String,
    pub current_location: String,
    pub reservation_warehouse: String,
    pub reservation_location: String,
    pub pcs: i32,
}

impl AddReservationForOrderNumber {
    pub open spec fn fields_present(&self) -> bool {
        present(self.order_number@) && present(self.product_code@) && present(
            self.current_warehouse@,
        ) && present(self.current_location@) && present(self.reservation_warehouse@) && present(
            self.reservation_location@,
        )
    }

    /// Every text field is non-empty and `pcs` lies in `0..=10000`.
    pub fn validate(&self) -> (r: Result<(), LedgerError>)
        ensures
            r == (if !self.fields_present() {
                Err(LedgerError::MissingField)
            } else if !(0 <= self.pcs <= MAX_PCS) {
                Err(LedgerError::InvalidQuantity)
            } else {
                Ok(())
            }),
    {
        require_present(&self.order_number)?;
        require_present(&self.product_code)?;
        require_present(&self.current_warehouse)?;
        require_present(&self.current_location)?;
        require_present(&self.reservation_warehouse)?;
        require_present(&self.reservation_location)?;
        require_in_range(self.pcs, 0, MAX_PCS)
    }
}

/// One line of a fulfilment report. `fulfilment_perc` is the reserved share
/// of the demand in hundredths of a percent (`10000` is fully reserved).
pub struct GetReservationsPerSalesOrder {
    pub order_number: String,
    pub product_code: String,
    pub color: String,
    pub product_name: String,
    pub order_pcs: i32,
    pub company: String,
    pub reserved_pcs: i32,
    pub fulfilment_perc: i64,
}

/// A request to drop every reservation of an order.
pub struct DeleteReservations {
    pub order_number: String,
}

impl DeleteReservations {
    pub fn validate(&self) -> (r: Result<(), LedgerError>)
        ensures
            r == (if present(self.order_number@) { Ok(()) } else { Err(LedgerError::MissingField) }),
    {
        require_present(&self.order_number)
    }
}

} // verus!
