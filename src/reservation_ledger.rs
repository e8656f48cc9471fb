//! The reservation ledger: units committed per (order, product).

use vstd::prelude::*;
use crate::error::LedgerError;
use crate::models::reservations::{
    reservation_key, AddReservationForOrderNumber, ReservationView, Reservations,
};
use crate::models::salesorder::OrderKeyView;

verus! {

/// Reservations in a vector with distinct (order, product) keys; the ghost
/// map is its model.
pub struct ReservationLedger {
    rows: Vec<Reservations>,
    model: Ghost<Map<OrderKeyView, ReservationView>>,
}

/// Units reserved under a key: zero where no reservation exists.
pub open spec fn reserved_of(m: Map<OrderKeyView, ReservationView>, k: OrderKeyView) -> int {
    if m.contains_key(k) {
        m[k].pcs
    } else {
        0
    }
}

/// The reservation a merge-add stores: an existing one grows by the
/// request's quantity and keeps its bin; a new one is credited to the
/// request's reservation bin.
pub open spec fn merged_reservation(
    m: Map<OrderKeyView, ReservationView>,
    req: AddReservationForOrderNumber,
) -> ReservationView {
    let k = (req.order_number@, req.product_code@);
    if m.contains_key(k) {
        ReservationView { pcs: m[k].pcs + req.pcs, ..m[k] }
    } else {
        ReservationView {
            order_number: req.order_number@,
            product_code: req.product_code@,
            reservation_warehouse: req.reservation_warehouse@,
            reservation_location: req.reservation_location@,
            pcs: req.pcs as int,
        }
    }
}

impl ReservationLedger {
    pub closed spec fn view(&self) -> Map<OrderKeyView, ReservationView> {
        self.model@
    }

    pub closed spec fn wf(&self) -> bool {
        &&& forall|i: int|
            0 <= i < self.rows@.len() ==> #[trigger] self.model@.contains_key(
                reservation_key(self.rows@[i]@),
            ) && self.model@[reservation_key(self.rows@[i]@)] == self.rows@[i]@
        &&& forall|k: OrderKeyView|
            #[trigger] self.model@.contains_key(k) ==> exists|i: int|
                0 <= i < self.rows@.len() && reservation_key(#[trigger] self.rows@[i]@) == k
        &&& forall|i: int, j: int|
            0 <= i < self.rows@.len() && 0 <= j < self.rows@.len() && reservation_key(
                #[trigger] self.rows@[i]@,
            ) == reservation_key(#[trigger] self.rows@[j]@) ==> i == j
        &&& forall|i: int| 0 <= i < self.rows@.len() ==> #[trigger] self.rows@[i].pcs >= 0
    }

    /// An empty ledger.
    pub fn new() -> (r: ReservationLedger)
        ensures
            r.wf(),
            r.view() == Map::<OrderKeyView, ReservationView>::empty(),
    {
        ReservationLedger { rows: Vec::new(), model: Ghost(Map::empty()) }
    }

    fn position(&self, order_number: &String, product_code: &String) -> (r: Option<usize>)
        requires
            self.wf(),
        ensures
            match r {
                Some(i) => i < self.rows@.len() && self.view().contains_key(
                    (order_number@, product_code@),
                ) && reservation_key(self.rows@[i as int]@) == (order_number@, product_code@)
                    && self.view()[(order_number@, product_code@)] == self.rows@[i as int]@,
                None => !self.view().contains_key((order_number@, product_code@)),
            },
    {
        let mut i: usize = 0;
        while i < self.rows.len()
            invariant
                self.wf(),
                i <= self.rows@.len(),
                forall|j: int|
                    0 <= j < i ==> reservation_key(#[trigger] self.rows@[j]@) != (
                        order_number@,
                        product_code@,
                    ),
            decreases self.rows@.len() - i,
        {
            if self.rows[i].order_number == *order_number && self.rows[i].product_code
                == *product_code {
                assert(self.model@.contains_key(reservation_key(self.rows@[i as int]@)));
                return Some(i);
            }
            i = i + 1;
        }
        None
    }

    /// The reservation held for (order, product), if any.
    pub fn get(&self, order_number: &String, product_code: &String) -> (r: Option<Reservations>)
        requires
            self.wf(),
        ensures
            ({
                let k = (order_number@, product_code@);
                match r {
                    Some(v) => self.view().contains_key(k) && v@ == self.view()[k],
                    None => !self.view().contains_key(k),
                }
            }),
    {
        match self.position(order_number, product_code) {
            Some(i) => Some(self.rows[i].copy()),
            None => None,
        }
    }

    /// Units already reserved for (order, product); zero when none are.
    pub fn reserved(&self, order_number: &String, product_code: &String) -> (r: i32)
        requires
            self.wf(),
        ensures
            r as int == reserved_of(self.view(), (order_number@, product_code@)),
            r >= 0,
    {
        match self.position(order_number, product_code) {
            Some(i) => self.rows[i].pcs,
            None => 0,
        }
    }

    /// Adds `req.pcs` units to the reservation for (order, product), creating
    /// it at the request's reservation bin when there is none. Returns the
    /// new reserved total.
    pub fn merge_add(&mut self, req: &AddReservationForOrderNumber) -> (r: Result<i32, LedgerError>)
        requires
            old(self).wf(),
        ensures
            final(self).wf(),
            ({
                let k = (req.order_number@, req.product_code@);
                let fits = 1 <= req.pcs && reserved_of(old(self).view(), k) + req.pcs <= i32::MAX;
                match r {
                    Ok(n) => fits && n == reserved_of(old(self).view(), k) + req.pcs
                        && final(self).view() == old(self).view().insert(
                        k,
                        merged_reservation(old(self).view(), *req),
                    ),
                    Err(e) => !fits && e == LedgerError::InvalidQuantity && final(self).view()
                        == old(self).view(),
                }
            }),
    {
        if req.pcs < 1 {
            return Err(LedgerError::InvalidQuantity);
        }
        let ghost k = (req.order_number@, req.product_code@);
        let ghost m = merged_reservation(self.model@, *req);
        match self.position(&req.order_number, &req.product_code) {
            Some(i) => {
                let cur = self.rows[i].pcs;
                if cur > i32::MAX - req.pcs {
                    return Err(LedgerError::InvalidQuantity);
                }
                let n = cur + req.pcs;
                let mut row = self.rows[i].copy();
                row.pcs = n;
                assert(row@ == m);
                self.rows.set(i, row);
                self.model = Ghost(self.model@.insert(k, m));
                assert forall|k2: OrderKeyView| #[trigger] self.model@.contains_key(k2) implies exists|j: int|
                    0 <= j < self.rows@.len() && reservation_key(#[trigger] self.rows@[j]@) == k2 by {
                    if k2 != k {
                        let j = choose|j: int|
                            0 <= j < self.rows@.len() && reservation_key(#[trigger] old(self).rows@[j]@) == k2;
                        assert(reservation_key(self.rows@[j]@) == k2);
                    } else {
                        assert(reservation_key(self.rows@[i as int]@) == k2);
                    }
                }
                Ok(n)
            },
            None => {
                let row = Reservations {
                    order_number: req.order_number.clone(),
                    product_code: req.product_code.clone(),
                    reservation_warehouse: req.reservation_warehouse.clone(),
                    reservation_location: req.reservation_location.clone(),
                    pcs: req.pcs,
                };
                self.push_new(row);
                Ok(req.pcs)
            },
        }
    }

    /// Records a reservation as it was stored. Refused when its quantity is
    /// negative or a reservation for the same (order, product) is held.
    pub fn insert_row(&mut self, row: Reservations) -> (r: Result<(), LedgerError>)
        requires
            old(self).wf(),
        ensures
            final(self).wf(),
            ({
                let k = reservation_key(row@);
                match r {
                    Ok(()) => row.pcs >= 0 && !old(self).view().contains_key(k)
                        && final(self).view() == old(self).view().insert(k, row@),
                    Err(e) => final(self).view() == old(self).view() && e == (if row.pcs < 0 {
                        LedgerError::InvalidQuantity
                    } else {
                        LedgerError::AlreadyExists
                    }) && (row.pcs < 0 || old(self).view().contains_key(k)),
                }
            }),
    {
        if row.pcs < 0 {
            return Err(LedgerError::InvalidQuantity);
        }
        if self.position(&row.order_number, &row.product_code).is_some() {
            return Err(LedgerError::AlreadyExists);
        }
        self.push_new(row);
        Ok(())
    }

    fn push_new(&mut self, row: Reservations)
        requires
            old(self).wf(),
            row.pcs >= 0,
            !old(self).view().contains_key(reservation_key(row@)),
        ensures
            final(self).wf(),
            final(self).view() == old(self).view().insert(reservation_key(row@), row@),
    {
        let ghost k = reservation_key(row@);
        let ghost v = row@;
        self.rows.push(row);
        self.model = Ghost(self.model@.insert(k, v));
        let ghost last = self.rows@.len() - 1;
        assert(reservation_key(self.rows@[last]@) == k);
        assert forall|k2: OrderKeyView| #[trigger] self.model@.contains_key(k2) implies exists|j: int|
            0 <= j < self.rows@.len() && reservation_key(#[trigger] self.rows@[j]@) == k2 by {
            if k2 != k {
                let j = choose|j: int|
                    0 <= j < old(self).rows@.len() && reservation_key(#[trigger] old(self).rows@[j]@)
                        == k2;
                assert(reservation_key(self.rows@[j]@) == k2);
            }
        }
    }
}

} // verus!
