//! The inventory handle: stock, order book and reservations kept together
//! so that no reservation ever exceeds what its order line demands.

use vstd::prelude::*;
use crate::error::LedgerError;
use crate::models::incoming::{
    stock_key, AddOrUpdateUniqueIdentifierRequest, StockKeyView, StockRecordView,
};
use crate::models::reservations::{
    AddReservationForOrderNumber, GetReservationsPerSalesOrder, ReservationView, Reservations,
};
use crate::models::salesorder::{OrderKeyView, OrderLineView, SalesOrder};
use crate::orders::{has_order, lists_order, OrderBook};
use crate::planner::{allocate, deduction, min_int, prefix_deducted, AllocationRow};
use crate::reservation_ledger::{merged_reservation, reserved_of, ReservationLedger};
use crate::stock::{
    after_subtract, ascending_by_pcs, lists_product, merged_record, on_hand, StockKey, StockLedger,
};

verus! {

pub struct Inventory {
    stock: StockLedger,
    orders: OrderBook,
    reservations: ReservationLedger,
}

/// Every reservation has an order line, and reserves no more than it demands.
pub open spec fn reservations_within_demand(
    orders: Map<OrderKeyView, OrderLineView>,
    res: Map<OrderKeyView, ReservationView>,
) -> bool {
    forall|k: OrderKeyView|
        #[trigger] res.contains_key(k) ==> orders.contains_key(k) && res[k].pcs <= orders[k].pcs
}

/// What a commit request comes to: the first of its checks that fails, in
/// the order quantity, source stock, order line, demand ceiling.
pub open spec fn commit_outcome(
    stock: Map<StockKeyView, StockRecordView>,
    orders: Map<OrderKeyView, OrderLineView>,
    res: Map<OrderKeyView, ReservationView>,
    req: AddReservationForOrderNumber,
) -> Result<(), LedgerError> {
    let src = (req.product_code@, req.current_warehouse@, req.current_location@);
    let k = (req.order_number@, req.product_code@);
    if req.pcs < 1 {
        Err(LedgerError::InvalidQuantity)
    } else if on_hand(stock, src) < req.pcs {
        Err(LedgerError::InsufficientStock)
    } else if !orders.contains_key(k) {
        Err(LedgerError::UnknownOrderProduct)
    } else if reserved_of(res, k) + req.pcs > orders[k].pcs {
        Err(LedgerError::OverReservation)
    } else {
        Ok(())
    }
}

/// Demand of an order for a product: zero where the order has no such line.
pub open spec fn demand_or_zero(orders: Map<OrderKeyView, OrderLineView>, k: OrderKeyView) -> int {
    if orders.contains_key(k) {
        orders[k].pcs
    } else {
        0
    }
}

/// Reserved share of a demand in hundredths of a percent, rounded half up;
/// zero when nothing is demanded.
pub open spec fn percent_hundredths(reserved: int, demanded: int) -> int {
    if demanded > 0 {
        (reserved * 20000 + demanded) / (2 * demanded)
    } else {
        0
    }
}

/// Units on hand over the first `i` planning rows.
pub open spec fn rows_on_hand(rows: Seq<AllocationRow>, i: int) -> int
    decreases i,
{
    if i <= 0 {
        0
    } else {
        rows_on_hand(rows, i - 1) + rows[i - 1].on_hand
    }
}

/// `rows` preview product `p` against `demand`: one row per location of the
/// product as the ledger holds it, smallest first, each deducting what is
/// still demanded after the rows before it.
pub open spec fn is_allocation_plan(
    stock: Map<StockKeyView, StockRecordView>,
    p: Seq<char>,
    demand: int,
    rows: Seq<AllocationRow>,
) -> bool {
    &&& forall|t: int|
        0 <= t < rows.len() ==> {
            let k = (p, (#[trigger] rows[t]).warehouse@, rows[t].location@);
            &&& rows[t].product_code@ == p
            &&& stock.contains_key(k)
            &&& stock[k].pcs == rows[t].on_hand
            &&& stock[k].color == rows[t].color@
            &&& stock[k].product_name == rows[t].product_name@
            &&& rows[t].order_demand == demand
            &&& rows[t].deducted == deduction(rows[t].on_hand as int, prefix_deducted(rows, t), demand)
            &&& rows[t].leftover == rows[t].on_hand - rows[t].deducted
        }
    &&& forall|s: int, t: int|
        0 <= s < rows.len() && 0 <= t < rows.len() && s != t ==> ((#[trigger] rows[s]).warehouse@,
            rows[s].location@) != ((#[trigger] rows[t]).warehouse@, rows[t].location@)
    &&& forall|k: StockKeyView|
        #[trigger] stock.contains_key(k) && k.0 == p ==> exists|t: int|
            0 <= t < rows.len() && (#[trigger] rows[t]).warehouse@ == k.1 && rows[t].location@ == k.2
    &&& forall|s: int, t: int|
        0 <= s <= t < rows.len() ==> (#[trigger] rows[s]).on_hand <= (#[trigger] rows[t]).on_hand
}

/// Reserved share of a demand in hundredths of a percent, rounded half up.
/// Nothing demanded gives zero: there is no division by zero.
pub fn fulfilment_percent(reserved: i32, demanded: i32) -> (r: i64)
    requires
        reserved >= 0,
    ensures
        r as int == percent_hundredths(reserved as int, demanded as int),
        demanded <= 0 ==> r == 0,
{
    if demanded <= 0 {
        return 0;
    }
    let num: u64 = (reserved as u64) * 20000 + (demanded as u64);
    let den: u64 = 2 * (demanded as u64);
    let q = num / den;
    assert(q <= num);
    assert(num < 0x1_0000_0000_0000) by (nonlinear_arith)
        requires
            num == (reserved as u64) * 20000 + (demanded as u64),
            0 <= reserved <= i32::MAX,
            0 < demanded <= i32::MAX,
    ;
    q as i64
}

impl Inventory {
    pub closed spec fn stock_view(&self) -> Map<StockKeyView, StockRecordView> {
        self.stock.view()
    }

    pub closed spec fn order_view(&self) -> Map<OrderKeyView, OrderLineView> {
        self.orders.view()
    }

    pub closed spec fn reservation_view(&self) -> Map<OrderKeyView, ReservationView> {
        self.reservations.view()
    }

    pub closed spec fn wf(&self) -> bool {
        &&& self.stock.wf()
        &&& self.orders.wf()
        &&& self.reservations.wf()
        &&& reservations_within_demand(self.orders.view(), self.reservations.view())
    }

    /// Nothing in stock, no orders, no reservations.
    pub fn new() -> (r: Inventory)
        ensures
            r.wf(),
            r.stock_view() == Map::<StockKeyView, StockRecordView>::empty(),
            r.order_view() == Map::<OrderKeyView, OrderLineView>::empty(),
            r.reservation_view() == Map::<OrderKeyView, ReservationView>::empty(),
    {
        Inventory {
            stock: StockLedger::new(),
            orders: OrderBook::new(),
            reservations: ReservationLedger::new(),
        }
    }

    pub fn stock(&self) -> (r: &StockLedger)
        requires
            self.wf(),
        ensures
            r.wf(),
            r.view() == self.stock_view(),
    {
        &self.stock
    }

    pub fn orders(&self) -> (r: &OrderBook)
        requires
            self.wf(),
        ensures
            r.wf(),
            r.view() == self.order_view(),
    {
        &self.orders
    }

    pub fn reservations(&self) -> (r: &ReservationLedger)
        requires
            self.wf(),
        ensures
            r.wf(),
            r.view() == self.reservation_view(),
    {
        &self.reservations
    }

    /// Merge-adds stock; see `StockLedger::merge_add`.
    pub fn add_stock(&mut self, product_code: &String, req: &AddOrUpdateUniqueIdentifierRequest) -> (r:
        Result<i32, LedgerError>)
        requires
            old(self).wf(),
        ensures
            final(self).wf(),
            final(self).order_view() == old(self).order_view(),
            final(self).reservation_view() == old(self).reservation_view(),
            ({
                let k = (product_code@, req.warehouse@, req.location@);
                let fits = 1 <= req.pcs && on_hand(old(self).stock_view(), k) + req.pcs <= i32::MAX;
                match r {
                    Ok(n) => fits && n == on_hand(old(self).stock_view(), k) + req.pcs
                        && final(self).stock_view() == old(self).stock_view().insert(
                        k,
                        merged_record(old(self).stock_view(), product_code@, *req),
                    ),
                    Err(e) => !fits && e == LedgerError::InvalidQuantity
                        && final(self).stock_view() == old(self).stock_view(),
                }
            }),
    {
        self.stock.merge_add(product_code, req)
    }

    /// Takes units from a location; see `StockLedger::conditional_subtract`.
    pub fn remove_stock(&mut self, k: &StockKey, q: i32) -> (r: Result<i32, LedgerError>)
        requires
            old(self).wf(),
        ensures
            final(self).wf(),
            final(self).order_view() == old(self).order_view(),
            final(self).reservation_view() == old(self).reservation_view(),
            ({
                let s = old(self).stock_view();
                match r {
                    Ok(n) => 1 <= q && s.contains_key(k@) && q <= s[k@].pcs && n == s[k@].pcs - q
                        && final(self).stock_view() == after_subtract(s, k@, q as int),
                    Err(e) => final(self).stock_view() == s && e == (if q < 1 {
                        LedgerError::InvalidQuantity
                    } else if !s.contains_key(k@) {
                        LedgerError::NotFound
                    } else {
                        LedgerError::InsufficientStock
                    }) && (q < 1 || !s.contains_key(k@) || s[k@].pcs < q),
                }
            }),
    {
        self.stock.conditional_subtract(k, q)
    }

    /// Adds an order line; see `OrderBook::insert_line`.
    pub fn add_order_line(&mut self, line: SalesOrder) -> (r: Result<(), LedgerError>)
        requires
            old(self).wf(),
        ensures
            final(self).wf(),
            final(self).stock_view() == old(self).stock_view(),
            final(self).reservation_view() == old(self).reservation_view(),
            ({
                let k = (line.order_number@, line.product_code@);
                match r {
                    Ok(()) => line.pcs >= 1 && !old(self).order_view().contains_key(k)
                        && final(self).order_view() == old(self).order_view().insert(k, line@),
                    Err(e) => final(self).order_view() == old(self).order_view() && e == (if line.pcs
                        < 1 {
                        LedgerError::InvalidQuantity
                    } else {
                        LedgerError::AlreadyExists
                    }) && (line.pcs < 1 || old(self).order_view().contains_key(k)),
                }
            }),
    {
        self.orders.insert_line(line)
    }
    /// Commits one reservation: takes `req.pcs` units from the source
    /// location and adds them to the (order, product) reservation. The
    /// checks run in order, quantity, source stock, order line, demand
    /// ceiling; on the first that fails nothing changes.
    pub fn commit_reservation(&mut self, req: &AddReservationForOrderNumber) -> (r: Result<
        (),
        LedgerError,
    >)
        requires
            old(self).wf(),
        ensures
            final(self).wf(),
            r == commit_outcome(
                old(self).stock_view(),
                old(self).order_view(),
                old(self).reservation_view(),
                *req,
            ),
            final(self).order_view() == old(self).order_view(),
            r is Ok ==> final(self).stock_view() == after_subtract(
                old(self).stock_view(),
                (req.product_code@, req.current_warehouse@, req.current_location@),
                req.pcs as int,
            ) && final(self).reservation_view() == old(self).reservation_view().insert(
                (req.order_number@, req.product_code@),
                merged_reservation(old(self).reservation_view(), *req),
            ),
            r is Err ==> final(self).stock_view() == old(self).stock_view()
                && final(self).reservation_view() == old(self).reservation_view(),
    {
        if req.pcs < 1 {
            return Err(LedgerError::InvalidQuantity);
        }
        let src = StockKey {
            product_code: req.product_code.clone(),
            warehouse: req.current_warehouse.clone(),
            location: req.current_location.clone(),
        };
        if self.stock.quantity(&src) < req.pcs {
            return Err(LedgerError::InsufficientStock);
        }
        let demand = match self.orders.demand_for(&req.order_number, &req.product_code) {
            Ok(d) => d,
            Err(_) => {
                return Err(LedgerError::UnknownOrderProduct);
            },
        };
        proof {
            crate::orders::lemma_demand_positive(&self.orders, (req.order_number@, req.product_code@));
        }
        let already = self.reservations.reserved(&req.order_number, &req.product_code);
        if already > demand - req.pcs {
            return Err(LedgerError::OverReservation);
        }
        let ghost res0 = self.reservations.view();
        let ghost k = (req.order_number@, req.product_code@);
        // Neither step below can refuse: the checks above cover every refusal.
        match self.stock.conditional_subtract(&src, req.pcs) {
            Ok(_) => {},
            Err(e) => {
                return Err(e);
            },
        }
        match self.reservations.merge_add(req) {
            Ok(_) => {},
            Err(e) => {
                return Err(e);
            },
        }
        assert forall|k2: OrderKeyView| #[trigger] self.reservations.view().contains_key(k2)
            implies self.orders.view().contains_key(k2) && self.reservations.view()[k2].pcs
            <= self.orders.view()[k2].pcs by {
            if k2 != k {
                assert(res0.contains_key(k2));
            }
        }
        Ok(())
    }

    /// Records a stored reservation. Refused, in this order, when its
    /// quantity is negative, its order line is missing, it exceeds the
    /// line's demand, or a reservation for the same key is held.
    pub fn restore_reservation(&mut self, row: Reservations) -> (r: Result<(), LedgerError>)
        requires
            old(self).wf(),
        ensures
            final(self).wf(),
            final(self).stock_view() == old(self).stock_view(),
            final(self).order_view() == old(self).order_view(),
            ({
                let k = (row.order_number@, row.product_code@);
                let o = old(self).order_view();
                let res = old(self).reservation_view();
                let outcome = if row.pcs < 0 {
                    Err(LedgerError::InvalidQuantity)
                } else if !o.contains_key(k) {
                    Err(LedgerError::UnknownOrderProduct)
                } else if row.pcs > o[k].pcs {
                    Err(LedgerError::OverReservation)
                } else if res.contains_key(k) {
                    Err(LedgerError::AlreadyExists)
                } else {
                    Ok(())
                };
                &&& r == outcome
                &&& r is Ok ==> final(self).reservation_view() == res.insert(k, row@)
                &&& r is Err ==> final(self).reservation_view() == res
            }),
    {
        if row.pcs < 0 {
            return Err(LedgerError::InvalidQuantity);
        }
        let demand = match self.orders.demand_for(&row.order_number, &row.product_code) {
            Ok(d) => d,
            Err(_) => {
                return Err(LedgerError::UnknownOrderProduct);
            },
        };
        if row.pcs > demand {
            return Err(LedgerError::OverReservation);
        }
        let ghost res0 = self.reservations.view();
        let ghost k = (row.order_number@, row.product_code@);
        let ghost v = row@;
        let out = self.reservations.insert_row(row);
        assert forall|k2: OrderKeyView| #[trigger] self.reservations.view().contains_key(k2)
            implies self.orders.view().contains_key(k2) && self.reservations.view()[k2].pcs
            <= self.orders.view()[k2].pcs by {
            if k2 != k {
                assert(res0.contains_key(k2));
            }
        }
        match out {
            Ok(()) => Ok(()),
            Err(_) => Err(LedgerError::AlreadyExists),
        }
    }

    /// Previews how the order's demand for a product would be met, smallest
    /// locations first. Nothing is changed; an order without that product
    /// demands zero, and a product without stock gives no rows.
    pub fn plan_allocation(&self, order_number: &String, product_code: &String) -> (rows: Vec<
        AllocationRow,
    >)
        requires
            self.wf(),
        ensures
            is_allocation_plan(
                self.stock_view(),
                product_code@,
                demand_or_zero(self.order_view(), (order_number@, product_code@)),
                rows@,
            ),
            prefix_deducted(rows@, rows@.len() as int) == min_int(
                rows_on_hand(rows@, rows@.len() as int),
                demand_or_zero(self.order_view(), (order_number@, product_code@)),
            ),
    {
        let ranked = self.stock.ranked_for_product(product_code);
        let demand = match self.orders.demand_for(order_number, product_code) {
            Ok(d) => d,
            Err(_) => 0,
        };
        proof {
            crate::orders::lemma_demand_positive(&self.orders, (order_number@, product_code@));
            assert forall|i: int| 0 <= i < ranked@.len() implies #[trigger] ranked@[i].pcs >= 0 by {
                crate::stock::lemma_stock_never_empty(&self.stock, stock_key(ranked@[i]@));
            }
        }
        let rows = allocate(&ranked, demand);
        proof {
            assert forall|k: StockKeyView| #[trigger] self.stock.view().contains_key(k) implies self.stock.view()[k].pcs >= 0 by {
                crate::stock::lemma_stock_never_empty(&self.stock, k);
            }
            let p = product_code@;
            let st = self.stock.view();
            assert forall|t: int| 0 <= t < rows@.len() implies ({
                let k = (p, (#[trigger] rows@[t]).warehouse@, rows@[t].location@);
                &&& rows@[t].product_code@ == p
                &&& st.contains_key(k)
                &&& st[k].pcs == rows@[t].on_hand
                &&& st[k].color == rows@[t].color@
                &&& st[k].product_name == rows@[t].product_name@
                &&& rows@[t].order_demand == demand
                &&& rows@[t].deducted == deduction(rows@[t].on_hand as int, prefix_deducted(rows@, t), demand as int)
                &&& rows@[t].leftover == rows@[t].on_hand - rows@[t].deducted
            }) by {
                assert(ranked@[t].product_code@ == p);
                assert(stock_key(ranked@[t]@) == (p, rows@[t].warehouse@, rows@[t].location@));
            }
            assert forall|s: int, t: int|
                0 <= s < rows@.len() && 0 <= t < rows@.len() && s != t implies ((#[trigger] rows@[s]).warehouse@,
                rows@[s].location@) != ((#[trigger] rows@[t]).warehouse@, rows@[t].location@) by {
                assert(ranked@[s].product_code@ == p && ranked@[t].product_code@ == p);
                assert(stock_key(ranked@[s]@) != stock_key(ranked@[t]@));
            }
            assert forall|k: StockKeyView| #[trigger] st.contains_key(k) && k.0 == p implies exists|t: int|
                0 <= t < rows@.len() && (#[trigger] rows@[t]).warehouse@ == k.1 && rows@[t].location@ == k.2 by {
                let t = choose|t: int| 0 <= t < ranked@.len() && stock_key(#[trigger] ranked@[t]@) == k;
                assert(rows@[t].warehouse@ == k.1 && rows@[t].location@ == k.2);
            }
            assert forall|s: int, t: int|
                0 <= s <= t < rows@.len() implies (#[trigger] rows@[s]).on_hand <= (#[trigger] rows@[t]).on_hand by {
                assert(ranked@[s].pcs <= ranked@[t].pcs);
            }
            lemma_plan_meets_demand(st, p, demand as int, rows@);
        }
        rows
    }

    /// For each line of an order: its demand, what is reserved against it,
    /// and the reserved share in hundredths of a percent. `NotFound` when
    /// the order has no lines.
    pub fn fulfilment_for(&self, order_number: &String) -> (r: Result<
        Vec<GetReservationsPerSalesOrder>,
        LedgerError,
    >)
        requires
            self.wf(),
        ensures
            match r {
                Ok(rows) => has_order(self.order_view(), order_number@) && is_fulfilment_report(
                    self.order_view(),
                    self.reservation_view(),
                    order_number@,
                    rows@,
                ),
                Err(e) => !has_order(self.order_view(), order_number@) && e == LedgerError::NotFound,
            },
    {
        let lines = self.orders.lines_for_order(order_number);
        if lines.len() == 0 {
            proof {
                if has_order(self.orders.view(), order_number@) {
                    let k = choose|k: OrderKeyView| #[trigger] self.orders.view().contains_key(k) && k.0
                        == order_number@;
                    assert(self.orders.view().contains_key(k) && k.0 == order_number@);
                }
            }
            return Err(LedgerError::NotFound);
        }
        proof {
            let k = (lines@[0].order_number@, lines@[0].product_code@);
            assert(self.orders.view().contains_key(k) && k.0 == order_number@);
        }
        let mut rows: Vec<GetReservationsPerSalesOrder> = Vec::new();
        let mut i: usize = 0;
        while i < lines.len()
            invariant
                self.wf(),
                i <= lines@.len(),
                rows@.len() == i,
                lists_order(self.orders.view(), order_number@, lines@),
                forall|t: int|
                    0 <= t < i ==> fulfilment_row_of(
                        self.reservations.view(),
                        lines@[t]@,
                        #[trigger] rows@[t],
                    ),
            decreases lines@.len() - i,
        {
            let line = &lines[i];
            let reserved = self.reservations.reserved(&line.order_number, &line.product_code);
            let row = GetReservationsPerSalesOrder {
                order_number: line.order_number.clone(),
                product_code: line.product_code.clone(),
                color: line.color.clone(),
                product_name: line.product_name.clone(),
                order_pcs: line.pcs,
                company: line.company.clone(),
                reserved_pcs: reserved,
                fulfilment_perc: fulfilment_percent(reserved, line.pcs),
            };
            rows.push(row);
            i = i + 1;
        }
        proof {
            assert forall|s: int, t: int|
                0 <= s < rows@.len() && 0 <= t < rows@.len() && s != t implies (#[trigger] rows@[s]).product_code@
                != (#[trigger] rows@[t]).product_code@ by {
                assert(fulfilment_row_of(self.reservations.view(), lines@[s]@, rows@[s]));
                assert(fulfilment_row_of(self.reservations.view(), lines@[t]@, rows@[t]));
                assert((lines@[s].order_number@, lines@[s].product_code@) != (lines@[t].order_number@, lines@[t].product_code@));
            }
            assert forall|t: int| 0 <= t < rows@.len() implies ({
                let k = (order_number@, (#[trigger] rows@[t]).product_code@);
                &&& self.orders.view().contains_key(k)
                &&& fulfilment_row_of(self.reservations.view(), self.orders.view()[k], rows@[t])
            }) by {
                assert(fulfilment_row_of(self.reservations.view(), lines@[t]@, rows@[t]));
                assert(lines@[t].order_number@ == order_number@);
            }
            assert forall|k: OrderKeyView| #[trigger] self.orders.view().contains_key(k) && k.0 == order_number@
                implies exists|t: int| 0 <= t < rows@.len() && (#[trigger] rows@[t]).product_code@ == k.1 by {
                let t = choose|t: int| 0 <= t < lines@.len() && crate::models::salesorder::order_key(#[trigger] lines@[t]@) == k;
                assert(fulfilment_row_of(self.reservations.view(), lines@[t]@, rows@[t]));
            }
        }
        Ok(rows)
    }
}

/// `row` reports `line` joined with its reservation.
pub open spec fn fulfilment_row_of(
    res: Map<OrderKeyView, ReservationView>,
    line: OrderLineView,
    row: GetReservationsPerSalesOrder,
) -> bool {
    let reserved = reserved_of(res, (line.order_number, line.product_code));
    &&& row.order_number@ == line.order_number
    &&& row.product_code@ == line.product_code
    &&& row.color@ == line.color
    &&& row.product_name@ == line.product_name
    &&& row.order_pcs == line.pcs
    &&& row.company@ == line.company
    &&& row.reserved_pcs == reserved
    &&& row.fulfilment_perc == percent_hundredths(reserved, line.pcs)
}

/// `rows` report every line of order `o` exactly once.
pub open spec fn is_fulfilment_report(
    orders: Map<OrderKeyView, OrderLineView>,
    res: Map<OrderKeyView, ReservationView>,
    o: Seq<char>,
    rows: Seq<GetReservationsPerSalesOrder>,
) -> bool {
    &&& forall|t: int|
        0 <= t < rows.len() ==> {
            let k = (o, (#[trigger] rows[t]).product_code@);
            &&& orders.contains_key(k)
            &&& fulfilment_row_of(res, orders[k], rows[t])
        }
    &&& forall|s: int, t: int|
        0 <= s < rows.len() && 0 <= t < rows.len() && s != t ==> (#[trigger] rows[s]).product_code@
            != (#[trigger] rows[t]).product_code@
    &&& forall|k: OrderKeyView|
        #[trigger] orders.contains_key(k) && k.0 == o ==> exists|t: int|
            0 <= t < rows.len() && (#[trigger] rows[t]).product_code@ == k.1
}

/// Over a whole allocation plan, the units deducted are the smaller of what
/// the product's locations hold together and what the order demands.
pub proof fn lemma_plan_meets_demand(
    stock: Map<StockKeyView, StockRecordView>,
    p: Seq<char>,
    demand: int,
    rows: Seq<AllocationRow>,
)
    requires
        demand >= 0,
        forall|k: StockKeyView| #[trigger] stock.contains_key(k) ==> stock[k].pcs >= 0,
        is_allocation_plan(stock, p, demand, rows),
    ensures
        prefix_deducted(rows, rows.len() as int) == min_int(
            rows_on_hand(rows, rows.len() as int),
            demand,
        ),
{
    lemma_plan_prefix(stock, p, demand, rows, rows.len() as int);
}

proof fn lemma_plan_prefix(
    stock: Map<StockKeyView, StockRecordView>,
    p: Seq<char>,
    demand: int,
    rows: Seq<AllocationRow>,
    i: int,
)
    requires
        demand >= 0,
        forall|k: StockKeyView| #[trigger] stock.contains_key(k) ==> stock[k].pcs >= 0,
        is_allocation_plan(stock, p, demand, rows),
        0 <= i <= rows.len(),
    ensures
        prefix_deducted(rows, i) == min_int(rows_on_hand(rows, i), demand),
    decreases i,
{
    if i > 0 {
        lemma_plan_prefix(stock, p, demand, rows, i - 1);
        let r = rows[i - 1];
        assert(stock.contains_key((p, r.warehouse@, r.location@)));
        assert(r.on_hand >= 0);
    }
}

/// However commits, merge-adds and subtracts were interleaved, a
/// well-formed inventory reserves for each (order, product) no more than the
/// order line demands, and only where such a line exists.
pub proof fn lemma_reservations_within_demand(inv: &Inventory, k: OrderKeyView)
    requires
        inv.wf(),
    ensures
        inv.reservation_view().contains_key(k) ==> inv.order_view().contains_key(k)
            && inv.reservation_view()[k].pcs <= inv.order_view()[k].pcs,
        reserved_of(inv.reservation_view(), k) <= demand_or_zero(inv.order_view(), k),
{
    crate::orders::lemma_demand_positive(&inv.orders, k);
}

} // verus!
