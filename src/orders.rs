//! The order book: what each order demands of each product. The ledger only
//! reads it; lines come from the order-management side.

use vstd::prelude::*;
use crate::error::LedgerError;
use crate::models::salesorder::{order_key, OrderKeyView, OrderLineView, SalesOrder};

verus! {

/// Order lines in a vector with distinct (order, product) keys; the ghost
/// map is its model.
pub struct OrderBook {
    lines: Vec<SalesOrder>,
    model: Ghost<Map<OrderKeyView, OrderLineView>>,
}

/// `rows` lists each line of order `o` exactly once, as the book holds it.
pub open spec fn lists_order(
    book: Map<OrderKeyView, OrderLineView>,
    o: Seq<char>,
    rows: Seq<SalesOrder>,
) -> bool {
    &&& forall|t: int|
        0 <= t < rows.len() ==> #[trigger] rows[t].order_number@ == o && book.contains_key(
            order_key(rows[t]@),
        ) && book[order_key(rows[t]@)] == rows[t]@
    &&& forall|s: int, t: int|
        0 <= s < rows.len() && 0 <= t < rows.len() && s != t ==> order_key(#[trigger] rows[s]@)
            != order_key(#[trigger] rows[t]@)
    &&& forall|k: OrderKeyView|
        #[trigger] book.contains_key(k) && k.0 == o ==> exists|t: int|
            0 <= t < rows.len() && order_key(#[trigger] rows[t]@) == k
}

/// The order has at least one line in the book.
pub open spec fn has_order(book: Map<OrderKeyView, OrderLineView>, o: Seq<char>) -> bool {
    exists|k: OrderKeyView| #[trigger] book.contains_key(k) && k.0 == o
}

impl OrderBook {
    pub closed spec fn view(&self) -> Map<OrderKeyView, OrderLineView> {
        self.model@
    }

    pub closed spec fn wf(&self) -> bool {
        &&& forall|i: int|
            0 <= i < self.lines@.len() ==> #[trigger] self.model@.contains_key(
                order_key(self.lines@[i]@),
            ) && self.model@[order_key(self.lines@[i]@)] == self.lines@[i]@
        &&& forall|k: OrderKeyView|
            #[trigger] self.model@.contains_key(k) ==> exists|i: int|
                0 <= i < self.lines@.len() && order_key(#[trigger] self.lines@[i]@) == k
        &&& forall|i: int, j: int|
            0 <= i < self.lines@.len() && 0 <= j < self.lines@.len() && order_key(
                #[trigger] self.lines@[i]@,
            ) == order_key(#[trigger] self.lines@[j]@) ==> i == j
        &&& forall|i: int| 0 <= i < self.lines@.len() ==> #[trigger] self.lines@[i].pcs >= 1
    }

    /// An empty book.
    pub fn new() -> (r: OrderBook)
        ensures
            r.wf(),
            r.view() == Map::<OrderKeyView, OrderLineView>::empty(),
    {
        OrderBook { lines: Vec::new(), model: Ghost(Map::empty()) }
    }

    fn position(&self, order_number: &String, product_code: &String) -> (r: Option<usize>)
        requires
            self.wf(),
        ensures
            match r {
                Some(i) => i < self.lines@.len() && order_key(self.lines@[i as int]@) == (
                order_number@,
                product_code@,
                ) && self.view().contains_key((order_number@, product_code@))
                    && self.view()[(order_number@, product_code@)] == self.lines@[i as int]@,
                None => !self.view().contains_key((order_number@, product_code@)),
            },
    {
        let mut i: usize = 0;
        while i < self.lines.len()
            invariant
                self.wf(),
                i <= self.lines@.len(),
                forall|j: int|
                    0 <= j < i ==> order_key(#[trigger] self.lines@[j]@) != (
                        order_number@,
                        product_code@,
                    ),
            decreases self.lines@.len() - i,
        {
            if self.lines[i].order_number == *order_number && self.lines[i].product_code
                == *product_code {
                assert(self.model@.contains_key(order_key(self.lines@[i as int]@)));
                return Some(i);
            }
            i = i + 1;
        }
        None
    }

    /// Adds an order line. Refused when its quantity is below one or the
    /// book already holds a line for the same (order, product).
    pub fn insert_line(&mut self, line: SalesOrder) -> (r: Result<(), LedgerError>)
        requires
            old(self).wf(),
        ensures
            final(self).wf(),
            ({
                let k = order_key(line@);
                match r {
                    Ok(()) => line.pcs >= 1 && !old(self).view().contains_key(k)
                        && final(self).view() == old(self).view().insert(k, line@),
                    Err(e) => final(self).view() == old(self).view() && e == (if line.pcs < 1 {
                        LedgerError::InvalidQuantity
                    } else {
                        LedgerError::AlreadyExists
                    }) && (line.pcs < 1 || old(self).view().contains_key(k)),
                }
            }),
    {
        if line.pcs < 1 {
            return Err(LedgerError::InvalidQuantity);
        }
        if self.position(&line.order_number, &line.product_code).is_some() {
            return Err(LedgerError::AlreadyExists);
        }
        let ghost k = order_key(line@);
        let ghost v = line@;
        self.lines.push(line);
        self.model = Ghost(self.model@.insert(k, v));
        let ghost last = self.lines@.len() - 1;
        assert(order_key(self.lines@[last]@) == k);
        assert forall|k2: OrderKeyView| #[trigger] self.model@.contains_key(k2) implies exists|j: int|
            0 <= j < self.lines@.len() && order_key(#[trigger] self.lines@[j]@) == k2 by {
            if k2 != k {
                let j = choose|j: int|
                    0 <= j < old(self).lines@.len() && order_key(#[trigger] old(self).lines@[j]@) == k2;
                assert(order_key(self.lines@[j]@) == k2);
            }
        }
        Ok(())
    }

    /// The quantity an order demands of a product.
    pub fn demand_for(&self, order_number: &String, product_code: &String) -> (r: Result<
        i32,
        LedgerError,
    >)
        requires
            self.wf(),
        ensures
            ({
                let k = (order_number@, product_code@);
                match r {
                    Ok(d) => self.view().contains_key(k) && d == self.view()[k].pcs,
                    Err(e) => !self.view().contains_key(k) && e == LedgerError::NotFound,
                }
            }),
    {
        match self.position(order_number, product_code) {
            Some(i) => Ok(self.lines[i].pcs),
            None => Err(LedgerError::NotFound),
        }
    }

    /// Every line of an order, in the book's storage order.
    pub fn lines_for_order(&self, order_number: &String) -> (r: Vec<SalesOrder>)
        requires
            self.wf(),
        ensures
            lists_order(self.view(), order_number@, r@),
    {
        let mut r: Vec<SalesOrder> = Vec::new();
        let ghost mut idx: Seq<int> = Seq::empty();
        let mut j: usize = 0;
        while j < self.lines.len()
            invariant
                self.wf(),
                j <= self.lines@.len(),
                r@.len() == idx.len(),
                forall|t: int|
                    0 <= t < r@.len() ==> 0 <= #[trigger] idx[t] < j && r@[t]@
                        == self.lines@[idx[t]]@ && self.lines@[idx[t]].order_number@
                        == order_number@,
                forall|s: int, t: int| 0 <= s < t < r@.len() ==> idx[s] < idx[t],
                forall|i: int|
                    0 <= i < j && #[trigger] self.lines@[i].order_number@ == order_number@
                        ==> exists|t: int| 0 <= t < r@.len() && idx[t] == i,
            decreases self.lines@.len() - j,
        {
            if self.lines[j].order_number == *order_number {
                let ghost idx0 = idx;
                r.push(self.lines[j].copy());
                proof {
                    idx = idx.push(j as int);
                    assert(idx[idx.len() - 1] == j);
                    assert forall|i: int|
                        0 <= i < j + 1 && #[trigger] self.lines@[i].order_number@ == order_number@
                        implies exists|t: int| 0 <= t < r@.len() && idx[t] == i by {
                        if i < j {
                            let t0 = choose|t: int| 0 <= t < idx0.len() && idx0[t] == i;
                            assert(idx[t0] == i);
                        }
                    }
                }
            }
            j = j + 1;
        }
        proof {
            assert forall|t: int| 0 <= t < r@.len() implies #[trigger] r@[t].order_number@
                == order_number@ && self.view().contains_key(order_key(r@[t]@))
                && self.view()[order_key(r@[t]@)] == r@[t]@ by {
                assert(self.model@.contains_key(order_key(self.lines@[idx[t]]@)));
            }
            assert forall|s: int, t: int|
                0 <= s < r@.len() && 0 <= t < r@.len() && s != t implies order_key(
                #[trigger] r@[s]@,
            ) != order_key(#[trigger] r@[t]@) by {
                assert(idx[s] != idx[t]);
                assert(r@[s]@ == self.lines@[idx[s]]@);
                assert(r@[t]@ == self.lines@[idx[t]]@);
            }
            assert forall|k: OrderKeyView| #[trigger] self.view().contains_key(k) && k.0
                == order_number@ implies exists|t: int|
                0 <= t < r@.len() && order_key(#[trigger] r@[t]@) == k by {
                let i = choose|i: int|
                    0 <= i < self.lines@.len() && order_key(#[trigger] self.lines@[i]@) == k;
                assert(self.lines@[i].order_number@ == order_number@);
                let t = choose|t: int| 0 <= t < r@.len() && idx[t] == i;
                assert(order_key(r@[t]@) == k);
            }
        }
        r
    }
}

/// Every line a well-formed book holds demands at least one unit and sits
/// under its own key.
pub proof fn lemma_demand_positive(b: &OrderBook, k: OrderKeyView)
    requires
        b.wf(),
    ensures
        b.view().contains_key(k) ==> b.view()[k].pcs >= 1 && order_key(b.view()[k]) == k,
{
    if b.view().contains_key(k) {
        let i = choose|i: int| 0 <= i < b.lines@.len() && order_key(#[trigger] b.lines@[i]@) == k;
        assert(b.model@.contains_key(order_key(b.lines@[i]@)));
        assert(b.lines@[i].pcs >= 1);
    }
}

} // verus!
