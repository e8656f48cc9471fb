//! The allocation planner: a read-only preview of how an order's demand
//! would be met by consuming a product's locations in a given order.

use vstd::prelude::*;
use crate::models::incoming::UniqueIdentifier;
use crate::models::salesorder::SalesOrderProduct;

verus! {

/// One planning row: what one location would give up toward the demand.
pub struct AllocationRow {
    pub product_code: String,
    pub color: String,
    pub product_name: String,
    pub warehouse: String,
    pub location: String,
    pub on_hand: i32,
    pub order_demand: i32,
    pub deducted: i32,
    pub leftover: i32,
}

/// Units on hand over the first `i` locations.
pub open spec fn prefix_on_hand(locs: Seq<UniqueIdentifier>, i: int) -> int
    decreases i,
{
    if i <= 0 {
        0
    } else {
        prefix_on_hand(locs, i - 1) + locs[i - 1].pcs
    }
}

/// Units deducted over the first `i` planning rows.
pub open spec fn prefix_deducted(rows: Seq<AllocationRow>, i: int) -> int
    decreases i,
{
    if i <= 0 {
        0
    } else {
        prefix_deducted(rows, i - 1) + rows[i - 1].deducted
    }
}

pub open spec fn min_int(a: int, b: int) -> int {
    if a <= b {
        a
    } else {
        b
    }
}

/// What a location holding `q` gives when `consumed` of `demand` is met.
pub open spec fn deduction(q: int, consumed: int, demand: int) -> int {
    min_int(q, if demand - consumed > 0 { demand - consumed } else { 0 })
}

/// `rows` is the plan for `locs` against `demand`, walked in order.
pub open spec fn is_plan(locs: Seq<UniqueIdentifier>, demand: int, rows: Seq<AllocationRow>) -> bool {
    &&& rows.len() == locs.len()
    &&& forall|i: int|
        0 <= i < rows.len() ==> {
            &&& (#[trigger] rows[i]).product_code@ == locs[i].product_code@
            &&& rows[i].color@ == locs[i].color@
            &&& rows[i].product_name@ == locs[i].product_name@
            &&& rows[i].warehouse@ == locs[i].warehouse@
            &&& rows[i].location@ == locs[i].location@
            &&& rows[i].on_hand == locs[i].pcs
            &&& rows[i].order_demand == demand
            &&& rows[i].deducted == deduction(locs[i].pcs as int, prefix_deducted(rows, i), demand)
            &&& rows[i].leftover == locs[i].pcs - rows[i].deducted
        }
}

/// Walks `locs` in order, deducting from each what is still demanded.
pub fn allocate(locs: &Vec<UniqueIdentifier>, demand: i32) -> (rows: Vec<AllocationRow>)
    requires
        demand >= 0,
        forall|i: int| 0 <= i < locs@.len() ==> #[trigger] locs@[i].pcs >= 0,
    ensures
        is_plan(locs@, demand as int, rows@),
        forall|i: int|
            0 <= i <= rows@.len() ==> #[trigger] prefix_deducted(rows@, i) == min_int(
                prefix_on_hand(locs@, i),
                demand as int,
            ),
        prefix_deducted(rows@, rows@.len() as int) == min_int(
            prefix_on_hand(locs@, locs@.len() as int),
            demand as int,
        ),
{
    let mut rows: Vec<AllocationRow> = Vec::new();
    let mut consumed: i32 = 0;
    let mut i: usize = 0;
    while i < locs.len()
        invariant
            i <= locs@.len(),
            demand >= 0,
            forall|j: int| 0 <= j < locs@.len() ==> #[trigger] locs@[j].pcs >= 0,
            is_plan(locs@.take(i as int), demand as int, rows@),
            consumed == prefix_deducted(rows@, i as int),
            forall|j: int|
                0 <= j <= i ==> #[trigger] prefix_deducted(rows@, j) == min_int(
                    prefix_on_hand(locs@, j),
                    demand as int,
                ),
            0 <= consumed <= demand,
        decreases locs@.len() - i,
    {
        let loc = &locs[i];
        let remaining = if demand - consumed > 0 { demand - consumed } else { 0 };
        let deducted = if loc.pcs <= remaining { loc.pcs } else { remaining };
        let row = AllocationRow {
            product_code: loc.product_code.clone(),
            color: loc.color.clone(),
            product_name: loc.product_name.clone(),
            warehouse: loc.warehouse.clone(),
            location: loc.location.clone(),
            on_hand: loc.pcs,
            order_demand: demand,
            deducted,
            leftover: loc.pcs - deducted,
        };
        let ghost rows0 = rows@;
        rows.push(row);
        proof {
            assert forall|j: int| 0 <= j <= i implies #[trigger] prefix_deducted(rows@, j)
                == prefix_deducted(rows0, j) by {
                lemma_prefix_deducted_stable(rows0, rows@, j);
            }
            assert(rows@[i as int].deducted == deducted);
            assert(prefix_deducted(rows@, i as int) == consumed);
            assert(prefix_deducted(rows@, i + 1) == prefix_deducted(rows@, i as int)
                + rows@[i as int].deducted);
            assert(prefix_deducted(rows@, i + 1) == consumed + deducted);
            assert(prefix_on_hand(locs@, i + 1) == prefix_on_hand(locs@, i as int) + loc.pcs);
            assert(locs@.take(i + 1).len() == i + 1);
            assert forall|j: int| 0 <= j < i + 1 implies #[trigger] locs@.take(i + 1)[j] == locs@[j] by {}
            assert forall|j: int| 0 <= j < i implies #[trigger] locs@.take(i as int)[j] == locs@[j] by {}
        }
        consumed = consumed + deducted;
        i = i + 1;
    }
    assert(locs@.take(i as int) =~= locs@);
    rows
}

proof fn lemma_prefix_deducted_stable(a: Seq<AllocationRow>, b: Seq<AllocationRow>, j: int)
    requires
        0 <= j <= a.len() <= b.len(),
        forall|t: int| 0 <= t < a.len() ==> a[t] == b[t],
    ensures
        prefix_deducted(a, j) == prefix_deducted(b, j),
    decreases j,
{
    if j > 0 {
        lemma_prefix_deducted_stable(a, b, j - 1);
    }
}

impl AllocationRow {
    /// The row in the storage layer's shape, every column present.
    pub fn to_sales_order_product(&self) -> (r: SalesOrderProduct)
        ensures
            r.product_code == Some(self.product_code),
            r.color == Some(self.color),
            r.product_name == Some(self.product_name),
            r.warehouse == Some(self.warehouse),
            r.location == Some(self.location),
            r.warehouse_pcs == Some(self.on_hand),
            r.order_pcs == Some(self.order_demand),
            r.deducted_pcs == Some(self.deducted),
            r.difference == Some(self.leftover),
    {
        SalesOrderProduct {
            product_code: Some(self.product_code.clone()),
            color: Some(self.color.clone()),
            product_name: Some(self.product_name.clone()),
            warehouse: Some(self.warehouse.clone()),
            location: Some(self.location.clone()),
            warehouse_pcs: Some(self.on_hand),
            order_pcs: Some(self.order_demand),
            deducted_pcs: Some(self.deducted),
            difference: Some(self.leftover),
        }
    }
}

} // verus!
