//! The stock ledger: on-hand units per (product, warehouse, location).
//! A record exists only while it holds at least one unit.

use vstd::prelude::*;
use crate::error::LedgerError;
use crate::models::incoming::{
    identifier_string, identifier_text, stock_key, AddOrUpdateUniqueIdentifierRequest,
    StockKeyView, StockRecordView, UniqueIdentifier,
};

verus! {

/// The identity of a stock record.
pub struct StockKey {
    pub product_code: String,
    pub warehouse: String,
    pub location: String,
}

impl View for StockKey {
    type V = StockKeyView;

    open spec fn view(&self) -> StockKeyView {
        (self.product_code@, self.warehouse@, self.location@)
    }
}

/// Records held in a vector with distinct keys; the ghost map is its model.
pub struct StockLedger {
    records: Vec<UniqueIdentifier>,
    model: Ghost<Map<StockKeyView, StockRecordView>>,
}

/// The record that a merge-add stores under the request's key.
pub open spec fn merged_record(
    stock: Map<StockKeyView, StockRecordView>,
    product_code: Seq<char>,
    req: AddOrUpdateUniqueIdentifierRequest,
) -> StockRecordView {
    let k = (product_code, req.warehouse@, req.location@);
    if stock.contains_key(k) {
        StockRecordView { pcs: stock[k].pcs + req.pcs, ..stock[k] }
    } else {
        StockRecordView {
            concatenated_string: identifier_text(
                req.color@,
                req.product_name@,
                req.warehouse@,
                req.location@,
            ),
            product_code,
            color: req.color@,
            product_name: req.product_name@,
            warehouse: req.warehouse@,
            location: req.location@,
            pcs: req.pcs as int,
        }
    }
}

/// Units on hand under a key: zero where no record exists.
pub open spec fn on_hand(stock: Map<StockKeyView, StockRecordView>, k: StockKeyView) -> int {
    if stock.contains_key(k) {
        stock[k].pcs
    } else {
        0
    }
}

/// The stock after taking `q` units from the record under `k`: the record
/// goes when nothing is left.
pub open spec fn after_subtract(
    stock: Map<StockKeyView, StockRecordView>,
    k: StockKeyView,
    q: int,
) -> Map<StockKeyView, StockRecordView> {
    if stock[k].pcs - q <= 0 {
        stock.remove(k)
    } else {
        stock.insert(k, StockRecordView { pcs: stock[k].pcs - q, ..stock[k] })
    }
}

/// `rows` lists each record of product `p` exactly once, as the ledger holds it.
pub open spec fn lists_product(
    stock: Map<StockKeyView, StockRecordView>,
    p: Seq<char>,
    rows: Seq<UniqueIdentifier>,
) -> bool {
    &&& forall|t: int|
        0 <= t < rows.len() ==> #[trigger] rows[t].product_code@ == p && stock.contains_key(
            stock_key(rows[t]@),
        ) && stock[stock_key(rows[t]@)] == rows[t]@
    &&& forall|s: int, t: int|
        0 <= s < rows.len() && 0 <= t < rows.len() && s != t ==> stock_key(#[trigger] rows[s]@)
            != stock_key(#[trigger] rows[t]@)
    &&& forall|k: StockKeyView|
        #[trigger] stock.contains_key(k) && k.0 == p ==> exists|t: int|
            0 <= t < rows.len() && stock_key(#[trigger] rows[t]@) == k
}

/// Rows in ascending order of on-hand quantity.
pub open spec fn ascending_by_pcs(rows: Seq<UniqueIdentifier>) -> bool {
    forall|s: int, t: int| 0 <= s <= t < rows.len() ==> #[trigger] rows[s].pcs <= #[trigger] rows[t].pcs
}

/// Inserts `x` after every row whose quantity does not exceed its own,
/// keeping the rows ascending. Returns the position taken.
fn insert_ascending(r: &mut Vec<UniqueIdentifier>, x: UniqueIdentifier) -> (pos: usize)
    requires
        ascending_by_pcs(old(r)@),
    ensures
        pos <= old(r)@.len(),
        final(r)@ == old(r)@.insert(pos as int, x),
        ascending_by_pcs(final(r)@),
{
    let mut pos: usize = 0;
    while pos < r.len() && r[pos].pcs <= x.pcs
        invariant
            pos <= r@.len(),
            forall|t: int| 0 <= t < pos ==> #[trigger] r@[t].pcs <= x.pcs,
        decreases r@.len() - pos,
    {
        pos = pos + 1;
    }
    let ghost r0 = r@;
    r.insert(pos, x);
    proof {
        r0.insert_ensures(pos as int, x);
        assert forall|s: int, t: int| 0 <= s <= t < r@.len() implies #[trigger] r@[s].pcs
            <= #[trigger] r@[t].pcs by {
            if s != pos as int {
                let s0 = if s < pos { s } else { s - 1 };
                assert(r@[s] == r0[s0]);
            }
            if t != pos as int {
                let t0 = if t < pos { t } else { t - 1 };
                assert(r@[t] == r0[t0]);
            }
            if pos < r0.len() {
                assert(r0[pos as int].pcs > x.pcs);
            }
        }
    }
    pos
}

impl StockLedger {
    pub closed spec fn view(&self) -> Map<StockKeyView, StockRecordView> {
        self.model@
    }

    pub closed spec fn wf(&self) -> bool {
        &&& forall|i: int|
            0 <= i < self.records@.len() ==> #[trigger] self.model@.contains_key(
                stock_key(self.records@[i]@),
            ) && self.model@[stock_key(self.records@[i]@)] == self.records@[i]@
        &&& forall|k: StockKeyView|
            #[trigger] self.model@.contains_key(k) ==> exists|i: int|
                0 <= i < self.records@.len() && stock_key(#[trigger] self.records@[i]@) == k
        &&& forall|i: int, j: int|
            0 <= i < self.records@.len() && 0 <= j < self.records@.len() && stock_key(
                #[trigger] self.records@[i]@,
            ) == stock_key(#[trigger] self.records@[j]@) ==> i == j
        &&& forall|i: int| 0 <= i < self.records@.len() ==> #[trigger] self.records@[i].pcs > 0
    }

    /// An empty ledger.
    pub fn new() -> (r: StockLedger)
        ensures
            r.wf(),
            r.view() == Map::<StockKeyView, StockRecordView>::empty(),
    {
        StockLedger { records: Vec::new(), model: Ghost(Map::empty()) }
    }

    /// The position of the record under `k`, if there is one.
    fn position(&self, k: &StockKey) -> (r: Option<usize>)
        requires
            self.wf(),
        ensures
            match r {
                Some(i) => i < self.records@.len() && stock_key(self.records@[i as int]@) == k@,
                None => !self.view().contains_key(k@),
            },
    {
        let mut i: usize = 0;
        while i < self.records.len()
            invariant
                self.wf(),
                i <= self.records@.len(),
                forall|j: int| 0 <= j < i ==> stock_key(#[trigger] self.records@[j]@) != k@,
            decreases self.records@.len() - i,
        {
            let r = &self.records[i];
            if r.product_code == k.product_code && r.warehouse == k.warehouse && r.location
                == k.location {
                return Some(i);
            }
            i = i + 1;
        }
        None
    }

    /// The record held under `k`, if any.
    pub fn get(&self, k: &StockKey) -> (r: Option<UniqueIdentifier>)
        requires
            self.wf(),
        ensures
            match r {
                Some(rec) => self.view().contains_key(k@) && rec@ == self.view()[k@],
                None => !self.view().contains_key(k@),
            },
    {
        match self.position(k) {
            Some(i) => {
                assert(self.model@.contains_key(stock_key(self.records@[i as int]@)));
                Some(self.records[i].copy())
            },
            None => None,
        }
    }

    /// Units on hand under `k` (zero where no record exists).
    pub fn quantity(&self, k: &StockKey) -> (r: i32)
        requires
            self.wf(),
        ensures
            r as int == on_hand(self.view(), k@),
    {
        match self.position(k) {
            Some(i) => self.records[i].pcs,
            None => 0,
        }
    }
    /// Adds `req.pcs` units under (product_code, warehouse, location),
    /// creating the record from the request's attributes when it is new.
    /// Returns the new on-hand quantity.
    pub fn merge_add(
        &mut self,
        product_code: &String,
        req: &AddOrUpdateUniqueIdentifierRequest,
    ) -> (r: Result<i32, LedgerError>)
        requires
            old(self).wf(),
        ensures
            final(self).wf(),
            ({
                let k = (product_code@, req.warehouse@, req.location@);
                let fits = 1 <= req.pcs && on_hand(old(self).view(), k) + req.pcs <= i32::MAX;
                match r {
                    Ok(n) => fits && n == on_hand(old(self).view(), k) + req.pcs
                        && final(self).view() == old(self).view().insert(
                        k,
                        merged_record(old(self).view(), product_code@, *req),
                    ),
                    Err(e) => !fits && e == LedgerError::InvalidQuantity && final(self).view()
                        == old(self).view(),
                }
            }),
    {
        if req.pcs < 1 {
            return Err(LedgerError::InvalidQuantity);
        }
        let key = StockKey {
            product_code: product_code.clone(),
            warehouse: req.warehouse.clone(),
            location: req.location.clone(),
        };
        let ghost k = key@;
        let ghost m = merged_record(self.model@, product_code@, *req);
        match self.position(&key) {
            Some(i) => {
                let cur = self.records[i].pcs;
                if cur > i32::MAX - req.pcs {
                    return Err(LedgerError::InvalidQuantity);
                }
                let n = cur + req.pcs;
                let mut rec = self.records[i].copy();
                rec.pcs = n;
                assert(rec@ == m);
                self.records.set(i, rec);
                self.model = Ghost(self.model@.insert(k, m));
                assert forall|k2: StockKeyView| #[trigger] self.model@.contains_key(k2) implies exists|j: int|
                    0 <= j < self.records@.len() && stock_key(#[trigger] self.records@[j]@) == k2 by {
                    if k2 != k {
                        let j = choose|j: int| 0 <= j < self.records@.len() && stock_key(#[trigger] old(self).records@[j]@) == k2;
                        assert(stock_key(self.records@[j]@) == k2);
                    } else {
                        assert(stock_key(self.records@[i as int]@) == k2);
                    }
                }
                Ok(n)
            },
            None => {
                let rec = UniqueIdentifier {
                    concatenated_string: identifier_string(
                        &req.color,
                        &req.product_name,
                        &req.warehouse,
                        &req.location,
                    ),
                    product_code: product_code.clone(),
                    color: req.color.clone(),
                    product_name: req.product_name.clone(),
                    warehouse: req.warehouse.clone(),
                    location: req.location.clone(),
                    pcs: req.pcs,
                };
                assert(rec@ == m);
                self.records.push(rec);
                self.model = Ghost(self.model@.insert(k, m));
                let ghost last = self.records@.len() - 1;
                assert(stock_key(self.records@[last]@) == k);
                assert forall|k2: StockKeyView| #[trigger] self.model@.contains_key(k2) implies exists|j: int|
                    0 <= j < self.records@.len() && stock_key(#[trigger] self.records@[j]@) == k2 by {
                    if k2 != k {
                        let j = choose|j: int| 0 <= j < old(self).records@.len() && stock_key(#[trigger] old(self).records@[j]@) == k2;
                        assert(stock_key(self.records@[j]@) == k2);
                    }
                }
                Ok(req.pcs)
            },
        }
    }

    /// Takes `q` units from the record under `k`; the record is deleted when
    /// nothing is left. Returns what remains (zero once deleted).
    pub fn conditional_subtract(&mut self, k: &StockKey, q: i32) -> (r: Result<i32, LedgerError>)
        requires
            old(self).wf(),
        ensures
            final(self).wf(),
            ({
                let s = old(self).view();
                match r {
                    Ok(n) => 1 <= q && s.contains_key(k@) && q <= s[k@].pcs && n == s[k@].pcs - q
                        && final(self).view() == after_subtract(s, k@, q as int),
                    Err(e) => final(self).view() == s && e == (if q < 1 {
                        LedgerError::InvalidQuantity
                    } else if !s.contains_key(k@) {
                        LedgerError::NotFound
                    } else {
                        LedgerError::InsufficientStock
                    }) && (q < 1 || !s.contains_key(k@) || s[k@].pcs < q),
                }
            }),
    {
        if q < 1 {
            return Err(LedgerError::InvalidQuantity);
        }
        match self.position(k) {
            None => Err(LedgerError::NotFound),
            Some(i) => {
                let cur = self.records[i].pcs;
                if cur < q {
                    return Err(LedgerError::InsufficientStock);
                }
                let n = cur - q;
                let ghost s = self.model@;
                assert(s.contains_key(stock_key(self.records@[i as int]@)));
                assert(self.records@[i as int]@ == s[k@]);
                if n <= 0 {
                    self.records.remove(i);
                    self.model = Ghost(s.remove(k@));
                    assert forall|j: int| 0 <= j < self.records@.len() implies #[trigger] self.model@.contains_key(
                        stock_key(self.records@[j]@)) && self.model@[stock_key(self.records@[j]@)] == self.records@[j]@ by {
                        if j < i {
                            assert(self.records@[j] == old(self).records@[j]);
                        } else {
                            assert(self.records@[j] == old(self).records@[j + 1]);
                        }
                    }
                    assert forall|k2: StockKeyView| #[trigger] self.model@.contains_key(k2) implies exists|j: int|
                        0 <= j < self.records@.len() && stock_key(#[trigger] self.records@[j]@) == k2 by {
                        let j = choose|j: int| 0 <= j < old(self).records@.len() && stock_key(#[trigger] old(self).records@[j]@) == k2;
                        if j < i {
                            assert(stock_key(self.records@[j]@) == k2);
                        } else {
                            assert(stock_key(self.records@[j - 1]@) == k2);
                        }
                    }
                    assert forall|a: int, b: int|
                        0 <= a < self.records@.len() && 0 <= b < self.records@.len() && stock_key(
                            #[trigger] self.records@[a]@,
                        ) == stock_key(#[trigger] self.records@[b]@) implies a == b by {
                        let a0 = if a < i { a } else { a + 1 };
                        let b0 = if b < i { b } else { b + 1 };
                        assert(self.records@[a] == old(self).records@[a0]);
                        assert(self.records@[b] == old(self).records@[b0]);
                    }
                    assert forall|j: int| 0 <= j < self.records@.len() implies #[trigger] self.records@[j].pcs > 0 by {
                        if j >= i {
                            assert(self.records@[j] == old(self).records@[j + 1]);
                        }
                    }
                    assert(self.model@ == after_subtract(s, k@, q as int));
                    Ok(0)
                } else {
                    let mut rec = self.records[i].copy();
                    rec.pcs = n;
                    assert(rec@ == StockRecordView { pcs: s[k@].pcs - q, ..s[k@] });
                    self.records.set(i, rec);
                    self.model = Ghost(s.insert(k@, rec@));
                    assert forall|k2: StockKeyView| #[trigger] self.model@.contains_key(k2) implies exists|j: int|
                        0 <= j < self.records@.len() && stock_key(#[trigger] self.records@[j]@) == k2 by {
                        if k2 != k@ {
                            let j = choose|j: int| 0 <= j < self.records@.len() && stock_key(#[trigger] old(self).records@[j]@) == k2;
                            assert(stock_key(self.records@[j]@) == k2);
                        } else {
                            assert(stock_key(self.records@[i as int]@) == k2);
                        }
                    }
                    assert(self.model@ == after_subtract(s, k@, q as int));
                    Ok(n)
                }
            },
        }
    }
    /// Every record of `product_code`, in no particular order.
    pub fn lookup(&self, product_code: &String) -> (r: Vec<UniqueIdentifier>)
        requires
            self.wf(),
        ensures
            lists_product(self.view(), product_code@, r@),
    {
        let mut r: Vec<UniqueIdentifier> = Vec::new();
        let ghost mut idx: Seq<int> = Seq::empty();
        let mut j: usize = 0;
        while j < self.records.len()
            invariant
                self.wf(),
                j <= self.records@.len(),
                r@.len() == idx.len(),
                forall|t: int|
                    0 <= t < r@.len() ==> 0 <= #[trigger] idx[t] < j && r@[t]@
                        == self.records@[idx[t]]@ && self.records@[idx[t]].product_code@
                        == product_code@,
                forall|s: int, t: int| 0 <= s < t < r@.len() ==> idx[s] < idx[t],
                forall|i: int|
                    0 <= i < j && #[trigger] self.records@[i].product_code@ == product_code@
                        ==> exists|t: int| 0 <= t < r@.len() && idx[t] == i,
            decreases self.records@.len() - j,
        {
            if self.records[j].product_code == *product_code {
                let ghost idx0 = idx;
                r.push(self.records[j].copy());
                proof {
                    idx = idx.push(j as int);
                    assert(idx[idx.len() - 1] == j);
                    assert forall|i: int|
                        0 <= i < j + 1 && #[trigger] self.records@[i].product_code@ == product_code@
                        implies exists|t: int| 0 <= t < r@.len() && idx[t] == i by {
                        if i < j {
                            let t0 = choose|t: int| 0 <= t < idx0.len() && idx0[t] == i;
                            assert(idx[t0] == i);
                        }
                    }
                }
            }
            j = j + 1;
        }
        proof { self.lemma_lists_product(product_code@, r@, idx); }
        r
    }

    /// Every record of `product_code`, smallest on-hand quantity first;
    /// equal quantities keep the ledger's storage order.
    pub fn ranked_for_product(&self, product_code: &String) -> (r: Vec<UniqueIdentifier>)
        requires
            self.wf(),
        ensures
            lists_product(self.view(), product_code@, r@),
            ascending_by_pcs(r@),
    {
        let mut r: Vec<UniqueIdentifier> = Vec::new();
        let ghost mut idx: Seq<int> = Seq::empty();
        let mut j: usize = 0;
        while j < self.records.len()
            invariant
                self.wf(),
                j <= self.records@.len(),
                r@.len() == idx.len(),
                forall|t: int|
                    0 <= t < r@.len() ==> 0 <= #[trigger] idx[t] < j && r@[t]@
                        == self.records@[idx[t]]@ && self.records@[idx[t]].product_code@
                        == product_code@,
                forall|s: int, t: int| 0 <= s < r@.len() && 0 <= t < r@.len() && s != t ==> idx[s] != idx[t],
                forall|i: int|
                    0 <= i < j && #[trigger] self.records@[i].product_code@ == product_code@
                        ==> exists|t: int| 0 <= t < r@.len() && idx[t] == i,
                ascending_by_pcs(r@),
            decreases self.records@.len() - j,
        {
            if self.records[j].product_code == *product_code {
                let ghost r0 = r@;
                let ghost idx0 = idx;
                let x = self.records[j].copy();
                let pos = insert_ascending(&mut r, x);
                proof {
                    idx = idx.insert(pos as int, j as int);
                    r0.insert_ensures(pos as int, x);
                    idx0.insert_ensures(pos as int, j as int);
                    assert forall|t: int| 0 <= t < r@.len() implies 0 <= #[trigger] idx[t] < j + 1
                        && r@[t]@ == self.records@[idx[t]]@ && self.records@[idx[t]].product_code@
                        == product_code@ by {
                        if t > pos {
                            assert(r@[t] == r0[t - 1] && idx[t] == idx0[t - 1]);
                        }
                    }
                    assert forall|s: int, t: int|
                        0 <= s < r@.len() && 0 <= t < r@.len() && s != t implies idx[s] != idx[t] by {
                        if s > pos {
                            assert(idx[s] == idx0[s - 1]);
                        }
                        if t > pos {
                            assert(idx[t] == idx0[t - 1]);
                        }
                    }
                    assert forall|i: int|
                        0 <= i < j + 1 && #[trigger] self.records@[i].product_code@ == product_code@
                        implies exists|t: int| 0 <= t < r@.len() && idx[t] == i by {
                        if i == j {
                            assert(idx[pos as int] == i);
                        } else {
                            let t0 = choose|t: int| 0 <= t < idx0.len() && idx0[t] == i;
                            if t0 < pos {
                                assert(idx[t0] == i);
                            } else {
                                assert(idx[t0 + 1] == i);
                            }
                        }
                    }
                }
            }
            j = j + 1;
        }
        proof { self.lemma_lists_product(product_code@, r@, idx); }
        r
    }

    /// Rows drawn from distinct positions, one for every record of `p`,
    /// list that product exactly.
    proof fn lemma_lists_product(&self, p: Seq<char>, rows: Seq<UniqueIdentifier>, idx: Seq<int>)
        requires
            self.wf(),
            rows.len() == idx.len(),
            forall|t: int|
                0 <= t < rows.len() ==> 0 <= #[trigger] idx[t] < self.records@.len() && rows[t]@
                    == self.records@[idx[t]]@ && self.records@[idx[t]].product_code@ == p,
            forall|s: int, t: int| 0 <= s < rows.len() && 0 <= t < rows.len() && s != t ==> idx[s] != idx[t],
            forall|i: int|
                0 <= i < self.records@.len() && #[trigger] self.records@[i].product_code@ == p
                    ==> exists|t: int| 0 <= t < rows.len() && idx[t] == i,
        ensures
            lists_product(self.view(), p, rows),
    {
        assert forall|t: int| 0 <= t < rows.len() implies #[trigger] rows[t].product_code@ == p
            && self.view().contains_key(stock_key(rows[t]@)) && self.view()[stock_key(rows[t]@)]
            == rows[t]@ by {
            assert(self.model@.contains_key(stock_key(self.records@[idx[t]]@)));
        }
        assert forall|s: int, t: int|
            0 <= s < rows.len() && 0 <= t < rows.len() && s != t implies stock_key(#[trigger] rows[s]@)
            != stock_key(#[trigger] rows[t]@) by {
            assert(idx[s] != idx[t]);
            assert(rows[s]@ == self.records@[idx[s]]@);
            assert(rows[t]@ == self.records@[idx[t]]@);
        }
        assert forall|k: StockKeyView| #[trigger] self.view().contains_key(k) && k.0 == p implies exists|t: int|
            0 <= t < rows.len() && stock_key(#[trigger] rows[t]@) == k by {
            let i = choose|i: int| 0 <= i < self.records@.len() && stock_key(#[trigger] self.records@[i]@) == k;
            assert(self.records@[i].product_code@ == p);
            let t = choose|t: int| 0 <= t < rows.len() && idx[t] == i;
            assert(stock_key(rows[t]@) == k);
        }
    }
}

/// Whatever sequence of merge-adds and subtracts produced a well-formed
/// ledger, every record in it holds at least one unit and sits under its own
/// key; a key without a record has nothing on hand.
pub proof fn lemma_stock_never_empty(l: &StockLedger, k: StockKeyView)
    requires
        l.wf(),
    ensures
        l.view().contains_key(k) ==> l.view()[k].pcs > 0 && stock_key(l.view()[k]) == k,
        !l.view().contains_key(k) ==> on_hand(l.view(), k) == 0,
{
    if l.view().contains_key(k) {
        let i = choose|i: int| 0 <= i < l.records@.len() && stock_key(#[trigger] l.records@[i]@) == k;
        assert(l.model@.contains_key(stock_key(l.records@[i]@)));
        assert(l.records@[i].pcs > 0);
    }
}

} // verus!
