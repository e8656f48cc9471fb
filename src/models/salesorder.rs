use vstd::prelude::*;
use crate::error::LedgerError;
use crate::validation::{present, require_in_range, require_present, MAX_PCS, MIN_PCS};

verus! {

/// An order line: how many units of one product an order demands.
pub struct SalesOrder {
    pub order_number: String,
    pub product_code: String,
    pub color: String,
    pub product_name: String,
    pub pcs: i32,
    pub company: String,
}

/// The mathematical content of an order line.
pub struct OrderLineView {
    pub order_number: Seq<char>,
    pub product_code: Seq<char>,
    pub color: Seq<char>,
    pub product_name: Seq<char>,
    pub pcs: int,
    pub company: Seq<char>,
}

impl View for SalesOrder {
    type V = OrderLineView;

    open spec fn view(&self) -> OrderLineView {
        OrderLineView {
            order_number: self.order_number@,
            product_code: self.product_code@,
            color: self.color@,
            product_name: self.product_name@,
            pcs: self.pcs as int,
            company: self.company@,
        }
    }
}

/// The identity shared by order lines and reservations: (order, product).
pub type OrderKeyView = (Seq<char>, Seq<char>);

pub open spec fn order_key(l: OrderLineView) -> OrderKeyView {
    (l.order_number, l.product_code)
}

impl SalesOrder {
    /// A field-by-field copy.
    pub fn copy(&self) -> (r: SalesOrder)
        ensures
            r@ == self@,
    {
        SalesOrder {
            order_number: self.order_number.clone(),
            product_code: self.product_code.clone(),
            color: self.color.clone(),
            product_name: self.product_name.clone(),
            pcs: self.pcs,
            company: self.company.clone(),
        }
    }

    pub open spec fn fields_present(&self) -> bool {
        present(self.order_number@) && present(self.product_code@) && present(self.color@)
            && present(self.product_name@) && present(self.company@)
    }

    /// Every text field is non-empty and `pcs` lies in `1..=10000`.
    pub fn validate(&self) -> (r: Result<(), LedgerError>)
        ensures
            r == (if !self.fields_present() {
                Err(LedgerError::MissingField)
            } else if !(MIN_PCS <= self.pcs <= MAX_PCS) {
                Err(LedgerError::InvalidQuantity)
            } else {
                Ok(())
            }),
    {
        require_present(&self.order_number)?;
        require_present(&self.product_code)?;
        require_present(&self.color)?;
        require_present(&self.product_name)?;
        require_present(&self.company)?;
        require_in_range(self.pcs, MIN_PCS, MAX_PCS)
    }
}

/// One row of an allocation report in the storage layer's shape, where
/// every column may be absent.
pub struct SalesOrderProduct {
    pub product_code: Option<String>,
    pub color: Option<String>,
    pub product_name: Option<String>,
    pub warehouse: Option<String>,
    pub location: Option<String>,
    pub warehouse_pcs: Option<i32>,
    pub order_pcs: Option<i32>,
    pub deducted_pcs: Option<i32>,
    pub difference: Option<i32>,
}

/// A query for one sales order.
pub struct GetSalesOrder {
    pub order_number: String,
}

impl GetSalesOrder {
    pub fn validate(&self) -> (r: Result<(), LedgerError>)
        ensures
            r == (if present(self.order_number@) { Ok(()) } else { Err(LedgerError::MissingField) }),
    {
        require_present(&self.order_number)
    }
}

} // verus!
