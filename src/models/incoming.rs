use vstd::prelude::*;
use vstd::string::StringExecFns;
use crate::error::LedgerError;
use crate::validation::{present, require_in_range, require_present, MAX_PCS, MIN_PCS};

verus! {

/// A stock record: units of one product held at one (warehouse, location).
pub struct UniqueIdentifier {
    /// Legacy text identity `color^product_name^warehouse^location`.
    pub concatenated_string: String,
    pub product_code: String,
    pub color: String,
    pub product_name: String,
    pub warehouse: String,
    pub location: String,
    pub pcs: i32,
}

/// The mathematical content of a stock record.
pub struct StockRecordView {
    pub concatenated_string: Seq<char>,
    pub product_code: Seq<char>,
    pub color: Seq<char>,
    pub product_name: Seq<char>,
    pub warehouse: Seq<char>,
    pub location: Seq<char>,
    pub pcs: int,
}

impl View for UniqueIdentifier {
    type V = StockRecordView;

    open spec fn view(&self) -> StockRecordView {
        StockRecordView {
            concatenated_string: self.concatenated_string@,
            product_code: self.product_code@,
            color: self.color@,
            product_name: self.product_name@,
            warehouse: self.warehouse@,
            location: self.location@,
            pcs: self.pcs as int,
        }
    }
}

/// The identity of a stock record: (product_code, warehouse, location).
pub type StockKeyView = (Seq<char>, Seq<char>, Seq<char>);

pub open spec fn stock_key(r: StockRecordView) -> StockKeyView {
    (r.product_code, r.warehouse, r.location)
}

/// The legacy text identity: the four parts joined by `^`.
pub open spec fn identifier_text(
    color: Seq<char>,
    product_name: Seq<char>,
    warehouse: Seq<char>,
    location: Seq<char>,
) -> Seq<char> {
    color + seq!['^'] + product_name + seq!['^'] + warehouse + seq!['^'] + location
}

/// Builds the legacy text identity of a stock record.
pub fn identifier_string(
    color: &String,
    product_name: &String,
    warehouse: &String,
    location: &String,
) -> (r: String)
    ensures
        r@ == identifier_text(color@, product_name@, warehouse@, location@),
{
    let sep = "^";
    proof {
        reveal_strlit("^");
        assert(sep@ =~= seq!['^']);
    }
    let mut t = color.clone();
    t.append(sep);
    t.append(product_name.as_str());
    t.append(sep);
    t.append(warehouse.as_str());
    t.append(sep);
    t.append(location.as_str());
    t
}

impl UniqueIdentifier {
    /// A field-by-field copy.
    pub fn copy(&self) -> (r: UniqueIdentifier)
        ensures
            r@ == self@,
    {
        UniqueIdentifier {
            concatenated_string: self.concatenated_string.clone(),
            product_code: self.product_code.clone(),
            color: self.color.clone(),
            product_name: self.product_name.clone(),
            warehouse: self.warehouse.clone(),
            location: self.location.clone(),
            pcs: self.pcs,
        }
    }
}

/// A request to add units at a location, creating the record if needed.
pub struct AddOrUpdateUniqueIdentifierRequest {
    pub color: String,
    pub product_name: String,
    pub warehouse: String,
    pub location: String,
    pub pcs: i32,
}

impl AddOrUpdateUniqueIdentifierRequest {
    pub open spec fn fields_present(&self) -> bool {
        present(self.color@) && present(self.product_name@) && present(self.warehouse@)
            && present(self.location@)
    }

    /// Every text field is non-empty and `pcs` lies in `1..=10000`.
    pub fn validate(&self) -> (r: Result<(), LedgerError>)
        ensures
            r == (if !self.fields_present() {
                Err(LedgerError::MissingField)
            } else if !(MIN_PCS <= self.pcs <= MAX_PCS) {
                Err(LedgerError::InvalidQuantity)
            } else {
                Ok(())
            }),
    {
        require_present(&self.color)?;
        require_present(&self.product_name)?;
        require_present(&self.warehouse)?;
        require_present(&self.location)?;
        require_in_range(self.pcs, MIN_PCS, MAX_PCS)
    }
}

/// A query for every location of one product.
pub struct GetProductLocationsByCode {
    pub product_code: String,
}

impl GetProductLocationsByCode {
    pub fn validate(&self) -> (r: Result<(), LedgerError>)
        ensures
            r == (if present(self.product_code@) { Ok(()) } else { Err(LedgerError::MissingField) }),
    {
        require_present(&self.product_code)
    }
}

/// A product and a quantity wanted for a sales order.
pub struct GetCodeAndPcsForSalesOrder {
    pub product_code: String,
    pub pcs: i32,
}

impl GetCodeAndPcsForSalesOrder {
    pub fn validate(&self) -> (r: Result<(), LedgerError>)
        ensures
            r == (if !present(self.product_code@) {
                Err(LedgerError::MissingField)
            } else if !(MIN_PCS <= self.pcs <= MAX_PCS) {
                Err(LedgerError::InvalidQuantity)
            } else {
                Ok(())
            }),
    {
        require_present(&self.product_code)?;
        require_in_range(self.pcs, MIN_PCS, MAX_PCS)
    }
}

} // verus!
