use vstd::prelude::*;
use crate::error::LedgerError;
use crate::models::incoming::StockKeyView;
use crate::stock::StockKey;
use crate::validation::{present, require_in_range, require_present, MAX_PCS, MIN_PCS};

verus! {

/// A stock record as reported outward, without its product code.
pub struct OutgoingIdentifier {
    pub concatenated_string: String,
    pub color: String,
    pub product_name: String,
    pub warehouse: String,
    pub location: String,
    pub pcs: i32,
}

/// A request to take units from a location; the record goes when it empties.
pub struct RemoveUniqueIdentifierRequest {
    pub color: String,
    pub product_name: String,
    pub warehouse: String,
    pub location: String,
    pub pcs: i32,
}

impl RemoveUniqueIdentifierRequest {
    pub open spec fn fields_present(&self) -> bool {
        present(self.color@) && present(self.product_name@) && present(self.warehouse@)
            && present(self.location@)
    }

    /// Every text field is non-empty and `pcs` lies in `1..=10000`.
    pub fn validate(&self) -> (r: Result<(), LedgerError>)
        ensures
            r == (if !self.fields_present() {
                Err(LedgerError::MissingField)
            } else if !(MIN_PCS <= self.pcs <= MAX_PCS) {
                Err(LedgerError::InvalidQuantity)
            } else {
                Ok(())
            }),
    {
        require_present(&self.color)?;
        require_present(&self.product_name)?;
        require_present(&self.warehouse)?;
        require_present(&self.location)?;
        require_in_range(self.pcs, MIN_PCS, MAX_PCS)
    }

    /// The stock key this request names, once its product code is known.
    pub open spec fn key_for(&self, product_code: Seq<char>) -> StockKeyView {
        (product_code, self.warehouse@, self.location@)
    }

    /// Builds the stock key this request names under `product_code`.
    pub fn stock_key(&self, product_code: &String) -> (r: StockKey)
        ensures
            r@ == self.key_for(product_code@),
    {
        StockKey {
            product_code: product_code.clone(),
            warehouse: self.warehouse.clone(),
            location: self.location.clone(),
        }
    }
}

} // verus!
