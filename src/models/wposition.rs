use vstd::prelude::*;
use crate::error::LedgerError;
use crate::validation::{present, require_in_range, require_present, MAX_PCS, MIN_PCS};

verus! {

/// A stock position as the warehouse view lists it, keyed by its text identity.
pub struct UniqueIdentifier {
    pub concatenated_string: String,
    pub color: String,
    pub product_name: String,
    pub warehouse: String,
    pub location: String,
    pub pcs: i32,
}

/// A request to add units at a warehouse position.
pub struct AddOrUpdateUniqueIdentifierRequest {
    pub color: String,
    pub product_name: String,
    pub warehouse: String,
    pub location: String,
    pub pcs: i32,
}

impl AddOrUpdateUniqueIdentifierRequest {
    pub open spec fn fields_present(&self) -> bool {
        present(self.color@) && present(self.product_name@) && present(self.warehouse@)
            && present(self.location@)
    }

    /// Every text field is non-empty and `pcs` lies in `1..=10000`.
    pub fn validate(&self) -> (r: Result<(), LedgerError>)
        ensures
            r == (if !self.fields_present() {
                Err(LedgerError::MissingField)
            } else if !(MIN_PCS <= self.pcs <= MAX_PCS) {
                Err(LedgerError::InvalidQuantity)
            } else {
                Ok(())
            }),
    {
        require_present(&self.color)?;
        require_present(&self.product_name)?;
        require_present(&self.warehouse)?;
        require_present(&self.location)?;
        require_in_range(self.pcs, MIN_PCS, MAX_PCS)
    }
}

} // verus!
