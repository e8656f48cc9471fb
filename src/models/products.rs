use vstd::prelude::*;
use crate::error::LedgerError;
use crate::validation::{present, require_present};

verus! {

/// A catalogue entry: the code of the product with a given color and name.
pub struct Products {
    pub product_code: String,
    pub color: String,
    pub product_name: String,
}

/// A request to look up a product code by color and name.
pub struct AddProductCodeToUniqueIdentifiers {
    pub color: String,
    pub product_name: String,
}

impl AddProductCodeToUniqueIdentifiers {
    pub fn validate(&self) -> (r: Result<(), LedgerError>)
        ensures
            r == (if !present(self.color@) || !present(self.product_name@) {
                Err(LedgerError::MissingField)
            } else {
                Ok(())
            }),
    {
        require_present(&self.color)?;
        require_present(&self.product_name)
    }
}

/// The code of the first catalogue entry with this color and name.
pub fn product_code_for(catalogue: &Vec<Products>, color: &String, product_name: &String) -> (r:
    Option<String>)
    ensures
        match r {
            Some(code) => exists|i: int|
                0 <= i < catalogue@.len() && (#[trigger] catalogue@[i]).color@ == color@
                    && catalogue@[i].product_name@ == product_name@ && catalogue@[i].product_code@
                    == code@,
            None => forall|i: int|
                0 <= i < catalogue@.len() ==> !((#[trigger] catalogue@[i]).color@ == color@
                    && catalogue@[i].product_name@ == product_name@),
        },
{
    let mut i: usize = 0;
    while i < catalogue.len()
        invariant
            i <= catalogue@.len(),
            forall|j: int|
                0 <= j < i ==> !((#[trigger] catalogue@[j]).color@ == color@
                    && catalogue@[j].product_name@ == product_name@),
        decreases catalogue@.len() - i,
    {
        if catalogue[i].color == *color && catalogue[i].product_name == *product_name {
            return Some(catalogue[i].product_code.clone());
        }
        i = i + 1;
    }
    None
}

} // verus!
