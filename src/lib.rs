//! Inventory allocation and reservation ledger: stock on hand per
//! (product, warehouse, location), order demand, and reservations that
//! commit stock against orders without ever exceeding that demand.

pub mod error;
pub mod models;
pub mod validation;
pub mod stock;
pub mod orders;
pub mod reservation_ledger;
pub mod planner;
pub mod inventory;
