//! Plain record and request types exchanged with the storage and HTTP layers.

pub mod incoming;
pub mod outgoing;
pub mod products;
pub mod reservations;
pub mod salesorder;
pub mod wposition;
