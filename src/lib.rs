//! Client-side software license verification: selection of the cached,
//! signed key file that applies to a product, the check state machine
//! around it, and the authenticated channel used to refresh the cache.

pub mod error;
pub mod model;
pub mod crypto;
pub mod selection;
pub mod wire;
pub mod license_data;
pub mod engine;
pub mod codec;
pub mod activation;
