//! Anonymous-target registry: content-addressed target identity, deduplicated
//! registration, promise fan-out on resolution, and the gateway response
//! classification used by the HTTP layer.

pub mod anon_target;
pub mod error;
pub mod key;
pub mod registry;
pub mod self_ref;
pub mod x2p;
