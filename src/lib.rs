//! Verified core of a Discord guild greeter: the OAuth authorization flow
//! (single-use, IP-bound state tokens), the session guard over the identity
//! cookie, and the administrator check that gates greeting updates.

pub mod endpoint;
pub mod error;
pub mod flow;
pub mod privilege;
pub mod session;
pub mod state_store;
pub mod state_token;
