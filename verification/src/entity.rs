//! The records of the durable tier.
pub mod key;
pub mod url;
