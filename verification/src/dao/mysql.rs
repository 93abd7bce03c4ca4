//! The durable tier: the records of the keys and of their URLs.
pub mod command;
pub mod disk;
pub mod ops;
pub mod db;
