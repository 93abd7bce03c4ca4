//! The ephemeral tier: named sets of strings, and ordered sets of scored strings.
pub mod init;
pub mod naming;
pub mod command;
pub mod cache;
pub mod db;
pub mod ops;
