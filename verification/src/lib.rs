//! Random load distribution over destination URLs registered under an access key.
//!
//! A key and its URLs live in two tiers: a fast ephemeral store that answers
//! lookups, and a durable store that is the system of record. This crate holds
//! the rules that keep the two coherent: what is read from which tier, what is
//! written where and in which order, when a miss is repaired from the durable
//! tier, when a new key is refused because a quota is exhausted, and for how
//! long an anti-forgery token is valid.
//!
//! Every rule is written once, as a procedure that asks for one store operation
//! at a time and decides on the answer:
//!
//! - [`dao::redis::ops::RdOp`] and [`dao::mysql::ops::DbOp`] carry out one
//!   operation of a tier as a script of single orders to the store;
//! - [`engine::Op`] carries out one operation of the service as a sequence of
//!   operations of the tiers.
//!
//! A caller with real stores performs what is asked and hands the answer back,
//! failures included. [`state::AppState`] does the same over the in-memory
//! tiers [`dao::redis::db::RdSrv`] and [`dao::mysql::db::DbSrv`], which never
//! fail. [`world::World`] says what each operation then does and returns, and
//! [`laws`] holds what follows for every state of the tiers.
pub mod dao;
pub mod engine;
pub mod entity;
pub mod error;
pub mod laws;
pub mod state;
pub mod text;
pub mod value;
pub mod world;
