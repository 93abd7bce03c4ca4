//! The two tiers: what each is asked, and what each answers.
pub mod mysql;
pub mod redis;
