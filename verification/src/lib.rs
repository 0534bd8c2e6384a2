//! Domain logic behind a web-novel site's reader features: chapter visit
//! counters and leaderboards, user registration and profiles, comments with
//! @-mentions, and a time-boxed chapter vote.
//!
//! The functions here are verified against a mathematical model of the
//! data ([`state::State`]); the few calls into other crates stand in
//! [`foreign`], each with the contract that the rest relies on. Time and
//! storage stay outside: callers pass the current time in, and move the
//! rows of the [`store::Store`] to and from storage as [`tables::Tables`].

pub mod api;
pub mod avatar;
pub mod codes;
pub mod error;
pub mod foreign;
pub mod laws;
pub mod mentions;
pub mod models;
pub mod ranking;
pub mod state;
pub mod store;
pub mod tables;
pub mod upkeep;
pub mod validate;
