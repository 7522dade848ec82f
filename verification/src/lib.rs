//! Deterministic, I/O-free rules of an idle farming game.
//!
//! All authoritative economic values are non-negative integers of unbounded
//! size. Plant stock and animal growth use cent-units (`0.01`).
pub mod bignat;
pub mod keyed;
pub mod amount;
pub mod order;
pub mod error;
pub mod ids;
pub mod config;
pub mod idmap;
pub mod state;
pub mod budget;
pub mod pricing;
pub mod event;
pub mod input;
pub mod production;
pub mod purchase;
pub mod sale;
pub mod activity;
pub mod probe;
pub mod content;
pub mod stats;
pub mod message;
pub mod engine;
pub mod backend;
pub mod snapshot;
pub mod save;
