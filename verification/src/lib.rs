//! Risk-regime supervision for a trading engine.
//!
//! A [`manager::RiskManager`] keeps a book of per-position Value-at-Risk
//! contributions, derives the aggregate from it, and moves between four risk
//! regimes as the aggregate crosses two thresholds. Every change to the book
//! yields the ordered list of effects (hook notices, alerts, directives for the
//! trading engine) that the surrounding program has to carry out. A
//! [`engine::TradingEngine`] decides what becomes of each directive.
//!
//! Amounts are integers, so that the aggregate is exact. The contracts are
//! stated over [`model::RiskModel`]; [`history`] proves what holds over whole
//! runs of updates.
pub mod aggregate;
pub mod book;
pub mod command;
pub mod effect;
pub mod engine;
pub mod history;
pub mod manager;
pub mod model;
pub mod state;
