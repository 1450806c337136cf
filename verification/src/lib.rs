//! Incremental synchronization engine for daily stock price history.
//!
//! A registry stores, per ticker, one price point per calendar date. A
//! market-data provider can be asked for the points inside a date window.
//! This crate holds the verified core of the agent that keeps the registry
//! current: for each stock it decides which window to fetch, drops the
//! candidate points whose dates the registry already has, and tracks the
//! per-point outcome of the appends. All network traffic stays outside the
//! crate; callers run the I/O and feed the results back in as plain values.

pub mod batch;
pub mod clock;
pub mod date;
pub mod engine;
pub mod laws;
pub mod models;
pub mod provider;
pub mod reconcile;
