//! Reconciliation of a client-submitted manifest of file changes against a
//! metadata store and a blob store, with a report for every entry.
//!
//! - [`entry`]: file records and the storage keys derived for them.
//! - [`manifest`]: the batch manifest and how its JSON form is read.
//! - [`gateway`]: the requests made of the two stores and their answers.
//! - [`protocol`]: what is reported for one entry, given the answers.
//! - [`engine`]: the state machine that walks a manifest request by request.
//! - [`report`]: outcomes, results and the response to a batch.
//! - [`store`], [`blob`]: the two stores as the engine understands them,
//!   kept in memory.
//! - [`reconcile`]: a whole batch against the stores in memory.
//! - [`laws`]: what holds of every reconciliation.
//! - [`service`]: the replies of the service around the engine.

pub mod blob;
pub mod engine;
pub mod entry;
pub mod gateway;
pub mod laws;
pub mod manifest;
pub mod protocol;
pub mod reconcile;
pub mod report;
pub mod service;
pub mod store;
