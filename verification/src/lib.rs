//! Sampling of pending transactions sent to one contract.
//!
//! A [`driver::Driver`] is handed what a node delivers, one event at a time:
//! identifiers of pending transactions and the records they resolve to. It
//! keeps the records that are addressed to the target ([`filter`]) in a sample
//! of fixed capacity ([`collector`]) and stops when the sample is full or the
//! source ends. The finished sample is put in order of value and described
//! record by record ([`report`]), token transfers in the call data being
//! decoded on the way ([`decoder`]).
//!
//! The library does no input or output. Connecting to the node, awaiting its
//! answers and printing the report are left to the program around it.

pub mod collector;
pub mod config;
pub mod decoder;
pub mod driver;
pub mod encoding;
pub mod error;
pub mod filter;
pub mod primitives;
pub mod record;
pub mod report;
mod trusted;
