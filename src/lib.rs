//! The data layer of a local development server for edge-compute programs.
//!
//! It keeps three kinds of store (config, KV and secret): a registry of the
//! stores of each kind, and for each store a table of items created on its
//! first write. Every mutation is one unit of work that either succeeds whole
//! or leaves the state as it was; changes that the execution engine sees at
//! run time raise a coalescing reload signal; and a materializer reads every
//! store into a snapshot, under both its id and its name, for the engine.
//!
//! `store::StoreView` is the model that the contracts speak of, and `laws`
//! states the properties that hold across operations.


pub mod cli;
pub mod generation;
pub mod keyed;
pub mod keys;
pub mod laws;
pub mod materialize;
pub mod model;
pub mod registry;
pub mod reload;
pub mod secrets;
pub mod store;
pub mod support;
