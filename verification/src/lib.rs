//! Verified rules of a managed approximate-nearest-neighbour index.
//!
//! An index has one metric and one dimension for its whole life, and a graph
//! engine that stores its points. This crate decides what such an index
//! accepts and what it hands to the engine: which vectors may be inserted or
//! searched for, under which identifiers, and which points a compaction
//! carries over into a rebuilt graph of which capacity. The caller holds the
//! graph and its lock and performs the engine calls these rules decide on.
//!
//! Vectors are taken as `Vec<T>` for any coordinate type `T`: the rules look
//! at lengths and identifiers only.

pub mod compaction;
pub mod config;
pub mod error;
pub mod surface;

pub use compaction::CompactionPlan;
pub use config::{DistanceType, EngineParams, IndexConfig};
pub use error::HnswError;
pub use surface::{SearchParams, SearchResult};
