//! An embedded multi-model data engine: graph records and traversal, a
//! brute-force vector index with exact top-k ranking, and a small pipeline
//! query language that chains a placeholder embedding to a vector search.

pub mod error;
pub mod text;
pub mod json;
pub mod rank;
pub mod vector;
pub mod document;
pub mod graph;
pub mod embed;
pub mod query;
pub mod telemetry;
pub mod config;
pub mod auth;
pub mod loadtest;
pub mod loadtest_config;
pub mod adapters;
pub mod apikeys;

pub use error::{ErrorView, HelixError, HelixResult};
pub use graph::{EdgeRecord, NodeRecord};
pub use query::{HelixQlRequest, HelixQuery, HelixQueryLiteral};
pub use vector::{SimilarityMetric, VectorRecord};
