//! Gauge evaluation and metric projection.
//!
//! A manifest names groups of gauges; each gauge pairs a query against a
//! tabular data source with a measurement mode. This library holds the
//! verified core of that pipeline: the data model for manifests and columnar
//! query results, the projection of query results into metric data points,
//! the per-gauge dispatch on the measurement mode, and the manifest runner
//! that isolates per-gauge failures. Loading the manifest, executing the
//! queries and delivering the metrics are outside collaborators; they hand
//! this library plain values and take plain values back.

pub mod config;
pub mod metrics;
pub mod projector;
pub mod runner;
pub mod tabular;
