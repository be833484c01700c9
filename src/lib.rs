//! Topology aggregation and view filtering for a service graph: turns the
//! grouped rows of an event store into graphs, active-node lists and traffic
//! histograms, and simplifies a graph into a presentable service map.

pub mod payloads;
pub mod service_map;
pub mod error;
pub mod prefix;
pub mod graph;
pub mod activity;
pub mod histogram;
pub mod filters;
pub mod params;
pub mod ingest;
pub mod registry;
pub mod health;
