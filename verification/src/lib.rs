//! A monitoring data service for physical facilities.
//!
//! The library models a containment hierarchy (site -> room -> device) with
//! two time-series facts per device (sensor readings and control setpoints),
//! backed by an in-memory relational store. Mutations validate referential
//! integrity before inserting; queries resolve the entity graph lazily, one
//! fetch per requested field. A seed routine populates one full hierarchy
//! together with a bounded synthetic time series, atomically.

pub mod ambient;
pub mod models;
pub mod schema;
pub mod seed;
pub mod store;
pub mod text;
pub mod validate;
