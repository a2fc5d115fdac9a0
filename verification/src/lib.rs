//! Partitioning, routing and bulk-consistency layer for a multi-tenant
//! search facade.
//!
//! Applications own logical indices; each logical index is physically
//! realized as a set of partitions inside an external full-text engine,
//! named `{app_id}.{index_name}.{partition}`. This crate holds the verified
//! core of that layer: canonical name construction, the application
//! registry's bookkeeping, partition naming and provisioning decisions,
//! document-id composition and routing, bulk-outcome aggregation, and
//! search-query construction. All network traffic with the engine stays
//! outside; the functions here turn observed engine responses, given as
//! plain values, into decisions and request parts.

pub mod bulk;
pub mod errors;
pub mod helpers;
pub mod lifecycle;
pub mod naming;
pub mod partition;
pub mod registry;
pub mod router;
pub mod search;
pub mod status;
pub mod structs;
pub mod text;
