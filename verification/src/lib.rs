//! A small real-time location-sharing library for a bus fleet.
//!
//! Clients submit GPS coordinates for a named vehicle, poll for the latest
//! known position or for static route geometry, and can explicitly end a
//! vehicle's sharing session.  The state is a mapping from vehicle identifier
//! to its last reported position, plus an immutable catalog of route features
//! loaded once at startup.

pub mod api;
pub mod catalog;
pub mod laws;
pub mod parse;
pub mod position;
pub mod store;
mod time;

pub use api::LineLookup;
pub use catalog::{CatalogError, RouteCatalog, RouteFeature};
pub use position::Position;
pub use store::PositionStore;
