//! Entity-component scene store.
//!
//! Entities are dense indices; each component type has a column (`table`) with one
//! optional slot per entity, and the `scene` keeps every column aligned with the
//! entity count. `laws` states what holds across the store's operations, `input`
//! turns held keys into camera moves, and `controllers` holds the per-entity
//! behaviours' own state and timing.
pub mod controllers;
pub mod input;
pub mod laws;
pub mod scene;
pub mod table;
