//! A local mirror of a remote data catalog's metadata tree.
//!
//! The remote service exposes a three-level containment hierarchy
//! (catalogs contain schemas, schemas contain tables). This crate holds the
//! verified core of the mirroring pipeline: the flat record model, the
//! exclusion policy deciding which catalogs are mirrored, request-URL
//! construction, the in-memory mirror with insert-or-replace semantics, and
//! the three sync phases as event-driven state machines. The surrounding
//! process performs the HTTP requests, JSON decoding and relational writes
//! and feeds the results back into the machines.
//!
//! The contracts and laws establish, among other things: that a mirror
//! write is idempotent and that a colliding key fully overwrites its row
//! (`mirror::lemma_write_idempotent`, `mirror::lemma_written_lookup`); that
//! an excluded catalog is never the subject of a child fetch and never
//! contributes a row (`mirror::lemma_excluded_catalog_not_written` and the
//! sync machines' contracts); that a fetch failure aborts a phase with the
//! matching error and leaves the store untouched; and that the schema phase
//! demands a pacing pause after every catalog before the next request.

pub mod client;
pub mod mirror;
pub mod model;
pub mod policy;
pub mod sync;
pub mod text;
