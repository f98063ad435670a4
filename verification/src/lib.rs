//! Short codes for values: every value submitted gets one code of two to
//! five alphanumeric symbols, derived from the identity under which the
//! store keeps it, and the code leads back to the value.
//!
//! - [`alphabet`] and [`codec`]: the 62 symbols, the base-62 code of an
//!   identity, and the form a code must have.
//! - [`protocol`]: the requests an operation puts to the store that keeps
//!   the mappings, and the store's replies.
//! - [`engine`]: encode and decode as machines over that protocol; they
//!   hold no store and wait for nothing.
//! - [`model`] and [`table`]: the mapping table as mathematics, and a table
//!   in memory that behaves so.
//! - [`service`]: the operations run to their end on such a table.
//! - [`laws`]: what holds of them on every table.
//! - [`error`]: the ways an operation fails.
//! - [`sqlite_url`]: the file behind a database URL.

pub mod alphabet;
pub mod codec;
pub mod engine;
pub mod error;
pub mod laws;
pub mod model;
pub mod protocol;
pub mod service;
pub mod sqlite_url;
pub mod table;
