//! A registry of short links: each identifier maps to one destination URL, and
//! a request for the identifier is redirected there.
//!
//! - [`model`] is the registry as mathematics: a map from identifier to
//!   destination, and what writing, deleting, looking up and listing do to it.
//! - [`links`] holds the link record and an in-memory registry whose
//!   operations are proved against the model.
//! - [`endpoint`] decides the HTTP response to each outcome of a registry
//!   operation.
//! - [`config`] decides what the values found in the environment amount to.
//! - [`laws`] states and proves what holds across operations.

pub mod config;
pub mod endpoint;
pub mod laws;
pub mod links;
pub mod model;
