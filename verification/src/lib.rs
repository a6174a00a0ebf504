//! An on-demand content generator: for any requested path the request
//! pipeline either serves a previously generated artifact from a persistent
//! cache or prepares a remote text-generation call and stores the result for
//! future requests.
//!
//! The crate covers the request-resolution pipeline: content-type
//! negotiation, hierarchical reference-material assembly, cache-aside lookup,
//! and a single-flight in-flight guard that prevents duplicate concurrent
//! generation for the same resource.  Process bootstrap, the HTTP surface and
//! the generation transport live outside this crate and drive it through
//! [`handler::handle_request`] and [`handler::handle_outcome`].

pub mod config;
pub mod content_type;
pub mod db;
pub mod handler;
pub mod openrouter;
pub mod state;
pub mod utils;
