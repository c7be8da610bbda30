//! A schema-normalization library for cluster-style OpenAPI descriptions.
//!
//! The crate models a parsed API description (named type definitions plus
//! resource operations) as an intermediate representation, and rewrites it in
//! place through a fixed sequence of order-dependent passes ("fixups").  Each
//! pass recognizes a structural pattern in the schema graph, checks the
//! cross-cutting assumptions it relies on, and either rewrites definitions and
//! operations consistently or fails with a descriptive message.

pub mod error;
pub mod fixup_delete;
pub mod fixup_list;
pub mod fixup_patch;
pub mod fixup_responses;
pub mod fixup_watch;
pub mod ir;
pub mod lookup;
pub mod model;
pub mod pipeline;
pub mod names;
pub mod synth;
pub mod text;
