//! A configuration-schema description and validation engine.
//!
//! A program declares, for a set of named configuration objects (schemas),
//! the fields each object has, how a field's raw input is normalized and
//! checked, how fields are grouped into conditionally shown form sections,
//! and which fields appear in list-view summaries.  A registry of schemas is
//! assembled once through a staged builder, which rejects referential
//! defects (duplicate ids, dangling or cyclic references, secrets in list
//! views) before any evaluation can see them.  Against a built registry,
//! the validation engine turns a raw submission into normalized values or
//! per-field errors, and the visibility engine computes which fields and
//! sections are currently shown.

pub mod text;
pub mod value;
pub mod schema;
pub mod engine;
pub mod builder;
pub mod tls;
pub mod laws;
