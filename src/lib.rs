//! Bridges a flat stream of structural events and the recursive KeyValues
//! document model: a verified builder that folds a token stream into a
//! document, its inverse flattener, a text renderer and the per-shape rules
//! of the serializer that produces the tokens.

pub mod error;
pub mod value;
pub mod token;
pub mod builder;
pub mod flatten;
pub mod text;
pub mod render;
pub mod ser;
pub mod laws;
