//! Core of a schema compiler: a type graph of definitions that may reference
//! each other, compiler passes that resolve those references and assign each
//! definition a structural type, and a lowering of resolved types into a
//! target-independent imperative representation for computing encoded sizes
//! and for serializing and deserializing values.

pub mod name;
pub mod errors;
pub mod reference;
pub mod type_spec;
pub mod data;
pub mod variant;
pub mod graph;
pub mod resolver;
pub mod passes;
pub mod resolve_pass;
pub mod spec_pass;
pub mod pipeline;
pub mod ir;
pub mod laws;
