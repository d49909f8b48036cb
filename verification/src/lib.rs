//! Trait queries over an entity-component store: a registry of the component
//! types that implement a trait, and the query states and fetches that find
//! those components without naming their concrete types.

pub mod access;
pub mod all;
pub mod fetch;
pub mod laws;
pub mod matching;
pub mod one;
pub mod registry;
pub mod storage;
pub mod walk;
