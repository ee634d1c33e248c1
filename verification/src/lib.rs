//! Novella: the kernel of a story-development environment.
//!
//! The crate holds the data model of the kernel (entities and their
//! components, manuscripts, time systems, a small virtual file system) and
//! the text utilities the editor relies on, each function with its contract.
pub mod common;
pub mod nvcore;
pub mod kernel;
pub mod nvfs;
pub mod csl;
