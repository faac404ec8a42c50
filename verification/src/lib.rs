//! Build artifact lifecycle and action-output binding.
//!
//! An artifact is either a pre-existing source file or an output declared by
//! one build unit's analysis.  A per-unit [`registry::BindingRegistry`]
//! allocates declared artifacts, records exactly one producing action per
//! artifact, and rejects double-binding.  Paths of declared artifacts can be
//! projected into sub-paths, auxiliary artifacts can travel with a primary
//! one, and every artifact resolves to exactly one command-line path string.

pub mod artifact;
pub mod assoc;
pub mod attrs;
pub mod dependency;
pub mod path;
pub mod registry;
pub mod resolver;
