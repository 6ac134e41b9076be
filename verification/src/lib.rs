//! A watch-classify-relocate engine: paths of newly created files are
//! classified against a set of watched root directories and an
//! extension-to-category mapping, and qualifying files are moved into a
//! category subdirectory of their root.
//!
//! Paths are held as byte strings. The filesystem effects of a relocation
//! are stated over a directory-tree model, so that the whole
//! filter-classify-relocate step is verified end to end; a caller that
//! performs real filesystem I/O executes the same routing decisions.

pub mod paths;
pub mod watchset;
pub mod events;
pub mod classify;
pub mod relocate;
pub mod engine;
