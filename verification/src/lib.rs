//! Recursive disk-usage aggregation over a directory-tree snapshot.
//!
//! The library models a listed directory tree as a plain value, walks it
//! (sequentially or in parallel), and produces for every directory the total
//! byte size of the regular files it transitively contains, together with the
//! list of per-entry errors that were contained along the way.

pub mod laws;
pub mod tree;
pub mod walk;

pub use tree::DirNode;
pub use tree::Entry;
pub use tree::ErrKind;
pub use tree::FsTree;
pub use tree::WalkError;
pub use walk::Mode;
pub use walk::RootError;
