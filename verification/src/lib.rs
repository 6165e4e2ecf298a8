//! A link-mirroring engine: it mirrors a source file or directory tree into a
//! destination by planning hard links or symbolic links for every regular file
//! encountered, instead of copying data.
//!
//! The modules here hold the verified core: wildcard expansion of the source
//! argument, destination-path resolution, collision handling for pre-existing
//! destination files (backup with a unique suffix, forced overwrite, or hard
//! failure), and the per-entry decisions of the traversal. The surrounding
//! binary performs the filesystem reads and writes that these decisions call
//! for.

pub mod backup;
pub mod engine;
pub mod glob;
pub mod options;
pub mod paths;
pub mod relative;
pub mod strutil;
