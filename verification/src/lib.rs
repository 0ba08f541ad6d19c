//! Upward search: look for files or directories by name in a starting
//! directory and in each of its ancestors, nearest first.
//!
//! Paths are held as text. The chain of directories is computed from the
//! text of the starting directory alone; the filesystem is only asked whether
//! a candidate exists and of what kind it is. A question that the filesystem
//! cannot answer counts as "no match", so a search always has a result.

pub mod finder;
pub mod kind;
pub mod paths;
pub mod table;
pub mod walk;

pub use finder::UpFinder;
pub use kind::FindUpKind;
pub use kind::FindUpResult;
