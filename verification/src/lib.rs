//! Core logic of the ShuJi multi-department development workflow:
//! workflow stage machines and task graphs, command safety checks,
//! compiler/test output analysis, document frontmatter handling,
//! contract parsing and diffing, and editor launch arguments.
pub mod keyed;
pub mod text;
pub mod tool;
pub mod usage;
pub mod validate;
pub mod workflow;
