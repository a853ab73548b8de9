//! Verified core of a boilerplate renderer for a fleet of Git repositories.
//!
//! The crate plans which artifacts a set of templates produces for which
//! repositories, resolves layered variable overrides in precedence order,
//! normalizes rendered text, decides when and how a local Git mirror must be
//! synchronized, and assembles a colorized unified-diff report.  File and
//! network work is left to the surrounding binary, which feeds plain values
//! in and carries the decisions out.

pub mod diff;
pub mod errors;
pub mod github;
pub mod normalize;
pub mod paths;
pub mod render;
pub mod schema;
pub mod sync;
pub mod vars;
pub mod writer;
