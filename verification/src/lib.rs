//! Version calculation from conventional commits.
//!
//! The library decides what a commit history means for a project's version:
//! how a commit message reads as a conventional commit, which bump it asks
//! for, and how bumps accumulate onto a base version.

pub mod semver;
pub mod decimal;
pub mod pattern;
pub mod commit;
pub mod version;
pub mod release;
pub mod increment;
pub mod text;
