//! Release versions counted from version tags and the commits since them.

pub mod commit;
pub mod git;
pub mod version;
