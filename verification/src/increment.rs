//! Applying a bump given on the command line to a version.

use vstd::prelude::*;
use crate::semver::SemVer;

verus! {

/// A source version and the bump to apply to it.
#[derive(Clone, Copy, Debug)]
pub struct IncrementCli {
    /// The source version (X.Y.Z)
    pub source: SemVer,
    /// The increment to add to source (X.Y.Z)
    pub increment: SemVer,
}

/// The text of the version that `args.increment` applied to `args.source`
/// leads to.
pub fn process(args: &IncrementCli) -> (r: String)
    requires
        args.source.can_increment(args.increment),
    ensures
        r@ == args.source.incremented(args.increment).text(),
{
    let mut s = args.source;
    s.increment(args.increment);
    s.to_string()
}

} // verus!
