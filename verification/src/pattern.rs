//! The version patterns, matched by the `regex` crate.

use vstd::prelude::*;
use crate::decimal::all_ascii_digits;

verus! {

/// A version as a whole text: `MAJOR.MINOR.PATCH`, optionally followed by a
/// `-` suffix of word characters, dashes and dots.
pub const SEMVER_PATTERN: &'static str = "^(\\d+)\\.(\\d+)\\.(\\d+)(-[\\w\\-.]+|)$";

/// A version tag anywhere in a text: `vMAJOR.MINOR.PATCH`, optionally
/// followed by a `-` suffix.
pub const TAG_PATTERN: &'static str = "v(\\d+)\\.(\\d+)\\.(\\d+)(-[\\w\\-.]+|)";

/// A non-empty run of ASCII digits.
pub open spec fn is_numeral(s: Seq<char>) -> bool {
    s.len() > 0 && all_ascii_digits(s)
}

/// The text `a.b.c`.
pub open spec fn dotted(a: Seq<char>, b: Seq<char>, c: Seq<char>) -> Seq<char> {
    a + seq!['.'] + b + seq!['.'] + c
}

/// The text `va.b.c`.
pub open spec fn tagged(a: Seq<char>, b: Seq<char>, c: Seq<char>) -> Seq<char> {
    seq!['v'] + dotted(a, b, c)
}

/// The texts of three captured groups.
pub open spec fn groups_view(g: Option<(String, String, String)>) -> Option<(Seq<char>, Seq<char>, Seq<char>)> {
    match g {
        None => None,
        Some((a, b, c)) => Some((a@, b@, c@)),
    }
}

/// The three number groups that `SEMVER_PATTERN` captures in `s`, or `None`
/// where it does not match.
pub uninterp spec fn semver_pattern_groups(s: Seq<char>) -> Option<(Seq<char>, Seq<char>, Seq<char>)>;

/// The three number groups of the leftmost match of `TAG_PATTERN` in `s`, or
/// `None` where nothing matches.
pub uninterp spec fn tag_pattern_groups(s: Seq<char>) -> Option<(Seq<char>, Seq<char>, Seq<char>)>;

/// Calls `regex::Regex::captures` with `SEMVER_PATTERN` on `s` and hands out
/// groups 1 to 3. Trusted: the groups are what `semver_pattern_groups` names,
/// and a text made of three ASCII numerals joined by dots is matched with those
/// three numerals as its groups (`\d+` takes every ASCII digit and no dot, and
/// the empty alternative of the suffix group lets the match end there).
#[verifier::external_body]
pub(crate) fn semver_groups(s: &str) -> (r: Option<(String, String, String)>)
    ensures
        groups_view(r) == semver_pattern_groups(s@),
        (forall|a: Seq<char>, b: Seq<char>, c: Seq<char>|
            is_numeral(a) && is_numeral(b) && is_numeral(c) && s@ == #[trigger] dotted(a, b, c)
                ==> groups_view(r) == Some((a, b, c))),
{
    let caps = regex::Regex::new(SEMVER_PATTERN).unwrap().captures(s)?;
    Some((caps[1].to_string(), caps[2].to_string(), caps[3].to_string()))
}

/// Calls `regex::Regex::captures` with `TAG_PATTERN` on `s` and hands out
/// groups 1 to 3. Trusted: the groups are what `tag_pattern_groups` names, and
/// a text `va.b.c` made of `v` and three ASCII numerals joined by dots is
/// matched from its start with those three numerals as its groups.
#[verifier::external_body]
pub(crate) fn tag_groups(s: &str) -> (r: Option<(String, String, String)>)
    ensures
        groups_view(r) == tag_pattern_groups(s@),
        (forall|a: Seq<char>, b: Seq<char>, c: Seq<char>|
            is_numeral(a) && is_numeral(b) && is_numeral(c) && s@ == #[trigger] tagged(a, b, c)
                ==> groups_view(r) == Some((a, b, c))),
{
    let caps = regex::Regex::new(TAG_PATTERN).unwrap().captures(s)?;
    Some((caps[1].to_string(), caps[2].to_string(), caps[3].to_string()))
}

} // verus!
