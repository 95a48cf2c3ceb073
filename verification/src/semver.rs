//! Semantic versions `MAJOR.MINOR.PATCH` and how a bump applies to them.

use vstd::prelude::*;
use crate::decimal::{decimal, lemma_parse_decimal, parse_u16, parse_u16_spec, push_decimal, NumberError};
use crate::pattern::{dotted, groups_view, semver_groups, semver_pattern_groups, SEMVER_PATTERN};

verus! {

/// A semantic version; each component is a 16-bit number.
#[derive(Clone, Copy, Debug, PartialEq, Eq, Structural, PartialOrd, Ord, Hash)]
pub struct SemVer {
    pub major: u16,
    pub minor: u16,
    pub patch: u16,
}

impl SemVer {
    /// The version with the given components.
    pub open spec fn triple(major: int, minor: int, patch: int) -> SemVer {
        SemVer { major: major as u16, minor: minor as u16, patch: patch as u16 }
    }

    /// Whether applying `incr` to `self` keeps the bumped component within 16 bits.
    pub open spec fn can_increment(self, incr: SemVer) -> bool {
        if incr.major > 0 {
            self.major + incr.major <= u16::MAX
        } else if incr.minor > 0 {
            self.minor + incr.minor <= u16::MAX
        } else {
            self.patch + incr.patch <= u16::MAX
        }
    }

    /// The version after applying `incr`: the most significant non-zero
    /// component of `incr` is added to the same component of `self`, and the
    /// less significant components are reset to zero. A zero `incr` changes
    /// nothing.
    pub open spec fn incremented(self, incr: SemVer) -> SemVer {
        if incr.major > 0 {
            SemVer::triple(self.major + incr.major, 0, 0)
        } else if incr.minor > 0 {
            SemVer::triple(self.major as int, self.minor + incr.minor, 0)
        } else if incr.patch > 0 {
            SemVer::triple(self.major as int, self.minor as int, self.patch + incr.patch)
        } else {
            self
        }
    }

    /// Applies the bump `incr` to this version.
    pub fn increment(&mut self, incr: Self)
        requires
            old(self).can_increment(incr),
        ensures
            *final(self) == old(self).incremented(incr),
    {
        if incr.major > 0 {
            self.major = self.major + incr.major;
            self.minor = 0;
            self.patch = 0;
            return;
        }
        if incr.minor > 0 {
            self.minor = self.minor + incr.minor;
            self.patch = 0;
            return;
        }
        if incr.patch > 0 {
            self.patch = self.patch + incr.patch;
            return;
        }
    }
}

impl Default for SemVer {
    /// The version `0.0.0`.
    fn default() -> (r: Self)
        ensures
            r == SemVer::triple(0, 0, 0),
    {
        SemVer { major: 0, minor: 0, patch: 0 }
    }
}

/// The version read from three numerals, or the error of the first numeral
/// (major, then minor, then patch) that is not the numeral of a `u16`.
pub open spec fn semver_from_numerals(
    major: Seq<char>,
    minor: Seq<char>,
    patch: Seq<char>,
) -> Result<SemVer, NumberError> {
    match (parse_u16_spec(major), parse_u16_spec(minor), parse_u16_spec(patch)) {
        (Ok(a), Ok(b), Ok(c)) => Ok(SemVer { major: a, minor: b, patch: c }),
        (Err(e), _, _) => Err(e),
        (Ok(_), Err(e), _) => Err(e),
        (Ok(_), Ok(_), Err(e)) => Err(e),
    }
}

/// Whether the groups that the version pattern captured, if any, are all
/// numerals of `u16` values.
pub open spec fn groups_fit_u16(g: Option<(Seq<char>, Seq<char>, Seq<char>)>) -> bool {
    g matches Some((a, b, c)) ==> semver_from_numerals(a, b, c) is Ok
}

/// The message for a text that is not a version.
pub open spec fn no_match_message(s: Seq<char>) -> Seq<char> {
    "Version "@ + s + " do not match valid version regex : "@ + SEMVER_PATTERN@
}

/// What reading the text `s` as a version gives, where its groups fit.
pub open spec fn semver_of_text(s: Seq<char>) -> Result<SemVer, Seq<char>> {
    match semver_pattern_groups(s) {
        None => Err(no_match_message(s)),
        Some((a, b, c)) => Ok(semver_from_numerals(a, b, c)->Ok_0),
    }
}

/// A version result with its message as text.
pub open spec fn text_result(r: Result<SemVer, String>) -> Result<SemVer, Seq<char>> {
    match r {
        Ok(v) => Ok(v),
        Err(e) => Err(e@),
    }
}

impl SemVer {
    /// The text `MAJOR.MINOR.PATCH` of this version, each number in its
    /// shortest decimal form.
    pub open spec fn text(self) -> Seq<char> {
        dotted(decimal(self.major as nat), decimal(self.minor as nat), decimal(self.patch as nat))
    }

    /// Whether `self` is an older version than `other`: the components
    /// compared in order major, minor, patch.
    pub open spec fn precedes(self, other: SemVer) -> bool {
        ||| self.major < other.major
        ||| self.major == other.major && self.minor < other.minor
        ||| self.major == other.major && self.minor == other.minor && self.patch < other.patch
    }

    /// Whether `self` is an older version than `other`.
    pub fn is_older_than(&self, other: &SemVer) -> (r: bool)
        ensures
            r == self.precedes(*other),
    {
        self.major < other.major || (self.major == other.major && (self.minor < other.minor || (
        self.minor == other.minor && self.patch < other.patch)))
    }

    /// The version written as `MAJOR.MINOR.PATCH`.
    pub fn to_string(&self) -> (r: String)
        ensures
            r@ == self.text(),
    {
        let mut out = String::new();
        push_decimal(&mut out, self.major);
        out.append(".");
        push_decimal(&mut out, self.minor);
        out.append(".");
        push_decimal(&mut out, self.patch);
        proof {
            reveal_strlit(".");
            assert(out@ =~= self.text());
        }
        out
    }

    /// The version read from the numerals of its three components.
    pub fn from_numerals(major: &str, minor: &str, patch: &str) -> (r: Result<SemVer, NumberError>)
        ensures
            r == semver_from_numerals(major@, minor@, patch@),
    {
        let a = match parse_u16(major) {
            Ok(a) => a,
            Err(e) => return Err(e),
        };
        let b = match parse_u16(minor) {
            Ok(b) => b,
            Err(e) => return Err(e),
        };
        let c = match parse_u16(patch) {
            Ok(c) => c,
            Err(e) => return Err(e),
        };
        Ok(SemVer { major: a, minor: b, patch: c })
    }

    /// Reads a version `MAJOR.MINOR.PATCH[-suffix]` from the text `s`; the
    /// suffix is accepted and dropped. A text that does not have that form
    /// gives the message `Version <s> do not match valid version regex : <pattern>`.
    pub fn from_str(s: &str) -> (r: Result<SemVer, String>)
        requires
            groups_fit_u16(semver_pattern_groups(s@)),
        ensures
            text_result(r) == semver_of_text(s@),
            (forall|v: SemVer| #[trigger] v.text() == s@ ==> r == Ok::<SemVer, String>(v)),
    {
        let groups = semver_groups(s);
        match groups {
            None => {
                let mut message = String::from_str("Version ");
                message.append(s);
                message.append(" do not match valid version regex : ");
                message.append(SEMVER_PATTERN);
                proof {
                    assert forall|v: SemVer| #[trigger] v.text() == s@ implies false by {
                        lemma_text_groups(v);
                    }
                }
                Err(message)
            },
            Some((a, b, c)) => {
                let v = Self::from_numerals(a.as_str(), b.as_str(), c.as_str()).unwrap();
                proof {
                    assert forall|w: SemVer| #[trigger] w.text() == s@ implies v == w by {
                        lemma_text_groups(w);
                    }
                }
                Ok(v)
            },
        }
    }

    /// Reads a version from `s` as `from_str` does, where every number that
    /// the pattern captures fits in 16 bits; `None` where one does not.
    pub fn checked_from_str(s: &str) -> (r: Option<Result<SemVer, String>>)
        ensures
            r is None <==> !groups_fit_u16(semver_pattern_groups(s@)),
            r matches Some(x) ==> text_result(x) == semver_of_text(s@),
            (forall|v: SemVer| #[trigger] v.text() == s@ ==> r == Some(Ok::<SemVer, String>(v))),
    {
        let fits = match semver_groups(s) {
            None => true,
            Some((a, b, c)) => Self::from_numerals(a.as_str(), b.as_str(), c.as_str()).is_ok(),
        };
        if fits {
            Some(Self::from_str(s))
        } else {
            proof {
                assert forall|v: SemVer| #[trigger] v.text() == s@ implies false by {
                    lemma_text_groups(v);
                }
            }
            None
        }
    }
}

/// Law: the order of versions is a strict total order. No version is older
/// than itself, being older is transitive, and of two different versions one
/// is older than the other.
pub proof fn law_precedes_strict_total_order(a: SemVer, b: SemVer, c: SemVer)
    ensures
        !a.precedes(a),
        a.precedes(b) && b.precedes(c) ==> a.precedes(c),
        a.precedes(b) || b.precedes(a) || a == b,
        !(a.precedes(b) && b.precedes(a)),
{
}

/// Law: a bump never leads to an older version. It leads to a newer one
/// exactly when it is not `0.0.0`, and the zero bump changes nothing.
pub proof fn law_increment_never_goes_back(v: SemVer, incr: SemVer)
    requires
        v.can_increment(incr),
    ensures
        !v.incremented(incr).precedes(v),
        v.precedes(v.incremented(incr)) <==> incr != SemVer::triple(0, 0, 0),
        v.incremented(SemVer::triple(0, 0, 0)) == v,
{
}

/// Law: what a bump does, in terms of the components. A bump with a major
/// part adds it to the major number and sets minor and patch to zero; else a
/// bump with a minor part adds it to the minor number, keeps the major number
/// and sets the patch to zero, whatever its patch part; else the bump's patch
/// part is added to the patch number and the rest is kept.
pub proof fn law_increment_components(v: SemVer, incr: SemVer)
    requires
        v.can_increment(incr),
    ensures
        incr.major > 0 ==> {
            let w = v.incremented(incr);
            &&& w.major == v.major + incr.major
            &&& w.minor == 0
            &&& w.patch == 0
        },
        incr.major == 0 && incr.minor > 0 ==> {
            let w = v.incremented(incr);
            &&& w.major == v.major
            &&& w.minor == v.minor + incr.minor
            &&& w.patch == 0
        },
        incr.major == 0 && incr.minor == 0 ==> {
            let w = v.incremented(incr);
            &&& w.major == v.major
            &&& w.minor == v.minor
            &&& w.patch == v.patch + incr.patch
        },
{
}

/// The numerals in a version's text are numerals, and read back to the version.
pub(crate) proof fn lemma_text_groups(v: SemVer)
    ensures
        crate::pattern::is_numeral(decimal(v.major as nat)),
        crate::pattern::is_numeral(decimal(v.minor as nat)),
        crate::pattern::is_numeral(decimal(v.patch as nat)),
        semver_from_numerals(decimal(v.major as nat), decimal(v.minor as nat), decimal(v.patch as nat))
            == Ok::<SemVer, NumberError>(v),
{
    crate::decimal::lemma_decimal_scans_back(v.major as nat);
    crate::decimal::lemma_decimal_scans_back(v.minor as nat);
    crate::decimal::lemma_decimal_scans_back(v.patch as nat);
    lemma_parse_decimal(v.major);
    lemma_parse_decimal(v.minor);
    lemma_parse_decimal(v.patch);
}

} // verus!
