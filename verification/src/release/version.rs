//! Release versions `vMAJOR.MINOR.PATCH`.

use vstd::prelude::*;
use crate::commit::{bump_of, conv_view, law_bump_of_commit, text_is};
use crate::decimal::{decimal, number_error_message, number_error_text, push_decimal};
use crate::pattern::{tag_groups, tag_pattern_groups, tagged, TAG_PATTERN};
use crate::release::commit::Commit;
use crate::semver::{semver_from_numerals, SemVer};
use crate::version::{apply_bumps, bumps_fit, is_unit_bump, law_unit_bumps_fit};

verus! {

/// A release version; `major` counts breaking changes, `minor` features and
/// `patch` fixes.
#[derive(Clone, Copy, Debug, PartialEq, Eq, Structural)]
pub struct Version {
    pub major: u16,
    pub minor: u16,
    pub patch: u16,
}

impl Default for Version {
    /// The version `v0.0.0`.
    fn default() -> (r: Self)
        ensures
            r == (Version { major: 0, minor: 0, patch: 0 }),
    {
        Version { major: 0, minor: 0, patch: 0 }
    }
}

/// The message for a text that holds no version tag.
pub open spec fn no_tag_message(s: Seq<char>) -> Seq<char> {
    "Version "@ + s + " do not match valid version regex : "@ + TAG_PATTERN@
}

/// What reading the version tag in the text `s` gives.
pub open spec fn version_of_text(s: Seq<char>) -> Result<Version, Seq<char>> {
    match tag_pattern_groups(s) {
        None => Err(no_tag_message(s)),
        Some((a, b, c)) => match semver_from_numerals(a, b, c) {
            Ok(v) => Ok(Version { major: v.major, minor: v.minor, patch: v.patch }),
            Err(e) => Err(number_error_text(e)),
        },
    }
}

/// A version result with its message as text.
pub open spec fn version_result(r: Result<Version, String>) -> Result<Version, Seq<char>> {
    match r {
        Ok(v) => Ok(v),
        Err(e) => Err(e@),
    }
}

/// The bumps asked for by a sequence of commits, in order.
pub open spec fn release_bumps(commits: Seq<Commit>) -> Seq<SemVer> {
    commits.map_values(|c: Commit| bump_of(conv_view(c.convcom)))
}

/// Law: each counted commit contributes the bump it asks for on its own, so
/// a breaking commit of any type adds one to the major number and resets the
/// others: the count after commit `i` relates to the count before it as
/// the commit's bump says.
pub proof fn law_release_step(commits: Seq<Commit>, i: int)
    requires
        0 <= i < commits.len(),
        bumps_fit(SemVer::triple(0, 0, 0), release_bumps(commits)),
    ensures
        release_bumps(commits).len() == commits.len(),
        release_bumps(commits)[i] == bump_of(conv_view(commits[i].convcom)),
        ({
            let before = apply_bumps(SemVer::triple(0, 0, 0), release_bumps(commits).take(i));
            let after = apply_bumps(SemVer::triple(0, 0, 0), release_bumps(commits).take(i + 1));
            &&& (conv_view(commits[i].convcom) matches Some(cc) && cc.breaking_change) ==> (after.major
                == before.major + 1 && after.minor == 0 && after.patch == 0)
            &&& (conv_view(commits[i].convcom) matches Some(cc) && !cc.breaking_change && cc.type_
                == "feat"@) ==> (after.major == before.major && after.minor == before.minor + 1
                && after.patch == 0)
            &&& (conv_view(commits[i].convcom) matches Some(cc) && !cc.breaking_change && cc.type_
                == "fix"@) ==> (after.major == before.major && after.minor == before.minor
                && after.patch == before.patch + 1)
            &&& commits[i].convcom is None ==> after == before
        }),
{
    let zero = SemVer::triple(0, 0, 0);
    let bumps = release_bumps(commits);
    crate::version::lemma_fit_prefix(zero, bumps, i + 1);
    let next = bumps.take(i + 1);
    assert(next.drop_last() =~= bumps.take(i));
    law_bump_of_commit(conv_view(commits[i].convcom));
    crate::semver::law_increment_components(apply_bumps(zero, bumps.take(i)), next.last());
}

/// Law: at most `u16::MAX` commits always fit, so `from_commits` can count
/// any such list.
pub proof fn law_few_release_commits_fit(commits: Seq<Commit>)
    requires
        commits.len() <= u16::MAX,
    ensures
        bumps_fit(SemVer::triple(0, 0, 0), release_bumps(commits)),
{
    let bumps = release_bumps(commits);
    assert forall|i: int| 0 <= i < bumps.len() implies is_unit_bump(#[trigger] bumps[i]) by {
        law_bump_of_commit(conv_view(commits[i].convcom));
    }
    law_unit_bumps_fit(bumps);
}

impl Version {
    /// This version as a semantic version.
    pub open spec fn as_semver(self) -> SemVer {
        SemVer { major: self.major, minor: self.minor, patch: self.patch }
    }

    /// This version as a semantic version.
    pub fn as_semver_exec(&self) -> (r: SemVer)
        ensures
            r == self.as_semver(),
    {
        SemVer { major: self.major, minor: self.minor, patch: self.patch }
    }

    /// The text `vMAJOR.MINOR.PATCH`.
    pub open spec fn text(self) -> Seq<char> {
        tagged(decimal(self.major as nat), decimal(self.minor as nat), decimal(self.patch as nat))
    }

    /// Reads the first version tag `vMAJOR.MINOR.PATCH` found in `version`.
    pub fn from_str(version: &str) -> (r: Result<Version, String>)
        ensures
            version_result(r) == version_of_text(version@),
            (forall|v: Version| #[trigger] v.text() == version@ ==> r == Ok::<Version, String>(v)),
    {
        match tag_groups(version) {
            None => {
                let mut message = String::from_str("Version ");
                message.append(version);
                message.append(" do not match valid version regex : ");
                message.append(TAG_PATTERN);
                proof {
                    assert forall|v: Version| #[trigger] v.text() == version@ implies false by {
                        crate::semver::lemma_text_groups(v.as_semver());
                    }
                }
                Err(message)
            },
            Some((a, b, c)) => {
                proof {
                    assert forall|v: Version| #[trigger] v.text() == version@ implies semver_from_numerals(a@, b@, c@)
                        == Ok::<SemVer, crate::decimal::NumberError>(v.as_semver()) by {
                        crate::semver::lemma_text_groups(v.as_semver());
                    }
                }
                match SemVer::from_numerals(a.as_str(), b.as_str(), c.as_str()) {
                    Ok(v) => Ok(Version { major: v.major, minor: v.minor, patch: v.patch }),
                    Err(e) => Err(String::from_str(number_error_message(e))),
                }
            },
        }
    }

    /// The version counted from `commits`, starting from `v0.0.0`: a breaking
    /// change adds one to the major number and resets the others, a `feat`
    /// adds one to the minor number and resets the patch number, a `fix` adds
    /// one to the patch number, and other commits change nothing.
    pub fn from_commits(commits: &Vec<Commit>) -> (r: Version)
        requires
            bumps_fit(SemVer::triple(0, 0, 0), release_bumps(commits@)),
        ensures
            r.as_semver() == apply_bumps(SemVer::triple(0, 0, 0), release_bumps(commits@)),
    {
        let ghost bumps = release_bumps(commits@);
        let ghost zero = SemVer::triple(0, 0, 0);
        let mut maj: u16 = 0;
        let mut min: u16 = 0;
        let mut pat: u16 = 0;
        let mut i: usize = 0;
        assert(bumps.take(0) =~= Seq::<SemVer>::empty());
        while i < commits.len()
            invariant
                i <= commits@.len(),
                bumps == release_bumps(commits@),
                zero == SemVer::triple(0, 0, 0),
                bumps_fit(zero, bumps),
                (SemVer { major: maj, minor: min, patch: pat }) == apply_bumps(zero, bumps.take(i as int)),
            decreases commits@.len() - i,
        {
            let ghost next = bumps.take(i + 1);
            assert(next.drop_last() =~= bumps.take(i as int));
            proof {
                crate::version::lemma_fit_prefix(zero, bumps, i + 1);
            }
            if let Some(ref convcom) = commits[i].convcom {
                if convcom.breaking_change {
                    maj = maj + 1;
                    min = 0;
                    pat = 0;
                } else if text_is(&convcom.type_, "feat") {
                    min = min + 1;
                    pat = 0;
                } else if text_is(&convcom.type_, "fix") {
                    pat = pat + 1;
                }
            }
            i = i + 1;
        }
        assert(bumps.take(i as int) =~= bumps);
        Version { major: maj, minor: min, patch: pat }
    }

    /// The version written as `vMAJOR.MINOR.PATCH`.
    pub fn to_string(&self) -> (r: String)
        ensures
            r@ == self.text(),
    {
        let mut out = String::from_str("v");
        push_decimal(&mut out, self.major);
        out.append(".");
        push_decimal(&mut out, self.minor);
        out.append(".");
        push_decimal(&mut out, self.patch);
        proof {
            reveal_strlit("v");
            reveal_strlit(".");
            assert(out@ =~= self.text());
        }
        out
    }
}

/// The version whose components are the sums of those of `base` and `to_add`.
pub fn add(base: &Version, to_add: &Version) -> (r: Version)
    requires
        base.major + to_add.major <= u16::MAX,
        base.minor + to_add.minor <= u16::MAX,
        base.patch + to_add.patch <= u16::MAX,
    ensures
        r.major == base.major + to_add.major,
        r.minor == base.minor + to_add.minor,
        r.patch == base.patch + to_add.patch,
{
    Version {
        major: base.major + to_add.major,
        minor: base.minor + to_add.minor,
        patch: base.patch + to_add.patch,
    }
}

} // verus!
