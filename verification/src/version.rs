//! The version a history of commits leads to, and the choice of the base
//! version it starts from.

use vstd::prelude::*;
use crate::commit::{bump_of, conv_view, law_bump_of_commit, Commit, StrictModeError};
use crate::semver::{law_increment_components, law_increment_never_goes_back, law_precedes_strict_total_order, SemVer};

verus! {

/// The bumps asked for by a sequence of commits, in order.
pub open spec fn bumps_of(commits: Seq<Commit>) -> Seq<SemVer> {
    commits.map_values(|c: Commit| bump_of(conv_view(c.convcom)))
}

/// The version reached from `base` by applying the bumps in order.
pub open spec fn apply_bumps(base: SemVer, bumps: Seq<SemVer>) -> SemVer
    decreases bumps.len(),
{
    if bumps.len() == 0 {
        base
    } else {
        apply_bumps(base, bumps.drop_last()).incremented(bumps.last())
    }
}

/// Whether every bump, applied in order from `base`, keeps its component
/// within 16 bits.
pub open spec fn bumps_fit(base: SemVer, bumps: Seq<SemVer>) -> bool
    decreases bumps.len(),
{
    if bumps.len() == 0 {
        true
    } else {
        bumps_fit(base, bumps.drop_last()) && apply_bumps(base, bumps.drop_last()).can_increment(
            bumps.last(),
        )
    }
}

/// Whether the bumps fit from `base` up to the first one that does not, where
/// `i` is the index of that one.
pub(crate) proof fn lemma_fit_prefix(base: SemVer, bumps: Seq<SemVer>, i: int)
    requires
        0 <= i <= bumps.len(),
        bumps_fit(base, bumps),
    ensures
        bumps_fit(base, bumps.take(i)),
    decreases bumps.len() - i,
{
    if i < bumps.len() {
        lemma_fit_prefix(base, bumps, i + 1);
        assert(bumps.take(i + 1).drop_last() =~= bumps.take(i));
    } else {
        assert(bumps.take(i) =~= bumps);
    }
}

/// Law: applying the bumps of two histories one after the other is applying
/// the bumps of the joined history, and the joined bumps fit exactly when
/// each part fits from where it starts.
pub proof fn law_apply_bumps_concat(base: SemVer, a: Seq<SemVer>, b: Seq<SemVer>)
    ensures
        apply_bumps(base, a + b) == apply_bumps(apply_bumps(base, a), b),
        bumps_fit(base, a + b) <==> bumps_fit(base, a) && bumps_fit(apply_bumps(base, a), b),
    decreases b.len(),
{
    if b.len() == 0 {
        assert(a + b =~= a);
    } else {
        assert((a + b).drop_last() =~= a + b.drop_last());
        assert((a + b).last() == b.last());
        law_apply_bumps_concat(base, a, b.drop_last());
    }
}

/// Law: along a history whose bumps fit, no commit leads to an older version,
/// so the version reached is never older than the base.
pub proof fn law_history_never_goes_back(base: SemVer, bumps: Seq<SemVer>, i: int)
    requires
        bumps_fit(base, bumps),
        0 <= i < bumps.len(),
    ensures
        !apply_bumps(base, bumps.take(i + 1)).precedes(apply_bumps(base, bumps.take(i))),
        !apply_bumps(base, bumps).precedes(base),
    decreases bumps.len(),
{
    lemma_fit_prefix(base, bumps, i + 1);
    let next = bumps.take(i + 1);
    assert(next.drop_last() =~= bumps.take(i));
    law_increment_never_goes_back(apply_bumps(base, bumps.take(i)), next.last());
    lemma_never_older_than_base(base, bumps);
}

proof fn lemma_never_older_than_base(base: SemVer, bumps: Seq<SemVer>)
    requires
        bumps_fit(base, bumps),
    ensures
        !apply_bumps(base, bumps).precedes(base),
    decreases bumps.len(),
{
    if bumps.len() > 0 {
        lemma_never_older_than_base(base, bumps.drop_last());
        let prev = apply_bumps(base, bumps.drop_last());
        law_increment_never_goes_back(prev, bumps.last());
        law_precedes_strict_total_order(apply_bumps(base, bumps), prev, base);
        law_precedes_strict_total_order(prev, base, base);
        law_precedes_strict_total_order(apply_bumps(base, bumps), base, prev);
    }
}

/// Whether each component of the bump `b` is 0 or 1, as for the bump of a
/// commit.
pub open spec fn is_unit_bump(b: SemVer) -> bool {
    b.major <= 1 && b.minor <= 1 && b.patch <= 1
}

/// Law: from `0.0.0`, bumps whose components are 0 or 1 reach a version whose
/// components are at most the number of bumps, so at most `u16::MAX` of them
/// always fit.
pub proof fn law_unit_bumps_fit(bumps: Seq<SemVer>)
    requires
        forall|i: int| 0 <= i < bumps.len() ==> is_unit_bump(#[trigger] bumps[i]),
    ensures
        apply_bumps(SemVer::triple(0, 0, 0), bumps).major <= bumps.len(),
        apply_bumps(SemVer::triple(0, 0, 0), bumps).minor <= bumps.len(),
        apply_bumps(SemVer::triple(0, 0, 0), bumps).patch <= bumps.len(),
        bumps.len() <= u16::MAX ==> bumps_fit(SemVer::triple(0, 0, 0), bumps),
    decreases bumps.len(),
{
    if bumps.len() > 0 {
        let prev = bumps.drop_last();
        assert forall|i: int| 0 <= i < prev.len() implies is_unit_bump(#[trigger] prev[i]) by {
            assert(prev[i] == bumps[i]);
        }
        law_unit_bumps_fit(prev);
        assert(is_unit_bump(bumps[bumps.len() - 1]));
    }
}

/// Law: at most `u16::MAX` commits always fit, whatever they ask for.
pub proof fn law_few_commits_fit(commits: Seq<Commit>)
    requires
        commits.len() <= u16::MAX,
    ensures
        bumps_fit(SemVer::triple(0, 0, 0), bumps_of(commits)),
{
    let bumps = bumps_of(commits);
    assert forall|i: int| 0 <= i < bumps.len() implies is_unit_bump(#[trigger] bumps[i]) by {
        law_bump_of_commit(conv_view(commits[i].convcom));
    }
    law_unit_bumps_fit(bumps);
}

/// Law: a history asks for one bump per commit, and the i-th bump is the
/// bump that the i-th commit asks for on its own.
pub proof fn law_history_bumps(commits: Seq<Commit>, i: int)
    requires
        0 <= i < commits.len(),
    ensures
        bumps_of(commits).len() == commits.len(),
        bumps_of(commits)[i] == bump_of(conv_view(commits[i].convcom)),
{
}

/// Law: in a history whose bumps fit, a commit whose reading is breaking, of
/// any type, adds one to the major number and sets minor and patch to zero;
/// a non-breaking `feat` adds one to the minor number and sets the patch to
/// zero; a non-breaking `fix` adds one to the patch number.
pub proof fn law_history_step(base: SemVer, commits: Seq<Commit>, i: int)
    requires
        0 <= i < commits.len(),
        bumps_fit(base, bumps_of(commits)),
    ensures
        ({
            let before = apply_bumps(base, bumps_of(commits).take(i));
            let after = apply_bumps(base, bumps_of(commits).take(i + 1));
            &&& (conv_view(commits[i].convcom) matches Some(cc) && cc.breaking_change) ==> (after.major
                == before.major + 1 && after.minor == 0 && after.patch == 0)
            &&& (conv_view(commits[i].convcom) matches Some(cc) && !cc.breaking_change && cc.type_
                == "feat"@) ==> (after.major == before.major && after.minor == before.minor + 1
                && after.patch == 0)
            &&& (conv_view(commits[i].convcom) matches Some(cc) && !cc.breaking_change && cc.type_
                == "fix"@) ==> (after.major == before.major && after.minor == before.minor
                && after.patch == before.patch + 1)
            &&& commits[i].convcom is None ==> after == before
        }),
{
    let bumps = bumps_of(commits);
    lemma_fit_prefix(base, bumps, i + 1);
    let next = bumps.take(i + 1);
    assert(next.drop_last() =~= bumps.take(i));
    assert(next.last() == bump_of(conv_view(commits[i].convcom)));
    law_bump_of_commit(conv_view(commits[i].convcom));
    law_increment_components(apply_bumps(base, bumps.take(i)), next.last());
}

/// The versions after each commit of `commits`, applied in order from `base`;
/// `None` where a bump would take a component past `u16::MAX`.
pub fn version_history(base: SemVer, commits: &Vec<Commit>) -> (r: Option<Vec<SemVer>>)
    ensures
        r is Some <==> bumps_fit(base, bumps_of(commits@)),
        r matches Some(vs) ==> vs@.len() == commits@.len() && (forall|i: int|
            0 <= i < vs@.len() ==> #[trigger] vs@[i] == apply_bumps(base, bumps_of(commits@).take(i + 1))),
{
    let ghost bumps = bumps_of(commits@);
    let mut history: Vec<SemVer> = Vec::new();
    let mut version = base;
    let mut i: usize = 0;
    assert(bumps.take(0) =~= Seq::<SemVer>::empty());
    while i < commits.len()
        invariant
            i <= commits@.len(),
            bumps == bumps_of(commits@),
            history@.len() == i,
            bumps_fit(base, bumps.take(i as int)),
            version == apply_bumps(base, bumps.take(i as int)),
            forall|j: int| 0 <= j < i ==> #[trigger] history@[j] == apply_bumps(base, bumps.take(j + 1)),
        decreases commits@.len() - i,
    {
        let incr = commits[i].get_version_incr();
        let ghost next = bumps.take(i + 1);
        assert(next.drop_last() =~= bumps.take(i as int));
        assert(next.last() == incr);
        if !version_can_increment(&version, &incr) {
            proof {
                if bumps_fit(base, bumps) {
                    lemma_fit_prefix(base, bumps, i + 1);
                }
            }
            return None;
        }
        version.increment(incr);
        history.push(version);
        i = i + 1;
    }
    assert(bumps.take(i as int) =~= bumps);
    Some(history)
}

/// Whether applying `incr` to `v` keeps the bumped component within 16 bits.
pub fn version_can_increment(v: &SemVer, incr: &SemVer) -> (r: bool)
    ensures
        r == v.can_increment(*incr),
{
    if incr.major > 0 {
        incr.major <= u16::MAX - v.major
    } else if incr.minor > 0 {
        incr.minor <= u16::MAX - v.minor
    } else {
        incr.patch <= u16::MAX - v.patch
    }
}

/// The version that `commits` lead to from `base`, or `None` where a bump
/// would take a component past `u16::MAX`.
pub fn compute_version(base: SemVer, commits: &Vec<Commit>) -> (r: Option<SemVer>)
    ensures
        r is Some <==> bumps_fit(base, bumps_of(commits@)),
        r matches Some(v) ==> v == apply_bumps(base, bumps_of(commits@)),
{
    match version_history(base, commits) {
        None => None,
        Some(history) => {
            if history.len() == 0 {
                assert(bumps_of(commits@) =~= Seq::<SemVer>::empty());
                Some(base)
            } else {
                let last = history[history.len() - 1];
                assert(bumps_of(commits@).take(commits@.len() as int) =~= bumps_of(commits@));
                Some(last)
            }
        },
    }
}

/// In strict mode every commit of a history must be a conventional commit:
/// an error naming the first commit that is not one.
pub fn strict_check(commits: &Vec<Commit>) -> (r: Result<(), StrictModeError>)
    ensures
        r is Ok <==> (forall|i: int| 0 <= i < commits@.len() ==> (#[trigger] commits@[i]).convcom is Some),
        r matches Err(e) ==> exists|k: int|
            0 <= k < commits@.len() && (#[trigger] commits@[k]).convcom is None
            && (forall|j: int| 0 <= j < k ==> (#[trigger] commits@[j]).convcom is Some)
            && e.id@ == commits@[k].id@ && e.short_id@ == commits@[k].short_id@,
{
    let mut i: usize = 0;
    while i < commits.len()
        invariant
            i <= commits@.len(),
            forall|j: int| 0 <= j < i ==> (#[trigger] commits@[j]).convcom is Some,
        decreases commits@.len() - i,
    {
        match commits[i].strict_guard() {
            Ok(()) => {},
            Err(e) => {
                assert(commits@[i as int].convcom is None);
                return Err(e);
            },
        }
        i = i + 1;
    }
    Ok(())
}

/// The version to start from: the one given, else the version of the last
/// version tag where one was looked up, else `0.0.0`.
pub fn base_version(given: Option<SemVer>, tag_version: Option<SemVer>) -> (r: SemVer)
    ensures
        r == (match given {
            Some(v) => v,
            None => match tag_version {
                Some(t) => t,
                None => SemVer::triple(0, 0, 0),
            },
        }),
{
    match given {
        Some(v) => v,
        None => match tag_version {
            Some(t) => t,
            None => SemVer::default(),
        },
    }
}

/// The index of the newest version in `versions`, the first one among equals;
/// `None` for an empty list.
pub fn latest_version(versions: &Vec<SemVer>) -> (r: Option<usize>)
    ensures
        r is None <==> versions@.len() == 0,
        r matches Some(k) ==> k < versions@.len()
            && (forall|j: int| 0 <= j < versions@.len() ==> !(#[trigger] versions@[k as int].precedes(versions@[j])))
            && (forall|j: int| 0 <= j < k ==> #[trigger] versions@[j].precedes(versions@[k as int])),
{
    if versions.len() == 0 {
        return None;
    }
    let mut best: usize = 0;
    let mut i: usize = 1;
    while i < versions.len()
        invariant
            1 <= i <= versions@.len(),
            best < i,
            forall|j: int| 0 <= j < i ==> !(#[trigger] versions@[best as int].precedes(versions@[j])),
            forall|j: int| 0 <= j < best ==> #[trigger] versions@[j].precedes(versions@[best as int]),
        decreases versions@.len() - i,
    {
        let ghost old_best = best;
        if versions[best].is_older_than(&versions[i]) {
            best = i;
            proof {
                assert forall|j: int| 0 <= j < i + 1 implies !(#[trigger] versions@[best as int].precedes(versions@[j])) by {
                    law_precedes_strict_total_order(versions@[old_best as int], versions@[i as int], versions@[j]);
                }
                assert forall|j: int| 0 <= j < best implies #[trigger] versions@[j].precedes(versions@[best as int]) by {
                    law_precedes_strict_total_order(versions@[j], versions@[old_best as int], versions@[i as int]);
                }
            }
        }
        i = i + 1;
    }
    Some(best)
}

} // verus!
