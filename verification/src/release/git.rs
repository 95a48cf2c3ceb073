//! Choosing the version tag that a release is counted from.

use vstd::prelude::*;
use crate::release::version::{version_of_text, Version};
use crate::semver::law_precedes_strict_total_order;

verus! {

/// The version that the name `name` reads as, where it holds a version tag
/// whose numbers fit in 16 bits.
pub open spec fn tag_version(name: Seq<char>) -> Option<Version> {
    match version_of_text(name) {
        Ok(v) => Some(v),
        Err(_) => None,
    }
}

/// The latest version tag among `names`: its index and version. Its version
/// is not older than that of any other name that reads as a version, and it
/// is the first name with that version. `None` where no name reads as one.
pub fn select_version_tag(names: &Vec<String>) -> (r: Option<(usize, Version)>)
    ensures
        r is None <==> (forall|j: int| 0 <= j < names@.len() ==> (#[trigger] tag_version(names@[j]@)) is None),
        r matches Some((k, v)) ==> {
            &&& k < names@.len()
            &&& tag_version(names@[k as int]@) == Some(v)
            &&& forall|j: int| 0 <= j < names@.len() && (#[trigger] tag_version(names@[j]@)) is Some
                ==> !v.as_semver().precedes(tag_version(names@[j]@)->0.as_semver())
            &&& forall|j: int| 0 <= j < k && (#[trigger] tag_version(names@[j]@)) is Some
                ==> tag_version(names@[j]@)->0.as_semver().precedes(v.as_semver())
        },
{
    let mut best: Option<(usize, Version)> = None;
    let mut i: usize = 0;
    while i < names.len()
        invariant
            i <= names@.len(),
            best is None <==> (forall|j: int| 0 <= j < i ==> (#[trigger] tag_version(names@[j]@)) is None),
            best matches Some((k, v)) ==> {
                &&& k < i
                &&& tag_version(names@[k as int]@) == Some(v)
                &&& forall|j: int| 0 <= j < i && (#[trigger] tag_version(names@[j]@)) is Some
                    ==> !v.as_semver().precedes(tag_version(names@[j]@)->0.as_semver())
                &&& forall|j: int| 0 <= j < k && (#[trigger] tag_version(names@[j]@)) is Some
                    ==> tag_version(names@[j]@)->0.as_semver().precedes(v.as_semver())
            },
        decreases names@.len() - i,
    {
        let parsed = Version::from_str(names[i].as_str());
        assert(tag_version(names@[i as int]@) == match parsed { Ok(w) => Some(w), Err(_) => None::<Version> });
        if let Ok(w) = parsed {
            match best {
                None => {
                    best = Some((i, w));
                },
                Some((k, v)) => {
                    if v.as_semver_exec().is_older_than(&w.as_semver_exec()) {
                        proof {
                            assert forall|j: int| 0 <= j < i + 1 && (#[trigger] tag_version(names@[j]@)) is Some
                                implies !w.as_semver().precedes(tag_version(names@[j]@)->0.as_semver()) by {
                                if j < i {
                                    law_precedes_strict_total_order(v.as_semver(), w.as_semver(),
                                        tag_version(names@[j]@)->0.as_semver());
                                }
                            }
                            assert forall|j: int| 0 <= j < i && (#[trigger] tag_version(names@[j]@)) is Some
                                implies tag_version(names@[j]@)->0.as_semver().precedes(w.as_semver()) by {
                                law_precedes_strict_total_order(tag_version(names@[j]@)->0.as_semver(),
                                    v.as_semver(), w.as_semver());
                            }
                        }
                        best = Some((i, w));
                    }
                },
            }
        }
        i = i + 1;
    }
    best
}

/// Whether the text `s` starts with `prefix`.
pub fn starts_with(s: &str, prefix: &str) -> (r: bool)
    ensures
        r == (prefix@.len() <= s@.len() && s@.subrange(0, prefix@.len() as int) == prefix@),
{
    let n = prefix.unicode_len();
    if n > s.unicode_len() {
        return false;
    }
    let mut i: usize = 0;
    while i < n
        invariant
            n == prefix@.len(),
            n <= s@.len(),
            i <= n,
            forall|j: int| 0 <= j < i ==> s@[j] == prefix@[j],
        decreases n - i,
    {
        if s.get_char(i) != prefix.get_char(i) {
            assert(s@.subrange(0, n as int)[i as int] != prefix@[i as int]);
            return false;
        }
        i = i + 1;
    }
    assert(s@.subrange(0, n as int) =~= prefix@);
    true
}

/// Whether one of the changed `paths` lies under `path_filter`, that is,
/// starts with it.
pub fn touches_path(paths: &Vec<String>, path_filter: &str) -> (r: bool)
    ensures
        r == (exists|i: int| 0 <= i < paths@.len() && {
            let p = #[trigger] paths@[i]@;
            path_filter@.len() <= p.len() && p.subrange(0, path_filter@.len() as int) == path_filter@
        }),
{
    let mut i: usize = 0;
    while i < paths.len()
        invariant
            i <= paths@.len(),
            forall|j: int| 0 <= j < i ==> !({
                let p = #[trigger] paths@[j]@;
                path_filter@.len() <= p.len() && p.subrange(0, path_filter@.len() as int) == path_filter@
            }),
        decreases paths@.len() - i,
    {
        if starts_with(paths[i].as_str(), path_filter) {
            return true;
        }
        i = i + 1;
    }
    false
}

} // verus!
