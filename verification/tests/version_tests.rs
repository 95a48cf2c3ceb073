use c14::commit::Commit;
use c14::increment::{process, IncrementCli};
use c14::semver::SemVer;
use c14::version::{base_version, compute_version, latest_version, version_history};

fn commit(msg: &str) -> Commit {
    Commit::from_parts(msg.to_string(), "id".to_string(), "i".to_string())
}

fn v(major: u16, minor: u16, patch: u16) -> SemVer {
    SemVer { major, minor, patch }
}

#[test]
fn history_applies_each_bump_in_order() {
    let commits = vec![
        commit("fix: a"),
        commit("feat: b"),
        commit("fix: c"),
        commit("docs: d"),
        commit("feat!: e"),
        commit("fix: f"),
    ];
    let h = version_history(v(1, 2, 3), &commits).unwrap();
    assert_eq!(h, vec![v(1, 2, 4), v(1, 3, 0), v(1, 3, 1), v(1, 3, 1), v(2, 0, 0), v(2, 0, 1)]);
    assert_eq!(compute_version(v(1, 2, 3), &commits), Some(v(2, 0, 1)));
}

#[test]
fn empty_history_keeps_base() {
    assert_eq!(version_history(v(3, 1, 4), &vec![]), Some(vec![]));
    assert_eq!(compute_version(v(3, 1, 4), &vec![]), Some(v(3, 1, 4)));
}

#[test]
fn history_refuses_overflow() {
    let commits = vec![commit("feat: a")];
    assert_eq!(version_history(v(0, 65535, 0), &commits), None);
    assert_eq!(compute_version(v(0, 65535, 0), &commits), None);
    assert_eq!(compute_version(v(0, 65535, 0), &vec![commit("fix: a")]), Some(v(0, 65535, 1)));
}

#[test]
fn history_in_two_parts_is_history_in_one() {
    let a = vec![commit("feat: a"), commit("fix: b")];
    let b = vec![commit("fix: c"), commit("feat!: d")];
    let mid = compute_version(v(0, 1, 0), &a).unwrap();
    let all: Vec<Commit> = a.into_iter().chain(b.into_iter()).collect();
    let b2 = vec![commit("fix: c"), commit("feat!: d")];
    assert_eq!(compute_version(mid, &b2), compute_version(v(0, 1, 0), &all));
}

#[test]
fn base_version_prefers_given_then_tag() {
    assert_eq!(base_version(Some(v(1, 0, 0)), Some(v(2, 0, 0))), v(1, 0, 0));
    assert_eq!(base_version(None, Some(v(2, 0, 0))), v(2, 0, 0));
    assert_eq!(base_version(None, None), v(0, 0, 0));
}

#[test]
fn latest_version_takes_first_of_newest() {
    let vs = vec![v(1, 0, 0), v(2, 1, 0), v(0, 9, 9), v(2, 1, 0), v(2, 0, 9)];
    assert_eq!(latest_version(&vs), Some(1));
    assert_eq!(latest_version(&vec![]), None);
    assert_eq!(latest_version(&vec![v(0, 0, 1)]), Some(0));
}

#[test]
fn increment_process_prints_new_version() {
    let args = IncrementCli { source: v(1, 2, 3), increment: v(0, 1, 0) };
    assert_eq!(process(&args), "1.3.0");
    let args = IncrementCli { source: v(1, 2, 3), increment: v(0, 0, 0) };
    assert_eq!(process(&args), "1.2.3");
}

#[test]
fn strict_check_names_first_non_conventional_commit() {
    let ok = vec![commit("feat: a"), commit("fix: b")];
    assert!(c14::version::strict_check(&ok).is_ok());
    assert!(c14::version::strict_check(&vec![]).is_ok());
    let bad = vec![
        commit("feat: a"),
        Commit::from_parts("plain".to_string(), "second".to_string(), "2".to_string()),
        Commit::from_parts("also plain".to_string(), "third".to_string(), "3".to_string()),
    ];
    let e = c14::version::strict_check(&bad).unwrap_err();
    assert_eq!(e.id, "second");
    assert_eq!(e.short_id, "2");
}
