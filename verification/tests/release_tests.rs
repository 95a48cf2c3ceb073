use c14::release::commit::Commit;
use c14::release::git::{select_version_tag, starts_with, touches_path};
use c14::release::version::{add, Version};

fn ver(major: u16, minor: u16, patch: u16) -> Version {
    Version { major, minor, patch }
}

#[test]
fn new_reads_conventional_commit() {
    let c = Commit::new("abc", "feat(x): y").ok().unwrap();
    assert_eq!(c.id, "abc");
    assert_eq!(c.msg, "feat(x): y");
    assert_eq!(c.convcom.unwrap().type_, "feat");
}

#[test]
fn new_refuses_other_messages() {
    let e = Commit::new("abc", "just words").err().unwrap();
    assert_eq!(e.id, "abc");
    assert_eq!(e.msg, "just words");
}

#[test]
fn new_raw_keeps_message_unread() {
    let c = Commit::new_raw("abc", "feat: y");
    assert_eq!(c.id, "abc");
    assert_eq!(c.msg, "feat: y");
    assert!(c.convcom.is_none());
}

#[test]
fn from_str_finds_tag_anywhere() {
    assert_eq!(Version::from_str("v1.2.3").unwrap(), ver(1, 2, 3));
    assert_eq!(Version::from_str("release-v10.20.30-beta").unwrap(), ver(10, 20, 30));
}

#[test]
fn from_str_errors() {
    assert_eq!(
        Version::from_str("1.2.3").unwrap_err(),
        "Version 1.2.3 do not match valid version regex : v(\\d+)\\.(\\d+)\\.(\\d+)(-[\\w\\-.]+|)"
    );
    assert_eq!(Version::from_str("v1.99999.3").unwrap_err(), "number too large to fit in target type");
}

#[test]
fn to_string_reads_back() {
    for x in [ver(0, 0, 0), ver(1, 2, 3), ver(65535, 0, 12)] {
        let s = x.to_string();
        assert_eq!(Version::from_str(&s).unwrap(), x);
    }
    assert_eq!(ver(1, 2, 3).to_string(), "v1.2.3");
}

#[test]
fn from_commits_counts_bumps() {
    let commits = vec![
        Commit::new("1", "fix: a").ok().unwrap(),
        Commit::new("2", "feat: b").ok().unwrap(),
        Commit::new("3", "fix: c").ok().unwrap(),
        Commit::new_raw("4", "fix: raw commits do not count"),
        Commit::new("5", "feat!: d").ok().unwrap(),
        Commit::new("6", "feat: e").ok().unwrap(),
        Commit::new("7", "fix: f").ok().unwrap(),
    ];
    assert_eq!(Version::from_commits(&commits), ver(1, 1, 1));
    assert_eq!(Version::from_commits(&vec![]), ver(0, 0, 0));
}

#[test]
fn add_is_componentwise() {
    assert_eq!(add(&ver(1, 2, 3), &ver(0, 1, 5)), ver(1, 3, 8));
    assert_eq!(Version::default(), ver(0, 0, 0));
}

#[test]
fn select_version_tag_takes_latest_version() {
    let names: Vec<String> = ["v1.10.0", "nightly", "v1.9.0", "vx", "latest"].iter().map(|s| s.to_string()).collect();
    assert_eq!(select_version_tag(&names), Some((0, ver(1, 10, 0))));
    let names: Vec<String> = ["v0.1.0", "v2.0.0-rc1", "v2.0.0", "v99999.0.0"].iter().map(|s| s.to_string()).collect();
    assert_eq!(select_version_tag(&names), Some((1, ver(2, 0, 0))));
    let none: Vec<String> = ["a", "b", "v70000.0.0"].iter().map(|s| s.to_string()).collect();
    assert_eq!(select_version_tag(&none), None);
}

#[test]
fn touches_path_looks_for_prefix() {
    let paths: Vec<String> = ["src/main.rs", "docs/readme.md"].iter().map(|s| s.to_string()).collect();
    assert!(touches_path(&paths, "docs/"));
    assert!(touches_path(&paths, ""));
    assert!(!touches_path(&paths, "app"));
    assert!(!touches_path(&vec![], ""));
    assert!(starts_with("abc", "ab"));
    assert!(!starts_with("ab", "abc"));
    assert!(!starts_with("xbc", "ab"));
}

#[test]
fn new_marks_breaking_footer() {
    let c = Commit::new("abc", "fix: y\n\nBREAKING CHANGE: gone").ok().unwrap();
    assert!(c.convcom.unwrap().breaking_change);
}
