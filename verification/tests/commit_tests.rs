use c14::commit::Commit;
use c14::semver::SemVer;

fn commit(msg: &str) -> Commit {
    Commit::from_parts(msg.to_string(), "0123abcd".to_string(), "0123".to_string())
}

fn v(major: u16, minor: u16, patch: u16) -> SemVer {
    SemVer { major, minor, patch }
}

#[test]
fn feat_asks_for_minor() {
    let c = commit("feat: add a thing");
    assert_eq!(c.get_version_incr(), v(0, 1, 0));
    assert_eq!(c.color_code(), "34");
}

#[test]
fn fix_asks_for_patch() {
    let c = commit("fix(parser): handle empty input");
    assert_eq!(c.get_version_incr(), v(0, 0, 1));
    assert_eq!(c.color_code(), "33");
}

#[test]
fn bang_asks_for_major() {
    let c = commit("fix!: drop the old api");
    assert_eq!(c.get_version_incr(), v(1, 0, 0));
    assert_eq!(c.color_code(), "35");
}

#[test]
fn breaking_footer_asks_for_major() {
    let c = commit("feat: message\n\nBREAKING CHANGE: everything moved");
    assert!(c.convcom.as_ref().unwrap().breaking_change);
    assert_eq!(c.get_version_incr(), v(1, 0, 0));
    let c = commit("chore: message\n\nBREAKING-CHANGE: it's broken");
    assert_eq!(c.get_version_incr(), v(1, 0, 0));
}

#[test]
fn other_types_ask_for_nothing() {
    let c = commit("docs: explain");
    assert_eq!(c.get_version_incr(), v(0, 0, 0));
    assert_eq!(c.color_code(), "0");
}

#[test]
fn plain_message_is_not_conventional() {
    let c = commit("Update readme");
    assert!(c.convcom.is_none());
    assert_eq!(c.get_version_incr(), v(0, 0, 0));
    assert_eq!(c.color_code(), "0");
}

#[test]
fn reading_copies_all_parts() {
    let c = commit("feat(api)!: new endpoint\n\nLonger explanation.\n\nReviewed-by: Z\nRefs #133");
    assert_eq!(c.msg, "feat(api)!: new endpoint\n\nLonger explanation.\n\nReviewed-by: Z\nRefs #133");
    assert_eq!(c.id, "0123abcd");
    assert_eq!(c.short_id, "0123");
    let cc = c.convcom.unwrap();
    assert_eq!(cc.type_, "feat");
    assert_eq!(cc.scope.as_deref(), Some("api"));
    assert_eq!(cc.description, "new endpoint");
    assert_eq!(cc.body.as_deref(), Some("Longer explanation."));
    assert!(cc.breaking_change);
    assert_eq!(cc.footers.len(), 2);
    assert_eq!(cc.footers[0].key, "Reviewed-by");
    assert_eq!(cc.footers[0].value, "Z");
    assert_eq!(cc.footers[1].key, "Refs");
    assert_eq!(cc.footers[1].value, "133");
}

#[test]
fn strict_guard_refuses_non_conventional() {
    assert!(commit("feat: ok").strict_guard().is_ok());
    let e = commit("whatever").strict_guard().unwrap_err();
    assert_eq!(e.id, "0123abcd");
    assert_eq!(e.short_id, "0123");
}
