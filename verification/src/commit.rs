//! Commits read as conventional commits, and the version bump each one asks for.

use vstd::prelude::*;
use crate::semver::SemVer;
use conventional::Simple;

verus! {

/// A footer of a conventional commit: `key: value` or `key #value`.
#[derive(Clone, Debug)]
pub struct Fouter {
    pub key: String,
    pub value: String,
}

/// The parts of a commit message that follows the conventional commit format.
#[derive(Clone, Debug)]
pub struct ConvCom {
    pub type_: String,
    pub scope: Option<String>,
    pub description: String,
    pub body: Option<String>,
    pub footers: Vec<Fouter>,
    pub breaking_change: bool,
}

/// The parts of a conventional commit as text.
pub struct ConvComView {
    pub type_: Seq<char>,
    pub scope: Option<Seq<char>>,
    pub description: Seq<char>,
    pub body: Option<Seq<char>>,
    pub footers: Seq<(Seq<char>, Seq<char>)>,
    pub breaking_change: bool,
}

/// An optional text as text.
pub open spec fn opt_view(s: Option<String>) -> Option<Seq<char>> {
    match s {
        Some(t) => Some(t@),
        None => None,
    }
}

impl View for Fouter {
    type V = (Seq<char>, Seq<char>);

    open spec fn view(&self) -> (Seq<char>, Seq<char>) {
        (self.key@, self.value@)
    }
}

impl View for ConvCom {
    type V = ConvComView;

    open spec fn view(&self) -> ConvComView {
        ConvComView {
            type_: self.type_@,
            scope: opt_view(self.scope),
            description: self.description@,
            body: opt_view(self.body),
            footers: self.footers@.map_values(|f: Fouter| f@),
            breaking_change: self.breaking_change,
        }
    }
}

/// An optional conventional commit as text.
pub open spec fn conv_view(c: Option<ConvCom>) -> Option<ConvComView> {
    match c {
        Some(cc) => Some(cc@),
        None => None,
    }
}

/// Whether `key` is one of the two footer keys that mark a breaking change.
pub open spec fn is_breaking_key(key: Seq<char>) -> bool {
    key == "BREAKING CHANGE"@ || key == "BREAKING-CHANGE"@
}

/// Whether a reading has a footer that marks a breaking change.
pub open spec fn has_breaking_footer(c: Option<ConvComView>) -> bool {
    c matches Some(cc) && exists|i: int| 0 <= i < cc.footers.len() && #[trigger] is_breaking_key(cc.footers[i].0)
}

/// Whether a reading that has a footer marking a breaking change is marked
/// as breaking.
pub open spec fn breaking_footer_counts(c: Option<ConvComView>) -> bool {
    has_breaking_footer(c) ==> c->0.breaking_change
}

/// How the `conventional` crate reads the commit message `msg`, or `None`
/// where the message does not follow the conventional commit format.
pub uninterp spec fn conventional_reading(msg: Seq<char>) -> Option<ConvComView>;

/// Calls `conventional::Commit::new` on `msg` and copies out its type, scope,
/// description, body, footers (token and value) and breaking flag. Trusted:
/// the copy is what `conventional_reading` names, and a footer whose token is
/// `BREAKING CHANGE` or `BREAKING-CHANGE` makes the commit breaking, as
/// `Commit::new` computes its flag.
#[verifier::external_body]
pub(crate) fn read_conventional(msg: &str) -> (r: Option<ConvCom>)
    ensures
        conv_view(r) == conventional_reading(msg@),
        breaking_footer_counts(conv_view(r)),
{
    let c = conventional::Commit::new(msg).ok()?;
    let footers = c.footers().iter().map(|f| Fouter { key: f.token().to_string(), value: f.value().to_string() }).collect();
    Some(ConvCom { type_: c.type_().to_string(), scope: c.scope().map(str::to_string),
        description: c.description().to_string(), body: c.body().map(str::to_string),
        footers, breaking_change: c.breaking() })
}

/// Whether the text `s` is exactly `lit`.
pub fn text_is(s: &String, lit: &str) -> (r: bool)
    ensures
        r == (s@ == lit@),
{
    let t = String::from_str(lit);
    s.eq(&t)
}

/// The bump a commit asks for: `1.0.0` for a breaking change, `0.1.0` for a
/// `feat`, `0.0.1` for a `fix`, and `0.0.0` for any other commit or one that
/// is not a conventional commit.
pub open spec fn bump_of(c: Option<ConvComView>) -> SemVer {
    match c {
        Some(cc) => if cc.breaking_change {
            SemVer::triple(1, 0, 0)
        } else if cc.type_ == "feat"@ {
            SemVer::triple(0, 1, 0)
        } else if cc.type_ == "fix"@ {
            SemVer::triple(0, 0, 1)
        } else {
            SemVer::triple(0, 0, 0)
        },
        None => SemVer::triple(0, 0, 0),
    }
}

/// Law: a commit asks for exactly one of the bumps `1.0.0`, `0.1.0`, `0.0.1`
/// and `0.0.0`. A breaking change asks for `1.0.0` whatever its type, and so
/// does a reading with a `BREAKING CHANGE` or `BREAKING-CHANGE` footer where
/// such a footer marks the reading as breaking; a message that is not a
/// conventional commit asks for `0.0.0`. Apart from a breaking change, only
/// the type decides: a `feat` asks for `0.1.0` and a `fix` for `0.0.1`,
/// whatever the scope, description, body and footers, and any other type asks
/// for `0.0.0`.
pub proof fn law_bump_of_commit(c: Option<ConvComView>)
    ensures
        (c matches Some(cc) && cc.breaking_change) ==> bump_of(c) == (SemVer { major: 1, minor: 0, patch: 0 }),
        (c matches Some(cc) && !cc.breaking_change && cc.type_ == "feat"@) ==> bump_of(c) == (SemVer {
            major: 0,
            minor: 1,
            patch: 0,
        }),
        (c matches Some(cc) && !cc.breaking_change && cc.type_ == "fix"@) ==> bump_of(c) == (SemVer {
            major: 0,
            minor: 0,
            patch: 1,
        }),
        (c matches Some(cc) && !cc.breaking_change && cc.type_ != "feat"@ && cc.type_ != "fix"@) ==> bump_of(c)
            == (SemVer { major: 0, minor: 0, patch: 0 }),
        bump_of(c) == SemVer::triple(1, 0, 0) || bump_of(c) == SemVer::triple(0, 1, 0)
            || bump_of(c) == SemVer::triple(0, 0, 1) || bump_of(c) == SemVer::triple(0, 0, 0),
        c is None ==> bump_of(c) == SemVer::triple(0, 0, 0),
        (c matches Some(cc) && cc.breaking_change) ==> bump_of(c) == SemVer::triple(1, 0, 0),
        breaking_footer_counts(c) && has_breaking_footer(c) ==> bump_of(c) == SemVer::triple(1, 0, 0),
{
    reveal_strlit("feat");
    reveal_strlit("fix");
    assert("feat"@ != "fix"@) by {
        assert("feat"@[1] != "fix"@[1]);
    }
}

/// The terminal colour code for a commit in a version history: `35` for a
/// breaking change, `34` for a `feat`, `33` for a `fix`, `0` otherwise.
pub open spec fn color_of(c: Option<ConvComView>) -> Seq<char> {
    match c {
        Some(cc) => if cc.breaking_change {
            "35"@
        } else if cc.type_ == "feat"@ {
            "34"@
        } else if cc.type_ == "fix"@ {
            "33"@
        } else {
            "0"@
        },
        None => "0"@,
    }
}

/// A commit: its message, its id and short id, and its reading as a
/// conventional commit where the message follows that format.
#[derive(Clone, Debug)]
pub struct Commit {
    pub msg: String,
    pub id: String,
    pub short_id: String,
    pub convcom: Option<ConvCom>,
}

/// A commit that does not follow the conventional commit format, met in
/// strict mode.
#[derive(Clone, Debug)]
pub struct StrictModeError {
    pub id: String,
    pub short_id: String,
}

/// The start of the strict mode message, before the commit id.
pub const STRICT_HEAD: &'static str = "Invalid commit format for commit ";

/// What follows the first mention of the id, up to the second.
pub const STRICT_QUOTE_OPEN: &'static str = " (strict mode)\n\n\x1b[0;31m─── Commit Message\x1b[0;0m\n";

/// What follows the second mention of the id: the format and the first part
/// of the command that rewords the commit.
pub const STRICT_TEMPLATE: &'static str = "\n\x1b[0;31m───\x1b[0;0m\n\n\x1b[0;34m─── Valid Conventional Commit Template\x1b[0;0m\n<type>[optional scope]: <description>\n\n[optional body]\n\n[optional 'key: value' footer(s) ]\n\x1b[0;34m───\x1b[0;0m\nTo see more about conventional commit format rules :\n\x1b[0;34mhttps://www.conventionalcommits.org/en/v1.0.0/#specification\x1b[0;0m\n\n\x1b[0;35mHint\x1b[0;0m : To edit this pushed commit you can use this command :\n\nGIT_SEQUENCE_EDITOR=\"sed -i.bak 's/^pick ";

/// Between the first and second mention of the short id.
pub const STRICT_COMMAND_MIDDLE: &'static str = "/reword ";

/// Between the second and third mention of the short id.
pub const STRICT_COMMAND_REBASE: &'static str = "/'\" git rebase -i $(git rev-parse \"";

/// The end of the command.
pub const STRICT_COMMAND_END: &'static str = "\"^) && git push --force-with-lease";

/// The strict mode message for the commit `id` with short id `short_id`. The
/// place meant for the commit message shows the id.
pub open spec fn strict_text(id: Seq<char>, short_id: Seq<char>) -> Seq<char> {
    STRICT_HEAD@ + id + STRICT_QUOTE_OPEN@ + id + STRICT_TEMPLATE@ + short_id + STRICT_COMMAND_MIDDLE@
        + short_id + STRICT_COMMAND_REBASE@ + short_id + STRICT_COMMAND_END@
}

impl StrictModeError {
    /// The message that explains the error.
    pub fn message(&self) -> (r: String)
        ensures
            r@ == strict_text(self.id@, self.short_id@),
    {
        let mut out = String::from_str(STRICT_HEAD);
        out.append(self.id.as_str());
        out.append(STRICT_QUOTE_OPEN);
        out.append(self.id.as_str());
        out.append(STRICT_TEMPLATE);
        out.append(self.short_id.as_str());
        out.append(STRICT_COMMAND_MIDDLE);
        out.append(self.short_id.as_str());
        out.append(STRICT_COMMAND_REBASE);
        out.append(self.short_id.as_str());
        out.append(STRICT_COMMAND_END);
        out
    }
}

impl Commit {
    /// The commit with the given message and ids, its message read as a
    /// conventional commit.
    pub fn from_parts(msg: String, id: String, short_id: String) -> (r: Commit)
        ensures
            r.msg@ == msg@,
            r.id@ == id@,
            r.short_id@ == short_id@,
            conv_view(r.convcom) == conventional_reading(msg@),
            breaking_footer_counts(conv_view(r.convcom)),
    {
        let convcom = read_conventional(msg.as_str());
        Commit { msg, id, short_id, convcom }
    }

    /// The bump this commit asks for.
    pub fn get_version_incr(&self) -> (r: SemVer)
        ensures
            r == bump_of(conv_view(self.convcom)),
    {
        if let Some(ref cc) = self.convcom {
            if cc.breaking_change {
                return SemVer { major: 1, minor: 0, patch: 0 };
            }
            if text_is(&cc.type_, "feat") {
                return SemVer { major: 0, minor: 1, patch: 0 };
            }
            if text_is(&cc.type_, "fix") {
                return SemVer { major: 0, minor: 0, patch: 1 };
            }
        }
        SemVer { major: 0, minor: 0, patch: 0 }
    }

    /// In strict mode every commit must be a conventional commit: an error
    /// naming this commit where it is not one.
    pub fn strict_guard(&self) -> (r: Result<(), StrictModeError>)
        ensures
            r is Ok <==> self.convcom is Some,
            r matches Err(e) ==> e.id@ == self.id@ && e.short_id@ == self.short_id@,
    {
        if self.convcom.is_none() {
            Err(StrictModeError { id: self.id.clone(), short_id: self.short_id.clone() })
        } else {
            Ok(())
        }
    }

    /// The terminal colour code this commit is shown with.
    pub fn color_code(&self) -> (r: &'static str)
        ensures
            r@ == color_of(conv_view(self.convcom)),
    {
        proof {
            reveal_strlit("35");
            reveal_strlit("34");
            reveal_strlit("33");
            reveal_strlit("0");
        }
        if let Some(ref cc) = self.convcom {
            if cc.breaking_change {
                return "35";
            }
            if text_is(&cc.type_, "feat") {
                return "34";
            }
            if text_is(&cc.type_, "fix") {
                return "33";
            }
        }
        "0"
    }
}

} // verus!
