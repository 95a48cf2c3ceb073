//! Commits that must follow the conventional commit format.

use vstd::prelude::*;
pub use crate::commit::{ConvCom, Fouter};
use crate::commit::{breaking_footer_counts, conv_view, conventional_reading, read_conventional};
use crate::text::{lines, prefix_lines, prefixed};

verus! {

/// A commit: its message, its id, and its reading as a conventional commit.
#[derive(Clone, Debug)]
pub struct Commit {
    pub msg: String,
    pub id: String,
    pub convcom: Option<ConvCom>,
}

/// A commit message that does not follow the conventional commit format.
#[derive(Clone, Debug)]
pub struct InvalidCommitFormat {
    pub id: String,
    pub msg: String,
}

/// The start of the message of an invalid commit, before its id.
pub const INVALID_HEAD: &'static str = "Invalid commit format for commit ";

/// What follows the id, before the quoted commit message.
pub const INVALID_QUOTE_OPEN: &'static str = "\n\n\x1b[0;31m╭─── Commit Message\x1b[0;0m\n";

/// The mark before each line of the quoted commit message.
pub const INVALID_LINE_MARK: &'static str = "\x1b[0;31m│\x1b[0;0m ";

/// What follows the quoted commit message: the format and the first part of
/// the command that rewords the commit.
pub const INVALID_TEMPLATE: &'static str = "\n\x1b[0;31m╰───\x1b[0;0m\n\n\x1b[0;34m╭─── Valid Conventional Commit Template\x1b[0;0m\n\x1b[0;34m│\x1b[0;0m <type>[optional scope]: <description>\n\x1b[0;34m│\x1b[0;0m\n\x1b[0;34m│\x1b[0;0m [optional body]\n\x1b[0;34m│\x1b[0;0m\n\x1b[0;34m│\x1b[0;0m [optional 'key: value' footer(s) ]\n\x1b[0;34m╰───\x1b[0;0m\nTo see more about conventional commit format rules :\n  \x1b[0;34mhttps://www.conventionalcommits.org/en/v1.0.0/#specification\x1b[0;0m\n\n\x1b[0;35mHint\x1b[0;0m : To edit this pushed commit you can use this command :\nSHORT_COMMIT=$(git rev-parse --short \"";

/// The middle of the command, between the two mentions of the id.
pub const INVALID_COMMAND_MIDDLE: &'static str = "\"); GIT_SEQUENCE_EDITOR=\"sed -i.bak 's/^pick $SHORT_COMMIT/reword $SHORT_COMMIT/'\" git rebase -i $(git rev-parse \"";

/// The end of the command.
pub const INVALID_COMMAND_END: &'static str = "\"^) && git push --force-with-lease\n";

/// The message for the commit `id` whose message `msg` is not a conventional
/// commit: the message quoted line by line, the format, and a command that
/// rewords the commit.
pub open spec fn invalid_commit_text(id: Seq<char>, msg: Seq<char>) -> Seq<char> {
    INVALID_HEAD@ + id + INVALID_QUOTE_OPEN@ + prefixed(lines(msg), INVALID_LINE_MARK@)
        + INVALID_TEMPLATE@ + id + INVALID_COMMAND_MIDDLE@ + id + INVALID_COMMAND_END@
}

impl InvalidCommitFormat {
    /// The message that explains the error.
    pub fn message(&self) -> (r: String)
        ensures
            r@ == invalid_commit_text(self.id@, self.msg@),
    {
        let mut out = String::from_str(INVALID_HEAD);
        out.append(self.id.as_str());
        out.append(INVALID_QUOTE_OPEN);
        let quoted = prefix_lines(self.msg.as_str(), INVALID_LINE_MARK);
        out.append(quoted.as_str());
        out.append(INVALID_TEMPLATE);
        out.append(self.id.as_str());
        out.append(INVALID_COMMAND_MIDDLE);
        out.append(self.id.as_str());
        out.append(INVALID_COMMAND_END);
        out
    }
}

impl Commit {
    /// Reads the message `msg` of the commit `id` as a conventional commit;
    /// an error naming the commit and its message where it does not follow
    /// the format.
    pub fn new(id: &str, msg: &str) -> (r: Result<Commit, InvalidCommitFormat>)
        ensures
            r is Ok <==> conventional_reading(msg@) is Some,
            r matches Ok(c) ==> c.msg@ == msg@ && c.id@ == id@ && conv_view(c.convcom) == conventional_reading(msg@),
            r matches Ok(c) ==> breaking_footer_counts(conv_view(c.convcom)),
            r matches Err(e) ==> e.id@ == id@ && e.msg@ == msg@,
    {
        match read_conventional(msg) {
            None => Err(InvalidCommitFormat { id: String::from_str(id), msg: String::from_str(msg) }),
            Some(cc) => Ok(Commit { msg: String::from_str(msg), id: String::from_str(id), convcom: Some(cc) }),
        }
    }

    /// The commit with the given message and id, not read as a conventional
    /// commit.
    pub fn new_raw(id: &str, msg: &str) -> (r: Commit)
        ensures
            r.msg@ == msg@,
            r.id@ == id@,
            r.convcom is None,
    {
        Commit { msg: String::from_str(msg), id: String::from_str(id), convcom: None }
    }
}

} // verus!
