use c14::commit::Commit as BinCommit;
use c14::release::commit::Commit;
use c14::text::prefix_lines;

fn formatted_invalid_message(id: &str, msg: &str) -> String {
    format!(
        "Invalid commit format for commit {id}

\x1b[0;31m╭─── Commit Message\x1b[0;0m
{}
\x1b[0;31m╰───\x1b[0;0m

\x1b[0;34m╭─── Valid Conventional Commit Template\x1b[0;0m
\x1b[0;34m│\x1b[0;0m <type>[optional scope]: <description>
\x1b[0;34m│\x1b[0;0m
\x1b[0;34m│\x1b[0;0m [optional body]
\x1b[0;34m│\x1b[0;0m
\x1b[0;34m│\x1b[0;0m [optional 'key: value' footer(s) ]
\x1b[0;34m╰───\x1b[0;0m
To see more about conventional commit format rules :
  \x1b[0;34mhttps://www.conventionalcommits.org/en/v1.0.0/#specification\x1b[0;0m

\x1b[0;35mHint\x1b[0;0m : To edit this pushed commit you can use this command :
SHORT_COMMIT=$(git rev-parse --short \"{id}\"); \
GIT_SEQUENCE_EDITOR=\"sed -i.bak 's/^pick $SHORT_COMMIT/reword $SHORT_COMMIT/'\" \
git rebase -i $(git rev-parse \"{id}\"^) && \
git push --force-with-lease
",
        msg.lines()
            .map(|line| format!("\x1b[0;31m│\x1b[0;0m {}", line))
            .collect::<Vec<_>>()
            .join("\n")
    )
}

fn formatted_strict_message(id: &str, short_id: &str) -> String {
    format!("Invalid commit format for commit {0} (strict mode)

\x1b[0;31m─── Commit Message\x1b[0;0m
{}
\x1b[0;31m───\x1b[0;0m

\x1b[0;34m─── Valid Conventional Commit Template\x1b[0;0m
<type>[optional scope]: <description>

[optional body]

[optional 'key: value' footer(s) ]
\x1b[0;34m───\x1b[0;0m
To see more about conventional commit format rules :
\x1b[0;34mhttps://www.conventionalcommits.org/en/v1.0.0/#specification\x1b[0;0m

\x1b[0;35mHint\x1b[0;0m : To edit this pushed commit you can use this command :

GIT_SEQUENCE_EDITOR=\"sed -i.bak 's/^pick {1}/reword {1}/'\" \
git rebase -i $(git rev-parse \"{1}\"^) && \
git push --force-with-lease", id, short_id)
}

#[test]
fn invalid_commit_message_quotes_each_line() {
    for msg in ["just words", "first\nsecond\r\nthird\n", "", "\n\nx", "a\r", "tail\n\n"] {
        let e = Commit::new("c0ffee", msg).err().unwrap();
        assert_eq!(e.message(), formatted_invalid_message("c0ffee", msg), "message {:?}", msg);
    }
}

#[test]
fn strict_message_names_the_commit() {
    let c = BinCommit::from_parts("not conventional".to_string(), "abcdef123".to_string(), "abc".to_string());
    let e = c.strict_guard().unwrap_err();
    assert_eq!(e.message(), formatted_strict_message("abcdef123", "abc"));
}

#[test]
fn prefix_lines_splits_like_std() {
    for s in ["", "a", "a\n", "a\nb", "a\r\nb\r\n", "\r\n", "x\ry\n", "one\n\n\ntwo", "é\nü"] {
        let expected = s.lines().map(|l| format!("> {}", l)).collect::<Vec<_>>().join("\n");
        assert_eq!(prefix_lines(s, "> "), expected, "text {:?}", s);
    }
}
