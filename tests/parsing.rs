use ownership_stats::directory::{author_directory_command, parse_author_names};
use ownership_stats::error::StatsError;
use ownership_stats::escape::shell_escape;
use ownership_stats::metrics::{
    commit_count_command, edit_stats_command, parse_commit_count, parse_edit_stats, EditStats,
};
use ownership_stats::outcome::{command_output, trim_final_newline, Outcome};

fn ran(stdout: &str) -> Outcome {
    Outcome::Exited { success: true, stdout: stdout.as_bytes().to_vec() }
}

#[test]
fn escape_leaves_plain_words() {
    assert_eq!(shell_escape("foobar").unwrap(), "foobar");
}

#[test]
fn escape_quotes_spaces() {
    assert_eq!(shell_escape("foo bar").unwrap(), "$'foo bar'");
}

#[test]
fn escape_empty_text() {
    assert_eq!(shell_escape("").unwrap(), "''");
}

#[test]
fn escape_quotes_metacharacters() {
    for s in ["a'b", "a\"b", "a`b", "a$b", "a;b", "a && b", "a\nb"] {
        let q = shell_escape(s).unwrap();
        assert_ne!(q, s);
        assert!(q.starts_with("$'"), "{q}");
        assert!(q.ends_with('\''), "{q}");
    }
}

#[test]
fn summary_command_text() {
    assert_eq!(
        author_directory_command("/repo", "main").unwrap(),
        "git -C /repo shortlog --summary --numbered --no-merges --all --branches=main"
    );
}

#[test]
fn summary_command_quotes_arguments() {
    assert_eq!(
        author_directory_command("/my repo", "a;b").unwrap(),
        "git -C $'/my repo' shortlog --summary --numbered --no-merges --all --branches=$'a;b'"
    );
}

#[test]
fn count_command_text() {
    assert_eq!(
        commit_count_command("/repo", "Jane Doe", "main").unwrap(),
        "git -C /repo rev-list HEAD --author=$'Jane Doe' --count --branches=main"
    );
}

#[test]
fn numstat_command_text() {
    assert_eq!(
        edit_stats_command("/repo", "Jane", "dev").unwrap(),
        "git -C /repo log --author=Jane --numstat --pretty=tformat: --branches=dev --all"
    );
}

#[test]
fn authors_sorted_by_bytes() {
    let out = "    5\tbob\n    3\tAlice Smith\n    2\tZed\n";
    assert_eq!(parse_author_names(out), vec!["Alice Smith", "Zed", "bob"]);
}

#[test]
fn authors_multiword_names_rejoined() {
    let out = "  7\tJane   Q.\tPublic <jq@x.org>";
    assert_eq!(parse_author_names(out), vec!["Jane Q. Public <jq@x.org>"]);
}

#[test]
fn authors_duplicates_listed_once() {
    let out = "  4\tAlice\n  2\tBob\n  1\tAlice\n";
    assert_eq!(parse_author_names(out), vec!["Alice", "Bob"]);
}

#[test]
fn authors_count_only_line_gives_empty_name() {
    let out = "  4\tAlice\n  3\n";
    assert_eq!(parse_author_names(out), vec!["", "Alice"]);
}

#[test]
fn authors_of_empty_summary() {
    assert!(parse_author_names("").is_empty());
}

#[test]
fn authors_non_ascii_order() {
    let out = "1 Émile\n1 Zoë\n1 zed\n";
    assert_eq!(parse_author_names(out), vec!["Zoë", "zed", "Émile"]);
}

#[test]
fn commit_count_parses_number() {
    let out = command_output("git count", ran("42\n")).unwrap();
    assert_eq!(parse_commit_count(&out, "git count"), Ok(42));
}

#[test]
fn commit_count_rejects_text() {
    let out = command_output("git count", ran("abc\n")).unwrap();
    assert_eq!(
        parse_commit_count(&out, "git count"),
        Err(StatsError::Parse { command: "git count".to_string() })
    );
}

#[test]
fn commit_count_strict_forms() {
    assert_eq!(parse_commit_count("+7", "c"), Ok(7));
    assert_eq!(parse_commit_count("0", "c"), Ok(0));
    assert!(parse_commit_count("", "c").is_err());
    assert!(parse_commit_count("+", "c").is_err());
    assert!(parse_commit_count("-1", "c").is_err());
    assert!(parse_commit_count(" 1", "c").is_err());
    assert!(parse_commit_count("1\n", "c").is_err());
    assert_eq!(parse_commit_count("18446744073709551615", "c"), Ok(usize::MAX));
    assert!(parse_commit_count("18446744073709551616", "c").is_err());
}

#[test]
fn edit_stats_single_line() {
    let out = command_output("git log", ran("10\t5\n")).unwrap();
    assert_eq!(
        parse_edit_stats(&out, "git log"),
        Ok(EditStats { additions: 10, removals: 5 })
    );
}

#[test]
fn edit_stats_binary_row_counts_zero() {
    let out = command_output("git log", ran("10\t5\n-\t-\tbinary.png\n")).unwrap();
    assert_eq!(
        parse_edit_stats(&out, "git log"),
        Ok(EditStats { additions: 10, removals: 5 })
    );
}

#[test]
fn edit_stats_sums_lines() {
    let out = "3\t1\tsrc/a.rs\n\n4\t0\tsrc/b.rs\n7\nx\t2\n";
    assert_eq!(
        parse_edit_stats(out, "c"),
        Ok(EditStats { additions: 14, removals: 3 })
    );
}

#[test]
fn edit_stats_empty_output() {
    assert_eq!(parse_edit_stats("", "c"), Ok(EditStats { additions: 0, removals: 0 }));
}

#[test]
fn edit_stats_overflow() {
    let out = "18446744073709551615\t0\n1\t0\n";
    assert_eq!(
        parse_edit_stats(out, "c"),
        Err(StatsError::Overflow { command: "c".to_string() })
    );
}

#[test]
fn output_trims_one_newline() {
    assert_eq!(trim_final_newline("a\n\n"), "a\n");
    assert_eq!(trim_final_newline("a"), "a");
    assert_eq!(trim_final_newline(" a \n"), " a ");
}

#[test]
fn output_not_utf8_reads_empty() {
    let o = Outcome::Exited { success: true, stdout: vec![0xff, 0xfe, b'\n'] };
    assert_eq!(command_output("c", o), Ok(String::new()));
}

#[test]
fn output_launch_failure() {
    assert_eq!(command_output("c", Outcome::NotStarted), Err(StatsError::Launch));
}

#[test]
fn output_nonzero_exit() {
    let o = Outcome::Exited { success: false, stdout: b"42\n".to_vec() };
    assert_eq!(
        command_output("git x", o),
        Err(StatsError::Subprocess { command: "git x".to_string() })
    );
}
