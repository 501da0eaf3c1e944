use ownership_stats::metrics::EditStats;
use ownership_stats::outcome::Outcome;
use ownership_stats::pipeline::{Pipeline, Step};
use ownership_stats::report::{build_report, render_report, sort_by_commits, AuthorRecord};

fn record(name: &str, commits: usize, additions: usize, removals: usize) -> AuthorRecord {
    AuthorRecord { name: name.to_string(), commits, edits: EditStats { additions, removals } }
}

fn ran(stdout: &str) -> Outcome {
    Outcome::Exited { success: true, stdout: stdout.as_bytes().to_vec() }
}

fn command(step: &Step) -> String {
    match step {
        Step::Run { command } => command.clone(),
        other => panic!("expected a command, got {other:?}"),
    }
}

fn run_with(answers: &[&str]) -> String {
    let (mut p, mut step) = Pipeline::start("/repo", "main");
    for a in answers {
        command(&step);
        step = p.resume(ran(a));
    }
    match step {
        Step::Finished { report } => report,
        other => panic!("expected a report, got {other:?}"),
    }
}

#[test]
fn describe_edits() {
    let e = EditStats { additions: 1234567, removals: 0 };
    assert_eq!(e.describe(), "1234567 additions and 0 removals");
}

#[test]
fn render_zero_commits_has_no_line() {
    assert_eq!(render_report(&vec![record("Bob", 0, 4, 4)]), "");
}

#[test]
fn render_one_commit_singular() {
    assert_eq!(
        render_report(&vec![record("Ann", 1, 2, 3)]),
        "Ann has made 1 commit: 2 additions and 3 removals\n"
    );
}

#[test]
fn render_five_commits_plural() {
    assert_eq!(
        render_report(&vec![record("Ann", 5, 0, 10)]),
        "Ann has made 5 commits: 0 additions and 10 removals\n"
    );
}

#[test]
fn sort_is_descending_and_stable() {
    let v = vec![
        record("a", 1, 0, 0),
        record("b", 3, 0, 0),
        record("c", 1, 0, 0),
        record("d", 3, 0, 0),
        record("e", 2, 0, 0),
    ];
    let names: Vec<String> = sort_by_commits(v).into_iter().map(|r| r.name).collect();
    assert_eq!(names, vec!["b", "d", "e", "a", "c"]);
}

#[test]
fn report_orders_by_commits() {
    let v = vec![record("Ann", 2, 1, 1), record("Bea", 10, 5, 0), record("Cy", 0, 1, 1)];
    assert_eq!(
        build_report(v),
        "Bea has made 10 commits: 5 additions and 0 removals\n\
         Ann has made 2 commits: 1 additions and 1 removals\n"
    );
}

#[test]
fn pipeline_end_to_end() {
    let (mut p, step) = Pipeline::start("/repo", "main");
    assert_eq!(
        command(&step),
        "git -C /repo shortlog --summary --numbered --no-merges --all --branches=main"
    );
    let step = p.resume(ran("     3\tAlice\n     1\tBob\n"));
    assert_eq!(
        command(&step),
        "git -C /repo rev-list HEAD --author=Alice --count --branches=main"
    );
    let step = p.resume(ran("3\n"));
    assert_eq!(
        command(&step),
        "git -C /repo log --author=Alice --numstat --pretty=tformat: --branches=main --all"
    );
    let step = p.resume(ran("8\t2\tsrc/a.rs\n2\t0\tsrc/b.rs\n"));
    assert_eq!(command(&step), "git -C /repo rev-list HEAD --author=Bob --count --branches=main");
    let step = p.resume(ran("0\n"));
    command(&step);
    let step = p.resume(ran(""));
    assert!(p.is_done());
    match step {
        Step::Finished { report } => {
            assert_eq!(report, "Alice has made 3 commits: 10 additions and 2 removals\n");
            assert!(!report.contains("Bob"));
        }
        other => panic!("expected a report, got {other:?}"),
    }
}

#[test]
fn pipeline_twice_same_report() {
    let answers = ["  2\tAnn\n  2\tBo\n", "2\n", "1\t1\n", "2\n", "3\t0\n"];
    let first = run_with(&answers);
    let second = run_with(&answers);
    assert_eq!(first, second);
    assert_eq!(
        first,
        "Ann has made 2 commits: 1 additions and 1 removals\n\
         Bo has made 2 commits: 3 additions and 0 removals\n"
    );
}

#[test]
fn pipeline_no_authors() {
    assert_eq!(run_with(&[""]), "");
}

#[test]
fn pipeline_parse_failure_stops() {
    let (mut p, _) = Pipeline::start("/repo", "main");
    p.resume(ran("1\tAnn\n"));
    let step = p.resume(ran("oops\n"));
    assert!(p.is_done());
    match step {
        Step::Failed { error } => assert_eq!(
            error,
            ownership_stats::error::StatsError::Parse {
                command: "git -C /repo rev-list HEAD --author=Ann --count --branches=main"
                    .to_string()
            }
        ),
        other => panic!("expected a failure, got {other:?}"),
    }
}

#[test]
fn pipeline_launch_failure_stops() {
    let (mut p, _) = Pipeline::start("/repo", "main");
    let step = p.resume(Outcome::NotStarted);
    assert!(p.is_done());
    assert!(matches!(
        step,
        Step::Failed { error: ownership_stats::error::StatsError::Launch }
    ));
}
