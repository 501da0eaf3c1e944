use vstd::prelude::*;

use crate::directory::{author_directory_command, parse_author_names, summary_authors, summary_command, texts};
use crate::error::StatsError;
use crate::escape::quoted_text;
use crate::metrics::{
    added_total, all_quotable, commit_count_command, count_command, edit_stats_command,
    numstat_command, parse_commit_count, parse_edit_stats, quoted3, removed_total, EditStats,
};
use crate::order::strictly_ascending;
use crate::outcome::{command_output, printed_text, without_final_newline, Outcome};
use crate::report::{build_report, report_text, sorted_by_commits, AuthorRecord};
use crate::text::parsed_unsigned;

verus! {

/// Which answer a run waits for.
#[derive(Clone, Copy, Debug, PartialEq, Eq, Structural)]
pub enum Stage {
    /// The summary of authors.
    Authors,
    /// The commit count of the current author.
    Commits,
    /// The line changes of the current author, whose commit count is known.
    Edits { commits: usize },
    /// Nothing: the run is over.
    Done,
}

/// What the caller does next.
#[derive(Debug)]
pub enum Step {
    /// Run `command` in a shell and hand back how it ended.
    Run { command: String },
    /// The run is complete; print `report`.
    Finished { report: String },
    /// The run failed.
    Failed { error: StatsError },
}

/// One run over a repository: the authors found so far, the records
/// gathered, and the command whose outcome is awaited.
pub struct Pipeline {
    pub dir: String,
    pub branch: String,
    pub authors: Vec<String>,
    pub next: usize,
    pub records: Vec<AuthorRecord>,
    pub stage: Stage,
    pub command: String,
}

/// Whether the command ran and exited with success.
pub open spec fn succeeded(o: Outcome) -> bool {
    o matches Outcome::Exited { success, .. } && success
}

/// The output of a command that succeeded, as the run reads it.
pub open spec fn output_of(o: Outcome) -> Seq<char> {
    match o {
        Outcome::Exited { stdout, .. } => without_final_newline(printed_text(stdout@)),
        Outcome::NotStarted => seq![],
    }
}

/// `r` is the failure that the unsuccessful outcome `o` of `command` gives.
pub open spec fn failure_of(command: Seq<char>, o: Outcome, r: Step) -> bool {
    match o {
        Outcome::NotStarted => r == Step::Failed { error: StatsError::Launch },
        Outcome::Exited { .. } => r matches Step::Failed {
            error: StatsError::Subprocess { command: c },
        } && c@ == command,
    }
}

/// `r` fails the run with the `Encoding` error and `p` is over.
pub open spec fn stops_unquotable(p: Pipeline, r: Step) -> bool {
    p.stage == Stage::Done && r == Step::Failed { error: StatsError::Encoding }
}

/// `p` asks for the commit count of its current author, with step `r`.
pub open spec fn asks_commit_count(p: Pipeline, r: Step) -> bool {
    let (d, a, b) = (p.dir@, p.authors@[p.next as int]@, p.branch@);
    if all_quotable(d, a, b) {
        let (qd, qa, qb) = quoted3(d, a, b);
        &&& p.stage == Stage::Commits
        &&& r matches Step::Run { command: c }
        &&& c@ == count_command(qd, qa, qb)
        &&& p.command@ == c@
    } else {
        stops_unquotable(p, r)
    }
}

/// `p` asks for the line changes of its current author, who has `n`
/// commits, with step `r`.
pub open spec fn asks_edit_stats(p: Pipeline, r: Step, n: usize) -> bool {
    let (d, a, b) = (p.dir@, p.authors@[p.next as int]@, p.branch@);
    if all_quotable(d, a, b) {
        let (qd, qa, qb) = quoted3(d, a, b);
        &&& p.stage == Stage::Edits { commits: n }
        &&& r matches Step::Run { command: c }
        &&& c@ == numstat_command(qd, qa, qb)
        &&& p.command@ == c@
    } else {
        stops_unquotable(p, r)
    }
}

/// `r` completes the run `p` with the report of the records `gathered`.
pub open spec fn finishes(p: Pipeline, gathered: Seq<AuthorRecord>, r: Step) -> bool {
    &&& p.stage == Stage::Done
    &&& r matches Step::Finished { report }
    &&& report@ == report_text(sorted_by_commits(gathered))
}

impl Pipeline {
    /// The state is consistent: an author is current while one is awaited.
    pub open spec fn wf(&self) -> bool {
        (self.stage is Commits || self.stage is Edits) ==> self.next < self.authors@.len()
    }

    /// Begins a run over the repository at `dir` on the branches that
    /// `branch` selects: the first step asks for the summary of authors.
    pub fn start(dir: &str, branch: &str) -> (r: (Pipeline, Step))
        ensures
            r.0.wf(),
            r.0.dir@ == dir@,
            r.0.branch@ == branch@,
            r.0.authors@.len() == 0,
            r.0.next == 0,
            r.0.records@.len() == 0,
            (quoted_text(dir@) is Some && quoted_text(branch@) is Some) ==> ({
                &&& r.0.stage == Stage::Authors
                &&& r.1 matches Step::Run { command: c }
                &&& c@ == summary_command(quoted_text(dir@)->0, quoted_text(branch@)->0)
                &&& r.0.command@ == c@
            }),
            !(quoted_text(dir@) is Some && quoted_text(branch@) is Some) ==> stops_unquotable(
                r.0,
                r.1,
            ),
    {
        let mut p = Pipeline {
            dir: String::from_str(dir),
            branch: String::from_str(branch),
            authors: Vec::new(),
            next: 0,
            records: Vec::new(),
            stage: Stage::Done,
            command: String::new(),
        };
        match author_directory_command(dir, branch) {
            Ok(c) => {
                p.stage = Stage::Authors;
                p.command = c.clone();
                (p, Step::Run { command: c })
            },
            Err(e) => (p, Step::Failed { error: e }),
        }
    }

    /// Whether the run is over.
    pub fn is_done(&self) -> (r: bool)
        ensures
            r == (self.stage is Done),
    {
        match self.stage {
            Stage::Done => true,
            _ => false,
        }
    }

    fn ask_commit_count(&mut self) -> (r: Step)
        requires
            old(self).next < old(self).authors@.len(),
        ensures
            final(self).wf(),
            final(self).dir == old(self).dir,
            final(self).branch == old(self).branch,
            final(self).authors == old(self).authors,
            final(self).next == old(self).next,
            final(self).records == old(self).records,
            asks_commit_count(*final(self), r),
    {
        match commit_count_command(self.dir.as_str(), self.authors[self.next].as_str(), self.branch.as_str()) {
            Ok(c) => {
                self.stage = Stage::Commits;
                self.command = c.clone();
                Step::Run { command: c }
            },
            Err(e) => {
                self.stage = Stage::Done;
                Step::Failed { error: e }
            },
        }
    }

    fn ask_edit_stats(&mut self, n: usize) -> (r: Step)
        requires
            old(self).next < old(self).authors@.len(),
        ensures
            final(self).wf(),
            final(self).dir == old(self).dir,
            final(self).branch == old(self).branch,
            final(self).authors == old(self).authors,
            final(self).next == old(self).next,
            final(self).records == old(self).records,
            asks_edit_stats(*final(self), r, n),
    {
        match edit_stats_command(self.dir.as_str(), self.authors[self.next].as_str(), self.branch.as_str()) {
            Ok(c) => {
                self.stage = Stage::Edits { commits: n };
                self.command = c.clone();
                Step::Run { command: c }
            },
            Err(e) => {
                self.stage = Stage::Done;
                Step::Failed { error: e }
            },
        }
    }

    fn finish(&mut self) -> (r: Step)
        ensures
            final(self).wf(),
            final(self).dir == old(self).dir,
            final(self).branch == old(self).branch,
            final(self).authors == old(self).authors,
            final(self).next == old(self).next,
            finishes(*final(self), old(self).records@, r),
    {
        self.stage = Stage::Done;
        let mut taken: Vec<AuthorRecord> = Vec::new();
        core::mem::swap(&mut taken, &mut self.records);
        let report = build_report(taken);
        Step::Finished { report }
    }
    /// Takes how the awaited command ended and decides the next step.
    pub fn resume(&mut self, outcome: Outcome) -> (r: Step)
        requires
            old(self).wf(),
            !(old(self).stage is Done),
        ensures
            final(self).wf(),
            final(self).dir == old(self).dir,
            final(self).branch == old(self).branch,
            !succeeded(outcome) ==> (failure_of(old(self).command@, outcome, r)
                && final(self).stage == Stage::Done),
            succeeded(outcome) ==> match old(self).stage {
                Stage::Authors => {
                    let o = output_of(outcome);
                    &&& strictly_ascending(texts(final(self).authors@))
                    &&& forall|y: Seq<char>|
                        texts(final(self).authors@).contains(y) <==> summary_authors(o).contains(
                            y,
                        )
                    &&& final(self).next == 0
                    &&& final(self).authors@.len() == 0 ==> finishes(*final(self), seq![], r)
                    &&& final(self).authors@.len() > 0 ==> ({
                        &&& final(self).records@.len() == 0
                        &&& asks_commit_count(*final(self), r)
                    })
                },
                Stage::Commits => {
                    &&& final(self).authors == old(self).authors
                    &&& final(self).next == old(self).next
                    &&& final(self).records == old(self).records
                    &&& match parsed_unsigned(output_of(outcome)) {
                        Some(n) => asks_edit_stats(*final(self), r, n as usize),
                        None => final(self).stage == Stage::Done && (r matches Step::Failed {
                            error: StatsError::Parse { command: c },
                        } && c@ == old(self).command@),
                    }
                },
                Stage::Edits { commits: n } => {
                    let o = output_of(outcome);
                    if added_total(o) <= usize::MAX && removed_total(o) <= usize::MAX {
                        &&& final(self).authors == old(self).authors
                        &&& final(self).next == old(self).next + 1
                        &&& exists|rec: AuthorRecord|
                            {
                                &&& rec.name@ == old(self).authors@[old(self).next as int]@
                                &&& rec.commits == n
                                &&& rec.edits == EditStats {
                                    additions: added_total(o) as usize,
                                    removals: removed_total(o) as usize,
                                }
                                &&& if final(self).next < final(self).authors@.len() {
                                    &&& final(self).records@ == old(self).records@.push(rec)
                                    &&& asks_commit_count(*final(self), r)
                                } else {
                                    finishes(*final(self), old(self).records@.push(rec), r)
                                }
                            }
                    } else {
                        final(self).stage == Stage::Done && (r matches Step::Failed {
                            error: StatsError::Overflow { command: c },
                        } && c@ == old(self).command@)
                    }
                },
                Stage::Done => true,
            },
    {
        let out = match command_output(self.command.as_str(), outcome) {
            Ok(o) => o,
            Err(e) => {
                self.stage = Stage::Done;
                return Step::Failed { error: e };
            },
        };
        match self.stage {
            Stage::Authors => {
                self.authors = parse_author_names(out.as_str());
                self.next = 0;
                self.records = Vec::new();
                if self.authors.len() == 0 {
                    self.finish()
                } else {
                    self.ask_commit_count()
                }
            },
            Stage::Commits => {
                match parse_commit_count(out.as_str(), self.command.as_str()) {
                    Ok(n) => self.ask_edit_stats(n),
                    Err(e) => {
                        self.stage = Stage::Done;
                        Step::Failed { error: e }
                    },
                }
            },
            Stage::Edits { commits } => {
                match parse_edit_stats(out.as_str(), self.command.as_str()) {
                    Ok(edits) => {
                        assert(self.next < self.authors.len());
                        let name = self.authors[self.next].clone();
                        self.records.push(AuthorRecord { name, commits, edits });
                        self.next = self.next + 1;
                        let ghost rec = self.records@.last();
                        assert(self.records@ == old(self).records@.push(rec));
                        if self.next < self.authors.len() {
                            self.ask_commit_count()
                        } else {
                            self.finish()
                        }
                    },
                    Err(e) => {
                        self.stage = Stage::Done;
                        Step::Failed { error: e }
                    },
                }
            },
            Stage::Done => unreached(),
        }
    }
}

} // verus!
