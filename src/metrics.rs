use vstd::prelude::*;

use crate::error::StatsError;
use crate::escape::{quoted_text, shell_escape};
use crate::text::{
    chars_of, decimal, lines, lines_of, parse_unsigned, parsed_unsigned, push_decimal, string_of,
    views, words, words_of,
};

verus! {

/// Lines added and removed by one author.
#[derive(Clone, Copy, Debug, PartialEq, Eq, Structural)]
pub struct EditStats {
    pub additions: usize,
    pub removals: usize,
}

/// `"<A> additions and <R> removals"`.
pub open spec fn edits_text(additions: nat, removals: nat) -> Seq<char> {
    decimal(additions) + " additions and "@ + decimal(removals) + " removals"@
}

impl EditStats {
    /// The stats as `"<A> additions and <R> removals"`.
    pub fn describe(&self) -> (r: String)
        ensures
            r@ == edits_text(self.additions as nat, self.removals as nat),
    {
        let mut v: Vec<char> = Vec::new();
        push_decimal(&mut v, self.additions);
        let mut s = string_of(&v);
        s.append(" additions and ");
        let mut w: Vec<char> = Vec::new();
        push_decimal(&mut w, self.removals);
        let ws = string_of(&w);
        s.append(ws.as_str());
        s.append(" removals");
        s
    }
}

/// The command that counts the commits of `author`, with every argument
/// given already quoted.
pub open spec fn count_command(dir: Seq<char>, author: Seq<char>, branch: Seq<char>) -> Seq<
    char,
> {
    "git -C "@ + dir + " rev-list HEAD --author="@ + author + " --count --branches="@ + branch
}

/// The command that lists the line changes of `author`, file by file, with
/// every argument given already quoted.
pub open spec fn numstat_command(dir: Seq<char>, author: Seq<char>, branch: Seq<char>) -> Seq<
    char,
> {
    "git -C "@ + dir + " log --author="@ + author + " --numstat --pretty=tformat: --branches="@
        + branch + " --all"@
}

/// Whether all three arguments can be quoted.
pub open spec fn all_quotable(dir: Seq<char>, author: Seq<char>, branch: Seq<char>) -> bool {
    quoted_text(dir) is Some && quoted_text(author) is Some && quoted_text(branch) is Some
}

/// The three arguments quoted, in order.
pub open spec fn quoted3(dir: Seq<char>, author: Seq<char>, branch: Seq<char>) -> (
    Seq<char>,
    Seq<char>,
    Seq<char>,
) {
    (quoted_text(dir)->0, quoted_text(author)->0, quoted_text(branch)->0)
}

fn quote_all(dir: &str, author: &str, branch: &str) -> (r: Result<
    (String, String, String),
    StatsError,
>)
    ensures
        all_quotable(dir@, author@, branch@) ==> (r matches Ok((d, a, b)) && (d@, a@, b@)
            == quoted3(dir@, author@, branch@)),
        !all_quotable(dir@, author@, branch@) ==> r == Err::<(String, String, String), StatsError>(
            StatsError::Encoding,
        ),
{
    let a = match shell_escape(author) {
        Ok(a) => a,
        Err(e) => return Err(e),
    };
    let b = match shell_escape(branch) {
        Ok(b) => b,
        Err(e) => return Err(e),
    };
    let d = match shell_escape(dir) {
        Ok(d) => d,
        Err(e) => return Err(e),
    };
    Ok((d, a, b))
}

/// The command that counts the commits of `author` in the repository at
/// `dir` on the branches that `branch` selects.
pub fn commit_count_command(dir: &str, author: &str, branch: &str) -> (r: Result<
    String,
    StatsError,
>)
    ensures
        all_quotable(dir@, author@, branch@) ==> (r matches Ok(c) && c@ == ({
            let (d, a, b) = quoted3(dir@, author@, branch@);
            count_command(d, a, b)
        })),
        !all_quotable(dir@, author@, branch@) ==> r == Err::<String, StatsError>(
            StatsError::Encoding,
        ),
{
    let (d, a, b) = match quote_all(dir, author, branch) {
        Ok(t) => t,
        Err(e) => return Err(e),
    };
    let mut c = String::from_str("git -C ");
    c.append(d.as_str());
    c.append(" rev-list HEAD --author=");
    c.append(a.as_str());
    c.append(" --count --branches=");
    c.append(b.as_str());
    Ok(c)
}

/// The command that lists the line changes of `author` in the repository at
/// `dir` on the branches that `branch` selects.
pub fn edit_stats_command(dir: &str, author: &str, branch: &str) -> (r: Result<
    String,
    StatsError,
>)
    ensures
        all_quotable(dir@, author@, branch@) ==> (r matches Ok(c) && c@ == ({
            let (d, a, b) = quoted3(dir@, author@, branch@);
            numstat_command(d, a, b)
        })),
        !all_quotable(dir@, author@, branch@) ==> r == Err::<String, StatsError>(
            StatsError::Encoding,
        ),
{
    let (d, a, b) = match quote_all(dir, author, branch) {
        Ok(t) => t,
        Err(e) => return Err(e),
    };
    let mut c = String::from_str("git -C ");
    c.append(d.as_str());
    c.append(" log --author=");
    c.append(a.as_str());
    c.append(" --numstat --pretty=tformat: --branches=");
    c.append(b.as_str());
    c.append(" --all");
    Ok(c)
}

/// Reads the output of the commit-count command strictly: it must be one
/// unsigned number, else the command is reported as a parse failure.
pub fn parse_commit_count(out: &str, command: &str) -> (r: Result<usize, StatsError>)
    ensures
        parsed_unsigned(out@) matches Some(n) ==> r == Ok::<usize, StatsError>(n as usize),
        parsed_unsigned(out@) is None ==> (r matches Err(StatsError::Parse { command: c })
            && c@ == command@),
{
    let chars = chars_of(out);
    match parse_unsigned(&chars) {
        Some(n) => Ok(n),
        None => Err(StatsError::Parse { command: String::from_str(command) }),
    }
}

/// Word `k` of a numstat line read as a number, or zero where the word is
/// missing or is not a number (as in the `-` that marks a binary file).
pub open spec fn lenient_field(ws: Seq<Seq<char>>, k: int) -> nat {
    if 0 <= k < ws.len() {
        match parsed_unsigned(ws[k]) {
            Some(n) => n as nat,
            None => 0,
        }
    } else {
        0
    }
}

/// The sum over the lines `ls` of word `k` read leniently.
pub open spec fn field_total(ls: Seq<Seq<char>>, k: int) -> nat
    decreases ls.len(),
{
    if ls.len() == 0 {
        0
    } else {
        field_total(ls.drop_last(), k) + lenient_field(words(ls.last()), k)
    }
}

/// Lines added in the numstat output `out`: the first word of each line.
pub open spec fn added_total(out: Seq<char>) -> nat {
    field_total(lines(out), 0)
}

/// Lines removed in the numstat output `out`: the second word of each line.
pub open spec fn removed_total(out: Seq<char>) -> nat {
    field_total(lines(out), 1)
}

proof fn lemma_field_total_grows(ls: Seq<Seq<char>>, k: int, i: int)
    requires
        0 <= i <= ls.len(),
    ensures
        field_total(ls.take(i), k) <= field_total(ls, k),
    decreases ls.len() - i,
{
    if i < ls.len() {
        lemma_field_total_grows(ls, k, i + 1);
        assert(ls.take(i + 1).drop_last() =~= ls.take(i));
    } else {
        assert(ls.take(i) =~= ls);
    }
}

fn lenient_word(ws: &Vec<Vec<char>>, k: usize) -> (r: usize)
    ensures
        r as nat == lenient_field(views(ws@), k as int),
{
    if k < ws.len() {
        match parse_unsigned(&ws[k]) {
            Some(n) => n,
            None => 0,
        }
    } else {
        0
    }
}

/// Sums the numstat output `out` leniently: a missing or non-numeric word
/// counts as zero. Fails only where a total does not fit in `usize`.
pub fn parse_edit_stats(out: &str, command: &str) -> (r: Result<EditStats, StatsError>)
    ensures
        added_total(out@) <= usize::MAX && removed_total(out@) <= usize::MAX ==> r == Ok::<
            EditStats,
            StatsError,
        >(EditStats { additions: added_total(out@) as usize, removals: removed_total(out@) as usize }),
        !(added_total(out@) <= usize::MAX && removed_total(out@) <= usize::MAX) ==> (r matches Err(
            StatsError::Overflow { command: c },
        ) && c@ == command@),
{
    let chars = chars_of(out);
    let ls = lines_of(&chars);
    let ghost lv = views(ls@);
    let mut additions: usize = 0;
    let mut removals: usize = 0;
    let mut i: usize = 0;
    assert(lv.take(0) =~= seq![]);
    while i < ls.len()
        invariant
            i <= ls@.len(),
            lv == views(ls@),
            lv == lines(out@),
            additions as nat == field_total(lv.take(i as int), 0),
            removals as nat == field_total(lv.take(i as int), 1),
        decreases ls@.len() - i,
    {
        let ws = words_of(&ls[i]);
        let a = lenient_word(&ws, 0);
        let b = lenient_word(&ws, 1);
        proof {
            assert(lv.take(i + 1).drop_last() =~= lv.take(i as int));
            assert(lv.take(i + 1).last() == lv[i as int]);
        }
        if a > usize::MAX - additions || b > usize::MAX - removals {
            proof {
                lemma_field_total_grows(lv, 0, i + 1);
                lemma_field_total_grows(lv, 1, i + 1);
            }
            return Err(StatsError::Overflow { command: String::from_str(command) });
        }
        additions = additions + a;
        removals = removals + b;
        i = i + 1;
    }
    assert(lv.take(i as int) =~= lv);
    Ok(EditStats { additions, removals })
}

} // verus!
