use vstd::prelude::*;

use crate::error::StatsError;
use crate::escape::{quoted_text, shell_escape};
use crate::order::{
    lemma_text_less_irreflexive, lemma_text_less_total, lemma_text_less_transitive, less_than, strictly_ascending, text_less,
};
use crate::text::{chars_of, join_from, lines_of, string_of, join_words, lines, views, words, words_of};

verus! {

/// The views of a list of strings.
pub open spec fn texts(v: Seq<String>) -> Seq<Seq<char>> {
    v.map_values(|s: String| s@)
}

/// The author named on one line of the summary: every word but the leading
/// count, joined by single spaces. A line with no name gives the empty text.
pub open spec fn author_of_line(line: Seq<char>) -> Seq<char> {
    let ws = words(line);
    if ws.len() == 0 {
        seq![]
    } else {
        join_words(ws.drop_first())
    }
}

/// The author of each line of the summary output `out`, in order.
pub open spec fn summary_authors(out: Seq<char>) -> Seq<Seq<char>> {
    lines(out).map_values(|l: Seq<char>| author_of_line(l))
}

/// The command that summarises the authors of the repository at `dir`, where
/// `dir` and `branch` are given already quoted.
pub open spec fn summary_command(dir: Seq<char>, branch: Seq<char>) -> Seq<char> {
    "git -C "@ + dir + " shortlog --summary --numbered --no-merges --all --branches="@ + branch
}

/// The author named on one line of the summary.
pub fn author_from_line(line: &Vec<char>) -> (r: Vec<char>)
    ensures
        r@ == author_of_line(line@),
{
    let ws = words_of(line);
    if ws.len() == 0 {
        Vec::new()
    } else {
        let r = join_from(&ws, 1);
        assert(views(ws@).skip(1) =~= words(line@).drop_first());
        r
    }
}

/// Adds `x` to the strictly ascending list `v`, unless it is there already.
pub fn insert_sorted(v: &mut Vec<Vec<char>>, x: Vec<char>)
    requires
        strictly_ascending(views(old(v)@)),
    ensures
        strictly_ascending(views(final(v)@)),
        forall|y: Seq<char>|
            views(final(v)@).contains(y) <==> (views(old(v)@).contains(y) || y == x@),
{
    let mut p: usize = 0;
    while p < v.len() && less_than(&v[p], &x)
        invariant
            p <= v@.len(),
            v == old(v),
            forall|i: int| 0 <= i < p ==> text_less(#[trigger] views(v@)[i], x@),
        decreases v@.len() - p,
    {
        p = p + 1;
    }
    let ghost before = views(v@);
    if p < v.len() && !less_than(&x, &v[p]) {
        proof {
            lemma_text_less_total(before[p as int], x@);
            assert(before[p as int] == x@);
        }
        return;
    }
    let ghost xv = x@;
    v.insert(p, x);
    proof {
        let after = views(v@);
        assert(after =~= before.insert(p as int, xv));
        assert forall|i: int, j: int| 0 <= i < j < after.len() implies text_less(
            #[trigger] after[i],
            #[trigger] after[j],
        ) by {
            if j == p {
            } else if i == p {
                if j > p + 1 {
                    lemma_text_less_transitive(xv, before[p as int], before[j - 1]);
                }
            } else if i < p && j > p {
                assert(text_less(before[i], xv));
                if j > p + 1 {
                    lemma_text_less_transitive(before[i], before[p as int], before[j - 1]);
                } else {
                    lemma_text_less_transitive(before[i], xv, before[p as int]);
                }
            } else if i > p {
                assert(text_less(before[i - 1], before[j - 1]));
            } else {
                assert(text_less(before[i], before[j]));
            }
        }
        assert forall|y: Seq<char>| after.contains(y) <==> (before.contains(y) || y == xv) by {
            if after.contains(y) {
                let k = choose|k: int| 0 <= k < after.len() && after[k] == y;
                if k < p {
                    assert(before[k] == y);
                } else if k > p {
                    assert(before[k - 1] == y);
                }
            }
            if before.contains(y) {
                let k = choose|k: int| 0 <= k < before.len() && before[k] == y;
                if k < p {
                    assert(after[k] == y);
                } else {
                    assert(after[k + 1] == y);
                }
            }
            if y == xv {
                assert(after[p as int] == y);
            }
        }
    }
}

/// The distinct authors named in the summary output `out`, in ascending
/// order; an author named on several lines is listed once.
pub fn parse_author_names(out: &str) -> (r: Vec<String>)
    ensures
        strictly_ascending(texts(r@)),
        texts(r@).no_duplicates(),
        forall|y: Seq<char>| texts(r@).contains(y) <==> summary_authors(out@).contains(y),
{
    let chars = chars_of(out);
    let ls = lines_of(&chars);
    let ghost want = summary_authors(out@);
    let mut names: Vec<Vec<char>> = Vec::new();
    let mut i: usize = 0;
    while i < ls.len()
        invariant
            i <= ls@.len(),
            views(ls@) == lines(out@),
            want == summary_authors(out@),
            want.len() == ls@.len(),
            strictly_ascending(views(names@)),
            forall|y: Seq<char>|
                views(names@).contains(y) <==> want.take(i as int).contains(y),
        decreases ls@.len() - i,
    {
        let a = author_from_line(&ls[i]);
        let ghost prev = views(names@);
        insert_sorted(&mut names, a);
        proof {
            assert(want[i as int] == a@);
            let w0 = want.take(i as int);
            let w1 = want.take(i + 1);
            assert(w1 =~= w0.push(a@));
            assert forall|y: Seq<char>| w1.contains(y) implies views(names@).contains(y) by {
                if y != a@ {
                    let k = choose|k: int| 0 <= k < w1.len() && w1[k] == y;
                    assert(w0[k] == y);
                }
            }
            assert forall|y: Seq<char>| views(names@).contains(y) implies w1.contains(y) by {
                if y == a@ {
                    assert(w1[i as int] == y);
                } else {
                    assert(prev.contains(y));
                    let k = choose|k: int| 0 <= k < w0.len() && w0[k] == y;
                    assert(w1[k] == y);
                }
            }
        }
        i = i + 1;
    }
    assert(want.take(i as int) =~= want);
    let mut r: Vec<String> = Vec::new();
    let mut j: usize = 0;
    while j < names.len()
        invariant
            j <= names@.len(),
            texts(r@) =~= views(names@).take(j as int),
        decreases names@.len() - j,
    {
        let s = string_of(&names[j]);
        let ghost prev = r@;
        r.push(s);
        proof {
            assert(r@ =~= prev.push(s));
            assert(texts(r@) =~= texts(prev).push(s@));
            assert(views(names@).take(j + 1) =~= views(names@).take(j as int).push(s@));
        }
        j = j + 1;
    }
    assert(views(names@).take(j as int) =~= views(names@));
    proof {
        lemma_ascending_distinct(texts(r@));
    }
    r
}

/// A strictly ascending list names nothing twice.
pub proof fn lemma_ascending_distinct(s: Seq<Seq<char>>)
    requires
        strictly_ascending(s),
    ensures
        s.no_duplicates(),
{
    assert forall|i: int, j: int| 0 <= i < s.len() && 0 <= j < s.len() && i != j implies s[i]
        != s[j] by {
        if i < j {
            assert(text_less(s[i], s[j]));
        } else {
            assert(text_less(s[j], s[i]));
        }
        lemma_text_less_irreflexive(s[i]);
    }
}

/// The command that summarises the authors of the repository at `dir` on the
/// branches that `branch` selects, with both quoted for the shell.
pub fn author_directory_command(dir: &str, branch: &str) -> (r: Result<String, StatsError>)
    ensures
        match (quoted_text(dir@), quoted_text(branch@)) {
            (Some(d), Some(b)) => r matches Ok(c) && c@ == summary_command(d, b),
            _ => r == Err::<String, StatsError>(StatsError::Encoding),
        },
{
    let d = match shell_escape(dir) {
        Ok(d) => d,
        Err(e) => return Err(e),
    };
    let b = match shell_escape(branch) {
        Ok(b) => b,
        Err(e) => return Err(e),
    };
    let mut c = String::from_str("git -C ");
    c.append(d.as_str());
    c.append(" shortlog --summary --numbered --no-merges --all --branches=");
    c.append(b.as_str());
    Ok(c)
}

} // verus!
