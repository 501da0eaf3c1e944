use vstd::prelude::*;

use crate::metrics::{edits_text, EditStats};
use crate::text::{decimal, push_decimal, string_of};

verus! {

/// One author's statistics.
#[derive(Debug)]
pub struct AuthorRecord {
    pub name: String,
    pub commits: usize,
    pub edits: EditStats,
}

/// `t`, ordered by commits from most to fewest, with `x` placed after every
/// record that has at least as many commits.
pub open spec fn insert_by_commits(t: Seq<AuthorRecord>, x: AuthorRecord) -> Seq<AuthorRecord>
    decreases t.len(),
{
    if t.len() == 0 {
        seq![x]
    } else if t.last().commits >= x.commits {
        t.push(x)
    } else {
        insert_by_commits(t.drop_last(), x).push(t.last())
    }
}

/// `s` ordered by commits from most to fewest; records with equal counts
/// keep their order.
pub open spec fn sorted_by_commits(s: Seq<AuthorRecord>) -> Seq<AuthorRecord>
    decreases s.len(),
{
    if s.len() == 0 {
        seq![]
    } else {
        insert_by_commits(sorted_by_commits(s.drop_last()), s.last())
    }
}

/// Every record has at least as many commits as each later one.
pub open spec fn descending(s: Seq<AuthorRecord>) -> bool {
    forall|i: int, j: int|
        0 <= i < j < s.len() ==> (#[trigger] s[i]).commits >= (#[trigger] s[j]).commits
}

/// `"1 commit"` or `"<N> commits"`.
pub open spec fn commits_text(n: nat) -> Seq<char> {
    if n == 1 {
        "1 commit"@
    } else {
        decimal(n) + " commits"@
    }
}

/// The report line of `r`, newline included; a record without commits has
/// no line.
pub open spec fn record_line(r: AuthorRecord) -> Seq<char> {
    if r.commits == 0 {
        seq![]
    } else {
        r.name@ + " has made "@ + commits_text(r.commits as nat) + ": "@ + edits_text(
            r.edits.additions as nat,
            r.edits.removals as nat,
        ) + "\n"@
    }
}

/// The lines of the records `s`, in order.
pub open spec fn report_text(s: Seq<AuthorRecord>) -> Seq<char>
    decreases s.len(),
{
    if s.len() == 0 {
        seq![]
    } else {
        report_text(s.drop_last()) + record_line(s.last())
    }
}

proof fn lemma_insert_position(t: Seq<AuthorRecord>, x: AuthorRecord, p: int)
    requires
        0 <= p <= t.len(),
        p == 0 || t[p - 1].commits >= x.commits,
        forall|k: int| p <= k < t.len() ==> (#[trigger] t[k]).commits < x.commits,
    ensures
        insert_by_commits(t, x) == t.insert(p, x),
    decreases t.len(),
{
    if t.len() == 0 {
        assert(t.insert(p, x) =~= seq![x]);
    } else if p == t.len() {
        assert(t.insert(p, x) =~= t.push(x));
    } else {
        let u = t.drop_last();
        lemma_insert_position(u, x, p);
        assert(t.insert(p, x) =~= u.insert(p, x).push(t.last()));
    }
}

/// Orders `records` by commits from most to fewest, keeping the order of
/// records with equal counts.
pub fn sort_by_commits(records: Vec<AuthorRecord>) -> (r: Vec<AuthorRecord>)
    ensures
        r@ == sorted_by_commits(records@),
{
    let ghost all = records@;
    let total = records.len();
    let mut rest = records;
    let mut out: Vec<AuthorRecord> = Vec::new();
    let mut i: usize = 0;
    assert(all.take(0) =~= seq![]);
    assert(all.skip(0) =~= all);
    while rest.len() > 0
        invariant
            i + rest@.len() == all.len(),
            all.len() == total,
            rest@ == all.skip(i as int),
            out@ == sorted_by_commits(all.take(i as int)),
        decreases rest@.len(),
    {
        let x = rest.remove(0);
        let n = x.commits;
        let mut p: usize = out.len();
        while p > 0 && out[p - 1].commits < n
            invariant
                p <= out@.len(),
                forall|k: int| p <= k < out@.len() ==> (#[trigger] out@[k]).commits < n,
            decreases p,
        {
            p = p - 1;
        }
        proof {
            assert(x == all[i as int]);
            lemma_insert_position(out@, x, p as int);
            assert(all.take(i + 1).drop_last() =~= all.take(i as int));
            assert(rest@ =~= all.skip(i + 1));
        }
        out.insert(p, x);
        i = i + 1;
    }
    assert(all.take(i as int) =~= all);
    out
}

/// Appends the report line of `r` to `out`.
pub fn push_record_line(out: &mut String, r: &AuthorRecord)
    ensures
        final(out)@ == old(out)@ + record_line(*r),
{
    if r.commits == 0 {
        assert(old(out)@ + record_line(*r) =~= old(out)@);
        return;
    }
    out.append(r.name.as_str());
    out.append(" has made ");
    if r.commits == 1 {
        out.append("1 commit");
    } else {
        let mut v: Vec<char> = Vec::new();
        push_decimal(&mut v, r.commits);
        let n = string_of(&v);
        out.append(n.as_str());
        out.append(" commits");
    }
    out.append(": ");
    let e = r.edits.describe();
    out.append(e.as_str());
    out.append("\n");
    assert(final(out)@ =~= old(out)@ + record_line(*r));
}

/// The report of `records` in their given order: one line per record that
/// has commits.
pub fn render_report(records: &Vec<AuthorRecord>) -> (r: String)
    ensures
        r@ == report_text(records@),
{
    let mut out = String::new();
    let mut i: usize = 0;
    assert(records@.take(0) =~= seq![]);
    while i < records.len()
        invariant
            i <= records@.len(),
            out@ == report_text(records@.take(i as int)),
        decreases records@.len() - i,
    {
        push_record_line(&mut out, &records[i]);
        assert(records@.take(i + 1).drop_last() =~= records@.take(i as int));
        i = i + 1;
    }
    assert(records@.take(i as int) =~= records@);
    out
}

/// The final report: the records ordered by commits from most to fewest,
/// equal counts in their given order, one line per record with commits.
pub fn build_report(records: Vec<AuthorRecord>) -> (r: String)
    ensures
        r@ == report_text(sorted_by_commits(records@)),
{
    let sorted = sort_by_commits(records);
    render_report(&sorted)
}

/// Two records say the same: same name text, commits and edits.
pub open spec fn same_record(a: AuthorRecord, b: AuthorRecord) -> bool {
    a.name@ == b.name@ && a.commits == b.commits && a.edits == b.edits
}

/// Two lists of records say the same, record by record.
pub open spec fn same_records(s: Seq<AuthorRecord>, t: Seq<AuthorRecord>) -> bool {
    s.len() == t.len() && forall|i: int| 0 <= i < s.len() ==> same_record(#[trigger] s[i], t[i])
}

proof fn lemma_insert_same(t1: Seq<AuthorRecord>, t2: Seq<AuthorRecord>, x1: AuthorRecord, x2: AuthorRecord)
    requires
        same_records(t1, t2),
        same_record(x1, x2),
    ensures
        same_records(insert_by_commits(t1, x1), insert_by_commits(t2, x2)),
    decreases t1.len(),
{
    if t1.len() > 0 {
        assert(same_record(t1[t1.len() - 1], t2[t2.len() - 1]));
        if t1.last().commits < x1.commits {
            let u1 = t1.drop_last();
            let u2 = t2.drop_last();
            assert(same_records(u1, u2)) by {
                assert forall|i: int| 0 <= i < u1.len() implies same_record(#[trigger] u1[i], u2[i]) by {
                    assert(same_record(t1[i], t2[i]));
                }
            }
            lemma_insert_same(u1, u2, x1, x2);
            let v1 = insert_by_commits(u1, x1);
            let v2 = insert_by_commits(u2, x2);
            assert forall|i: int| 0 <= i < v1.len() + 1 implies same_record(
                #[trigger] v1.push(t1.last())[i],
                v2.push(t2.last())[i],
            ) by {
                if i < v1.len() {
                    assert(same_record(v1[i], v2[i]));
                }
            }
        } else {
            assert forall|i: int| 0 <= i < t1.len() + 1 implies same_record(
                #[trigger] t1.push(x1)[i],
                t2.push(x2)[i],
            ) by {
                if i < t1.len() {
                    assert(same_record(t1[i], t2[i]));
                }
            }
        }
    } else {
        assert(same_record(seq![x1][0], seq![x2][0]));
    }
}

proof fn lemma_sorted_same(s1: Seq<AuthorRecord>, s2: Seq<AuthorRecord>)
    requires
        same_records(s1, s2),
    ensures
        same_records(sorted_by_commits(s1), sorted_by_commits(s2)),
    decreases s1.len(),
{
    if s1.len() > 0 {
        let u1 = s1.drop_last();
        let u2 = s2.drop_last();
        assert(same_records(u1, u2)) by {
            assert forall|i: int| 0 <= i < u1.len() implies same_record(#[trigger] u1[i], u2[i]) by {
                assert(same_record(s1[i], s2[i]));
            }
        }
        lemma_sorted_same(u1, u2);
        assert(same_record(s1[s1.len() - 1], s2[s2.len() - 1]));
        lemma_insert_same(sorted_by_commits(u1), sorted_by_commits(u2), s1.last(), s2.last());
    }
}

proof fn lemma_report_same(s1: Seq<AuthorRecord>, s2: Seq<AuthorRecord>)
    requires
        same_records(s1, s2),
    ensures
        report_text(s1) == report_text(s2),
    decreases s1.len(),
{
    if s1.len() > 0 {
        let u1 = s1.drop_last();
        let u2 = s2.drop_last();
        assert(same_records(u1, u2)) by {
            assert forall|i: int| 0 <= i < u1.len() implies same_record(#[trigger] u1[i], u2[i]) by {
                assert(same_record(s1[i], s2[i]));
            }
        }
        lemma_report_same(u1, u2);
        assert(same_record(s1[s1.len() - 1], s2[s2.len() - 1]));
    }
}

/// Two runs that gather records saying the same things print the same
/// report, byte for byte: the report depends on the names, counts and
/// edits alone, never on which run produced them.
pub proof fn lemma_report_repeatable(s1: Seq<AuthorRecord>, s2: Seq<AuthorRecord>)
    requires
        same_records(s1, s2),
    ensures
        report_text(sorted_by_commits(s1)) == report_text(sorted_by_commits(s2)),
{
    lemma_sorted_same(s1, s2);
    lemma_report_same(sorted_by_commits(s1), sorted_by_commits(s2));
}

proof fn lemma_insert_descending(t: Seq<AuthorRecord>, x: AuthorRecord)
    requires
        descending(t),
    ensures
        descending(insert_by_commits(t, x)),
        insert_by_commits(t, x).len() == t.len() + 1,
        forall|i: int| 0 <= i < insert_by_commits(t, x).len() ==> (#[trigger] insert_by_commits(t, x)[i]).commits
            >= x.commits || (exists|k: int| 0 <= k < t.len() && insert_by_commits(t, x)[i] == t[k]),
    decreases t.len(),
{
    if t.len() > 0 && t.last().commits < x.commits {
        let u = t.drop_last();
        lemma_insert_descending(u, x);
        let v = insert_by_commits(u, x);
        assert forall|i: int| 0 <= i < v.len() implies (#[trigger] v[i]).commits >= t.last().commits by {
            if v[i].commits < x.commits {
                let k = choose|k: int| 0 <= k < u.len() && v[i] == u[k];
                assert(t[k] == u[k]);
            }
        }
        assert forall|i: int| 0 <= i < v.len() + 1 && (#[trigger] v.push(t.last())[i]).commits < x.commits
            implies exists|k: int| 0 <= k < t.len() && v.push(t.last())[i] == t[k] by {
            if i < v.len() {
                let k = choose|k: int| 0 <= k < u.len() && v[i] == u[k];
                assert(t[k] == u[k]);
            } else {
                assert(v.push(t.last())[i] == t[t.len() - 1]);
            }
        }
    } else if t.len() > 0 {
        assert forall|i: int| 0 <= i < t.len() + 1 && (#[trigger] t.push(x)[i]).commits < x.commits
            implies exists|k: int| 0 <= k < t.len() && t.push(x)[i] == t[k] by {
            assert(t.push(x)[i] == t[i]);
        }
    }
}

/// The sorted records run from most commits to fewest.
pub proof fn lemma_sorted_descending(s: Seq<AuthorRecord>)
    ensures
        descending(sorted_by_commits(s)),
        sorted_by_commits(s).len() == s.len(),
    decreases s.len(),
{
    if s.len() > 0 {
        lemma_sorted_descending(s.drop_last());
        lemma_insert_descending(sorted_by_commits(s.drop_last()), s.last());
    }
}

} // verus!
