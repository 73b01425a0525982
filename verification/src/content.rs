//! Static quality checks of problem content, run before any problem is published.
use vstd::prelude::*;
use crate::language::Language;
use crate::playground::{TEST_FAILED_MARKER, TEST_OK_MARKER, strings_of};
use crate::problem::{Level, Problem};
use crate::text::{
    all_ws, chars_of, contains, contains_str, decimal, is_digit, decimal_exec, find_from, find_from_spec,
    is_blank, lemma_find_from_spec, lemma_find_from_unique, push_all, push_str, slice_exec,
    starts_with, starts_with_str, string_of, views,
};
use crate::text::{contains_vec, occurs_at, vec_eq};

verus! {

/// The quoted literals of `s` delimited by `q`, from index `pos` on: each literal runs
/// from one `q` to the next, and scanning resumes after the closing `q`.
pub open spec fn literals_from(s: Seq<char>, q: char, pos: int) -> Seq<Seq<char>>
    decreases s.len() + 1 - pos,
{
    if pos < 0 || pos > s.len() {
        seq![]
    } else {
        match find_from_spec(s, seq![q], pos) {
            None => seq![],
            Some(a) => {
                proof {
                    lemma_find_from_spec(s, seq![q], pos);
                }
                match find_from_spec(s, seq![q], a + 1) {
                    None => seq![],
                    Some(b) => {
                        proof {
                            lemma_find_from_spec(s, seq![q], a + 1);
                        }
                        seq![s.subrange(a + 1, b)] + literals_from(s, q, b + 1)
                    },
                }
            },
        }
    }
}

/// A literal that names a check: not empty, and not one of the harness markers.
pub open spec fn is_check_name(lit: Seq<char>) -> bool {
    lit.len() > 0 && !contains(lit, "test result"@) && !starts_with(lit, "FAILED"@)
}

/// The literals of `lits` that name checks, in order.
pub open spec fn name_literals(lits: Seq<Seq<char>>) -> Seq<Seq<char>>
    decreases lits.len(),
{
    if lits.len() == 0 {
        seq![]
    } else if is_check_name(lits.last()) {
        name_literals(lits.drop_last()).push(lits.last())
    } else {
        name_literals(lits.drop_last())
    }
}

/// The distinct check names of a test harness: its double- and single-quoted literals
/// that are not markers.
pub open spec fn check_names(hidden_tests: Seq<char>) -> Set<Seq<char>> {
    name_literals(literals_from(hidden_tests, '"', 0) + literals_from(hidden_tests, '\'', 0)).to_set()
}

proof fn lemma_occurs_shift(x: Seq<char>, r: Seq<char>, q: char, j: int)
    requires
        0 <= j,
    ensures
        occurs_at(x + r, seq![q], x.len() + j) <==> occurs_at(r, seq![q], j),
{
    if j + 1 <= r.len() {
        assert((x + r).subrange(x.len() + j, x.len() + j + 1) =~= r.subrange(j, j + 1));
    }
}

proof fn lemma_find_shift(x: Seq<char>, r: Seq<char>, q: char, k: int)
    requires
        0 <= k,
    ensures
        find_from_spec(x + r, seq![q], x.len() + k) == match find_from_spec(r, seq![q], k) {
            Some(i) => Some(x.len() + i),
            None => None::<int>,
        },
{
    lemma_find_from_spec(r, seq![q], k);
    let res = match find_from_spec(r, seq![q], k) {
        Some(i) => Some(x.len() + i),
        None => None::<int>,
    };
    match find_from_spec(r, seq![q], k) {
        Some(i) => {
            lemma_occurs_shift(x, r, q, i);
            assert forall|m: int| x.len() + k <= m < x.len() + i implies !occurs_at(
                x + r,
                seq![q],
                m,
            ) by {
                lemma_occurs_shift(x, r, q, m - x.len());
            }
        },
        None => {
            assert forall|m: int| x.len() + k <= m implies !occurs_at(x + r, seq![q], m) by {
                lemma_occurs_shift(x, r, q, m - x.len());
            }
        },
    }
    lemma_find_from_unique(x + r, seq![q], x.len() + k, res);
}

proof fn lemma_literals_shift(x: Seq<char>, r: Seq<char>, q: char, k: int)
    requires
        0 <= k,
    ensures
        literals_from(x + r, q, x.len() + k) == literals_from(r, q, k),
    decreases r.len() + 1 - k,
{
    if k <= r.len() {
        lemma_find_shift(x, r, q, k);
        match find_from_spec(r, seq![q], k) {
            Some(a) => {
                lemma_find_from_spec(r, seq![q], k);
                lemma_find_shift(x, r, q, a + 1);
                match find_from_spec(r, seq![q], a + 1) {
                    Some(b) => {
                        lemma_find_from_spec(r, seq![q], a + 1);
                        lemma_literals_shift(x, r, q, b + 1);
                        assert((x + r).subrange(x.len() + a + 1, x.len() + b) =~= r.subrange(
                            a + 1,
                            b,
                        ));
                    },
                    None => {},
                }
            },
            None => {},
        }
    }
}

/// How literals are read: text without the quote holds none; and text that opens a
/// literal after a stretch without the quote and closes it at the next quote yields
/// that literal first, then the literals of what follows the closing quote.
pub proof fn law_literals_in_order(pre: Seq<char>, lit: Seq<char>, rest: Seq<char>, q: char)
    ensures
        !pre.contains(q) ==> literals_from(pre, q, 0) == Seq::<Seq<char>>::empty(),
        !pre.contains(q) && !lit.contains(q) ==> literals_from(
            pre + seq![q] + lit + seq![q] + rest,
            q,
            0,
        ) == seq![lit] + literals_from(rest, q, 0),
{
    let qs = seq![q];
    if !pre.contains(q) {
        assert forall|m: int| 0 <= m implies !occurs_at(pre, qs, m) by {
            if occurs_at(pre, qs, m) {
                assert(pre.subrange(m, m + 1)[0] == pre[m]);
                assert(pre[m] == q);
            }
        }
        lemma_find_from_unique(pre, qs, 0, None);
        if !lit.contains(q) {
            let s = pre + qs + lit + qs + rest;
            let a = pre.len() as int;
            let b = a + 1 + lit.len();
            assert(s.subrange(a, a + 1) =~= qs);
            assert forall|m: int| 0 <= m < a implies !occurs_at(s, qs, m) by {
                if occurs_at(s, qs, m) {
                    assert(s.subrange(m, m + 1)[0] == s[m]);
                    assert(s[m] == pre[m]);
                }
            }
            lemma_find_from_unique(s, qs, 0, Some(a));
            assert(s.subrange(b, b + 1) =~= qs);
            assert forall|m: int| a + 1 <= m < b implies !occurs_at(s, qs, m) by {
                if occurs_at(s, qs, m) {
                    assert(s.subrange(m, m + 1)[0] == s[m]);
                    assert(s[m] == lit[m - a - 1]);
                }
            }
            lemma_find_from_unique(s, qs, a + 1, Some(b));
            assert(s.subrange(a + 1, b) =~= lit);
            let x = pre + qs + lit + qs;
            assert(s =~= x + rest);
            lemma_literals_shift(x, rest, q, 0);
            assert(x.len() == b + 1);
        }
    }
}

proof fn lemma_name_literals_contains(lits: Seq<Seq<char>>, x: Seq<char>)
    ensures
        name_literals(lits).contains(x) <==> (lits.contains(x) && is_check_name(x)),
    decreases lits.len(),
{
    if lits.len() > 0 {
        let init = lits.drop_last();
        lemma_name_literals_contains(init, x);
        assert(lits =~= init.push(lits.last()));
        if lits.contains(x) && x != lits.last() {
            let k = choose|k: int| 0 <= k < lits.len() && lits[k] == x;
            assert(k < init.len());
            assert(init[k] == x);
        }
        if init.contains(x) {
            let k = choose|k: int| 0 <= k < init.len() && init[k] == x;
            assert(lits[k] == x);
        }
        if is_check_name(lits.last()) {
            let n = name_literals(init);
            assert(name_literals(lits) == n.push(lits.last()));
            if n.push(lits.last()).contains(x) && x != lits.last() {
                let k = choose|k: int| 0 <= k < n.len() + 1 && n.push(lits.last())[k] == x;
                assert(n[k] == x);
            }
            if n.contains(x) {
                let k = choose|k: int| 0 <= k < n.len() && n[k] == x;
                assert(n.push(lits.last())[k] == x);
            }
            assert(n.push(lits.last())[n.len() as int] == lits.last());
        }
        assert(lits[lits.len() - 1] == lits.last());
    }
}

/// The check names of a harness are exactly its literals between double quotes and its
/// literals between single quotes that are not empty and are not a marker (a literal that
/// mentions `test result` or starts with `FAILED`): both quote styles count alike.
pub proof fn law_check_names_both_quotes(hidden_tests: Seq<char>, x: Seq<char>)
    ensures
        check_names(hidden_tests).contains(x) <==> ((literals_from(hidden_tests, '"', 0).contains(x)
            || literals_from(hidden_tests, '\'', 0).contains(x)) && x.len() > 0 && !contains(
            x,
            "test result"@,
        ) && !starts_with(x, "FAILED"@)),
{
    let d = literals_from(hidden_tests, '"', 0);
    let q = literals_from(hidden_tests, '\'', 0);
    let all = d + q;
    lemma_name_literals_contains(all, x);
    if all.contains(x) {
        let k = choose|k: int| 0 <= k < all.len() && all[k] == x;
        if k < d.len() {
            assert(d[k] == x);
        } else {
            assert(q[k - d.len()] == x);
        }
    }
    if d.contains(x) {
        let k = choose|k: int| 0 <= k < d.len() && d[k] == x;
        assert(all[k] == x);
    }
    if q.contains(x) {
        let k = choose|k: int| 0 <= k < q.len() && q[k] == x;
        assert(all[d.len() + k] == x);
    }
}

fn literals_exec(s: &Vec<char>, q: char) -> (r: Vec<Vec<char>>)
    ensures
        views(r@) == literals_from(s@, q, 0),
{
    let mut qv: Vec<char> = Vec::new();
    qv.push(q);
    let mut r: Vec<Vec<char>> = Vec::new();
    let mut pos: usize = 0;
    assert(views(r@) =~= Seq::<Seq<char>>::empty());
    assert(views(r@) + literals_from(s@, q, 0) =~= literals_from(s@, q, 0));
    loop
        invariant
            pos <= s.len(),
            qv@ == seq![q],
            literals_from(s@, q, 0) == views(r@) + literals_from(s@, q, pos as int),
        ensures
            literals_from(s@, q, 0) == views(r@),
        decreases s.len() + 1 - pos,
    {
        match find_from(s, &qv, pos) {
            None => {
                proof {
                    lemma_find_from_unique(s@, qv@, pos as int, None);
                    assert(views(r@) + Seq::<Seq<char>>::empty() =~= views(r@));
                }
                break ;
            },
            Some(a) => {
                proof {
                    lemma_find_from_unique(s@, qv@, pos as int, Some(a as int));
                }
                match find_from(s, &qv, a + 1) {
                    None => {
                        proof {
                            lemma_find_from_unique(s@, qv@, a + 1, None);
                            assert(views(r@) + Seq::<Seq<char>>::empty() =~= views(r@));
                        }
                        break ;
                    },
                    Some(b) => {
                        proof {
                            lemma_find_from_unique(s@, qv@, a + 1, Some(b as int));
                        }
                        let lit = slice_exec(s, a + 1, b);
                        let ghost before = views(r@);
                        r.push(lit);
                        proof {
                            assert(views(r@) =~= before.push(lit@));
                            assert(before + literals_from(s@, q, pos as int) =~= views(r@)
                                + literals_from(s@, q, b + 1));
                        }
                        pos = b + 1;
                    },
                }
            },
        }
    }
    r
}

fn is_check_name_exec(lit: &Vec<char>) -> (b: bool)
    ensures
        b == is_check_name(lit@),
{
    lit.len() > 0 && !contains_str(lit, "test result") && !starts_with_str(lit, "FAILED")
}

fn add_names(
    names: &mut Vec<Vec<char>>,
    lits: &Vec<Vec<char>>,
    Ghost(all): Ghost<Seq<Seq<char>>>,
    Ghost(off): Ghost<int>,
)
    requires
        0 <= off,
        off + lits.len() <= all.len(),
        all.subrange(off, off + lits.len()) == views(lits@),
        views(old(names)@).no_duplicates(),
        views(old(names)@).to_set() == name_literals(all.take(off)).to_set(),
    ensures
        views(final(names)@).no_duplicates(),
        views(final(names)@).to_set() == name_literals(all.take(off + lits.len())).to_set(),
{
    let mut i: usize = 0;
    while i < lits.len()
        invariant
            0 <= off,
            off + lits.len() <= all.len(),
            all.subrange(off, off + lits.len()) == views(lits@),
            i <= lits.len(),
            views(names@).no_duplicates(),
            views(names@).to_set() == name_literals(all.take(off + i)).to_set(),
        decreases lits.len() - i,
    {
        let lit = &lits[i];
        assert(all.subrange(off, off + lits.len())[i as int] == views(lits@)[i as int]);
        assert(lit@ == all[off + i]);
        let ghost before = views(names@);
        proof {
            broadcast use vstd::seq_lib::group_seq_properties;
            assert(all.take(off + i + 1).drop_last() =~= all.take(off + i));
            assert(all.take(off + i + 1).last() == all[off + i]);
            assert(name_literals(all.take(off + i)).push(lit@).to_set() =~= name_literals(
                all.take(off + i),
            ).to_set().insert(lit@));
        }
        if is_check_name_exec(lit) && !contains_vec(names, lit) {
            names.push(lit.clone());
            proof {
                broadcast use vstd::seq_lib::group_seq_properties;
                assert(views(names@) =~= before.push(lit@));
                assert(views(names@).to_set() =~= before.to_set().insert(lit@));
            }
        } else {
            proof {
                broadcast use vstd::seq_lib::group_seq_properties;
                assert(views(names@) =~= before);
                if is_check_name(lit@) {
                    assert(before.to_set().contains(lit@));
                    assert(before.to_set().insert(lit@) =~= before.to_set());
                }
            }
        }
        i += 1;
    }
}

/// Number of distinct check names in a harness. Each check is written as
/// `check(<condition>, "name")`, so the distinct names, markers excluded, count the checks
/// whatever the helper is called.
pub fn distinct_check_names(hidden_tests: &str) -> (n: usize)
    ensures
        n == check_names(hidden_tests@).len(),
{
    let s = chars_of(hidden_tests);
    let dq = literals_exec(&s, '"');
    let sq = literals_exec(&s, '\'');
    let ghost all = views(dq@) + views(sq@);
    let mut names: Vec<Vec<char>> = Vec::new();
    assert(all.subrange(0, dq.len() as int) =~= views(dq@));
    assert(all.subrange(dq.len() as int, dq.len() + sq.len()) =~= views(sq@));
    assert(all.take(0) =~= Seq::<Seq<char>>::empty());
    assert(views(names@).to_set() =~= name_literals(all.take(0)).to_set());
    add_names(&mut names, &dq, Ghost(all), Ghost(0));
    assert(all.take(dq.len() as int) =~= views(dq@));
    add_names(&mut names, &sq, Ghost(all), Ghost(dq.len() as int));
    proof {
        assert(all.take(dq.len() + sq.len()) =~= all);
        views(names@).unique_seq_to_set();
        assert(names@.len() == views(names@).len());
        assert(check_names(hidden_tests@) == name_literals(all).to_set());
    }
    names.len()
}

/// A problem the checks found wrong, and why.
#[derive(Debug, Clone, PartialEq, Eq)]
pub struct ProblemIssue {
    pub id: String,
    pub message: String,
}

impl ProblemIssue {
    /// An issue of problem `id` (`-` for the file as a whole).
    pub fn new(id: &str, message: &str) -> (r: Self)
        ensures
            r.id@ == id@,
            r.message@ == message@,
    {
        ProblemIssue { id: string_of(&chars_of(id)), message: string_of(&chars_of(message)) }
    }
}

/// Shortest acceptable `description_md`, in characters.
pub const MIN_DESCRIPTION_CHARS: usize = 80;

/// Problems per data file.
pub const PROBLEMS_PER_FILE: usize = 100;

/// An issue as (id, message).
pub open spec fn issue_views(v: Seq<ProblemIssue>) -> Seq<(Seq<char>, Seq<char>)> {
    v.map_values(|x: ProblemIssue| (x.id@, x.message@))
}

/// A one-issue list when `cond` holds, else the empty list.
pub open spec fn issue_if(cond: bool, id: Seq<char>, message: Seq<char>) -> Seq<
    (Seq<char>, Seq<char>),
> {
    if cond {
        seq![(id, message)]
    } else {
        seq![]
    }
}

/// Number of non-overlapping occurrences of `p` in `s` from `pos` on, scanning left to
/// right (`str::matches(..).count()`).
pub open spec fn count_matches(s: Seq<char>, p: Seq<char>, pos: int) -> nat
    decreases s.len() + 1 - pos,
{
    if pos < 0 || pos > s.len() || p.len() == 0 {
        0
    } else {
        match find_from_spec(s, p, pos) {
            None => 0,
            Some(i) => {
                proof {
                    lemma_find_from_spec(s, p, pos);
                }
                1 + count_matches(s, p, i + p.len())
            },
        }
    }
}

fn count_matches_exec(s: &Vec<char>, p: &Vec<char>) -> (n: usize)
    requires
        p.len() > 0,
    ensures
        n == count_matches(s@, p@, 0),
{
    let mut n: usize = 0;
    let mut pos: usize = 0;
    loop
        invariant
            pos <= s.len(),
            p.len() > 0,
            n <= pos,
            count_matches(s@, p@, 0) == n + count_matches(s@, p@, pos as int),
        ensures
            count_matches(s@, p@, 0) == n,
        decreases s.len() + 1 - pos,
    {
        match find_from(s, p, pos) {
            None => {
                proof {
                    lemma_find_from_unique(s@, p@, pos as int, None);
                }
                break ;
            },
            Some(i) => {
                proof {
                    lemma_find_from_unique(s@, p@, pos as int, Some(i as int));
                }
                n += 1;
                pos = i + p.len();
            },
        }
    }
    n
}

pub open spec fn msg_rust_test_count(n: nat) -> Seq<char> {
    "hidden_tests の #[test] が "@ + decimal(n) + " 個です (最低 2 個)"@
}

pub open spec fn msg_missing_ok_marker() -> Seq<char> {
    "hidden_tests が成功の目印 \""@ + TEST_OK_MARKER@ + "\" を出力していません"@
}

pub open spec fn msg_missing_failed_marker() -> Seq<char> {
    "hidden_tests が失敗の目印 \""@ + TEST_FAILED_MARKER@ + "\" を出力していません"@
}

pub open spec fn msg_check_count(n: nat) -> Seq<char> {
    "hidden_tests の検査が "@ + decimal(n) + " 件です (最低 2 件、うち 1 件は境界値)"@
}

/// Whether the hidden tests meet the judging contract of the problem's language: Rust
/// needs two `#[test]`s; the others need both markers and two distinct checks.
pub open spec fn hidden_test_issues(p: Problem) -> Seq<(Seq<char>, Seq<char>)> {
    let h = p.hidden_tests@;
    if p.language == Language::Rust {
        let n = count_matches(h, "#[test]"@, 0);
        issue_if(n < 2, p.id@, msg_rust_test_count(n))
    } else {
        issue_if(!contains(h, TEST_OK_MARKER@), p.id@, msg_missing_ok_marker()) + issue_if(
            !contains(h, TEST_FAILED_MARKER@),
            p.id@,
            msg_missing_failed_marker(),
        ) + issue_if(check_names(h).len() < 2, p.id@, msg_check_count(check_names(h).len()))
    }
}

fn push_issue(out: &mut Vec<ProblemIssue>, id: &str, msg: &Vec<char>)
    ensures
        issue_views(final(out)@) == issue_views(old(out)@).push((id@, msg@)),
{
    let issue = ProblemIssue { id: string_of(&chars_of(id)), message: string_of(msg) };
    out.push(issue);
    assert(issue_views(out@) =~= issue_views(old(out)@).push((id@, msg@)));
}

fn hidden_test_issues_exec(p: &Problem, out: &mut Vec<ProblemIssue>)
    ensures
        issue_views(final(out)@) == issue_views(old(out)@) + hidden_test_issues(*p),
{
    let h = chars_of(p.hidden_tests.as_str());
    let id = p.id.as_str();
    if p.language == Language::Rust {
        let pat = chars_of("#[test]");
        proof {
            reveal_strlit("#[test]");
        }
        let n = count_matches_exec(&h, &pat);
        if n < 2 {
            let mut m = chars_of("hidden_tests の #[test] が ");
            let d = decimal_exec(n as u64);
            push_all(&mut m, &d);
            push_str(&mut m, " 個です (最低 2 個)");
            push_issue(out, id, &m);
        } else {
            assert(issue_views(out@) =~= issue_views(old(out)@) + hidden_test_issues(*p));
        }
    } else {
        let ghost o = issue_views(out@);
        if !contains_str(&h, TEST_OK_MARKER) {
            let mut m = chars_of("hidden_tests が成功の目印 \"");
            push_str(&mut m, TEST_OK_MARKER);
            push_str(&mut m, "\" を出力していません");
            push_issue(out, id, &m);
        }
        assert(issue_views(out@) =~= o + issue_if(
            !contains(p.hidden_tests@, TEST_OK_MARKER@),
            p.id@,
            msg_missing_ok_marker(),
        ));
        let ghost o2 = issue_views(out@);
        if !contains_str(&h, TEST_FAILED_MARKER) {
            let mut m = chars_of("hidden_tests が失敗の目印 \"");
            push_str(&mut m, TEST_FAILED_MARKER);
            push_str(&mut m, "\" を出力していません");
            push_issue(out, id, &m);
        }
        assert(issue_views(out@) =~= o2 + issue_if(
            !contains(p.hidden_tests@, TEST_FAILED_MARKER@),
            p.id@,
            msg_missing_failed_marker(),
        ));
        let ghost o3 = issue_views(out@);
        let names = distinct_check_names(p.hidden_tests.as_str());
        if names < 2 {
            let mut m = chars_of("hidden_tests の検査が ");
            let d = decimal_exec(names as u64);
            push_all(&mut m, &d);
            push_str(&mut m, " 件です (最低 2 件、うち 1 件は境界値)");
            push_issue(out, id, &m);
        }
        assert(issue_views(out@) =~= o3 + issue_if(
            check_names(p.hidden_tests@).len() < 2,
            p.id@,
            msg_check_count(check_names(p.hidden_tests@).len()),
        ));
        assert(issue_views(out@) =~= issue_views(old(out)@) + hidden_test_issues(*p));
    }
}

/// A problem id of `level`: its prefix letter and three digits (`b001`).
pub open spec fn id_well_formed(id: Seq<char>, level: Level) -> bool {
    id.len() == 4 && id[0] == level.spec_id_prefix() && is_digit(id[1]) && is_digit(id[2])
        && is_digit(id[3])
}

/// The title (`by_title`) or the answer code of `p`.
pub open spec fn problem_field(p: Problem, by_title: bool) -> Seq<char> {
    if by_title {
        p.title@
    } else {
        p.answer_code@
    }
}

/// Index of the last problem of `ps` whose title (or answer code) is `v`.
pub open spec fn last_index_with(ps: Seq<Problem>, by_title: bool, v: Seq<char>) -> Option<int>
    decreases ps.len(),
{
    if ps.len() == 0 {
        None
    } else if problem_field(ps.last(), by_title) == v {
        Some(ps.len() - 1)
    } else {
        last_index_with(ps.drop_last(), by_title, v)
    }
}

/// Some problem of `ps` has id `id`.
pub open spec fn id_seen(ps: Seq<Problem>, id: Seq<char>) -> bool {
    exists|j: int| 0 <= j < ps.len() && (#[trigger] ps[j]).id@ == id
}

pub open spec fn msg_count(n: nat, expected: nat) -> Seq<char> {
    "問題数が "@ + decimal(n) + " 件です (期待 "@ + decimal(expected) + " 件)"@
}

pub open spec fn msg_bad_id(level: Level) -> Seq<char> {
    "id の形式が不正です (期待: "@ + seq![level.spec_id_prefix()] + "NNN)"@
}

pub open spec fn msg_language(found: Language, expected: Language) -> Seq<char> {
    "language ("@ + found.spec_slug() + ") がファイルの言語 ("@ + expected.spec_slug()
        + ") と一致しません"@
}

pub open spec fn msg_short(n: nat) -> Seq<char> {
    "description_md が短すぎます ("@ + decimal(n) + " 文字 / 最低 "@ + decimal(
        MIN_DESCRIPTION_CHARS as nat,
    ) + ")"@
}

pub open spec fn msg_dup_title(other: Seq<char>, title: Seq<char>) -> Seq<char> {
    "title が "@ + other + " と重複しています: 「"@ + title + "」"@
}

pub open spec fn msg_dup_answer(other: Seq<char>) -> Seq<char> {
    "answer_code が "@ + other + " と完全に同一です"@
}

/// Issues for the blank fields among the title, the statement and the starter code.
pub open spec fn blank_statement_issues(p: Problem) -> Seq<(Seq<char>, Seq<char>)> {
    issue_if(all_ws(p.title@), p.id@, "title"@ + " が空です"@) + issue_if(
        all_ws(p.description_md@),
        p.id@,
        "description_md"@ + " が空です"@,
    ) + issue_if(all_ws(p.starter_code@), p.id@, "starter_code"@ + " が空です"@)
}

/// Issues for the blank fields among the hidden tests, the answer and the explanation.
pub open spec fn blank_solution_issues(p: Problem) -> Seq<(Seq<char>, Seq<char>)> {
    issue_if(all_ws(p.hidden_tests@), p.id@, "hidden_tests"@ + " が空です"@) + issue_if(
        all_ws(p.answer_code@),
        p.id@,
        "answer_code"@ + " が空です"@,
    ) + issue_if(all_ws(p.explanation_md@), p.id@, "explanation_md"@ + " が空です"@)
}

/// Issues for the text fields that are blank, in the order of the fields.
pub open spec fn empty_field_issues(p: Problem) -> Seq<(Seq<char>, Seq<char>)> {
    blank_statement_issues(p) + blank_solution_issues(p)
}

/// Issue about the earlier problem with the same title (or answer), if any.
pub open spec fn duplicate_issue(prefix: Seq<Problem>, p: Problem, by_title: bool) -> Seq<
    (Seq<char>, Seq<char>),
> {
    match last_index_with(prefix, by_title, problem_field(p, by_title)) {
        Some(j) => seq![
            (p.id@, if by_title {
                msg_dup_title(prefix[j].id@, p.title@)
            } else {
                msg_dup_answer(prefix[j].id@)
            }),
        ],
        None => seq![],
    }
}

/// Issues about the id, language and level of `p`.
#[verifier::opaque]
pub open spec fn identity_issues(
    prefix: Seq<Problem>,
    p: Problem,
    language: Language,
    level: Level,
) -> Seq<(Seq<char>, Seq<char>)> {
    issue_if(id_seen(prefix, p.id@), p.id@, "id が重複しています"@) + issue_if(
        !id_well_formed(p.id@, level),
        p.id@,
        msg_bad_id(level),
    ) + issue_if(p.language != language, p.id@, msg_language(p.language, language)) + issue_if(
        p.level != level,
        p.id@,
        "level がファイルの難易度と一致しません"@,
    )
}

/// Issues about the content of `p` on its own.
#[verifier::opaque]
pub open spec fn content_issues(p: Problem) -> Seq<(Seq<char>, Seq<char>)> {
    empty_field_issues(p) + issue_if(
        p.starter_code@ == p.answer_code@,
        p.id@,
        "starter_code と answer_code が同一です"@,
    ) + issue_if(
        p.description_md@.len() < MIN_DESCRIPTION_CHARS,
        p.id@,
        msg_short(p.description_md@.len()),
    ) + hidden_test_issues(p)
}

/// The issues of `p`, given the problems before it in the same file.
#[verifier::opaque]
pub open spec fn problem_issues(
    prefix: Seq<Problem>,
    p: Problem,
    language: Language,
    level: Level,
) -> Seq<(Seq<char>, Seq<char>)> {
    identity_issues(prefix, p, language, level) + content_issues(p) + duplicate_issue(
        prefix,
        p,
        true,
    ) + duplicate_issue(prefix, p, false)
}

/// The issues of all problems of one file, in order.
pub open spec fn static_issues(ps: Seq<Problem>, language: Language, level: Level) -> Seq<
    (Seq<char>, Seq<char>),
>
    decreases ps.len(),
{
    if ps.len() == 0 {
        seq![]
    } else {
        static_issues(ps.drop_last(), language, level) + problem_issues(
            ps.drop_last(),
            ps.last(),
            language,
            level,
        )
    }
}

/// The issue about the number of problems, when a number is expected.
pub open spec fn count_issue(ps: Seq<Problem>, expected_count: Option<usize>) -> Seq<
    (Seq<char>, Seq<char>),
> {
    match expected_count {
        Some(n) => issue_if(ps.len() != n, "-"@, msg_count(ps.len(), n as nat)),
        None => seq![],
    }
}

/// The count issue (when a count is expected), then the issues of every problem.
pub open spec fn spec_validate_static(
    ps: Seq<Problem>,
    language: Language,
    level: Level,
    expected_count: Option<usize>,
) -> Seq<(Seq<char>, Seq<char>)> {
    count_issue(ps, expected_count) + static_issues(ps, language, level)
}

fn id_seen_exec(problems: &[Problem], i: usize, id: &Vec<char>) -> (b: bool)
    requires
        i <= problems@.len(),
    ensures
        b == id_seen(problems@.take(i as int), id@),
{
    let mut j: usize = 0;
    while j < i
        invariant
            i <= problems@.len(),
            j <= i,
            forall|k: int| 0 <= k < j ==> problems@[k].id@ != id@,
        decreases i - j,
    {
        let other = chars_of(problems[j].id.as_str());
        if vec_eq(&other, id) {
            assert(problems@.take(i as int)[j as int] == problems@[j as int]);
            return true;
        }
        j += 1;
    }
    assert forall|k: int| 0 <= k < i implies (#[trigger] problems@.take(i as int)[k]).id@
        != id@ by {
        assert(problems@.take(i as int)[k] == problems@[k]);
    }
    false
}

fn field_chars(p: &Problem, by_title: bool) -> (v: Vec<char>)
    ensures
        v@ == problem_field(*p, by_title),
{
    if by_title {
        chars_of(p.title.as_str())
    } else {
        chars_of(p.answer_code.as_str())
    }
}

fn last_index_with_exec(problems: &[Problem], i: usize, by_title: bool, v: &Vec<char>) -> (r:
    Option<usize>)
    requires
        i <= problems@.len(),
    ensures
        match r {
            Some(j) => j < i && last_index_with(problems@.take(i as int), by_title, v@) == Some(
                j as int,
            ),
            None => last_index_with(problems@.take(i as int), by_title, v@) is None,
        },
{
    let mut k = i;
    while k > 0
        invariant
            i <= problems@.len(),
            k <= i,
            last_index_with(problems@.take(i as int), by_title, v@) == last_index_with(
                problems@.take(k as int),
                by_title,
                v@,
            ),
        decreases k,
    {
        let f = field_chars(&problems[k - 1], by_title);
        assert(problems@.take(k as int).last() == problems@[k - 1]);
        assert(problems@.take(k as int).drop_last() =~= problems@.take(k - 1));
        if vec_eq(&f, v) {
            return Some(k - 1);
        }
        k -= 1;
    }
    None
}

fn push_if(out: &mut Vec<ProblemIssue>, cond: bool, id: &str, msg: &Vec<char>)
    ensures
        issue_views(final(out)@) == issue_views(old(out)@) + issue_if(cond, id@, msg@),
{
    if cond {
        push_issue(out, id, msg);
    } else {
        assert(issue_views(out@) =~= issue_views(old(out)@) + issue_if(cond, id@, msg@));
    }
}

fn literal_chars(s: &str) -> (v: Vec<char>)
    ensures
        v@ == s@,
{
    chars_of(s)
}

fn blank_field_issue(out: &mut Vec<ProblemIssue>, id: &str, field: &String, name: &str)
    ensures
        issue_views(final(out)@) == issue_views(old(out)@) + issue_if(
            all_ws(field@),
            id@,
            name@ + " が空です"@,
        ),
{
    let mut m = chars_of(name);
    push_str(&mut m, " が空です");
    push_if(out, is_blank(&chars_of(field.as_str())), id, &m);
}

fn blank_statement_issues_exec(p: &Problem, out: &mut Vec<ProblemIssue>)
    ensures
        issue_views(final(out)@) == issue_views(old(out)@) + blank_statement_issues(*p),
{
    let id = p.id.as_str();
    let ghost o = issue_views(out@);
    blank_field_issue(out, id, &p.title, "title");
    blank_field_issue(out, id, &p.description_md, "description_md");
    blank_field_issue(out, id, &p.starter_code, "starter_code");
    assert(issue_views(out@) =~= o + blank_statement_issues(*p));
}

fn blank_solution_issues_exec(p: &Problem, out: &mut Vec<ProblemIssue>)
    ensures
        issue_views(final(out)@) == issue_views(old(out)@) + blank_solution_issues(*p),
{
    let id = p.id.as_str();
    let ghost o = issue_views(out@);
    blank_field_issue(out, id, &p.hidden_tests, "hidden_tests");
    blank_field_issue(out, id, &p.answer_code, "answer_code");
    blank_field_issue(out, id, &p.explanation_md, "explanation_md");
    assert(issue_views(out@) =~= o + blank_solution_issues(*p));
}

fn empty_field_issues_exec(p: &Problem, out: &mut Vec<ProblemIssue>)
    ensures
        issue_views(final(out)@) == issue_views(old(out)@) + empty_field_issues(*p),
{
    let ghost o = issue_views(out@);
    blank_statement_issues_exec(p, out);
    blank_solution_issues_exec(p, out);
    assert(issue_views(out@) =~= o + empty_field_issues(*p));
}

fn duplicate_issue_exec(problems: &[Problem], i: usize, by_title: bool, out: &mut Vec<ProblemIssue>)
    requires
        i < problems@.len(),
    ensures
        issue_views(final(out)@) == issue_views(old(out)@) + duplicate_issue(
            problems@.take(i as int),
            problems@[i as int],
            by_title,
        ),
{
    let p = &problems[i];
    let f = field_chars(p, by_title);
    match last_index_with_exec(problems, i, by_title, &f) {
        Some(j) => {
            assert(problems@.take(i as int)[j as int] == problems@[j as int]);
            let mut m: Vec<char>;
            if by_title {
                m = chars_of("title が ");
                push_str(&mut m, problems[j].id.as_str());
                push_str(&mut m, " と重複しています: 「");
                push_str(&mut m, p.title.as_str());
                push_str(&mut m, "」");
            } else {
                m = chars_of("answer_code が ");
                push_str(&mut m, problems[j].id.as_str());
                push_str(&mut m, " と完全に同一です");
            }
            push_issue(out, p.id.as_str(), &m);
            assert(issue_views(out@) =~= issue_views(old(out)@) + duplicate_issue(
                problems@.take(i as int),
                problems@[i as int],
                by_title,
            ));
        },
        None => {
            assert(issue_views(out@) =~= issue_views(old(out)@) + duplicate_issue(
                problems@.take(i as int),
                problems@[i as int],
                by_title,
            ));
        },
    }
}

fn identity_issues_exec(
    problems: &[Problem],
    i: usize,
    language: Language,
    level: Level,
    out: &mut Vec<ProblemIssue>,
)
    requires
        i < problems@.len(),
    ensures
        issue_views(final(out)@) == issue_views(old(out)@) + identity_issues(
            problems@.take(i as int),
            problems@[i as int],
            language,
            level,
        ),
{
    proof {
        reveal(identity_issues);
    }
    let p = &problems[i];
    let id = p.id.as_str();
    let idv = chars_of(id);
    let ghost o = issue_views(out@);
    push_if(out, id_seen_exec(problems, i, &idv), id, &literal_chars("id が重複しています"));
    let prefix = level.id_prefix();
    let well_formed = idv.len() == 4 && idv[0] == prefix && '0' <= idv[1] && idv[1] <= '9' && '0'
        <= idv[2] && idv[2] <= '9' && '0' <= idv[3] && idv[3] <= '9';
    let mut m = chars_of("id の形式が不正です (期待: ");
    m.push(prefix);
    push_str(&mut m, "NNN)");
    assert(well_formed == id_well_formed(p.id@, level));
    assert(m@ =~= msg_bad_id(level));
    push_if(out, !well_formed, id, &m);
    let mut m = chars_of("language (");
    push_str(&mut m, p.language.slug());
    push_str(&mut m, ") がファイルの言語 (");
    push_str(&mut m, language.slug());
    push_str(&mut m, ") と一致しません");
    assert(m@ =~= msg_language(p.language, language));
    push_if(out, p.language != language, id, &m);
    push_if(out, p.level != level, id, &literal_chars("level がファイルの難易度と一致しません"));
    assert(issue_views(out@) =~= o + identity_issues(
        problems@.take(i as int),
        problems@[i as int],
        language,
        level,
    ));
}

fn short_description_message(n: usize) -> (m: Vec<char>)
    ensures
        m@ == msg_short(n as nat),
{
    let mut m = chars_of("description_md が短すぎます (");
    let d = decimal_exec(n as u64);
    push_all(&mut m, &d);
    push_str(&mut m, " 文字 / 最低 ");
    let d80 = decimal_exec(MIN_DESCRIPTION_CHARS as u64);
    push_all(&mut m, &d80);
    push_str(&mut m, ")");
    assert(m@ =~= msg_short(n as nat));
    m
}

fn content_issues_exec(p: &Problem, out: &mut Vec<ProblemIssue>)
    ensures
        issue_views(final(out)@) == issue_views(old(out)@) + content_issues(*p),
{
    proof {
        reveal(content_issues);
    }
    let id = p.id.as_str();
    let ghost o = issue_views(out@);
    empty_field_issues_exec(p, out);
    let ghost o1 = issue_views(out@);
    let same = vec_eq(&chars_of(p.starter_code.as_str()), &chars_of(p.answer_code.as_str()));
    push_if(out, same, id, &literal_chars("starter_code と answer_code が同一です"));
    let ghost o2 = issue_views(out@);
    let dlen = chars_of(p.description_md.as_str()).len();
    let m = short_description_message(dlen);
    push_if(out, dlen < MIN_DESCRIPTION_CHARS, id, &m);
    let ghost o3 = issue_views(out@);
    hidden_test_issues_exec(p, out);
    proof {
        assert(o1 == o + empty_field_issues(*p));
        assert(issue_views(out@) == o3 + hidden_test_issues(*p));
        assert(issue_views(out@) =~= o + content_issues(*p));
    }
}

fn problem_issues_exec(
    problems: &[Problem],
    i: usize,
    language: Language,
    level: Level,
    out: &mut Vec<ProblemIssue>,
)
    requires
        i < problems@.len(),
    ensures
        issue_views(final(out)@) == issue_views(old(out)@) + problem_issues(
            problems@.take(i as int),
            problems@[i as int],
            language,
            level,
        ),
{
    proof {
        reveal(problem_issues);
    }
    let ghost o = issue_views(out@);
    identity_issues_exec(problems, i, language, level, out);
    content_issues_exec(&problems[i], out);
    duplicate_issue_exec(problems, i, true, out);
    duplicate_issue_exec(problems, i, false, out);
    assert(issue_views(out@) =~= o + problem_issues(
        problems@.take(i as int),
        problems@[i as int],
        language,
        level,
    ));
}

/// Checks that need no run, with an optional expected number of problems: ids unique and
/// well formed, language and level as the file's path says, no blank field, starter and
/// answer different, a long enough statement, hidden tests that meet the judging
/// contract, and no title or answer reused within the file.
pub fn validate_static_with_expected(
    problems: &[Problem],
    expected_language: Language,
    expected_level: Level,
    expected_count: Option<usize>,
) -> (issues: Vec<ProblemIssue>)
    ensures
        issue_views(issues@) == spec_validate_static(
            problems@,
            expected_language,
            expected_level,
            expected_count,
        ),
{
    let mut out: Vec<ProblemIssue> = Vec::new();
    match expected_count {
        Some(n) => {
            if problems.len() != n {
                let mut m = chars_of("問題数が ");
                let d = decimal_exec(problems.len() as u64);
                push_all(&mut m, &d);
                push_str(&mut m, " 件です (期待 ");
                let e = decimal_exec(n as u64);
                push_all(&mut m, &e);
                push_str(&mut m, " 件)");
                push_issue(&mut out, "-", &m);
            }
        },
        None => {},
    }
    let ghost head = issue_views(out@);
    proof {
        assert(head =~= count_issue(problems@, expected_count));
        assert(problems@.take(0) =~= Seq::<Problem>::empty());
        assert(head + static_issues(problems@.take(0), expected_language, expected_level) =~= head);
    }
    let mut i: usize = 0;
    while i < problems.len()
        invariant
            i <= problems@.len(),
            issue_views(out@) == head + static_issues(
                problems@.take(i as int),
                expected_language,
                expected_level,
            ),
        decreases problems.len() - i,
    {
        problem_issues_exec(problems, i, expected_language, expected_level, &mut out);
        proof {
            assert(problems@.take(i + 1).drop_last() =~= problems@.take(i as int));
            assert(problems@.take(i + 1).last() == problems@[i as int]);
        }
        i += 1;
    }
    assert(problems@.take(problems.len() as int) =~= problems@);
    out
}

/// `validate_static_with_expected` without a count check.
pub fn validate_static(
    problems: &[Problem],
    expected_language: Language,
    expected_level: Level,
) -> (issues: Vec<ProblemIssue>)
    ensures
        issue_views(issues@) == spec_validate_static(
            problems@,
            expected_language,
            expected_level,
            None,
        ),
{
    validate_static_with_expected(problems, expected_language, expected_level, None)
}

/// The message for a title shared with `prev` of another level.
pub open spec fn msg_cross_title(prev: Problem, title: Seq<char>) -> Seq<char> {
    "title が "@ + prev.id@ + " ("@ + prev.level.spec_label_ja() + ") と重複しています: 「"@ + title
        + "」"@
}

/// The message for an answer shared with `prev` of another level.
pub open spec fn msg_cross_answer(prev: Problem) -> Seq<char> {
    "answer_code が "@ + prev.id@ + " ("@ + prev.level.spec_label_ja() + ") と完全に同一です"@
}

/// The issue about the latest earlier problem with the same title (or answer) as `p`,
/// when that problem is of another level.
pub open spec fn cross_level_issue(prefix: Seq<Problem>, p: Problem, by_title: bool) -> Seq<
    (Seq<char>, Seq<char>),
> {
    match last_index_with(prefix, by_title, problem_field(p, by_title)) {
        Some(j) => issue_if(
            prefix[j].level != p.level,
            p.id@,
            if by_title {
                msg_cross_title(prefix[j], p.title@)
            } else {
                msg_cross_answer(prefix[j])
            },
        ),
        None => seq![],
    }
}

/// The cross-level issues of all problems, in order: for each problem, its title issue
/// then its answer issue.
pub open spec fn across_levels_issues(ps: Seq<Problem>) -> Seq<(Seq<char>, Seq<char>)>
    decreases ps.len(),
{
    if ps.len() == 0 {
        seq![]
    } else {
        across_levels_issues(ps.drop_last()) + cross_level_issue(ps.drop_last(), ps.last(), true)
            + cross_level_issue(ps.drop_last(), ps.last(), false)
    }
}

fn cross_level_issue_exec(problems: &[Problem], i: usize, by_title: bool, out: &mut Vec<ProblemIssue>)
    requires
        i < problems@.len(),
    ensures
        issue_views(final(out)@) == issue_views(old(out)@) + cross_level_issue(
            problems@.take(i as int),
            problems@[i as int],
            by_title,
        ),
{
    let p = &problems[i];
    let f = field_chars(p, by_title);
    match last_index_with_exec(problems, i, by_title, &f) {
        Some(j) => {
            assert(problems@.take(i as int)[j as int] == problems@[j as int]);
            let prev = &problems[j];
            let mut m: Vec<char>;
            if by_title {
                m = chars_of("title が ");
                push_str(&mut m, prev.id.as_str());
                push_str(&mut m, " (");
                push_str(&mut m, prev.level.label_ja());
                push_str(&mut m, ") と重複しています: 「");
                push_str(&mut m, p.title.as_str());
                push_str(&mut m, "」");
            } else {
                m = chars_of("answer_code が ");
                push_str(&mut m, prev.id.as_str());
                push_str(&mut m, " (");
                push_str(&mut m, prev.level.label_ja());
                push_str(&mut m, ") と完全に同一です");
            }
            push_if(out, prev.level != p.level, p.id.as_str(), &m);
        },
        None => {
            assert(issue_views(out@) =~= issue_views(old(out)@) + cross_level_issue(
                problems@.take(i as int),
                problems@[i as int],
                by_title,
            ));
        },
    }
}

/// Checks problems of several levels together for a title or an answer that a problem of
/// another level already has: the same exercise must not be asked twice. Each problem is
/// compared with the latest earlier problem that has the same title (or answer).
pub fn validate_across_levels(problems: &[Problem]) -> (issues: Vec<ProblemIssue>)
    ensures
        issue_views(issues@) == across_levels_issues(problems@),
{
    let mut out: Vec<ProblemIssue> = Vec::new();
    assert(problems@.take(0) =~= Seq::<Problem>::empty());
    assert(issue_views(out@) =~= across_levels_issues(problems@.take(0)));
    let mut i: usize = 0;
    while i < problems.len()
        invariant
            i <= problems@.len(),
            issue_views(out@) == across_levels_issues(problems@.take(i as int)),
        decreases problems.len() - i,
    {
        cross_level_issue_exec(problems, i, true, &mut out);
        cross_level_issue_exec(problems, i, false, &mut out);
        proof {
            assert(problems@.take(i + 1).drop_last() =~= problems@.take(i as int));
            assert(problems@.take(i + 1).last() == problems@[i as int]);
        }
        i += 1;
    }
    assert(problems@.take(problems.len() as int) =~= problems@);
    out
}

} // verus!
