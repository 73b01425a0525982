//! The learner's session: how a judged run moves a problem's status, how drafts are kept
//! and found again, and how the workbench moves between problems.
use vstd::prelude::*;
use crate::language::Language;
use crate::playground::Outcome;
use crate::problem::{Level, Problem};
use crate::progress::{
    ProblemStatus, ProgressEntry, ProgressMap, StatusFilter, law_progress_key_injective,
    progress_key, saved_code_of, spec_progress_key, spec_status_of, status_of,
};
use crate::text::{all_ws, chars_of, decimal, decimal_exec, is_blank, push_all, push_str, string_of};
use crate::text::vec_eq;

verus! {

/// The status after a run judged `outcome`: a pass makes it Passed, anything else makes
/// it Attempted, and a problem once passed stays passed.
pub open spec fn spec_next_status(current: ProblemStatus, outcome: Outcome) -> ProblemStatus {
    if outcome == Outcome::Passed || current == ProblemStatus::Passed {
        ProblemStatus::Passed
    } else {
        ProblemStatus::Attempted
    }
}

/// The status after a run judged `outcome`.
pub fn next_status(current: ProblemStatus, outcome: Outcome) -> (s: ProblemStatus)
    ensures
        s == spec_next_status(current, outcome),
{
    match (current, outcome) {
        (_, Outcome::Passed) => ProblemStatus::Passed,
        (ProblemStatus::Passed, _) => ProblemStatus::Passed,
        _ => ProblemStatus::Attempted,
    }
}

/// A status never goes down: only a pass reaches Passed, and Passed is never left; every
/// judged run leaves the problem at least Attempted.
pub proof fn law_status_never_downgrades(current: ProblemStatus, outcome: Outcome)
    ensures
        current == ProblemStatus::Passed ==> spec_next_status(current, outcome)
            == ProblemStatus::Passed,
        spec_next_status(current, outcome) == ProblemStatus::Passed <==> (outcome
            == Outcome::Passed || current == ProblemStatus::Passed),
        spec_next_status(current, outcome) != ProblemStatus::Unanswered,
{
}

/// The code the editor shows for `p`: its saved draft, else its starter code.
pub open spec fn spec_code_for(p: Problem, m: Map<Seq<char>, ProgressEntry>) -> Seq<char> {
    let k = spec_progress_key(p);
    if m.contains_key(k) && m[k].saved_code is Some {
        m[k].saved_code->0@
    } else {
        p.starter_code@
    }
}

/// The code the editor shows for `p`. Drafts are looked up under the language-scoped key
/// only: a bare id would mix the drafts of the languages that share it.
pub fn code_for(p: &Problem, map: &ProgressMap) -> (c: String)
    ensures
        c@ == spec_code_for(*p, map@),
{
    match saved_code_of(map, p) {
        Some(c) => string_of(&chars_of(c)),
        None => string_of(&chars_of(p.starter_code.as_str())),
    }
}

/// Whether `code` is worth keeping as a draft of `p`: not blank, not the starter code.
pub open spec fn draft_kept(p: Problem, code: Seq<char>) -> bool {
    !all_ws(code) && code != p.starter_code@
}

/// The progress after saving `code` as the draft of `p` at `now_ms`.
pub open spec fn spec_save_draft(
    m: Map<Seq<char>, ProgressEntry>,
    p: Problem,
    code: String,
    now_ms: u64,
) -> Map<Seq<char>, ProgressEntry> {
    m.insert(
        spec_progress_key(p),
        ProgressEntry {
            status: spec_status_of(m, p),
            saved_code: if draft_kept(p, code@) {
                Some(code)
            } else {
                None
            },
            updated_at_ms: now_ms,
        },
    )
}

/// Saves the editor's `code` as the draft of `p`; a blank draft or the starter code
/// itself is stored as no draft. The status is kept.
pub fn save_draft(map: &mut ProgressMap, p: &Problem, code: String, now_ms: u64)
    ensures
        final(map)@ == spec_save_draft(old(map)@, *p, code, now_ms),
{
    let status = status_of(map, p);
    let keep = !is_blank(&chars_of(code.as_str())) && !vec_eq(
        &chars_of(code.as_str()),
        &chars_of(p.starter_code.as_str()),
    );
    let saved_code = if keep {
        Some(code)
    } else {
        None
    };
    let _ = map.insert(progress_key(p), ProgressEntry { status, saved_code, updated_at_ms: now_ms });
}

/// The progress after a run of `p` judged `outcome` at `now_ms`.
pub open spec fn spec_record_outcome(
    m: Map<Seq<char>, ProgressEntry>,
    p: Problem,
    outcome: Outcome,
    now_ms: u64,
) -> Map<Seq<char>, ProgressEntry> {
    let k = spec_progress_key(p);
    m.insert(
        k,
        ProgressEntry {
            status: spec_next_status(spec_status_of(m, p), outcome),
            saved_code: if m.contains_key(k) {
                m[k].saved_code
            } else {
                None
            },
            updated_at_ms: now_ms,
        },
    )
}

/// Records a judged run of `p`: the status moves as `next_status` says, the draft stays.
pub fn record_outcome(map: &mut ProgressMap, p: &Problem, outcome: Outcome, now_ms: u64)
    ensures
        final(map)@ == spec_record_outcome(old(map)@, *p, outcome, now_ms),
{
    let cur = status_of(map, p);
    let k = progress_key(p);
    let saved_code = match map.get(k.as_str()) {
        Some(e) => e.saved_code.clone(),
        None => None,
    };
    let entry = ProgressEntry {
        status: next_status(cur, outcome),
        saved_code,
        updated_at_ms: now_ms,
    };
    let _ = map.insert(k, entry);
}

/// Drafts come back as they were saved: after saving `code` for `p`, the editor shows
/// `code`, or the starter code when `code` was blank or the starter code itself. A draft
/// of another problem, in the same language or another, is left as it was; and a judged
/// run changes no draft.
pub proof fn law_draft_roundtrip(
    m: Map<Seq<char>, ProgressEntry>,
    p: Problem,
    q: Problem,
    code: String,
    now_ms: u64,
    outcome: Outcome,
)
    ensures
        spec_code_for(p, spec_save_draft(m, p, code, now_ms)) == if draft_kept(p, code@) {
            code@
        } else {
            p.starter_code@
        },
        (q.language != p.language || q.id@ != p.id@) ==> spec_code_for(
            q,
            spec_save_draft(m, p, code, now_ms),
        ) == spec_code_for(q, m),
        spec_code_for(p, spec_record_outcome(m, p, outcome, now_ms)) == spec_code_for(p, m),
{
    law_progress_key_injective(p, q);
}

/// Whether the answer tab may be shown: always once passed, else only after the learner
/// chose to reveal it.
pub fn answer_visible(status: ProblemStatus, revealed: bool) -> (b: bool)
    ensures
        b == (status == ProblemStatus::Passed || revealed),
{
    status == ProblemStatus::Passed || revealed
}

/// The CSS class and the mark of a status badge in the list.
pub fn status_badge_parts(status: ProblemStatus) -> (r: (&'static str, &'static str))
    ensures
        (r.0@, r.1@) == (match status {
            ProblemStatus::Passed => ("status-badge passed"@, "✓"@),
            ProblemStatus::Attempted => ("status-badge attempted"@, "△"@),
            ProblemStatus::Unanswered => ("status-badge unanswered"@, "・"@),
        }),
{
    match status {
        ProblemStatus::Passed => ("status-badge passed", "✓"),
        ProblemStatus::Attempted => ("status-badge attempted", "△"),
        ProblemStatus::Unanswered => ("status-badge unanswered", "・"),
    }
}

/// The filters of the list, in display order.
pub const STATUS_FILTERS: [StatusFilter; 4] = [
    StatusFilter::All,
    StatusFilter::OnlyUnanswered,
    StatusFilter::OnlyAttempted,
    StatusFilter::OnlyPassed,
];

/// The label of a filter button.
pub fn filter_label(f: StatusFilter) -> (s: &'static str)
    ensures
        s@ == (match f {
            StatusFilter::All => "すべて"@,
            StatusFilter::OnlyUnanswered => "未回答"@,
            StatusFilter::OnlyAttempted => "未正解"@,
            StatusFilter::OnlyPassed => "正解済"@,
        }),
{
    match f {
        StatusFilter::All => "すべて",
        StatusFilter::OnlyUnanswered => "未回答",
        StatusFilter::OnlyAttempted => "未正解",
        StatusFilter::OnlyPassed => "正解済",
    }
}

/// Index of the first problem of `ps` with id `id`.
pub open spec fn index_of_id(ps: Seq<Problem>, id: Seq<char>) -> Option<int>
    decreases ps.len(),
{
    if ps.len() == 0 {
        None
    } else {
        match index_of_id(ps.drop_last(), id) {
            Some(i) => Some(i),
            None => if ps.last().id@ == id {
                Some(ps.len() - 1)
            } else {
                None
            },
        }
    }
}

/// The problem `delta` places away from the one with id `current`, if both exist.
pub open spec fn spec_nav_target(ps: Seq<Problem>, current: Seq<char>, delta: int) -> Option<int> {
    match index_of_id(ps, current) {
        Some(i) => if 0 <= i + delta < ps.len() {
            Some(i + delta)
        } else {
            None
        },
        None => None,
    }
}

/// Where the previous / next buttons lead from the problem with id `current`.
pub fn nav_target(ps: &[Problem], current: &str, delta: i64) -> (r: Option<usize>)
    ensures
        match spec_nav_target(ps@, current@, delta as int) {
            Some(t) => r is Some && r.unwrap() as int == t,
            None => r is None,
        },
{
    let id = chars_of(current);
    let mut i: usize = 0;
    while i < ps.len()
        invariant
            i <= ps@.len(),
            index_of_id(ps@.take(i as int), current@) is None,
            id@ == current@,
        decreases ps.len() - i,
    {
        proof {
            assert(ps@.take(i + 1).drop_last() =~= ps@.take(i as int));
            assert(ps@.take(i + 1).last() == ps@[i as int]);
        }
        if vec_eq(&chars_of(ps[i].id.as_str()), &id) {
            proof {
                lemma_index_of_id_prefix(ps@, current@, i as int + 1);
            }
            let target = i as i128 + delta as i128;
            if 0 <= target && target < ps.len() as i128 {
                return Some(target as usize);
            }
            return None;
        }
        i += 1;
    }
    assert(ps@.take(ps@.len() as int) =~= ps@);
    None
}

proof fn lemma_index_of_id_prefix(ps: Seq<Problem>, id: Seq<char>, n: int)
    requires
        0 <= n <= ps.len(),
        index_of_id(ps.take(n), id) is Some,
    ensures
        index_of_id(ps, id) == index_of_id(ps.take(n), id),
    decreases ps.len() - n,
{
    if n < ps.len() {
        assert(ps.take(n + 1).drop_last() =~= ps.take(n));
        lemma_index_of_id_prefix(ps, id, n + 1);
    } else {
        assert(ps.take(n) =~= ps);
    }
}

/// Whether the workbench must pick a problem: none is selected, or the selected one is
/// not of the language and level shown.
pub fn needs_selection(selected: Option<&Problem>, language: Language, level: Level) -> (b: bool)
    ensures
        b == match selected {
            None => true,
            Some(p) => p.level != level || p.language != language,
        },
{
    match selected {
        None => true,
        Some(p) => p.level != level || p.language != language,
    }
}

/// What the editor shows before any problem is chosen, as a comment of the language.
pub fn editor_placeholder(language: Language) -> (s: String)
    ensures
        s@ == language.spec_line_comment() + " 左の一覧から問題を選んでください"@,
{
    let mut v = chars_of(language.line_comment());
    push_str(&mut v, " 左の一覧から問題を選んでください");
    string_of(&v)
}

/// The progress line of the header (`3 / 100 問クリア`).
pub fn progress_label(passed: usize, total: usize) -> (s: String)
    ensures
        s@ == decimal(passed as nat) + " / "@ + decimal(total as nat) + " 問クリア"@,
{
    let mut v = decimal_exec(passed as u64);
    push_str(&mut v, " / ");
    let t = decimal_exec(total as u64);
    push_all(&mut v, &t);
    push_str(&mut v, " 問クリア");
    string_of(&v)
}

} // verus!
