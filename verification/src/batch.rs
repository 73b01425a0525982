//! Running the checks of problem files: which cases a batch runs, what a finished case
//! shows, and the verdict on each problem and on the whole run.
use vstd::prelude::*;
use crate::docker::{CaseKind, RunCase};
use crate::language::Language;
use crate::playground::TEST_OK_MARKER;
use crate::problem::{Problem, compose_submission, spec_compose_submission};
use crate::language::all_languages;
use crate::problem::{Level, all_levels, problems_rel_path, spec_problems_rel_path};
use crate::text::{
    chars_of, contains, contains_str, decimal, decimal_exec, is_digit, join, join_exec, lines,
    lines_exec, push_all, push_str, slice_exec, string_of, trim, trim_exec, views,
};
use crate::text::vec_eq;

verus! {

/// Whether a case ran its tests to the end and they all passed: exit status 0 and the
/// pass marker on stdout. The exit status alone cannot tell a run whose tests never ran.
pub fn case_passed(exit_code: i32, stdout: &str) -> (b: bool)
    ensures
        b == (exit_code == 0 && contains(stdout@, TEST_OK_MARKER@)),
{
    exit_code == 0 && contains_str(&chars_of(stdout), TEST_OK_MARKER)
}

/// A case as (problem id, kind, code).
pub open spec fn case_view(c: RunCase) -> (Seq<char>, CaseKind, Seq<char>) {
    (c.problem_id@, c.kind, c.code@)
}

/// The cases of a batch: for each problem in order, its answer then its starter code,
/// each followed by the hidden tests.
pub open spec fn spec_batch_cases(language: Language, ps: Seq<Problem>) -> Seq<
    (Seq<char>, CaseKind, Seq<char>),
>
    decreases ps.len(),
{
    if ps.len() == 0 {
        seq![]
    } else {
        let p = ps.last();
        spec_batch_cases(language, ps.drop_last()).push(
            (p.id@, CaseKind::Answer, spec_compose_submission(language, p.answer_code@, p.hidden_tests@)),
        ).push(
            (
                p.id@,
                CaseKind::Starter,
                spec_compose_submission(language, p.starter_code@, p.hidden_tests@),
            ),
        )
    }
}

fn copy_string(s: &String) -> (r: String)
    ensures
        r@ == s@,
{
    string_of(&chars_of(s.as_str()))
}

/// The cases to run for `problems` in `language`.
pub fn batch_cases(language: Language, problems: &[Problem]) -> (cases: Vec<RunCase>)
    ensures
        cases@.map_values(|c: RunCase| case_view(c)) == spec_batch_cases(language, problems@),
{
    let mut cases: Vec<RunCase> = Vec::new();
    let mut i: usize = 0;
    assert(problems@.take(0) =~= Seq::<Problem>::empty());
    assert(cases@.map_values(|c: RunCase| case_view(c)) =~= spec_batch_cases(
        language,
        problems@.take(0),
    ));
    while i < problems.len()
        invariant
            i <= problems@.len(),
            cases@.map_values(|c: RunCase| case_view(c)) == spec_batch_cases(
                language,
                problems@.take(i as int),
            ),
        decreases problems.len() - i,
    {
        let p = &problems[i];
        let ghost before = cases@.map_values(|c: RunCase| case_view(c));
        let answer = RunCase {
            problem_id: copy_string(&p.id),
            kind: CaseKind::Answer,
            code: compose_submission(language, p.answer_code.as_str(), p.hidden_tests.as_str()),
        };
        cases.push(answer);
        let starter = RunCase {
            problem_id: copy_string(&p.id),
            kind: CaseKind::Starter,
            code: compose_submission(language, p.starter_code.as_str(), p.hidden_tests.as_str()),
        };
        cases.push(starter);
        proof {
            assert(problems@.take(i + 1).drop_last() =~= problems@.take(i as int));
            assert(problems@.take(i + 1).last() == problems@[i as int]);
            assert(cases@.map_values(|c: RunCase| case_view(c)) =~= spec_batch_cases(
                language,
                problems@.take(i + 1),
            ));
        }
        i += 1;
    }
    assert(problems@.take(problems@.len() as int) =~= problems@);
    cases
}

/// The value of a run of decimal digits.
pub open spec fn digits_value(d: Seq<char>) -> nat
    decreases d.len(),
{
    if d.len() == 0 {
        0
    } else {
        digits_value(d.drop_last()) * 10 + (d.last() as int - '0' as int) as nat
    }
}

/// What `str::parse::<i32>` gives: an optional sign, then one or more decimal digits,
/// within the range of `i32`.
pub open spec fn spec_parse_i32(t: Seq<char>) -> Option<int> {
    let d = unsigned_part(t);
    if d.len() == 0 || !(forall|k: int| 0 <= k < d.len() ==> is_digit(#[trigger] d[k])) {
        None
    } else {
        let v: int = if t[0] == '-' {
            -(digits_value(d) as int)
        } else {
            digits_value(d) as int
        };
        if i32::MIN <= v <= i32::MAX {
            Some(v)
        } else {
            None
        }
    }
}

/// The digits that follow the optional sign.
pub open spec fn unsigned_part(t: Seq<char>) -> Seq<char> {
    if t.len() > 0 && (t[0] == '-' || t[0] == '+') {
        t.drop_first()
    } else {
        t
    }
}

proof fn lemma_parse_rejects(t: Seq<char>, j: int)
    requires
        0 <= j < unsigned_part(t).len(),
        !is_digit(unsigned_part(t)[j]) || digits_value(unsigned_part(t)) > 2147483648,
    ensures
        spec_parse_i32(t) is None,
{
    let d = unsigned_part(t);
    if !is_digit(d[j]) {
        assert(!(forall|k: int| 0 <= k < d.len() ==> is_digit(#[trigger] d[k])));
    }
}

proof fn lemma_digits_value_prefix(d: Seq<char>, i: int)
    requires
        0 <= i <= d.len(),
        forall|k: int| 0 <= k < d.len() ==> is_digit(#[trigger] d[k]),
    ensures
        digits_value(d.take(i)) <= digits_value(d),
    decreases d.len(),
{
    if i < d.len() {
        assert(d.drop_last().take(i) =~= d.take(i));
        lemma_digits_value_prefix(d.drop_last(), i);
    } else {
        assert(d.take(i) =~= d);
    }
}

proof fn lemma_digits_value_step(d: Seq<char>, i: int)
    requires
        0 <= i < d.len(),
    ensures
        digits_value(d.take(i + 1)) == digits_value(d.take(i)) * 10 + (d[i] as int - '0' as int) as nat,
{
    assert(d.take(i + 1).drop_last() =~= d.take(i));
    assert(d.take(i + 1).last() == d[i]);
}

/// The value of the digits `d`, when they are all digits and the value is at most 2^31.
fn digits_value_bounded(d: &Vec<char>) -> (r: Option<u64>)
    ensures
        match r {
            Some(v) => (forall|k: int| 0 <= k < d@.len() ==> is_digit(#[trigger] d@[k]))
                && v == digits_value(d@) && v <= 2147483648,
            None => !(forall|k: int| 0 <= k < d@.len() ==> is_digit(#[trigger] d@[k]))
                || digits_value(d@) > 2147483648,
        },
{
    let mut acc: u64 = 0;
    let mut i: usize = 0;
    assert(d@.take(0) =~= Seq::<char>::empty());
    while i < d.len()
        invariant
            i <= d@.len(),
            acc <= 2147483648,
            acc == digits_value(d@.take(i as int)),
            forall|k: int| 0 <= k < i ==> is_digit(#[trigger] d@[k]),
        decreases d.len() - i,
    {
        let c = d[i];
        if !('0' <= c && c <= '9') {
            assert(!is_digit(d@[i as int]));
            return None;
        }
        proof {
            lemma_digits_value_step(d@, i as int);
        }
        acc = acc * 10 + (c as u32 - '0' as u32) as u64;
        if acc > 2147483648 {
            proof {
                if forall|k: int| 0 <= k < d@.len() ==> is_digit(#[trigger] d@[k]) {
                    lemma_digits_value_prefix(d@, i + 1);
                }
            }
            return None;
        }
        i += 1;
    }
    assert(d@.take(d@.len() as int) =~= d@);
    Some(acc)
}

/// Parses a trimmed exit status.
fn parse_i32(t: &Vec<char>) -> (r: Option<i32>)
    ensures
        match spec_parse_i32(t@) {
            Some(v) => r == Some(v as i32),
            None => r is None,
        },
{
    let n = t.len();
    if n == 0 {
        return None;
    }
    let start: usize = if t[0] == '-' || t[0] == '+' {
        1
    } else {
        0
    };
    let digits = slice_exec(t, start, n);
    assert(digits@ =~= unsigned_part(t@));
    if digits.len() == 0 {
        return None;
    }
    match digits_value_bounded(&digits) {
        None => {
            proof {
                if !(forall|k: int| 0 <= k < digits@.len() ==> is_digit(#[trigger] digits@[k])) {
                    let j = choose|j: int| 0 <= j < digits@.len() && !is_digit(digits@[j]);
                    lemma_parse_rejects(t@, j);
                } else {
                    lemma_parse_rejects(t@, 0);
                }
            }
            None
        },
        Some(acc) => {
            if t[0] == '-' {
                let v = -(acc as i64);
                Some(v as i32)
            } else {
                if acc > 2147483647 {
                    return None;
                }
                Some(acc as i32)
            }
        },
    }
}

/// The exit status recorded in a case's `_exit` file, if the file exists and holds one.
pub open spec fn recorded_exit(exit: Option<Seq<char>>) -> Option<int> {
    match exit {
        Some(s) => spec_parse_i32(trim(s)),
        None => None,
    }
}

/// Parses the content of an `_exit` file (`s.trim().parse::<i32>()`).
pub fn parse_exit_code(s: &str) -> (r: Option<i32>)
    ensures
        match spec_parse_i32(trim(s@)) {
            Some(v) => r == Some(v as i32),
            None => r is None,
        },
{
    let t = trim_exec(&chars_of(s));
    parse_i32(&t)
}

/// An integer as `{}` prints it.
pub open spec fn signed_decimal(v: int) -> Seq<char> {
    if v < 0 {
        "-"@ + decimal((-v) as nat)
    } else {
        decimal(v as nat)
    }
}

fn signed_decimal_exec(v: i32) -> (r: Vec<char>)
    ensures
        r@ == signed_decimal(v as int),
{
    if v < 0 {
        let m = (-(v as i64)) as u64;
        let mut r = chars_of("-");
        let d = decimal_exec(m);
        push_all(&mut r, &d);
        proof {
            reveal_strlit("-");
        }
        r
    } else {
        decimal_exec(v as u64)
    }
}

/// The result of one case.
#[derive(Clone, Debug, PartialEq, Eq)]
pub struct CaseOutcome {
    pub problem_id: String,
    pub kind: CaseKind,
    /// Exit status 0 and the pass marker on stdout.
    pub passed: bool,
    pub output: String,
}

/// Shown for a case that left no exit status: a timeout or a failure of the container.
pub open spec fn no_result_message() -> Seq<char> {
    "実行結果が記録されていません (タイムアウトの可能性)"@
}

/// The output shown for a case that finished with `code`.
pub open spec fn spec_case_output(code: int, stdout: Seq<char>, stderr: Seq<char>) -> Seq<char> {
    "exit="@ + signed_decimal(code) + "\n--- stdout ---\n"@ + stdout + "\n--- stderr ---\n"@
        + stderr
}

/// What a finished case shows, from the files it left: the content of `_exit` (absent
/// when the file is missing), of `_stdout` and of `_stderr`. A case without a readable
/// exit status counts as failed, never as unchecked.
pub fn case_outcome(case: &RunCase, exit: Option<&str>, stdout: &str, stderr: &str) -> (o:
    CaseOutcome)
    ensures
        o.problem_id@ == case.problem_id@,
        o.kind == case.kind,
        match recorded_exit(
            match exit {
                Some(s) => Some(s@),
                None => None,
            },
        ) {
            None => !o.passed && o.output@ == no_result_message(),
            Some(code) => o.passed == (code == 0 && contains(stdout@, TEST_OK_MARKER@))
                && o.output@ == spec_case_output(code, stdout@, stderr@),
        },
{
    let code = match exit {
        Some(s) => parse_exit_code(s),
        None => None,
    };
    match code {
        None => CaseOutcome {
            problem_id: copy_string(&case.problem_id),
            kind: case.kind,
            passed: false,
            output: string_of(&chars_of("実行結果が記録されていません (タイムアウトの可能性)")),
        },
        Some(c) => {
            let mut out = chars_of("exit=");
            let d = signed_decimal_exec(c);
            push_all(&mut out, &d);
            push_str(&mut out, "\n--- stdout ---\n");
            push_str(&mut out, stdout);
            push_str(&mut out, "\n--- stderr ---\n");
            push_str(&mut out, stderr);
            CaseOutcome {
                problem_id: copy_string(&case.problem_id),
                kind: case.kind,
                passed: case_passed(c, stdout),
                output: string_of(&out),
            }
        },
    }
}

/// How many lines of a failing case's output are shown.
pub const TAIL_LINES: usize = 25;

/// The last `TAIL_LINES` lines of `s`, joined by line breaks.
pub open spec fn spec_tail(s: Seq<char>) -> Seq<char> {
    let ls = lines(s);
    join(
        ls.skip(
            if ls.len() > TAIL_LINES {
                ls.len() - TAIL_LINES
            } else {
                0
            },
        ),
        "\n"@,
    )
}

/// The end of a long output: its last lines.
pub fn tail(s: &str) -> (r: String)
    ensures
        r@ == spec_tail(s@),
{
    let ls = lines_exec(&chars_of(s));
    let start: usize = if ls.len() > TAIL_LINES {
        ls.len() - TAIL_LINES
    } else {
        0
    };
    let mut kept: Vec<Vec<char>> = Vec::new();
    let mut i = start;
    while i < ls.len()
        invariant
            start <= i <= ls.len(),
            views(kept@) == views(ls@).subrange(start as int, i as int),
        decreases ls.len() - i,
    {
        let line = slice_exec(&ls[i], 0, ls[i].len());
        assert(line@ =~= ls@[i as int]@);
        let ghost before = views(kept@);
        kept.push(line);
        assert(views(kept@) =~= before.push(line@));
        assert(views(kept@) =~= views(ls@).subrange(start as int, i + 1));
        i += 1;
    }
    assert(views(ls@).subrange(start as int, ls.len() as int) =~= views(ls@).skip(start as int));
    let r = join_exec(&kept, "\n");
    string_of(&r)
}

/// The verdict on one problem of a batch.
#[derive(Clone, Debug, PartialEq, Eq)]
pub enum ProblemVerdict {
    /// The answer passes and the starter code does not.
    Verified,
    /// The answer does not pass; the end of its output, or a note that it left none.
    AnswerFails(String),
    /// The starter code passes as it is.
    StarterPasses,
}

/// Some case of problem `id` of `kind` passed.
pub open spec fn has_passing(os: Seq<CaseOutcome>, id: Seq<char>, kind: CaseKind) -> bool {
    exists|k: int|
        0 <= k < os.len() && (#[trigger] os[k]).problem_id@ == id && os[k].kind == kind
            && os[k].passed
}

/// Index of the first answer case of problem `id`.
pub open spec fn first_answer(os: Seq<CaseOutcome>, id: Seq<char>, from: int) -> Option<int>
    decreases os.len() - from,
{
    if from < 0 || from >= os.len() {
        None
    } else if os[from].problem_id@ == id && os[from].kind == CaseKind::Answer {
        Some(from)
    } else {
        first_answer(os, id, from + 1)
    }
}

/// Shown when a problem's answer left no case result at all.
pub open spec fn no_case_message() -> Seq<char> {
    "(実行結果なし)"@
}

/// What is shown for a failing answer: the end of its first case's output.
pub open spec fn answer_detail(os: Seq<CaseOutcome>, id: Seq<char>) -> Seq<char> {
    match first_answer(os, id, 0) {
        Some(k) => spec_tail(os[k].output@),
        None => no_case_message(),
    }
}

fn first_answer_exec(outcomes: &[CaseOutcome], id: &Vec<char>) -> (r: Option<usize>)
    ensures
        match first_answer(outcomes@, id@, 0) {
            Some(k) => r is Some && r.unwrap() as int == k,
            None => r is None,
        },
        match r {
            Some(k) => k < outcomes@.len(),
            None => true,
        },
{
    let mut i: usize = outcomes.len();
    let mut found: Option<usize> = None;
    while i > 0
        invariant
            i <= outcomes@.len(),
            match found {
                Some(k) => i <= k < outcomes@.len() && first_answer(outcomes@, id@, i as int) == Some(k as int),
                None => first_answer(outcomes@, id@, i as int) is None,
            },
        decreases i,
    {
        i -= 1;
        let o = &outcomes[i];
        if o.kind == CaseKind::Answer && vec_eq(&chars_of(o.problem_id.as_str()), id) {
            found = Some(i);
        }
    }
    found
}

fn has_passing_exec(outcomes: &[CaseOutcome], id: &Vec<char>, kind: CaseKind) -> (b: bool)
    ensures
        b == has_passing(outcomes@, id@, kind),
{
    let mut i: usize = 0;
    while i < outcomes.len()
        invariant
            i <= outcomes@.len(),
            forall|k: int|
                0 <= k < i ==> !((#[trigger] outcomes@[k]).problem_id@ == id@ && outcomes@[k].kind
                    == kind && outcomes@[k].passed),
        decreases outcomes.len() - i,
    {
        let o = &outcomes[i];
        if o.passed && o.kind == kind && vec_eq(&chars_of(o.problem_id.as_str()), id) {
            return true;
        }
        i += 1;
    }
    false
}

/// What a local run of one side of a problem came to.
#[derive(Clone, Debug)]
pub enum LocalRun {
    /// It ran: whether its tests passed, and its output.
    Finished { passed: bool, output: String },
    /// It could not be run; why.
    Failed(String),
}

/// The next step in checking a Rust problem with the local toolchain, which runs the
/// answer, and the starter code only once the answer has passed.
#[derive(Clone, Debug)]
pub enum LocalCheckStep {
    /// Run this side of the problem next.
    Run(CaseKind),
    /// The answer passes and the starter code does not.
    Verified,
    /// The answer does not pass; the end of its output.
    AnswerFails(String),
    /// The starter code passes as it is.
    StarterPasses,
    /// A run could not be made; why.
    RunFailed(String),
}

/// A copy of the text of `s`.
fn copy_text(s: &String) -> (r: String)
    ensures
        r@ == s@,
{
    string_of(&chars_of(s.as_str()))
}

/// The step after what the runs of the answer and of the starter code gave so far (none
/// yet where `None`): the answer is run first and must pass; then the starter code is run
/// and must not pass; a run that could not be made ends the check.
pub fn local_check_step(answer: Option<&LocalRun>, starter: Option<&LocalRun>) -> (s: LocalCheckStep)
    ensures
        match answer {
            None => s matches LocalCheckStep::Run(k) && k == CaseKind::Answer,
            Some(LocalRun::Failed(e)) => s matches LocalCheckStep::RunFailed(m) && m@ == e@,
            Some(LocalRun::Finished { passed, output }) => if !*passed {
                s matches LocalCheckStep::AnswerFails(t) && t@ == spec_tail(output@)
            } else {
                match starter {
                    None => s matches LocalCheckStep::Run(k) && k == CaseKind::Starter,
                    Some(LocalRun::Failed(e)) => s matches LocalCheckStep::RunFailed(m) && m@
                        == e@,
                    Some(LocalRun::Finished { passed, .. }) => if *passed {
                        s is StarterPasses
                    } else {
                        s is Verified
                    },
                }
            },
        },
{
    match answer {
        None => LocalCheckStep::Run(CaseKind::Answer),
        Some(LocalRun::Failed(e)) => LocalCheckStep::RunFailed(copy_text(e)),
        Some(LocalRun::Finished { passed, output }) => {
            if !*passed {
                LocalCheckStep::AnswerFails(tail(output.as_str()))
            } else {
                match starter {
                    None => LocalCheckStep::Run(CaseKind::Starter),
                    Some(LocalRun::Failed(e)) => LocalCheckStep::RunFailed(copy_text(e)),
                    Some(LocalRun::Finished { passed, .. }) => if *passed {
                        LocalCheckStep::StarterPasses
                    } else {
                        LocalCheckStep::Verified
                    },
                }
            }
        },
    }
}

/// Judges problem `id` from the outcomes of its batch: its answer must have a passing
/// case, and its starter code none.
pub fn judge_problem(outcomes: &[CaseOutcome], id: &str) -> (v: ProblemVerdict)
    ensures
        !has_passing(outcomes@, id@, CaseKind::Answer) ==> (v matches ProblemVerdict::AnswerFails(
            d,
        ) && d@ == answer_detail(outcomes@, id@)),
        has_passing(outcomes@, id@, CaseKind::Answer) && has_passing(
            outcomes@,
            id@,
            CaseKind::Starter,
        ) ==> v == ProblemVerdict::StarterPasses,
        has_passing(outcomes@, id@, CaseKind::Answer) && !has_passing(
            outcomes@,
            id@,
            CaseKind::Starter,
        ) ==> v == ProblemVerdict::Verified,
{
    let idv = chars_of(id);
    if !has_passing_exec(outcomes, &idv, CaseKind::Answer) {
        let detail = match first_answer_exec(outcomes, &idv) {
            Some(k) => {
                let t = tail(outcomes[k].output.as_str());
                assert(t@ == spec_tail(outcomes@[k as int].output@));
                t
            },
            None => {
                let t = string_of(&chars_of("(実行結果なし)"));
                assert(first_answer(outcomes@, id@, 0) is None);
                assert(t@ == no_case_message());
                t
            },
        };
        assert(detail@ == answer_detail(outcomes@, id@));
        return ProblemVerdict::AnswerFails(detail);
    }
    if has_passing_exec(outcomes, &idv, CaseKind::Starter) {
        ProblemVerdict::StarterPasses
    } else {
        ProblemVerdict::Verified
    }
}

/// How many characters of a failed container's stderr are kept in its error.
pub const CONTAINER_STDERR_CHARS: usize = 500;

/// An exit status as `{:?}` prints an `Option<i32>`.
pub open spec fn debug_status(status: Option<i32>) -> Seq<char> {
    match status {
        Some(c) => "Some("@ + signed_decimal(c as int) + ")"@,
        None => "None"@,
    }
}

/// The error recorded for a container that did not exit successfully.
pub open spec fn spec_container_failure(image: Seq<char>, status: Option<i32>, stderr: Seq<char>) -> Seq<
    char,
> {
    "コンテナが異常終了しました (image="@ + image + ", status="@ + debug_status(status) + "): "@
        + stderr.take(
        if stderr.len() < CONTAINER_STDERR_CHARS {
            stderr.len() as int
        } else {
            CONTAINER_STDERR_CHARS as int
        },
    )
}

/// The error recorded for a container that exited with `status` (none when it was
/// killed by a signal), with the start of its stderr.
pub fn container_failure_message(image: &str, status: Option<i32>, stderr: &str) -> (m: String)
    ensures
        m@ == spec_container_failure(image@, status, stderr@),
{
    let mut v = chars_of("コンテナが異常終了しました (image=");
    push_str(&mut v, image);
    push_str(&mut v, ", status=");
    match status {
        Some(c) => {
            push_str(&mut v, "Some(");
            let d = signed_decimal_exec(c);
            push_all(&mut v, &d);
            push_str(&mut v, ")");
        },
        None => {
            push_str(&mut v, "None");
        },
    }
    push_str(&mut v, "): ");
    let e = chars_of(stderr);
    let n = if e.len() < CONTAINER_STDERR_CHARS {
        e.len()
    } else {
        CONTAINER_STDERR_CHARS
    };
    let head = slice_exec(&e, 0, n);
    push_all(&mut v, &head);
    proof {
        assert(head@ =~= stderr@.take(n as int));
        assert(v@ =~= spec_container_failure(image@, status, stderr@));
    }
    string_of(&v)
}

/// What one batch run produced.
#[derive(Debug)]
pub struct BatchReport {
    pub outcomes: Vec<CaseOutcome>,
    pub container_runs: usize,
    pub errors: Vec<String>,
}

impl Default for BatchReport {
    fn default() -> (r: Self)
        ensures
            r.outcomes@.len() == 0,
            r.container_runs == 0,
            r.errors@.len() == 0,
    {
        BatchReport { outcomes: Vec::new(), container_runs: 0, errors: Vec::new() }
    }
}

/// The verdict on a whole run of checks.
#[derive(Clone, Copy, Debug, PartialEq, Eq, Structural)]
pub enum RunVerdict {
    /// At least one problem checked, the expected number if one was given, none failed.
    Success,
    /// No problem was checked at all (a wrong path, say): never a success.
    NothingVerified,
    /// The number of checked problems is not the expected one.
    CountMismatch { expected: usize, actual: usize },
    /// Some problem failed a check.
    ProblemsFound,
}

pub open spec fn spec_run_verdict(verified: usize, failed: usize, expect: Option<usize>) -> RunVerdict {
    if verified == 0 {
        RunVerdict::NothingVerified
    } else if expect is Some && expect->0 != verified {
        RunVerdict::CountMismatch { expected: expect->0, actual: verified }
    } else if failed == 0 {
        RunVerdict::Success
    } else {
        RunVerdict::ProblemsFound
    }
}

/// Decides a run from its counts: `verified` problems checked, `failed` issues found,
/// and the expected number of problems, if given.
pub fn run_verdict(verified: usize, failed: usize, expect: Option<usize>) -> (v: RunVerdict)
    ensures
        v == spec_run_verdict(verified, failed, expect),
{
    if verified == 0 {
        return RunVerdict::NothingVerified;
    }
    match expect {
        Some(n) => {
            if n != verified {
                return RunVerdict::CountMismatch { expected: n, actual: verified };
            }
        },
        None => {},
    }
    if failed == 0 {
        RunVerdict::Success
    } else {
        RunVerdict::ProblemsFound
    }
}

/// The verdict of a run: it succeeds exactly when some problem was checked, the count is
/// the expected one where one was given, and nothing failed; any failure found in a run
/// of the expected size is reported as such, never as a success; a run that checked
/// nothing never succeeds; and a count mismatch names both counts.
pub proof fn law_run_verdict(verified: usize, failed: usize, expect: Option<usize>)
    ensures
        spec_run_verdict(verified, failed, expect) is Success <==> (verified > 0 && failed == 0
            && (expect is None || expect == Some(verified))),
        spec_run_verdict(verified, failed, expect) is ProblemsFound <==> (verified > 0 && failed
            > 0 && (expect is None || expect == Some(verified))),
        spec_run_verdict(verified, failed, expect) is NothingVerified <==> verified == 0,
        spec_run_verdict(verified, failed, expect) is CountMismatch <==> (verified > 0
            && expect is Some && expect != Some(verified)),
        spec_run_verdict(verified, failed, expect) matches RunVerdict::CountMismatch {
            expected,
            actual,
        } ==> expect == Some(expected) && actual == verified,
        failed > 0 ==> !(spec_run_verdict(verified, failed, expect) is Success),
{
}

/// One problem file to check.
#[derive(Clone, Debug)]
pub struct Job {
    pub path: String,
    pub language: Language,
    pub level: Level,
}

/// A job as (path, language, level).
pub open spec fn job_view(j: Job) -> (Seq<char>, Language, Level) {
    (j.path@, j.language, j.level)
}

/// The jobs of `language` for each of `levels`, at the files' usual paths.
pub open spec fn level_jobs(language: Language, levels: Seq<Level>) -> Seq<(Seq<char>, Language, Level)> {
    levels.map_values(|v: Level| (spec_problems_rel_path(language, v), language, v))
}

/// The jobs of every language of `langs` (in order) at every level of `levels`.
pub open spec fn job_grid(langs: Seq<Language>, levels: Seq<Level>) -> Seq<(Seq<char>, Language, Level)>
    decreases langs.len(),
{
    if langs.len() == 0 {
        seq![]
    } else {
        job_grid(langs.drop_last(), levels) + level_jobs(langs.last(), levels)
    }
}

/// Refusal of a file given without both its language and its level.
pub open spec fn file_needs_language_and_level() -> Seq<char> {
    "--file を使うときは --lang と --level も指定してください"@
}

/// The jobs a run asks for: one file with its language and level, or the usual files
/// of the chosen language (all by default) at the chosen level (all by default).
pub open spec fn spec_plan_jobs(language: Option<Language>, level: Option<Level>, file: Option<Seq<char>>) -> Result<
    Seq<(Seq<char>, Language, Level)>,
    Seq<char>,
> {
    match file {
        Some(f) => match (language, level) {
            (Some(l), Some(v)) => Ok(seq![(f, l, v)]),
            _ => Err(file_needs_language_and_level()),
        },
        None => Ok(
            job_grid(
                match language {
                    Some(l) => seq![l],
                    None => all_languages(),
                },
                match level {
                    Some(v) => seq![v],
                    None => all_levels(),
                },
            ),
        ),
    }
}

fn push_level_jobs(jobs: &mut Vec<Job>, language: Language, levels: &Vec<Level>)
    ensures
        final(jobs)@.map_values(|j: Job| job_view(j)) == old(jobs)@.map_values(|j: Job| job_view(j))
            + level_jobs(language, levels@),
{
    let ghost start = jobs@.map_values(|j: Job| job_view(j));
    let mut i: usize = 0;
    while i < levels.len()
        invariant
            i <= levels.len(),
            jobs@.map_values(|j: Job| job_view(j)) == start + level_jobs(
                language,
                levels@.take(i as int),
            ),
        decreases levels.len() - i,
    {
        let v = levels[i];
        let ghost before = jobs@.map_values(|j: Job| job_view(j));
        jobs.push(Job { path: problems_rel_path(language, v), language, level: v });
        proof {
            assert(jobs@.map_values(|j: Job| job_view(j)) =~= before.push(
                (spec_problems_rel_path(language, v), language, v),
            ));
            assert(level_jobs(language, levels@.take(i + 1)) =~= level_jobs(
                language,
                levels@.take(i as int),
            ).push((spec_problems_rel_path(language, v), language, v)));
            assert(jobs@.map_values(|j: Job| job_view(j)) =~= start + level_jobs(
                language,
                levels@.take(i + 1),
            ));
        }
        i += 1;
    }
    assert(levels@.take(levels@.len() as int) =~= levels@);
}

/// Plans the jobs of a run (see `spec_plan_jobs`).
pub fn plan_jobs(language: Option<Language>, level: Option<Level>, file: Option<&str>) -> (r: Result<
    Vec<Job>,
    String,
>)
    ensures
        match (
            r,
            spec_plan_jobs(
                language,
                level,
                match file {
                    Some(f) => Some(f@),
                    None => None,
                },
            ),
        ) {
            (Ok(jobs), Ok(js)) => jobs@.map_values(|j: Job| job_view(j)) == js,
            (Err(m), Err(e)) => m@ == e,
            _ => false,
        },
{
    match file {
        Some(f) => {
            match (language, level) {
                (Some(l), Some(v)) => {
                    let mut jobs: Vec<Job> = Vec::new();
                    jobs.push(Job { path: string_of(&chars_of(f)), language: l, level: v });
                    assert(jobs@.map_values(|j: Job| job_view(j)) =~= seq![(f@, l, v)]);
                    Ok(jobs)
                },
                _ => Err(
                    string_of(&chars_of("--file を使うときは --lang と --level も指定してください")),
                ),
            }
        },
        None => {
            let mut langs: Vec<Language> = Vec::new();
            match language {
                Some(l) => {
                    langs.push(l);
                },
                None => {
                    let all = Language::ALL;
                    let mut i: usize = 0;
                    while i < 7
                        invariant
                            i <= 7,
                            all@ == all_languages(),
                            langs@ == all_languages().take(i as int),
                        decreases 7 - i,
                    {
                        langs.push(all[i]);
                        assert(langs@ =~= all_languages().take(i + 1));
                        i += 1;
                    }
                },
            }
            let mut levels: Vec<Level> = Vec::new();
            match level {
                Some(v) => {
                    levels.push(v);
                },
                None => {
                    levels.push(Level::Beginner);
                    levels.push(Level::Intermediate);
                    levels.push(Level::Advanced);
                },
            }
            let ghost lang_seq = match language {
                Some(l) => seq![l],
                None => all_languages(),
            };
            let ghost level_seq = match level {
                Some(v) => seq![v],
                None => all_levels(),
            };
            assert(langs@ =~= lang_seq);
            assert(levels@ =~= level_seq);
            let mut jobs: Vec<Job> = Vec::new();
            let mut i: usize = 0;
            assert(langs@.take(0) =~= Seq::<Language>::empty());
            assert(jobs@.map_values(|j: Job| job_view(j)) =~= job_grid(langs@.take(0), levels@));
            while i < langs.len()
                invariant
                    i <= langs.len(),
                    jobs@.map_values(|j: Job| job_view(j)) == job_grid(langs@.take(i as int), levels@),
                decreases langs.len() - i,
            {
                push_level_jobs(&mut jobs, langs[i], &levels);
                proof {
                    assert(langs@.take(i + 1).drop_last() =~= langs@.take(i as int));
                    assert(langs@.take(i + 1).last() == langs@[i as int]);
                }
                i += 1;
            }
            assert(langs@.take(langs@.len() as int) =~= langs@);
            Ok(jobs)
        },
    }
}

/// The languages among `jobs` that run in containers, each once.
pub fn docker_languages(jobs: &[Job]) -> (r: Vec<Language>)
    ensures
        r@.no_duplicates(),
        forall|l: Language|
            r@.contains(l) <==> (l.spec_verify_image() is Some && exists|k: int|
                0 <= k < jobs@.len() && (#[trigger] jobs@[k]).language == l),
{
    let mut r: Vec<Language> = Vec::new();
    let mut i: usize = 0;
    while i < jobs.len()
        invariant
            i <= jobs@.len(),
            r@.no_duplicates(),
            forall|l: Language|
                r@.contains(l) <==> (l.spec_verify_image() is Some && exists|k: int|
                    0 <= k < i && (#[trigger] jobs@[k]).language == l),
        decreases jobs.len() - i,
    {
        let l = jobs[i].language;
        let mut seen = false;
        let mut j: usize = 0;
        while j < r.len()
            invariant
                j <= r@.len(),
                seen <==> exists|k: int| 0 <= k < j && r@[k] == l,
            decreases r.len() - j,
        {
            if r[j] == l {
                seen = true;
            }
            j += 1;
        }
        let ghost before = r@;
        if !seen && l.verify_image().is_some() {
            r.push(l);
            proof {
                assert forall|a: int, b: int| 0 <= a < b < r@.len() implies r@[a] != r@[b] by {
                    if b == r@.len() - 1 {
                        assert(r@[a] == before[a]);
                    }
                }
            }
        }
        proof {
            assert forall|m: Language|
                r@.contains(m) <==> (m.spec_verify_image() is Some && exists|k: int|
                    0 <= k < i + 1 && (#[trigger] jobs@[k]).language == m) by {
                if r@.contains(m) && m != l {
                    let x = choose|x: int| 0 <= x < r@.len() && r@[x] == m;
                    assert(before.contains(m)) by {
                        assert(before[x] == m);
                    }
                }
                if m == l && m.spec_verify_image() is Some {
                    assert(jobs@[i as int].language == m);
                    if seen {
                        let x = choose|x: int| 0 <= x < j && r@[x] == l;
                        assert(r@.contains(m));
                    } else {
                        assert(r@[r@.len() - 1] == m);
                    }
                }
                if m != l && (m.spec_verify_image() is Some && exists|k: int|
                    0 <= k < i + 1 && (#[trigger] jobs@[k]).language == m) {
                    let k = choose|k: int| 0 <= k < i + 1 && (#[trigger] jobs@[k]).language == m;
                    assert(k < i);
                    assert(before.contains(m));
                    let x = choose|x: int| 0 <= x < before.len() && before[x] == m;
                    assert(r@[x] == m);
                }
            }
        }
        i += 1;
    }
    r
}

/// The work directory name of a batch (`cpp-beginner`).
pub fn batch_dir_name(language: Language, level: Level) -> (s: String)
    ensures
        s@ == language.spec_slug() + "-"@ + level.spec_slug(),
{
    let mut v = chars_of(language.slug());
    push_str(&mut v, "-");
    push_str(&mut v, level.slug());
    string_of(&v)
}

} // verus!
