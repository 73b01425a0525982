//! Running a batch: the cases, what a finished case shows, and the verdicts.

use knocks::batch::{
    batch_cases, batch_dir_name, case_outcome, case_passed, container_failure_message,
    docker_languages, judge_problem, local_check_step, parse_exit_code, plan_jobs, run_verdict,
    tail, BatchReport, CaseOutcome, LocalCheckStep, LocalRun, ProblemVerdict, RunVerdict,
};
use knocks::docker::{CaseKind, RunCase};
use knocks::language::Language;
use knocks::problem::{compose_submission, Level, Problem};

fn problem(id: &str) -> Problem {
    Problem {
        id: id.to_string(),
        language: Language::Python,
        level: Level::Beginner,
        title: "t".into(),
        description_md: "d".into(),
        starter_code: "STARTER".into(),
        hidden_tests: "TESTS".into(),
        answer_code: "ANSWER".into(),
        explanation_md: "e".into(),
        hints: vec![],
        tags: vec![],
    }
}

fn outcome(id: &str, kind: CaseKind, passed: bool, output: &str) -> CaseOutcome {
    CaseOutcome { problem_id: id.into(), kind, passed, output: output.into() }
}

#[test]
fn a_case_passes_only_with_exit_zero_and_the_marker() {
    assert!(case_passed(0, "running\ntest result: ok\n"));
    assert!(!case_passed(0, "exited early"));
    assert!(!case_passed(1, "test result: ok"));
}

#[test]
fn each_problem_gives_an_answer_case_then_a_starter_case() {
    let cases = batch_cases(Language::Python, &[problem("b001"), problem("b002")]);
    assert_eq!(cases.len(), 4);
    assert_eq!(cases[0].problem_id, "b001");
    assert_eq!(cases[0].kind, CaseKind::Answer);
    assert_eq!(cases[0].code, compose_submission(Language::Python, "ANSWER", "TESTS"));
    assert_eq!(cases[1].kind, CaseKind::Starter);
    assert_eq!(cases[1].code, compose_submission(Language::Python, "STARTER", "TESTS"));
    assert_eq!(cases[3].problem_id, "b002");
}

#[test]
fn exit_codes_parse_like_i32() {
    assert_eq!(parse_exit_code("0\n"), Some(0));
    assert_eq!(parse_exit_code("  124 "), Some(124));
    assert_eq!(parse_exit_code("-1"), Some(-1));
    assert_eq!(parse_exit_code("+7"), Some(7));
    assert_eq!(parse_exit_code("2147483647"), Some(i32::MAX));
    assert_eq!(parse_exit_code("-2147483648"), Some(i32::MIN));
    assert_eq!(parse_exit_code("2147483648"), None);
    assert_eq!(parse_exit_code(""), None);
    assert_eq!(parse_exit_code("-"), None);
    assert_eq!(parse_exit_code("1x"), None);
}

#[test]
fn a_finished_case_shows_its_exit_and_both_streams() {
    let case = RunCase { problem_id: "b001".into(), kind: CaseKind::Answer, code: String::new() };
    let o = case_outcome(&case, Some("0\n"), "test result: ok\n", "warn");
    assert!(o.passed);
    assert_eq!(o.problem_id, "b001");
    assert_eq!(o.output, "exit=0\n--- stdout ---\ntest result: ok\n\n--- stderr ---\nwarn");
    let o = case_outcome(&case, Some("-9"), "", "");
    assert!(!o.passed);
    assert!(o.output.starts_with("exit=-9\n"));
}

#[test]
fn a_case_without_an_exit_status_counts_as_failed() {
    let case = RunCase { problem_id: "b001".into(), kind: CaseKind::Starter, code: String::new() };
    for exit in [None, Some(""), Some("timeout")] {
        let o = case_outcome(&case, exit, "test result: ok", "");
        assert!(!o.passed);
        assert_eq!(o.output, "実行結果が記録されていません (タイムアウトの可能性)");
        assert_eq!(o.kind, CaseKind::Starter);
    }
}

#[test]
fn tail_keeps_the_last_twenty_five_lines() {
    let long: String = (1..=30).map(|i| format!("l{i}\n")).collect();
    let t = tail(&long);
    assert!(t.starts_with("l6\n"), "{t}");
    assert!(t.ends_with("l30"), "{t}");
    assert_eq!(t.lines().count(), 25);
    assert_eq!(tail("a\nb"), "a\nb");
    assert_eq!(tail(""), "");
}

#[test]
fn verdicts_follow_the_answer_and_the_starter() {
    let os = vec![
        outcome("b001", CaseKind::Answer, true, ""),
        outcome("b001", CaseKind::Starter, false, ""),
        outcome("b002", CaseKind::Answer, true, ""),
        outcome("b002", CaseKind::Starter, true, ""),
        outcome("b003", CaseKind::Answer, false, "exit=1\nboom"),
    ];
    assert_eq!(judge_problem(&os, "b001"), ProblemVerdict::Verified);
    assert_eq!(judge_problem(&os, "b002"), ProblemVerdict::StarterPasses);
    assert_eq!(judge_problem(&os, "b003"), ProblemVerdict::AnswerFails("exit=1\nboom".into()));
    assert_eq!(judge_problem(&os, "b004"), ProblemVerdict::AnswerFails("(実行結果なし)".into()));
}

#[test]
fn a_failed_container_is_reported_with_the_start_of_its_stderr() {
    let long = "e".repeat(600);
    let m = container_failure_message("gcc:13", Some(125), &long);
    assert!(m.starts_with("コンテナが異常終了しました (image=gcc:13, status=Some(125)): "));
    assert!(m.ends_with(&"e".repeat(500)));
    assert!(!m.ends_with(&"e".repeat(501)));
    let m = container_failure_message("node:20", None, "x");
    assert_eq!(m, "コンテナが異常終了しました (image=node:20, status=None): x");
}

#[test]
fn a_run_that_checked_nothing_never_succeeds() {
    assert_eq!(run_verdict(0, 0, None), RunVerdict::NothingVerified);
    assert_eq!(run_verdict(3, 0, Some(4)), RunVerdict::CountMismatch { expected: 4, actual: 3 });
    assert_eq!(run_verdict(4, 0, Some(4)), RunVerdict::Success);
    assert_eq!(run_verdict(4, 1, None), RunVerdict::ProblemsFound);
}

#[test]
fn jobs_cover_the_chosen_languages_and_levels() {
    let all = plan_jobs(None, None, None).unwrap();
    assert_eq!(all.len(), 21);
    assert_eq!(all[0].path, "data/problems/rust/beginner.json");
    assert_eq!(all[20].path, "data/problems/javascript/advanced.json");
    let one = plan_jobs(Some(Language::Cpp), Some(Level::Advanced), None).unwrap();
    assert_eq!(one.len(), 1);
    assert_eq!(one[0].path, "data/problems/cpp/advanced.json");
    let file = plan_jobs(Some(Language::Java), Some(Level::Beginner), Some("batch.json")).unwrap();
    assert_eq!(file[0].path, "batch.json");
    assert_eq!(file[0].language, Language::Java);
    assert!(plan_jobs(Some(Language::Java), None, Some("batch.json")).is_err());
}

#[test]
fn only_container_languages_need_docker_each_once() {
    let jobs = plan_jobs(None, None, None).unwrap();
    let langs = docker_languages(&jobs);
    assert_eq!(langs.len(), 6);
    assert!(!langs.contains(&Language::Rust));
    let rust = plan_jobs(Some(Language::Rust), None, None).unwrap();
    assert!(docker_languages(&rust).is_empty());
}

#[test]
fn batch_directories_are_named_by_language_and_level() {
    assert_eq!(batch_dir_name(Language::Csharp, Level::Intermediate), "csharp-intermediate");
}

#[test]
fn an_empty_report_has_nothing() {
    let r = BatchReport::default();
    assert!(r.outcomes.is_empty() && r.errors.is_empty());
    assert_eq!(r.container_runs, 0);
}

#[test]
fn a_local_check_runs_the_answer_then_the_starter() {
    assert!(matches!(local_check_step(None, None), LocalCheckStep::Run(CaseKind::Answer)));
    let pass = LocalRun::Finished { passed: true, output: "ok".into() };
    let fail = LocalRun::Finished { passed: false, output: "a\nb".into() };
    let broken = LocalRun::Failed("no cargo".into());
    assert!(matches!(local_check_step(Some(&pass), None), LocalCheckStep::Run(CaseKind::Starter)));
    assert!(matches!(local_check_step(Some(&pass), Some(&fail)), LocalCheckStep::Verified));
    assert!(matches!(local_check_step(Some(&pass), Some(&pass)), LocalCheckStep::StarterPasses));
    assert!(
        matches!(local_check_step(Some(&fail), None), LocalCheckStep::AnswerFails(t) if t == "a\nb")
    );
    assert!(
        matches!(local_check_step(Some(&broken), None), LocalCheckStep::RunFailed(e) if e == "no cargo")
    );
    assert!(
        matches!(local_check_step(Some(&pass), Some(&broken)), LocalCheckStep::RunFailed(e) if e == "no cargo")
    );
}
