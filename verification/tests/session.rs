//! 進捗遷移規則と、進捗キーを通した下書きの引き当て。

use knocks::language::Language;
use knocks::playground::Outcome;
use knocks::problem::{Level, Problem};
use knocks::progress::{progress_key, ProblemStatus, ProgressEntry, ProgressMap};
use knocks::session::{code_for, next_status};

fn problem(language: Language, id: &str) -> Problem {
    Problem {
        id: id.to_string(),
        language,
        level: Level::Beginner,
        title: "t".into(),
        description_md: "d".into(),
        starter_code: "STARTER".into(),
        hidden_tests: "T".into(),
        answer_code: "A".into(),
        explanation_md: "e".into(),
        hints: vec![],
        tags: vec![],
    }
}

fn draft(code: &str) -> ProgressEntry {
    ProgressEntry {
        status: ProblemStatus::Unanswered,
        saved_code: Some(code.to_string()),
        updated_at_ms: 0,
    }
}

#[test]
fn passing_always_marks_passed() {
    assert_eq!(next_status(ProblemStatus::Unanswered, Outcome::Passed), ProblemStatus::Passed);
    assert_eq!(next_status(ProblemStatus::Attempted, Outcome::Passed), ProblemStatus::Passed);
}

#[test]
fn failure_marks_attempted_but_never_downgrades_passed() {
    assert_eq!(
        next_status(ProblemStatus::Unanswered, Outcome::CompileError),
        ProblemStatus::Attempted
    );
    assert_eq!(
        next_status(ProblemStatus::Unanswered, Outcome::TestsFailed),
        ProblemStatus::Attempted
    );
    // 一度正解した問題はやり直して失敗しても「正解済み」のまま
    assert_eq!(next_status(ProblemStatus::Passed, Outcome::TestsFailed), ProblemStatus::Passed);
}

#[test]
fn tests_that_never_ran_do_not_count_as_a_pass() {
    // exit(0) でテストを飛ばした提出を「正解」にしないのが NoTestsRun の存在理由
    assert_eq!(
        next_status(ProblemStatus::Unanswered, Outcome::NoTestsRun),
        ProblemStatus::Attempted
    );
    assert_eq!(
        next_status(ProblemStatus::Passed, Outcome::NoTestsRun),
        ProblemStatus::Passed
    );
}

#[test]
fn draft_is_looked_up_by_language_scoped_key() {
    let p = problem(Language::Python, "b001");
    let mut map = ProgressMap::new();
    map.insert(progress_key(&p), draft("PY_DRAFT"));
    assert_eq!(code_for(&p, &map), "PY_DRAFT");
}

#[test]
fn drafts_do_not_leak_between_languages_sharing_an_id() {
    let rust = problem(Language::Rust, "b001");
    let python = problem(Language::Python, "b001");
    let mut map = ProgressMap::new();
    map.insert(progress_key(&rust), draft("RUST_DRAFT"));

    assert_eq!(code_for(&rust, &map), "RUST_DRAFT");
    // 同じ id でも言語が違えば別問題。starter に戻ること
    assert_eq!(code_for(&python, &map), "STARTER");
}

#[test]
fn a_bare_id_key_is_not_picked_up_as_a_draft() {
    // 旧形式のキーが移行されないまま残っていても、素の id で引き当ててはいけない
    let p = problem(Language::Rust, "b001");
    let mut map = ProgressMap::new();
    map.insert("b001".to_string(), draft("LEGACY"));
    assert_eq!(code_for(&p, &map), "STARTER");
}

#[test]
fn missing_draft_falls_back_to_starter_code() {
    let p = problem(Language::Cpp, "i042");
    assert_eq!(code_for(&p, &ProgressMap::new()), "STARTER");
}

use knocks::progress::status_of;
use knocks::session::{
    editor_placeholder, filter_label, nav_target, needs_selection, progress_label,
    record_outcome, save_draft, status_badge_parts,
};
use knocks::progress::StatusFilter;

#[test]
fn a_saved_draft_comes_back_and_a_blank_one_shows_the_starter() {
    let p = problem(Language::Rust, "b001");
    let mut map = ProgressMap::new();
    save_draft(&mut map, &p, "fn mine() {}".into(), 10);
    assert_eq!(code_for(&p, &map), "fn mine() {}");
    assert_eq!(map.get(&progress_key(&p)).unwrap().updated_at_ms, 10);
    save_draft(&mut map, &p, "   \n".into(), 11);
    assert_eq!(code_for(&p, &map), "STARTER");
    save_draft(&mut map, &p, "STARTER".into(), 12);
    assert!(map.get(&progress_key(&p)).unwrap().saved_code.is_none());
}

#[test]
fn a_judged_run_moves_the_status_and_keeps_the_draft() {
    let p = problem(Language::Cpp, "b001");
    let mut map = ProgressMap::new();
    save_draft(&mut map, &p, "int f();".into(), 1);
    record_outcome(&mut map, &p, Outcome::TestsFailed, 2);
    assert_eq!(status_of(&map, &p), ProblemStatus::Attempted);
    record_outcome(&mut map, &p, Outcome::Passed, 3);
    record_outcome(&mut map, &p, Outcome::CompileError, 4);
    assert_eq!(status_of(&map, &p), ProblemStatus::Passed);
    assert_eq!(code_for(&p, &map), "int f();");
    // Saving a draft later keeps the status.
    save_draft(&mut map, &p, "int g();".into(), 5);
    assert_eq!(status_of(&map, &p), ProblemStatus::Passed);
}

#[test]
fn the_previous_and_next_buttons_stay_inside_the_list() {
    let ps = vec![
        problem(Language::Rust, "b001"),
        problem(Language::Rust, "b002"),
        problem(Language::Rust, "b003"),
    ];
    assert_eq!(nav_target(&ps, "b002", 1), Some(2));
    assert_eq!(nav_target(&ps, "b002", -1), Some(0));
    assert_eq!(nav_target(&ps, "b003", 1), None);
    assert_eq!(nav_target(&ps, "b001", -1), None);
    assert_eq!(nav_target(&ps, "x999", 1), None);
}

#[test]
fn a_problem_of_another_language_or_level_is_replaced() {
    let p = problem(Language::Rust, "b001");
    assert!(needs_selection(None, Language::Rust, Level::Beginner));
    assert!(!needs_selection(Some(&p), Language::Rust, Level::Beginner));
    assert!(needs_selection(Some(&p), Language::Cpp, Level::Beginner));
    assert!(needs_selection(Some(&p), Language::Rust, Level::Advanced));
}

#[test]
fn labels_of_the_workbench() {
    assert_eq!(editor_placeholder(Language::Python), "# 左の一覧から問題を選んでください");
    assert_eq!(progress_label(3, 100), "3 / 100 問クリア");
    assert_eq!(status_badge_parts(ProblemStatus::Passed), ("status-badge passed", "✓"));
    assert_eq!(filter_label(StatusFilter::OnlyAttempted), "未正解");
}
