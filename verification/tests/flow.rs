//! The whole path through the public API: a problem's code is joined with its tests, sent
//! as a judging request, and the reply is classified.

use knocks::language::Language;
use knocks::playground::{classify, ExecuteRequest, ExecuteResponse, Outcome, PlaygroundRequest};
use knocks::problem::compose_submission;

#[test]
fn submission_flow_composes_and_classifies() {
    let user_code = "fn answer() -> i32 { 41 }";
    let hidden_tests = "#[test]\nfn t() { assert_eq!(answer(), 42); }";
    let submission = compose_submission(Language::Rust, user_code, hidden_tests);
    let req = ExecuteRequest::judge(Language::Rust, &submission);
    assert!(req.code.contains("fn answer"));
    assert!(PlaygroundRequest::judge(&req.code).tests);

    // A Playground reply of the "a test failed" shape is classified.
    let resp = ExecuteResponse {
        success: false,
        stdout: "test result: FAILED. 0 passed; 1 failed".into(),
        stderr: String::new(),
        compile_failed: false,
    };
    assert_eq!(classify(&resp), Outcome::TestsFailed);
}
