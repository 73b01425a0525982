//! The entry of the execution endpoint: what is checked before a request is forwarded,
//! and how the upstream request is built.

use knocks::language::Language;
use knocks::playground::{wandbox_request, PlaygroundRequest};

#[test]
fn rust_is_routed_to_playground_not_wandbox() {
    assert!(wandbox_request(Language::Rust, "code").is_none());
    let pg = PlaygroundRequest::judge("pub fn f() {}");
    assert!(pg.tests);
    assert_eq!(pg.crate_type, "lib");
    assert_eq!(pg.edition, "2024");
}

#[test]
fn non_rust_languages_build_a_wandbox_request_with_the_pinned_compiler() {
    let r = wandbox_request(Language::Cpp, "int main(){}").unwrap();
    assert_eq!(r.compiler, "gcc-13.2.0");
    assert_eq!(r.options.as_deref(), Some("warning,c++17"));
    assert!(!r.save, "save:true は Wandbox にパーマリンクを作ってしまう");

    let r = wandbox_request(Language::Python, "print(1)").unwrap();
    assert_eq!(r.compiler, "cpython-3.13.8");
    assert_eq!(r.options, None);
}

use knocks::playground::{ExecuteRequest, PlaygroundResponse, WandboxResponse, MAX_CODE_BYTES};
use knocks::proxy::{
    accept_request, no_target_reply, playground_reply, wandbox_step, Incoming, Reply, Upstream,
    WandboxStep, BUSY, WANDBOX_RETRIES,
};

fn error_of(r: &Reply) -> (u16, String) {
    match r {
        Reply::Error { status, message } => (*status, message.clone()),
        Reply::Success(_) => panic!("not an error: {r:?}"),
    }
}

#[test]
fn only_posts_with_a_valid_body_are_forwarded() {
    let req = ExecuteRequest::judge(Language::Cpp, "int main(){}");
    assert_eq!(accept_request(true, Incoming::Parsed(req.clone())).unwrap(), req);
    let e = accept_request(false, Incoming::Parsed(req)).unwrap_err();
    assert_eq!(error_of(&e), (405, "POST のみ受け付けます".to_string()));
    let e = accept_request(true, Incoming::Unreadable).unwrap_err();
    assert_eq!(error_of(&e), (400, "リクエストボディを読めませんでした".to_string()));
    let e = accept_request(true, Incoming::Malformed).unwrap_err();
    assert_eq!(error_of(&e), (400, "リクエストボディが不正です".to_string()));
    let e = accept_request(true, Incoming::Parsed(ExecuteRequest::judge(Language::Cpp, "  "))).unwrap_err();
    assert_eq!(error_of(&e), (400, "コードが空です".to_string()));
    let big = ExecuteRequest::judge(Language::Cpp, &"a".repeat(MAX_CODE_BYTES + 1));
    assert_eq!(error_of(&accept_request(true, Incoming::Parsed(big)).unwrap_err()).0, 400);
}

#[test]
fn upstream_failures_map_to_gateway_answers() {
    assert_eq!(error_of(&playground_reply(Upstream::TimedOut)).0, 504);
    assert_eq!(error_of(&playground_reply(Upstream::Unreachable)).0, 502);
    assert_eq!(error_of(&playground_reply(Upstream::Status(429))), (429, BUSY.to_string()));
    assert_eq!(error_of(&playground_reply(Upstream::Status(500))).1, "実行サービスがエラーを返しました");
    assert_eq!(error_of(&playground_reply(Upstream::Unparseable)).1, "実行サービスの応答を解釈できませんでした");
    assert_eq!(error_of(&no_target_reply()).0, 500);
}

#[test]
fn a_playground_reply_is_normalized() {
    let raw = PlaygroundResponse {
        success: true,
        stdout: "test result: ok. 1 passed".into(),
        stderr: "   Compiling playground".into(),
    };
    match playground_reply(Upstream::Parsed(raw)) {
        Reply::Success(r) => {
            assert!(r.success);
            assert!(!r.compile_failed);
            assert_eq!(r.stdout, "test result: ok. 1 passed");
        },
        other => panic!("{other:?}"),
    }
}

#[test]
fn transient_wandbox_failures_are_retried_then_answered_busy() {
    let raw = WandboxResponse {
        status: "126".into(),
        compiler_error: "Error: OCI runtime error: crun: clone: Resource temporarily unavailable".into(),
        ..Default::default()
    };
    assert!(raw.is_upstream_transient_error());
    assert_eq!(
        wandbox_step(Language::Cpp, 0, Upstream::Parsed(raw.clone())),
        WandboxStep::Retry { delay_ms: 700 }
    );
    assert_eq!(
        wandbox_step(Language::Cpp, 1, Upstream::Parsed(raw.clone())),
        WandboxStep::Retry { delay_ms: 1400 }
    );
    match wandbox_step(Language::Cpp, WANDBOX_RETRIES, Upstream::Parsed(raw)) {
        WandboxStep::Done(r) => assert_eq!(error_of(&r), (503, BUSY.to_string())),
        other => panic!("{other:?}"),
    }
}

#[test]
fn an_ordinary_wandbox_compile_error_is_answered_at_once() {
    let raw = WandboxResponse {
        status: "1".into(),
        compiler_error: "prog.cc:2:21: error: invalid conversion from 'const char*' to 'int'".into(),
        ..Default::default()
    };
    assert!(!raw.is_upstream_transient_error());
    match wandbox_step(Language::Cpp, 0, Upstream::Parsed(raw)) {
        WandboxStep::Done(Reply::Success(r)) => assert!(r.compile_failed),
        other => panic!("{other:?}"),
    }
}
