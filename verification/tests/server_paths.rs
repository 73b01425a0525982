//! ローカル検証サーバーの純ロジック (静的ファイルのパス解決)。
//!
//! このサーバーが存在する理由そのものが「判定ロジックを二重に持たない」なので、
//! 実行まわりのテストは `tests/execute.rs` と shared 側が持つ。ここで固定するのは
//! dist の外に出られないことだけ。

use knocks::server::{percent_decode, resolve};

#[test]
fn serves_index_for_root() {
    let p = resolve("/dist", "/").unwrap();
    assert_eq!(p, "/dist/index.html");
}

#[test]
fn serves_nested_problem_data() {
    let p = resolve("/dist", "/data/problems/cpp/beginner.json").unwrap();
    assert_eq!(p, "/dist/data/problems/cpp/beginner.json");
}

#[test]
fn rejects_parent_directory_traversal() {
    // dist の外へ出られないこと
    assert!(resolve("/dist", "/../etc/passwd").is_none());
    assert!(resolve("/dist", "/data/../../etc/passwd").is_none());
    assert!(resolve("/dist", "/a/b/../../../secret").is_none());
}

#[test]
fn rejects_encoded_traversal() {
    // %2e%2e = ".." を decode してから検査すること
    assert!(resolve("/dist", "/%2e%2e/etc/passwd").is_none());
    assert!(resolve("/dist", "/data/%2E%2E/%2E%2E/etc/passwd").is_none());
}

#[test]
fn rejects_empty_segments() {
    assert!(resolve("/dist", "/data//problems").is_none());
}

#[test]
fn percent_decode_handles_utf8_and_malformed_input() {
    assert_eq!(percent_decode("a%2Fb"), "a/b");
    assert_eq!(percent_decode("%E6%97%A5"), "日");
    // 壊れたエスケープはそのまま残す (panic しない)
    assert_eq!(percent_decode("100%"), "100%");
    assert_eq!(percent_decode("%ZZ"), "%ZZ");
}

use knocks::server::{mime_for, route, Route};

#[test]
fn the_served_directory_may_end_with_a_slash_or_be_empty() {
    assert_eq!(resolve("/dist/", "/a.js").unwrap(), "/dist/a.js");
    assert_eq!(resolve("", "/a.js").unwrap(), "a.js");
}

#[test]
fn percent_decode_keeps_plain_text_and_broken_escapes() {
    assert_eq!(percent_decode("plain/path.json"), "plain/path.json");
    assert_eq!(percent_decode("%+5"), "%+5");
    assert_eq!(percent_decode("%-1x"), "%-1x");
    assert_eq!(percent_decode("%4"), "%4");
    assert_eq!(percent_decode("%4a"), "J");
}

#[test]
fn an_escape_before_a_wide_character_stays_as_it_is() {
    assert_eq!(percent_decode("%a日"), "%a日");
    assert_eq!(percent_decode("%日本"), "%日本");
    assert_eq!(route("/dist", "/%a日/x.json", false), Route::File("/dist/%a日/x.json".into()));
    assert_eq!(resolve("/dist", "/%é").unwrap(), "/dist/%é");
}

#[test]
fn content_types_follow_the_extension() {
    assert_eq!(mime_for("/dist/index.html"), "text/html; charset=utf-8");
    assert_eq!(mime_for("/dist/app.js"), "text/javascript");
    assert_eq!(mime_for("/dist/a.b/style.css"), "text/css");
    assert_eq!(mime_for("/dist/app_bg.wasm"), "application/wasm");
    assert_eq!(mime_for("/dist/data/problems/index.json"), "application/json; charset=utf-8");
    assert_eq!(mime_for("/dist/gear.svg"), "image/svg+xml");
    assert_eq!(mime_for("/dist/.html"), "application/octet-stream");
    assert_eq!(mime_for("/dist/README"), "application/octet-stream");
    assert_eq!(mime_for("/dist/x.json/"), "application/json; charset=utf-8");
}

#[test]
fn requests_are_routed_to_the_endpoint_or_a_file() {
    assert_eq!(route("/dist", "/api/execute", true), Route::Execute);
    assert_eq!(route("/dist", "/api/execute", false), Route::ExecuteMethodNotAllowed);
    assert_eq!(route("/dist", "/", false), Route::File("/dist/index.html".into()));
    assert_eq!(route("/dist", "/../secret", false), Route::Forbidden);
}
