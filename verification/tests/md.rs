use knocks::md::render_markdown;

#[test]
fn renders_code_fence_and_inline_code() {
    let html = render_markdown("説明 `let x = 1;`\n\n```rust\nfn main() {}\n```");
    assert!(html.contains("<code>let x = 1;</code>"));
    assert!(html.contains("<pre><code class=\"language-rust\">"));
}

#[test]
fn renders_headings_lists_tables() {
    let html = render_markdown("## 見出し\n\n- 項目1\n\n| a | b |\n|---|---|\n| 1 | 2 |");
    assert!(html.contains("<h2>見出し</h2>"));
    assert!(html.contains("<li>項目1</li>"));
    assert!(html.contains("<table>"));
}

#[test]
fn escapes_raw_html() {
    // 問題文は自作データだが、生 HTML の混入は描画時に無害化されていること
    let html = render_markdown("<script>alert(1)</script>");
    assert!(!html.contains("<script>alert(1)</script>"));
}

use knocks::md::{sanitize_events, MdEvent};

#[test]
fn inline_html_and_strike_through_are_handled() {
    let html = render_markdown("a <b>bold</b> ~~gone~~");
    assert!(html.contains("&lt;b&gt;"));
    assert!(!html.contains("<b>"));
    assert!(html.contains("<del>gone</del>"));
}

#[test]
fn sanitizing_turns_raw_html_into_text_and_keeps_the_rest() {
    let events = vec![
        MdEvent::Html("<div>".to_string()),
        MdEvent::Text("x".to_string()),
        MdEvent::InlineHtml("<i>".to_string()),
    ];
    let out = sanitize_events(events);
    assert_eq!(out.len(), 3);
    assert!(matches!(&out[0], MdEvent::Text(s) if s == "<div>"));
    assert!(matches!(&out[1], MdEvent::Text(s) if s == "x"));
    assert!(matches!(&out[2], MdEvent::Text(s) if s == "<i>"));
}
