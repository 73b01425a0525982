//! Problem statements and explanations are Markdown; the page shows them as HTML. The
//! content is trusted, but the page stays on the safe side: raw HTML in the source is
//! shown as text, never passed through.
use vstd::prelude::*;
use pulldown_cmark::{Event, Options, Parser, html};

verus! {

#[verifier::external_type_specification]
#[verifier::external_body]
pub struct ExMarkdownEvent<'a>(Event<'a>);

/// Whether tables are parsed.
pub const MARKDOWN_TABLES: bool = true;

/// Whether `~~strike-through~~` is parsed.
pub const MARKDOWN_STRIKETHROUGH: bool = true;

/// One event of a parsed Markdown document: raw HTML (a block line or an inline tag) and
/// text carry their text; every other event is carried through as the parser gave it.
#[derive(Debug)]
pub enum MdEvent {
    Html(String),
    InlineHtml(String),
    Text(String),
    Other(Event<'static>),
}

/// An event with its text as a sequence of characters.
pub enum MdEventView {
    Html(Seq<char>),
    InlineHtml(Seq<char>),
    Text(Seq<char>),
    Other(Event<'static>),
}

impl View for MdEvent {
    type V = MdEventView;

    open spec fn view(&self) -> MdEventView {
        match self {
            MdEvent::Html(s) => MdEventView::Html(s@),
            MdEvent::InlineHtml(s) => MdEventView::InlineHtml(s@),
            MdEvent::Text(s) => MdEventView::Text(s@),
            MdEvent::Other(e) => MdEventView::Other(*e),
        }
    }
}

/// The views of `events`.
pub open spec fn event_views(events: Seq<MdEvent>) -> Seq<MdEventView> {
    events.map_values(|e: MdEvent| e@)
}

/// The events that `pulldown_cmark` parses `md` into, with tables and strike-through as
/// given.
pub uninterp spec fn markdown_events(md: Seq<char>, tables: bool, strikethrough: bool) -> Seq<
    MdEventView,
>;

/// The HTML that `pulldown_cmark::html::push_html` writes for `events`.
pub uninterp spec fn events_html(events: Seq<MdEventView>) -> Seq<char>;

/// Parses `md` with `pulldown_cmark::Parser::new_ext`, tables and strike-through enabled
/// as the flags say, and hands out its events: raw HTML and text with their text, the
/// others as they are. The contract names the result; it says nothing of how Markdown is
/// parsed.
#[verifier::external_body]
fn parse_markdown(md: &str, tables: bool, strikethrough: bool) -> (r: Vec<MdEvent>)
    ensures
        event_views(r@) == markdown_events(md@, tables, strikethrough),
{
    let mut opts = Options::empty();
    opts.set(Options::ENABLE_TABLES, tables);
    opts.set(Options::ENABLE_STRIKETHROUGH, strikethrough);
    Parser::new_ext(md, opts).map(|ev| match ev {
        Event::Html(s) => MdEvent::Html(s.into_string()),
        Event::InlineHtml(s) => MdEvent::InlineHtml(s.into_string()),
        Event::Text(s) => MdEvent::Text(s.into_string()),
        other => MdEvent::Other(other.into_static()),
    }).collect()
}

/// Writes `events` as HTML with `pulldown_cmark::html::push_html`. The contract names the
/// result; it says nothing of how HTML is written.
#[verifier::external_body]
fn write_html(events: Vec<MdEvent>) -> (r: String)
    ensures
        r@ == events_html(event_views(events@)),
{
    let mut out = String::new();
    html::push_html(&mut out, events.into_iter().map(|e| match e {
        MdEvent::Html(s) => Event::Html(s.into()),
        MdEvent::InlineHtml(s) => Event::InlineHtml(s.into()),
        MdEvent::Text(s) => Event::Text(s.into()),
        MdEvent::Other(ev) => ev,
    }));
    out
}

/// Raw HTML made into text with the same characters; every other event unchanged.
pub open spec fn sanitize_event(e: MdEventView) -> MdEventView {
    match e {
        MdEventView::Html(s) => MdEventView::Text(s),
        MdEventView::InlineHtml(s) => MdEventView::Text(s),
        other => other,
    }
}

/// Each event of `events` sanitized, in order.
pub open spec fn sanitized(events: Seq<MdEventView>) -> Seq<MdEventView> {
    events.map_values(|e: MdEventView| sanitize_event(e))
}

/// An event that would pass markup to the page unescaped.
pub open spec fn is_raw_html(e: MdEventView) -> bool {
    e is Html || e is InlineHtml
}

/// Turns every raw HTML event into a text event with the same text, and keeps every other
/// event and the order.
pub fn sanitize_events(events: Vec<MdEvent>) -> (r: Vec<MdEvent>)
    ensures
        event_views(r@) == sanitized(event_views(events@)),
{
    let ghost orig = events@;
    let mut out: Vec<MdEvent> = Vec::new();
    let mut rest: Vec<MdEvent> = Vec::new();
    let mut src = events;
    // Reversed first, so that taking from the end yields the events in order.
    while src.len() > 0
        invariant
            src@ + rest@.reverse() == orig,
        decreases src.len(),
    {
        let ghost before_src = src@;
        let ghost before_rest = rest@;
        let e = src.pop().unwrap();
        rest.push(e);
        proof {
            assert(before_rest.push(e).reverse() =~= seq![e] + before_rest.reverse());
            assert(before_src =~= src@.push(e));
            assert(src@ + rest@.reverse() =~= before_src + before_rest.reverse());
        }
    }
    assert(rest@.reverse() =~= orig);
    while rest.len() > 0
        invariant
            event_views(out@) == sanitized(event_views(orig.take(out@.len() as int))),
            out@.len() + rest@.len() == orig.len(),
            rest@.reverse() == orig.skip(out@.len() as int),
        decreases rest.len(),
    {
        let ghost k = out@.len() as int;
        let ghost before_rest = rest@;
        let e = rest.pop().unwrap();
        proof {
            assert(before_rest =~= rest@.push(e));
            assert(before_rest.reverse() =~= seq![e] + rest@.reverse());
            assert(orig.skip(k)[0] == e);
            assert(orig.skip(k + 1) =~= orig.skip(k).drop_first());
            assert(orig.take(k + 1) =~= orig.take(k).push(e));
        }
        let ghost before_out = out@;
        let s = match e {
            MdEvent::Html(t) => MdEvent::Text(t),
            MdEvent::InlineHtml(t) => MdEvent::Text(t),
            other => other,
        };
        proof {
            assert(s@ == sanitize_event(e@));
        }
        out.push(s);
        proof {
            assert(event_views(out@) =~= event_views(before_out).push(s@));
            assert(event_views(orig.take(k + 1)) =~= event_views(orig.take(k)).push(e@));
            assert(sanitized(event_views(orig.take(k + 1))) =~= sanitized(
                event_views(orig.take(k)),
            ).push(sanitize_event(e@)));
        }
    }
    assert(orig.take(orig.len() as int) =~= orig);
    out
}

/// Sanitizing leaves no raw HTML, keeps the number and order of the events, turns raw
/// HTML into text with the same characters, and changes nothing else.
pub proof fn law_no_raw_html_after_sanitizing(events: Seq<MdEventView>)
    ensures
        sanitized(events).len() == events.len(),
        forall|i: int| 0 <= i < events.len() ==> !is_raw_html(#[trigger] sanitized(events)[i]),
        forall|i: int|
            0 <= i < events.len() ==> match #[trigger] events[i] {
                MdEventView::Html(s) => sanitized(events)[i] == MdEventView::Text(s),
                MdEventView::InlineHtml(s) => sanitized(events)[i] == MdEventView::Text(s),
                other => sanitized(events)[i] == other,
            },
{
}

/// Markdown to HTML: the source is parsed with tables and strike-through, its raw HTML is
/// turned into text, and the events are written as HTML.
pub fn render_markdown(md: &str) -> (html: String)
    ensures
        html@ == events_html(
            sanitized(markdown_events(md@, MARKDOWN_TABLES, MARKDOWN_STRIKETHROUGH)),
        ),
{
    let events = parse_markdown(md, MARKDOWN_TABLES, MARKDOWN_STRIKETHROUGH);
    write_html(sanitize_events(events))
}

} // verus!
