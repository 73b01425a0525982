//! The decisions of the execution endpoint: which requests it accepts, and what it
//! answers for each thing an upstream service can do. The HTTP calls themselves, and the
//! waiting between tries, belong to the server around it.
use vstd::prelude::*;
use crate::language::Language;
use crate::playground::{
    ExecuteRequest, ExecuteResponse, PlaygroundResponse, WandboxResponse, normalize_playground,
    normalize_wandbox, spec_harness_ran, spec_has_compile_error, spec_validate,
    spec_wandbox_success, transient_marker, validate, wandbox_diagnostics, wandbox_stderr,
};
use crate::text::{chars_of, contains, string_of};

verus! {

/// The Rust Playground's execution endpoint.
pub const PLAYGROUND_URL: &'static str = "https://play.rust-lang.org/execute";

/// Wandbox's compile endpoint.
pub const WANDBOX_URL: &'static str = "https://wandbox.org/api/compile.json";

/// Limit of one upstream call, in seconds.
pub const UPSTREAM_TIMEOUT_SECS: u64 = 40;

/// Wandbox refuses the default user agent; the endpoint names itself.
pub const USER_AGENT: &'static str = "rust-100-knocks (+https://github.com/RintaroYamaoka/rust-100-knocks)";

/// How many times a transient Wandbox failure is tried again.
pub const WANDBOX_RETRIES: usize = 2;

// The messages of the endpoint's refusals and failures, shown to the learner as they are.

pub const BUSY: &'static str = "実行サービスが混雑しています。少し待ってから再試行してください";
pub const UNREACHABLE: &'static str = "実行サービスに接続できませんでした。しばらくして再試行してください";
pub const TIMED_OUT: &'static str = "実行がタイムアウトしました。無限ループがないか確認してください";
pub const UNPARSEABLE: &'static str = "実行サービスの応答を解釈できませんでした";
pub const UPSTREAM_ERROR: &'static str = "実行サービスがエラーを返しました";
pub const POST_ONLY: &'static str = "POST のみ受け付けます";
pub const BODY_UNREADABLE: &'static str = "リクエストボディを読めませんでした";
pub const BODY_MALFORMED: &'static str = "リクエストボディが不正です";
pub const NO_TARGET: &'static str = "この言語の実行先が設定されていません";

/// What the endpoint answers: an error with its HTTP status and message (sent as
/// `{"error": message}`), or a judged run (status 200).
#[derive(Clone, Debug, PartialEq)]
pub enum Reply {
    Error { status: u16, message: String },
    Success(ExecuteResponse),
}

/// A response as (success, stdout, stderr, compile failed).
pub open spec fn response_view(r: ExecuteResponse) -> (bool, Seq<char>, Seq<char>, bool) {
    (r.success, r.stdout@, r.stderr@, r.compile_failed)
}

/// A reply as (status, error message or the response).
pub open spec fn reply_view(r: Reply) -> (u16, Result<(bool, Seq<char>, Seq<char>, bool), Seq<char>>) {
    match r {
        Reply::Error { status, message } => (status, Err(message@)),
        Reply::Success(resp) => (200, Ok(response_view(resp))),
    }
}

fn error(status: u16, message: &str) -> (r: Reply)
    ensures
        reply_view(r) == (status, Err::<(bool, Seq<char>, Seq<char>, bool), Seq<char>>(message@)),
{
    Reply::Error { status, message: string_of(&chars_of(message)) }
}

/// The request body as it reached the endpoint.
#[derive(Clone, Debug)]
pub enum Incoming {
    /// The body could not be read.
    Unreadable,
    /// The body is not a valid request.
    Malformed,
    Parsed(ExecuteRequest),
}

/// Accepts a request to forward, or answers it: POST only, a readable and well-formed
/// body, and code that `validate` accepts; each refusal with its own message.
pub fn accept_request(is_post: bool, body: Incoming) -> (r: Result<ExecuteRequest, Reply>)
    ensures
        !is_post ==> (r matches Err(e) && reply_view(e) == (405u16, Err::<(bool, Seq<char>, Seq<char>, bool), Seq<char>>(POST_ONLY@))),
        is_post ==> match body {
            Incoming::Unreadable => r matches Err(e) && reply_view(e) == (400u16, Err::<(bool, Seq<char>, Seq<char>, bool), Seq<char>>(BODY_UNREADABLE@)),
            Incoming::Malformed => r matches Err(e) && reply_view(e) == (400u16, Err::<(bool, Seq<char>, Seq<char>, bool), Seq<char>>(BODY_MALFORMED@)),
            Incoming::Parsed(req) => match spec_validate(req.language, req.code@) {
                Ok(()) => r matches Ok(a) && a == req,
                Err(m) => r matches Err(e) && reply_view(e) == (400u16, Err::<(bool, Seq<char>, Seq<char>, bool), Seq<char>>(m)),
            },
        },
{
    if !is_post {
        return Err(error(405, POST_ONLY));
    }
    match body {
        Incoming::Unreadable => Err(error(400, BODY_UNREADABLE)),
        Incoming::Malformed => Err(error(400, BODY_MALFORMED)),
        Incoming::Parsed(req) => match validate(&req) {
            Ok(()) => Ok(req),
            Err(m) => Err(Reply::Error { status: 400, message: m }),
        },
    }
}

/// What came back from an upstream call.
#[derive(Clone, Debug)]
pub enum Upstream<T> {
    /// The call took longer than the limit.
    TimedOut,
    /// The service could not be reached.
    Unreachable,
    /// The service answered with this status, not a success.
    Status(u16),
    /// A success status whose body could not be read as a reply.
    Unparseable,
    /// A reply.
    Parsed(T),
}

/// The answer to an upstream call that brought no reply: a timeout is 504, being turned
/// away for load (429) is passed on, anything else is a bad gateway.
pub open spec fn failure_of<T>(u: Upstream<T>) -> Option<(u16, Seq<char>)> {
    match u {
        Upstream::TimedOut => Some((504u16, TIMED_OUT@)),
        Upstream::Unreachable => Some((502u16, UNREACHABLE@)),
        Upstream::Status(s) => if s == 429 {
            Some((429u16, BUSY@))
        } else {
            Some((502u16, UPSTREAM_ERROR@))
        },
        Upstream::Unparseable => Some((502u16, UNPARSEABLE@)),
        Upstream::Parsed(_) => None,
    }
}

fn failure_reply<T>(u: &Upstream<T>) -> (r: Option<Reply>)
    ensures
        match failure_of(*u) {
            Some((s, m)) => r matches Some(e) && reply_view(e) == (s, Err::<(bool, Seq<char>, Seq<char>, bool), Seq<char>>(m)),
            None => r is None,
        },
{
    match u {
        Upstream::TimedOut => Some(error(504, TIMED_OUT)),
        Upstream::Unreachable => Some(error(502, UNREACHABLE)),
        Upstream::Status(s) => if *s == 429 {
            Some(error(429, BUSY))
        } else {
            Some(error(502, UPSTREAM_ERROR))
        },
        Upstream::Unparseable => Some(error(502, UNPARSEABLE)),
        Upstream::Parsed(_) => None,
    }
}

/// A Playground reply in the common shape.
pub open spec fn playground_view(raw: PlaygroundResponse) -> (bool, Seq<char>, Seq<char>, bool) {
    (
        raw.success,
        raw.stdout@,
        raw.stderr@,
        !spec_harness_ran(raw.stdout@) && spec_has_compile_error(Language::Rust, raw.stderr@),
    )
}

/// The answer to a Playground call.
pub fn playground_reply(u: Upstream<PlaygroundResponse>) -> (r: Reply)
    ensures
        match failure_of(u) {
            Some((s, m)) => reply_view(r) == (s, Err::<(bool, Seq<char>, Seq<char>, bool), Seq<char>>(m)),
            None => match u {
                Upstream::Parsed(raw) => reply_view(r) == (200u16, Ok::<(bool, Seq<char>, Seq<char>, bool), Seq<char>>(playground_view(raw))),
                _ => false,
            },
        },
{
    match failure_reply(&u) {
        Some(e) => e,
        None => match u {
            Upstream::Parsed(raw) => Reply::Success(normalize_playground(&raw)),
            _ => Reply::Error { status: 502, message: string_of(&chars_of(UNPARSEABLE)) },
        },
    }
}

/// A Wandbox reply in the common shape.
pub open spec fn wandbox_view(language: Language, raw: WandboxResponse) -> (bool, Seq<char>, Seq<char>, bool) {
    (
        spec_wandbox_success(raw),
        raw.program_output@,
        wandbox_stderr(language, raw),
        !spec_harness_ran(raw.program_output@) && spec_has_compile_error(
            language,
            wandbox_diagnostics(language, raw),
        ),
    )
}

/// A Wandbox failure of its own (the container runtime under load), not of the code.
pub open spec fn spec_transient(raw: WandboxResponse) -> bool {
    contains(raw.compiler_error@, transient_marker()) || contains(raw.program_error@, transient_marker())
}

/// What to do after a Wandbox call.
#[derive(Clone, Debug, PartialEq)]
pub enum WandboxStep {
    /// Wait this long, then call again.
    Retry { delay_ms: u64 },
    /// Answer the request.
    Done(Reply),
}

/// The step after the Wandbox call numbered `attempt` (from 0): a transient failure is
/// tried again after a growing pause while tries remain, then answered as busy (503)
/// rather than shown as if the code had failed; anything else is answered at once.
pub open spec fn spec_wandbox_step(language: Language, attempt: usize, u: Upstream<WandboxResponse>) -> (bool, u64, (u16, Result<(bool, Seq<char>, Seq<char>, bool), Seq<char>>)) {
    match failure_of(u) {
        Some((s, m)) => (false, 0, (s, Err(m))),
        None => match u {
            Upstream::Parsed(raw) => if spec_transient(raw) {
                if attempt < WANDBOX_RETRIES {
                    (true, (700 * (attempt + 1)) as u64, (0, Err(seq![])))
                } else {
                    (false, 0, (503u16, Err(BUSY@)))
                }
            } else {
                (false, 0, (200u16, Ok(wandbox_view(language, raw))))
            },
            _ => (false, 0, (0, Err(seq![]))),
        },
    }
}

/// A step as (retry, pause, reply when not retrying).
pub open spec fn step_view(s: WandboxStep) -> (bool, u64, (u16, Result<(bool, Seq<char>, Seq<char>, bool), Seq<char>>)) {
    match s {
        WandboxStep::Retry { delay_ms } => (true, delay_ms, (0, Err(seq![]))),
        WandboxStep::Done(r) => (false, 0, reply_view(r)),
    }
}

/// Decides the step after a Wandbox call (see `spec_wandbox_step`).
pub fn wandbox_step(language: Language, attempt: usize, u: Upstream<WandboxResponse>) -> (s: WandboxStep)
    ensures
        step_view(s) == spec_wandbox_step(language, attempt, u),
{
    match failure_reply(&u) {
        Some(e) => WandboxStep::Done(e),
        None => match u {
            Upstream::Parsed(raw) => {
                if raw.is_upstream_transient_error() {
                    if attempt < WANDBOX_RETRIES {
                        WandboxStep::Retry { delay_ms: 700 * (attempt as u64 + 1) }
                    } else {
                        WandboxStep::Done(error(503, BUSY))
                    }
                } else {
                    WandboxStep::Done(Reply::Success(normalize_wandbox(language, &raw)))
                }
            },
            _ => WandboxStep::Done(error(502, UNPARSEABLE)),
        },
    }
}

/// A transient Wandbox failure is never shown as a result of the code, and the tries are
/// bounded: the last allowed try answers instead of retrying.
pub proof fn law_transient_failure_is_never_a_verdict(
    language: Language,
    attempt: usize,
    raw: WandboxResponse,
)
    requires
        spec_transient(raw),
    ensures
        spec_wandbox_step(language, attempt, Upstream::Parsed(raw)).0 || spec_wandbox_step(
            language,
            attempt,
            Upstream::Parsed(raw),
        ).2 == (503u16, Err::<(bool, Seq<char>, Seq<char>, bool), Seq<char>>(BUSY@)),
        attempt >= WANDBOX_RETRIES ==> !spec_wandbox_step(language, attempt, Upstream::Parsed(raw)).0,
{
}

/// The answer when a language has no Wandbox target.
pub fn no_target_reply() -> (r: Reply)
    ensures
        reply_view(r) == (500u16, Err::<(bool, Seq<char>, Seq<char>, bool), Seq<char>>(NO_TARGET@)),
{
    error(500, NO_TARGET)
}

} // verus!
