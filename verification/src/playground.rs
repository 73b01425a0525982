//! The execution contract: what the front end sends, how the upstream replies are put
//! into one shape, and how a reply is judged.
use vstd::prelude::*;
use crate::language::{Backend, Language, tsc_flags_wandbox_raw, tsc_flags};
use crate::text::{
    contains_vec, join, vec_eq,
    all_ws, chars_of, find_from, find_from_spec, is_digit, lemma_find_from_spec,
    lemma_find_from_unique, slice_exec, contains, contains_str, decimal, decimal_exec, ends_with, ends_with_str,
    is_blank, lines, lines_exec, push_all, push_section, push_str, section, starts_with,
    starts_with_str, string_of, trim, trim_exec, trim_start, trim_start_exec, utf8_len,
    utf8_len_exceeds, views,
};

verus! {

/// Upper bound on the size of a submission, in bytes.
pub const MAX_CODE_BYTES: usize = 64 * 1024;

/// Printed on stdout by every judging harness when all checks passed.
pub const TEST_OK_MARKER: &'static str = "test result: ok";

/// Printed on stdout by every judging harness when a check failed.
pub const TEST_FAILED_MARKER: &'static str = "test result: FAILED";

/// What the front end sends to `/api/execute`.
#[derive(Clone, Debug, PartialEq)]
pub struct ExecuteRequest {
    pub language: Language,
    pub code: String,
}

impl ExecuteRequest {
    /// A judging request: the submission (user code + hidden tests) in `language`.
    pub fn judge(language: Language, code: &str) -> (r: Self)
        ensures
            r.language == language,
            r.code@ == code@,
    {
        ExecuteRequest { language, code: string_of(&chars_of(code)) }
    }
}

/// The normalized result of a run, whichever upstream ran it.
#[derive(Clone, Debug, PartialEq)]
pub struct ExecuteResponse {
    pub success: bool,
    pub stdout: String,
    pub stderr: String,
    /// The compile step (or, for interpreted languages, the parse) failed.
    pub compile_failed: bool,
}

/// The request the Rust Playground's `/execute` takes.
#[derive(Clone, Debug, PartialEq)]
pub struct PlaygroundRequest {
    pub channel: String,
    pub mode: String,
    pub edition: String,
    pub crate_type: String,
    pub tests: bool,
    pub code: String,
    pub backtrace: bool,
}

fn owned(s: &str) -> (r: String)
    ensures
        r@ == s@,
{
    string_of(&chars_of(s))
}

impl PlaygroundRequest {
    /// Judging: the submission runs as a library crate in test mode.
    pub fn judge(code: &str) -> (r: Self)
        ensures
            r.channel@ == "stable"@,
            r.mode@ == "debug"@,
            r.edition@ == "2024"@,
            r.crate_type@ == "lib"@,
            r.tests,
            r.code@ == code@,
            !r.backtrace,
    {
        PlaygroundRequest {
            channel: owned("stable"),
            mode: owned("debug"),
            edition: owned("2024"),
            crate_type: owned("lib"),
            tests: true,
            code: owned(code),
            backtrace: false,
        }
    }

    /// A plain run of a program with `fn main`.
    pub fn run(code: &str) -> (r: Self)
        ensures
            r.channel@ == "stable"@,
            r.mode@ == "debug"@,
            r.edition@ == "2024"@,
            r.crate_type@ == "bin"@,
            !r.tests,
            r.code@ == code@,
            !r.backtrace,
    {
        let j = Self::judge(code);
        PlaygroundRequest { crate_type: owned("bin"), tests: false, ..j }
    }
}

/// What the Rust Playground answers.
#[derive(Clone, Debug, PartialEq)]
pub struct PlaygroundResponse {
    pub success: bool,
    pub stdout: String,
    pub stderr: String,
}

/// The request Wandbox's `compile.json` takes.
#[derive(Clone, Debug, PartialEq)]
pub struct WandboxRequest {
    pub compiler: String,
    pub code: String,
    /// Ids of the compiler's predefined switch sets.
    pub options: Option<String>,
    /// Raw compiler flags, one per line.
    pub compiler_option_raw: Option<String>,
    /// Whether Wandbox keeps a permanent link; never wanted.
    pub save: bool,
}

/// What Wandbox answers.
#[derive(Clone, Debug, PartialEq)]
pub struct WandboxResponse {
    pub status: String,
    pub signal: String,
    pub compiler_output: String,
    pub compiler_error: String,
    pub program_output: String,
    pub program_error: String,
}

impl Default for WandboxResponse {
    fn default() -> (r: Self)
        ensures
            r.status@.len() == 0,
            r.signal@.len() == 0,
            r.compiler_output@.len() == 0,
            r.compiler_error@.len() == 0,
            r.program_output@.len() == 0,
            r.program_error@.len() == 0,
    {
        WandboxResponse {
            status: String::new(),
            signal: String::new(),
            compiler_output: String::new(),
            compiler_error: String::new(),
            program_output: String::new(),
            program_error: String::new(),
        }
    }
}

/// The marker of Wandbox's transient container failures.
pub open spec fn transient_marker() -> Seq<char> {
    "OCI runtime error"@
}

impl WandboxResponse {
    /// Wandbox failed to start the run itself (its container runtime was overloaded);
    /// the submission was not judged.
    pub fn is_upstream_transient_error(&self) -> (b: bool)
        ensures
            b == (contains(self.compiler_error@, transient_marker()) || contains(
                self.program_error@,
                transient_marker(),
            )),
    {
        let ce = chars_of(self.compiler_error.as_str());
        let pe = chars_of(self.program_error.as_str());
        contains_str(&ce, "OCI runtime error") || contains_str(&pe, "OCI runtime error")
    }
}

/// How a run is judged.
#[derive(Clone, Copy, Debug, PartialEq, Eq, Structural)]
pub enum Outcome {
    /// Compiled, and every hidden test passed.
    Passed,
    /// Compiled, but a hidden test failed.
    TestsFailed,
    /// The compiler (or the parser of an interpreted language) rejected the code.
    CompileError,
    /// The run failed without a verdict from the tests.
    RuntimeError,
    /// The run ended successfully but the tests never reported: the code exited early.
    NoTestsRun,
}

/// Kind of a diagnostic line, for colouring in the console.
#[derive(Clone, Copy, Debug, PartialEq, Eq, Structural)]
pub enum LineKind {
    Error,
    Warning,
    Note,
    Plain,
}

pub open spec fn too_large_message() -> Seq<char> {
    "コードが大きすぎます (上限 "@ + decimal(MAX_CODE_BYTES as nat) + " bytes)"@
}

pub open spec fn empty_code_message() -> Seq<char> {
    "コードが空です"@
}

/// Whether a request may be forwarded upstream, and the reason when not.
pub open spec fn spec_validate(language: Language, code: Seq<char>) -> Result<(), Seq<char>> {
    if utf8_len(code) > MAX_CODE_BYTES {
        Err(too_large_message())
    } else if all_ws(code) {
        Err(empty_code_message())
    } else {
        Ok(())
    }
}

/// Checks a request before it is forwarded: not larger than `MAX_CODE_BYTES`, not blank.
pub fn validate(req: &ExecuteRequest) -> (r: Result<(), String>)
    ensures
        match r {
            Ok(()) => spec_validate(req.language, req.code@) == Ok::<(), Seq<char>>(()),
            Err(m) => spec_validate(req.language, req.code@) == Err::<(), Seq<char>>(m@),
        },
{
    let c = chars_of(req.code.as_str());
    if utf8_len_exceeds(&c, MAX_CODE_BYTES) {
        let mut v = chars_of("コードが大きすぎます (上限 ");
        let d = decimal_exec(MAX_CODE_BYTES as u64);
        push_all(&mut v, &d);
        push_str(&mut v, " bytes)");
        return Err(string_of(&v));
    }
    if is_blank(&c) {
        return Err(owned("コードが空です"));
    }
    Ok(())
}

/// The judging harness ran to the end: one of its markers is on stdout.
pub open spec fn spec_harness_ran(stdout: Seq<char>) -> bool {
    contains(stdout, TEST_OK_MARKER@) || contains(stdout, TEST_FAILED_MARKER@)
}

/// Whether the hidden tests reported at all (either marker is on stdout).
pub fn harness_ran(stdout: &str) -> (b: bool)
    ensures
        b == spec_harness_ran(stdout@),
{
    let v = chars_of(stdout);
    contains_str(&v, TEST_OK_MARKER) || contains_str(&v, TEST_FAILED_MARKER)
}

/// The judgement of a normalized response.
pub open spec fn spec_classify(r: ExecuteResponse) -> Outcome {
    if r.compile_failed {
        Outcome::CompileError
    } else if r.success && contains(r.stdout@, TEST_OK_MARKER@) {
        Outcome::Passed
    } else if contains(r.stdout@, TEST_FAILED_MARKER@) {
        Outcome::TestsFailed
    } else if r.success {
        Outcome::NoTestsRun
    } else {
        Outcome::RuntimeError
    }
}

/// Judges a run. A pass needs both a successful exit and the success marker: an exit
/// before the tests ran is `NoTestsRun`, never `Passed`.
pub fn classify(resp: &ExecuteResponse) -> (o: Outcome)
    ensures
        o == spec_classify(*resp),
{
    if resp.compile_failed {
        return Outcome::CompileError;
    }
    let out = chars_of(resp.stdout.as_str());
    if resp.success && contains_str(&out, TEST_OK_MARKER) {
        Outcome::Passed
    } else if contains_str(&out, TEST_FAILED_MARKER) {
        Outcome::TestsFailed
    } else if resp.success {
        Outcome::NoTestsRun
    } else {
        Outcome::RuntimeError
    }
}

/// A run never counts as passed without a successful exit, the success marker, and a
/// successful compile; a failed compile is reported as such whatever the markers say;
/// and a successful exit whose tests never reported is `NoTestsRun`. Each outcome comes
/// exactly from its own evidence: a failed compile; a successful exit with the success
/// marker; the failure marker; a successful exit with no marker; or a failed exit with
/// no failure marker.
pub proof fn law_pass_needs_marker_and_exit(r: ExecuteResponse)
    ensures
        spec_classify(r) == Outcome::CompileError <==> r.compile_failed,
        spec_classify(r) == Outcome::Passed <==> (!r.compile_failed && r.success && contains(
            r.stdout@,
            TEST_OK_MARKER@,
        )),
        spec_classify(r) == Outcome::TestsFailed <==> (!r.compile_failed && !(r.success
            && contains(r.stdout@, TEST_OK_MARKER@)) && contains(r.stdout@, TEST_FAILED_MARKER@)),
        spec_classify(r) == Outcome::NoTestsRun <==> (!r.compile_failed && r.success && !contains(
            r.stdout@,
            TEST_OK_MARKER@,
        ) && !contains(r.stdout@, TEST_FAILED_MARKER@)),
        spec_classify(r) == Outcome::RuntimeError <==> (!r.compile_failed && !r.success
            && !contains(r.stdout@, TEST_FAILED_MARKER@)),
        r.compile_failed ==> spec_classify(r) == Outcome::CompileError,
        spec_classify(r) == Outcome::Passed ==> r.success && !r.compile_failed && contains(
            r.stdout@,
            TEST_OK_MARKER@,
        ),
        r.success && !r.compile_failed && !spec_harness_ran(r.stdout@) ==> spec_classify(r)
            == Outcome::NoTestsRun,
{
}

/// Languages whose syntax errors come from a compile step of their own; Python and
/// JavaScript report them on the program's stderr when the interpreter starts.
pub open spec fn spec_has_separate_compile_phase(language: Language) -> bool {
    !(language == Language::Python || language == Language::Javascript)
}

/// Whether `language` compiles before it runs (see `spec_has_separate_compile_phase`).
pub fn has_separate_compile_phase(language: Language) -> (b: bool)
    ensures
        b == spec_has_separate_compile_phase(language),
{
    match language {
        Language::Python | Language::Javascript => false,
        _ => true,
    }
}

/// A line that reports a compile (or parse) error of `language`.
pub open spec fn is_diagnostic_line(language: Language, l: Seq<char>) -> bool {
    match language {
        Language::Rust => starts_with(trim_start(l), "error["@) || starts_with(
            trim_start(l),
            "error:"@,
        ),
        Language::Python => contains(l, "SyntaxError"@) || contains(l, "IndentationError"@)
            || contains(l, "TabError"@),
        Language::Javascript => contains(l, "SyntaxError"@),
        _ => contains(l, ": error"@) || contains(l, ": fatal error"@) || starts_with(
            trim_start(l),
            "error"@,
        ),
    }
}

fn is_diagnostic_line_exec(language: Language, l: &Vec<char>) -> (b: bool)
    ensures
        b == is_diagnostic_line(language, l@),
{
    match language {
        Language::Rust => {
            let t = trim_start_exec(l);
            starts_with_str(&t, "error[") || starts_with_str(&t, "error:")
        },
        Language::Python => contains_str(l, "SyntaxError") || contains_str(l, "IndentationError")
            || contains_str(l, "TabError"),
        Language::Javascript => contains_str(l, "SyntaxError"),
        _ => {
            let t = trim_start_exec(l);
            contains_str(l, ": error") || contains_str(l, ": fatal error") || starts_with_str(
                &t,
                "error",
            )
        },
    }
}

/// Some line of `diagnostics` reports a compile error of `language`.
pub open spec fn spec_has_compile_error(language: Language, diagnostics: Seq<char>) -> bool {
    exists|i: int|
        0 <= i < lines(diagnostics).len() && #[trigger] is_diagnostic_line(
            language,
            lines(diagnostics)[i],
        )
}

/// What counts as a compile-error line, by the format of each toolchain: for Rust a
/// line whose text, after leading white space, starts with `error[` (a coded rustc
/// error) or `error:` (an uncoded one, such as a parse error); for Python a
/// `SyntaxError`, `IndentationError` or `TabError`; for JavaScript a `SyntaxError`; for
/// the other compiled languages a line with `: error` or `: fatal error`, or that starts
/// with `error` after leading white space.
pub open spec fn reports_compile_error(language: Language, l: Seq<char>) -> bool {
    let t = trim_start(l);
    if language == Language::Rust {
        t.len() >= 6 && t[0] == 'e' && t[1] == 'r' && t[2] == 'r' && t[3] == 'o' && t[4] == 'r'
            && (t[5] == '[' || t[5] == ':')
    } else if language == Language::Python {
        contains(l, "SyntaxError"@) || contains(l, "IndentationError"@) || contains(
            l,
            "TabError"@,
        )
    } else if language == Language::Javascript {
        contains(l, "SyntaxError"@)
    } else {
        contains(l, ": error"@) || contains(l, ": fatal error"@) || (t.len() >= 5 && t[0] == 'e'
            && t[1] == 'r' && t[2] == 'r' && t[3] == 'o' && t[4] == 'r')
    }
}

/// A run's diagnostics report a compile error exactly when one of their lines does, in
/// the toolchain's own format (see `reports_compile_error`).
pub proof fn law_compile_error_lines(language: Language, s: Seq<char>)
    ensures
        spec_has_compile_error(language, s) <==> exists|i: int|
            0 <= i < lines(s).len() && #[trigger] reports_compile_error(language, lines(s)[i]),
{
    reveal_strlit("error[");
    reveal_strlit("error:");
    reveal_strlit("error");
    assert forall|l: Seq<char>| #[trigger] is_diagnostic_line(language, l) == reports_compile_error(language, l) by {
        let t = trim_start(l);
        let e1 = "error["@;
        let e2 = "error:"@;
        let e3 = "error"@;
        assert(e1.len() == 6 && e2.len() == 6 && e3.len() == 5);
        if t.len() >= 6 {
            assert(starts_with(t, e1) <==> (t[0] == 'e' && t[1] == 'r' && t[2] == 'r' && t[3]
                == 'o' && t[4] == 'r' && t[5] == '[')) by {
                if t[0] == 'e' && t[1] == 'r' && t[2] == 'r' && t[3] == 'o' && t[4] == 'r' && t[5]
                    == '[' {
                    assert(t.subrange(0, 6) =~= e1);
                }
                if starts_with(t, e1) {
                    assert(t.subrange(0, 6)[5] == e1[5]);
                    assert(t.subrange(0, 6)[0] == e1[0]);
                    assert(t.subrange(0, 6)[1] == e1[1]);
                    assert(t.subrange(0, 6)[2] == e1[2]);
                    assert(t.subrange(0, 6)[3] == e1[3]);
                    assert(t.subrange(0, 6)[4] == e1[4]);
                }
            }
            assert(starts_with(t, e2) <==> (t[0] == 'e' && t[1] == 'r' && t[2] == 'r' && t[3]
                == 'o' && t[4] == 'r' && t[5] == ':')) by {
                if t[0] == 'e' && t[1] == 'r' && t[2] == 'r' && t[3] == 'o' && t[4] == 'r' && t[5]
                    == ':' {
                    assert(t.subrange(0, 6) =~= e2);
                }
                if starts_with(t, e2) {
                    assert(t.subrange(0, 6)[5] == e2[5]);
                    assert(t.subrange(0, 6)[0] == e2[0]);
                    assert(t.subrange(0, 6)[1] == e2[1]);
                    assert(t.subrange(0, 6)[2] == e2[2]);
                    assert(t.subrange(0, 6)[3] == e2[3]);
                    assert(t.subrange(0, 6)[4] == e2[4]);
                }
            }
        }
        if t.len() >= 5 {
            assert(starts_with(t, e3) <==> (t[0] == 'e' && t[1] == 'r' && t[2] == 'r' && t[3]
                == 'o' && t[4] == 'r')) by {
                if t[0] == 'e' && t[1] == 'r' && t[2] == 'r' && t[3] == 'o' && t[4] == 'r' {
                    assert(t.subrange(0, 5) =~= e3);
                }
                if starts_with(t, e3) {
                    assert(t.subrange(0, 5)[0] == e3[0]);
                    assert(t.subrange(0, 5)[1] == e3[1]);
                    assert(t.subrange(0, 5)[2] == e3[2]);
                    assert(t.subrange(0, 5)[3] == e3[3]);
                    assert(t.subrange(0, 5)[4] == e3[4]);
                }
            }
        }
    }
    if spec_has_compile_error(language, s) {
        let i = choose|i: int|
            0 <= i < lines(s).len() && #[trigger] is_diagnostic_line(language, lines(s)[i]);
        assert(reports_compile_error(language, lines(s)[i]));
    }
    if exists|i: int| 0 <= i < lines(s).len() && #[trigger] reports_compile_error(language, lines(s)[i]) {
        let i = choose|i: int|
            0 <= i < lines(s).len() && #[trigger] reports_compile_error(language, lines(s)[i]);
        assert(is_diagnostic_line(language, lines(s)[i]));
    }
}

/// Whether the diagnostic text of a run reports a compile error in `language`'s format.
pub fn has_compile_error(language: Language, diagnostics: &str) -> (b: bool)
    ensures
        b == spec_has_compile_error(language, diagnostics@),
{
    let d = chars_of(diagnostics);
    has_compile_error_chars(language, &d)
}

fn has_compile_error_chars(language: Language, d: &Vec<char>) -> (b: bool)
    ensures
        b == spec_has_compile_error(language, d@),
{
    let ls = lines_exec(d);
    let mut i: usize = 0;
    while i < ls.len()
        invariant
            i <= ls.len(),
            views(ls@) == lines(d@),
            forall|k: int| 0 <= k < i ==> !is_diagnostic_line(language, lines(d@)[k]),
        decreases ls.len() - i,
    {
        assert(ls@[i as int]@ == lines(d@)[i as int]);
        if is_diagnostic_line_exec(language, &ls[i]) {
            return true;
        }
        i += 1;
    }
    false
}

/// Normalizes a Playground reply. A compile error needs a diagnostic line and no sign
/// that the tests ran: `error: test failed` is cargo's summary, not a compiler error.
pub fn normalize_playground(raw: &PlaygroundResponse) -> (r: ExecuteResponse)
    ensures
        r.success == raw.success,
        r.stdout@ == raw.stdout@,
        r.stderr@ == raw.stderr@,
        r.compile_failed == (!spec_harness_ran(raw.stdout@) && spec_has_compile_error(
            Language::Rust,
            raw.stderr@,
        )),
{
    let ran = harness_ran(raw.stdout.as_str());
    let compile_failed = !ran && has_compile_error(Language::Rust, raw.stderr.as_str());
    ExecuteResponse {
        success: raw.success,
        stdout: raw.stdout.clone(),
        stderr: raw.stderr.clone(),
        compile_failed,
    }
}

/// A line of the .NET SDK's build chatter.
pub open spec fn is_noise_line(l: Seq<char>) -> bool {
    let t = trim(l);
    ||| t.len() == 0
    ||| starts_with(t, "The template "@)
    ||| starts_with(t, "Processing post-creation actions"@)
    ||| starts_with(t, "Running 'dotnet restore'"@)
    ||| starts_with(t, "Determining projects to restore"@)
    ||| starts_with(t, "Restored "@)
    ||| starts_with(t, "Restore succeeded"@)
    ||| starts_with(t, "MSBuild version"@)
    ||| starts_with(t, "All projects are up-to-date"@)
    ||| starts_with(t, "Build succeeded"@)
    ||| starts_with(t, "Time Elapsed"@)
    ||| ends_with(t, "Warning(s)"@)
    ||| ends_with(t, "Error(s)"@)
    ||| (contains(t, " -> "@) && ends_with(t, ".dll"@))
}

/// A line survives noise removal: it mentions an error or a warning, or it is not chatter.
#[verifier::opaque]
pub open spec fn keeps_line(l: Seq<char>) -> bool {
    contains(l, "error"@) || contains(l, "warning"@) || !is_noise_line(l)
}

/// The kept lines of `ls`, each followed by a line break.
pub open spec fn kept_text(ls: Seq<Seq<char>>) -> Seq<char>
    decreases ls.len(),
{
    if ls.len() == 0 {
        seq![]
    } else if keeps_line(ls.last()) {
        kept_text(ls.drop_last()) + ls.last().push('\n')
    } else {
        kept_text(ls.drop_last())
    }
}

fn is_noise_line_exec(l: &Vec<char>) -> (b: bool)
    ensures
        b == is_noise_line(l@),
{
    let t = trim_exec(l);
    t.len() == 0 || starts_with_str(&t, "The template ") || starts_with_str(
        &t,
        "Processing post-creation actions",
    ) || starts_with_str(&t, "Running 'dotnet restore'") || starts_with_str(
        &t,
        "Determining projects to restore",
    ) || starts_with_str(&t, "Restored ") || starts_with_str(&t, "Restore succeeded")
        || starts_with_str(&t, "MSBuild version") || starts_with_str(
        &t,
        "All projects are up-to-date",
    ) || starts_with_str(&t, "Build succeeded") || starts_with_str(&t, "Time Elapsed")
        || ends_with_str(&t, "Warning(s)") || ends_with_str(&t, "Error(s)") || (contains_str(
        &t,
        " -> ",
    ) && ends_with_str(&t, ".dll"))
}

fn keeps_line_exec(l: &Vec<char>) -> (b: bool)
    ensures
        b == keeps_line(l@),
{
    reveal(keeps_line);
    contains_str(l, "error") || contains_str(l, "warning") || !is_noise_line_exec(l)
}

fn strip_noise_chars(s: &Vec<char>) -> (r: Vec<char>)
    ensures
        r@ == kept_text(lines(s@)),
{
    let ls = lines_exec(s);
    let mut out: Vec<char> = Vec::new();
    let mut i: usize = 0;
    while i < ls.len()
        invariant
            i <= ls.len(),
            views(ls@) == lines(s@),
            out@ == kept_text(lines(s@).take(i as int)),
        decreases ls.len() - i,
    {
        let ghost taken = lines(s@).take(i + 1);
        assert(ls@[i as int]@ == lines(s@)[i as int]);
        assert(taken.drop_last() =~= lines(s@).take(i as int));
        assert(taken.last() == lines(s@)[i as int]);
        let l = &ls[i];
        let keep = keeps_line_exec(l);
        if keep {
            push_all(&mut out, l);
            out.push('\n');
        }
        i += 1;
    }
    assert(lines(s@).take(ls.len() as int) =~= lines(s@));
    out
}

/// Removes the .NET SDK's project-creation and build chatter from C# compiler output,
/// keeping every line that mentions `error` or `warning`.
pub fn strip_csharp_build_noise(s: &str) -> (r: String)
    ensures
        r@ == kept_text(lines(s@)),
{
    let v = chars_of(s);
    string_of(&strip_noise_chars(&v))
}

/// Whether a Wandbox status means a clean exit: `"0"` and no signal.
pub open spec fn spec_wandbox_success(raw: WandboxResponse) -> bool {
    raw.status@ == "0"@ && raw.signal@.len() == 0
}

/// Compiler output as shown: C#'s build chatter removed.
pub open spec fn shown_compiler_output(language: Language, raw: WandboxResponse) -> Seq<char> {
    if language == Language::Csharp {
        kept_text(lines(raw.compiler_output@))
    } else {
        raw.compiler_output@
    }
}

/// The diagnostics searched for compile errors: the compile step's output, and for
/// languages without one, the program's stderr too.
pub open spec fn wandbox_diagnostics(language: Language, raw: WandboxResponse) -> Seq<char> {
    if spec_has_separate_compile_phase(language) {
        section(shown_compiler_output(language, raw)) + section(raw.compiler_error@)
    } else {
        section(shown_compiler_output(language, raw)) + section(raw.compiler_error@) + section(
            raw.program_error@,
        )
    }
}

/// Everything Wandbox reported on the error side, in order.
pub open spec fn wandbox_stderr(language: Language, raw: WandboxResponse) -> Seq<char> {
    section(shown_compiler_output(language, raw)) + section(raw.compiler_error@) + section(
        raw.program_error@,
    )
}

/// Puts a Wandbox reply into the common shape.
pub fn normalize_wandbox(language: Language, raw: &WandboxResponse) -> (r: ExecuteResponse)
    ensures
        r.success == spec_wandbox_success(*raw),
        r.stdout@ == raw.program_output@,
        r.stderr@ == wandbox_stderr(language, *raw),
        r.compile_failed == (!spec_harness_ran(raw.program_output@) && spec_has_compile_error(
            language,
            wandbox_diagnostics(language, *raw),
        )),
{
    let status = chars_of(raw.status.as_str());
    let zero = chars_of("0");
    let success = vec_eq(&status, &zero) && raw.signal.as_str().is_empty();
    let co = chars_of(raw.compiler_output.as_str());
    let shown = if language == Language::Csharp {
        strip_noise_chars(&co)
    } else {
        co
    };
    let ce = chars_of(raw.compiler_error.as_str());
    let pe = chars_of(raw.program_error.as_str());
    let mut diag: Vec<char> = Vec::new();
    push_section(&mut diag, &shown);
    push_section(&mut diag, &ce);
    let mut err = diag.clone();
    push_section(&mut err, &pe);
    if !has_separate_compile_phase(language) {
        diag = err.clone();
    }
    proof {
        assert(diag@ =~= wandbox_diagnostics(language, *raw));
        assert(err@ =~= wandbox_stderr(language, *raw));
    }
    let ran = harness_ran(raw.program_output.as_str());
    let compile_failed = !ran && has_compile_error_chars(language, &diag);
    ExecuteResponse {
        success,
        stdout: raw.program_output.clone(),
        stderr: string_of(&err),
        compile_failed,
    }
}

/// The Wandbox request for `language`, or None when the language runs elsewhere.
pub open spec fn spec_wandbox_request_ok(
    language: Language,
    code: Seq<char>,
    r: WandboxRequest,
) -> bool {
    match language.spec_backend() {
        Backend::Wandbox { compiler, options } => {
            &&& r.compiler@ == compiler@
            &&& r.code@ == code
            &&& match options {
                Some(o) => r.options is Some && r.options->0@ == o@,
                None => r.options is None,
            }
            &&& if language == Language::Typescript {
                r.compiler_option_raw is Some && r.compiler_option_raw->0@ == join(
                    tsc_flags(),
                    "\n"@,
                )
            } else {
                r.compiler_option_raw is None
            }
            &&& !r.save
        },
        Backend::Playground => false,
    }
}

/// Builds the Wandbox request for `code`. TypeScript's flags go as raw compiler options:
/// Wandbox's `options` only names predefined switch sets.
pub fn wandbox_request(language: Language, code: &str) -> (r: Option<WandboxRequest>)
    ensures
        match r {
            Some(w) => spec_wandbox_request_ok(language, code@, w),
            None => language.spec_backend() == Backend::Playground,
        },
{
    match language.backend() {
        Backend::Playground => None,
        Backend::Wandbox { compiler, options } => {
            let options = match options {
                Some(o) => Some(owned(o)),
                None => None,
            };
            let raw = if language == Language::Typescript {
                Some(tsc_flags_wandbox_raw())
            } else {
                None
            };
            Some(
                WandboxRequest {
                    compiler: owned(compiler),
                    code: owned(code),
                    options,
                    compiler_option_raw: raw,
                    save: false,
                },
            )
        },
    }
}

/// A rustc error code: `E` and four digits.
pub open spec fn is_error_code(c: Seq<char>) -> bool {
    c.len() == 5 && c[0] == 'E' && forall|k: int| 1 <= k < 5 ==> is_digit(#[trigger] c[k])
}

/// The error codes found in `s` from index `pos` on, appended to `acc`: each `error[`
/// is followed by the text up to the next `]`, kept when it is a new valid code.
pub open spec fn codes_after(s: Seq<char>, pos: int, acc: Seq<Seq<char>>) -> Seq<Seq<char>>
    decreases s.len() + 1 - pos,
{
    if pos < 0 || pos > s.len() {
        acc
    } else {
        match find_from_spec(s, "error["@, pos) {
            None => acc,
            Some(p) => {
                proof {
                    reveal_strlit("error[");
                    lemma_find_from_spec(s, "error["@, pos);
                }
                let start = p + "error["@.len();
                let acc2 = match find_from_spec(s, "]"@, start) {
                    Some(e) => {
                        proof {
                            lemma_find_from_spec(s, "]"@, start);
                        }
                        let code = s.subrange(start, e);
                        if is_error_code(code) && !acc.contains(code) {
                            acc.push(code)
                        } else {
                            acc
                        }
                    },
                    None => acc,
                };
                codes_after(s, start, acc2)
            },
        }
    }
}

pub(crate) fn is_error_code_exec(c: &Vec<char>) -> (b: bool)
    ensures
        b == is_error_code(c@),
{
    if c.len() != 5 || c[0] != 'E' {
        return false;
    }
    let mut k: usize = 1;
    while k < 5
        invariant
            1 <= k <= 5,
            c.len() == 5,
            forall|j: int| 1 <= j < k ==> is_digit(#[trigger] c@[j]),
        decreases 5 - k,
    {
        if !('0' <= c[k] && c[k] <= '9') {
            return false;
        }
        k += 1;
    }
    true
}

/// Converts character vectors to strings.
pub fn strings_of(vs: &Vec<Vec<char>>) -> (r: Vec<String>)
    ensures
        r@.map_values(|x: String| x@) == views(vs@),
{
    let mut r: Vec<String> = Vec::new();
    let mut i: usize = 0;
    while i < vs.len()
        invariant
            i <= vs.len(),
            r.len() == i,
            forall|k: int| 0 <= k < i ==> (#[trigger] r@[k])@ == vs@[k]@,
        decreases vs.len() - i,
    {
        r.push(string_of(&vs[i]));
        i += 1;
    }
    assert(r@.map_values(|x: String| x@) =~= views(vs@));
    r
}

/// The rustc error codes (E0308, ...) in `stderr`, in order of first appearance, each once.
pub fn extract_error_codes(stderr: &str) -> (codes: Vec<String>)
    ensures
        codes@.map_values(|c: String| c@) == codes_after(stderr@, 0, seq![]),
{
    proof {
        reveal_strlit("error[");
    }
    let s = chars_of(stderr);
    let pat = chars_of("error[");
    let close = chars_of("]");
    let mut codes: Vec<Vec<char>> = Vec::new();
    let mut pos: usize = 0;
    assert(views(codes@) =~= Seq::<Seq<char>>::empty());
    loop
        invariant
            pos <= s.len(),
            s@ == stderr@,
            pat@ == "error["@,
            close@ == "]"@,
            pat.len() == 6,
            codes_after(s@, 0, seq![]) == codes_after(s@, pos as int, views(codes@)),
        ensures
            codes_after(s@, 0, seq![]) == views(codes@),
        decreases s.len() + 1 - pos,
    {
        match find_from(&s, &pat, pos) {
            None => {
                proof {
                    lemma_find_from_unique(s@, pat@, pos as int, None);
                    assert(find_from_spec(s@, "error["@, pos as int) is None);
                    assert(codes_after(s@, pos as int, views(codes@)) == views(codes@));
                }
                break ;
            },
            Some(p) => {
                proof {
                    lemma_find_from_unique(s@, pat@, pos as int, Some(p as int));
                }
                let start = p + pat.len();
                let ghost before = views(codes@);
                match find_from(&s, &close, start) {
                    Some(e) => {
                        proof {
                            lemma_find_from_unique(s@, close@, start as int, Some(e as int));
                        }
                        let code = slice_exec(&s, start, e);
                        if is_error_code_exec(&code) && !contains_vec(&codes, &code) {
                            codes.push(code);
                            assert(views(codes@) =~= before.push(s@.subrange(start as int, e as int)));
                        }
                    },
                    None => {
                        proof {
                            lemma_find_from_unique(s@, close@, start as int, None);
                        }
                    },
                }
                pos = start;
            },
        }
    }
    strings_of(&codes)
}

proof fn lemma_codes_after(s: Seq<char>, pos: int, acc: Seq<Seq<char>>)
    requires
        acc.no_duplicates(),
        forall|k: int| 0 <= k < acc.len() ==> is_error_code(#[trigger] acc[k]),
    ensures
        codes_after(s, pos, acc).no_duplicates(),
        forall|k: int|
            0 <= k < codes_after(s, pos, acc).len() ==> is_error_code(
                #[trigger] codes_after(s, pos, acc)[k],
            ),
        acc.len() <= codes_after(s, pos, acc).len(),
        codes_after(s, pos, acc).take(acc.len() as int) == acc,
    decreases s.len() + 1 - pos,
{
    reveal_strlit("error[");
    if pos < 0 || pos > s.len() {
        assert(acc.take(acc.len() as int) =~= acc);
    } else {
        match find_from_spec(s, "error["@, pos) {
            None => {
                assert(acc.take(acc.len() as int) =~= acc);
            },
            Some(p) => {
                lemma_find_from_spec(s, "error["@, pos);
                let start = p + 6;
                let acc2 = match find_from_spec(s, "]"@, start) {
                    Some(e) => {
                        let code = s.subrange(start, e);
                        if is_error_code(code) && !acc.contains(code) {
                            acc.push(code)
                        } else {
                            acc
                        }
                    },
                    None => acc,
                };
                assert(acc2.no_duplicates()) by {
                    if acc2.len() > acc.len() {
                        assert forall|a: int, b: int| 0 <= a < b < acc2.len() implies acc2[a]
                            != acc2[b] by {
                            if b == acc.len() {
                                assert(acc2[a] == acc[a]);
                            }
                        }
                    }
                }
                assert forall|k: int| 0 <= k < acc2.len() implies is_error_code(#[trigger] acc2[k]) by {
                    if k < acc.len() {
                        assert(acc2[k] == acc[k]);
                    }
                }
                lemma_codes_after(s, start, acc2);
                let r = codes_after(s, start, acc2);
                assert(acc2.take(acc.len() as int) =~= acc);
                assert(r.take(acc.len() as int) =~= r.take(acc2.len() as int).take(acc.len() as int));
            },
        }
    }
}

/// The error codes found are each a valid rustc code (`E` and four digits), and none is
/// listed twice.
pub proof fn law_error_codes_distinct(stderr: Seq<char>)
    ensures
        codes_after(stderr, 0, seq![]).no_duplicates(),
        forall|k: int|
            0 <= k < codes_after(stderr, 0, seq![]).len() ==> is_error_code(
                #[trigger] codes_after(stderr, 0, seq![])[k],
            ),
{
    lemma_codes_after(stderr, 0, seq![]);
}

/// The colour class of a diagnostic line, for rustc and the other compilers alike.
pub open spec fn spec_classify_line(line: Seq<char>) -> LineKind {
    let t = trim_start(line);
    if starts_with(t, "error"@) {
        LineKind::Error
    } else if starts_with(t, "warning"@) {
        LineKind::Warning
    } else if starts_with(t, "note:"@) || starts_with(t, "help:"@) || starts_with(t, "-->"@) {
        LineKind::Note
    } else if contains(t, ": error"@) || contains(t, "Error:"@) || starts_with(t, "Exception"@) {
        LineKind::Error
    } else if contains(t, ": warning"@) {
        LineKind::Warning
    } else {
        LineKind::Plain
    }
}

/// Classifies one line of compiler or runtime output for colouring.
pub fn classify_line(line: &str) -> (k: LineKind)
    ensures
        k == spec_classify_line(line@),
{
    let l = chars_of(line);
    let t = trim_start_exec(&l);
    if starts_with_str(&t, "error") {
        LineKind::Error
    } else if starts_with_str(&t, "warning") {
        LineKind::Warning
    } else if starts_with_str(&t, "note:") || starts_with_str(&t, "help:") || starts_with_str(
        &t,
        "-->",
    ) {
        LineKind::Note
    } else if contains_str(&t, ": error") || contains_str(&t, "Error:") || starts_with_str(
        &t,
        "Exception",
    ) {
        LineKind::Error
    } else if contains_str(&t, ": warning") {
        LineKind::Warning
    } else {
        LineKind::Plain
    }
}

} // verus!
