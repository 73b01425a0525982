//! Planning of container runs for checking problems of the languages that run in Docker.
//!
//! One batch (the problems of one file) runs in one container: starting a container per
//! problem would cost more than the runs themselves. Planning does not run anything, so
//! the number of containers is fixed by the plan and can be tested.
use vstd::prelude::*;
use crate::language::{Language, tsc_flags, tsc_flags_cli};
use crate::text::{
    chars_of, contains, ends_with, occurs_at, join, decimal, decimal_exec, push_all, push_str,
    starts_with, string_of,
};

verus! {

/// Each problem runs twice: the answer must pass, the starter code must fail.
#[derive(Clone, Copy, Debug, PartialEq, Eq, Structural)]
pub enum CaseKind {
    Answer,
    Starter,
}

impl CaseKind {
    pub open spec fn spec_suffix(self) -> Seq<char> {
        match self {
            CaseKind::Answer => "answer"@,
            CaseKind::Starter => "starter"@,
        }
    }

    /// The suffix of the case's directory name.
    pub fn suffix(self) -> (s: &'static str)
        ensures
            s@ == self.spec_suffix(),
    {
        match self {
            CaseKind::Answer => "answer",
            CaseKind::Starter => "starter",
        }
    }
}

/// One run: the answer or the starter code of one problem.
#[derive(Clone, Debug)]
pub struct RunCase {
    pub problem_id: String,
    pub kind: CaseKind,
    /// The composed submission (user code followed by the hidden tests).
    pub code: String,
}

impl RunCase {
    pub open spec fn spec_dir_name(self) -> Seq<char> {
        self.problem_id@ + "-"@ + self.kind.spec_suffix()
    }

    /// The directory of this case inside the work directory (`b001-answer`).
    pub fn dir_name(&self) -> (s: String)
        ensures
            s@ == self.spec_dir_name(),
    {
        let mut v = chars_of(self.problem_id.as_str());
        push_str(&mut v, "-");
        push_str(&mut v, self.kind.suffix());
        string_of(&v)
    }
}

/// The plan of one container run.
#[derive(Clone, Debug, PartialEq, Eq)]
pub struct DockerRun {
    pub image: String,
    /// Host directory mounted at `/w` in the container.
    pub workdir: String,
    /// The `sh` script run inside the container.
    pub script: String,
    pub network_disabled: bool,
    /// Limit for the whole container, against a hang on the host side.
    pub overall_timeout_secs: u64,
}

/// Limit of one case, so that a problem with an endless loop cannot stop the batch.
pub const CASE_TIMEOUT_SECS: u64 = 20;

/// Base of the limit of a whole container; each case adds its own limit.
pub const OVERALL_TIMEOUT_BASE_SECS: u64 = 120;

/// The command that compiles and runs one case, in the case's directory.
pub open spec fn run_command(language: Language) -> Seq<char> {
    let src = language.spec_source_file_name();
    match language {
        Language::Cpp => "g++ -std=c++17 -w -o _prog "@ + src + " && ./_prog"@,
        Language::Java => "javac -nowarn "@ + src + " && java Main"@,
        Language::Python => "python3 "@ + src,
        Language::Javascript => "node "@ + src,
        Language::Typescript => "tsc "@ + join(tsc_flags(), " "@) + " "@ + src
            + " && node prog.js"@,
        Language::Csharp => "cp "@ + src
            + " /proj/Program.cs && (cd /proj && dotnet build -v q --nologo -o /proj/_out >/dev/null) && dotnet /proj/_out/proj.dll"@,
        Language::Rust => seq![],
    }
}

proof fn lemma_concat_parts(a: Seq<char>, b: Seq<char>, c: Seq<char>)
    ensures
        starts_with(a + b, a),
        ends_with(a + b, b),
        contains(a + b + c, b),
{
    assert((a + b).subrange(0, a.len() as int) =~= a);
    assert((a + b).subrange((a + b).len() - b.len(), (a + b).len() as int) =~= b);
    assert((a + b + c).subrange(a.len() as int, (a.len() + b.len()) as int) =~= b);
    assert(occurs_at(a + b + c, b, a.len() as int));
}

/// What each case runs: its case line runs the language's command, which works on the
/// submission's own source file. Java compiles it with `javac` and launches class `Main`;
/// C++ builds `_prog` and runs it; TypeScript compiles to `prog.js` and runs that with
/// `node`; Python and JavaScript hand the file to their interpreter; C# copies it into
/// the prepared project and runs the built assembly; Rust cases run locally, not here.
pub proof fn law_case_commands(language: Language, case: RunCase)
    ensures
        contains(case_line(language, case), run_command(language)),
        language != Language::Rust ==> contains(
            run_command(language),
            language.spec_source_file_name(),
        ),
        language == Language::Java ==> starts_with(
            run_command(language),
            "javac -nowarn "@ + language.spec_source_file_name(),
        ) && ends_with(run_command(language), " && java Main"@),
        language == Language::Cpp ==> contains(run_command(language), "-o _prog "@) && ends_with(
            run_command(language),
            " && ./_prog"@,
        ),
        language == Language::Typescript ==> starts_with(run_command(language), "tsc "@)
            && ends_with(run_command(language), " && node prog.js"@),
        language == Language::Python ==> starts_with(run_command(language), "python3 "@),
        language == Language::Javascript ==> starts_with(run_command(language), "node "@),
        language == Language::Csharp ==> starts_with(run_command(language), "cp "@) && ends_with(
            run_command(language),
            "dotnet /proj/_out/proj.dll"@,
        ),
        language == Language::Rust ==> run_command(language).len() == 0,
{
    let src = language.spec_source_file_name();
    let cmd = run_command(language);
    let head = "cd /w/cases/"@ + case.spec_dir_name() + " 2>/dev/null && { timeout "@ + decimal(
        CASE_TIMEOUT_SECS as nat,
    ) + " sh -c '"@;
    let tail = "' >_stdout 2>_stderr; echo $? >_exit; }\n"@;
    assert(case_line(language, case) == head + cmd + tail);
    lemma_concat_parts(head, cmd, tail);
    match language {
        Language::Cpp => {
            let a = "g++ -std=c++17 -w -o _prog "@;
            lemma_concat_parts(a, src, " && ./_prog"@);
            lemma_concat_parts(a + src, " && ./_prog"@, seq![]);
            reveal_strlit("g++ -std=c++17 -w -o _prog ");
            reveal_strlit("-o _prog ");
            let b = "g++ -std=c++17 -w "@;
            reveal_strlit("g++ -std=c++17 -w ");
            assert(a =~= b + "-o _prog "@);
            assert(cmd =~= b + "-o _prog "@ + (src + " && ./_prog"@));
            lemma_concat_parts(b, "-o _prog "@, src + " && ./_prog"@);
        },
        Language::Java => {
            let a = "javac -nowarn "@;
            lemma_concat_parts(a, src, " && java Main"@);
            lemma_concat_parts(a + src, " && java Main"@, seq![]);
        },
        Language::Python => {
            lemma_concat_parts("python3 "@, src, seq![]);
            assert(("python3 "@ + src + seq![]) =~= "python3 "@ + src);
        },
        Language::Javascript => {
            lemma_concat_parts("node "@, src, seq![]);
            assert(("node "@ + src + seq![]) =~= "node "@ + src);
        },
        Language::Typescript => {
            let a = "tsc "@ + join(tsc_flags(), " "@) + " "@;
            lemma_concat_parts(a, src, " && node prog.js"@);
            lemma_concat_parts(a + src, " && node prog.js"@, seq![]);
            let f = join(tsc_flags(), " "@) + " "@ + src + " && node prog.js"@;
            assert(cmd =~= "tsc "@ + f);
            lemma_concat_parts("tsc "@, f, seq![]);
        },
        Language::Csharp => {
            let z = " /proj/Program.cs && (cd /proj && dotnet build -v q --nologo -o /proj/_out >/dev/null) && dotnet /proj/_out/proj.dll"@;
            lemma_concat_parts("cp "@, src, z);
            let z1 = " /proj/Program.cs && (cd /proj && dotnet build -v q --nologo -o /proj/_out >/dev/null) && "@;
            let z2 = "dotnet /proj/_out/proj.dll"@;
            reveal_strlit(" /proj/Program.cs && (cd /proj && dotnet build -v q --nologo -o /proj/_out >/dev/null) && dotnet /proj/_out/proj.dll");
            reveal_strlit(" /proj/Program.cs && (cd /proj && dotnet build -v q --nologo -o /proj/_out >/dev/null) && ");
            reveal_strlit("dotnet /proj/_out/proj.dll");
            assert(z =~= z1 + z2);
            assert(cmd =~= ("cp "@ + src + z1) + z2);
            lemma_concat_parts("cp "@ + src + z1, z2, seq![]);
            assert(cmd =~= "cp "@ + (src + z));
            lemma_concat_parts("cp "@, src + z, seq![]);
        },
        Language::Rust => {},
    }
}

/// The lines that set up the container before the cases run (C# needs one project).
pub open spec fn script_prelude(language: Language) -> Seq<char> {
    "#!/bin/sh\n# 自動生成 (verifier)\n"@ + if language == Language::Csharp {
        "export DOTNET_CLI_TELEMETRY_OPTOUT=1\nexport DOTNET_NOLOGO=1\nexport DOTNET_SKIP_FIRST_TIME_EXPERIENCE=1\ndotnet new console -o /proj >/dev/null 2>&1\n"@
    } else {
        seq![]
    }
}

/// The line that runs one case under the per-case limit and keeps its stdout, stderr
/// and exit status apart.
pub open spec fn case_line(language: Language, case: RunCase) -> Seq<char> {
    "cd /w/cases/"@ + case.spec_dir_name() + " 2>/dev/null && { timeout "@ + decimal(
        CASE_TIMEOUT_SECS as nat,
    ) + " sh -c '"@ + run_command(language) + "' >_stdout 2>_stderr; echo $? >_exit; }\n"@
}

/// The case lines of `cases`, in order.
pub open spec fn case_lines(language: Language, cases: Seq<RunCase>) -> Seq<char>
    decreases cases.len(),
{
    if cases.len() == 0 {
        seq![]
    } else {
        case_lines(language, cases.drop_last()) + case_line(language, cases.last())
    }
}

/// The whole script of one container.
pub open spec fn spec_container_script(language: Language, cases: Seq<RunCase>) -> Seq<char> {
    script_prelude(language) + case_lines(language, cases) + "exit 0\n"@
}

fn run_command_exec(language: Language) -> (r: Vec<char>)
    ensures
        r@ == run_command(language),
{
    let src = language.source_file_name();
    let mut v: Vec<char> = Vec::new();
    match language {
        Language::Cpp => {
            push_str(&mut v, "g++ -std=c++17 -w -o _prog ");
            push_str(&mut v, src);
            push_str(&mut v, " && ./_prog");
        },
        Language::Java => {
            push_str(&mut v, "javac -nowarn ");
            push_str(&mut v, src);
            push_str(&mut v, " && java Main");
        },
        Language::Python => {
            push_str(&mut v, "python3 ");
            push_str(&mut v, src);
        },
        Language::Javascript => {
            push_str(&mut v, "node ");
            push_str(&mut v, src);
        },
        Language::Typescript => {
            push_str(&mut v, "tsc ");
            let flags = tsc_flags_cli();
            push_str(&mut v, flags.as_str());
            push_str(&mut v, " ");
            push_str(&mut v, src);
            push_str(&mut v, " && node prog.js");
        },
        Language::Csharp => {
            push_str(&mut v, "cp ");
            push_str(&mut v, src);
            push_str(
                &mut v,
                " /proj/Program.cs && (cd /proj && dotnet build -v q --nologo -o /proj/_out >/dev/null) && dotnet /proj/_out/proj.dll",
            );
        },
        Language::Rust => {},
    }
    proof {
        assert(v@ =~= run_command(language));
    }
    v
}

/// The `sh` script run in the container: for each case, in its directory, compile and
/// run under the per-case limit, writing `_stdout`, `_stderr` and `_exit` there. Stdout
/// and stderr stay apart because the pass marker is looked for in stdout.
pub fn container_script(language: Language, cases: &[RunCase]) -> (s: String)
    ensures
        s@ == spec_container_script(language, cases@),
{
    let run_one = run_command_exec(language);
    let t = decimal_exec(CASE_TIMEOUT_SECS);
    let mut v = chars_of("#!/bin/sh\n# 自動生成 (verifier)\n");
    if language == Language::Csharp {
        push_str(
            &mut v,
            "export DOTNET_CLI_TELEMETRY_OPTOUT=1\nexport DOTNET_NOLOGO=1\nexport DOTNET_SKIP_FIRST_TIME_EXPERIENCE=1\ndotnet new console -o /proj >/dev/null 2>&1\n",
        );
    }
    proof {
        assert(v@ =~= script_prelude(language));
        assert(cases@.take(0) =~= Seq::<RunCase>::empty());
    }
    let ghost prelude = v@;
    let mut i: usize = 0;
    while i < cases.len()
        invariant
            i <= cases@.len(),
            run_one@ == run_command(language),
            t@ == decimal(CASE_TIMEOUT_SECS as nat),
            v@ == prelude + case_lines(language, cases@.take(i as int)),
        decreases cases.len() - i,
    {
        let dir = cases[i].dir_name();
        let ghost before = v@;
        push_str(&mut v, "cd /w/cases/");
        push_str(&mut v, dir.as_str());
        push_str(&mut v, " 2>/dev/null && { timeout ");
        push_all(&mut v, &t);
        push_str(&mut v, " sh -c '");
        push_all(&mut v, &run_one);
        push_str(&mut v, "' >_stdout 2>_stderr; echo $? >_exit; }\n");
        proof {
            assert(cases@.take(i + 1).drop_last() =~= cases@.take(i as int));
            assert(cases@.take(i + 1).last() == cases@[i as int]);
            assert(v@ =~= before + case_line(language, cases@[i as int]));
        }
        i += 1;
    }
    push_str(&mut v, "exit 0\n");
    proof {
        assert(cases@.take(cases@.len() as int) =~= cases@);
        assert(v@ =~= spec_container_script(language, cases@));
    }
    string_of(&v)
}

/// The container runs of a batch: none when there is no case or the language runs
/// locally (Rust), else exactly one, network-isolated, under the pinned image, with a
/// limit of the base plus one case limit per case.
pub open spec fn spec_plan_batch(language: Language, cases: Seq<RunCase>, workdir: Seq<char>) -> Seq<
    (Seq<char>, Seq<char>, Seq<char>, bool, nat),
> {
    if cases.len() == 0 {
        seq![]
    } else {
        match language.spec_verify_image() {
            None => seq![],
            Some(image) => seq![
                (
                    image,
                    workdir,
                    spec_container_script(language, cases),
                    true,
                    (OVERALL_TIMEOUT_BASE_SECS + CASE_TIMEOUT_SECS * cases.len()) as nat,
                ),
            ],
        }
    }
}

/// A run as (image, work directory, script, network disabled, overall limit).
pub open spec fn run_view(r: DockerRun) -> (Seq<char>, Seq<char>, Seq<char>, bool, nat) {
    (r.image@, r.workdir@, r.script@, r.network_disabled, r.overall_timeout_secs as nat)
}

/// Plans the container runs of a batch; runs nothing.
pub fn plan_batch(language: Language, cases: &[RunCase], workdir: &str) -> (plan: Vec<DockerRun>)
    requires
        OVERALL_TIMEOUT_BASE_SECS + CASE_TIMEOUT_SECS * cases@.len() <= u64::MAX,
    ensures
        plan@.map_values(|r: DockerRun| run_view(r)) == spec_plan_batch(language, cases@, workdir@),
{
    let mut plan: Vec<DockerRun> = Vec::new();
    if cases.len() == 0 {
        assert(plan@.map_values(|r: DockerRun| run_view(r)) =~= spec_plan_batch(
            language,
            cases@,
            workdir@,
        ));
        return plan;
    }
    match language.verify_image() {
        None => {
            assert(plan@.map_values(|r: DockerRun| run_view(r)) =~= spec_plan_batch(
                language,
                cases@,
                workdir@,
            ));
        },
        Some(image) => {
            let n = cases.len() as u64;
            let run = DockerRun {
                image: string_of(&chars_of(image)),
                workdir: string_of(&chars_of(workdir)),
                script: container_script(language, cases),
                network_disabled: true,
                overall_timeout_secs: OVERALL_TIMEOUT_BASE_SECS + CASE_TIMEOUT_SECS * n,
            };
            plan.push(run);
            assert(plan@.map_values(|r: DockerRun| run_view(r)) =~= spec_plan_batch(
                language,
                cases@,
                workdir@,
            ));
        },
    }
    plan
}

/// The outcome of the preflight check: whether Docker answers, and which of the needed
/// languages lack their image (in the order given).
pub open spec fn spec_preflight(docker_ok: bool, missing: Seq<Language>) -> Result<(), Seq<char>> {
    if !docker_ok {
        Err("docker が使えません (デーモンが起動しているか確認してください)"@)
    } else if missing_names(missing).len() == 0 {
        Ok(())
    } else {
        Err(
            "検証イメージがありません: "@ + join(missing_names(missing), ", "@)
                + "\n  docker pull で取得してください (knocks-ts:5.6.2 は node:20 + typescript@5.6.2 の自前ビルド)"@,
        )
    }
}

/// `image (slug)` for each language that has an image.
pub open spec fn missing_names(missing: Seq<Language>) -> Seq<Seq<char>>
    decreases missing.len(),
{
    if missing.len() == 0 {
        seq![]
    } else {
        let l = missing.last();
        let rest = missing_names(missing.drop_last());
        match l.spec_verify_image() {
            Some(image) => rest.push(image + " ("@ + l.spec_slug() + ")"@),
            None => rest,
        }
    }
}

/// Decides the preflight check from what the host reported: Docker must answer, and the
/// image of every language in `missing` is absent.
pub fn preflight_result(docker_ok: bool, missing: &[Language]) -> (r: Result<(), String>)
    ensures
        match (r, spec_preflight(docker_ok, missing@)) {
            (Ok(()), Ok(())) => true,
            (Err(m), Err(e)) => m@ == e,
            _ => false,
        },
{
    if !docker_ok {
        return Err(string_of(&chars_of("docker が使えません (デーモンが起動しているか確認してください)")));
    }
    let mut names: Vec<char> = Vec::new();
    let mut count: usize = 0;
    let mut i: usize = 0;
    proof {
        assert(missing@.take(0) =~= Seq::<Language>::empty());
    }
    while i < missing.len()
        invariant
            i <= missing@.len(),
            count <= i,
            count == missing_names(missing@.take(i as int)).len(),
            names@ == join(missing_names(missing@.take(i as int)), ", "@),
        decreases missing.len() - i,
    {
        let l = missing[i];
        proof {
            assert(missing@.take(i + 1).drop_last() =~= missing@.take(i as int));
            assert(missing@.take(i + 1).last() == l);
        }
        match l.verify_image() {
            Some(image) => {
                if count > 0 {
                    push_str(&mut names, ", ");
                }
                push_str(&mut names, image);
                push_str(&mut names, " (");
                push_str(&mut names, l.slug());
                push_str(&mut names, ")");
                proof {
                    let prev = missing_names(missing@.take(i as int));
                    let cur = missing_names(missing@.take(i + 1));
                    assert(cur.drop_last() =~= prev);
                    if count > 0 {
                        assert(names@ =~= join(cur, ", "@));
                    } else {
                        assert(names@ =~= join(cur, ", "@));
                    }
                }
                count = count + 1;
            },
            None => {},
        }
        i += 1;
    }
    assert(missing@.take(missing@.len() as int) =~= missing@);
    if count == 0 {
        return Ok(());
    }
    let mut m = chars_of("検証イメージがありません: ");
    push_all(&mut m, &names);
    push_str(
        &mut m,
        "\n  docker pull で取得してください (knocks-ts:5.6.2 は node:20 + typescript@5.6.2 の自前ビルド)",
    );
    Err(string_of(&m))
}

/// A batch never needs more than one container, however many problems it holds: none for
/// Rust (run locally) or for no case, else exactly one, cut off from the network, whose
/// limit leaves each case its own limit; and its script visits every case's directory
/// under that limit.
pub proof fn law_one_container_per_batch(language: Language, cases: Seq<RunCase>, workdir: Seq<char>, k: int)
    ensures
        spec_plan_batch(language, cases, workdir).len() <= 1,
        spec_plan_batch(language, cases, workdir).len() == 1 <==> (cases.len() > 0 && language
            != Language::Rust),
        spec_plan_batch(language, cases, workdir).len() == 1 ==> spec_plan_batch(
            language,
            cases,
            workdir,
        )[0].3 && spec_plan_batch(language, cases, workdir)[0].4 >= CASE_TIMEOUT_SECS
            * cases.len(),
        0 <= k < cases.len() ==> contains(
            spec_container_script(language, cases),
            case_line(language, cases[k]),
        ),
{
    if 0 <= k < cases.len() {
        lemma_case_line_in_script(language, cases, k);
    }
}

proof fn lemma_case_line_in_lines(language: Language, cases: Seq<RunCase>, k: int) -> (i: int)
    requires
        0 <= k < cases.len(),
    ensures
        occurs_at(case_lines(language, cases), case_line(language, cases[k]), i),
    decreases cases.len(),
{
    let line = case_line(language, cases[k]);
    let before = case_lines(language, cases.drop_last());
    let whole = case_lines(language, cases);
    assert(whole == before + case_line(language, cases.last()));
    if k == cases.len() - 1 {
        assert(whole.subrange(before.len() as int, whole.len() as int) =~= line);
        before.len() as int
    } else {
        assert(cases.drop_last()[k] == cases[k]);
        let i = lemma_case_line_in_lines(language, cases.drop_last(), k);
        assert forall|j: int| 0 <= j < line.len() implies whole.subrange(i, i + line.len())[j]
            == line[j] by {
            assert(before.subrange(i, i + line.len())[j] == line[j]);
        }
        assert(whole.subrange(i, i + line.len()) =~= line);
        i
    }
}

proof fn lemma_case_line_in_script(language: Language, cases: Seq<RunCase>, k: int)
    requires
        0 <= k < cases.len(),
    ensures
        contains(spec_container_script(language, cases), case_line(language, cases[k])),
{
    let line = case_line(language, cases[k]);
    let lines = case_lines(language, cases);
    let pre = script_prelude(language);
    let whole = spec_container_script(language, cases);
    let i = lemma_case_line_in_lines(language, cases, k);
    assert forall|j: int| 0 <= j < line.len() implies whole.subrange(
        pre.len() + i,
        pre.len() + i + line.len(),
    )[j] == line[j] by {
        assert(lines.subrange(i, i + line.len())[j] == line[j]);
        assert(whole[pre.len() + i + j] == lines[i + j]);
    }
    assert(whole.subrange(pre.len() + i, pre.len() + i + line.len()) =~= line);
    assert(occurs_at(whole, line, pre.len() + i));
}

} // verus!
