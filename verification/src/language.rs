//! Supported languages, and which upstream backend runs each of them.
use vstd::prelude::*;
use crate::text::{chars_of, join, push_str, string_of, vec_eq};

verus! {

/// A language that problems are offered in.
#[derive(Clone, Copy, Debug, PartialEq, Eq, Hash, Structural)]
pub enum Language {
    Rust,
    Cpp,
    Csharp,
    Java,
    Python,
    Typescript,
    Javascript,
}

/// The upstream service that runs a submission.
#[derive(Clone, Copy, Debug, PartialEq, Eq)]
pub enum Backend {
    /// play.rust-lang.org/execute (Rust only)
    Playground,
    /// wandbox.org/api/compile.json
    Wandbox {
        compiler: &'static str,
        /// Wandbox `options` (compiler switches); None when none are needed.
        options: Option<&'static str>,
    },
}

/// The TypeScript compiler flags, shared by the upstream request and the local audit.
pub const TSC_FLAGS: [&'static str; 2] = ["--target", "es2020"];

/// All languages, in display order.
pub open spec fn all_languages() -> Seq<Language> {
    seq![
        Language::Rust,
        Language::Cpp,
        Language::Csharp,
        Language::Java,
        Language::Python,
        Language::Typescript,
        Language::Javascript,
    ]
}

/// The TypeScript flags as character sequences.
pub open spec fn tsc_flags() -> Seq<Seq<char>> {
    seq!["--target"@, "es2020"@]
}

fn join_tsc_flags(sep: &str) -> (r: String)
    ensures
        r@ == join(tsc_flags(), sep@),
{
    let flags = TSC_FLAGS;
    assert(flags[0]@ == "--target"@);
    assert(flags[1]@ == "es2020"@);
    let mut v = chars_of(flags[0]);
    push_str(&mut v, sep);
    push_str(&mut v, flags[1]);
    proof {
        assert(tsc_flags().drop_last() =~= seq!["--target"@]);
        assert(join(tsc_flags().drop_last(), sep@) == "--target"@);
        assert(v@ =~= join(tsc_flags(), sep@));
    }
    string_of(&v)
}

/// The TypeScript flags as one command line (`tsc --target es2020`).
pub fn tsc_flags_cli() -> (r: String)
    ensures
        r@ == join(tsc_flags(), " "@),
{
    join_tsc_flags(" ")
}

/// The TypeScript flags as Wandbox's `compiler-option-raw` wants them: one per line.
pub fn tsc_flags_wandbox_raw() -> (r: String)
    ensures
        r@ == join(tsc_flags(), "\n"@),
{
    join_tsc_flags("\n")
}

impl Language {
    /// Every language, in display order.
    pub const ALL: [Language; 7] = [
        Language::Rust,
        Language::Cpp,
        Language::Csharp,
        Language::Java,
        Language::Python,
        Language::Typescript,
        Language::Javascript,
    ];

    pub open spec fn spec_slug(self) -> Seq<char> {
        match self {
            Language::Rust => "rust"@,
            Language::Cpp => "cpp"@,
            Language::Csharp => "csharp"@,
            Language::Java => "java"@,
            Language::Python => "python"@,
            Language::Typescript => "typescript"@,
            Language::Javascript => "javascript"@,
        }
    }

    /// Identifier used in URLs, directory names and storage keys; equals the JSON form.
    pub fn slug(self) -> (s: &'static str)
        ensures
            s@ == self.spec_slug(),
    {
        match self {
            Language::Rust => "rust",
            Language::Cpp => "cpp",
            Language::Csharp => "csharp",
            Language::Java => "java",
            Language::Python => "python",
            Language::Typescript => "typescript",
            Language::Javascript => "javascript",
        }
    }

    pub open spec fn spec_label(self) -> Seq<char> {
        match self {
            Language::Rust => "Rust"@,
            Language::Cpp => "C++"@,
            Language::Csharp => "C#"@,
            Language::Java => "Java"@,
            Language::Python => "Python"@,
            Language::Typescript => "TypeScript"@,
            Language::Javascript => "JavaScript"@,
        }
    }

    /// Display name.
    pub fn label(self) -> (s: &'static str)
        ensures
            s@ == self.spec_label(),
    {
        match self {
            Language::Rust => "Rust",
            Language::Cpp => "C++",
            Language::Csharp => "C#",
            Language::Java => "Java",
            Language::Python => "Python",
            Language::Typescript => "TypeScript",
            Language::Javascript => "JavaScript",
        }
    }

    /// The language whose slug is `s`, if any.
    pub fn from_slug(s: &str) -> (r: Option<Language>)
        ensures
            match r {
                Some(l) => l.spec_slug() == s@,
                None => forall|l: Language| l.spec_slug() != s@,
            },
    {
        proof {
            reveal_strlit("rust");
            reveal_strlit("cpp");
            reveal_strlit("csharp");
            reveal_strlit("java");
            reveal_strlit("python");
            reveal_strlit("typescript");
            reveal_strlit("javascript");
        }
        let v = chars_of(s);
        let mut i: usize = 0;
        while i < 7
            invariant
                i <= 7,
                v@ == s@,
                forall|k: int| 0 <= k < i ==> all_languages()[k].spec_slug() != s@,
            decreases 7 - i,
        {
            let l = Self::ALL[i];
            assert(l == all_languages()[i as int]);
            let w = chars_of(l.slug());
            if vec_eq(&v, &w) {
                return Some(l);
            }
            i += 1;
        }
        assert forall|l: Language| l.spec_slug() != s@ by {
            assert(all_languages().contains(l));
        }
        None
    }

    /// CodeMirror language-mode identifier.
    pub fn editor_mode(self) -> (s: &'static str)
        ensures
            s@ == self.spec_slug(),
    {
        self.slug()
    }

    pub open spec fn spec_line_comment(self) -> Seq<char> {
        match self {
            Language::Python => "#"@,
            _ => "//"@,
        }
    }

    /// The line-comment marker, used for the separator comment before the hidden tests.
    pub fn line_comment(self) -> (s: &'static str)
        ensures
            s@ == self.spec_line_comment(),
    {
        match self {
            Language::Python => "#",
            _ => "//",
        }
    }

    pub open spec fn spec_backend(self) -> Backend {
        match self {
            Language::Rust => Backend::Playground,
            Language::Cpp => Backend::Wandbox { compiler: "gcc-13.2.0", options: Some("warning,c++17") },
            Language::Csharp => Backend::Wandbox { compiler: "dotnetcore-6.0.425", options: None },
            Language::Java => Backend::Wandbox { compiler: "openjdk-jdk-22+36", options: None },
            Language::Python => Backend::Wandbox { compiler: "cpython-3.13.8", options: None },
            Language::Typescript => Backend::Wandbox { compiler: "typescript-5.6.2", options: None },
            Language::Javascript => Backend::Wandbox { compiler: "nodejs-20.17.0", options: None },
        }
    }

    /// Where submissions in this language are run.
    pub fn backend(self) -> (b: Backend)
        ensures
            b == self.spec_backend(),
    {
        match self {
            Language::Rust => Backend::Playground,
            Language::Cpp => Backend::Wandbox {
                compiler: "gcc-13.2.0",
                options: Some("warning,c++17"),
            },
            Language::Csharp => Backend::Wandbox { compiler: "dotnetcore-6.0.425", options: None },
            Language::Java => Backend::Wandbox { compiler: "openjdk-jdk-22+36", options: None },
            Language::Python => Backend::Wandbox { compiler: "cpython-3.13.8", options: None },
            Language::Typescript => Backend::Wandbox { compiler: "typescript-5.6.2", options: None },
            Language::Javascript => Backend::Wandbox { compiler: "nodejs-20.17.0", options: None },
        }
    }

    pub open spec fn spec_verify_image(self) -> Option<Seq<char>> {
        match self {
            Language::Rust => None,
            Language::Cpp => Some("gcc:13"@),
            Language::Csharp => Some("mcr.microsoft.com/dotnet/sdk:6.0"@),
            Language::Java => Some("eclipse-temurin:22-jdk"@),
            Language::Python => Some("python:3.13"@),
            Language::Typescript => Some("knocks-ts:5.6.2"@),
            Language::Javascript => Some("node:20"@),
        }
    }

    /// The Docker image that audits problems of this language; None for Rust, which runs
    /// locally.
    pub fn verify_image(self) -> (r: Option<&'static str>)
        ensures
            match r {
                Some(s) => self.spec_verify_image() == Some(s@),
                None => self.spec_verify_image() is None,
            },
    {
        match self {
            Language::Rust => None,
            Language::Cpp => Some("gcc:13"),
            Language::Csharp => Some("mcr.microsoft.com/dotnet/sdk:6.0"),
            Language::Java => Some("eclipse-temurin:22-jdk"),
            Language::Python => Some("python:3.13"),
            Language::Typescript => Some("knocks-ts:5.6.2"),
            Language::Javascript => Some("node:20"),
        }
    }

    pub open spec fn spec_source_file_name(self) -> Seq<char> {
        match self {
            Language::Rust => "lib.rs"@,
            Language::Cpp => "prog.cc"@,
            Language::Csharp => "prog.cs"@,
            Language::Java => "prog.java"@,
            Language::Python => "prog.py"@,
            Language::Typescript => "prog.ts"@,
            Language::Javascript => "prog.js"@,
        }
    }

    /// File name of a submission, the same upstream and in the audit containers.
    pub fn source_file_name(self) -> (s: &'static str)
        ensures
            s@ == self.spec_source_file_name(),
    {
        match self {
            Language::Rust => "lib.rs",
            Language::Cpp => "prog.cc",
            Language::Csharp => "prog.cs",
            Language::Java => "prog.java",
            Language::Python => "prog.py",
            Language::Typescript => "prog.ts",
            Language::Javascript => "prog.js",
        }
    }
}

/// No slug holds a `/`.
pub(crate) proof fn lemma_slug_has_no_slash(l: Language)
    ensures
        forall|i: int| 0 <= i < l.spec_slug().len() ==> l.spec_slug()[i] != '/',
{
    reveal_strlit("rust");
    reveal_strlit("cpp");
    reveal_strlit("csharp");
    reveal_strlit("java");
    reveal_strlit("python");
    reveal_strlit("typescript");
    reveal_strlit("javascript");
}

/// Different languages have different slugs.
pub(crate) proof fn lemma_slug_injective(a: Language, b: Language)
    ensures
        a.spec_slug() == b.spec_slug() ==> a == b,
{
    reveal_strlit("rust");
    reveal_strlit("cpp");
    reveal_strlit("csharp");
    reveal_strlit("java");
    reveal_strlit("python");
    reveal_strlit("typescript");
    reveal_strlit("javascript");
    if a.spec_slug() == b.spec_slug() && a != b {
        assert(a.spec_slug().len() == b.spec_slug().len());
        assert(a.spec_slug()[0] == b.spec_slug()[0]);
        assert(a.spec_slug()[1] == b.spec_slug()[1]);
        assert(a.spec_slug()[4] == b.spec_slug()[4]);
    }
}

} // verus!
