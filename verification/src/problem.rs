//! Problem schema, difficulty levels, and where problem data lives.
use vstd::prelude::*;
use crate::language::{Language, lemma_slug_has_no_slash, lemma_slug_injective};
use crate::text::{chars_of, ends_with, occurs_at, push_str, starts_with, string_of, vec_eq};

verus! {

/// Difficulty level.
#[derive(Clone, Copy, Debug, PartialEq, Eq, Hash, Structural)]
pub enum Level {
    Beginner,
    Intermediate,
    Advanced,
}

/// All levels, in display order.
pub open spec fn all_levels() -> Seq<Level> {
    seq![Level::Beginner, Level::Intermediate, Level::Advanced]
}

impl Level {
    /// Every level, in display order.
    pub const ALL: [Level; 3] = [Level::Beginner, Level::Intermediate, Level::Advanced];

    pub open spec fn spec_label_ja(self) -> Seq<char> {
        match self {
            Level::Beginner => "初級"@,
            Level::Intermediate => "中級"@,
            Level::Advanced => "上級"@,
        }
    }

    /// Japanese display name.
    pub fn label_ja(&self) -> (s: &'static str)
        ensures
            s@ == self.spec_label_ja(),
    {
        match self {
            Level::Beginner => "初級",
            Level::Intermediate => "中級",
            Level::Advanced => "上級",
        }
    }

    pub open spec fn spec_id_prefix(self) -> char {
        match self {
            Level::Beginner => 'b',
            Level::Intermediate => 'i',
            Level::Advanced => 'a',
        }
    }

    /// First character of a problem id of this level (b001 / i001 / a001).
    pub fn id_prefix(&self) -> (c: char)
        ensures
            c == self.spec_id_prefix(),
    {
        match self {
            Level::Beginner => 'b',
            Level::Intermediate => 'i',
            Level::Advanced => 'a',
        }
    }

    pub open spec fn spec_slug(self) -> Seq<char> {
        match self {
            Level::Beginner => "beginner"@,
            Level::Intermediate => "intermediate"@,
            Level::Advanced => "advanced"@,
        }
    }

    /// Identifier of the level in URLs and JSON.
    pub fn slug(&self) -> (s: &'static str)
        ensures
            s@ == self.spec_slug(),
    {
        match self {
            Level::Beginner => "beginner",
            Level::Intermediate => "intermediate",
            Level::Advanced => "advanced",
        }
    }

    pub open spec fn spec_file_name(self) -> Seq<char> {
        match self {
            Level::Beginner => "beginner.json"@,
            Level::Intermediate => "intermediate.json"@,
            Level::Advanced => "advanced.json"@,
        }
    }

    /// Name of the data file of this level.
    pub fn file_name(&self) -> (s: &'static str)
        ensures
            s@ == self.spec_file_name(),
    {
        match self {
            Level::Beginner => "beginner.json",
            Level::Intermediate => "intermediate.json",
            Level::Advanced => "advanced.json",
        }
    }

    /// The level whose slug is `s`, if any.
    pub fn from_slug(s: &str) -> (r: Option<Level>)
        ensures
            match r {
                Some(l) => l.spec_slug() == s@,
                None => forall|l: Level| l.spec_slug() != s@,
            },
    {
        proof {
            reveal_strlit("beginner");
            reveal_strlit("intermediate");
            reveal_strlit("advanced");
        }
        let v = chars_of(s);
        let mut i: usize = 0;
        while i < 3
            invariant
                i <= 3,
                v@ == s@,
                forall|k: int| 0 <= k < i ==> all_levels()[k].spec_slug() != s@,
            decreases 3 - i,
        {
            let l = Self::ALL[i];
            assert(l == all_levels()[i as int]);
            let w = chars_of(l.slug());
            if vec_eq(&v, &w) {
                return Some(l);
            }
            i += 1;
        }
        assert forall|l: Level| l.spec_slug() != s@ by {
            assert(all_levels().contains(l));
        }
        None
    }
}

/// Path of a problem file relative to the repository root.
pub open spec fn spec_problems_rel_path(language: Language, level: Level) -> Seq<char> {
    "data/problems/"@ + language.spec_slug() + "/"@ + level.spec_file_name()
}

/// Where the problems of `language` at `level` are kept (the path is authoritative for
/// the language and level; the fields of each problem repeat it).
pub fn problems_rel_path(language: Language, level: Level) -> (s: String)
    ensures
        s@ == spec_problems_rel_path(language, level),
{
    let mut v = chars_of("data/problems/");
    push_str(&mut v, language.slug());
    push_str(&mut v, "/");
    push_str(&mut v, level.file_name());
    string_of(&v)
}

proof fn lemma_file_name_injective(a: Level, b: Level)
    ensures
        a.spec_file_name() == b.spec_file_name() ==> a == b,
{
    reveal_strlit("beginner.json");
    reveal_strlit("intermediate.json");
    reveal_strlit("advanced.json");
    if a.spec_file_name() == b.spec_file_name() && a != b {
        assert(a.spec_file_name().len() == b.spec_file_name().len());
        assert(a.spec_file_name()[0] == b.spec_file_name()[0]);
    }
}

/// The data files of different languages or levels never share a path: the path names
/// the language and the level.
pub proof fn law_problem_paths_distinct(l1: Language, v1: Level, l2: Language, v2: Level)
    ensures
        spec_problems_rel_path(l1, v1) == spec_problems_rel_path(l2, v2) ==> l1 == l2 && v1 == v2,
{
    let p1 = spec_problems_rel_path(l1, v1);
    let p2 = spec_problems_rel_path(l2, v2);
    if p1 == p2 {
        reveal_strlit("data/problems/");
        reveal_strlit("/");
        let pre = "data/problems/"@;
        let s1 = l1.spec_slug();
        let s2 = l2.spec_slug();
        let k1 = s1 + "/"@ + v1.spec_file_name();
        let k2 = s2 + "/"@ + v2.spec_file_name();
        assert(p1 =~= pre + k1);
        assert(p2 =~= pre + k2);
        assert(k1 =~= p1.skip(pre.len() as int));
        assert(k2 =~= p2.skip(pre.len() as int));
        assert(k1 == k2);
        lemma_slug_has_no_slash(l1);
        lemma_slug_has_no_slash(l2);
        assert(k1[s1.len() as int] == '/');
        assert(k2[s2.len() as int] == '/');
        if s1.len() < s2.len() {
            assert(k2[s1.len() as int] == s2[s1.len() as int]);
            assert(false);
        }
        if s2.len() < s1.len() {
            assert(k1[s2.len() as int] == s1[s2.len() as int]);
            assert(false);
        }
        assert(s1 =~= k1.take(s1.len() as int));
        assert(s2 =~= k2.take(s2.len() as int));
        lemma_slug_injective(l1, l2);
        assert(v1.spec_file_name() =~= k1.skip(s1.len() as int + 1));
        assert(v2.spec_file_name() =~= k2.skip(s2.len() as int + 1));
        lemma_file_name_injective(v1, v2);
    }
}

/// Manifest of the languages that have data, generated at build time.
pub const MANIFEST_URL: &'static str = "/data/problems/index.json";

/// URL the front end fetches the problems of `language` at `level` from.
pub fn problems_url(language: Language, level: Level) -> (s: String)
    ensures
        s@ == "/"@ + spec_problems_rel_path(language, level),
{
    let mut v = chars_of("/data/problems/");
    push_str(&mut v, language.slug());
    push_str(&mut v, "/");
    push_str(&mut v, level.file_name());
    proof {
        reveal_strlit("/data/problems/");
        reveal_strlit("data/problems/");
        reveal_strlit("/");
        assert(v@ =~= "/"@ + spec_problems_rel_path(language, level));
    }
    string_of(&v)
}

/// One practice problem.
#[derive(Clone, Debug, PartialEq)]
pub struct Problem {
    pub id: String,
    pub language: Language,
    pub level: Level,
    pub title: String,
    pub description_md: String,
    pub starter_code: String,
    /// Code appended to the user's code to judge it; shipped to the front end, never shown.
    pub hidden_tests: String,
    pub answer_code: String,
    pub explanation_md: String,
    pub hints: Vec<String>,
    pub tags: Vec<String>,
}

/// The separator comment text that follows the line-comment marker.
pub open spec fn separator_text() -> Seq<char> {
    " ===== 判定用テスト (自動付加) =====\n"@
}

/// The submission made of `user_code` and `hidden_tests`.
pub open spec fn spec_compose_submission(
    language: Language,
    user_code: Seq<char>,
    hidden_tests: Seq<char>,
) -> Seq<char> {
    user_code + "\n\n"@ + language.spec_line_comment() + separator_text() + hidden_tests + "\n"@
}

/// Joins the user's code and the hidden tests into one submission.
///
/// The user's code comes first so that diagnostics carry the line numbers the user wrote;
/// the separator is a comment in the language's own syntax.
pub fn compose_submission(language: Language, user_code: &str, hidden_tests: &str) -> (s: String)
    ensures
        s@ == spec_compose_submission(language, user_code@, hidden_tests@),
{
    let mut v = chars_of(user_code);
    push_str(&mut v, "\n\n");
    push_str(&mut v, language.line_comment());
    push_str(&mut v, " ===== 判定用テスト (自動付加) =====\n");
    push_str(&mut v, hidden_tests);
    push_str(&mut v, "\n");
    string_of(&v)
}

/// The user's code comes first and unchanged, so that a diagnostic's line number is the
/// user's own; then a blank line, the separator as a comment of the language, and the
/// hidden tests with a final line break.
pub proof fn law_user_code_first(language: Language, user_code: Seq<char>, hidden_tests: Seq<char>)
    ensures
        starts_with(spec_compose_submission(language, user_code, hidden_tests), user_code),
        occurs_at(
            spec_compose_submission(language, user_code, hidden_tests),
            "\n\n"@ + language.spec_line_comment() + separator_text(),
            user_code.len() as int,
        ),
        ends_with(
            spec_compose_submission(language, user_code, hidden_tests),
            hidden_tests + "\n"@,
        ),
{
    let s = spec_compose_submission(language, user_code, hidden_tests);
    let sep = "\n\n"@ + language.spec_line_comment() + separator_text();
    assert(s =~= user_code + sep + (hidden_tests + "\n"@));
    assert(s.subrange(0, user_code.len() as int) =~= user_code);
    assert(s.subrange(user_code.len() as int, (user_code.len() + sep.len()) as int) =~= sep);
    assert(s.subrange(s.len() - (hidden_tests + "\n"@).len(), s.len() as int) =~= hidden_tests
        + "\n"@);
}

} // verus!
