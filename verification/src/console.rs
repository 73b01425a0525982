//! What the result console shows: the state of a run, the banner of each outcome, and
//! the split of a diagnostic line around rustc error codes (which link to their pages).
use vstd::prelude::*;
use crate::playground::{ExecuteResponse, LineKind, Outcome, is_error_code, is_error_code_exec};
use crate::text::{
    chars_of, find_from, find_from_spec, lemma_find_from_spec, lemma_find_from_unique, slice_exec,
    string_of,
};

verus! {

/// The state of the console.
#[derive(Clone, Debug, PartialEq)]
pub enum RunState {
    Idle,
    Running,
    Done { resp: ExecuteResponse, outcome: Outcome },
    Failed(String),
}

/// A piece of a diagnostic line: plain text, or a rustc error code.
#[derive(Clone, Debug, PartialEq, Eq)]
pub enum ConsoleSegment {
    Text(String),
    ErrorCode(String),
}

/// A segment as (is an error code, text).
pub open spec fn segment_view(s: ConsoleSegment) -> (bool, Seq<char>) {
    match s {
        ConsoleSegment::Text(t) => (false, t@),
        ConsoleSegment::ErrorCode(c) => (true, c@),
    }
}

/// The segments found while scanning `s` for `error[CODE]` from `from` on, with the text
/// before the next code starting at `cursor`; and the cursor where scanning stopped.
/// Text that is not a valid code stays in the text around it.
pub open spec fn split_rest(s: Seq<char>, cursor: int, from: int) -> (Seq<(bool, Seq<char>)>, int)
    decreases s.len() + 1 - from,
{
    if from < 0 || from > s.len() {
        (seq![], cursor)
    } else {
        match find_from_spec(s, "error["@, from) {
            None => (seq![], cursor),
            Some(p) => {
                proof {
                    reveal_strlit("error[");
                    lemma_find_from_spec(s, "error["@, from);
                }
                let cs = p + 6;
                match find_from_spec(s, "]"@, cs) {
                    None => (seq![], cursor),
                    Some(e) => {
                        proof {
                            lemma_find_from_spec(s, "]"@, cs);
                        }
                        let code = s.subrange(cs, e);
                        if is_error_code(code) {
                            let rest = split_rest(s, e, e);
                            let before: Seq<(bool, Seq<char>)> = if cs > cursor {
                                seq![(false, s.subrange(cursor, cs))]
                            } else {
                                seq![]
                            };
                            (before + seq![(true, code)] + rest.0, rest.1)
                        } else {
                            split_rest(s, cursor, cs)
                        }
                    },
                }
            },
        }
    }
}

/// The segments of `line`: the pieces of `split_rest`, then the text after the last
/// code (or the whole line when it has no code).
pub open spec fn spec_split_error_codes(line: Seq<char>) -> Seq<(bool, Seq<char>)> {
    let r = split_rest(line, 0, 0);
    if r.1 < line.len() || r.0.len() == 0 {
        r.0.push((false, line.skip(r.1)))
    } else {
        r.0
    }
}

/// The texts of `segs`, one after the other.
pub open spec fn concat_texts(segs: Seq<(bool, Seq<char>)>) -> Seq<char>
    decreases segs.len(),
{
    if segs.len() == 0 {
        seq![]
    } else {
        concat_texts(segs.drop_last()) + segs.last().1
    }
}

proof fn lemma_concat_texts_append(a: Seq<(bool, Seq<char>)>, b: Seq<(bool, Seq<char>)>)
    ensures
        concat_texts(a + b) == concat_texts(a) + concat_texts(b),
    decreases b.len(),
{
    if b.len() == 0 {
        assert(a + b =~= a);
    } else {
        lemma_concat_texts_append(a, b.drop_last());
        assert((a + b).drop_last() =~= a + b.drop_last());
    }
}

proof fn lemma_concat_texts_single(x: (bool, Seq<char>))
    ensures
        concat_texts(seq![x]) == x.1,
{
    assert(seq![x].drop_last() =~= Seq::<(bool, Seq<char>)>::empty());
    assert(concat_texts(Seq::<(bool, Seq<char>)>::empty()) == Seq::<char>::empty());
    assert(Seq::<char>::empty() + x.1 =~= x.1);
}

proof fn lemma_split_rest(s: Seq<char>, cursor: int, from: int)
    requires
        0 <= cursor <= from,
    ensures
        cursor <= split_rest(s, cursor, from).1 <= s.len() || (split_rest(s, cursor, from).1 == cursor
            && split_rest(s, cursor, from).0.len() == 0),
        cursor <= s.len() ==> concat_texts(split_rest(s, cursor, from).0) + s.skip(
            split_rest(s, cursor, from).1,
        ) == s.skip(cursor),
        forall|k: int|
            0 <= k < split_rest(s, cursor, from).0.len() && (#[trigger] split_rest(
                s,
                cursor,
                from,
            ).0[k]).0 ==> is_error_code(split_rest(s, cursor, from).0[k].1),
    decreases s.len() + 1 - from,
{
    reveal_strlit("error[");
    reveal_strlit("]");
    if from < 0 || from > s.len() {
        assert(concat_texts(seq![]) + s.skip(cursor) =~= s.skip(cursor));
    } else {
        match find_from_spec(s, "error["@, from) {
            None => {
                assert(concat_texts(seq![]) + s.skip(cursor) =~= s.skip(cursor));
            },
            Some(p) => {
                lemma_find_from_spec(s, "error["@, from);
                let cs = p + 6;
                match find_from_spec(s, "]"@, cs) {
                    None => {
                        assert(concat_texts(seq![]) + s.skip(cursor) =~= s.skip(cursor));
                    },
                    Some(e) => {
                        lemma_find_from_spec(s, "]"@, cs);
                        let code = s.subrange(cs, e);
                        if is_error_code(code) {
                            lemma_split_rest(s, e, e);
                            let rest = split_rest(s, e, e);
                            let before: Seq<(bool, Seq<char>)> = if cs > cursor {
                                seq![(false, s.subrange(cursor, cs))]
                            } else {
                                seq![]
                            };
                            let all = before + seq![(true, code)] + rest.0;
                            assert(split_rest(s, cursor, from) == (all, rest.1));
                            lemma_concat_texts_append(before + seq![(true, code)], rest.0);
                            lemma_concat_texts_append(before, seq![(true, code)]);
                            lemma_concat_texts_single((true, code));
                            if cs > cursor {
                                lemma_concat_texts_single((false, s.subrange(cursor, cs)));
                            } else {
                                assert(concat_texts(before) =~= s.subrange(cursor, cs));
                            }
                            assert(concat_texts(all) + s.skip(rest.1) =~= s.skip(cursor)) by {
                                assert(s.subrange(cursor, cs) + code + s.skip(e) =~= s.skip(cursor));
                            }
                            assert forall|k: int|
                                0 <= k < all.len() && (#[trigger] all[k]).0 implies is_error_code(
                                all[k].1,
                            ) by {
                                if k >= before.len() + 1 {
                                    assert(all[k] == rest.0[k - before.len() - 1]);
                                }
                            }
                        } else {
                            lemma_split_rest(s, cursor, cs);
                        }
                    },
                }
            },
        }
    }
}

/// Splitting a line loses nothing and invents nothing: its segments, put back together,
/// give the line; every error-code segment is a valid rustc code (`E` and four digits);
/// and there is always at least one segment.
pub proof fn law_split_error_codes_keeps_the_line(line: Seq<char>)
    ensures
        concat_texts(spec_split_error_codes(line)) == line,
        spec_split_error_codes(line).len() > 0,
        forall|k: int|
            0 <= k < spec_split_error_codes(line).len() && (#[trigger] spec_split_error_codes(
                line,
            )[k]).0 ==> is_error_code(spec_split_error_codes(line)[k].1),
{
    lemma_split_rest(line, 0, 0);
    let r = split_rest(line, 0, 0);
    assert(line.skip(0) =~= line);
    if r.1 < line.len() || r.0.len() == 0 {
        let segs = r.0.push((false, line.skip(r.1)));
        assert(segs.drop_last() =~= r.0);
    } else {
        assert(line.skip(r.1) =~= Seq::<char>::empty());
        assert(concat_texts(r.0) + Seq::<char>::empty() =~= concat_texts(r.0));
    }
}

/// Splits a line into plain text and rustc error codes (`error[E0308]` gives the text
/// `error[`, the code `E0308`, then the text from `]` on).
pub fn split_error_codes(line: &str) -> (segs: Vec<ConsoleSegment>)
    ensures
        segs@.map_values(|x: ConsoleSegment| segment_view(x)) == spec_split_error_codes(line@),
{
    proof {
        reveal_strlit("error[");
        reveal_strlit("]");
    }
    let s = chars_of(line);
    let pat = chars_of("error[");
    let close = chars_of("]");
    let mut segs: Vec<ConsoleSegment> = Vec::new();
    let mut cursor: usize = 0;
    let mut from: usize = 0;
    let ghost whole = split_rest(s@, 0, 0);
    assert(segs@.map_values(|x: ConsoleSegment| segment_view(x)) + whole.0 =~= whole.0);
    loop
        invariant
            cursor <= from <= s.len(),
            s@ == line@,
            pat@ == "error["@,
            close@ == "]"@,
            pat.len() == 6,
            whole == split_rest(s@, 0, 0),
            segs@.map_values(|x: ConsoleSegment| segment_view(x)) + split_rest(
                s@,
                cursor as int,
                from as int,
            ).0 == whole.0,
            split_rest(s@, cursor as int, from as int).1 == whole.1,
        ensures
            segs@.map_values(|x: ConsoleSegment| segment_view(x)) == whole.0,
            cursor == whole.1,
            cursor <= s.len(),
        decreases s.len() + 1 - from,
    {
        let ghost before = segs@.map_values(|x: ConsoleSegment| segment_view(x));
        match find_from(&s, &pat, from) {
            None => {
                proof {
                    lemma_find_from_unique(s@, pat@, from as int, None);
                    assert(before + Seq::<(bool, Seq<char>)>::empty() =~= before);
                }
                break ;
            },
            Some(p) => {
                proof {
                    lemma_find_from_unique(s@, pat@, from as int, Some(p as int));
                    lemma_find_from_spec(s@, pat@, from as int);
                }
                let cs = p + 6;
                match find_from(&s, &close, cs) {
                    None => {
                        proof {
                            lemma_find_from_unique(s@, close@, cs as int, None);
                            assert(before + Seq::<(bool, Seq<char>)>::empty() =~= before);
                        }
                        break ;
                    },
                    Some(e) => {
                        proof {
                            lemma_find_from_unique(s@, close@, cs as int, Some(e as int));
                        }
                        let code = slice_exec(&s, cs, e);
                        if is_error_code_exec(&code) {
                            if cs > cursor {
                                let t = slice_exec(&s, cursor, cs);
                                segs.push(ConsoleSegment::Text(string_of(&t)));
                            }
                            segs.push(ConsoleSegment::ErrorCode(string_of(&code)));
                            proof {
                                let b: Seq<(bool, Seq<char>)> = if cs > cursor {
                                    seq![(false, s@.subrange(cursor as int, cs as int))]
                                } else {
                                    seq![]
                                };
                                assert(segs@.map_values(|x: ConsoleSegment| segment_view(x))
                                    =~= before + b + seq![(true, code@)]);
                                let rest = split_rest(s@, e as int, e as int);
                                assert(split_rest(s@, cursor as int, from as int) == (
                                    b + seq![(true, code@)] + rest.0,
                                    rest.1,
                                ));
                                assert(before + (b + seq![(true, code@)] + rest.0) =~= (before + b
                                    + seq![(true, code@)]) + rest.0);
                            }
                            cursor = e;
                            from = e;
                        } else {
                            from = cs;
                        }
                    },
                }
            },
        }
    }
    proof {
        lemma_split_rest(s@, 0, 0);
    }
    if cursor < s.len() || segs.len() == 0 {
        let ghost before = segs@.map_values(|x: ConsoleSegment| segment_view(x));
        let t = slice_exec(&s, cursor, s.len());
        segs.push(ConsoleSegment::Text(string_of(&t)));
        assert(segs@.map_values(|x: ConsoleSegment| segment_view(x)) =~= before.push(
            (false, s@.skip(cursor as int)),
        ));
    }
    segs
}

pub open spec fn spec_outcome_banner_parts(outcome: Outcome) -> (Seq<char>, Seq<char>) {
    match outcome {
        Outcome::Passed => ("outcome-banner passed"@, "✓ 正解!"@),
        Outcome::TestsFailed => ("outcome-banner tests-failed"@, "△ テスト失敗 — もう一歩"@),
        Outcome::CompileError => ("outcome-banner compile-error"@, "✗ コンパイルエラー"@),
        Outcome::RuntimeError => ("outcome-banner runtime-error"@, "✗ 実行時エラー"@),
        Outcome::NoTestsRun => ("outcome-banner no-tests-run"@, "✗ テストが実行されませんでした"@),
    }
}

/// The CSS class and the label of the banner of an outcome.
pub fn outcome_banner_parts(outcome: Outcome) -> (r: (&'static str, &'static str))
    ensures
        (r.0@, r.1@) == spec_outcome_banner_parts(outcome),
{
    match outcome {
        Outcome::Passed => ("outcome-banner passed", "✓ 正解!"),
        Outcome::TestsFailed => ("outcome-banner tests-failed", "△ テスト失敗 — もう一歩"),
        Outcome::CompileError => ("outcome-banner compile-error", "✗ コンパイルエラー"),
        Outcome::RuntimeError => ("outcome-banner runtime-error", "✗ 実行時エラー"),
        Outcome::NoTestsRun => ("outcome-banner no-tests-run", "✗ テストが実行されませんでした"),
    }
}

/// Why the tests did not run, for the one outcome that needs saying.
pub open spec fn no_tests_run_note() -> Seq<char> {
    "判定用テストは 1 件も実行されませんでした。テストはあなたのコードの後ろに連結されるので、途中でプログラムを終了させる (exit / process.exit / System.exit など) と、そこから先が走りません。終了処理を消すか、関数の中だけで完結する形に書き直してください。"@
}

/// An explanation under the banner, for the outcome whose cause the banner cannot show.
pub fn outcome_note(outcome: Outcome) -> (r: Option<&'static str>)
    ensures
        match r {
            Some(n) => outcome == Outcome::NoTestsRun && n@ == no_tests_run_note(),
            None => outcome != Outcome::NoTestsRun,
        },
{
    match outcome {
        Outcome::NoTestsRun => Some(
            "判定用テストは 1 件も実行されませんでした。テストはあなたのコードの後ろに連結されるので、途中でプログラムを終了させる (exit / process.exit / System.exit など) と、そこから先が走りません。終了処理を消すか、関数の中だけで完結する形に書き直してください。",
        ),
        _ => None,
    }
}

/// The CSS class of a diagnostic line of `kind`.
pub fn line_class(kind: LineKind) -> (s: &'static str)
    ensures
        s@ == (match kind {
            LineKind::Error => "line-error"@,
            LineKind::Warning => "line-warning"@,
            LineKind::Note => "line-note"@,
            LineKind::Plain => "line-plain"@,
        }),
{
    match kind {
        LineKind::Error => "line-error",
        LineKind::Warning => "line-warning",
        LineKind::Note => "line-note",
        LineKind::Plain => "line-plain",
    }
}

} // verus!
