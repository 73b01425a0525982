//! Choosing the language on the front end: which languages the selector offers, what is
//! selected at start and after the data check, and the wording that depends on it.
use vstd::prelude::*;
use crate::language::{Backend, Language, all_languages};
use crate::problem::{Level, all_levels};
use crate::text::{chars_of, push_str, string_of};
use crate::text::vec_eq;

verus! {

/// The storage key of the selected language, next to the progress keys.
pub const LANGUAGE_STORAGE_KEY: &'static str = "rust100knocks.language.v1";

/// Whether some language has slug `s`.
pub open spec fn is_language_slug(s: Seq<char>) -> bool {
    exists|l: Language| l.spec_slug() == s
}

/// The language selected at start: the stored one when it names a language, else Rust.
pub fn initial_language(stored: Option<&str>) -> (r: Language)
    ensures
        match stored {
            Some(s) => if is_language_slug(s@) {
                r.spec_slug() == s@
            } else {
                r == Language::Rust
            },
            None => r == Language::Rust,
        },
{
    match stored {
        Some(s) => match Language::from_slug(s) {
            Some(l) => l,
            None => Language::Rust,
        },
        None => Language::Rust,
    }
}

/// The selection once the languages with data are known: kept when it has data or when
/// nothing could be confirmed (an empty list), else moved to the first available one.
pub open spec fn spec_resolve_selection(current: Language, available: Seq<Language>) -> Language {
    if available.len() == 0 || available.contains(current) {
        current
    } else {
        available[0]
    }
}

/// Moves the selection to a language that has data (see `spec_resolve_selection`).
pub fn resolve_selection(current: Language, available: &[Language]) -> (r: Language)
    ensures
        r == spec_resolve_selection(current, available@),
{
    if available.len() == 0 {
        return current;
    }
    let mut i: usize = 0;
    while i < available.len()
        invariant
            i <= available@.len(),
            forall|k: int| 0 <= k < i ==> available@[k] != current,
        decreases available.len() - i,
    {
        if available[i] == current {
            return current;
        }
        i += 1;
    }
    available[0]
}

/// The languages the selector offers: the confirmed ones; when none could be confirmed,
/// the current one if its data loaded; otherwise Rust (whose data always exists) and the
/// current one, so that the learner can always switch back.
pub open spec fn spec_selector_languages(
    available: Seq<Language>,
    current: Language,
    current_loaded: bool,
) -> Seq<Language> {
    if available.len() > 0 {
        available
    } else if current_loaded {
        seq![current]
    } else if current == Language::Rust {
        seq![Language::Rust]
    } else {
        seq![Language::Rust, current]
    }
}

/// The languages of the selector (see `spec_selector_languages`); never empty.
pub fn selector_languages(available: &[Language], current: Language, current_loaded: bool) -> (r:
    Vec<Language>)
    ensures
        r@ == spec_selector_languages(available@, current, current_loaded),
        r@.len() > 0,
{
    let mut r: Vec<Language> = Vec::new();
    if available.len() > 0 {
        let mut i: usize = 0;
        while i < available.len()
            invariant
                i <= available@.len(),
                r@ == available@.take(i as int),
            decreases available.len() - i,
        {
            r.push(available[i]);
            assert(r@ =~= available@.take(i + 1));
            i += 1;
        }
        assert(available@.take(available@.len() as int) =~= available@);
        return r;
    }
    if current_loaded {
        r.push(current);
    } else if current == Language::Rust {
        r.push(Language::Rust);
    } else {
        r.push(Language::Rust);
        r.push(current);
    }
    assert(r@ =~= spec_selector_languages(available@, current, current_loaded));
    r
}

/// The selector always offers a way back: it is never empty, and when no language could
/// be confirmed and the current one did not load, it offers Rust and the current one.
pub proof fn law_selector_never_empty(available: Seq<Language>, current: Language, loaded: bool)
    ensures
        spec_selector_languages(available, current, loaded).len() > 0,
        available.len() == 0 && !loaded ==> spec_selector_languages(
            available,
            current,
            loaded,
        ).contains(Language::Rust) && spec_selector_languages(available, current, loaded).contains(
            current,
        ),
        available.len() > 0 ==> spec_resolve_selection(current, available) == current
            || spec_resolve_selection(current, available) == available[0],
        available.len() > 0 ==> available.contains(spec_resolve_selection(current, available)),
{
    if available.len() == 0 && !loaded {
        let s = spec_selector_languages(available, current, loaded);
        assert(s[0] == Language::Rust);
        if current == Language::Rust {
            assert(s[0] == current);
        } else {
            assert(s[1] == current);
        }
    }
    if available.len() > 0 && !available.contains(current) {
        assert(available[0] == available[0]);
    }
}

pub open spec fn spec_backend_label(language: Language) -> Seq<char> {
    match language.spec_backend() {
        Backend::Playground => "Rust Playground"@,
        Backend::Wandbox { .. } => "Wandbox"@,
    }
}

/// The name of the upstream service that runs `language`.
pub fn backend_label(language: Language) -> (s: &'static str)
    ensures
        s@ == spec_backend_label(language),
{
    match language.backend() {
        Backend::Playground => "Rust Playground",
        Backend::Wandbox { .. } => "Wandbox",
    }
}

pub open spec fn spec_console_idle_hint() -> Seq<char> {
    "コードを書いて「実行して判定」(Ctrl+Enter) を押すと、ここに実物の診断出力と判定結果が表示されます。"@
}

/// The console text before any run; the same for every language.
pub fn console_idle_hint() -> (s: &'static str)
    ensures
        s@ == spec_console_idle_hint(),
{
    "コードを書いて「実行して判定」(Ctrl+Enter) を押すと、ここに実物の診断出力と判定結果が表示されます。"
}

/// The console text while a run is under way: where it runs, and in which language.
pub fn console_running_hint(language: Language) -> (s: String)
    ensures
        s@ == spec_backend_label(language) + " で "@ + language.spec_label()
            + " のコードを実行しています…"@,
{
    let mut v = chars_of(backend_label(language));
    push_str(&mut v, " で ");
    push_str(&mut v, language.label());
    push_str(&mut v, " のコードを実行しています…");
    string_of(&v)
}

/// Whether error codes link to their official pages: only rustc has such pages.
pub fn links_error_codes(language: Language) -> (b: bool)
    ensures
        b == (language == Language::Rust),
{
    language == Language::Rust
}

/// A language entry of the manifest of available data, as read from JSON: its `slug`
/// when that is a string, and its `levels` when they are an array (each item when it is
/// a string).
#[derive(Clone, Debug)]
pub struct ManifestEntry {
    pub slug: Option<String>,
    pub levels: Option<Vec<Option<String>>>,
}

/// An entry as plain values.
pub open spec fn manifest_entry_view(e: ManifestEntry) -> (Option<Seq<char>>, Option<Seq<Option<Seq<char>>>>) {
    (
        match e.slug {
            Some(s) => Some(s@),
            None => None,
        },
        match e.levels {
            Some(v) => Some(
                v@.map_values(
                    |x: Option<String>|
                        match x {
                            Some(s) => Some(s@),
                            None => None,
                        },
                ),
            ),
            None => None,
        },
    )
}

/// The entries of the `languages` array of the manifest `json`; none when the text is
/// not JSON or has no such array.
pub uninterp spec fn manifest_entries(json: Seq<char>) -> Option<
    Seq<(Option<Seq<char>>, Option<Seq<Option<Seq<char>>>>)>,
>;

/// Reads the manifest with `serde_json::from_str` into a `serde_json::Value`, and takes
/// from it, without judging anything, the `languages` array and each entry's `slug` and
/// `levels`. The contract names the result; it says nothing of how JSON is parsed.
#[verifier::external_body]
fn read_manifest(json: &str) -> (r: Option<Vec<ManifestEntry>>)
    ensures
        match r {
            Some(es) => manifest_entries(json@) == Some(
                es@.map_values(|e: ManifestEntry| manifest_entry_view(e)),
            ),
            None => manifest_entries(json@) is None,
        },
{
    let v: serde_json::Value = serde_json::from_str(json).ok()?;
    let entries = v.get("languages")?.as_array()?;
    Some(entries.iter().map(|e| ManifestEntry {
        slug: e.get("slug").and_then(|s| s.as_str()).map(String::from),
        levels: e.get("levels").and_then(|l| l.as_array()).map(
            |a| a.iter().map(|x| x.as_str().map(String::from)).collect(),
        ),
    }).collect())
}

/// The entry names `language` and lists every level.
pub open spec fn entry_complete(
    e: (Option<Seq<char>>, Option<Seq<Option<Seq<char>>>>),
    language: Language,
) -> bool {
    e.0 == Some(language.spec_slug()) && e.1 is Some && forall|lv: Level|
        #![trigger lv.spec_slug()]
        e.1->0.contains(Some(lv.spec_slug()))
}

/// Some entry of `es` is complete for `language`.
pub open spec fn has_complete_entry(
    es: Seq<(Option<Seq<char>>, Option<Seq<Option<Seq<char>>>>)>,
    language: Language,
) -> bool {
    exists|k: int| 0 <= k < es.len() && entry_complete(#[trigger] es[k], language)
}

/// The languages that have data at every level, in the canonical order.
pub open spec fn spec_complete_languages(es: Seq<(Option<Seq<char>>, Option<Seq<Option<Seq<char>>>>)>) -> Seq<
    Language,
> {
    all_languages().filter(|l: Language| has_complete_entry(es, l))
}

fn contains_slug(levels: &Vec<Option<String>>, slug: &str) -> (b: bool)
    ensures
        b == levels@.map_values(
            |x: Option<String>|
                match x {
                    Some(s) => Some(s@),
                    None => None,
                },
        ).contains(Some(slug@)),
{
    let ghost vs = levels@.map_values(
        |x: Option<String>|
            match x {
                Some(s) => Some(s@),
                None => None,
            },
    );
    let want = chars_of(slug);
    let mut i: usize = 0;
    while i < levels.len()
        invariant
            i <= levels@.len(),
            want@ == slug@,
            vs == levels@.map_values(
                |x: Option<String>|
                    match x {
                        Some(s) => Some(s@),
                        None => None,
                    },
            ),
            forall|k: int| 0 <= k < i ==> vs[k] != Some(slug@),
        decreases levels.len() - i,
    {
        match &levels[i] {
            Some(s) => {
                if vec_eq(&chars_of(s.as_str()), &want) {
                    assert(vs[i as int] == Some(slug@));
                    return true;
                }
            },
            None => {},
        }
        i += 1;
    }
    false
}

fn entry_complete_exec(e: &ManifestEntry, language: Language) -> (b: bool)
    ensures
        b == entry_complete(manifest_entry_view(*e), language),
{
    let slug_ok = match &e.slug {
        Some(s) => vec_eq(&chars_of(s.as_str()), &chars_of(language.slug())),
        None => false,
    };
    if !slug_ok {
        return false;
    }
    match &e.levels {
        None => false,
        Some(levels) => {
            let b = contains_slug(levels, "beginner") && contains_slug(levels, "intermediate")
                && contains_slug(levels, "advanced");
            proof {
                let v = manifest_entry_view(*e);
                if b {
                    assert forall|lv: Level| #![trigger lv.spec_slug()]
                        v.1->0.contains(Some(lv.spec_slug())) by {
                        match lv {
                            Level::Beginner => {},
                            Level::Intermediate => {},
                            Level::Advanced => {},
                        }
                    }
                } else {
                    if !v.1->0.contains(Some(Level::Beginner.spec_slug())) {
                    } else if !v.1->0.contains(Some(Level::Intermediate.spec_slug())) {
                    } else {
                        assert(!v.1->0.contains(Some(Level::Advanced.spec_slug())));
                    }
                }
            }
            b
        },
    }
}

/// The languages with data at every level according to the manifest entries `entries`,
/// in the canonical order (not the manifest's).
pub fn complete_languages(entries: &[ManifestEntry]) -> (r: Vec<Language>)
    ensures
        r@ == spec_complete_languages(entries@.map_values(|e: ManifestEntry| manifest_entry_view(e))),
{
    let ghost es = entries@.map_values(|e: ManifestEntry| manifest_entry_view(e));
    let all = Language::ALL;
    let mut r: Vec<Language> = Vec::new();
    let mut i: usize = 0;
    assert(all_languages().take(0) =~= Seq::<Language>::empty());
    while i < 7
        invariant
            i <= 7,
            all@ == all_languages(),
            es == entries@.map_values(|e: ManifestEntry| manifest_entry_view(e)),
            r@ == all_languages().take(i as int).filter(|l: Language| has_complete_entry(es, l)),
        decreases 7 - i,
    {
        let l = all[i];
        let mut found = false;
        let mut j: usize = 0;
        while j < entries.len()
            invariant
                j <= entries@.len(),
                es == entries@.map_values(|e: ManifestEntry| manifest_entry_view(e)),
                found <==> exists|k: int| 0 <= k < j && entry_complete(#[trigger] es[k], l),
            decreases entries.len() - j,
        {
            assert(es[j as int] == manifest_entry_view(entries@[j as int]));
            if entry_complete_exec(&entries[j], l) {
                found = true;
            }
            j += 1;
        }
        proof {
            let t = all_languages().take(i + 1);
            assert(t.drop_last() =~= all_languages().take(i as int));
            assert(t.last() == l);
            all_languages().take(i as int).lemma_filter_push(
                l,
                |x: Language| has_complete_entry(es, x),
            );
            assert(all_languages().take(i as int).push(l) =~= t);
        }
        if found {
            r.push(l);
        }
        i += 1;
    }
    assert(all_languages().take(7) =~= all_languages());
    r
}

/// The languages that have data at every level, from the manifest text: none when the
/// manifest could not be read, which is not the same as an empty list.
pub fn languages_from_manifest(json: &str) -> (r: Option<Vec<Language>>)
    ensures
        match manifest_entries(json@) {
            None => r is None,
            Some(es) => r is Some && r->0@ == spec_complete_languages(es),
        },
{
    match read_manifest(json) {
        None => None,
        Some(entries) => Some(complete_languages(&entries)),
    }
}

} // verus!
