//! The local development server: which file a URL path names inside the served
//! directory (never one outside it), its content type, and how a request is routed.
use vstd::prelude::*;
use vstd::utf8::{decode_utf8, encode_utf8, valid_utf8};
use crate::text::{chars_of, is_digit, push_str, slice_exec, split_exec, split_on, string_of, views};
use crate::text::vec_eq;

verus! {

/// The value of a hexadecimal digit.
pub open spec fn hex_value(b: u8) -> Option<nat> {
    if 48 <= b <= 57 {
        Some((b - 48) as nat)
    } else if 97 <= b <= 102 {
        Some((b - 87) as nat)
    } else if 65 <= b <= 70 {
        Some((b - 55) as nat)
    } else {
        None
    }
}

/// The byte that a `%` followed by the two bytes `b1`, `b2` stands for: both must be
/// hexadecimal digits; anything else is a broken escape.
pub open spec fn escape_value(b1: u8, b2: u8) -> Option<u8> {
    match (hex_value(b1), hex_value(b2)) {
        (Some(h), Some(l)) => Some((h * 16 + l) as u8),
        _ => None,
    }
}

/// A `%` at `i` followed by two more bytes.
pub open spec fn escape_at(b: Seq<u8>, i: int) -> bool {
    0 <= i && b[i] == 37 && i + 2 < b.len()
}

/// The bytes of `b` from `i` on with each valid `%XX` replaced by its byte; a broken
/// escape stays as it is.
pub open spec fn decode_from(b: Seq<u8>, i: int) -> Seq<u8>
    decreases b.len() - i,
{
    if i < 0 || i >= b.len() {
        seq![]
    } else if escape_at(b, i) && escape_value(b[i + 1], b[i + 2]) is Some {
        seq![escape_value(b[i + 1], b[i + 2])->0] + decode_from(b, i + 3)
    } else {
        seq![b[i]] + decode_from(b, i + 1)
    }
}

/// The text `String::from_utf8_lossy` makes of `b`.
pub uninterp spec fn lossy_text(b: Seq<u8>) -> Seq<char>;

/// `String::from_utf8_lossy`: the contract names the result, and says what its
/// documentation says of valid UTF-8: it is decoded unchanged. Replacement characters for
/// invalid input are left unsaid.
#[verifier::external_body]
fn from_utf8_lossy(b: &Vec<u8>) -> (r: String)
    ensures
        r@ == lossy_text(b@),
        valid_utf8(b@) ==> r@ == decode_utf8(b@),
{
    String::from_utf8_lossy(b).into_owned()
}

fn hex_value_exec(b: u8) -> (r: Option<u8>)
    ensures
        match hex_value(b) {
            Some(v) => r == Some(v as u8),
            None => r is None,
        },
{
    if 48 <= b && b <= 57 {
        Some(b - 48)
    } else if 97 <= b && b <= 102 {
        Some(b - 87)
    } else if 65 <= b && b <= 70 {
        Some(b - 55)
    } else {
        None
    }
}

fn escape_value_exec(b1: u8, b2: u8) -> (r: Option<u8>)
    ensures
        r == escape_value(b1, b2),
{
    match (hex_value_exec(b1), hex_value_exec(b2)) {
        (Some(h), Some(l)) => Some(h * 16 + l),
        _ => None,
    }
}

/// Undoes percent-encoding, for every input: a `%` followed by two hexadecimal digits
/// becomes that byte; a broken escape (anything else after the `%`) stays as it is; and
/// the bytes are read as UTF-8 the lossy way.
pub fn percent_decode(s: &str) -> (r: String)
    ensures
        r@ == lossy_text(decode_from(encode_utf8(s@), 0)),
        valid_utf8(decode_from(encode_utf8(s@), 0)) ==> r@ == decode_utf8(
            decode_from(encode_utf8(s@), 0),
        ),
{
    let b = s.as_bytes();
    let ghost bs = encode_utf8(s@);
    assert(b@ == bs);
    let mut out: Vec<u8> = Vec::new();
    let mut i: usize = 0;
    assert(out@ + decode_from(bs, 0) =~= decode_from(bs, 0));
    while i < b.len()
        invariant
            i <= b@.len(),
            b@ == bs,
            out@ + decode_from(bs, i as int) == decode_from(bs, 0),
        decreases b@.len() - i,
    {
        let ghost before = out@;
        if b[i] == 37 && b.len() - i > 2 {
            match escape_value_exec(b[i + 1], b[i + 2]) {
                Some(v) => {
                    out.push(v);
                    assert(out@ + decode_from(bs, i + 3) =~= before + decode_from(bs, i as int));
                    i += 3;
                    continue;
                },
                None => {},
            }
        }
        out.push(b[i]);
        assert(out@ + decode_from(bs, i + 1) =~= before + decode_from(bs, i as int));
        i += 1;
    }
    assert(out@ + Seq::<u8>::empty() =~= out@);
    from_utf8_lossy(&out)
}

proof fn lemma_scalar_no_percent(x: u32)
    requires
        x != 37,
    ensures
        forall|k: int|
            0 <= k < vstd::utf8::encode_scalar(x).len() ==> #[trigger] vstd::utf8::encode_scalar(
                x,
            )[k] != 37,
{
    let e = vstd::utf8::encode_scalar(x);
    if vstd::utf8::has_width_1_encoding(x) {
        assert((x & 0x7F) as u8 != 37) by (bit_vector)
            requires
                x <= 0x7F,
                x != 37,
        ;
    } else {
        let b6 = ((x >> 6) & 0x1F) as u8;
        let c0 = (x & 0x3F) as u8;
        let c1 = ((x >> 6) & 0x3F) as u8;
        let c2 = ((x >> 12) & 0x3F) as u8;
        let l3 = ((x >> 12) & 0x0F) as u8;
        let l4 = ((x >> 18) & 0x7) as u8;
        assert(0xC0u8 | b6 != 37) by (bit_vector);
        assert(0x80u8 | c0 != 37) by (bit_vector);
        assert(0x80u8 | c1 != 37) by (bit_vector);
        assert(0x80u8 | c2 != 37) by (bit_vector);
        assert(0xE0u8 | l3 != 37) by (bit_vector);
        assert(0xF0u8 | l4 != 37) by (bit_vector);
    }
}

proof fn lemma_encode_no_percent(s: Seq<char>)
    requires
        forall|i: int| 0 <= i < s.len() ==> s[i] != '%',
    ensures
        forall|k: int| 0 <= k < encode_utf8(s).len() ==> #[trigger] encode_utf8(s)[k] != 37,
    decreases s.len(),
{
    if s.len() > 0 {
        lemma_encode_no_percent(s.drop_first());
        assert(s[0] != '%');
        if s[0] as u32 == 37 {
            vstd::utf8::char_u32_cast(s[0], 37);
            assert((37u32 as char) == '%');
        }
        lemma_scalar_no_percent(s[0] as u32);
        let h = vstd::utf8::encode_scalar(s[0] as u32);
        let t = encode_utf8(s.drop_first());
        assert(encode_utf8(s) == h + t);
        assert forall|k: int| 0 <= k < encode_utf8(s).len() implies #[trigger] encode_utf8(s)[k]
            != 37 by {
            if k < h.len() {
                assert(encode_utf8(s)[k] == h[k]);
            } else {
                assert(encode_utf8(s)[k] == t[k - h.len()]);
            }
        }
    }
}

proof fn lemma_decode_plain(b: Seq<u8>, i: int)
    requires
        0 <= i <= b.len(),
        forall|k: int| 0 <= k < b.len() ==> #[trigger] b[k] != 37,
    ensures
        decode_from(b, i) == b.skip(i),
    decreases b.len() - i,
{
    if i < b.len() {
        lemma_decode_plain(b, i + 1);
        assert(b.skip(i) =~= seq![b[i]] + b.skip(i + 1));
    } else {
        assert(b.skip(i) =~= Seq::<u8>::empty());
    }
}

/// Text without `%` comes out of `percent_decode` unchanged: decoding is safe, leaves its
/// bytes as they are, and they are valid UTF-8 that decodes back to the text.
pub proof fn law_decode_without_escapes(s: Seq<char>)
    requires
        !s.contains('%'),
    ensures
        decode_from(encode_utf8(s), 0) == encode_utf8(s),
        valid_utf8(encode_utf8(s)),
        decode_utf8(encode_utf8(s)) == s,
{
    let b = encode_utf8(s);
    assert forall|i: int| 0 <= i < s.len() implies s[i] != '%' by {
        if s[i] == '%' {
            assert(s.contains('%'));
        }
    }
    lemma_encode_no_percent(s);
    lemma_decode_plain(b, 0);
    assert(b.skip(0) =~= b);
    vstd::utf8::encode_utf8_valid_utf8(s);
    vstd::utf8::encode_utf8_decode_utf8(s);
}

/// `p` without its leading slashes.
pub open spec fn trim_leading_slashes(p: Seq<char>) -> Seq<char>
    decreases p.len(),
{
    if p.len() > 0 && p[0] == '/' {
        trim_leading_slashes(p.drop_first())
    } else {
        p
    }
}

/// The request path relative to the served directory; the root names `index.html`.
pub open spec fn relative_request(url_path: Seq<char>) -> Seq<char> {
    let r = trim_leading_slashes(url_path);
    if r.len() == 0 {
        "index.html"@
    } else {
        r
    }
}

/// The bytes of the relative request, percent-decoded.
pub open spec fn decoded_bytes(url_path: Seq<char>) -> Seq<u8> {
    decode_from(encode_utf8(relative_request(url_path)), 0)
}

/// The relative request, percent-decoded and read as text.
pub open spec fn decoded_request(url_path: Seq<char>) -> Seq<char> {
    lossy_text(decoded_bytes(url_path))
}

/// A segment that would leave the directory or make the path ambiguous: empty or `..`.
pub open spec fn bad_segment(seg: Seq<char>) -> bool {
    seg.len() == 0 || seg == ".."@
}

/// Every segment of `rel` stays inside the directory it is resolved against.
pub open spec fn stays_inside(rel: Seq<char>) -> bool {
    forall|k: int| 0 <= k < split_on(rel, '/').len() ==> !bad_segment(#[trigger] split_on(rel, '/')[k])
}

/// `rel` below `dist` (`Path::join` with a relative path).
pub open spec fn join_path(dist: Seq<char>, rel: Seq<char>) -> Seq<char> {
    if dist.len() == 0 {
        rel
    } else if dist.last() == '/' {
        dist + rel
    } else {
        dist + "/"@ + rel
    }
}

fn relative_request_exec(url_path: &str) -> (r: Vec<char>)
    ensures
        r@ == relative_request(url_path@),
{
    let p = chars_of(url_path);
    let mut i: usize = 0;
    assert(p@.skip(0) =~= p@);
    while i < p.len() && p[i] == '/'
        invariant
            i <= p@.len(),
            trim_leading_slashes(p@) == trim_leading_slashes(p@.skip(i as int)),
        decreases p.len() - i,
    {
        assert(p@.skip(i as int).drop_first() =~= p@.skip(i + 1));
        i += 1;
    }
    let r = slice_exec(&p, i, p.len());
    assert(r@ =~= p@.skip(i as int));
    if r.len() == 0 {
        chars_of("index.html")
    } else {
        r
    }
}

/// The file a URL path names below `dist`: the path without its leading slashes (the
/// root is `index.html`), percent-decoded, then refused when a segment is empty or `..`:
/// an encoded `%2e%2e` cannot climb out either, since the check runs after decoding.
/// Whether the result is a directory (served by its `index.html`) is for the caller.
pub fn resolve(dist: &str, url_path: &str) -> (r: Option<String>)
    ensures
        match r {
            Some(p) => stays_inside(decoded_request(url_path@)) && p@ == join_path(
                dist@,
                decoded_request(url_path@),
            ),
            None => !stays_inside(decoded_request(url_path@)),
        },
        valid_utf8(decoded_bytes(url_path@)) ==> decoded_request(url_path@) == decode_utf8(
            decoded_bytes(url_path@),
        ),
{
    let rel = relative_request_exec(url_path);
    let rel_s = string_of(&rel);
    let decoded = percent_decode(rel_s.as_str());
    assert(valid_utf8(decoded_bytes(url_path@)) ==> decoded_request(url_path@) == decode_utf8(
        decoded_bytes(url_path@),
    ));
    let d = chars_of(decoded.as_str());
    let segs = split_exec(&d, '/');
    let dotdot = chars_of("..");
    proof {
        reveal_strlit("..");
    }
    assert(d@ == decoded_request(url_path@));
    let mut k: usize = 0;
    while k < segs.len()
        invariant
            k <= segs@.len(),
            views(segs@) == split_on(d@, '/'),
            dotdot@ == ".."@,
            d@ == decoded_request(url_path@),
            valid_utf8(decoded_bytes(url_path@)) ==> decoded_request(url_path@) == decode_utf8(
                decoded_bytes(url_path@),
            ),
            forall|j: int| 0 <= j < k ==> !bad_segment(#[trigger] split_on(d@, '/')[j]),
        decreases segs.len() - k,
    {
        assert(views(segs@)[k as int] == segs@[k as int]@);
        if segs[k].len() == 0 || vec_eq(&segs[k], &dotdot) {
            proof {
                assert(bad_segment(split_on(d@, '/')[k as int]));
                assert(d@ == decoded_request(url_path@));
            }
            return None;
        }
        k += 1;
    }
    let dv = chars_of(dist);
    let mut out = chars_of(dist);
    if dv.len() > 0 && dv[dv.len() - 1] != '/' {
        push_str(&mut out, "/");
    }
    push_str(&mut out, decoded.as_str());
    proof {
        reveal_strlit("/");
        assert(out@ =~= join_path(dist@, decoded_request(url_path@)));
    }
    Some(string_of(&out))
}

/// A segment that names something: not empty, not `.`.
pub open spec fn is_name_segment(seg: Seq<char>) -> bool {
    seg.len() > 0 && seg != "."@
}

/// The last naming segment of `segs`.
pub open spec fn last_name(segs: Seq<Seq<char>>) -> Option<Seq<char>>
    decreases segs.len(),
{
    if segs.len() == 0 {
        None
    } else if is_name_segment(segs.last()) {
        Some(segs.last())
    } else {
        last_name(segs.drop_last())
    }
}

/// The final component of `path` when it is a name (`Path::file_name`).
pub open spec fn file_name(path: Seq<char>) -> Option<Seq<char>> {
    match last_name(split_on(path, '/')) {
        Some(n) => if n == ".."@ {
            None
        } else {
            Some(n)
        },
        None => None,
    }
}

/// Index of the last `.` of `n`.
pub open spec fn last_dot(n: Seq<char>) -> Option<int>
    decreases n.len(),
{
    if n.len() == 0 {
        None
    } else if n.last() == '.' {
        Some(n.len() - 1)
    } else {
        last_dot(n.drop_last())
    }
}

/// The extension of `path` (`Path::extension`): what follows the last `.` of the file
/// name, unless that `.` starts the name.
pub open spec fn extension(path: Seq<char>) -> Option<Seq<char>> {
    match file_name(path) {
        Some(n) => match last_dot(n) {
            Some(j) => if j > 0 {
                Some(n.skip(j + 1))
            } else {
                None
            },
            None => None,
        },
        None => None,
    }
}

/// The content type of a file with extension `ext`.
pub open spec fn mime_of(ext: Option<Seq<char>>) -> Seq<char> {
    if ext == Some("html"@) {
        "text/html; charset=utf-8"@
    } else if ext == Some("js"@) {
        "text/javascript"@
    } else if ext == Some("css"@) {
        "text/css"@
    } else if ext == Some("wasm"@) {
        "application/wasm"@
    } else if ext == Some("json"@) {
        "application/json; charset=utf-8"@
    } else if ext == Some("svg"@) {
        "image/svg+xml"@
    } else {
        "application/octet-stream"@
    }
}

fn file_name_exec(path: &str) -> (r: Option<Vec<char>>)
    ensures
        match r {
            Some(n) => file_name(path@) == Some(n@),
            None => file_name(path@) is None,
        },
{
    proof {
        reveal_strlit(".");
        reveal_strlit("..");
    }
    let segs = split_exec(&chars_of(path), '/');
    let ghost vs = views(segs@);
    let dot = chars_of(".");
    let dotdot = chars_of("..");
    let mut k = segs.len();
    assert(vs.take(k as int) =~= vs);
    while k > 0
        invariant
            k <= segs@.len(),
            vs == views(segs@),
            vs == split_on(path@, '/'),
            dot@ == "."@,
            dotdot@ == ".."@,
            last_name(vs) == last_name(vs.take(k as int)),
        decreases k,
    {
        assert(vs.take(k as int).drop_last() =~= vs.take(k - 1));
        assert(vs.take(k as int).last() == segs@[k - 1]@);
        let seg = &segs[k - 1];
        if seg.len() > 0 && !vec_eq(seg, &dot) {
            if vec_eq(seg, &dotdot) {
                return None;
            }
            return Some(slice_exec(seg, 0, seg.len()));
        }
        k -= 1;
    }
    None
}

fn last_dot_exec(n: &Vec<char>) -> (r: Option<usize>)
    ensures
        match last_dot(n@) {
            Some(j) => r is Some && r.unwrap() as int == j,
            None => r is None,
        },
        match r {
            Some(j) => j < n@.len(),
            None => true,
        },
{
    let mut k = n.len();
    assert(n@.take(k as int) =~= n@);
    while k > 0
        invariant
            k <= n@.len(),
            last_dot(n@) == last_dot(n@.take(k as int)),
        decreases k,
    {
        assert(n@.take(k as int).drop_last() =~= n@.take(k - 1));
        if n[k - 1] == '.' {
            return Some(k - 1);
        }
        k -= 1;
    }
    None
}

/// The content type a file is served with, by its extension.
pub fn mime_for(path: &str) -> (m: &'static str)
    ensures
        m@ == mime_of(extension(path@)),
{
    let ext: Option<Vec<char>> = match file_name_exec(path) {
        Some(n) => match last_dot_exec(&n) {
            Some(j) => if j > 0 {
                Some(slice_exec(&n, j + 1, n.len()))
            } else {
                None
            },
            None => None,
        },
        None => None,
    };
    proof {
        match extension(path@) {
            Some(e) => {
                assert(ext is Some && ext->0@ =~= e);
            },
            None => {},
        }
    }
    match ext {
        Some(e) => {
            if vec_eq(&e, &chars_of("html")) {
                "text/html; charset=utf-8"
            } else if vec_eq(&e, &chars_of("js")) {
                "text/javascript"
            } else if vec_eq(&e, &chars_of("css")) {
                "text/css"
            } else if vec_eq(&e, &chars_of("wasm")) {
                "application/wasm"
            } else if vec_eq(&e, &chars_of("json")) {
                "application/json; charset=utf-8"
            } else if vec_eq(&e, &chars_of("svg")) {
                "image/svg+xml"
            } else {
                "application/octet-stream"
            }
        },
        None => "application/octet-stream",
    }
}

/// Where a request to the development server goes.
#[derive(Clone, Debug, PartialEq, Eq)]
pub enum Route {
    /// The execution endpoint, by POST.
    Execute,
    /// The execution endpoint by another method.
    ExecuteMethodNotAllowed,
    /// A file below the served directory (or that directory's `index.html`, when it is
    /// a directory).
    File(String),
    /// A path that would leave the served directory.
    Forbidden,
}

/// The path of the execution endpoint.
pub const EXECUTE_PATH: &'static str = "/api/execute";

/// Routes a request for `path`: the execution endpoint (POST only), else a file below
/// `dist` as `resolve` finds it.
pub fn route(dist: &str, path: &str, is_post: bool) -> (r: Route)
    ensures
        path@ == EXECUTE_PATH@ ==> r == if is_post {
            Route::Execute
        } else {
            Route::ExecuteMethodNotAllowed
        },
        path@ != EXECUTE_PATH@ ==> match r {
            Route::File(p) => stays_inside(decoded_request(path@)) && p@ == join_path(
                dist@,
                decoded_request(path@),
            ),
            Route::Forbidden => !stays_inside(decoded_request(path@)),
            _ => false,
        },
        path@ != EXECUTE_PATH@ && valid_utf8(decoded_bytes(path@)) ==> decoded_request(path@)
            == decode_utf8(decoded_bytes(path@)),
{
    if vec_eq(&chars_of(path), &chars_of(EXECUTE_PATH)) {
        if is_post {
            Route::Execute
        } else {
            Route::ExecuteMethodNotAllowed
        }
    } else {
        match resolve(dist, path) {
            Some(p) => Route::File(p),
            None => Route::Forbidden,
        }
    }
}

} // verus!
