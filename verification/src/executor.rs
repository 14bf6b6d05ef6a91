//! Turning a raw HTTP response into a structured descriptor: cookie
//! parsing, body classification and timing assembly, plus the outcome of
//! the race against cancellation.

use vstd::prelude::*;
use vstd::utf8::{valid_utf8, decode_utf8};

use crate::error::AppError;
use crate::response::{Cookie, RequestTiming, ResponseBody, ResponseState};
use crate::text::{
    contains_seq, starts_with_spec, str_contains, str_starts_with, trim_spec, trim_substring,
};

verus! {

/// Position of the first occurrence of `c` at or after `i`.
pub open spec fn find_char_from(s: Seq<char>, c: char, i: int) -> Option<int>
    decreases s.len() - i,
{
    if i < 0 || i >= s.len() {
        None
    } else if s[i] == c {
        Some(i)
    } else {
        find_char_from(s, c, i + 1)
    }
}

pub proof fn lemma_find_char_some(s: Seq<char>, c: char, i: int)
    requires
        find_char_from(s, c, i) is Some,
    ensures
        ({
            let j = find_char_from(s, c, i)->0;
            i <= j < s.len() && s[j] == c
        }),
    decreases s.len() - i,
{
    if !(i < 0 || i >= s.len()) && s[i] != c {
        lemma_find_char_some(s, c, i + 1);
    }
}

proof fn lemma_find_char_skip(s: Seq<char>, c: char, i0: int, i: int)
    requires
        0 <= i0 <= i,
        forall|k: int| i0 <= k < i ==> s[k] != c,
    ensures
        find_char_from(s, c, i0) == find_char_from(s, c, i),
    decreases i - i0,
{
    if i0 < i {
        lemma_find_char_skip(s, c, i0 + 1, i);
    }
}

/// First occurrence of `c` in `s` at or after `from`, if any.
pub fn find_char(s: &str, c: char, from: usize) -> (r: Option<usize>)
    ensures
        match r {
            Some(j) => find_char_from(s@, c, from as int) == Some(j as int) && from <= j
                < s@.len(),
            None => find_char_from(s@, c, from as int) is None,
        },
{
    let len = s.unicode_len();
    if from >= len {
        return None;
    }
    let mut i: usize = from;
    while i < len
        invariant
            len == s@.len(),
            from <= i <= len,
            forall|k: int| from <= k < i ==> s@[k] != c,
        decreases len - i,
    {
        if s.get_char(i) == c {
            proof {
                lemma_find_char_skip(s@, c, from as int, i as int);
            }
            return Some(i);
        }
        i = i + 1;
    }
    proof {
        lemma_find_char_skip(s@, c, from as int, len as int);
    }
    None
}

/// Effect of one trimmed `Set-Cookie` attribute on the domain and path
/// collected so far; attributes other than `Domain=` and `Path=` are
/// ignored.
pub open spec fn apply_attr(seg: Seq<char>, domain: Seq<char>, path: Seq<char>) -> (
    Seq<char>,
    Seq<char>,
) {
    let a = trim_spec(seg);
    if starts_with_spec(a, "Domain="@) {
        (a.subrange("Domain="@.len() as int, a.len() as int), path)
    } else if starts_with_spec(a, "Path="@) {
        (domain, a.subrange("Path="@.len() as int, a.len() as int))
    } else {
        (domain, path)
    }
}

/// Fold all `;`-separated attributes into the domain and path; the last
/// occurrence of each wins.
pub open spec fn cookie_attrs(s: Seq<char>, domain: Seq<char>, path: Seq<char>) -> (
    Seq<char>,
    Seq<char>,
)
    decreases s.len(),
    via cookie_attrs_dec
{
    match find_char_from(s, ';', 0) {
        Option::None => apply_attr(s, domain, path),
        Option::Some(j) => {
            let st = apply_attr(s.subrange(0, j), domain, path);
            cookie_attrs(s.subrange(j + 1, s.len() as int), st.0, st.1)
        },
    }
}

#[via_fn]
proof fn cookie_attrs_dec(s: Seq<char>, domain: Seq<char>, path: Seq<char>) {
    if find_char_from(s, ';', 0) is Some {
        lemma_find_char_some(s, ';', 0);
    }
}

/// The (name, value, domain, path) read from one `Set-Cookie` header:
/// the part before the first `;` is split at its first `=` into trimmed
/// name and value; the rest is folded by `cookie_attrs`, with domain
/// defaulting to empty and path to `/`.
pub open spec fn set_cookie_spec(s: Seq<char>) -> (Seq<char>, Seq<char>, Seq<char>, Seq<char>) {
    let semi = find_char_from(s, ';', 0);
    let nv = match semi {
        Option::None => s,
        Option::Some(j) => s.subrange(0, j),
    };
    let eq = find_char_from(nv, '=', 0);
    let name = match eq {
        Option::None => trim_spec(nv),
        Option::Some(e) => trim_spec(nv.subrange(0, e)),
    };
    let value = match eq {
        Option::None => Seq::empty(),
        Option::Some(e) => trim_spec(nv.subrange(e + 1, nv.len() as int)),
    };
    let dp = match semi {
        Option::None => (Seq::<char>::empty(), "/"@),
        Option::Some(j) => cookie_attrs(s.subrange(j + 1, s.len() as int), Seq::empty(), "/"@),
    };
    (name, value, dp.0, dp.1)
}

/// Apply one attribute segment to the collected domain and path.
fn apply_attr_exec(seg: &str, domain: &mut String, path: &mut String)
    ensures
        (final(domain)@, final(path)@) == apply_attr(seg@, old(domain)@, old(path)@),
{
    let slen = seg.unicode_len();
    proof {
        assert(seg@.subrange(0, slen as int) =~= seg@);
        reveal_strlit("Domain=");
        reveal_strlit("Path=");
    }
    let a = trim_substring(seg, 0, slen);
    let alen = a.as_str().unicode_len();
    if str_starts_with(a.as_str(), "Domain=") {
        *domain = a.as_str().substring_char(7, alen).to_owned();
    } else if str_starts_with(a.as_str(), "Path=") {
        *path = a.as_str().substring_char(5, alen).to_owned();
    }
}

/// Parse one `Set-Cookie` header into name, value, domain and path;
/// unknown attributes are ignored, domain defaults to empty, path to `/`.
pub fn parse_set_cookie(header: &str) -> (r: Cookie)
    ensures
        (r.name@, r.value@, r.domain@, r.path@) == set_cookie_spec(header@),
{
    let len = header.unicode_len();
    let semi = find_char(header, ';', 0);
    let nv_end = match semi {
        Option::Some(j) => j,
        Option::None => len,
    };
    let nv_str = header.substring_char(0, nv_end);
    proof {
        if semi is None {
            assert(header@.subrange(0, len as int) =~= header@);
        }
    }
    let nvlen = nv_str.unicode_len();
    let eq = find_char(nv_str, '=', 0);
    let (name, value) = match eq {
        Option::Some(e) => (
            trim_substring(nv_str, 0, e),
            trim_substring(nv_str, e + 1, nvlen),
        ),
        Option::None => {
            proof {
                assert(nv_str@.subrange(0, nvlen as int) =~= nv_str@);
            }
            (trim_substring(nv_str, 0, nvlen), String::new())
        },
    };
    let mut domain = String::new();
    let mut path = "/".to_owned();
    if let Option::Some(j) = semi {
        let ghost target = cookie_attrs(
            header@.subrange(j + 1, header@.len() as int),
            Seq::empty(),
            "/"@,
        );
        let mut rem: String = header.substring_char(j + 1, len).to_owned();
        let mut done = false;
        while !done
            invariant
                !done ==> cookie_attrs(rem@, domain@, path@) == target,
                done ==> (domain@, path@) == target,
            decreases rem@.len() + (if done { 0int } else { 1int }),
        {
            let rlen = rem.as_str().unicode_len();
            match find_char(rem.as_str(), ';', 0) {
                Option::Some(p) => {
                    let next: String = rem.as_str().substring_char(p + 1, rlen).to_owned();
                    let seg = rem.as_str().substring_char(0, p);
                    apply_attr_exec(seg, &mut domain, &mut path);
                    rem = next;
                },
                Option::None => {
                    proof {
                        assert(rem@.subrange(0, rlen as int) =~= rem@);
                    }
                    let seg = rem.as_str().substring_char(0, rlen);
                    apply_attr_exec(seg, &mut domain, &mut path);
                    done = true;
                },
            }
        }
    }
    Cookie { name, value, domain, path }
}

/// Content types treated as text outright.
pub open spec fn is_textual_type(ct: Seq<char>) -> bool {
    ||| contains_seq(ct, "text/"@)
    ||| contains_seq(ct, "application/xml"@)
    ||| contains_seq(ct, "application/xhtml"@)
    ||| contains_seq(ct, "application/javascript"@)
}

/// What `serde_json` pretty-printing yields for these bytes, when they
/// parse as JSON. The result depends on the bytes alone.
pub uninterp spec fn json_pretty_of(b: Seq<u8>) -> Option<Seq<char>>;

/// Relies on `serde_json::from_slice` and `serde_json::to_string_pretty`:
/// re-formats a JSON document, or yields nothing when the bytes are not
/// valid JSON. A deterministic function of the bytes alone.
#[verifier::external_body]
fn pretty_print_json(bytes: &Vec<u8>) -> (r: Option<String>)
    ensures
        match r {
            Some(t) => json_pretty_of(bytes@) == Some(t@),
            None => json_pretty_of(bytes@) is None,
        },
{
    match serde_json::from_slice::<serde_json::Value>(bytes.as_slice()) {
        Ok(v) => serde_json::to_string_pretty(&v).ok(),
        Err(_) => None,
    }
}

/// What lossy UTF-8 decoding yields for these bytes: a deterministic
/// function of the bytes alone.
pub uninterp spec fn lossy_utf8_of(b: Seq<u8>) -> Seq<char>;

/// Relies on `String::from_utf8_lossy`: decodes, replacing invalid
/// sequences; valid UTF-8 decodes exactly.
#[verifier::external_body]
fn decode_utf8_lossy(bytes: &Vec<u8>) -> (r: String)
    ensures
        r@ == lossy_utf8_of(bytes@),
        valid_utf8(bytes@) ==> r@ == decode_utf8(bytes@),
{
    String::from_utf8_lossy(bytes.as_slice()).into_owned()
}

/// Relies on `std::str::from_utf8`: yields the decoded text exactly when
/// the bytes are valid UTF-8, and nothing otherwise.
#[verifier::external_body]
fn decode_utf8_strict(bytes: &Vec<u8>) -> (r: Option<String>)
    ensures
        match r {
            Some(t) => valid_utf8(bytes@) && t@ == decode_utf8(bytes@),
            None => !valid_utf8(bytes@),
        },
{
    match std::str::from_utf8(bytes.as_slice()) {
        Ok(t) => Some(t.to_string()),
        Err(_) => None,
    }
}

/// How a body must be classified for a content type: JSON content types
/// are pretty-printed, falling back to lossy text when the bytes are not
/// JSON; textual types decode lossily; an empty body is Empty; anything
/// else decodes strictly, falling back to raw bytes.
pub open spec fn body_classified(ct: Seq<char>, bytes: Seq<u8>, r: ResponseBody) -> bool {
    if contains_seq(ct, "application/json"@) {
        match json_pretty_of(bytes) {
            Some(t) => r matches ResponseBody::Text(s) && s@ == t,
            None => r matches ResponseBody::Text(s) && s@ == lossy_utf8_of(bytes),
        }
    } else if is_textual_type(ct) {
        r matches ResponseBody::Text(s) && s@ == lossy_utf8_of(bytes)
    } else if bytes.len() == 0 {
        r is Empty
    } else if valid_utf8(bytes) {
        r matches ResponseBody::Text(s) && s@ == decode_utf8(bytes)
    } else {
        r matches ResponseBody::Binary(b) && b@ == bytes
    }
}

/// Classify a response body by its content type. Decode anomalies are not
/// errors: invalid JSON degrades to text, invalid UTF-8 to raw bytes.
pub fn classify_body(content_type: &str, bytes: &Vec<u8>) -> (r: ResponseBody)
    ensures
        body_classified(content_type@, bytes@, r),
{
    if str_contains(content_type, "application/json") {
        match pretty_print_json(bytes) {
            Option::Some(t) => ResponseBody::Text(t),
            Option::None => ResponseBody::Text(decode_utf8_lossy(bytes)),
        }
    } else if str_contains(content_type, "text/") || str_contains(content_type, "application/xml")
        || str_contains(content_type, "application/xhtml") || str_contains(
        content_type,
        "application/javascript",
    ) {
        ResponseBody::Text(decode_utf8_lossy(bytes))
    } else if bytes.len() == 0 {
        ResponseBody::Empty
    } else {
        match decode_utf8_strict(bytes) {
            Option::Some(t) => ResponseBody::Text(t),
            Option::None => ResponseBody::Binary(bytes.clone()),
        }
    }
}

/// The fields of `c` are what one `Set-Cookie` header parses to.
pub open spec fn cookie_matches(c: Cookie, header: Seq<char>) -> bool {
    (c.name@, c.value@, c.domain@, c.path@) == set_cookie_spec(header)
}

/// Assemble the response descriptor from what was received. `size_bytes`
/// is the exact raw byte count; download time is what remains of the total
/// after time to first byte; each `Set-Cookie` header is parsed
/// independently.
pub fn assemble_response(
    status: u16,
    status_text: String,
    headers: Vec<(String, String)>,
    content_type: &str,
    set_cookies: &Vec<String>,
    bytes: &Vec<u8>,
    ttfb_ms: u64,
    total_ms: u64,
    received_at: u64,
) -> (r: ResponseState)
    requires
        ttfb_ms <= total_ms,
    ensures
        r.status == status,
        r.status_text == status_text,
        r.headers == headers,
        body_classified(content_type@, bytes@, r.body),
        r.cookies@.len() == set_cookies@.len(),
        forall|k: int|
            0 <= k < set_cookies@.len() ==> cookie_matches(
                #[trigger] r.cookies@[k],
                set_cookies@[k]@,
            ),
        r.timing.dns_lookup_ms == 0,
        r.timing.tcp_connect_ms == 0,
        r.timing.tls_handshake_ms == 0,
        r.timing.time_to_first_byte_ms == ttfb_ms,
        r.timing.download_ms == total_ms - ttfb_ms,
        r.timing.total_ms == total_ms,
        r.size_bytes == bytes@.len(),
        r.received_at == received_at,
        r.scroll_offset == 0,
{
    let body = classify_body(content_type, bytes);
    let mut cookies: Vec<Cookie> = Vec::new();
    let n = set_cookies.len();
    let mut k: usize = 0;
    while k < n
        invariant
            n == set_cookies@.len(),
            k <= n,
            cookies@.len() == k,
            forall|j: int|
                0 <= j < k ==> cookie_matches(#[trigger] cookies@[j], set_cookies@[j]@),
        decreases n - k,
    {
        let c = parse_set_cookie(set_cookies[k].as_str());
        cookies.push(c);
        k = k + 1;
    }
    let size_bytes = bytes.len();
    ResponseState {
        status,
        status_text,
        headers,
        body,
        cookies,
        timing: RequestTiming {
            dns_lookup_ms: 0,
            tcp_connect_ms: 0,
            tls_handshake_ms: 0,
            time_to_first_byte_ms: ttfb_ms,
            download_ms: total_ms - ttfb_ms,
            total_ms,
        },
        size_bytes,
        received_at,
        scroll_offset: 0,
    }
}

/// The race between the network round trip and cancellation: when
/// cancellation won, the outcome is Cancelled and any network result is
/// discarded, never a partial response.
pub fn race_outcome(cancelled_first: bool, net: Result<ResponseState, AppError>) -> (r: Result<
    ResponseState,
    AppError,
>)
    ensures
        cancelled_first ==> (r matches Err(e) && e is Cancelled),
        !cancelled_first ==> r == net,
{
    if cancelled_first {
        Err(AppError::Cancelled)
    } else {
        net
    }
}

} // verus!
