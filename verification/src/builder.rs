//! Turning a request descriptor into a ready-to-send HTTP request.
//!
//! URL normalization and the selection of attached headers, query
//! parameters and form fields are verified; the accumulation into the HTTP
//! client's builder goes through trusted wrappers around `reqwest`.

use vstd::prelude::*;
use vstd::utf8::encode_utf8;

use crate::error::AppError;
use crate::request::{AuthConfig, HttpMethod, KeyValuePair, RequestBody, RequestState};
use crate::text::{trim_spec, trim_substring, starts_with_spec, str_starts_with};

verus! {

/// Normalization of a bare URL into a fully qualified one:
/// a leading `:` gets `http://localhost` put in front; an explicit
/// `http(s)://` stays; a loopback host gets `http://`; anything else
/// gets `https://`. The URL is trimmed first; an empty URL stays empty.
pub open spec fn normalize_url_spec(url: Seq<char>) -> Seq<char> {
    let t = trim_spec(url);
    if t.len() == 0 {
        t
    } else if t[0] == ':' {
        "http://localhost"@ + t
    } else if starts_with_spec(t, "http://"@) || starts_with_spec(t, "https://"@) {
        t
    } else if starts_with_spec(t, "localhost"@) || starts_with_spec(t, "127.0.0.1"@) {
        "http://"@ + t
    } else {
        "https://"@ + t
    }
}

/// Normalize a bare URL into a fully-qualified one.
pub fn normalize_url(url: &str) -> (r: String)
    ensures
        r@ == normalize_url_spec(url@),
{
    let len = url.unicode_len();
    proof {
        assert(url@.subrange(0, len as int) =~= url@);
    }
    let trimmed = trim_substring(url, 0, len);
    if trimmed.as_str().unicode_len() == 0 {
        return trimmed;
    }
    if trimmed.as_str().get_char(0) == ':' {
        let mut out = "http://localhost".to_owned();
        out.append(trimmed.as_str());
        return out;
    }
    if str_starts_with(trimmed.as_str(), "http://") || str_starts_with(
        trimmed.as_str(),
        "https://",
    ) {
        return trimmed;
    }
    if str_starts_with(trimmed.as_str(), "localhost") || str_starts_with(
        trimmed.as_str(),
        "127.0.0.1",
    ) {
        let mut out = "http://".to_owned();
        out.append(trimmed.as_str());
        return out;
    }
    let mut out = "https://".to_owned();
    out.append(trimmed.as_str());
    out
}

/// The key/value views of a list of string pairs.
pub open spec fn pair_views(v: Seq<(String, String)>) -> Seq<(Seq<char>, Seq<char>)> {
    v.map_values(|p: (String, String)| (p.0@, p.1@))
}

/// The pairs that get attached to a request, in declaration order:
/// enabled ones, and — when `require_key` — only those with a non-empty key.
pub open spec fn filter_pairs_spec(pairs: Seq<KeyValuePair>, require_key: bool) -> Seq<
    (Seq<char>, Seq<char>),
>
    decreases pairs.len(),
{
    if pairs.len() == 0 {
        Seq::empty()
    } else {
        let rest = filter_pairs_spec(pairs.drop_first(), require_key);
        if pairs[0].enabled && (!require_key || pairs[0].key@.len() > 0) {
            seq![(pairs[0].key@, pairs[0].value@)] + rest
        } else {
            rest
        }
    }
}

proof fn lemma_filter_pairs_skip(pairs: Seq<KeyValuePair>, require_key: bool, k: int)
    requires
        0 <= k < pairs.len(),
    ensures
        filter_pairs_spec(pairs.skip(k), require_key) == if pairs[k].enabled && (!require_key
            || pairs[k].key@.len() > 0) {
            seq![(pairs[k].key@, pairs[k].value@)] + filter_pairs_spec(
                pairs.skip(k + 1),
                require_key,
            )
        } else {
            filter_pairs_spec(pairs.skip(k + 1), require_key)
        },
{
    let sub = pairs.skip(k);
    assert(sub[0] == pairs[k]);
    assert(sub.drop_first() =~= pairs.skip(k + 1));
}

/// Keep the pairs that are attached to a request: the enabled ones, and —
/// when `require_key` — only those whose key is non-empty.
pub fn filter_pairs(pairs: &Vec<KeyValuePair>, require_key: bool) -> (r: Vec<(String, String)>)
    ensures
        pair_views(r@) == filter_pairs_spec(pairs@, require_key),
{
    let n = pairs.len();
    let mut out: Vec<(String, String)> = Vec::new();
    let mut k: usize = 0;
    proof {
        assert(pairs@.skip(0) =~= pairs@);
        assert(pair_views(out@) =~= Seq::<(Seq<char>, Seq<char>)>::empty());
    }
    while k < n
        invariant
            n == pairs@.len(),
            k <= n,
            pair_views(out@) + filter_pairs_spec(pairs@.skip(k as int), require_key)
                == filter_pairs_spec(pairs@, require_key),
        decreases n - k,
    {
        proof {
            lemma_filter_pairs_skip(pairs@, require_key, k as int);
        }
        let p = &pairs[k];
        if p.enabled && (!require_key || p.key.unicode_len() > 0) {
            let ghost before = out@;
            out.push((p.key.clone(), p.value.clone()));
            proof {
                assert(pair_views(out@) =~= pair_views(before) + seq![
                    (pairs@[k as int].key@, pairs@[k as int].value@),
                ]);
            }
        }
        k = k + 1;
    }
    proof {
        assert(pairs@.skip(n as int) =~= Seq::<KeyValuePair>::empty());
    }
    out
}

/// Relies on `reqwest::Client`: the shared HTTP client handle.
#[verifier::external_type_specification]
#[verifier::external_body]
pub struct ExClient(reqwest::Client);

/// Relies on `reqwest::RequestBuilder`: the request under construction.
/// Its state is modelled by the `builder_*` names below; construction
/// errors surface when the request is finally built and sent.
#[verifier::external_type_specification]
#[verifier::external_body]
pub struct ExRequestBuilder(reqwest::RequestBuilder);

/// The name of the HTTP method a builder was opened with.
pub uninterp spec fn builder_method(b: reqwest::RequestBuilder) -> Seq<char>;

/// The URL string a builder was opened with.
pub uninterp spec fn builder_url(b: reqwest::RequestBuilder) -> Seq<char>;

/// The query pairs appended to a builder, in order.
pub uninterp spec fn builder_queries(b: reqwest::RequestBuilder) -> Seq<(Seq<char>, Seq<char>)>;

/// The header pairs asked of a builder through its header-adding methods,
/// in order. A content type that a body-setting method supplies on its own
/// (as `form` does) is part of that method's documented behaviour, not of
/// this sequence.
pub uninterp spec fn builder_headers(b: reqwest::RequestBuilder) -> Seq<(Seq<char>, Seq<char>)>;

/// The body a builder carries, as raw bytes, if one was set.
pub uninterp spec fn builder_body(b: reqwest::RequestBuilder) -> Option<Seq<u8>>;

/// What the standard basic-auth credential header value is for a user
/// name and password: a deterministic function of the two alone.
pub uninterp spec fn basic_credentials(user: Seq<char>, password: Seq<char>) -> Seq<char>;

/// What the URL-encoded form serialization of these pairs is, as body
/// bytes: a deterministic function of the pairs alone.
pub uninterp spec fn form_encoded(pairs: Seq<(Seq<char>, Seq<char>)>) -> Seq<u8>;

/// Relies on `reqwest::Client::builder`, a 30-second whole-request timeout
/// and the rustls TLS backend. Yields nothing when the backend cannot
/// initialize; callers treat that as fatal.
#[verifier::external_body]
pub fn build_client() -> Option<reqwest::Client> {
    reqwest::Client::builder().timeout(std::time::Duration::from_secs(30)).use_rustls_tls().build().ok()
}

/// Relies on `reqwest::Client::request`: opens a builder for this method
/// and URL, with nothing attached yet; a URL that does not parse surfaces
/// as an error at build time.
#[verifier::external_body]
fn client_request(client: &reqwest::Client, method: &HttpMethod, url: &str) -> (r:
    reqwest::RequestBuilder)
    ensures
        builder_method(r) == method.name_spec(),
        builder_url(r) == url@,
        builder_queries(r) == Seq::<(Seq<char>, Seq<char>)>::empty(),
        builder_headers(r) == Seq::<(Seq<char>, Seq<char>)>::empty(),
        builder_body(r) is None,
{
    let m = match method {
        HttpMethod::Get => reqwest::Method::GET,
        HttpMethod::Post => reqwest::Method::POST,
        HttpMethod::Put => reqwest::Method::PUT,
        HttpMethod::Patch => reqwest::Method::PATCH,
        HttpMethod::Delete => reqwest::Method::DELETE,
        HttpMethod::Head => reqwest::Method::HEAD,
        HttpMethod::Options => reqwest::Method::OPTIONS,
    };
    client.request(m, url)
}

/// Relies on `reqwest::RequestBuilder::query`: appends one query pair and
/// changes nothing else.
#[verifier::external_body]
fn rb_query(b: reqwest::RequestBuilder, key: &str, value: &str) -> (r: reqwest::RequestBuilder)
    ensures
        builder_method(r) == builder_method(b),
        builder_url(r) == builder_url(b),
        builder_queries(r) == builder_queries(b).push((key@, value@)),
        builder_headers(r) == builder_headers(b),
        builder_body(r) == builder_body(b),
{
    b.query(&[(key, value)])
}

/// Relies on `reqwest::RequestBuilder::header`: appends one header and
/// changes nothing else.
#[verifier::external_body]
fn rb_header(b: reqwest::RequestBuilder, key: &str, value: &str) -> (r: reqwest::RequestBuilder)
    ensures
        builder_method(r) == builder_method(b),
        builder_url(r) == builder_url(b),
        builder_queries(r) == builder_queries(b),
        builder_headers(r) == builder_headers(b).push((key@, value@)),
        builder_body(r) == builder_body(b),
{
    b.header(key, value)
}

/// Relies on `reqwest::RequestBuilder::bearer_auth`: appends the
/// `authorization` header in bearer scheme and changes nothing else.
#[verifier::external_body]
fn rb_bearer_auth(b: reqwest::RequestBuilder, token: &str) -> (r: reqwest::RequestBuilder)
    ensures
        builder_method(r) == builder_method(b),
        builder_url(r) == builder_url(b),
        builder_queries(r) == builder_queries(b),
        builder_headers(r) == builder_headers(b).push(("authorization"@, "Bearer "@ + token@)),
        builder_body(r) == builder_body(b),
{
    b.bearer_auth(token)
}

/// Relies on `reqwest::RequestBuilder::basic_auth`: appends the
/// `authorization` header with the standard encoded basic credentials and
/// changes nothing else.
#[verifier::external_body]
fn rb_basic_auth(b: reqwest::RequestBuilder, user: &str, password: &str) -> (r:
    reqwest::RequestBuilder)
    ensures
        builder_method(r) == builder_method(b),
        builder_url(r) == builder_url(b),
        builder_queries(r) == builder_queries(b),
        builder_headers(r) == builder_headers(b).push(
            ("authorization"@, basic_credentials(user@, password@)),
        ),
        builder_body(r) == builder_body(b),
{
    b.basic_auth(user, Some(password))
}

/// Relies on `reqwest::RequestBuilder::body`: sets the body to the text's
/// bytes and changes nothing else.
#[verifier::external_body]
fn rb_body_string(b: reqwest::RequestBuilder, body: String) -> (r: reqwest::RequestBuilder)
    ensures
        builder_method(r) == builder_method(b),
        builder_url(r) == builder_url(b),
        builder_queries(r) == builder_queries(b),
        builder_headers(r) == builder_headers(b),
        builder_body(r) == Some(encode_utf8(body@)),
{
    b.body(body)
}

/// Relies on `reqwest::RequestBuilder::body`: sets the body to the raw
/// bytes and changes nothing else.
#[verifier::external_body]
fn rb_body_bytes(b: reqwest::RequestBuilder, body: Vec<u8>) -> (r: reqwest::RequestBuilder)
    ensures
        builder_method(r) == builder_method(b),
        builder_url(r) == builder_url(b),
        builder_queries(r) == builder_queries(b),
        builder_headers(r) == builder_headers(b),
        builder_body(r) == Some(body@),
{
    b.body(body)
}

/// Relies on `reqwest::RequestBuilder::form`: sets the body to the
/// URL-encoded serialization of the pairs, with the matching content type
/// when none is present, and changes nothing else.
#[verifier::external_body]
fn rb_form(b: reqwest::RequestBuilder, pairs: &Vec<(String, String)>) -> (r:
    reqwest::RequestBuilder)
    ensures
        builder_method(r) == builder_method(b),
        builder_url(r) == builder_url(b),
        builder_queries(r) == builder_queries(b),
        builder_headers(r) == builder_headers(b),
        builder_body(r) == Some(form_encoded(pair_views(pairs@))),
{
    b.form(pairs)
}

/// The query pairs a descriptor attaches: the enabled, non-empty-key
/// parameters in declaration order, then the api-key pair when it goes in
/// the query.
pub open spec fn planned_queries(state: RequestState) -> Seq<(Seq<char>, Seq<char>)> {
    filter_pairs_spec(state.params@, true) + (match state.auth {
        AuthConfig::ApiKey { key, value, in_header } => if !in_header {
            seq![(key@, value@)]
        } else {
            Seq::empty()
        },
        _ => Seq::<(Seq<char>, Seq<char>)>::empty(),
    })
}

/// The header pairs a descriptor asks for: the enabled, non-empty-key
/// headers in declaration order, then the auth header, then the content
/// type the body dictates.
pub open spec fn planned_headers(state: RequestState) -> Seq<(Seq<char>, Seq<char>)> {
    filter_pairs_spec(state.headers@, true) + (match state.auth {
        AuthConfig::NoAuth => Seq::<(Seq<char>, Seq<char>)>::empty(),
        AuthConfig::Bearer { token } => seq![("authorization"@, "Bearer "@ + token@)],
        AuthConfig::Basic { username, password } => seq![
            ("authorization"@, basic_credentials(username@, password@)),
        ],
        AuthConfig::ApiKey { key, value, in_header } => if in_header {
            seq![(key@, value@)]
        } else {
            Seq::empty()
        },
    }) + (match state.body {
        RequestBody::Text(_) => seq![("Content-Type"@, "text/plain"@)],
        RequestBody::Json(_) => seq![("Content-Type"@, "application/json"@)],
        _ => Seq::<(Seq<char>, Seq<char>)>::empty(),
    })
}

/// The body a descriptor chooses, as raw bytes.
pub open spec fn planned_body(state: RequestState) -> Option<Seq<u8>> {
    match state.body {
        RequestBody::Empty => None,
        RequestBody::Text(t) => Some(encode_utf8(t@)),
        RequestBody::Json(j) => Some(encode_utf8(j@)),
        RequestBody::Form(pairs) => Some(form_encoded(filter_pairs_spec(pairs@, false))),
        RequestBody::Binary(bytes) => Some(bytes@),
    }
}

/// Assemble the executable request for a descriptor: the method and the
/// normalized URL open the builder; then come exactly the enabled
/// non-empty-key query parameters and headers in declaration order, then
/// auth, then the body with its content type. Construction itself never
/// fails here; an invalid header or URL surfaces when the builder is
/// finally built.
pub fn build_request(client: &reqwest::Client, state: &RequestState) -> (r: Result<
    reqwest::RequestBuilder,
    AppError,
>)
    ensures
        r matches Ok(b) && builder_method(b) == state.method.name_spec() && builder_url(b)
            == normalize_url_spec(state.url@) && builder_queries(b) == planned_queries(*state)
            && builder_headers(b) == planned_headers(*state) && builder_body(b) == planned_body(
            *state,
        ),
{
    let url = normalize_url(state.url.as_str());
    let mut builder = client_request(client, &state.method, url.as_str());

    let params = filter_pairs(&state.params, true);
    let ghost qs = pair_views(params@);
    let mut i: usize = 0;
    proof {
        assert(builder_queries(builder) =~= qs.take(0));
    }
    while i < params.len()
        invariant
            qs == pair_views(params@),
            qs == filter_pairs_spec(state.params@, true),
            qs.len() == params@.len(),
            i <= params@.len(),
            builder_method(builder) == state.method.name_spec(),
            builder_url(builder) == normalize_url_spec(state.url@),
            builder_queries(builder) == qs.take(i as int),
            builder_headers(builder) == Seq::<(Seq<char>, Seq<char>)>::empty(),
            builder_body(builder) is None,
        decreases params@.len() - i,
    {
        let p = &params[i];
        builder = rb_query(builder, p.0.as_str(), p.1.as_str());
        proof {
            assert(qs[i as int] == (params@[i as int].0@, params@[i as int].1@));
            assert(builder_queries(builder) =~= qs.take(i + 1));
        }
        i = i + 1;
    }
    proof {
        assert(qs.take(params@.len() as int) =~= qs);
    }

    let headers = filter_pairs(&state.headers, true);
    let ghost hs = pair_views(headers@);
    let mut j: usize = 0;
    proof {
        assert(builder_headers(builder) =~= hs.take(0));
    }
    while j < headers.len()
        invariant
            hs == pair_views(headers@),
            hs == filter_pairs_spec(state.headers@, true),
            hs.len() == headers@.len(),
            j <= headers@.len(),
            builder_method(builder) == state.method.name_spec(),
            builder_url(builder) == normalize_url_spec(state.url@),
            builder_queries(builder) == filter_pairs_spec(state.params@, true),
            builder_headers(builder) == hs.take(j as int),
            builder_body(builder) is None,
        decreases headers@.len() - j,
    {
        let h = &headers[j];
        builder = rb_header(builder, h.0.as_str(), h.1.as_str());
        proof {
            assert(hs[j as int] == (headers@[j as int].0@, headers@[j as int].1@));
            assert(builder_headers(builder) =~= hs.take(j + 1));
        }
        j = j + 1;
    }
    proof {
        assert(hs.take(headers@.len() as int) =~= hs);
    }

    builder = match &state.auth {
        AuthConfig::NoAuth => builder,
        AuthConfig::Bearer { token } => rb_bearer_auth(builder, token.as_str()),
        AuthConfig::Basic { username, password } => rb_basic_auth(
            builder,
            username.as_str(),
            password.as_str(),
        ),
        AuthConfig::ApiKey { key, value, in_header } => {
            if *in_header {
                rb_header(builder, key.as_str(), value.as_str())
            } else {
                rb_query(builder, key.as_str(), value.as_str())
            }
        },
    };
    proof {
        assert(builder_queries(builder) =~= planned_queries(*state));
        assert(builder_headers(builder) =~= filter_pairs_spec(state.headers@, true) + (
        match state.auth {
            AuthConfig::NoAuth => Seq::<(Seq<char>, Seq<char>)>::empty(),
            AuthConfig::Bearer { token } => seq![("authorization"@, "Bearer "@ + token@)],
            AuthConfig::Basic { username, password } => seq![
                ("authorization"@, basic_credentials(username@, password@)),
            ],
            AuthConfig::ApiKey { key, value, in_header } => if in_header {
                seq![(key@, value@)]
            } else {
                Seq::empty()
            },
        }));
    }

    builder = match &state.body {
        RequestBody::Empty => builder,
        RequestBody::Text(text) => {
            let b = rb_body_string(builder, text.clone());
            rb_header(b, "Content-Type", "text/plain")
        },
        RequestBody::Json(json) => {
            let b = rb_body_string(builder, json.clone());
            rb_header(b, "Content-Type", "application/json")
        },
        RequestBody::Form(pairs) => {
            let form_pairs = filter_pairs(pairs, false);
            rb_form(builder, &form_pairs)
        },
        RequestBody::Binary(bytes) => rb_body_bytes(builder, bytes.clone()),
    };
    proof {
        assert(builder_headers(builder) =~= planned_headers(*state));
    }

    Ok(builder)
}

} // verus!} // verus!
