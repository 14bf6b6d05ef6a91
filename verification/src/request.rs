//! Request descriptors: method, headers, parameters, auth and body.

use vstd::prelude::*;

use crate::ids::new_id;
use crate::text::str_eq_str;

verus! {

#[derive(Debug, Clone, PartialEq, Eq, Structural)]
pub enum HttpMethod {
    Get,
    Post,
    Put,
    Patch,
    Delete,
    Head,
    Options,
}

impl Default for HttpMethod {
    fn default() -> (r: HttpMethod)
        ensures
            r == HttpMethod::Get,
    {
        HttpMethod::Get
    }
}

impl HttpMethod {
    /// The method's standard upper-case name.
    pub open spec fn name_spec(&self) -> Seq<char> {
        match self {
            HttpMethod::Get => "GET"@,
            HttpMethod::Post => "POST"@,
            HttpMethod::Put => "PUT"@,
            HttpMethod::Patch => "PATCH"@,
            HttpMethod::Delete => "DELETE"@,
            HttpMethod::Head => "HEAD"@,
            HttpMethod::Options => "OPTIONS"@,
        }
    }

    pub fn as_str(&self) -> (r: &'static str)
        ensures
            r@ == self.name_spec(),
    {
        match self {
            HttpMethod::Get => "GET",
            HttpMethod::Post => "POST",
            HttpMethod::Put => "PUT",
            HttpMethod::Patch => "PATCH",
            HttpMethod::Delete => "DELETE",
            HttpMethod::Head => "HEAD",
            HttpMethod::Options => "OPTIONS",
        }
    }

    /// The next method in cycling order.
    pub open spec fn next_spec(&self) -> HttpMethod {
        match self {
            HttpMethod::Get => HttpMethod::Post,
            HttpMethod::Post => HttpMethod::Put,
            HttpMethod::Put => HttpMethod::Patch,
            HttpMethod::Patch => HttpMethod::Delete,
            HttpMethod::Delete => HttpMethod::Head,
            HttpMethod::Head => HttpMethod::Options,
            HttpMethod::Options => HttpMethod::Get,
        }
    }

    /// The previous method in cycling order.
    pub open spec fn prev_spec(&self) -> HttpMethod {
        match self {
            HttpMethod::Get => HttpMethod::Options,
            HttpMethod::Post => HttpMethod::Get,
            HttpMethod::Put => HttpMethod::Post,
            HttpMethod::Patch => HttpMethod::Put,
            HttpMethod::Delete => HttpMethod::Patch,
            HttpMethod::Head => HttpMethod::Delete,
            HttpMethod::Options => HttpMethod::Head,
        }
    }

    pub fn next(&self) -> (r: HttpMethod)
        ensures
            r == self.next_spec(),
    {
        match self {
            HttpMethod::Get => HttpMethod::Post,
            HttpMethod::Post => HttpMethod::Put,
            HttpMethod::Put => HttpMethod::Patch,
            HttpMethod::Patch => HttpMethod::Delete,
            HttpMethod::Delete => HttpMethod::Head,
            HttpMethod::Head => HttpMethod::Options,
            HttpMethod::Options => HttpMethod::Get,
        }
    }

    pub fn prev(&self) -> (r: HttpMethod)
        ensures
            r == self.prev_spec(),
    {
        match self {
            HttpMethod::Get => HttpMethod::Options,
            HttpMethod::Post => HttpMethod::Get,
            HttpMethod::Put => HttpMethod::Post,
            HttpMethod::Patch => HttpMethod::Put,
            HttpMethod::Delete => HttpMethod::Patch,
            HttpMethod::Head => HttpMethod::Delete,
            HttpMethod::Options => HttpMethod::Head,
        }
    }

    /// The method with the given name; anything unknown falls back to GET.
    pub open spec fn from_name_spec(s: Seq<char>) -> HttpMethod {
        if s == "GET"@ {
            HttpMethod::Get
        } else if s == "POST"@ {
            HttpMethod::Post
        } else if s == "PUT"@ {
            HttpMethod::Put
        } else if s == "PATCH"@ {
            HttpMethod::Patch
        } else if s == "DELETE"@ {
            HttpMethod::Delete
        } else if s == "HEAD"@ {
            HttpMethod::Head
        } else if s == "OPTIONS"@ {
            HttpMethod::Options
        } else {
            HttpMethod::Get
        }
    }

    /// Parse a method name, falling back to GET for anything unknown.
    pub fn from_str_or_get(s: &str) -> (r: HttpMethod)
        ensures
            r == HttpMethod::from_name_spec(s@),
    {
        if str_eq_str(s, "GET") {
            HttpMethod::Get
        } else if str_eq_str(s, "POST") {
            HttpMethod::Post
        } else if str_eq_str(s, "PUT") {
            HttpMethod::Put
        } else if str_eq_str(s, "PATCH") {
            HttpMethod::Patch
        } else if str_eq_str(s, "DELETE") {
            HttpMethod::Delete
        } else if str_eq_str(s, "HEAD") {
            HttpMethod::Head
        } else if str_eq_str(s, "OPTIONS") {
            HttpMethod::Options
        } else {
            HttpMethod::Get
        }
    }
}

/// Cycle a method name forward; unknown names count as GET.
pub fn cycle_method_next(m: &str) -> (r: String)
    ensures
        r@ == HttpMethod::from_name_spec(m@).next_spec().name_spec(),
{
    let method = HttpMethod::from_str_or_get(m);
    method.next().as_str().to_owned()
}

/// Cycle a method name backward; unknown names count as GET.
pub fn cycle_method_prev(m: &str) -> (r: String)
    ensures
        r@ == HttpMethod::from_name_spec(m@).prev_spec().name_spec(),
{
    let method = HttpMethod::from_str_or_get(m);
    method.prev().as_str().to_owned()
}

/// One header, query parameter or form field.
#[derive(Debug, Clone)]
pub struct KeyValuePair {
    pub key: String,
    pub value: String,
    pub enabled: bool,
    pub description: String,
}

impl Default for KeyValuePair {
    fn default() -> (r: KeyValuePair)
        ensures
            r.key@ == Seq::<char>::empty(),
            r.value@ == Seq::<char>::empty(),
            r.enabled,
            r.description@ == Seq::<char>::empty(),
    {
        KeyValuePair {
            key: String::new(),
            value: String::new(),
            enabled: true,
            description: String::new(),
        }
    }
}

impl KeyValuePair {
    pub fn new(key: String, value: String) -> (r: KeyValuePair)
        ensures
            r.key == key,
            r.value == value,
            r.enabled,
            r.description@ == Seq::<char>::empty(),
    {
        KeyValuePair { key, value, enabled: true, description: String::new() }
    }
}

/// The request body, tagging how its content type is chosen.
#[derive(Debug, Clone)]
pub enum RequestBody {
    Empty,
    Text(String),
    Json(String),
    Form(Vec<KeyValuePair>),
    Binary(Vec<u8>),
}

impl Default for RequestBody {
    fn default() -> (r: RequestBody)
        ensures
            r is Empty,
    {
        RequestBody::Empty
    }
}

/// How the request authenticates.
#[derive(Debug, Clone)]
pub enum AuthConfig {
    NoAuth,
    Bearer { token: String },
    Basic { username: String, password: String },
    ApiKey { key: String, value: String, in_header: bool },
}

impl Default for AuthConfig {
    fn default() -> (r: AuthConfig)
        ensures
            r is NoAuth,
    {
        AuthConfig::NoAuth
    }
}

/// Hook scripts attached to a request; carried, never interpreted here.
#[derive(Debug, Clone)]
pub struct Scripts {
    pub pre_request: String,
    pub post_response: String,
}

impl Default for Scripts {
    fn default() -> (r: Scripts)
        ensures
            r.pre_request@ == Seq::<char>::empty(),
            r.post_response@ == Seq::<char>::empty(),
    {
        Scripts { pre_request: String::new(), post_response: String::new() }
    }
}

/// Everything describing one request, as edited in the UI.
#[derive(Debug, Clone)]
pub struct RequestState {
    pub id: String,
    pub name: String,
    pub method: HttpMethod,
    pub url: String,
    pub url_cursor: usize,
    pub headers: Vec<KeyValuePair>,
    pub params: Vec<KeyValuePair>,
    pub body: RequestBody,
    pub auth: AuthConfig,
    pub scripts: Scripts,
    pub body_cursor: usize,
    pub body_scroll_offset: u16,
}

impl Default for RequestState {
    /// A fresh untitled request. The id is freshly drawn, so nothing is
    /// promised of it.
    fn default() -> (r: RequestState)
        ensures
            r.name@ == "Untitled Request"@,
            r.method == HttpMethod::Get,
            r.url@ == Seq::<char>::empty(),
            r.url_cursor == 0,
            r.headers@ == Seq::<KeyValuePair>::empty(),
            r.params@ == Seq::<KeyValuePair>::empty(),
            r.body is Empty,
            r.auth is NoAuth,
            r.scripts.pre_request@ == Seq::<char>::empty(),
            r.scripts.post_response@ == Seq::<char>::empty(),
            r.body_cursor == 0,
            r.body_scroll_offset == 0,
    {
        RequestState {
            id: new_id(),
            name: "Untitled Request".to_owned(),
            method: HttpMethod::Get,
            url: String::new(),
            url_cursor: 0,
            headers: Vec::new(),
            params: Vec::new(),
            body: RequestBody::Empty,
            auth: AuthConfig::NoAuth,
            scripts: Scripts::default(),
            body_cursor: 0,
            body_scroll_offset: 0,
        }
    }
}

} // verus!
