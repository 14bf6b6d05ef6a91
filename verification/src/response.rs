//! Response descriptors: status, headers, body, cookies and timing.

use vstd::prelude::*;

verus! {

/// Timing breakdown of one request, in milliseconds.
#[derive(Debug, Clone, PartialEq, Eq, Structural)]
pub struct RequestTiming {
    pub dns_lookup_ms: u64,
    pub tcp_connect_ms: u64,
    pub tls_handshake_ms: u64,
    pub time_to_first_byte_ms: u64,
    pub download_ms: u64,
    pub total_ms: u64,
}

impl Default for RequestTiming {
    fn default() -> (r: RequestTiming)
        ensures
            r == (RequestTiming {
                dns_lookup_ms: 0,
                tcp_connect_ms: 0,
                tls_handshake_ms: 0,
                time_to_first_byte_ms: 0,
                download_ms: 0,
                total_ms: 0,
            }),
    {
        RequestTiming {
            dns_lookup_ms: 0,
            tcp_connect_ms: 0,
            tls_handshake_ms: 0,
            time_to_first_byte_ms: 0,
            download_ms: 0,
            total_ms: 0,
        }
    }
}

/// One cookie from a `Set-Cookie` header.
#[derive(Debug, Clone)]
pub struct Cookie {
    pub name: String,
    pub value: String,
    pub domain: String,
    pub path: String,
}

impl Default for Cookie {
    fn default() -> (r: Cookie)
        ensures
            r.name@ == Seq::<char>::empty(),
            r.value@ == Seq::<char>::empty(),
            r.domain@ == Seq::<char>::empty(),
            r.path@ == Seq::<char>::empty(),
    {
        Cookie {
            name: String::new(),
            value: String::new(),
            domain: String::new(),
            path: String::new(),
        }
    }
}

/// The classified response body.
#[derive(Debug, Clone)]
pub enum ResponseBody {
    Empty,
    Text(String),
    Binary(Vec<u8>),
}

impl Default for ResponseBody {
    fn default() -> (r: ResponseBody)
        ensures
            r is Empty,
    {
        ResponseBody::Empty
    }
}

/// Everything observed about one completed response. `received_at` counts
/// milliseconds since the Unix epoch; `size_bytes` is the exact raw byte
/// length received, whatever the body was reformatted into.
#[derive(Debug, Clone)]
pub struct ResponseState {
    pub status: u16,
    pub status_text: String,
    pub headers: Vec<(String, String)>,
    pub body: ResponseBody,
    pub cookies: Vec<Cookie>,
    pub timing: RequestTiming,
    pub size_bytes: usize,
    pub received_at: u64,
    pub scroll_offset: u16,
}

impl Default for ResponseState {
    fn default() -> (r: ResponseState)
        ensures
            r.status == 0,
            r.status_text@ == Seq::<char>::empty(),
            r.headers@ == Seq::<(String, String)>::empty(),
            r.body is Empty,
            r.cookies@ == Seq::<Cookie>::empty(),
            r.timing == (RequestTiming {
                dns_lookup_ms: 0,
                tcp_connect_ms: 0,
                tls_handshake_ms: 0,
                time_to_first_byte_ms: 0,
                download_ms: 0,
                total_ms: 0,
            }),
            r.size_bytes == 0,
            r.received_at == 0,
            r.scroll_offset == 0,
    {
        ResponseState {
            status: 0,
            status_text: String::new(),
            headers: Vec::new(),
            body: ResponseBody::Empty,
            cookies: Vec::new(),
            timing: RequestTiming::default(),
            size_bytes: 0,
            received_at: 0,
            scroll_offset: 0,
        }
    }
}

} // verus!
