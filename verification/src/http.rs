//! The HTTP side of a scan, without the network: the sender's options and
//! how a script's request table is resolved against them, the request rate
//! limiter, the redirect policy, the naming of transport errors, the curl
//! command that reproduces a request, the parsing of header blocks and the
//! line endings of raw requests.

use vstd::prelude::*;
use vstd::string::*;
use crate::text::{str_chars, string_from_chars, u64_to_decimal, decimal};
use crate::url_message::{pairs_view, assoc_from, assoc_insert, option_view};

verus! {

/// Which HTTP versions a request may use.
#[derive(Clone, Copy, Debug, PartialEq, Eq, Structural)]
pub struct HttpVersion {
    pub http2_only: bool,
    pub http1_only: bool,
}

impl Default for HttpVersion {
    fn default() -> (v: Self)
        ensures
            !v.http1_only && !v.http2_only,
    {
        Self { http1_only: false, http2_only: false }
    }
}

/// The options with which requests are sent.  Headers are name/value pairs.
#[derive(Clone, Debug)]
pub struct Sender {
    pub headers: Vec<(String, String)>,
    pub proxy: Option<String>,
    pub timeout: u64,
    pub redirects: u32,
    pub merge_headers: bool,
    pub http_options: HttpVersion,
}

/// One part of a multipart body.
#[derive(Clone, Debug)]
pub struct MultiPart {
    pub content: String,
    pub filename: Option<String>,
    pub content_type: Option<String>,
    pub headers: Option<Vec<(String, String)>>,
}

/// A response as scripts see it: the final URL, the status code, the body,
/// the headers in the order received, the HTTP version (such as `HTTP/1.1`)
/// and the reason phrase of the status.
#[derive(Clone, Debug)]
pub struct HttpResponse {
    pub url: String,
    pub status: i32,
    pub body: String,
    pub headers: Vec<(String, String)>,
    pub version: String,
    pub reason: String,
}

/// Each header on a line of its own, each line started by a line feed.
pub open spec fn header_lines(h: Seq<(Seq<char>, Seq<char>)>) -> Seq<char>
    decreases h.len(),
{
    if h.len() == 0 {
        Seq::empty()
    } else {
        header_lines(h.drop_last()) + "\n"@ + h.last().0 + ": "@ + h.last().1
    }
}

/// The text of a response as `show_response` prints it: the status line,
/// the headers, two empty lines, the body, and a last line of eight spaces.
pub open spec fn response_text(res: HttpResponse) -> Seq<char> {
    res.version@ + " "@ + res.reason@ + header_lines(pairs_view(res.headers@)) + "\n\n\n"@ + res.body@
        + "\n        "@
}

/// The response as text, for scripts to print.
pub fn show_response(res: &HttpResponse) -> (r: String)
    ensures
        r@ == response_text(*res),
{
    let mut out = res.version.clone();
    out.append(" ");
    out.append(res.reason.as_str());
    let ghost hv = pairs_view(res.headers@);
    let mut i: usize = 0;
    while i < res.headers.len()
        invariant
            i <= res.headers@.len(),
            hv == pairs_view(res.headers@),
            out@ == res.version@ + " "@ + res.reason@ + header_lines(hv.take(i as int)),
        decreases res.headers@.len() - i,
    {
        proof {
            assert(hv.take(i + 1).drop_last() =~= hv.take(i as int));
            assert(hv.take(i + 1).last() == hv[i as int]);
            assert(hv[i as int] == (res.headers@[i as int].0@, res.headers@[i as int].1@));
        }
        out.append("\n");
        out.append(res.headers[i].0.as_str());
        out.append(": ");
        out.append(res.headers[i].1.as_str());
        i = i + 1;
    }
    assert(hv.take(i as int) =~= hv);
    out.append("\n\n\n");
    out.append(res.body.as_str());
    out.append("\n        ");
    out
}

/// What a script's `lotus.action` answers for `input`.
pub fn action_message(input: &str) -> (r: String)
    ensures
        r@ == "Action received: "@ + input@,
{
    let mut r = "Action received: ".to_string();
    r.append(input);
    r
}

/// The fields of a script's request table; absent or mistyped fields are `None`.
#[derive(Clone, Debug)]
pub struct RequestOptions {
    pub url: Option<String>,
    pub method: Option<String>,
    pub http2_only: Option<bool>,
    pub http1_only: Option<bool>,
    pub timeout: Option<u64>,
    pub proxy: Option<String>,
    pub redirect: Option<u32>,
    pub headers: Option<Vec<(String, String)>>,
    pub body: Option<String>,
    pub multipart: Option<Vec<(String, MultiPart)>>,
}

/// A request ready to be sent: method, URL, optional body and multipart
/// parts, and the options to send it with.
#[derive(Clone, Debug)]
pub struct PreparedRequest {
    pub method: String,
    pub url: String,
    pub body: Option<String>,
    pub multipart: Option<Vec<(String, MultiPart)>>,
    pub sender: Sender,
}

pub open spec fn url_required_text() -> Seq<char> {
    "URL Parameter is required"@
}

/// `c` with an ASCII upper-case letter made lower-case.
pub open spec fn lower_ascii(c: char) -> char {
    if 'A' <= c <= 'Z' { ((c as int) + 32) as char } else { c }
}

/// A header name as a header map keeps it: ASCII letters in lower case,
/// so that names differing only in case are the same header.
pub open spec fn header_name(s: Seq<char>) -> Seq<char> {
    s.map_values(|c: char| lower_ascii(c))
}

/// Name/value pairs with their names as a header map keeps them.
pub open spec fn header_entries(h: Seq<(Seq<char>, Seq<char>)>) -> Seq<(Seq<char>, Seq<char>)> {
    h.map_values(|p: (Seq<char>, Seq<char>)| (header_name(p.0), p.1))
}

/// The headers a request is sent with, as a header map holds them (one value
/// per name, a later insert of a name replacing the value in place): the
/// sender's when the request gives none; else the request's, with the
/// sender's inserted over them when merging.
pub open spec fn resolved_headers(
    own: Seq<(Seq<char>, Seq<char>)>,
    given: Option<Seq<(Seq<char>, Seq<char>)>>,
    merge: bool,
) -> Seq<(Seq<char>, Seq<char>)> {
    match given {
        None => assoc_from(header_entries(own)),
        Some(g) => if merge {
            assoc_from(header_entries(g) + header_entries(own))
        } else {
            assoc_from(header_entries(g))
        },
    }
}

/// `name` as a header map keeps it (ASCII letters lower-cased).
pub fn header_name_exec(name: &str) -> (r: String)
    ensures
        r@ == header_name(name@),
{
    let chars = str_chars(name);
    let mut out: Vec<char> = Vec::new();
    let mut i: usize = 0;
    while i < chars.len()
        invariant
            i <= chars@.len(),
            out@ == header_name(chars@.take(i as int)),
        decreases chars@.len() - i,
    {
        let c = chars[i];
        let l = if 'A' <= c && c <= 'Z' {
            let code: u32 = c as u32;
            assert(code as u8 == code) by (bit_vector)
                requires
                    code < 256,
            ;
            let b: u8 = code as u8;
            (b + 32) as char
        } else {
            c
        };
        proof {
            assert(l == lower_ascii(c));
        }
        out.push(l);
        proof {
            assert(header_name(chars@.take(i + 1)) =~= header_name(chars@.take(i as int)).push(lower_ascii(c)));
        }
        i = i + 1;
    }
    assert(chars@.take(i as int) =~= chars@);
    string_from_chars(out.as_slice())
}

/// The pairs of `v` with their names as a header map keeps them.
fn header_entries_exec(v: &Vec<(String, String)>) -> (r: Vec<(String, String)>)
    ensures
        pairs_view(r@) == header_entries(pairs_view(v@)),
{
    let mut r: Vec<(String, String)> = Vec::new();
    let mut i: usize = 0;
    while i < v.len()
        invariant
            i <= v@.len(),
            pairs_view(r@) == header_entries(pairs_view(v@)).take(i as int),
        decreases v@.len() - i,
    {
        let name = header_name_exec(v[i].0.as_str());
        let value = v[i].1.clone();
        let ghost r0 = r@;
        let ghost nv = name@;
        let ghost vv = value@;
        assert(pairs_view(r0).len() == r0.len());
        r.push((name, value));
        proof {
            assert(r@ == r0.push((name, value)));
            assert(pairs_view(v@)[i as int] == (v@[i as int].0@, v@[i as int].1@));
            assert(header_entries(pairs_view(v@))[i as int] == (header_name(v@[i as int].0@), v@[i as int].1@));
            assert(pairs_view(r@) =~= pairs_view(r0).push((nv, vv)));
            assert(pairs_view(r@) =~= header_entries(pairs_view(v@)).take(i + 1));
        }
        i = i + 1;
    }
    assert(header_entries(pairs_view(v@)).take(i as int) =~= header_entries(pairs_view(v@)));
    r
}

impl Sender {
    /// A sender with the given headers, proxy, timeout and redirect limit,
    /// not merging request headers, with no HTTP version restriction.
    pub fn init(headers: Vec<(String, String)>, proxy: Option<String>, timeout: u64, redirects: u32) -> (s: Sender)
        ensures
            s.headers == headers,
            s.proxy == proxy,
            s.timeout == timeout,
            s.redirects == redirects,
            !s.merge_headers,
            !s.http_options.http1_only && !s.http_options.http2_only,
    {
        Sender { headers, proxy, timeout, redirects, merge_headers: false, http_options: HttpVersion::default() }
    }

    pub fn set_proxy(&mut self, proxy: Option<String>)
        ensures
            *final(self) == (Sender { proxy: proxy, ..*old(self) }),
    {
        self.proxy = proxy;
    }

    pub fn set_timeout(&mut self, timeout: u64)
        ensures
            *final(self) == (Sender { timeout: timeout, ..*old(self) }),
    {
        self.timeout = timeout;
    }

    pub fn set_merge_headers(&mut self, merge_headers: bool)
        ensures
            *final(self) == (Sender { merge_headers: merge_headers, ..*old(self) }),
    {
        self.merge_headers = merge_headers;
    }

    pub fn set_redirects(&mut self, redirects: u32)
        ensures
            *final(self) == (Sender { redirects: redirects, ..*old(self) }),
    {
        self.redirects = redirects;
    }

    /// Resolves a script's request table against this sender: the URL is
    /// required; the method defaults to `GET`; timeout, proxy and redirect
    /// limit default to the sender's; an empty body is no body; the request
    /// is sent with headers merged.
    pub fn resolve_request(&self, opts: RequestOptions) -> (r: Result<PreparedRequest, String>)
        ensures
            opts.url is None <==> r is Err,
            r matches Err(e) ==> e@ == url_required_text(),
            r matches Ok(p) ==> {
                &&& p.url@ == opts.url->0@
                &&& p.method@ == (match opts.method { Some(m) => m@, None => "GET"@ })
                &&& p.body == (match opts.body { Some(b) => if b@.len() > 0 { Some(b) } else { None }, None => None })
                &&& p.multipart == opts.multipart
                &&& p.sender.timeout == (match opts.timeout { Some(t) => t, None => self.timeout })
                &&& p.sender.proxy == (match opts.proxy { Some(x) => Some(x), None => self.proxy })
                &&& p.sender.redirects == (match opts.redirect { Some(x) => x, None => self.redirects })
                &&& p.sender.http_options.http2_only == (opts.http2_only == Some(true))
                &&& p.sender.http_options.http1_only == (opts.http1_only == Some(true))
                &&& p.sender.merge_headers
                &&& pairs_view(p.sender.headers@) == resolved_headers(
                    pairs_view(self.headers@),
                    match opts.headers { Some(h) => Some(pairs_view(h@)), None => None },
                    self.merge_headers)
            },
    {
        let url = match opts.url {
            None => {
                return Err("URL Parameter is required".to_string());
            },
            Some(u) => u,
        };
        let method = match opts.method {
            Some(m) => m,
            None => "GET".to_string(),
        };
        let http2_only = match opts.http2_only {
            Some(b) => b,
            None => false,
        };
        let http1_only = match opts.http1_only {
            Some(b) => b,
            None => false,
        };
        let timeout = match opts.timeout {
            Some(t) => t,
            None => self.timeout,
        };
        let proxy = match opts.proxy {
            Some(p) => Some(p),
            None => self.proxy.clone(),
        };
        let redirects = match opts.redirect {
            Some(r) => r,
            None => self.redirects,
        };
        let headers = match opts.headers {
            Some(given) => {
                let mut all = header_entries_exec(&given);
                if self.merge_headers {
                    let own = header_entries_exec(&self.headers);
                    let ghost a0 = all@;
                    let mut j: usize = 0;
                    while j < own.len()
                        invariant
                            j <= own@.len(),
                            all@ == a0 + own@.take(j as int),
                        decreases own@.len() - j,
                    {
                        all.push((own[j].0.clone(), own[j].1.clone()));
                        assert(all@ =~= a0 + own@.take(j + 1));
                        j = j + 1;
                    }
                    assert(all@ =~= a0 + own@);
                    assert(pairs_view(all@) =~= pairs_view(a0) + pairs_view(own@));
                }
                crate::url_message::assoc_build(&all)
            },
            None => crate::url_message::assoc_build(&header_entries_exec(&self.headers)),
        };
        let body = match opts.body {
            Some(b) => if !b.as_str().is_empty() { Some(b) } else { None },
            None => None,
        };
        let sender = Sender {
            timeout,
            proxy,
            headers,
            redirects,
            merge_headers: true,
            http_options: HttpVersion { http2_only, http1_only },
        };
        Ok(PreparedRequest { method, url, body, multipart: opts.multipart, sender })
    }
}

/// An element-by-element copy of a list of string pairs.
pub fn copy_pairs(v: &Vec<(String, String)>) -> (r: Vec<(String, String)>)
    ensures
        r@ == v@,
{
    let mut r: Vec<(String, String)> = Vec::new();
    let mut i: usize = 0;
    while i < v.len()
        invariant
            i <= v@.len(),
            r@ == v@.take(i as int),
        decreases v@.len() - i,
    {
        r.push((v[i].0.clone(), v[i].1.clone()));
        assert(r@ =~= v@.take(i + 1));
        i = i + 1;
    }
    assert(r@ =~= v@);
    r
}

/// The rate limiter's decision for one request.
#[derive(Clone, Copy, Debug, PartialEq, Eq, Structural)]
pub struct RateDecision {
    /// Sleep before sending.
    pub sleep: bool,
    /// The count of requests sent in the current window, this one included.
    pub sent: i32,
}

/// The count of requests in the current window after one more request, with
/// a window of `limit` requests.
pub open spec fn rate_limit_next(sent: int, limit: int) -> int {
    if sent >= limit { 1 } else { sent + 1 }
}

/// One step of the request rate limiter: once `limit` requests have been
/// sent, sleep and start a new window with this request; otherwise count it.
pub fn rate_limit_step(sent: i32, limit: i32) -> (d: RateDecision)
    ensures
        d.sleep == (sent >= limit),
        d.sent == rate_limit_next(sent as int, limit as int),
{
    if sent >= limit {
        RateDecision { sleep: true, sent: 1 }
    } else {
        RateDecision { sleep: false, sent: sent + 1 }
    }
}

/// The request counter never exceeds the limit: starting from a count in
/// `0..=limit`, a step leaves it in `1..=limit`, and it sleeps exactly when
/// the window was full.
pub proof fn law_rate_limit_bounded(sent: int, limit: int)
    requires
        limit >= 1,
        0 <= sent <= limit,
    ensures
        1 <= rate_limit_next(sent, limit) <= limit,
        rate_limit_next(sent, limit) == 1 <== sent == limit,
{
}

/// Whether a redirect is followed, where `previous` counts the URLs requested
/// so far in the chain, the starting URL included (so it is `k` when the
/// `k`-th redirect comes in), and `redirects` is the maximum number of
/// redirects allowed: the `k`-th redirect is followed exactly when
/// `k <= redirects`, so at most `redirects` are followed and none when it is 0.
pub fn follow_redirect(previous: usize, redirects: u32) -> (b: bool)
    ensures
        b == (previous as int <= redirects as int),
{
    previous as u64 <= redirects as u64
}

/// What is known of a failed transport: which kind of failure it was.
#[derive(Clone, Copy, Debug)]
pub struct TransportFailure {
    pub timeout: bool,
    pub connect: bool,
    pub redirect: bool,
    pub body: bool,
    pub decode: bool,
}

pub open spec fn spec_error_code(f: TransportFailure) -> Seq<char> {
    if f.timeout {
        "timeout_error"@
    } else if f.connect {
        "connection_error"@
    } else if f.redirect {
        "too_many_redirects"@
    } else if f.body {
        "request_body_error"@
    } else if f.decode {
        "decode_error"@
    } else {
        "external_error"@
    }
}

/// The error code reported to scripts for a failed request, the first
/// applicable kind in the order timeout, connection, redirect, body, decode.
pub fn error_code(f: TransportFailure) -> (code: String)
    ensures
        code@ == spec_error_code(f),
{
    if f.timeout {
        "timeout_error".to_string()
    } else if f.connect {
        "connection_error".to_string()
    } else if f.redirect {
        "too_many_redirects".to_string()
    } else if f.body {
        "request_body_error".to_string()
    } else if f.decode {
        "decode_error".to_string()
    } else {
        "external_error".to_string()
    }
}

/// The ` -H 'name: value'` options for the headers, in order.
pub open spec fn curl_headers(h: Seq<(Seq<char>, Seq<char>)>) -> Seq<char>
    decreases h.len(),
{
    if h.len() == 0 {
        Seq::empty()
    } else {
        curl_headers(h.drop_last()) + " -H '"@ + h.last().0 + ": "@ + h.last().1 + "'"@
    }
}

/// The curl command that sends a request to `url` with the sender's headers,
/// proxy and connect timeout.
pub open spec fn curl_command(h: Seq<(Seq<char>, Seq<char>)>, proxy: Option<Seq<char>>, timeout: u64, url: Seq<char>) -> Seq<char> {
    "curl"@ + curl_headers(h)
        + (match proxy { Some(p) => " -x "@ + p, None => Seq::empty() })
        + " --connect-timeout "@ + decimal(timeout as nat)
        + " "@ + url
}

/// Reproduces requests as command lines.
pub trait SenderExt {
    fn make_curl(&self, url: String) -> String;
}

impl Sender {
    /// The curl command for `url` (see `curl_command`).
    pub fn curl_for(&self, url: &str) -> (r: String)
        ensures
            r@ == curl_command(pairs_view(self.headers@), option_view(self.proxy), self.timeout, url@),
    {
        let mut cmd = "curl".to_string();
        let ghost hv = pairs_view(self.headers@);
        let mut i: usize = 0;
        while i < self.headers.len()
            invariant
                i <= self.headers@.len(),
                hv == pairs_view(self.headers@),
                cmd@ == "curl"@ + curl_headers(hv.take(i as int)),
            decreases self.headers@.len() - i,
        {
            proof {
                assert(hv.take(i + 1).drop_last() =~= hv.take(i as int));
                assert(hv.take(i + 1).last() == hv[i as int]);
                assert(hv[i as int] == (self.headers@[i as int].0@, self.headers@[i as int].1@));
            }
            cmd.append(" -H '");
            cmd.append(self.headers[i].0.as_str());
            cmd.append(": ");
            cmd.append(self.headers[i].1.as_str());
            cmd.append("'");
            i = i + 1;
        }
        assert(hv.take(i as int) =~= hv);
        match &self.proxy {
            Some(p) => {
                cmd.append(" -x ");
                cmd.append(p.as_str());
            },
            None => {},
        }
        cmd.append(" --connect-timeout ");
        let t = u64_to_decimal(self.timeout);
        cmd.append(t.as_str());
        cmd.append(" ");
        cmd.append(url);
        cmd
    }
}

impl SenderExt for Sender {
    /// The curl command for `url` (see `curl_command`).
    fn make_curl(&self, url: String) -> (r: String)
        ensures
            r@ == curl_command(pairs_view(self.headers@), option_view(self.proxy), self.timeout, url@),
    {
        self.curl_for(url.as_str())
    }
}

/// `s` with every line feed preceded by a carriage return.
pub open spec fn crlf(s: Seq<char>) -> Seq<char>
    decreases s.len(),
{
    if s.len() == 0 {
        s
    } else if s.last() == '\n' {
        crlf(s.drop_last()) + "\r\n"@
    } else {
        crlf(s.drop_last()).push(s.last())
    }
}

/// The raw request as it is sent: each `\n` replaced by `\r\n`.
pub fn normalize_raw_request(raw: &str) -> (r: String)
    ensures
        r@ == crlf(raw@),
{
    let chars = str_chars(raw);
    let mut out: Vec<char> = Vec::new();
    let mut i: usize = 0;
    while i < chars.len()
        invariant
            i <= chars@.len(),
            out@ == crlf(chars@.take(i as int)),
        decreases chars@.len() - i,
    {
        proof {
            assert(chars@.take(i + 1).drop_last() =~= chars@.take(i as int));
            assert(chars@.take(i + 1).last() == chars@[i as int]);
        }
        if chars[i] == '\n' {
            let ghost before = out@;
            out.push('\r');
            out.push('\n');
            proof {
                reveal_strlit("\r\n");
                assert(out@ =~= before + "\r\n"@);
            }
        } else {
            out.push(chars[i]);
        }
        i = i + 1;
    }
    assert(chars@.take(i as int) =~= chars@);
    string_from_chars(out.as_slice())
}

/// A raw request as sent has no bare line feed: every `\n` follows a `\r`.
pub proof fn law_raw_request_line_endings(s: Seq<char>)
    ensures
        forall|i: int| 0 <= i < crlf(s).len() && #[trigger] crlf(s)[i] == '\n' ==> i > 0 && crlf(s)[i - 1] == '\r',
    decreases s.len(),
{
    reveal_strlit("\r\n");
    if s.len() > 0 {
        law_raw_request_line_endings(s.drop_last());
        let p = crlf(s.drop_last());
        let r = crlf(s);
        assert forall|i: int| 0 <= i < r.len() && #[trigger] r[i] == '\n' implies i > 0 && r[i - 1] == '\r' by {
            if i < p.len() {
                assert(r[i] == p[i]);
                assert(p[i] == '\n');
                assert(r[i - 1] == p[i - 1]);
            }
        }
    }
}

/// Errors of the raw HTTP requester.
#[derive(Clone, Debug, PartialEq, Eq)]
pub enum RequestError {
    ClientError(String),
    SendError(String),
    ResponseError(String),
}

impl RequestError {
    /// The message shown for the error.
    pub fn message(&self) -> (m: String)
        ensures
            m@ == (match self {
                RequestError::ClientError(s) => "HTTP client error: "@ + s@,
                RequestError::SendError(s) => "Failed to send request: "@ + s@,
                RequestError::ResponseError(s) => "Unexpected response error: "@ + s@,
            }),
    {
        match self {
            RequestError::ClientError(s) => {
                let mut m = "HTTP client error: ".to_string();
                m.append(s.as_str());
                m
            },
            RequestError::SendError(s) => {
                let mut m = "Failed to send request: ".to_string();
                m.append(s.as_str());
                m
            },
            RequestError::ResponseError(s) => {
                let mut m = "Unexpected response error: ".to_string();
                m.append(s.as_str());
                m
            },
        }
    }
}

} // verus!
