//! Scan bookkeeping: the kinds of targets, the request options scripts
//! start from, the progress kept for resuming a scan, and the small
//! decisions taken by the runners (rate of drivers, callbacks, log levels).

use vstd::prelude::*;
use vstd::string::*;
use crate::http::{Sender, copy_pairs};
use crate::text::{decimal, u64_to_decimal};

verus! {

/// The kind of targets a scan runs over.
#[allow(non_camel_case_types)]
#[derive(Debug, Clone, Copy, PartialEq, Eq, Structural)]
pub enum ScanTypes {
    FULL_HTTP,
    HOSTS,
    URLS,
    PATHS,
    CUSTOM,
}

pub open spec fn scan_type_name(t: ScanTypes) -> Seq<char> {
    match t {
        ScanTypes::FULL_HTTP => "FULL_HTTP"@,
        ScanTypes::HOSTS => "HOSTS"@,
        ScanTypes::URLS => "URLS"@,
        ScanTypes::PATHS => "PATHS"@,
        ScanTypes::CUSTOM => "CUSTOM"@,
    }
}

impl ScanTypes {
    /// The name of the kind, as scripts see it in `SCAN_TYPE`.
    pub fn as_str(&self) -> (r: &'static str)
        ensures
            r@ == scan_type_name(*self),
    {
        match self {
            ScanTypes::FULL_HTTP => "FULL_HTTP",
            ScanTypes::HOSTS => "HOSTS",
            ScanTypes::URLS => "URLS",
            ScanTypes::PATHS => "PATHS",
            ScanTypes::CUSTOM => "CUSTOM",
        }
    }
}

/// The HTTP options a scan starts from.
#[derive(Clone, Debug)]
pub struct RequestOpts {
    pub headers: Vec<(String, String)>,
    pub proxy: Option<String>,
    pub timeout: u64,
    pub redirects: u32,
}

impl RequestOpts {
    /// The sender that scripts get as `http`.
    pub fn sender(&self) -> (s: Sender)
        ensures
            s.headers@ == self.headers@,
            s.proxy == self.proxy,
            s.timeout == self.timeout,
            s.redirects == self.redirects,
            !s.merge_headers,
            !s.http_options.http1_only && !s.http_options.http2_only,
    {
        let proxy = match &self.proxy {
            Some(p) => Some(p.clone()),
            None => None,
        };
        Sender::init(copy_pairs(&self.headers), proxy, self.timeout, self.redirects)
    }
}

/// The index of the last target started, per kind of target.
#[derive(Clone, Copy, Debug, PartialEq, Eq, Structural)]
pub struct ScanProgress {
    pub http: usize,
    pub url: usize,
    pub host: usize,
    pub path: usize,
    pub custom: usize,
}

impl ScanProgress {
    pub open spec fn spec_get(self, t: ScanTypes) -> usize {
        match t {
            ScanTypes::FULL_HTTP => self.http,
            ScanTypes::URLS => self.url,
            ScanTypes::HOSTS => self.host,
            ScanTypes::PATHS => self.path,
            ScanTypes::CUSTOM => self.custom,
        }
    }

    /// Nothing started yet.
    pub fn new() -> (p: Self)
        ensures
            forall|t: ScanTypes| #[trigger] p.spec_get(t) == 0,
    {
        ScanProgress { http: 0, url: 0, host: 0, path: 0, custom: 0 }
    }

    /// The index recorded for kind `t`.
    pub fn get(&self, t: ScanTypes) -> (r: usize)
        ensures
            r == self.spec_get(t),
    {
        match t {
            ScanTypes::FULL_HTTP => self.http,
            ScanTypes::URLS => self.url,
            ScanTypes::HOSTS => self.host,
            ScanTypes::PATHS => self.path,
            ScanTypes::CUSTOM => self.custom,
        }
    }

    /// The progress after target `index` of kind `t` was started.
    pub open spec fn spec_updated(self, t: ScanTypes, index: usize) -> ScanProgress {
        match t {
            ScanTypes::FULL_HTTP => ScanProgress { http: index, ..self },
            ScanTypes::URLS => ScanProgress { url: index, ..self },
            ScanTypes::HOSTS => ScanProgress { host: index, ..self },
            ScanTypes::PATHS => ScanProgress { path: index, ..self },
            ScanTypes::CUSTOM => ScanProgress { custom: index, ..self },
        }
    }

    /// Records that target `index` of kind `t` was started.
    pub fn update_index_id(&mut self, t: ScanTypes, index: usize)
        ensures
            *final(self) == old(self).spec_updated(t, index),
    {
        match t {
            ScanTypes::FULL_HTTP => self.http = index,
            ScanTypes::URLS => self.url = index,
            ScanTypes::HOSTS => self.host = index,
            ScanTypes::PATHS => self.path = index,
            ScanTypes::CUSTOM => self.custom = index,
        }
    }

    /// The content of the resume file.
    pub fn resume_text(&self) -> (r: String)
        ensures
            r@ == "HTTP_SCAN_ID="@ + decimal(self.http as nat) + "\n"@
                + "URL_SCAN_ID="@ + decimal(self.url as nat) + "\n"@
                + "HOST_SCAN_ID="@ + decimal(self.host as nat) + "\n"@
                + "PATH_SCAN_ID="@ + decimal(self.path as nat) + "\n"@
                + "CUSTOM_SCAN_ID="@ + decimal(self.custom as nat) + "\n"@,
    {
        let mut r = "HTTP_SCAN_ID=".to_string();
        r.append(u64_to_decimal(self.http as u64).as_str());
        r.append("\n");
        r.append("URL_SCAN_ID=");
        r.append(u64_to_decimal(self.url as u64).as_str());
        r.append("\n");
        r.append("HOST_SCAN_ID=");
        r.append(u64_to_decimal(self.host as u64).as_str());
        r.append("\n");
        r.append("PATH_SCAN_ID=");
        r.append(u64_to_decimal(self.path as u64).as_str());
        r.append("\n");
        r.append("CUSTOM_SCAN_ID=");
        r.append(u64_to_decimal(self.custom as u64).as_str());
        r.append("\n");
        r
    }
}

/// Recording a target makes it the one read back for its kind, and leaves
/// the other kinds as they were.
pub proof fn law_progress_read_after_write(p: ScanProgress, t: ScanTypes, u: ScanTypes, index: usize)
    requires
        u != t,
    ensures
        p.spec_updated(t, index).spec_get(t) == index,
        p.spec_updated(t, index).spec_get(u) == p.spec_get(u),
{
}

/// Each kind of target has its own line of the resume file, read from its own
/// field (`resume_text`): recording target `index` of a kind sets the field
/// of that kind's line (`HTTP_SCAN_ID` from `http`, `URL_SCAN_ID` from `url`,
/// `HOST_SCAN_ID` from `host`, `PATH_SCAN_ID` from `path`, `CUSTOM_SCAN_ID`
/// from `custom`) and leaves the four other lines as they were.
pub proof fn law_progress_kind_lines(p: ScanProgress, index: usize)
    ensures
        ({
            let q = p.spec_updated(ScanTypes::FULL_HTTP, index);
            q.http == index && q.url == p.url && q.host == p.host && q.path == p.path && q.custom == p.custom
        }),
        ({
            let q = p.spec_updated(ScanTypes::URLS, index);
            q.http == p.http && q.url == index && q.host == p.host && q.path == p.path && q.custom == p.custom
        }),
        ({
            let q = p.spec_updated(ScanTypes::HOSTS, index);
            q.http == p.http && q.url == p.url && q.host == index && q.path == p.path && q.custom == p.custom
        }),
        ({
            let q = p.spec_updated(ScanTypes::PATHS, index);
            q.http == p.http && q.url == p.url && q.host == p.host && q.path == index && q.custom == p.custom
        }),
        ({
            let q = p.spec_updated(ScanTypes::CUSTOM, index);
            q.http == p.http && q.url == p.url && q.host == p.host && q.path == p.path && q.custom == index
        }),
{
}

/// Recording twice for one kind keeps the later index; recordings for two
/// different kinds do not interfere, in either order.
pub proof fn law_progress_updates_compose(p: ScanProgress, t: ScanTypes, u: ScanTypes, i: usize, j: usize)
    ensures
        p.spec_updated(t, i).spec_updated(t, j) == p.spec_updated(t, j),
        t != u ==> p.spec_updated(t, i).spec_updated(u, j) == p.spec_updated(u, j).spec_updated(t, i),
{
}

/// The number of steps of a scan's progress bar: one per host, path and
/// custom target, and one per URL and script.
pub fn progress_total(hosts: usize, paths: usize, custom: usize, urls: usize, scripts: usize) -> (n: u64)
    requires
        hosts + paths + custom + urls * scripts <= usize::MAX,
    ensures
        n == hosts + paths + custom + urls * scripts,
{
    assert(urls * scripts <= usize::MAX) by (nonlinear_arith)
        requires
            hosts + paths + custom + urls * scripts <= usize::MAX,
            hosts >= 0,
            paths >= 0,
            custom >= 0;
    let total = hosts + paths + custom + urls * scripts;
    total as u64
}

/// A pool of workers over a queue of targets.  All fields are public so
/// that contracts can speak of them (Verus treats a struct with a private
/// field as opaque outside its module).
pub struct Threader {
    pub errors_limit: i32,
    pub threads: usize,
    /// The number of errors counted so far.
    pub errors: i32,
}

impl Threader {
    /// A pool of `threads` workers that stops after `errors_limit` errors,
    /// with no error counted yet.
    pub fn init(threads: usize, errors_limit: i32) -> (t: Threader)
        ensures
            t.threads == threads,
            t.errors_limit == errors_limit,
            t.errors == 0,
    {
        Threader { threads, errors_limit, errors: 0 }
    }

    /// The number of errors counted so far.
    pub fn errors(&self) -> (e: i32)
        ensures
            e == self.errors,
    {
        self.errors
    }
}

/// An interaction recorded by the out-of-band server.
#[derive(Clone, Debug)]
pub struct OAstLog {
    pub host: String,
    pub unique_id: String,
    pub raw_request: String,
}

/// Whether a parameter scan hands a probe result to its callback: always,
/// unless the result is nil and nil results are not accepted.
pub fn runs_callback(result_is_nil: bool, accept_nil: bool) -> (b: bool)
    ensures
        b == (!result_is_nil || accept_nil),
{
    !result_is_nil || accept_nil
}

/// The number of live browser drivers after asking for one: unchanged when
/// the limit is reached, else one more.
pub open spec fn drivers_after_acquire(limit: int, live: int) -> int {
    if live == limit { live } else { live + 1 }
}

/// Asks for a browser driver: `None` when the limit is reached, else the
/// number of live drivers with the new one.
pub fn acquire_driver(limit: i32, live: i32) -> (r: Option<i32>)
    requires
        live == limit || live < i32::MAX,
    ensures
        r is None <==> live == limit,
        r matches Some(n) ==> n == drivers_after_acquire(limit as int, live as int),
{
    if limit == live {
        None
    } else {
        Some(live + 1)
    }
}

/// Asking for a driver succeeds exactly when fewer than `limit` are live,
/// adds one driver then and none otherwise, and so never takes their number
/// past the limit.
pub proof fn law_drivers_within_limit(limit: int, live: int)
    requires
        0 <= live <= limit,
    ensures
        0 <= drivers_after_acquire(limit, live) <= limit,
        (live != limit) <==> (live < limit),
        live < limit ==> drivers_after_acquire(limit, live) == live + 1,
        live == limit ==> drivers_after_acquire(limit, live) == live,
{
}

/// The number of live browser drivers after one is closed.
pub fn release_driver(live: i32) -> (r: i32)
    requires
        live > i32::MIN,
    ensures
        r == live - 1,
{
    live - 1
}

/// Log levels, most severe first.
#[derive(Debug, Clone, Copy, PartialEq, Eq, Structural)]
pub enum LogLevel {
    Error,
    Warn,
    Info,
    Debug,
    Trace,
}

/// Whether the logger shows messages of `level`: info and more severe.
pub fn log_enabled(level: LogLevel) -> (b: bool)
    ensures
        b == (level == LogLevel::Error || level == LogLevel::Warn || level == LogLevel::Info),
{
    match level {
        LogLevel::Error | LogLevel::Warn | LogLevel::Info => true,
        _ => false,
    }
}

pub open spec fn level_label(level: LogLevel) -> Seq<char> {
    match level {
        LogLevel::Info => "INFO"@,
        LogLevel::Warn => "WARN"@,
        LogLevel::Error => "ERROR"@,
        _ => "LOG"@,
    }
}

/// The label printed before a log message.
pub fn log_label(level: LogLevel) -> (r: &'static str)
    ensures
        r@ == level_label(level),
{
    match level {
        LogLevel::Info => "INFO",
        LogLevel::Warn => "WARN",
        LogLevel::Error => "ERROR",
        _ => "LOG",
    }
}

/// Installs the payload generators into a script runtime.
pub trait PayloadsEXT {
    fn add_payloadsfuncs(&self);
}

/// Installs the thread, matching and printing helpers into a script runtime.
pub trait UtilsEXT {
    fn add_threadsfunc(&self);

    fn add_matchingfunc(&self);

    fn add_printfunc(&self);
}

} // verus!
