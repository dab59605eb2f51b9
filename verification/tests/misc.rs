use lotus::encoding::{
    base64_decode, base64_decode_text, base64_encode, htmldecode, htmlencode, url_component_decode,
    url_component_encode, urldecode, urlencode,
};
use lotus::paths::{join_paths, join_script_dir};
use lotus::scan::{
    acquire_driver, log_enabled, log_label, progress_total, release_driver, runs_callback, LogLevel,
    RequestOpts, ScanProgress, ScanTypes, Threader,
};
use lotus::text::{str_contains, u64_to_decimal};

#[test]
fn scan_type_names() {
    assert_eq!(ScanTypes::FULL_HTTP.as_str(), "FULL_HTTP");
    assert_eq!(ScanTypes::HOSTS.as_str(), "HOSTS");
    assert_eq!(ScanTypes::URLS.as_str(), "URLS");
    assert_eq!(ScanTypes::PATHS.as_str(), "PATHS");
    assert_eq!(ScanTypes::CUSTOM.as_str(), "CUSTOM");
}

#[test]
fn progress_and_resume_file() {
    let mut p = ScanProgress::new();
    p.update_index_id(ScanTypes::URLS, 12);
    p.update_index_id(ScanTypes::CUSTOM, 3);
    assert_eq!(p.get(ScanTypes::URLS), 12);
    assert_eq!(p.get(ScanTypes::HOSTS), 0);
    assert_eq!(
        p.resume_text(),
        "HTTP_SCAN_ID=0\nURL_SCAN_ID=12\nHOST_SCAN_ID=0\nPATH_SCAN_ID=0\nCUSTOM_SCAN_ID=3\n"
    );
    assert_eq!(progress_total(1, 2, 3, 4, 5), 26);
}

#[test]
fn threader_and_request_opts() {
    let t = Threader::init(8, 3);
    assert_eq!(t.threads, 8);
    assert_eq!(t.errors_limit, 3);
    assert_eq!(t.errors(), 0);
    let opts = RequestOpts { headers: vec![("A".to_string(), "1".to_string())], proxy: None, timeout: 9, redirects: 4 };
    let s = opts.sender();
    assert_eq!(s.timeout, 9);
    assert_eq!(s.redirects, 4);
    assert_eq!(s.headers, opts.headers);
}

#[test]
fn runner_decisions() {
    assert!(runs_callback(false, false));
    assert!(!runs_callback(true, false));
    assert!(runs_callback(true, true));
    assert_eq!(acquire_driver(5, 5), None);
    assert_eq!(acquire_driver(5, 2), Some(3));
    assert_eq!(release_driver(3), 2);
    assert!(log_enabled(LogLevel::Warn));
    assert!(!log_enabled(LogLevel::Debug));
    assert_eq!(log_label(LogLevel::Error), "ERROR");
    assert_eq!(log_label(LogLevel::Trace), "LOG");
}

#[test]
fn encoders() {
    assert_eq!(base64_encode("hello".to_string()), "aGVsbG8=");
    assert_eq!(base64_decode("aGVsbG8=".to_string()).unwrap(), b"hello".to_vec());
    assert!(base64_decode("!!".to_string()).is_err());
    assert_eq!(base64_decode_text("aGVsbG8=".to_string()), Ok("hello".to_string()));
    assert_eq!(base64_decode_text("%%".to_string()), Err("Invalid Base64 input".to_string()));
    let s = "héllo wörld".to_string();
    assert_eq!(base64_decode_text(base64_encode(s.clone())), Ok(s));
    assert_eq!(htmlencode("<a href='x'>&</a>".to_string()), "&lt;a href='x'&gt;&amp;&lt;/a&gt;");
    assert_eq!(htmldecode("&lt;b&gt;&amp;".to_string()), "<b>&");
    assert_eq!(urlencode("a b\"c".to_string()), "a%20b%22c");
    assert_eq!(urldecode("a%20b".to_string()), "a b");
    assert_eq!(url_component_encode("a b/c".to_string()), "a%20b%2Fc");
    assert_eq!(url_component_decode("a%20b".to_string()), Ok("a b".to_string()));
    assert_eq!(url_component_decode("%FF".to_string()), Err("Invalid URL input".to_string()));
    let b = base64_encode("héllo".to_string());
    assert_eq!(base64_decode(b).unwrap(), "héllo".as_bytes().to_vec());
    let f = "a b<c>`ü\"".to_string();
    assert_eq!(urlencode(f.clone()), "a%20b%3Cc%3E%60%C3%BC%22");
    assert_eq!(urldecode(urlencode(f.clone())), f);
    assert_eq!(urldecode(urlencode("%41".to_string())), "A");
    for t in ["100%", "50% off", "%g1", "%A", "a%%b"] {
        assert_eq!(urldecode(urlencode(t.to_string())), t);
    }
    let t = "x=1&y=ü".to_string();
    assert_eq!(url_component_decode(url_component_encode(t.clone())), Ok(t));
}

#[test]
fn paths_join() {
    assert_eq!(join_paths("/a/b", "c.txt"), "/a/b/c.txt");
    assert_eq!(join_script_dir("/scripts/x/main.lua", "payloads.txt"), Some("/scripts/x/payloads.txt".to_string()));
    assert_eq!(join_script_dir("/", "p"), None);
}

#[test]
fn text_helpers() {
    assert!(str_contains("abcdef", "cde"));
    assert!(str_contains("abc", ""));
    assert!(!str_contains("abc", "abcd"));
    assert_eq!(u64_to_decimal(0), "0");
    assert_eq!(u64_to_decimal(1234567890), "1234567890");
    assert_eq!(u64_to_decimal(u64::MAX), "18446744073709551615");
}
