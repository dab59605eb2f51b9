use lotus::url_message::HttpMessage;
use std::collections::HashMap;
use url::Url;

#[test]
fn test_change_urlquery() {
    let url = Url::parse("https://example.com/path?key1=value1&key2=value2").unwrap();
    let http_msg = HttpMessage { url: url.as_str().to_string() };
    let payload = "new_value";
    let expected_result = [("key1", "new_value"), ("key2", "new_value")]
        .iter()
        .map(|(k, v)| {
            (
                k.to_string(),
                format!("https://example.com/path?{}={}", k, v),
            )
        })
        .collect::<HashMap<String, String>>();

    let result: HashMap<String, String> = http_msg.change_urlquery(payload, true).into_iter().collect();
    assert_eq!(result, expected_result);
}

#[test]
fn test_set_urlvalue() {
    let url = Url::parse("https://example.com/path?key1=value1&key2=value2").unwrap();
    let http_msg = HttpMessage { url: url.as_str().to_string() };
    let param = "key1";
    let payload = "new_value";
    let expected_result = "https://example.com/path?key2=value2&key1=value1new_value";

    let result = http_msg.set_urlvalue(param, payload);
    assert_eq!(result, expected_result);
}

#[test]
fn test_urljoin() {
    let url = Url::parse("https://example.com/path").unwrap();
    let http_msg = HttpMessage { url: url.as_str().to_string() };
    let path = "subpath";
    let expected_result = "https://example.com/path/subpath";

    let result = http_msg.urljoin(path);
    assert_eq!(result, expected_result);
}

#[test]
fn change_urlquery_appends_last_payload_line() {
    let msg = HttpMessage { url: "http://a.test/x?q=1&r=2&q=3".to_string() };
    let result = msg.change_urlquery("one\ntwo", false);
    assert_eq!(
        result,
        vec![
            ("q".to_string(), "http://a.test/x?q=3two".to_string()),
            ("r".to_string(), "http://a.test/x?r=2two".to_string()),
        ]
    );
}

#[test]
fn change_urlquery_on_unparsable_url_is_empty() {
    let msg = HttpMessage { url: "not a url".to_string() };
    assert!(msg.change_urlquery("x", true).is_empty());
}

#[test]
fn set_urlvalue_without_the_parameter_keeps_others() {
    let msg = HttpMessage { url: "http://a.test/x?a=1&b=2".to_string() };
    assert_eq!(msg.set_urlvalue("c", "zz"), "http://a.test/x?a=1&b=2");
}

#[test]
fn set_urlvalue_on_url_without_query() {
    let msg = HttpMessage { url: "http://a.test/x".to_string() };
    assert_eq!(msg.set_urlvalue("c", "zz"), "http://a.test/x");
}

#[test]
fn urljoin_keeps_trailing_slash_base_and_absolute_paths() {
    let msg = HttpMessage { url: "https://example.com/dir/".to_string() };
    assert_eq!(msg.urljoin("file"), "https://example.com/dir/file");
    assert_eq!(msg.urljoin("/root"), "https://example.com/root");
    let bad = HttpMessage { url: "nope".to_string() };
    assert_eq!(bad.try_urljoin("x"), None);
}

#[test]
fn url_accessors() {
    let msg = HttpMessage { url: "https://example.com/a/b?x=1&y=2&x=3".to_string() };
    assert_eq!(msg.path(), Some("/a/b".to_string()));
    assert_eq!(msg.param_str(), Some("x=1&y=2&x=3".to_string()));
    assert_eq!(msg.param_list(), Some(vec!["x".to_string(), "y".to_string(), "x".to_string()]));
    let plain = HttpMessage { url: "https://example.com/".to_string() };
    assert_eq!(plain.param_str(), Some(String::new()));
}
