use lotus::sitemap::{HttpRequestResponse, SiteMap};

fn exchange(url: &str, status: u16) -> HttpRequestResponse {
    HttpRequestResponse {
        url: url.to_string(),
        method: "GET".to_string(),
        request: "GET / HTTP/1.1".to_string(),
        response: "HTTP/1.1 200 OK".to_string(),
        status_code: status,
    }
}

#[test]
fn add_get_remove() {
    let mut map = SiteMap::new();
    assert!(map.get_entry("http://a/").is_none());
    map.add_entry(exchange("http://a/", 200));
    map.add_entry(exchange("http://b/", 404));
    map.add_entry(exchange("http://a/", 500));
    assert_eq!(map.get_entry("http://a/").unwrap().status_code, 500);
    assert_eq!(map.list_entries().len(), 2);
    let removed = map.remove_entry("http://a/").unwrap();
    assert_eq!(removed.status_code, 500);
    assert!(map.get_entry("http://a/").is_none());
    assert!(map.remove_entry("http://a/").is_none());
    assert_eq!(map.get_entry("http://b/").unwrap().status_code, 404);
    let all = map.list_entries();
    assert_eq!(all.len(), 1);
    assert_eq!(all[0].url, "http://b/");
}

#[test]
fn default_is_empty() {
    let map = SiteMap::default();
    assert!(map.list_entries().is_empty());
}

#[test]
fn remove_undoes_add() {
    let mut map = SiteMap::new();
    map.add_entry(exchange("http://a/", 200));
    let before = map.list_entries().len();
    map.add_entry(exchange("http://c/", 301));
    assert_eq!(map.list_entries().len(), before + 1);
    assert_eq!(map.remove_entry("http://c/").unwrap().status_code, 301);
    let after = map.list_entries();
    assert_eq!(after.len(), before);
    assert_eq!(after[0].url, "http://a/");
}
