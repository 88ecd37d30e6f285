use link_share::render::Format;
use link_share::share::{namespace_key, share_url, show, Params, ShareResult};
use link_share::store::{LinkError, NamespaceStore};

fn params(url: &str) -> Params {
    Params { url: Some(url.to_string()) }
}

fn shared(store: &mut NamespaceStore, table: &str, url: &str, now: u64) -> ShareResult {
    share_url(store, table, &params(url), now).expect("share succeeds")
}

#[test]
fn share_lowercases_scheme_and_host() {
    let mut store = NamespaceStore::new();
    let r = shared(&mut store, "news", "https://Example.com/Path", 0);
    assert!(r.created);
    let json = show(&store, "news", &r.key, Format::Json).unwrap();
    let expected = format!(
        "{{\"key\":\"{}\",\"namespace\":\"news\",\"target_url\":\"https://example.com/Path\",\"created_at\":\"1970-01-01T00:00:00Z\"}}",
        r.key
    );
    assert_eq!(json, expected);
}

#[test]
fn share_without_url_is_missing() {
    let mut store = NamespaceStore::new();
    assert_eq!(
        share_url(&mut store, "news", &params(""), 0).err(),
        Some(LinkError::MissingUrl)
    );
    assert_eq!(
        share_url(&mut store, "news", &Params { url: None }, 0).err(),
        Some(LinkError::MissingUrl)
    );
    assert_eq!(store.len(), 0);
}

#[test]
fn share_of_non_url_is_invalid() {
    let mut store = NamespaceStore::new();
    assert_eq!(
        share_url(&mut store, "news", &params("not a url"), 0).err(),
        Some(LinkError::InvalidUrl)
    );
    assert_eq!(
        share_url(&mut store, "news", &params("ftp://example.com/file"), 0).err(),
        Some(LinkError::InvalidUrl)
    );
    assert_eq!(
        share_url(&mut store, "news", &params("mailto:someone@example.com"), 0).err(),
        Some(LinkError::InvalidUrl)
    );
    assert_eq!(store.len(), 0);
}

#[test]
fn show_of_unknown_key_is_not_found() {
    let store = NamespaceStore::new();
    assert_eq!(
        show(&store, "news", "nonexistent-key", Format::Json).err(),
        Some(LinkError::NotFound)
    );
}

#[test]
fn share_twice_gives_same_key() {
    let mut store = NamespaceStore::new();
    let a = shared(&mut store, "news", "https://a.com", 10);
    let b = shared(&mut store, "news", "https://a.com", 20);
    assert!(a.created);
    assert!(!b.created);
    assert_eq!(a.key, b.key);
    assert_eq!(store.len(), 1);
    let e = store.get("news", &a.key).unwrap();
    assert_eq!(e.created_at, 10);
}

#[test]
fn namespaces_hold_separate_entries() {
    let mut store = NamespaceStore::new();
    let a = shared(&mut store, "alpha", "https://a.com", 1);
    let b = shared(&mut store, "beta", "https://a.com", 2);
    assert!(a.created && b.created);
    assert_eq!(store.len(), 2);
    let ea = store.get("alpha", &a.key).unwrap();
    let eb = store.get("beta", &b.key).unwrap();
    assert_eq!(ea.namespace, "alpha");
    assert_eq!(eb.namespace, "beta");
    assert_eq!(ea.target_url, "https://a.com/");
    assert_eq!(eb.target_url, "https://a.com/");
    assert_eq!(ea.created_at, 1);
    assert_eq!(eb.created_at, 2);
    if a.key != b.key {
        assert!(store.get("alpha", &b.key).is_err());
        assert!(store.get("beta", &a.key).is_err());
    }
}

#[test]
fn namespace_is_case_insensitive() {
    let mut store = NamespaceStore::new();
    let a = shared(&mut store, "News", "https://a.com", 1);
    let b = shared(&mut store, "NEWS", "https://a.com", 2);
    assert_eq!(a.key, b.key);
    assert!(!b.created);
    assert!(show(&store, "news", &a.key, Format::Rss).is_ok());
    assert_eq!(namespace_key("MiXeD").unwrap(), "mixed");
}

#[test]
fn bad_namespace_is_refused() {
    let mut store = NamespaceStore::new();
    assert_eq!(
        share_url(&mut store, "", &params("https://a.com"), 0).err(),
        Some(LinkError::InvalidNamespace)
    );
    let long = "n".repeat(65);
    assert_eq!(
        share_url(&mut store, &long, &params("https://a.com"), 0).err(),
        Some(LinkError::InvalidNamespace)
    );
    let longest = "n".repeat(64);
    assert!(share_url(&mut store, &longest, &params("https://a.com"), 0).is_ok());
    assert_eq!(
        show(&store, "", "abc", Format::Json).err(),
        Some(LinkError::NotFound)
    );
}

#[test]
fn fragment_is_dropped() {
    let mut store = NamespaceStore::new();
    let a = shared(&mut store, "news", "https://a.com/page#top", 0);
    let b = shared(&mut store, "news", "https://a.com/page", 0);
    assert_eq!(a.key, b.key);
    let e = store.get("news", &a.key).unwrap();
    assert_eq!(e.target_url, "https://a.com/page");
}

#[test]
fn many_serialized_shares_create_once() {
    let mut store = NamespaceStore::new();
    let results: Vec<ShareResult> = (0..8)
        .map(|i| shared(&mut store, "news", "https://a.com/x", i))
        .collect();
    assert_eq!(results.iter().filter(|r| r.created).count(), 1);
    assert!(results[0].created);
    assert!(results.iter().all(|r| r.key == results[0].key));
    assert_eq!(store.len(), 1);
}

#[test]
fn formats_show_same_url_and_time() {
    let mut store = NamespaceStore::new();
    let r = shared(&mut store, "news", "https://a.com/it's?q=1", 1_700_000_000);
    let json = show(&store, "news", &r.key, Format::Json).unwrap();
    let html = show(&store, "news", &r.key, Format::Html).unwrap();
    let rss = show(&store, "news", &r.key, Format::Rss).unwrap();
    assert!(json.contains("\"target_url\":\"https://a.com/it's?q=1\""));
    assert!(json.contains("\"created_at\":\"2023-11-14T22:13:20Z\""));
    assert!(html.contains("<a href=\"https://a.com/it&#39;s?q=1\">"));
    assert!(html.contains("datetime=\"2023-11-14T22:13:20Z\""));
    assert!(html.contains("2023-11-14 22:13:20 UTC"));
    assert!(rss.contains("<link>https://a.com/it&#39;s?q=1</link>"));
    assert!(rss.contains("<pubDate>Tue, 14 Nov 2023 22:13:20 +0000</pubDate>"));
    assert!(rss.contains(&format!("<title>{}</title>", r.key)));
}
