use link_share::key::{derive_key, KEY_LEN};
use link_share::normalize::normalize;
use link_share::render::{render, render_html, render_json, render_rss, Format};
use link_share::store::Entry;
use link_share::time::{datetime_from_unix, push_iso_timestamp, push_rfc822_timestamp};

fn entry(url: &str, t: u64) -> Entry {
    Entry {
        key: "k0".to_string(),
        namespace: "ns".to_string(),
        target_url: url.to_string(),
        created_at: t,
    }
}

#[test]
fn normalize_canonicalizes() {
    let t = normalize("HTTPS://EXAMPLE.COM").unwrap();
    assert_eq!(t.as_str(), "https://example.com/");
    let t = normalize("http://Example.COM:80/a/../b?x=1#frag").unwrap();
    assert_eq!(t.as_str(), "http://example.com/b?x=1");
    assert!(normalize("").is_none());
    assert!(normalize("example.com").is_none());
    assert!(normalize("file:///etc/hosts").is_none());
}

#[test]
fn keys_are_stable_and_short() {
    let a = derive_key("news", "https://a.com/", 0);
    let b = derive_key("news", "https://a.com/", 0);
    let c = derive_key("news", "https://a.com/", 1);
    let d = derive_key("other", "https://a.com/", 0);
    assert_eq!(a, b);
    assert_ne!(a, c);
    assert_ne!(a, d);
    assert_eq!(a.chars().count(), KEY_LEN);
    assert!(a.chars().all(|ch| ch.is_ascii_digit() || ('a'..='v').contains(&ch)));
}

#[test]
fn civil_dates() {
    let d = datetime_from_unix(0);
    assert_eq!((d.year, d.month, d.day, d.weekday), (1970, 1, 1, 4));
    let d = datetime_from_unix(951_782_400);
    assert_eq!((d.year, d.month, d.day), (2000, 2, 29));
    let d = datetime_from_unix(1_700_000_000);
    assert_eq!((d.year, d.month, d.day, d.hour, d.minute, d.second, d.weekday), (2023, 11, 14, 22, 13, 20, 2));
}

#[test]
fn timestamp_texts() {
    let mut s = String::new();
    push_iso_timestamp(&mut s, 0);
    assert_eq!(s, "1970-01-01T00:00:00Z");
    let mut s = String::new();
    push_rfc822_timestamp(&mut s, 0);
    assert_eq!(s, "Thu, 01 Jan 1970 00:00:00 +0000");
    let mut s = String::from("at ");
    push_iso_timestamp(&mut s, 253_402_300_800);
    assert_eq!(s, "at 10000-01-01T00:00:00Z");
}

#[test]
fn json_escapes_specials() {
    let e = entry("a\"b\\c\nd", 0);
    let j = render_json(&e);
    assert_eq!(
        j,
        "{\"key\":\"k0\",\"namespace\":\"ns\",\"target_url\":\"a\\\"b\\\\c\\u000ad\",\"created_at\":\"1970-01-01T00:00:00Z\"}"
    );
}

#[test]
fn html_escapes_markup() {
    let e = entry("x<y>&\"'", 60);
    let h = render_html(&e);
    assert_eq!(
        h,
        "<div class=\"entry\"><a href=\"x&lt;y&gt;&amp;&quot;&#39;\">x&lt;y&gt;&amp;&quot;&#39;</a> <time datetime=\"1970-01-01T00:01:00Z\">1970-01-01 00:01:00 UTC</time></div>"
    );
}

#[test]
fn rss_item_shape() {
    let e = entry("https://a.com/?a=1&b=2", 0);
    let r = render_rss(&e);
    assert_eq!(
        r,
        "<item><title>k0</title><link>https://a.com/?a=1&amp;b=2</link><guid isPermaLink=\"false\">ns/k0</guid><pubDate>Thu, 01 Jan 1970 00:00:00 +0000</pubDate></item>"
    );
    assert_eq!(render(&e, Format::Rss), r);
    assert_eq!(render(&e, Format::Json), render_json(&e));
}
