use pindash_news::document::Link;
use pindash_news::utils::{extract_site_url, is_feed_url, trim_end};

fn link(href: &str, rel: Option<&str>) -> Link {
    Link { href: href.to_string(), rel: rel.map(|r| r.to_string()) }
}

#[test]
fn feed_addresses_are_recognised() {
    for href in [
        "https://example.com/index.xml",
        "https://example.com/feed.atom",
        "https://example.com/rss/",
        "https://example.com/rss",
        "https://example.com/atom/",
        "https://example.com/atom",
        "https://example.com/feed",
        "https://example.com/feed/",
    ] {
        assert!(is_feed_url(&link(href, None)));
    }
    assert!(!is_feed_url(&link("https://example.com/", None)));
    assert!(!is_feed_url(&link("https://example.com/blog", None)));
}

#[test]
fn slashes_at_the_end_are_removed() {
    assert_eq!(trim_end("https://example.com//".to_string()), "https://example.com");
    assert_eq!(trim_end("https://example.com/a".to_string()), "https://example.com/a");
}

#[test]
fn site_is_the_first_foreign_link() {
    let links = vec![
        link("https://example.com/feed.xml", Some("self")),
        link("https://example.com/", Some("alternate")),
        link("https://other.example/", None),
    ];
    assert_eq!(
        extract_site_url("https://example.com/feed.xml".to_string(), links),
        "https://example.com"
    );
}

#[test]
fn site_falls_back_to_the_feed_address() {
    let only_self = vec![link("https://example.com/feed.xml", Some("self"))];
    assert_eq!(
        extract_site_url("https://example.com/feed/".to_string(), only_self),
        "https://example.com/feed"
    );
    let feed_like = vec![
        link("https://example.com/rss", None),
        link("https://example.com/", None),
    ];
    assert_eq!(
        extract_site_url("https://example.com/rss/".to_string(), feed_like),
        "https://example.com/rss"
    );
    assert_eq!(extract_site_url("https://a.example/".to_string(), Vec::new()), "https://a.example");
}
