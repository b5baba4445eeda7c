use pindash_news::document::{Document, Entry, FeedType, Link};
use pindash_news::fetch::{
    candidate_timestamp, choose_site, derive_site_url, find_plain_link, has_new_content,
    strip_feed_suffixes,
};

fn entry(updated: Option<i64>, published: Option<i64>) -> Entry {
    Entry {
        id: "e".to_string(),
        title: None,
        links: Vec::new(),
        content: None,
        summary: None,
        published,
        updated,
        authors: Vec::new(),
    }
}

fn document(id: &str, links: Vec<Link>, entries: Vec<Entry>) -> Document {
    Document {
        id: id.to_string(),
        kind: FeedType::Atom,
        title: None,
        description: None,
        published: None,
        updated: None,
        authors: Vec::new(),
        links,
        entries,
    }
}

fn link(href: &str) -> Link {
    Link { href: href.to_string(), rel: None }
}

#[test]
fn timestamp_comes_from_the_first_entry() {
    let mut doc = document("d", Vec::new(), vec![entry(Some(50), Some(40)), entry(Some(90), None)]);
    doc.updated = Some(70);
    doc.published = Some(60);
    assert_eq!(candidate_timestamp(&doc, 5), 50);
    doc.entries[0].updated = None;
    assert_eq!(candidate_timestamp(&doc, 5), 40);
}

#[test]
fn timestamp_falls_back_to_the_document_then_to_the_watermark() {
    let mut doc = document("d", Vec::new(), vec![entry(None, None)]);
    doc.updated = Some(70);
    doc.published = Some(60);
    assert_eq!(candidate_timestamp(&doc, 5), 70);
    doc.updated = None;
    assert_eq!(candidate_timestamp(&doc, 5), 60);
    doc.published = None;
    assert_eq!(candidate_timestamp(&doc, 5), 5);
    doc.entries.clear();
    assert_eq!(candidate_timestamp(&doc, -3), -3);
}

#[test]
fn news_is_later_or_equal_with_entries() {
    assert!(has_new_content(11, 10, 0));
    assert!(has_new_content(11, 10, 3));
    assert!(has_new_content(10, 10, 1));
    assert!(!has_new_content(10, 10, 0));
    assert!(!has_new_content(9, 10, 5));
    assert!(has_new_content(0, 0, 2));
}

#[test]
fn feed_suffixes_are_stripped_in_turn() {
    assert_eq!(strip_feed_suffixes("https://example.com/rss.xml"), "https://example.com/");
    assert_eq!(strip_feed_suffixes("https://example.com/atom.xml"), "https://example.com/");
    assert_eq!(strip_feed_suffixes("https://example.com/index.xml"), "https://example.com/");
    assert_eq!(strip_feed_suffixes("https://example.com/feed.xml"), "https://example.com/");
    assert_eq!(strip_feed_suffixes("https://example.com/feed.atom"), "https://example.com/");
    assert_eq!(strip_feed_suffixes("https://example.com/feed/"), "https://example.com/");
    assert_eq!(strip_feed_suffixes("https://example.com/feed"), "https://example.com/");
    assert_eq!(strip_feed_suffixes("https://example.com/rss/"), "https://example.com/");
    assert_eq!(strip_feed_suffixes("https://example.com/rss"), "https://example.com/");
    assert_eq!(strip_feed_suffixes("https://example.com/blog"), "https://example.com/blog");
    assert_eq!(strip_feed_suffixes("https://example.com/rss/feed"), "https://example.com/");
}

#[test]
fn plain_link_is_the_first_that_is_no_feed() {
    let links = vec![link("https://example.com/feed.xml"), link("https://example.com/blog"), link("https://example.com/")];
    assert_eq!(find_plain_link(&links), Some("https://example.com/blog".to_string()));
    assert_eq!(find_plain_link(&vec![link("https://example.com/atom")]), None);
    assert_eq!(find_plain_link(&Vec::new()), None);
}

#[test]
fn site_prefers_a_plain_link() {
    let doc = document(
        "https://id.example/",
        vec![link("https://example.com/feed.xml"), link("https://example.com/")],
        Vec::new(),
    );
    assert_eq!(derive_site_url(&doc, "https://example.com/feed.xml"), "https://example.com/");
}

#[test]
fn site_is_the_identifier_where_it_is_an_address() {
    let doc = document("HTTPS://Example.COM/a/../b", vec![link("https://example.com/feed.xml")], Vec::new());
    assert_eq!(derive_site_url(&doc, "https://example.com/feed.xml"), "https://example.com/b");
    let doc = document("https://example.com", Vec::new(), Vec::new());
    assert_eq!(derive_site_url(&doc, "https://example.com/rss"), "https://example.com/");
}

#[test]
fn site_ignores_an_identifier_with_a_comma() {
    let doc = document("tag:example.com,2005:feed", vec![link("https://example.com/atom.xml")], Vec::new());
    assert_eq!(derive_site_url(&doc, "https://feeds.example.com/x"), "https://example.com/");
    assert_eq!(
        choose_site(&doc, Some("tag:example.com,2005:feed".to_string()), "https://feeds.example.com/x"),
        "https://example.com/"
    );
}

#[test]
fn site_falls_back_to_the_stripped_feed_address() {
    let doc = document("not an address", Vec::new(), Vec::new());
    assert_eq!(derive_site_url(&doc, "https://example.com/blog/feed.xml"), "https://example.com/blog/");
    assert_eq!(choose_site(&doc, None, "https://example.com/index.xml"), "https://example.com/");
    assert_eq!(choose_site(&doc, Some("https://given.example/".to_string()), "https://example.com/index.xml"), "https://given.example/");
}

#[test]
fn format_labels() {
    assert_eq!(FeedType::Atom.label(), "Atom");
    assert_eq!(FeedType::JSON.label(), "JSON");
    assert_eq!(FeedType::RSS0.label(), "RSS0");
    assert_eq!(FeedType::RSS1.label(), "RSS1");
    assert_eq!(FeedType::RSS2.label(), "RSS2");
}

#[test]
fn formats_are_read_back_from_their_labels() {
    for kind in [FeedType::Atom, FeedType::JSON, FeedType::RSS0, FeedType::RSS1, FeedType::RSS2] {
        assert_eq!(FeedType::from_label(kind.label()), Some(kind));
    }
    assert_eq!(FeedType::from_label("atom"), None);
    assert_eq!(FeedType::from_label("RSS"), None);
    assert_eq!(FeedType::from_label("RSS20"), None);
    assert_eq!(FeedType::from_label(""), None);
}
