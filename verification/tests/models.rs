use pindash_news::models::{Article, Author, Feed, Folder};

fn article(id: u64, title: &str) -> Article {
    Article {
        id,
        feed_id: 7,
        url: format!("https://example.com/{id}"),
        title: title.to_string(),
        content: "<p>body</p>".to_string(),
        created: 10,
        updated: 20,
        authors: Some(vec![Author { id: 1, name: "Ann".to_string() }]),
    }
}

#[test]
fn new_feed_is_blank() {
    let feed = Feed::new("https://example.com/feed.xml".to_string(), "Ex".to_string(), 1);
    assert_eq!(feed.id, 0);
    assert_eq!(feed.url, "https://example.com/feed.xml");
    assert_eq!(feed.name, "Ex");
    assert_eq!(feed.folder_id, 1);
    assert_eq!(feed.last_seen, 0);
    assert_eq!(feed.site, None);
    assert!(!feed.status);
    assert_eq!(feed.articles, None);
}

#[test]
fn defaults_are_empty() {
    assert_eq!(Feed::default(), Feed::new(String::new(), String::new(), 0));
    assert_eq!(Folder::default(), Folder { id: 0, name: String::new(), feeds: None });
    let blank = Article::default();
    assert_eq!(blank.id, 0);
    assert_eq!(blank.url, "");
    assert_eq!(blank.authors, None);
    assert_eq!(Author::default(), Author { id: 0, name: String::new() });
}

#[test]
fn headline_drops_body_and_authors() {
    let full = article(3, "Title");
    let head = full.clone_with_content_authors();
    assert_eq!(head.id, 3);
    assert_eq!(head.feed_id, 7);
    assert_eq!(head.url, "https://example.com/3");
    assert_eq!(head.title, "Title");
    assert_eq!(head.content, "");
    assert_eq!(head.created, 10);
    assert_eq!(head.updated, 20);
    assert_eq!(head.authors, None);
}

#[test]
fn marker_is_headline_of_last_article() {
    let mut feed = Feed::new("u".to_string(), "n".to_string(), 2);
    feed.id = 9;
    feed.last_seen = 20;
    feed.status = true;
    feed.articles = Some(vec![article(1, "first"), article(2, "second")]);
    let request = feed.clone_with_last_article();
    assert_eq!(request.id, 9);
    assert_eq!(request.last_seen, 20);
    assert!(request.status);
    assert_eq!(request.articles, Some(vec![article(2, "second").clone_with_content_authors()]));
}

#[test]
fn marker_is_blank_where_nothing_is_loaded() {
    let mut feed = Feed::new("u".to_string(), "n".to_string(), 2);
    let request = feed.clone_with_last_article();
    assert_eq!(request.articles, Some(vec![Article::default()]));
    feed.articles = Some(Vec::new());
    let request = feed.clone_with_last_article();
    assert_eq!(request.articles, Some(vec![Article::default()]));
}

#[test]
fn folder_copy_without_feeds() {
    let folder = Folder {
        id: 4,
        name: "News".to_string(),
        feeds: Some(vec![Feed::new("u".to_string(), "n".to_string(), 4)]),
    };
    assert_eq!(
        folder.clone_without_feeds(),
        Folder { id: 4, name: "News".to_string(), feeds: None }
    );
    assert_eq!(folder.clone(), folder);
}
