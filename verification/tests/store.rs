use pindash_news::db::{
    create_feed, create_folder, delete_feed, delete_folder, init, rename_folder, update_feed,
    update_feed_ext, update_feed_ext_and_upsert_articles, upsert_articles, Counters, Database,
    StoreError,
};
use pindash_news::document::{Entry, FeedType, Link, Person};
use pindash_news::ingest::{resolve, resolve_url, Incoming};
use pindash_news::models::{Article, Author, Feed, Folder};
use pindash_news::query::{fetch_folders, find_articles_by_feed};
use pindash_news::schema::{ArticleRow, AuthorRow, FeedRow, FolderRow, DEFAULT_FOLDER};

fn folder(id: u64, name: &str) -> Folder {
    Folder { id, name: name.to_string(), feeds: None }
}

fn feed(id: u64, url: &str, name: &str, folder_id: u64) -> Feed {
    let mut feed = Feed::new(url.to_string(), name.to_string(), folder_id);
    feed.id = id;
    feed
}

fn person(name: &str, email: Option<&str>) -> Person {
    Person { name: name.to_string(), email: email.map(|e| e.to_string()), uri: None }
}

fn entry(id: &str, link: Option<&str>, title: Option<&str>) -> Entry {
    Entry {
        id: id.to_string(),
        title: title.map(|t| t.to_string()),
        links: link.map(|href| vec![Link { href: href.to_string(), rel: None }]).unwrap_or_default(),
        content: None,
        summary: None,
        published: None,
        updated: None,
        authors: Vec::new(),
    }
}

fn store_with_feed() -> (Database, u64) {
    let mut db = Database::new();
    let id = create_feed(&mut db, &feed(0, "https://example.com/feed.xml", "Ex", 1)).unwrap();
    (db, id)
}

fn all_articles(db: &Database, feed_id: u64) -> Vec<Article> {
    find_articles_by_feed(db, &feed(feed_id, "", "", 0))
}

#[test]
fn new_store_holds_the_default_folder() {
    let db = Database::new();
    assert_eq!(DEFAULT_FOLDER, 1);
    assert_eq!(db.folders(), &vec![FolderRow { id: 1, name: "Default".to_string() }]);
    assert!(db.feeds().is_empty());
    assert!(db.articles().is_empty());
    assert!(db.authors().is_empty());
    assert_eq!(db.counters(), Counters { folder: 2, feed: 1, article: 1, author: 1 });
    assert_eq!(fetch_folders(&db), vec![folder(1, "Default")]);
}

#[test]
fn folders_are_created_with_growing_ids() {
    let mut db = Database::new();
    assert_eq!(create_folder(&mut db, &folder(0, "Tech")), Ok(2));
    assert_eq!(create_folder(&mut db, &folder(99, "News")), Ok(3));
    assert_eq!(
        db.folders(),
        &vec![
            FolderRow { id: 1, name: "Default".to_string() },
            FolderRow { id: 2, name: "Tech".to_string() },
            FolderRow { id: 3, name: "News".to_string() },
        ]
    );
    assert_eq!(delete_folder(&mut db, &folder(3, "")), Ok(()));
    assert_eq!(create_folder(&mut db, &folder(0, "Again")), Ok(4));
}

#[test]
fn rename_reports_rows_changed() {
    let mut db = Database::new();
    create_folder(&mut db, &folder(0, "Tech")).unwrap();
    assert_eq!(rename_folder(&mut db, &folder(2, "Technology")), 1);
    assert_eq!(rename_folder(&mut db, &folder(5, "Ghost")), 0);
    assert_eq!(db.folders()[1], FolderRow { id: 2, name: "Technology".to_string() });
    assert_eq!(db.folders().len(), 2);
}

#[test]
fn default_folder_is_not_deleted() {
    let mut db = Database::new();
    assert_eq!(delete_folder(&mut db, &folder(1, "Default")), Err(StoreError::DefaultFolder));
    assert_eq!(db.folders().len(), 1);
}

#[test]
fn deleting_a_folder_hands_its_feeds_to_the_default_folder() {
    let mut db = Database::new();
    create_folder(&mut db, &folder(0, "Tech")).unwrap();
    create_folder(&mut db, &folder(0, "News")).unwrap();
    let a = create_feed(&mut db, &feed(0, "https://a.example/", "A", 2)).unwrap();
    let b = create_feed(&mut db, &feed(0, "https://b.example/", "B", 1)).unwrap();
    let c = create_feed(&mut db, &feed(0, "https://c.example/", "C", 2)).unwrap();
    let d = create_feed(&mut db, &feed(0, "https://d.example/", "D", 3)).unwrap();
    assert_eq!(delete_folder(&mut db, &folder(2, "Tech")), Ok(()));
    let tree = fetch_folders(&db);
    assert_eq!(tree.len(), 2);
    assert_eq!(tree[0].id, 1);
    let ids: Vec<u64> = tree[0].feeds.as_ref().unwrap().iter().map(|f| f.id).collect();
    assert_eq!(ids, vec![b, a, c]);
    assert!(tree[0].feeds.as_ref().unwrap().iter().all(|f| f.folder_id == 1));
    assert_eq!(tree[1].id, 3);
    assert_eq!(tree[1].feeds.as_ref().unwrap()[0].id, d);
    assert_eq!(delete_folder(&mut db, &folder(2, "Tech")), Ok(()));
    assert_eq!(fetch_folders(&db), tree);
}

#[test]
fn feed_needs_a_folder_that_exists() {
    let mut db = Database::new();
    assert_eq!(create_feed(&mut db, &feed(0, "u", "n", 5)), Err(StoreError::NoSuchFolder));
    assert!(db.feeds().is_empty());
    assert_eq!(create_feed(&mut db, &feed(0, "u", "n", 1)), Ok(1));
    assert_eq!(
        db.feeds()[0],
        FeedRow {
            id: 1,
            url: "u".to_string(),
            name: "n".to_string(),
            site: None,
            kind: None,
            title: None,
            description: None,
            last_seen: 0,
            folder_id: 1,
        }
    );
}

#[test]
fn update_in_place_reports_no_previous_folder() {
    let (mut db, id) = store_with_feed();
    assert_eq!(update_feed(&mut db, &feed(id, "https://new.example/rss", "New", 1)), Ok((0, 1)));
    assert_eq!(db.feeds()[0].url, "https://new.example/rss");
    assert_eq!(db.feeds()[0].name, "New");
    assert_eq!(db.feeds()[0].folder_id, 1);
    assert_eq!(update_feed(&mut db, &feed(77, "u", "n", 1)), Ok((0, 0)));
}

#[test]
fn update_that_moves_reports_the_previous_folder() {
    let (mut db, id) = store_with_feed();
    let other = create_feed(&mut db, &feed(0, "https://o.example/", "O", 1)).unwrap();
    create_folder(&mut db, &folder(0, "Tech")).unwrap();
    assert_eq!(update_feed(&mut db, &feed(id, "https://example.com/feed.xml", "Ex2", 2)), Ok((1, 1)));
    let ids: Vec<(u64, u64)> = db.feeds().iter().map(|f| (f.id, f.folder_id)).collect();
    assert_eq!(ids, vec![(other, 1), (id, 2)]);
    assert_eq!(db.feeds()[1].name, "Ex2");
    assert_eq!(update_feed(&mut db, &feed(id, "u", "n", 9)), Err(StoreError::NoSuchFolder));
    assert_eq!(db.feeds()[1].name, "Ex2");
}

#[test]
fn metadata_is_stored() {
    let (mut db, id) = store_with_feed();
    update_feed_ext(
        &mut db,
        id,
        &"https://example.com".to_string(),
        FeedType::RSS2,
        Some("Title".to_string()),
        None,
    );
    let row = &db.feeds()[0];
    assert_eq!(row.site, Some("https://example.com".to_string()));
    assert_eq!(row.kind, Some(FeedType::RSS2));
    assert_eq!(row.title, Some("Title".to_string()));
    assert_eq!(row.description, None);
    assert_eq!(row.last_seen, 0);
}

#[test]
fn address_is_joined_onto_the_site() {
    let site = "https://example.com/";
    assert_eq!(resolve_url(site, &entry("x", Some("https://example.com/a"), None)), "https://example.com/a");
    assert_eq!(resolve_url(site, &entry("x", Some("/posts/1"), None)), "https://example.com/posts/1");
    assert_eq!(resolve_url(site, &entry("posts/2", None, None)), "https://example.com/posts/2");
    assert_eq!(resolve_url("https://example.com", &entry("tag:1", None, None)), "https://example.com/tag:1");
    assert_eq!(
        resolve_url("https://example.com///", &entry("x", Some("//other.example/a"), None)),
        "https://example.com/other.example/a"
    );
}

#[test]
fn entry_is_resolved() {
    let mut e = entry("id-1", Some("/a"), Some("  A title\n"));
    e.summary = Some("summary".to_string());
    assert_eq!(
        resolve("https://example.com", 500, &e),
        Incoming {
            url: "https://example.com/a".to_string(),
            title: "A title".to_string(),
            content: "summary".to_string(),
            published: None,
            updated: None,
            fallback: 500,
        }
    );
    e.content = Some("body".to_string());
    e.updated = Some(300);
    let r = resolve("https://example.com", 500, &e);
    assert_eq!((r.content.as_str(), r.published, r.updated), ("body", Some(300), Some(300)));
    e.published = Some(200);
    let r = resolve("https://example.com", 500, &e);
    assert_eq!((r.published, r.updated, r.fallback), (Some(200), Some(300), 500));
    e.updated = None;
    e.title = None;
    e.content = None;
    e.summary = None;
    let r = resolve("https://example.com", 500, &e);
    assert_eq!((r.published, r.updated, r.title.as_str(), r.content.as_str()), (Some(200), None, "", ""));
}

#[test]
fn new_article_is_dated() {
    let (mut db, id) = store_with_feed();
    let site = "https://example.com".to_string();
    let undated = entry("a", Some("/a"), None);
    let mut published = entry("b", Some("/b"), None);
    published.published = Some(100);
    let mut changed = entry("c", Some("/c"), None);
    changed.updated = Some(200);
    let mut both = entry("d", Some("/d"), None);
    both.published = Some(300);
    both.updated = Some(400);
    upsert_articles(&mut db, id, &site, 500, Vec::new(), vec![undated, published, changed, both]).unwrap();
    let dates: Vec<(i64, i64)> = db.articles().iter().map(|a| (a.created, a.updated)).collect();
    assert_eq!(dates, vec![(500, 500), (100, 100), (200, 200), (300, 400)]);
}

#[test]
fn missing_date_keeps_what_is_stored() {
    let (mut db, id) = store_with_feed();
    let site = "https://example.com".to_string();
    let mut dated = entry("a", Some("/a"), Some("first"));
    dated.published = Some(100);
    dated.updated = Some(200);
    upsert_articles(&mut db, id, &site, 200, Vec::new(), vec![dated]).unwrap();
    upsert_articles(&mut db, id, &site, 900, Vec::new(), vec![entry("a", Some("/a"), Some("second"))]).unwrap();
    let row = &db.articles()[0];
    assert_eq!((row.created, row.updated, row.title.as_str()), (100, 200, "second"));
    let mut earlier = entry("a", Some("/a"), Some("third"));
    earlier.updated = Some(150);
    upsert_articles(&mut db, id, &site, 900, Vec::new(), vec![earlier]).unwrap();
    let row = &db.articles()[0];
    assert_eq!((row.created, row.updated, row.title.as_str()), (150, 200, "third"));
    let mut later = entry("a", Some("/a"), Some("fourth"));
    later.updated = Some(950);
    upsert_articles(&mut db, id, &site, 950, Vec::new(), vec![later]).unwrap();
    let row = &db.articles()[0];
    assert_eq!((row.created, row.updated), (950, 950));
    assert_eq!(db.feeds()[0].last_seen, 950);
}

#[test]
fn same_address_is_stored_once() {
    let (mut db, id) = store_with_feed();
    let site = "https://example.com".to_string();
    let mut first = entry("a", Some("https://example.com/a"), Some("Old title"));
    first.published = Some(100);
    first.updated = Some(200);
    first.content = Some("old".to_string());
    assert_eq!(upsert_articles(&mut db, id, &site, 200, Vec::new(), vec![first]), Ok(200));
    let mut second = entry("other-id", Some("/a"), Some("New title"));
    second.published = Some(50);
    second.content = Some("new".to_string());
    assert_eq!(upsert_articles(&mut db, id, &site, 150, Vec::new(), vec![second]), Ok(150));
    assert_eq!(
        db.articles(),
        &vec![ArticleRow {
            id: 1,
            feed_id: id,
            url: "https://example.com/a".to_string(),
            title: "New title".to_string(),
            content: "new".to_string(),
            created: 100,
            updated: 200,
            authors: Vec::new(),
        }]
    );
    let mut third = entry("a", Some("https://example.com/a"), None);
    third.published = Some(300);
    third.updated = Some(400);
    upsert_articles(&mut db, id, &site, 400, Vec::new(), vec![third]).unwrap();
    assert_eq!(db.articles().len(), 1);
    assert_eq!((db.articles()[0].created, db.articles()[0].updated), (300, 400));
    assert_eq!(db.articles()[0].title, "");
    assert_eq!(db.counters().article, 2);
}

#[test]
fn same_address_in_another_feed_is_another_article() {
    let (mut db, id) = store_with_feed();
    let other = create_feed(&mut db, &feed(0, "https://o.example/", "O", 1)).unwrap();
    let site = "https://example.com".to_string();
    upsert_articles(&mut db, id, &site, 1, Vec::new(), vec![entry("a", Some("/a"), None)]).unwrap();
    upsert_articles(&mut db, other, &site, 1, Vec::new(), vec![entry("a", Some("/a"), None)]).unwrap();
    let keys: Vec<(u64, u64)> = db.articles().iter().map(|a| (a.id, a.feed_id)).collect();
    assert_eq!(keys, vec![(1, id), (2, other)]);
}

#[test]
fn watermark_is_set_by_the_upsert() {
    let (mut db, id) = store_with_feed();
    let site = "https://example.com".to_string();
    assert_eq!(upsert_articles(&mut db, id, &site, 777, Vec::new(), Vec::new()), Ok(777));
    assert_eq!(db.feeds()[0].last_seen, 777);
    assert_eq!(upsert_articles(&mut db, 42, &site, 5, Vec::new(), Vec::new()), Ok(5));
    assert_eq!(db.feeds()[0].last_seen, 777);
}

#[test]
fn articles_need_a_feed_that_exists() {
    let mut db = Database::new();
    let site = "https://example.com".to_string();
    assert_eq!(
        upsert_articles(&mut db, 3, &site, 5, Vec::new(), vec![entry("a", None, None)]),
        Err(StoreError::NoSuchFeed)
    );
    assert!(db.articles().is_empty());
    assert_eq!(
        update_feed_ext_and_upsert_articles(
            &mut db,
            &feed(3, "", "", 1),
            &site,
            FeedType::Atom,
            None,
            None,
            5,
            Vec::new(),
            vec![entry("a", None, None)],
        ),
        Err(StoreError::NoSuchFeed)
    );
}

#[test]
fn entries_are_attributed() {
    let (mut db, id) = store_with_feed();
    let site = "https://example.com".to_string();
    let feed_authors = vec![person("Editor", Some("ed@example.com")), person("Second", None)];
    let mut signed = entry("b", Some("/b"), None);
    signed.authors = vec![person("Ann", None), person("Bob", Some("bob@example.com")), person("Ann", Some("ann@example.com"))];
    let unsigned = entry("a", Some("/a"), None);
    upsert_articles(&mut db, id, &site, 1, feed_authors, vec![unsigned, signed]).unwrap();
    assert_eq!(
        db.authors(),
        &vec![
            AuthorRow { id: 1, feed_id: id, name: "Editor".to_string(), email: Some("ed@example.com".to_string()), url: None },
            AuthorRow { id: 2, feed_id: id, name: "Ann".to_string(), email: Some("ann@example.com".to_string()), url: None },
            AuthorRow { id: 3, feed_id: id, name: "Bob".to_string(), email: Some("bob@example.com".to_string()), url: None },
        ]
    );
    assert_eq!(db.articles()[0].authors, vec![1]);
    assert_eq!(db.articles()[1].authors, vec![2, 3]);
    let read = all_articles(&db, id);
    assert_eq!(read[0].authors, Some(vec![Author { id: 1, name: "Editor".to_string() }]));
    assert_eq!(
        read[1].authors,
        Some(vec![Author { id: 2, name: "Ann".to_string() }, Author { id: 3, name: "Bob".to_string() }])
    );
    upsert_articles(&mut db, id, &site, 1, Vec::new(), vec![entry("c", Some("/c"), None)]).unwrap();
    assert_eq!(db.articles()[2].authors, Vec::<u64>::new());
    assert_eq!(all_articles(&db, id)[2].authors, None);
}

#[test]
fn articles_are_read_after_a_watermark_in_order_of_ingestion() {
    let (mut db, id) = store_with_feed();
    let site = "https://example.com".to_string();
    let mut newest = entry("c", Some("/c"), Some("C"));
    newest.updated = Some(300);
    let mut middle = entry("b", Some("/b"), Some("B"));
    middle.updated = Some(200);
    let mut oldest = entry("a", Some("/a"), Some("A"));
    oldest.updated = Some(100);
    upsert_articles(&mut db, id, &site, 300, Vec::new(), vec![newest, oldest, middle]).unwrap();
    let titles = |list: Vec<Article>| list.into_iter().map(|a| a.title).collect::<Vec<_>>();
    assert_eq!(titles(all_articles(&db, id)), vec!["C", "A", "B"]);
    let mut asking = feed(id, "", "", 1);
    asking.articles = Some(Vec::new());
    asking.last_seen = 100;
    assert_eq!(titles(find_articles_by_feed(&db, &asking)), vec!["C", "B"]);
    asking.last_seen = 300;
    assert_eq!(titles(find_articles_by_feed(&db, &asking)), Vec::<String>::new());
    asking.articles = None;
    assert_eq!(titles(find_articles_by_feed(&db, &asking)), vec!["C", "A", "B"]);
    assert_eq!(titles(all_articles(&db, id + 1)), Vec::<String>::new());
}

#[test]
fn deleting_a_feed_deletes_its_articles_and_authors() {
    let (mut db, id) = store_with_feed();
    let other = create_feed(&mut db, &feed(0, "https://o.example/", "O", 1)).unwrap();
    let site = "https://example.com".to_string();
    let mut signed = entry("a", Some("/a"), None);
    signed.authors = vec![person("Ann", None)];
    upsert_articles(&mut db, id, &site, 1, Vec::new(), vec![signed.clone()]).unwrap();
    upsert_articles(&mut db, other, &site, 1, Vec::new(), vec![signed]).unwrap();
    assert_eq!(delete_feed(&mut db, &feed(id, "", "", 1)), 1);
    assert_eq!(delete_feed(&mut db, &feed(id, "", "", 1)), 0);
    assert_eq!(db.feeds().len(), 1);
    assert_eq!(db.articles().len(), 1);
    assert_eq!(db.articles()[0].feed_id, other);
    assert_eq!(db.authors().len(), 1);
    assert_eq!(db.authors()[0].feed_id, other);
}

#[test]
fn tree_lists_feeds_by_folder() {
    let mut db = Database::new();
    create_folder(&mut db, &folder(0, "Tech")).unwrap();
    create_feed(&mut db, &feed(0, "https://a.example/", "A", 2)).unwrap();
    create_feed(&mut db, &feed(0, "https://b.example/", "B", 2)).unwrap();
    let tree = fetch_folders(&db);
    assert_eq!(tree[0], folder(1, "Default"));
    assert_eq!(tree[1].id, 2);
    assert_eq!(
        tree[1].feeds,
        Some(vec![feed(1, "https://a.example/", "A", 2), feed(2, "https://b.example/", "B", 2)])
    );
}

#[test]
fn stored_tables_are_taken_up() {
    let (mut db, id) = store_with_feed();
    let site = "https://example.com".to_string();
    let mut signed = entry("a", Some("/a"), None);
    signed.authors = vec![person("Ann", None)];
    upsert_articles(&mut db, id, &site, 9, Vec::new(), vec![signed]).unwrap();
    let again = init(
        db.folders().clone(),
        db.feeds().clone(),
        db.articles().clone(),
        db.authors().clone(),
        db.counters(),
    )
    .unwrap();
    assert_eq!(again.folders(), db.folders());
    assert_eq!(again.feeds(), db.feeds());
    assert_eq!(again.articles(), db.articles());
    assert_eq!(again.authors(), db.authors());
    assert_eq!(again.counters(), db.counters());
}

fn broken(
    change: fn(&mut Vec<FolderRow>, &mut Vec<FeedRow>, &mut Vec<ArticleRow>, &mut Vec<AuthorRow>, &mut Counters),
) -> bool {
    let (mut db, id) = store_with_feed();
    create_folder(&mut db, &folder(0, "Tech")).unwrap();
    create_feed(&mut db, &feed(0, "https://b.example/", "B", 2)).unwrap();
    let site = "https://example.com".to_string();
    let mut a = entry("a", Some("/a"), None);
    a.authors = vec![person("Ann", None), person("Bob", None)];
    upsert_articles(&mut db, id, &site, 9, Vec::new(), vec![a, entry("b", Some("/b"), None)]).unwrap();
    let mut folders = db.folders().clone();
    let mut feeds = db.feeds().clone();
    let mut articles = db.articles().clone();
    let mut authors = db.authors().clone();
    let mut next = db.counters();
    change(&mut folders, &mut feeds, &mut articles, &mut authors, &mut next);
    matches!(init(folders, feeds, articles, authors, next), Err(StoreError::Constraint))
}

#[test]
fn stored_tables_that_break_the_schema_are_refused() {
    assert!(!broken(|_, _, _, _, _| {}));
    assert!(broken(|folders, _, _, _, _| folders.clear()));
    assert!(broken(|folders, _, _, _, _| folders[0].id = 2));
    assert!(broken(|folders, _, _, _, _| folders.swap(0, 1)));
    assert!(broken(|folders, _, _, _, _| folders[1].id = 1));
    assert!(broken(|_, _, _, _, next| next.folder = 2));
    assert!(broken(|_, _, _, _, next| next.feed = 2));
    assert!(broken(|_, _, _, _, next| next.article = 0));
    assert!(broken(|_, _, _, _, next| next.author = 2));
    assert!(broken(|_, feeds, _, _, _| feeds[1].id = 1));
    assert!(broken(|_, feeds, _, _, _| feeds[0].id = 0));
    assert!(broken(|_, feeds, _, _, _| feeds[0].folder_id = 7));
    assert!(broken(|_, _, articles, _, _| articles[1].id = 1));
    assert!(broken(|_, _, articles, _, _| articles[0].feed_id = 9));
    assert!(broken(|_, _, articles, _, _| articles[1].url = "https://example.com/a".to_string()));
    assert!(broken(|_, _, _, authors, _| authors[1].id = 1));
    assert!(broken(|_, _, _, authors, _| authors[0].feed_id = 9));
    assert!(broken(|_, _, _, authors, _| authors[1].name = "Ann".to_string()));
    assert!(broken(|_, _, articles, _, _| articles[1].authors.push(9)));
    assert!(broken(|_, _, articles, _, _| articles[0].authors.push(1)));
    assert!(broken(|_, feeds, articles, _, _| articles[0].feed_id = feeds[1].id));
    assert!(!broken(|_, _, articles, _, _| articles[1].authors.push(2)));
    assert!(!broken(|_, feeds, _, _, _| feeds.swap(0, 1)));
}

#[test]
fn ids_run_out() {
    let row = FolderRow { id: 1, name: "Default".to_string() };
    let full = Counters { folder: u64::MAX, feed: u64::MAX, article: u64::MAX, author: 1 };
    let mut db = init(vec![row.clone()], Vec::new(), Vec::new(), Vec::new(), full).unwrap();
    assert_eq!(create_folder(&mut db, &folder(0, "x")), Err(StoreError::IdSpace));
    assert_eq!(create_feed(&mut db, &feed(0, "u", "n", 1)), Err(StoreError::IdSpace));
    assert_eq!(create_feed(&mut db, &feed(0, "u", "n", 3)), Err(StoreError::NoSuchFolder));
    let site = "https://example.com".to_string();
    assert_eq!(upsert_articles(&mut db, 1, &site, 5, Vec::new(), Vec::new()), Ok(5));
    let nearly = Counters { folder: 2, feed: u64::MAX - 1, article: u64::MAX, author: u64::MAX };
    let mut db = init(vec![row], Vec::new(), Vec::new(), Vec::new(), nearly).unwrap();
    let id = create_feed(&mut db, &feed(0, "u", "n", 1)).unwrap();
    assert_eq!(id, u64::MAX - 1);
    assert_eq!(
        upsert_articles(&mut db, id, &site, 5, Vec::new(), vec![entry("a", None, None)]),
        Err(StoreError::IdSpace)
    );
    assert_eq!(db.feeds()[0].last_seen, 0);
    assert!(db.articles().is_empty());
}
