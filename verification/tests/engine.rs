use pindash_news::db::{Database, StoreError};
use pindash_news::document::{Document, Entry, FeedType, Link, Person};
use pindash_news::mirror::{Mirror, Patch};
use pindash_news::models::{Article, Feed, Folder};
use pindash_news::query::fetch_folders;
use pindash_news::worker::{reversed, Effect, Engine};
use pindash_news::{Action, Message};

const T1: i64 = 1_700_000_000_000;
const T2: i64 = 1_700_000_100_000;

fn folder(id: u64, name: &str) -> Folder {
    Folder { id, name: name.to_string(), feeds: None }
}

fn feed(id: u64, url: &str, name: &str, folder_id: u64) -> Feed {
    let mut feed = Feed::new(url.to_string(), name.to_string(), folder_id);
    feed.id = id;
    feed
}

fn entry(path: &str, title: &str, updated: Option<i64>) -> Entry {
    Entry {
        id: path.to_string(),
        title: Some(title.to_string()),
        links: vec![Link { href: path.to_string(), rel: None }],
        content: Some(format!("<p>{title}</p>")),
        summary: None,
        published: None,
        updated,
        authors: Vec::new(),
    }
}

fn document(entries: Vec<Entry>) -> Document {
    Document {
        id: "tag:example.com,2024:feed".to_string(),
        kind: FeedType::Atom,
        title: Some("Example".to_string()),
        description: None,
        published: None,
        updated: None,
        authors: vec![Person { name: "Editor".to_string(), email: None, uri: None }],
        links: vec![
            Link { href: "https://example.com/feed.xml".to_string(), rel: Some("self".to_string()) },
            Link { href: "https://example.com/".to_string(), rel: None },
        ],
        entries,
    }
}

fn find(engine: &Engine, id: u64) -> Feed {
    engine.mirror().find(id).unwrap().clone()
}

fn skeleton(folders: &Vec<Folder>) -> Vec<Folder> {
    folders
        .iter()
        .map(|f| Folder {
            id: f.id,
            name: f.name.clone(),
            feeds: match &f.feeds {
                Some(list) if !list.is_empty() => Some(
                    list.iter()
                        .map(|x| Feed { status: false, articles: None, ..x.clone() })
                        .collect(),
                ),
                _ => None,
            },
        })
        .collect()
}

fn assert_mirrors(engine: &Engine) {
    assert_eq!(skeleton(engine.mirror().folders()), fetch_folders(engine.database()));
}

fn engine_with_feed() -> (Engine, u64) {
    let mut engine = Engine::new(Database::new());
    let id = engine
        .create_feed(&Feed::new("https://example.com/feed.xml".to_string(), "Ex".to_string(), 1))
        .unwrap();
    (engine, id)
}

#[test]
fn engine_starts_with_the_tree_of_the_store() {
    let engine = Engine::new(Database::new());
    assert_eq!(engine.mirror().folders(), &vec![folder(1, "Default")]);
    assert_mirrors(&engine);
}

#[test]
fn created_feed_is_in_the_tree_at_once() {
    let mut engine = Engine::new(Database::new());
    let message = Message::Feed(
        Action::Create,
        Feed::new("https://example.com/feed.xml".to_string(), "Ex".to_string(), 1),
    );
    assert_eq!(engine.handle(&message), Effect::Nothing);
    let tree = engine.mirror().folders();
    assert_eq!(tree.len(), 1);
    assert_eq!(tree[0].feeds, Some(vec![feed(1, "https://example.com/feed.xml", "Ex", 1)]));
    assert_eq!(find(&engine, 1).last_seen, 0);
    assert_mirrors(&engine);
    assert_eq!(
        engine.create_feed(&Feed::new("u".to_string(), "n".to_string(), 9)),
        Err(StoreError::NoSuchFolder)
    );
    assert_mirrors(&engine);
}

#[test]
fn fetch_of_two_entries_then_the_same_again() {
    let (mut engine, id) = engine_with_feed();
    let effect = engine.handle(&Message::Feed(Action::Fetch, find(&engine, id).clone_with_last_article()));
    assert_eq!(effect, Effect::Fetch { feed_id: id, url: "https://example.com/feed.xml".to_string() });
    assert!(find(&engine, id).status);
    assert_eq!(find(&engine, id).articles, Some(Vec::new()));
    let doc = document(vec![entry("/b", "B", Some(T2)), entry("/a", "A", Some(T1))]);
    engine.finish_fetch(id, Some(doc.clone()));
    let after = find(&engine, id);
    assert!(!after.status);
    assert_eq!(after.last_seen, T2);
    assert_eq!(after.site, Some("https://example.com/".to_string()));
    let titles: Vec<(u64, &str)> =
        after.articles.as_ref().unwrap().iter().map(|a| (a.id, a.title.as_str())).collect();
    assert_eq!(titles, vec![(1, "A"), (2, "B")]);
    assert_eq!(after.articles.as_ref().unwrap()[1].url, "https://example.com/b");
    assert_eq!(engine.database().articles().len(), 2);
    assert_eq!(engine.database().feeds()[0].last_seen, T2);
    assert_eq!(engine.database().feeds()[0].kind, Some(FeedType::Atom));
    assert_eq!(engine.database().feeds()[0].title, Some("Example".to_string()));
    assert_mirrors(&engine);

    assert!(engine.begin_fetch(id).is_some());
    engine.finish_fetch(id, Some(doc));
    let again = find(&engine, id);
    assert!(!again.status);
    assert_eq!(again.last_seen, T2);
    assert_eq!(engine.database().articles().len(), 2);
    assert_eq!(engine.database().counters().article, 3);
    assert_eq!(again.articles, after.articles);
    assert_mirrors(&engine);
}

#[test]
fn second_fetch_command_is_a_no_op_while_the_first_is_in_flight() {
    let (mut engine, id) = engine_with_feed();
    let request = Message::Feed(Action::Fetch, find(&engine, id));
    assert!(matches!(engine.handle(&request), Effect::Fetch { .. }));
    let tree = engine.mirror().folders().clone();
    assert_eq!(engine.handle(&request), Effect::Nothing);
    assert_eq!(engine.begin_fetch(id), None);
    assert_eq!(engine.mirror().folders(), &tree);
    engine.finish_fetch(id, None);
    assert!(!find(&engine, id).status);
    assert!(matches!(engine.handle(&request), Effect::Fetch { .. }));
    assert_eq!(engine.begin_fetch(id + 1), None);
}

#[test]
fn failed_fetch_resets_the_feed() {
    let (mut engine, id) = engine_with_feed();
    engine.begin_fetch(id).unwrap();
    engine.finish_fetch(id, None);
    assert!(!find(&engine, id).status);
    assert_eq!(find(&engine, id).last_seen, 0);
    assert_eq!(find(&engine, id).articles, Some(Vec::new()));
    assert!(engine.database().articles().is_empty());
    assert!(engine.begin_fetch(id).is_some());
    assert_mirrors(&engine);
}

#[test]
fn copy_of_the_engine_changes_alone() {
    let (mut engine, id) = engine_with_feed();
    engine.begin_fetch(id).unwrap();
    let mut next = engine.clone();
    assert_eq!(next.mirror().folders(), engine.mirror().folders());
    assert_eq!(next.database().feeds(), engine.database().feeds());
    assert_eq!(next.database().counters(), engine.database().counters());
    next.finish_fetch(id, Some(document(vec![entry("/a", "A", Some(T1))])));
    next.create_folder(&folder(0, "Tech")).unwrap();
    assert_eq!(find(&next, id).last_seen, T1);
    assert_eq!(next.database().articles().len(), 1);
    assert!(find(&engine, id).status);
    assert_eq!(find(&engine, id).last_seen, 0);
    assert!(engine.database().articles().is_empty());
    assert_eq!(engine.mirror().folders().len(), 1);
    engine = next;
    assert_eq!(engine.mirror().folders().len(), 2);
    assert_mirrors(&engine);
}

#[test]
fn stale_document_changes_nothing_but_the_state() {
    let (mut engine, id) = engine_with_feed();
    engine.begin_fetch(id).unwrap();
    engine.finish_fetch(id, Some(document(vec![entry("/a", "A", Some(T2))])));
    engine.begin_fetch(id).unwrap();
    engine.finish_fetch(id, Some(document(vec![entry("/old", "Old", Some(T1))])));
    let after = find(&engine, id);
    assert!(!after.status);
    assert_eq!(after.last_seen, T2);
    assert_eq!(engine.database().articles().len(), 1);
    engine.begin_fetch(id).unwrap();
    let mut empty = document(Vec::new());
    empty.updated = Some(T2);
    engine.finish_fetch(id, Some(empty));
    assert_eq!(find(&engine, id).last_seen, T2);
    assert_eq!(find(&engine, id).site, Some("https://example.com/".to_string()));
    assert_eq!(engine.database().feeds()[0].description, None);
}

#[test]
fn watermark_never_goes_back() {
    let (mut engine, id) = engine_with_feed();
    let mut seen = 0;
    for stamp in [T1, T2, T1, T2 - 1, T2, T2 + 5, 0, -7] {
        engine.begin_fetch(id).unwrap();
        engine.finish_fetch(id, Some(document(vec![entry("/a", "A", Some(stamp))])));
        let now = find(&engine, id).last_seen;
        assert!(now >= seen);
        assert_eq!(now, engine.database().feeds()[0].last_seen);
        seen = now;
    }
    assert_eq!(seen, T2 + 5);
}

#[test]
fn later_articles_are_put_behind_those_loaded() {
    let (mut engine, id) = engine_with_feed();
    engine.begin_fetch(id).unwrap();
    engine.finish_fetch(id, Some(document(vec![entry("/a", "A", Some(T1))])));
    engine.begin_fetch(id).unwrap();
    engine.finish_fetch(
        id,
        Some(document(vec![entry("/b", "B", Some(T2)), entry("/a", "A again", Some(T1))])),
    );
    let titles: Vec<String> =
        find(&engine, id).articles.unwrap().into_iter().map(|a| a.title).collect();
    assert_eq!(titles, vec!["A", "B"]);
    assert_eq!(engine.database().articles()[0].title, "A again");
}

#[test]
fn first_fetch_loads_what_the_store_holds() {
    let (mut engine, id) = engine_with_feed();
    engine.begin_fetch(id).unwrap();
    engine.finish_fetch(id, Some(document(vec![entry("/a", "A", Some(T1))])));
    let db = pindash_news::db::init(
        engine.database().folders().clone(),
        engine.database().feeds().clone(),
        engine.database().articles().clone(),
        engine.database().authors().clone(),
        engine.database().counters(),
    )
    .unwrap();
    let mut restarted = Engine::new(db);
    let shown = find(&restarted, id);
    assert_eq!(shown.articles, None);
    assert_eq!(shown.last_seen, T1);
    assert_eq!(shown.site, Some("https://example.com/".to_string()));
    restarted.begin_fetch(id).unwrap();
    let loaded = find(&restarted, id);
    assert!(loaded.status);
    assert_eq!(loaded.articles.as_ref().unwrap().len(), 1);
    assert_eq!(loaded.articles.as_ref().unwrap()[0].title, "A");
    assert_eq!(
        loaded.articles.as_ref().unwrap()[0].authors.as_ref().unwrap()[0].name,
        "Editor"
    );
    assert_mirrors(&restarted);
}

#[test]
fn completion_without_a_fetch_in_flight_changes_nothing() {
    let (mut engine, id) = engine_with_feed();
    engine.finish_fetch(id, Some(document(vec![entry("/a", "A", Some(T1))])));
    assert_eq!(find(&engine, id).last_seen, 0);
    assert!(engine.database().articles().is_empty());
    engine.begin_fetch(id).unwrap();
    engine.delete_feed(&feed(id, "", "", 1));
    engine.finish_fetch(id, Some(document(vec![entry("/a", "A", Some(T1))])));
    assert!(engine.database().articles().is_empty());
    assert!(engine.mirror().find(id).is_none());
    assert_mirrors(&engine);
}

#[test]
fn folder_commands_patch_the_tree() {
    let mut engine = Engine::new(Database::new());
    assert_eq!(engine.handle(&Message::Folder(Action::Create, folder(0, "Tech"))), Effect::Nothing);
    assert_eq!(engine.handle(&Message::Folder(Action::Create, folder(0, "News"))), Effect::Nothing);
    assert_eq!(engine.handle(&Message::Folder(Action::Update, folder(2, "Technology"))), Effect::Nothing);
    assert_eq!(engine.handle(&Message::Folder(Action::Update, folder(9, "Ghost"))), Effect::Nothing);
    assert_eq!(
        engine.mirror().folders(),
        &vec![folder(1, "Default"), folder(2, "Technology"), folder(3, "News")]
    );
    assert_eq!(engine.rename_folder(&folder(3, "Press")), 1);
    assert_eq!(engine.rename_folder(&folder(4, "Press")), 0);
    assert_mirrors(&engine);
    assert_eq!(engine.handle(&Message::Normal), Effect::Nothing);
    assert_eq!(engine.handle(&Message::RefreshFolders), Effect::Nothing);
    assert_eq!(engine.handle(&Message::Folder(Action::Read, folder(2, "x"))), Effect::Nothing);
    assert_eq!(engine.handle(&Message::Folder(Action::Fetch, folder(2, "x"))), Effect::Nothing);
    assert_eq!(engine.handle(&Message::Feed(Action::Read, feed(1, "", "", 1))), Effect::Nothing);
    assert_eq!(engine.mirror().folders().len(), 3);
    assert_eq!(engine.mirror().folders()[1].name, "Technology");
}

#[test]
fn deleting_a_folder_transfers_its_feeds() {
    let mut engine = Engine::new(Database::new());
    engine.create_folder(&folder(0, "Tech")).unwrap();
    let stays = engine.create_feed(&Feed::new("https://s.example/".to_string(), "S".to_string(), 1)).unwrap();
    let a = engine.create_feed(&Feed::new("https://a.example/".to_string(), "A".to_string(), 2)).unwrap();
    let b = engine.create_feed(&Feed::new("https://b.example/".to_string(), "B".to_string(), 2)).unwrap();
    engine.begin_fetch(a).unwrap();
    assert_eq!(engine.delete_folder(&folder(1, "Default")), Err(StoreError::DefaultFolder));
    assert_eq!(engine.mirror().folders().len(), 2);
    assert_eq!(engine.handle(&Message::Folder(Action::Delete, folder(2, "Tech"))), Effect::Nothing);
    let tree = engine.mirror().folders();
    assert_eq!(tree.len(), 1);
    assert_eq!(tree[0].id, 1);
    let owned: Vec<(u64, u64, bool)> =
        tree[0].feeds.as_ref().unwrap().iter().map(|f| (f.id, f.folder_id, f.status)).collect();
    assert_eq!(owned, vec![(stays, 1, false), (a, 1, true), (b, 1, false)]);
    assert_eq!(engine.database().folders().len(), 1);
    assert!(engine.database().feeds().iter().all(|f| f.folder_id == 1));
    assert_mirrors(&engine);
    engine.finish_fetch(a, None);
    assert!(!find(&engine, a).status);
}

#[test]
fn update_in_place_keeps_what_is_loaded() {
    let (mut engine, id) = engine_with_feed();
    engine.begin_fetch(id).unwrap();
    engine.finish_fetch(id, Some(document(vec![entry("/a", "A", Some(T1))])));
    engine.begin_fetch(id).unwrap();
    let stale = feed(id, "https://example.com/atom.xml", "Renamed", 1);
    assert_eq!(engine.handle(&Message::Feed(Action::Update, stale)), Effect::Nothing);
    let shown = find(&engine, id);
    assert_eq!(shown.name, "Renamed");
    assert_eq!(shown.url, "https://example.com/atom.xml");
    assert!(shown.status);
    assert_eq!(shown.last_seen, T1);
    assert_eq!(shown.articles.as_ref().unwrap().len(), 1);
    assert_mirrors(&engine);
    assert_eq!(engine.update_feed(&feed(77, "u", "n", 1)), Ok((0, 0)));
}

#[test]
fn update_that_moves_patches_both_folders() {
    let (mut engine, id) = engine_with_feed();
    let other = engine.create_feed(&Feed::new("https://o.example/".to_string(), "O".to_string(), 1)).unwrap();
    engine.create_folder(&folder(0, "Tech")).unwrap();
    engine.begin_fetch(id).unwrap();
    assert_eq!(engine.update_feed(&feed(id, "https://example.com/feed.xml", "Moved", 2)), Ok((1, 1)));
    let tree = engine.mirror().folders();
    assert_eq!(tree[0].feeds.as_ref().unwrap().iter().map(|f| f.id).collect::<Vec<_>>(), vec![other]);
    let moved = &tree[1].feeds.as_ref().unwrap()[0];
    assert_eq!((moved.id, moved.folder_id, moved.name.as_str(), moved.status), (id, 2, "Moved", true));
    assert_mirrors(&engine);
    assert_eq!(engine.update_feed(&feed(id, "u", "n", 8)), Err(StoreError::NoSuchFolder));
    assert_eq!(find(&engine, id).name, "Moved");
    assert_mirrors(&engine);
}

#[test]
fn deleted_feed_leaves_the_tree() {
    let (mut engine, id) = engine_with_feed();
    assert_eq!(engine.handle(&Message::Feed(Action::Delete, feed(id, "", "", 1))), Effect::Nothing);
    assert!(engine.mirror().find(id).is_none());
    assert_eq!(engine.mirror().folders()[0].feeds, Some(Vec::new()));
    assert_eq!(engine.delete_feed(&feed(id, "", "", 1)), 0);
    assert_mirrors(&engine);
}

#[test]
fn entries_are_reversed() {
    let list = vec![entry("/1", "1", None), entry("/2", "2", None), entry("/3", "3", None)];
    let back: Vec<String> = reversed(list).into_iter().map(|e| e.id).collect();
    assert_eq!(back, vec!["/3", "/2", "/1"]);
    assert!(reversed(Vec::new()).is_empty());
}

#[test]
fn mirror_is_patched_in_place() {
    let mut mirror = Mirror::new(vec![folder(1, "Default")]);
    mirror.insert_folder(2, "Tech".to_string());
    mirror.insert_feed(feed(5, "u", "n", 2));
    mirror.insert_feed(feed(6, "v", "m", 2));
    mirror.insert_feed(feed(7, "w", "o", 3));
    assert!(mirror.find(7).is_none());
    mirror.patch(5, &Patch::Fetching(true));
    assert!(mirror.find(5).unwrap().status);
    assert!(!mirror.find(6).unwrap().status);
    let article = Article { id: 1, title: "A".to_string(), ..Article::default() };
    mirror.patch(5, &Patch::Hydrate(vec![article.clone()]));
    mirror.patch(5, &Patch::Hydrate(Vec::new()));
    assert_eq!(mirror.find(5).unwrap().articles, Some(vec![article.clone()]));
    let next = Article { id: 2, title: "B".to_string(), ..Article::default() };
    mirror.patch(5, &Patch::Absorb { site: "https://s".to_string(), last_seen: 9, articles: vec![next.clone()] });
    mirror.patch(6, &Patch::Absorb { site: "https://t".to_string(), last_seen: 3, articles: vec![next.clone()] });
    let five = mirror.find(5).unwrap();
    assert_eq!(five.articles, Some(vec![article, next.clone()]));
    assert_eq!((five.site.as_deref(), five.last_seen, five.status), (Some("https://s"), 9, false));
    assert_eq!(mirror.find(6).unwrap().articles, Some(vec![next]));
    mirror.patch(6, &Patch::Retitle { name: "M".to_string(), url: "V".to_string() });
    assert_eq!((mirror.find(6).unwrap().name.as_str(), mirror.find(6).unwrap().url.as_str()), ("M", "V"));
    mirror.move_feed(5, &"N".to_string(), &"U".to_string(), 1);
    mirror.move_feed(50, &"N".to_string(), &"U".to_string(), 1);
    assert_eq!(mirror.folders()[0].feeds.as_ref().unwrap()[0].id, 5);
    assert_eq!(mirror.folders()[0].feeds.as_ref().unwrap()[0].folder_id, 1);
    assert_eq!(mirror.folders()[1].feeds.as_ref().unwrap().len(), 1);
    mirror.rename_folder(2, &"Technology".to_string());
    mirror.remove_folder(2, 1);
    assert_eq!(mirror.folders().len(), 1);
    let ids: Vec<u64> = mirror.folders()[0].feeds.as_ref().unwrap().iter().map(|f| f.id).collect();
    assert_eq!(ids, vec![5, 6]);
    mirror.remove_feed(5);
    mirror.remove_folder(3, 1);
    assert_eq!(mirror.folders()[0].feeds.as_ref().unwrap().len(), 1);
}
