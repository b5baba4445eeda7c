//! The schema of the store as mathematics: what a row of each table holds,
//! which constraints the tables obey, and what each operation makes of them.

use vstd::prelude::*;

use crate::document::FeedType;
use crate::tables::{lemma_filter_has, lemma_filter_origin, origin};

verus! {

/// The id of the folder that cannot be deleted and that inherits the feeds of
/// deleted folders.
pub const DEFAULT_FOLDER: u64 = 1;

/// A row of the table of folders.
#[derive(Debug, PartialEq, Eq)]
pub struct FolderRow {
    pub id: u64,
    pub name: String,
}

/// Mathematical value of a [`FolderRow`].
pub struct FolderRowView {
    pub id: u64,
    pub name: Seq<char>,
}

impl DeepView for FolderRow {
    type V = FolderRowView;

    open spec fn deep_view(&self) -> FolderRowView {
        FolderRowView { id: self.id, name: self.name@ }
    }
}

impl View for FolderRow {
    type V = FolderRowView;

    open spec fn view(&self) -> FolderRowView {
        self.deep_view()
    }
}

impl Clone for FolderRow {
    fn clone(&self) -> (r: Self)
        ensures
            r@ == self@,
    {
        FolderRow { id: self.id, name: self.name.clone() }
    }
}

/// A row of the table of feeds. The folder it belongs to is a column of the
/// row, so a feed has exactly one folder.
#[derive(Debug, PartialEq, Eq)]
pub struct FeedRow {
    pub id: u64,
    pub url: String,
    pub name: String,
    pub site: Option<String>,
    pub kind: Option<FeedType>,
    pub title: Option<String>,
    pub description: Option<String>,
    pub last_seen: i64,
    pub folder_id: u64,
}

/// Mathematical value of a [`FeedRow`].
pub struct FeedRowView {
    pub id: u64,
    pub url: Seq<char>,
    pub name: Seq<char>,
    pub site: Option<Seq<char>>,
    pub kind: Option<FeedType>,
    pub title: Option<Seq<char>>,
    pub description: Option<Seq<char>>,
    pub last_seen: i64,
    pub folder_id: u64,
}

impl DeepView for FeedRow {
    type V = FeedRowView;

    open spec fn deep_view(&self) -> FeedRowView {
        FeedRowView {
            id: self.id,
            url: self.url@,
            name: self.name@,
            site: self.site.deep_view(),
            kind: self.kind,
            title: self.title.deep_view(),
            description: self.description.deep_view(),
            last_seen: self.last_seen,
            folder_id: self.folder_id,
        }
    }
}

impl View for FeedRow {
    type V = FeedRowView;

    open spec fn view(&self) -> FeedRowView {
        self.deep_view()
    }
}

impl Clone for FeedRow {
    fn clone(&self) -> (r: Self)
        ensures
            r@ == self@,
    {
        FeedRow {
            id: self.id,
            url: self.url.clone(),
            name: self.name.clone(),
            site: self.site.clone(),
            kind: self.kind,
            title: self.title.clone(),
            description: self.description.clone(),
            last_seen: self.last_seen,
            folder_id: self.folder_id,
        }
    }
}

/// A row of the table of articles, with the ids of the authors linked to it.
#[derive(Debug, PartialEq, Eq)]
pub struct ArticleRow {
    pub id: u64,
    pub feed_id: u64,
    pub url: String,
    pub title: String,
    pub content: String,
    pub created: i64,
    pub updated: i64,
    pub authors: Vec<u64>,
}

/// Mathematical value of an [`ArticleRow`].
pub struct ArticleRowView {
    pub id: u64,
    pub feed_id: u64,
    pub url: Seq<char>,
    pub title: Seq<char>,
    pub content: Seq<char>,
    pub created: i64,
    pub updated: i64,
    pub authors: Seq<u64>,
}

impl DeepView for ArticleRow {
    type V = ArticleRowView;

    open spec fn deep_view(&self) -> ArticleRowView {
        ArticleRowView {
            id: self.id,
            feed_id: self.feed_id,
            url: self.url@,
            title: self.title@,
            content: self.content@,
            created: self.created,
            updated: self.updated,
            authors: self.authors@,
        }
    }
}

impl View for ArticleRow {
    type V = ArticleRowView;

    open spec fn view(&self) -> ArticleRowView {
        self.deep_view()
    }
}

impl Clone for ArticleRow {
    fn clone(&self) -> (r: Self)
        ensures
            r@ == self@,
    {
        let authors = self.authors.clone();
        assert(authors@ =~= self.authors@);
        ArticleRow {
            id: self.id,
            feed_id: self.feed_id,
            url: self.url.clone(),
            title: self.title.clone(),
            content: self.content.clone(),
            created: self.created,
            updated: self.updated,
            authors,
        }
    }
}

/// A row of the table of authors.
#[derive(Debug, PartialEq, Eq)]
pub struct AuthorRow {
    pub id: u64,
    pub feed_id: u64,
    pub name: String,
    pub email: Option<String>,
    pub url: Option<String>,
}

/// Mathematical value of an [`AuthorRow`].
pub struct AuthorRowView {
    pub id: u64,
    pub feed_id: u64,
    pub name: Seq<char>,
    pub email: Option<Seq<char>>,
    pub url: Option<Seq<char>>,
}

impl DeepView for AuthorRow {
    type V = AuthorRowView;

    open spec fn deep_view(&self) -> AuthorRowView {
        AuthorRowView {
            id: self.id,
            feed_id: self.feed_id,
            name: self.name@,
            email: self.email.deep_view(),
            url: self.url.deep_view(),
        }
    }
}

impl View for AuthorRow {
    type V = AuthorRowView;

    open spec fn view(&self) -> AuthorRowView {
        self.deep_view()
    }
}

impl Clone for AuthorRow {
    fn clone(&self) -> (r: Self)
        ensures
            r@ == self@,
    {
        AuthorRow {
            id: self.id,
            feed_id: self.feed_id,
            name: self.name.clone(),
            email: self.email.clone(),
            url: self.url.clone(),
        }
    }
}

/// Mathematical value of the store: the four tables in insertion order and
/// the next id of each.
pub struct DatabaseView {
    pub folders: Seq<FolderRowView>,
    pub feeds: Seq<FeedRowView>,
    pub articles: Seq<ArticleRowView>,
    pub authors: Seq<AuthorRowView>,
    pub next_folder: u64,
    pub next_feed: u64,
    pub next_article: u64,
    pub next_author: u64,
}

impl DatabaseView {
    /// Whether a folder has the id `id`.
    pub open spec fn has_folder(self, id: u64) -> bool {
        exists|i: int| 0 <= i < self.folders.len() && #[trigger] self.folders[i].id == id
    }

    /// Whether a feed has the id `id`.
    pub open spec fn has_feed(self, id: u64) -> bool {
        exists|i: int| 0 <= i < self.feeds.len() && #[trigger] self.feeds[i].id == id
    }

    /// Whether the feed `feed_id` has an author with the id `id`.
    pub open spec fn has_author_of(self, feed_id: u64, id: u64) -> bool {
        exists|j: int|
            0 <= j < self.authors.len() && (#[trigger] self.authors[j]).id == id
                && self.authors[j].feed_id == feed_id
    }

    /// Every link of an article leads to an author of the feed of the
    /// article, and no article is linked to an author twice.
    pub open spec fn links_hold(self) -> bool {
        &&& forall|i: int, k: int|
            0 <= i < self.articles.len() && 0 <= k < self.articles[i].authors.len()
                ==> self.has_author_of(
                self.articles[i].feed_id,
                #[trigger] self.articles[i].authors[k],
            )
        &&& forall|i: int|
            0 <= i < self.articles.len() ==> (#[trigger] self.articles[i]).authors.no_duplicates()
    }

    /// The row of the feed `id`. Meaningful where `has_feed(id)`.
    pub open spec fn feed(self, id: u64) -> FeedRowView {
        let i = choose|i: int| 0 <= i < self.feeds.len() && #[trigger] self.feeds[i].id == id;
        self.feeds[i]
    }

    /// The constraints of the schema. The default folder exists and stands
    /// first. Ids are at least 1 and below the next id of their table.
    /// Folders, articles and authors stand in the order of their ids, and no
    /// two feeds have one id. Every feed is in a folder that exists, and
    /// every article and every author belongs to a feed that exists. No feed
    /// holds two articles under one address, nor two authors under one name.
    /// The links hold.
    pub open spec fn inv(self) -> bool {
        &&& self.folders.len() > 0
        &&& self.folders[0].id == DEFAULT_FOLDER
        &&& self.next_feed >= 1
        &&& self.next_article >= 1
        &&& self.next_author >= 1
        &&& forall|i: int|
            0 <= i < self.folders.len() ==> 1 <= #[trigger] self.folders[i].id < self.next_folder
        &&& forall|i: int, j: int|
            0 <= i < j < self.folders.len() ==> #[trigger] self.folders[i].id
                < #[trigger] self.folders[j].id
        &&& forall|i: int|
            0 <= i < self.feeds.len() ==> 1 <= #[trigger] self.feeds[i].id < self.next_feed
        &&& forall|i: int, j: int|
            0 <= i < j < self.feeds.len() ==> #[trigger] self.feeds[i].id
                != #[trigger] self.feeds[j].id
        &&& forall|i: int|
            0 <= i < self.feeds.len() ==> self.has_folder(#[trigger] self.feeds[i].folder_id)
        &&& forall|i: int|
            0 <= i < self.articles.len() ==> 1 <= #[trigger] self.articles[i].id
                < self.next_article
        &&& forall|i: int, j: int|
            0 <= i < j < self.articles.len() ==> #[trigger] self.articles[i].id
                < #[trigger] self.articles[j].id
        &&& forall|i: int|
            0 <= i < self.articles.len() ==> self.has_feed(#[trigger] self.articles[i].feed_id)
        &&& forall|i: int, j: int|
            0 <= i < j < self.articles.len() ==> !(#[trigger] self.articles[i].feed_id
                == #[trigger] self.articles[j].feed_id && self.articles[i].url
                == self.articles[j].url)
        &&& forall|i: int|
            0 <= i < self.authors.len() ==> 1 <= #[trigger] self.authors[i].id < self.next_author
        &&& forall|i: int, j: int|
            0 <= i < j < self.authors.len() ==> #[trigger] self.authors[i].id
                < #[trigger] self.authors[j].id
        &&& forall|i: int|
            0 <= i < self.authors.len() ==> self.has_feed(#[trigger] self.authors[i].feed_id)
        &&& forall|i: int, j: int|
            0 <= i < j < self.authors.len() ==> !(#[trigger] self.authors[i].feed_id
                == #[trigger] self.authors[j].feed_id && self.authors[i].name
                == self.authors[j].name)
        &&& self.links_hold()
    }

    /// A store that holds the default folder and nothing else.
    pub open spec fn empty() -> DatabaseView {
        DatabaseView {
            folders: seq![FolderRowView { id: DEFAULT_FOLDER, name: "Default"@ }],
            feeds: Seq::empty(),
            articles: Seq::empty(),
            authors: Seq::empty(),
            next_folder: 2,
            next_feed: 1,
            next_article: 1,
            next_author: 1,
        }
    }

    /// After a folder `name` was added.
    pub open spec fn create_folder(self, name: Seq<char>) -> DatabaseView
        recommends
            self.next_folder < u64::MAX,
    {
        DatabaseView {
            folders: self.folders.push(FolderRowView { id: self.next_folder, name }),
            next_folder: (self.next_folder + 1) as u64,
            ..self
        }
    }

    /// After every folder with this id took the name `name`.
    pub open spec fn rename_folder(self, id: u64, name: Seq<char>) -> DatabaseView {
        DatabaseView {
            folders: self.folders.map_values(
                |f: FolderRowView|
                    if f.id == id {
                        FolderRowView { name, ..f }
                    } else {
                        f
                    },
            ),
            ..self
        }
    }

    /// After the folder `id` was removed and its feeds joined the default
    /// folder, behind the feeds that were there, in the order they had.
    pub open spec fn delete_folder(self, id: u64) -> DatabaseView {
        DatabaseView {
            folders: self.folders.filter(|f: FolderRowView| f.id != id),
            feeds: self.feeds.filter(|f: FeedRowView| f.folder_id != id) + self.feeds.filter(
                |f: FeedRowView| f.folder_id == id,
            ).map_values(|f: FeedRowView| FeedRowView { folder_id: DEFAULT_FOLDER, ..f }),
            ..self
        }
    }

    /// After a feed with this address and name joined the folder `folder_id`.
    pub open spec fn create_feed(
        self,
        url: Seq<char>,
        name: Seq<char>,
        folder_id: u64,
    ) -> DatabaseView
        recommends
            self.next_feed < u64::MAX,
    {
        DatabaseView {
            feeds: self.feeds.push(FeedRowView::fresh(self.next_feed, url, name, folder_id)),
            next_feed: (self.next_feed + 1) as u64,
            ..self
        }
    }

    /// After the feed `id` was removed, and with it its articles and authors.
    pub open spec fn delete_feed(self, id: u64) -> DatabaseView {
        DatabaseView {
            feeds: self.feeds.filter(|f: FeedRowView| f.id != id),
            articles: self.articles.filter(|a: ArticleRowView| a.feed_id != id),
            authors: self.authors.filter(|a: AuthorRowView| a.feed_id != id),
            ..self
        }
    }

    /// The folder that the feed `id` leaves when it is to be in `folder_id`:
    /// 0 where it stays, or where there is no such feed.
    pub open spec fn previous_folder(self, id: u64, folder_id: u64) -> u64 {
        if self.has_feed(id) && self.feed(id).folder_id != folder_id {
            self.feed(id).folder_id
        } else {
            0
        }
    }

    /// After the feed `id` took this address and name and, where it was in
    /// another folder, joined `folder_id` behind the feeds that were there.
    pub open spec fn update_feed(
        self,
        id: u64,
        url: Seq<char>,
        name: Seq<char>,
        folder_id: u64,
    ) -> DatabaseView {
        if !self.has_feed(id) {
            self
        } else if self.feed(id).folder_id == folder_id {
            DatabaseView {
                feeds: self.feeds.map_values(
                    |f: FeedRowView|
                        if f.id == id {
                            FeedRowView { url, name, ..f }
                        } else {
                            f
                        },
                ),
                ..self
            }
        } else {
            DatabaseView {
                feeds: self.feeds.filter(|f: FeedRowView| f.id != id).push(
                    FeedRowView { url, name, folder_id, ..self.feed(id) },
                ),
                ..self
            }
        }
    }

    /// After the feed `id` took what a fetch found out about it.
    pub open spec fn update_feed_ext(
        self,
        id: u64,
        site: Seq<char>,
        kind: FeedType,
        title: Option<Seq<char>>,
        description: Option<Seq<char>>,
    ) -> DatabaseView {
        DatabaseView {
            feeds: self.feeds.map_values(
                |f: FeedRowView|
                    if f.id == id {
                        FeedRowView { site: Some(site), kind: Some(kind), title, description, ..f }
                    } else {
                        f
                    },
            ),
            ..self
        }
    }

    /// After the feed `id` took `seen` as its watermark.
    pub open spec fn set_last_seen(self, id: u64, seen: i64) -> DatabaseView {
        DatabaseView {
            feeds: self.feeds.map_values(
                |f: FeedRowView|
                    if f.id == id {
                        FeedRowView { last_seen: seen, ..f }
                    } else {
                        f
                    },
            ),
            ..self
        }
    }
}

impl FeedRowView {
    /// The row of a feed that was just added: nothing fetched yet.
    pub open spec fn fresh(id: u64, url: Seq<char>, name: Seq<char>, folder_id: u64) -> FeedRowView {
        FeedRowView {
            id,
            url,
            name,
            site: None,
            kind: None,
            title: None,
            description: None,
            last_seen: 0,
            folder_id,
        }
    }
}

/// Renaming a folder keeps the constraints of the schema.
pub proof fn lemma_rename_folder_inv(db: DatabaseView, id: u64, name: Seq<char>)
    requires
        db.inv(),
    ensures
        db.rename_folder(id, name).inv(),
{
    let after = db.rename_folder(id, name);
    lemma_links_same(db, after);
    assert forall|i: int| 0 <= i < after.feeds.len() implies after.has_folder(
        #[trigger] after.feeds[i].folder_id,
    ) by {
        assert(db.has_folder(db.feeds[i].folder_id));
        let k = choose|k: int|
            0 <= k < db.folders.len() && #[trigger] db.folders[k].id == db.feeds[i].folder_id;
        assert(after.folders[k].id == db.feeds[i].folder_id);
    }
}

/// Deleting a folder other than the default folder keeps the constraints of
/// the schema.
pub proof fn lemma_delete_folder_inv(db: DatabaseView, id: u64)
    requires
        db.inv(),
        id != DEFAULT_FOLDER,
    ensures
        db.delete_folder(id).inv(),
{
    let after = db.delete_folder(id);
    lemma_links_same(db, after);
    let keep = |f: FolderRowView| f.id != id;
    let stay = |f: FeedRowView| f.folder_id != id;
    let go = |f: FeedRowView| f.folder_id == id;
    let repoint = |f: FeedRowView| FeedRowView { folder_id: DEFAULT_FOLDER, ..f };
    lemma_filter_origin(db.folders, keep);
    lemma_filter_origin(db.feeds, stay);
    lemma_filter_origin(db.feeds, go);
    lemma_filter_has(db.folders, keep, 0);
    let first = choose|a: int|
        0 <= a < db.folders.filter(keep).len() && #[trigger] db.folders.filter(keep)[a]
            == db.folders[0];
    assert(after.folders[0].id == DEFAULT_FOLDER) by {
        if first > 0 {
            let k0 = origin(db.folders, keep, 0);
            let k1 = origin(db.folders, keep, first);
            assert(k0 < k1);
            assert(db.folders[k0].id < db.folders[k1].id);
        }
    }
    assert forall|i: int| 0 <= i < after.folders.len() implies 1 <= #[trigger] after.folders[i].id
        < after.next_folder by {
        let k = origin(db.folders, keep, i);
        assert(db.folders[k] == after.folders[i]);
    }
    assert forall|i: int, j: int| 0 <= i < j < after.folders.len() implies #[trigger] after.folders[i].id
        < #[trigger] after.folders[j].id by {
        let a = origin(db.folders, keep, i);
        let b = origin(db.folders, keep, j);
        assert(a < b);
    }
    let kept = db.feeds.filter(stay);
    let moved = db.feeds.filter(go).map_values(repoint);
    assert forall|i: int| 0 <= i < after.feeds.len() implies 1 <= #[trigger] after.feeds[i].id
        < after.next_feed by {
        if i < kept.len() {
            let k = origin(db.feeds, stay, i);
            assert(db.feeds[k] == after.feeds[i]);
        } else {
            let k = origin(db.feeds, go, i - kept.len());
            assert(after.feeds[i] == repoint(db.feeds[k]));
        }
    }
    assert forall|i: int| 0 <= i < after.feeds.len() implies after.has_folder(
        #[trigger] after.feeds[i].folder_id,
    ) by {
        if i < kept.len() {
            let k = origin(db.feeds, stay, i);
            assert(db.feeds[k] == after.feeds[i]);
            assert(db.has_folder(db.feeds[k].folder_id));
            let w = choose|w: int|
                0 <= w < db.folders.len() && #[trigger] db.folders[w].id == db.feeds[k].folder_id;
            lemma_filter_has(db.folders, keep, w);
            let a = choose|a: int|
                0 <= a < db.folders.filter(keep).len() && #[trigger] db.folders.filter(keep)[a]
                    == db.folders[w];
            assert(after.folders[a].id == after.feeds[i].folder_id);
        } else {
            let k = origin(db.feeds, go, i - kept.len());
            assert(after.feeds[i] == repoint(db.feeds[k]));
            assert(after.folders[0].id == DEFAULT_FOLDER);
        }
    }
    assert forall|i: int, j: int| 0 <= i < j < after.feeds.len() implies #[trigger] after.feeds[i].id
        != #[trigger] after.feeds[j].id by {
        let a = if i < kept.len() {
            origin(db.feeds, stay, i)
        } else {
            origin(db.feeds, go, i - kept.len())
        };
        let b = if j < kept.len() {
            origin(db.feeds, stay, j)
        } else {
            origin(db.feeds, go, j - kept.len())
        };
        assert(after.feeds[i].id == db.feeds[a].id);
        assert(after.feeds[j].id == db.feeds[b].id);
        assert(a != b);
    }
    assert forall|i: int| 0 <= i < after.articles.len() implies after.has_feed(
        #[trigger] after.articles[i].feed_id,
    ) by {
        lemma_delete_folder_keeps_feeds(db, id, db.articles[i].feed_id);
    }
    assert forall|i: int| 0 <= i < after.authors.len() implies after.has_feed(
        #[trigger] after.authors[i].feed_id,
    ) by {
        lemma_delete_folder_keeps_feeds(db, id, db.authors[i].feed_id);
    }
}

/// Deleting a folder deletes no feed.
pub proof fn lemma_delete_folder_keeps_feeds(db: DatabaseView, id: u64, feed: u64)
    requires
        db.has_feed(feed),
    ensures
        db.delete_folder(id).has_feed(feed),
{
    let after = db.delete_folder(id);
    let stay = |f: FeedRowView| f.folder_id != id;
    let go = |f: FeedRowView| f.folder_id == id;
    let repoint = |f: FeedRowView| FeedRowView { folder_id: DEFAULT_FOLDER, ..f };
    let k = choose|k: int| 0 <= k < db.feeds.len() && #[trigger] db.feeds[k].id == feed;
    if stay(db.feeds[k]) {
        lemma_filter_has(db.feeds, stay, k);
        let a = choose|a: int|
            0 <= a < db.feeds.filter(stay).len() && #[trigger] db.feeds.filter(stay)[a]
                == db.feeds[k];
        assert(after.feeds[a].id == feed);
    } else {
        lemma_filter_has(db.feeds, go, k);
        let a = choose|a: int|
            0 <= a < db.feeds.filter(go).len() && #[trigger] db.feeds.filter(go)[a] == db.feeds[k];
        assert(after.feeds[db.feeds.filter(stay).len() + a].id == feed);
    }
}

/// Links hold where they held and neither articles nor authors changed.
pub proof fn lemma_links_same(db: DatabaseView, after: DatabaseView)
    requires
        db.links_hold(),
        after.articles == db.articles,
        after.authors == db.authors,
    ensures
        after.links_hold(),
{
    assert forall|i: int, k: int|
        0 <= i < after.articles.len() && 0 <= k < after.articles[i].authors.len() implies after.has_author_of(
        after.articles[i].feed_id,
        #[trigger] after.articles[i].authors[k],
    ) by {
        let f = db.articles[i].feed_id;
        let a = db.articles[i].authors[k];
        assert(db.has_author_of(f, a));
        let j = choose|j: int|
            0 <= j < db.authors.len() && (#[trigger] db.authors[j]).id == a && db.authors[j].feed_id
                == f;
        assert(after.authors[j].id == a && after.authors[j].feed_id == f);
    }
}

/// A folder that exists still exists where the table of folders is the same.
pub proof fn lemma_same_folders(db: DatabaseView, after: DatabaseView, id: u64)
    requires
        db.has_folder(id),
        after.folders == db.folders,
    ensures
        after.has_folder(id),
{
    let k = choose|k: int| 0 <= k < db.folders.len() && #[trigger] db.folders[k].id == id;
    assert(after.folders[k].id == id);
}

/// Where feed ids are distinct, the row of a feed is the row that holds its id.
pub proof fn lemma_feed_at(db: DatabaseView, i: int)
    requires
        db.inv(),
        0 <= i < db.feeds.len(),
    ensures
        db.has_feed(db.feeds[i].id),
        db.feed(db.feeds[i].id) == db.feeds[i],
{
    let id = db.feeds[i].id;
    let k = choose|k: int| 0 <= k < db.feeds.len() && #[trigger] db.feeds[k].id == id;
    if k < i {
        assert(db.feeds[k].id != db.feeds[i].id);
    } else if i < k {
        assert(db.feeds[i].id != db.feeds[k].id);
    }
}

/// A change to the table of feeds that keeps every feed id, and changes
/// neither the other tables nor the next ids, keeps the references to feeds
/// and the links.
pub proof fn lemma_references_kept(db: DatabaseView, after: DatabaseView)
    requires
        db.inv(),
        after.articles == db.articles,
        after.authors == db.authors,
        forall|i: int|
            0 <= i < db.feeds.len() ==> after.has_feed(#[trigger] db.feeds[i].id),
    ensures
        forall|i: int|
            0 <= i < after.articles.len() ==> after.has_feed(#[trigger] after.articles[i].feed_id),
        forall|i: int|
            0 <= i < after.authors.len() ==> after.has_feed(#[trigger] after.authors[i].feed_id),
        after.links_hold(),
{
    lemma_links_same(db, after);
    assert forall|i: int| 0 <= i < after.articles.len() implies after.has_feed(
        #[trigger] after.articles[i].feed_id,
    ) by {
        assert(db.has_feed(db.articles[i].feed_id));
        let k = choose|k: int|
            0 <= k < db.feeds.len() && #[trigger] db.feeds[k].id == db.articles[i].feed_id;
        assert(after.has_feed(db.feeds[k].id));
    }
    assert forall|i: int| 0 <= i < after.authors.len() implies after.has_feed(
        #[trigger] after.authors[i].feed_id,
    ) by {
        assert(db.has_feed(db.authors[i].feed_id));
        let k = choose|k: int|
            0 <= k < db.feeds.len() && #[trigger] db.feeds[k].id == db.authors[i].feed_id;
        assert(after.has_feed(db.feeds[k].id));
    }
}

/// Adding a feed to a folder that exists keeps the constraints of the schema.
pub proof fn lemma_create_feed_inv(db: DatabaseView, url: Seq<char>, name: Seq<char>, folder_id: u64)
    requires
        db.inv(),
        db.next_feed < u64::MAX,
        db.has_folder(folder_id),
    ensures
        db.create_feed(url, name, folder_id).inv(),
{
    let after = db.create_feed(url, name, folder_id);
    assert(after.feeds.len() == db.feeds.len() + 1);
    assert forall|i: int| 0 <= i < db.feeds.len() implies after.has_feed(
        #[trigger] db.feeds[i].id,
    ) by {
        assert(after.feeds[i].id == db.feeds[i].id);
    }
    lemma_references_kept(db, after);
    assert forall|i: int| 0 <= i < after.feeds.len() implies after.has_folder(
        #[trigger] after.feeds[i].folder_id,
    ) by {
        if i < db.feeds.len() {
            assert(db.has_folder(db.feeds[i].folder_id));
            lemma_same_folders(db, after, db.feeds[i].folder_id);
        } else {
            lemma_same_folders(db, after, folder_id);
        }
    }
}

/// Deleting a feed keeps the constraints of the schema.
pub proof fn lemma_delete_feed_inv(db: DatabaseView, id: u64)
    requires
        db.inv(),
    ensures
        db.delete_feed(id).inv(),
{
    let after = db.delete_feed(id);
    let other = |f: FeedRowView| f.id != id;
    let foreign = |a: ArticleRowView| a.feed_id != id;
    let stranger = |a: AuthorRowView| a.feed_id != id;
    lemma_filter_origin(db.feeds, other);
    lemma_filter_origin(db.articles, foreign);
    lemma_filter_origin(db.authors, stranger);
    assert forall|i: int| 0 <= i < after.feeds.len() implies 1 <= #[trigger] after.feeds[i].id
        < after.next_feed by {
        let k = origin(db.feeds, other, i);
        assert(db.feeds[k] == after.feeds[i]);
    }
    assert forall|i: int, j: int| 0 <= i < j < after.feeds.len() implies #[trigger] after.feeds[i].id
        != #[trigger] after.feeds[j].id by {
        let a = origin(db.feeds, other, i);
        let b = origin(db.feeds, other, j);
        assert(a < b);
    }
    assert forall|i: int| 0 <= i < after.feeds.len() implies after.has_folder(
        #[trigger] after.feeds[i].folder_id,
    ) by {
        let k = origin(db.feeds, other, i);
        assert(db.feeds[k] == after.feeds[i]);
        assert(db.has_folder(db.feeds[k].folder_id));
        lemma_same_folders(db, after, db.feeds[k].folder_id);
    }
    assert forall|i: int| 0 <= i < after.articles.len() implies {
        &&& 1 <= #[trigger] after.articles[i].id < after.next_article
    } by {
        let k = origin(db.articles, foreign, i);
        assert(db.articles[k] == after.articles[i]);
    }
    assert forall|i: int| 0 <= i < after.articles.len() implies after.has_feed(
        #[trigger] after.articles[i].feed_id,
    ) by {
        let k = origin(db.articles, foreign, i);
        assert(db.articles[k] == after.articles[i]);
        assert(db.has_feed(db.articles[k].feed_id));
        let w = choose|w: int|
            0 <= w < db.feeds.len() && #[trigger] db.feeds[w].id == db.articles[k].feed_id;
        lemma_filter_has(db.feeds, other, w);
        let a = choose|a: int|
            0 <= a < db.feeds.filter(other).len() && #[trigger] db.feeds.filter(other)[a]
                == db.feeds[w];
        assert(after.feeds[a].id == after.articles[i].feed_id);
    }
    assert forall|i: int, j: int| 0 <= i < j < after.articles.len() implies #[trigger] after.articles[i].id
        < #[trigger] after.articles[j].id by {
        let a = origin(db.articles, foreign, i);
        let b = origin(db.articles, foreign, j);
        assert(a < b);
        assert(db.articles[a].id < db.articles[b].id);
    }
    assert forall|i: int, j: int| 0 <= i < j < after.articles.len() implies !(
    #[trigger] after.articles[i].feed_id == #[trigger] after.articles[j].feed_id
        && after.articles[i].url == after.articles[j].url) by {
        let a = origin(db.articles, foreign, i);
        let b = origin(db.articles, foreign, j);
        assert(a < b);
        assert(db.articles[a] == after.articles[i]);
        assert(db.articles[b] == after.articles[j]);
    }
    assert forall|i: int| 0 <= i < after.authors.len() implies {
        &&& 1 <= #[trigger] after.authors[i].id < after.next_author
    } by {
        let k = origin(db.authors, stranger, i);
        assert(db.authors[k] == after.authors[i]);
    }
    assert forall|i: int| 0 <= i < after.authors.len() implies after.has_feed(
        #[trigger] after.authors[i].feed_id,
    ) by {
        let k = origin(db.authors, stranger, i);
        assert(db.authors[k] == after.authors[i]);
        assert(db.has_feed(db.authors[k].feed_id));
        let w = choose|w: int|
            0 <= w < db.feeds.len() && #[trigger] db.feeds[w].id == db.authors[k].feed_id;
        lemma_filter_has(db.feeds, other, w);
        let a = choose|a: int|
            0 <= a < db.feeds.filter(other).len() && #[trigger] db.feeds.filter(other)[a]
                == db.feeds[w];
        assert(after.feeds[a].id == after.authors[i].feed_id);
    }
    assert forall|i: int, j: int| 0 <= i < j < after.authors.len() implies #[trigger] after.authors[i].id
        < #[trigger] after.authors[j].id by {
        let a = origin(db.authors, stranger, i);
        let b = origin(db.authors, stranger, j);
        assert(a < b);
        assert(db.authors[a].id < db.authors[b].id);
    }
    assert forall|i: int, j: int| 0 <= i < j < after.authors.len() implies !(
    #[trigger] after.authors[i].feed_id == #[trigger] after.authors[j].feed_id
        && after.authors[i].name == after.authors[j].name) by {
        let a = origin(db.authors, stranger, i);
        let b = origin(db.authors, stranger, j);
        assert(a < b);
        assert(db.authors[a] == after.authors[i]);
        assert(db.authors[b] == after.authors[j]);
    }
    assert forall|i: int, k: int|
        0 <= i < after.articles.len() && 0 <= k < after.articles[i].authors.len() implies after.has_author_of(
        after.articles[i].feed_id,
        #[trigger] after.articles[i].authors[k],
    ) by {
        let n = origin(db.articles, foreign, i);
        assert(db.articles[n] == after.articles[i]);
        let f = db.articles[n].feed_id;
        let a = db.articles[n].authors[k];
        assert(db.has_author_of(f, a));
        let j = choose|j: int|
            0 <= j < db.authors.len() && (#[trigger] db.authors[j]).id == a && db.authors[j].feed_id
                == f;
        lemma_filter_has(db.authors, stranger, j);
        let w = choose|w: int|
            0 <= w < db.authors.filter(stranger).len() && #[trigger] db.authors.filter(stranger)[w]
                == db.authors[j];
        assert(after.authors[w].id == a && after.authors[w].feed_id == f);
    }
    assert forall|i: int| 0 <= i < after.articles.len() implies (
    #[trigger] after.articles[i]).authors.no_duplicates() by {
        let n = origin(db.articles, foreign, i);
        assert(db.articles[n] == after.articles[i]);
    }
}

/// Changing columns of feeds other than the id and the folder keeps the
/// constraints of the schema.
pub proof fn lemma_feed_columns_inv(db: DatabaseView, after: DatabaseView)
    requires
        db.inv(),
        after == (DatabaseView { feeds: after.feeds, ..db }),
        after.feeds.len() == db.feeds.len(),
        forall|i: int|
            0 <= i < db.feeds.len() ==> (#[trigger] after.feeds[i]).id == db.feeds[i].id
                && after.feeds[i].folder_id == db.feeds[i].folder_id,
    ensures
        after.inv(),
{
    assert forall|i: int| 0 <= i < db.feeds.len() implies after.has_feed(
        #[trigger] db.feeds[i].id,
    ) by {
        assert(after.feeds[i].id == db.feeds[i].id);
    }
    lemma_references_kept(db, after);
    assert forall|i: int| 0 <= i < after.feeds.len() implies after.has_folder(
        #[trigger] after.feeds[i].folder_id,
    ) by {
        assert(db.has_folder(db.feeds[i].folder_id));
        lemma_same_folders(db, after, db.feeds[i].folder_id);
    }
    assert forall|i: int| 0 <= i < after.feeds.len() implies 1 <= #[trigger] after.feeds[i].id
        < after.next_feed by {
        assert(after.feeds[i].id == db.feeds[i].id);
    }
    assert forall|i: int, j: int| 0 <= i < j < after.feeds.len() implies #[trigger] after.feeds[i].id
        != #[trigger] after.feeds[j].id by {
        assert(after.feeds[i].id == db.feeds[i].id);
        assert(after.feeds[j].id == db.feeds[j].id);
    }
}

/// A change to columns of feeds other than the id keeps every feed.
pub proof fn lemma_feed_columns_keep(db: DatabaseView, after: DatabaseView, id: u64)
    requires
        after.feeds.len() == db.feeds.len(),
        forall|i: int| 0 <= i < db.feeds.len() ==> (#[trigger] after.feeds[i]).id == db.feeds[i].id,
    ensures
        after.has_feed(id) == db.has_feed(id),
{
    if db.has_feed(id) {
        let k = choose|k: int| 0 <= k < db.feeds.len() && #[trigger] db.feeds[k].id == id;
        assert(after.feeds[k].id == id);
    }
    if after.has_feed(id) {
        let k = choose|k: int| 0 <= k < after.feeds.len() && #[trigger] after.feeds[k].id == id;
        assert(db.feeds[k].id == id);
    }
}

/// Updating a feed keeps the constraints of the schema, where the folder it
/// is to be in exists.
pub proof fn lemma_update_feed_inv(
    db: DatabaseView,
    id: u64,
    url: Seq<char>,
    name: Seq<char>,
    folder_id: u64,
)
    requires
        db.inv(),
        db.previous_folder(id, folder_id) != 0 ==> db.has_folder(folder_id),
    ensures
        db.update_feed(id, url, name, folder_id).inv(),
{
    let after = db.update_feed(id, url, name, folder_id);
    if !db.has_feed(id) {
    } else if db.feed(id).folder_id == folder_id {
        lemma_feed_columns_inv(db, after);
    } else {
        let w = choose|w: int| 0 <= w < db.feeds.len() && #[trigger] db.feeds[w].id == id;
        lemma_feed_at(db, w);
        assert(db.feeds[w].folder_id >= 1) by {
            assert(db.has_folder(db.feeds[w].folder_id));
        }
        let other = |f: FeedRowView| f.id != id;
        let rest = db.feeds.filter(other);
        lemma_filter_origin(db.feeds, other);
        assert forall|i: int| 0 <= i < db.feeds.len() implies after.has_feed(
            #[trigger] db.feeds[i].id,
        ) by {
            if db.feeds[i].id == id {
                assert(after.feeds[rest.len() as int].id == id);
            } else {
                lemma_filter_has(db.feeds, other, i);
                let a = choose|a: int| 0 <= a < rest.len() && #[trigger] rest[a] == db.feeds[i];
                assert(after.feeds[a].id == db.feeds[i].id);
            }
        }
        lemma_references_kept(db, after);
        assert forall|i: int| 0 <= i < after.feeds.len() implies 1 <= #[trigger] after.feeds[i].id
            < after.next_feed by {
            if i < rest.len() {
                let k = origin(db.feeds, other, i);
                assert(db.feeds[k] == after.feeds[i]);
            }
        }
        assert forall|i: int| 0 <= i < after.feeds.len() implies after.has_folder(
            #[trigger] after.feeds[i].folder_id,
        ) by {
            if i < rest.len() {
                let k = origin(db.feeds, other, i);
                assert(db.feeds[k] == after.feeds[i]);
                assert(db.has_folder(db.feeds[k].folder_id));
                lemma_same_folders(db, after, db.feeds[k].folder_id);
            } else {
                lemma_same_folders(db, after, folder_id);
            }
        }
        assert forall|i: int, j: int| 0 <= i < j < after.feeds.len() implies #[trigger] after.feeds[i].id
            != #[trigger] after.feeds[j].id by {
            let a = origin(db.feeds, other, i);
            assert(db.feeds[a] == after.feeds[i]);
            if j < rest.len() {
                let b = origin(db.feeds, other, j);
                assert(a < b);
            }
        }
    }
}

/// Adding a folder keeps the constraints of the schema.
pub proof fn lemma_create_folder_inv(db: DatabaseView, name: Seq<char>)
    requires
        db.inv(),
        db.next_folder < u64::MAX,
    ensures
        db.create_folder(name).inv(),
{
    let after = db.create_folder(name);
    lemma_links_same(db, after);
    assert forall|i: int| 0 <= i < after.feeds.len() implies after.has_folder(
        #[trigger] after.feeds[i].folder_id,
    ) by {
        assert(db.has_folder(db.feeds[i].folder_id));
        let k = choose|k: int|
            0 <= k < db.folders.len() && #[trigger] db.folders[k].id == db.feeds[i].folder_id;
        assert(after.folders[k].id == db.feeds[i].folder_id);
    }
}

} // verus!
