//! Reading the store: the tree of folders with their feeds, and the articles
//! of a feed that are newer than a watermark.

use vstd::prelude::*;

use crate::db::Database;
use crate::models::{Article, ArticleView, Author, AuthorView, Feed, FeedView, Folder, FolderView};
use crate::schema::{ArticleRowView, AuthorRow, DatabaseView, FeedRow, FeedRowView, FolderRowView};
use crate::tables::{lemma_filter_origin, lemma_filter_step, origin};

verus! {

/// A stored feed as the tree shows it: idle, with no articles loaded.
pub open spec fn feed_of(row: FeedRowView) -> FeedView {
    FeedView {
        id: row.id,
        name: row.name,
        url: row.url,
        site: row.site,
        last_seen: row.last_seen,
        folder_id: row.folder_id,
        status: false,
        articles: None,
    }
}

/// The watermark that a request for the articles of `feed` carries: 0, which
/// asks for all, where the request carries no article list, else the
/// watermark of the feed.
pub open spec fn watermark_of(feed: FeedView) -> i64 {
    if feed.articles is None {
        0
    } else {
        feed.last_seen
    }
}

impl DatabaseView {
    /// The feeds of a folder, in the order in which they joined it.
    pub open spec fn feeds_in(self, folder: u64) -> Seq<FeedView> {
        self.feeds.filter(|f: FeedRowView| f.folder_id == folder).map_values(
            |f: FeedRowView| feed_of(f),
        )
    }

    /// A stored folder with its feeds; a folder without feeds carries no list.
    pub open spec fn folder_of(self, row: FolderRowView) -> FolderView {
        FolderView {
            id: row.id,
            name: row.name,
            feeds: if self.feeds_in(row.id).len() == 0 {
                None
            } else {
                Some(self.feeds_in(row.id))
            },
        }
    }

    /// Every folder with its feeds, folders in the order in which they were
    /// added.
    pub open spec fn tree(self) -> Seq<FolderView> {
        self.folders.map_values(|f: FolderRowView| self.folder_of(f))
    }

    /// Whether an author has the id `id`.
    pub open spec fn has_author_id(self, id: u64) -> bool {
        exists|i: int| 0 <= i < self.authors.len() && #[trigger] self.authors[i].id == id
    }

    /// The author with the id `id`, as shown beside an article.
    pub open spec fn author_of(self, id: u64) -> Option<AuthorView> {
        if self.has_author_id(id) {
            let i = choose|i: int| 0 <= i < self.authors.len() && #[trigger] self.authors[i].id == id;
            Some(AuthorView { id, name: self.authors[i].name })
        } else {
            None
        }
    }

    /// The authors linked to an article, in the order in which they were
    /// linked; an article without authors carries no list.
    pub open spec fn authors_of(self, ids: Seq<u64>) -> Option<Seq<AuthorView>> {
        let found = ids.filter_map(|id: u64| self.author_of(id));
        if found.len() == 0 {
            None
        } else {
            Some(found)
        }
    }

    /// A stored article as readers see it.
    pub open spec fn article_of(self, row: ArticleRowView) -> ArticleView {
        ArticleView {
            id: row.id,
            feed_id: row.feed_id,
            url: row.url,
            title: row.title,
            content: row.content,
            created: row.created,
            updated: row.updated,
            authors: self.authors_of(row.authors),
        }
    }

    /// The articles of the feed `feed_id` that changed after `watermark`, in
    /// the order in which they were first ingested.
    pub open spec fn find_articles(self, feed_id: u64, watermark: i64) -> Seq<ArticleView> {
        self.articles.filter(
            |a: ArticleRowView| a.feed_id == feed_id && a.updated > watermark,
        ).map_values(|a: ArticleRowView| self.article_of(a))
    }
}

/// Every author linked to an article is shown beside it: the authors shown
/// are as many as the links, with the ids of the links, in their order.
pub proof fn lemma_authors_shown(db: DatabaseView, i: int)
    requires
        db.inv(),
        0 <= i < db.articles.len(),
    ensures
        db.article_of(db.articles[i]).authors is None <==> db.articles[i].authors.len() == 0,
        db.articles[i].authors.len() > 0 ==> {
            let shown = db.article_of(db.articles[i]).authors->0;
            &&& shown.len() == db.articles[i].authors.len()
            &&& forall|k: int|
                0 <= k < shown.len() ==> (#[trigger] shown[k]).id == db.articles[i].authors[k]
        },
{
    let ids = db.articles[i].authors;
    assert forall|k: int| 0 <= k < ids.len() implies db.has_author_id(#[trigger] ids[k]) by {
        assert(db.has_author_of(db.articles[i].feed_id, ids[k]));
        let j = choose|j: int|
            0 <= j < db.authors.len() && (#[trigger] db.authors[j]).id == ids[k]
                && db.authors[j].feed_id == db.articles[i].feed_id;
        assert(db.authors[j].id == ids[k]);
    }
    lemma_all_found(db, ids);
}

/// Where every id is the id of an author, looking the ids up gives an author
/// for each, in their order.
proof fn lemma_all_found(db: DatabaseView, ids: Seq<u64>)
    requires
        forall|k: int| 0 <= k < ids.len() ==> db.has_author_id(#[trigger] ids[k]),
    ensures
        ids.filter_map(|id: u64| db.author_of(id)).len() == ids.len(),
        forall|k: int|
            0 <= k < ids.len() ==> ids.filter_map(|id: u64| db.author_of(id))[k].id
                == #[trigger] ids[k],
    decreases ids.len(),
{
    let pick = |id: u64| db.author_of(id);
    if ids.len() > 0 {
        let rest = ids.drop_last();
        assert forall|k: int| 0 <= k < rest.len() implies db.has_author_id(#[trigger] rest[k]) by {
            assert(rest[k] == ids[k]);
        }
        lemma_all_found(db, rest);
        assert(db.has_author_id(ids[ids.len() - 1]));
        assert(pick(ids.last()) is Some);
        assert(ids.filter_map(pick) == rest.filter_map(pick) + seq![pick(ids.last())->0]);
        assert forall|k: int| 0 <= k < ids.len() implies ids.filter_map(pick)[k].id
            == #[trigger] ids[k] by {
            if k < rest.len() {
                assert(ids.filter_map(pick)[k] == rest.filter_map(pick)[k]);
                assert(rest[k] == ids[k]);
            }
        }
    }
}

/// What is read of a feed are articles of that feed, each changed after the
/// watermark, and they come in the order of their ids.
pub proof fn lemma_find_articles(db: DatabaseView, feed_id: u64, watermark: i64)
    requires
        db.inv(),
    ensures
        forall|i: int|
            0 <= i < db.find_articles(feed_id, watermark).len() ==> {
                &&& (#[trigger] db.find_articles(feed_id, watermark)[i]).feed_id == feed_id
                &&& db.find_articles(feed_id, watermark)[i].updated > watermark
            },
        forall|i: int, j: int|
            0 <= i < j < db.find_articles(feed_id, watermark).len() ==> (#[trigger] db.find_articles(
                feed_id,
                watermark,
            )[i]).id < (#[trigger] db.find_articles(feed_id, watermark)[j]).id,
{
    let wanted = |a: ArticleRowView| a.feed_id == feed_id && a.updated > watermark;
    let found = db.find_articles(feed_id, watermark);
    let rows = db.articles.filter(wanted);
    lemma_filter_origin(db.articles, wanted);
    assert forall|i: int| 0 <= i < found.len() implies {
        &&& (#[trigger] found[i]).feed_id == feed_id
        &&& found[i].updated > watermark
    } by {
        assert(found[i] == db.article_of(rows[i]));
    }
    assert forall|i: int, j: int| 0 <= i < j < found.len() implies (#[trigger] found[i]).id < (
    #[trigger] found[j]).id by {
        let a = origin(db.articles, wanted, i);
        let b = origin(db.articles, wanted, j);
        assert(a < b);
    }
}

/// The feeds of the folder `folder`, as the tree shows them.
fn feeds_in(rows: &Vec<FeedRow>, folder: u64) -> (r: Vec<Feed>)
    ensures
        r.deep_view() == rows.deep_view().filter(|f: FeedRowView| f.folder_id == folder).map_values(
            |f: FeedRowView| feed_of(f),
        ),
{
    let ghost all = rows.deep_view();
    let ghost member = |f: FeedRowView| f.folder_id == folder;
    let ghost show = |f: FeedRowView| feed_of(f);
    let mut out: Vec<Feed> = Vec::new();
    let mut i: usize = 0;
    while i < rows.len()
        invariant
            i <= rows.len(),
            all == rows.deep_view(),
            forall|f: FeedRowView| #[trigger] member(f) == (f.folder_id == folder),
            forall|f: FeedRowView| #[trigger] show(f) == feed_of(f),
            out.deep_view() =~= all.take(i as int).filter(member).map_values(show),
        decreases rows.len() - i,
    {
        proof {
            lemma_filter_step(all, member, i as int);
        }
        let row = &rows[i];
        if row.folder_id == folder {
            let ghost shown = out.deep_view();
            out.push(
                Feed {
                    id: row.id,
                    name: row.name.clone(),
                    url: row.url.clone(),
                    site: row.site.clone(),
                    last_seen: row.last_seen,
                    folder_id: row.folder_id,
                    status: false,
                    articles: None,
                },
            );
            assert(out.deep_view() =~= shown.push(feed_of(all[i as int])));
        }
        i += 1;
    }
    assert(all.take(rows.len() as int) =~= all);
    out
}

/// Reads every folder with its feeds.
pub fn fetch_folders(db: &Database) -> (r: Vec<Folder>)
    ensures
        r.deep_view() == db@.tree(),
{
    let folders = db.folders();
    let feeds = db.feeds();
    let mut out: Vec<Folder> = Vec::new();
    let mut i: usize = 0;
    while i < folders.len()
        invariant
            i <= folders.len(),
            folders.deep_view() == db@.folders,
            feeds.deep_view() == db@.feeds,
            out.deep_view() =~= db@.folders.take(i as int).map_values(
                |f: FolderRowView| db@.folder_of(f),
            ),
        decreases folders.len() - i,
    {
        let row = &folders[i];
        let list = feeds_in(feeds, row.id);
        let ghost shown = out.deep_view();
        let ghost item = db@.folder_of(db@.folders[i as int]);
        let feeds_of_folder = if list.len() == 0 {
            None
        } else {
            Some(list)
        };
        out.push(Folder { id: row.id, name: row.name.clone(), feeds: feeds_of_folder });
        assert(out.deep_view() =~= shown.push(item));
        i += 1;
    }
    out
}

/// The author with the id `id`, where one is stored.
fn author_of(rows: &Vec<AuthorRow>, id: u64, Ghost(db): Ghost<DatabaseView>) -> (r: Option<Author>)
    requires
        rows.deep_view() == db.authors,
        db.inv(),
    ensures
        r.deep_view() == db.author_of(id),
{
    let mut i: usize = 0;
    while i < rows.len()
        invariant
            i <= rows.len(),
            rows.deep_view() == db.authors,
            db.inv(),
            forall|k: int| 0 <= k < i ==> db.authors[k].id != id,
        decreases rows.len() - i,
    {
        if rows[i].id == id {
            proof {
                let k = choose|k: int|
                    0 <= k < db.authors.len() && #[trigger] db.authors[k].id == id;
                if k < i {
                    assert(db.authors[k].id < db.authors[i as int].id);
                } else if k > i {
                    assert(db.authors[i as int].id < db.authors[k].id);
                }
            }
            return Some(Author { id, name: rows[i].name.clone() });
        }
        i += 1;
    }
    None
}

/// The authors with the ids `ids`, as shown beside an article.
fn authors_of(rows: &Vec<AuthorRow>, ids: &Vec<u64>, Ghost(db): Ghost<DatabaseView>) -> (r: Option<
    Vec<Author>,
>)
    requires
        rows.deep_view() == db.authors,
        db.inv(),
    ensures
        r.deep_view() == db.authors_of(ids@),
{
    let ghost pick = |id: u64| db.author_of(id);
    let mut out: Vec<Author> = Vec::new();
    let mut i: usize = 0;
    while i < ids.len()
        invariant
            i <= ids.len(),
            rows.deep_view() == db.authors,
            db.inv(),
            forall|id: u64| #[trigger] pick(id) == db.author_of(id),
            out.deep_view() =~= ids@.take(i as int).filter_map(pick),
        decreases ids.len() - i,
    {
        proof {
            ids@.lemma_filter_map_take_succ(pick, i as int);
        }
        let ghost shown = out.deep_view();
        match author_of(rows, ids[i], Ghost(db)) {
            Some(author) => {
                out.push(author);
                assert(out.deep_view() =~= shown.push(author.deep_view()));
            },
            None => {},
        }
        i += 1;
    }
    assert(ids@.take(ids.len() as int) =~= ids@);
    if out.len() == 0 {
        None
    } else {
        Some(out)
    }
}

/// Reads the articles of `feed` that changed after the watermark that `feed`
/// carries, oldest ingested first, each with its authors.
pub fn find_articles_by_feed(db: &Database, feed: &Feed) -> (r: Vec<Article>)
    requires
        db.wf(),
    ensures
        r.deep_view() == db@.find_articles(feed.id, watermark_of(feed@)),
{
    let watermark: i64 = if feed.articles.is_none() {
        0
    } else {
        feed.last_seen
    };
    let feed_id = feed.id;
    let rows = db.articles();
    let authors = db.authors();
    let ghost all = db@.articles;
    let ghost wanted = |a: ArticleRowView| a.feed_id == feed_id && a.updated > watermark;
    let ghost show = |a: ArticleRowView| db@.article_of(a);
    let mut out: Vec<Article> = Vec::new();
    let mut i: usize = 0;
    while i < rows.len()
        invariant
            i <= rows.len(),
            db.wf(),
            all == db@.articles,
            rows.deep_view() == all,
            authors.deep_view() == db@.authors,
            forall|a: ArticleRowView|
                #[trigger] wanted(a) == (a.feed_id == feed_id && a.updated > watermark),
            forall|a: ArticleRowView| #[trigger] show(a) == db@.article_of(a),
            out.deep_view() =~= all.take(i as int).filter(wanted).map_values(show),
        decreases rows.len() - i,
    {
        proof {
            lemma_filter_step(all, wanted, i as int);
        }
        let row = &rows[i];
        if row.feed_id == feed_id && row.updated > watermark {
            let ghost shown = out.deep_view();
            let linked = authors_of(authors, &row.authors, Ghost(db@));
            out.push(
                Article {
                    id: row.id,
                    feed_id: row.feed_id,
                    url: row.url.clone(),
                    title: row.title.clone(),
                    content: row.content.clone(),
                    created: row.created,
                    updated: row.updated,
                    authors: linked,
                },
            );
            assert(out.deep_view() =~= shown.push(db@.article_of(all[i as int])));
        }
        i += 1;
    }
    assert(all.take(rows.len() as int) =~= all);
    out
}

} // verus!
