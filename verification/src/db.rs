//! The relational store: folders, feeds, articles and authors as tables of
//! rows, and the operations on them. Each operation either applies as a whole
//! or fails and leaves every table as it was.

use vstd::prelude::*;

use crate::document::{Entry, FeedType, Person};
use crate::ingest::{
    attributed, demand, incoming, lemma_article_at, lemma_author_at, lemma_credit_frame,
    lemma_credit_inv, lemma_demand_grows, lemma_ingest_entries_inv, lemma_link_inv,
    lemma_same_feeds, lemma_upsert_article_inv, lemma_upsert_articles_inv, lemma_upsert_author_inv,
    merged, resolve, Incoming,
};
use crate::models::{Feed, Folder};
pub use crate::query::{fetch_folders, find_articles_by_feed};
use crate::schema::{
    lemma_create_feed_inv, lemma_create_folder_inv, lemma_delete_feed_inv,
    lemma_delete_folder_inv, lemma_feed_at, lemma_feed_columns_inv, lemma_feed_columns_keep,
    lemma_rename_folder_inv, lemma_update_feed_inv, ArticleRow, ArticleRowView,
    AuthorRow, AuthorRowView, DatabaseView, FeedRow, FeedRowView, FolderRow, FolderRowView,
    DEFAULT_FOLDER,
};
use crate::tables::{lemma_deep_view_remove, lemma_filter_step, lemma_retain_step};
use crate::text::same;

verus! {

/// Why an operation on the store was refused.
#[derive(Clone, Copy, Debug, PartialEq, Eq)]
pub enum StoreError {
    /// The default folder cannot be deleted.
    DefaultFolder,
    /// The folder that a feed was to join does not exist.
    NoSuchFolder,
    /// The feed that articles were to join does not exist.
    NoSuchFeed,
    /// No id is left to assign.
    IdSpace,
    /// Stored rows break a constraint of the schema.
    Constraint,
}

/// The store.
pub struct Database {
    folders: Vec<FolderRow>,
    feeds: Vec<FeedRow>,
    articles: Vec<ArticleRow>,
    authors: Vec<AuthorRow>,
    next_folder: u64,
    next_feed: u64,
    next_article: u64,
    next_author: u64,
}

impl View for Database {
    type V = DatabaseView;

    closed spec fn view(&self) -> DatabaseView {
        DatabaseView {
            folders: self.folders.deep_view(),
            feeds: self.feeds.deep_view(),
            articles: self.articles.deep_view(),
            authors: self.authors.deep_view(),
            next_folder: self.next_folder,
            next_feed: self.next_feed,
            next_article: self.next_article,
            next_author: self.next_author,
        }
    }
}

impl Clone for Database {
    fn clone(&self) -> (r: Self)
        ensures
            r@ == self@,
    {
        let folders = self.folders.clone();
        assert(folders.deep_view() =~= self.folders.deep_view());
        let feeds = self.feeds.clone();
        assert(feeds.deep_view() =~= self.feeds.deep_view());
        let articles = self.articles.clone();
        assert(articles.deep_view() =~= self.articles.deep_view());
        let authors = self.authors.clone();
        assert(authors.deep_view() =~= self.authors.deep_view());
        Database {
            folders,
            feeds,
            articles,
            authors,
            next_folder: self.next_folder,
            next_feed: self.next_feed,
            next_article: self.next_article,
            next_author: self.next_author,
        }
    }
}

impl Database {
    /// The constraints of the schema hold of the tables.
    pub open spec fn wf(&self) -> bool {
        self@.inv()
    }

    /// A store that holds the default folder and nothing else.
    pub fn new() -> (db: Database)
        ensures
            db.wf(),
            db@ == DatabaseView::empty(),
    {
        let mut folders: Vec<FolderRow> = Vec::new();
        folders.push(FolderRow { id: DEFAULT_FOLDER, name: "Default".to_owned() });
        let db = Database {
            folders,
            feeds: Vec::new(),
            articles: Vec::new(),
            authors: Vec::new(),
            next_folder: 2,
            next_feed: 1,
            next_article: 1,
            next_author: 1,
        };
        assert(db@.folders =~= DatabaseView::empty().folders);
        assert(db@.feeds =~= DatabaseView::empty().feeds);
        assert(db@.articles =~= DatabaseView::empty().articles);
        assert(db@.authors =~= DatabaseView::empty().authors);
        db
    }

    /// The table of folders.
    pub fn folders(&self) -> (r: &Vec<FolderRow>)
        ensures
            r.deep_view() == self@.folders,
    {
        &self.folders
    }

    /// The table of feeds.
    pub fn feeds(&self) -> (r: &Vec<FeedRow>)
        ensures
            r.deep_view() == self@.feeds,
    {
        &self.feeds
    }

    /// The table of articles.
    pub fn articles(&self) -> (r: &Vec<ArticleRow>)
        ensures
            r.deep_view() == self@.articles,
    {
        &self.articles
    }

    /// The table of authors.
    pub fn authors(&self) -> (r: &Vec<AuthorRow>)
        ensures
            r.deep_view() == self@.authors,
    {
        &self.authors
    }

    /// The next id of each table.
    pub fn counters(&self) -> (r: Counters)
        ensures
            r.folder == self@.next_folder,
            r.feed == self@.next_feed,
            r.article == self@.next_article,
            r.author == self@.next_author,
    {
        Counters {
            folder: self.next_folder,
            feed: self.next_feed,
            article: self.next_article,
            author: self.next_author,
        }
    }

    fn find_folder(&self, id: u64) -> (r: Option<usize>)
        ensures
            match r {
                Some(i) => i < self.folders.len() && self@.folders[i as int].id == id
                    && self@.has_folder(id),
                None => !self@.has_folder(id),
            },
    {
        let mut i: usize = 0;
        while i < self.folders.len()
            invariant
                i <= self.folders.len(),
                forall|k: int| 0 <= k < i ==> self.folders[k].id != id,
            decreases self.folders.len() - i,
        {
            if self.folders[i].id == id {
                return Some(i);
            }
            i += 1;
        }
        None
    }

    fn find_feed(&self, id: u64) -> (r: Option<usize>)
        ensures
            match r {
                Some(i) => i < self.feeds.len() && self@.feeds[i as int].id == id
                    && self@.has_feed(id),
                None => !self@.has_feed(id),
            },
    {
        let mut i: usize = 0;
        while i < self.feeds.len()
            invariant
                i <= self.feeds.len(),
                forall|k: int| 0 <= k < i ==> self.feeds[k].id != id,
            decreases self.feeds.len() - i,
        {
            if self.feeds[i].id == id {
                return Some(i);
            }
            i += 1;
        }
        None
    }

    fn find_article(&self, feed_id: u64, url: &str) -> (r: Option<usize>)
        ensures
            match r {
                Some(i) => i < self.articles.len() && self@.articles[i as int].feed_id == feed_id
                    && self@.articles[i as int].url == url@ && self@.has_article(feed_id, url@),
                None => !self@.has_article(feed_id, url@),
            },
    {
        let mut i: usize = 0;
        while i < self.articles.len()
            invariant
                i <= self.articles.len(),
                forall|k: int|
                    0 <= k < i ==> !(self.articles[k].feed_id == feed_id && self.articles[k].url@
                        == url@),
            decreases self.articles.len() - i,
        {
            if self.articles[i].feed_id == feed_id && same(self.articles[i].url.as_str(), url) {
                return Some(i);
            }
            i += 1;
        }
        None
    }

    fn find_author(&self, feed_id: u64, name: &str) -> (r: Option<usize>)
        ensures
            match r {
                Some(i) => i < self.authors.len() && self@.authors[i as int].feed_id == feed_id
                    && self@.authors[i as int].name == name@ && self@.has_author(feed_id, name@),
                None => !self@.has_author(feed_id, name@),
            },
    {
        let mut i: usize = 0;
        while i < self.authors.len()
            invariant
                i <= self.authors.len(),
                forall|k: int|
                    0 <= k < i ==> !(self.authors[k].feed_id == feed_id && self.authors[k].name@
                        == name@),
            decreases self.authors.len() - i,
        {
            if self.authors[i].feed_id == feed_id && same(self.authors[i].name.as_str(), name) {
                return Some(i);
            }
            i += 1;
        }
        None
    }

    /// Merges `inc` into the article stored under its address, or adds it,
    /// and returns where the article stands.
    fn store_article(&mut self, feed_id: u64, inc: Incoming) -> (i: usize)
        requires
            old(self).wf(),
            old(self)@.has_feed(feed_id),
            old(self)@.has_article(feed_id, inc@.url) || old(self)@.next_article < u64::MAX,
        ensures
            final(self).wf(),
            final(self)@ == old(self)@.upsert_article(feed_id, inc@),
            i < final(self)@.articles.len(),
            final(self)@.articles[i as int].feed_id == feed_id,
            final(self)@.articles[i as int].url == inc@.url,
    {
        let ghost before = self@;
        let ghost target = before.upsert_article(feed_id, inc@);
        proof {
            lemma_upsert_article_inv(before, feed_id, inc@);
        }
        match self.find_article(feed_id, inc.url.as_str()) {
            Some(i) => {
                proof {
                    lemma_article_at(before, i as int);
                }
                let row = &mut self.articles[i];
                row.title = inc.title;
                row.content = inc.content;
                match inc.published {
                    Some(t) => {
                        if t > row.created {
                            row.created = t;
                        }
                    },
                    None => {},
                }
                match inc.updated {
                    Some(t) => {
                        if t > row.updated {
                            row.updated = t;
                        }
                    },
                    None => {},
                }
                assert(self@.articles =~= target.articles);
                i
            },
            None => {
                let id = self.next_article;
                let i = self.articles.len();
                let created = match inc.published {
                    Some(t) => t,
                    None => inc.fallback,
                };
                let updated = match inc.updated {
                    Some(t) => t,
                    None => created,
                };
                self.articles.push(
                    ArticleRow {
                        id,
                        feed_id,
                        url: inc.url,
                        title: inc.title,
                        content: inc.content,
                        created,
                        updated,
                        authors: Vec::new(),
                    },
                );
                self.next_article = id + 1;
                assert(self@.articles =~= target.articles);
                i
            },
        }
    }

    /// Gives the author stored under the name of `person` the contact
    /// details of `person`, or adds the author, and returns the author's id.
    fn store_author(&mut self, feed_id: u64, person: &Person) -> (id: u64)
        requires
            old(self).wf(),
            old(self)@.has_feed(feed_id),
            old(self)@.next_author < u64::MAX,
        ensures
            final(self).wf(),
            final(self)@ == old(self)@.upsert_author(feed_id, person@),
            final(self)@.has_author(feed_id, person@.name),
            final(self)@.has_author_of(feed_id, id),
            id == final(self)@.authors[final(self)@.author_index(feed_id, person@.name)].id,
    {
        let ghost before = self@;
        let ghost target = before.upsert_author(feed_id, person@);
        proof {
            lemma_upsert_author_inv(before, feed_id, person@);
        }
        match self.find_author(feed_id, person.name.as_str()) {
            Some(i) => {
                proof {
                    lemma_author_at(before, i as int);
                }
                let row = &mut self.authors[i];
                row.email = person.email.clone();
                row.url = person.uri.clone();
                let id = row.id;
                assert(self@.authors =~= target.authors);
                proof {
                    lemma_author_at(target, i as int);
                }
                id
            },
            None => {
                let id = self.next_author;
                let ghost n = self.authors.len() as int;
                self.authors.push(
                    AuthorRow {
                        id,
                        feed_id,
                        name: person.name.clone(),
                        email: person.email.clone(),
                        url: person.uri.clone(),
                    },
                );
                self.next_author = id + 1;
                assert(self@.authors =~= target.authors);
                proof {
                    lemma_author_at(target, n);
                }
                id
            },
        }
    }

    /// Links the author `author` to the article at `i`, once.
    fn link_author(&mut self, i: usize, author: u64)
        requires
            old(self).wf(),
            i < old(self)@.articles.len(),
            old(self)@.has_author_of(old(self)@.articles[i as int].feed_id, author),
        ensures
            final(self).wf(),
            final(self)@ == old(self)@.link(
                old(self)@.articles[i as int].feed_id,
                old(self)@.articles[i as int].url,
                author,
            ),
    {
        let ghost before = self@;
        let ghost feed_id = before.articles[i as int].feed_id;
        let ghost url = before.articles[i as int].url;
        proof {
            lemma_article_at(before, i as int);
            lemma_link_inv(before, feed_id, url, author);
        }
        if !holds(&self.articles[i].authors, author) {
            self.articles[i].authors.push(author);
            assert(self@.articles =~= before.link(feed_id, url, author).articles);
        }
    }

    /// Stores the first `count` of `persons` as authors of the feed and
    /// links each to the article at `i`.
    fn credit(&mut self, i: usize, feed_id: u64, persons: &Vec<Person>, count: usize)
        requires
            old(self).wf(),
            i < old(self)@.articles.len(),
            old(self)@.articles[i as int].feed_id == feed_id,
            old(self)@.has_feed(feed_id),
            count <= persons.len(),
            old(self)@.next_author + count <= u64::MAX,
        ensures
            final(self).wf(),
            final(self)@ == old(self)@.credit(
                feed_id,
                old(self)@.articles[i as int].url,
                persons.deep_view().take(count as int),
            ),
    {
        let ghost before = self@;
        let ghost url = before.articles[i as int].url;
        let ghost all = persons.deep_view().take(count as int);
        let mut n: usize = 0;
        proof {
            lemma_article_at(before, i as int);
        }
        while n < count
            invariant
                n <= count <= persons.len(),
                before.inv(),
                before.has_feed(feed_id),
                before.has_article(feed_id, url),
                before.article_index(feed_id, url) == i,
                before.next_author + count <= u64::MAX,
                all == persons.deep_view().take(count as int),
                self.wf(),
                self@ == before.credit(feed_id, url, all.take(n as int)),
            decreases count - n,
        {
            let ghost done = all.take(n as int);
            let ghost now = self@;
            proof {
                lemma_credit_inv(before, feed_id, url, done);
                lemma_same_feeds(before, now, feed_id);
                assert(all.take(n + 1).drop_last() =~= done);
            }
            let author = self.store_author(feed_id, &persons[n]);
            proof {
                let stored = now.upsert_author(feed_id, persons[n as int]@);
                lemma_upsert_author_inv(now, feed_id, persons[n as int]@);
                lemma_credit_frame(before, feed_id, url, done);
                lemma_article_at(stored, i as int);
            }
            self.link_author(i, author);
            n += 1;
        }
        assert(all.take(count as int) =~= all);
    }
}

/// Whether `id` stands in `ids`.
fn holds(ids: &Vec<u64>, id: u64) -> (r: bool)
    ensures
        r == ids@.contains(id),
{
    let mut i: usize = 0;
    while i < ids.len()
        invariant
            i <= ids.len(),
            forall|k: int| 0 <= k < i ==> ids[k] != id,
        decreases ids.len() - i,
    {
        if ids[i] == id {
            return true;
        }
        i += 1;
    }
    false
}

/// How many authors the entries are attributed to, or `None` where that is
/// more than ids exist.
fn author_demand(entries: &Vec<Entry>, feed_authors: &Vec<Person>) -> (r: Option<u64>)
    ensures
        match r {
            Some(n) => n == demand(entries.deep_view(), feed_authors.deep_view()),
            None => demand(entries.deep_view(), feed_authors.deep_view()) > u64::MAX,
        },
{
    let ghost all = entries.deep_view();
    let ghost fa = feed_authors.deep_view();
    let mut total: u64 = 0;
    let mut i: usize = 0;
    while i < entries.len()
        invariant
            i <= entries.len(),
            all == entries.deep_view(),
            fa == feed_authors.deep_view(),
            total == demand(all.take(i as int), fa),
        decreases entries.len() - i,
    {
        let n: usize = if entries[i].authors.len() > 0 {
            entries[i].authors.len()
        } else if feed_authors.len() > 0 {
            1
        } else {
            0
        };
        proof {
            assert(all.take(i + 1).drop_last() =~= all.take(i as int));
            lemma_demand_grows(all, fa, i + 1);
        }
        if n as u64 > u64::MAX - total {
            return None;
        }
        total = total + n as u64;
        i += 1;
    }
    assert(all.take(entries.len() as int) =~= all);
    Some(total)
}


/// Removes the feed `id` from a table of feeds.
fn remove_feed_row(feeds: &mut Vec<FeedRow>, id: u64)
    ensures
        final(feeds).deep_view() == old(feeds).deep_view().filter(|f: FeedRowView| f.id != id),
{
    let ghost before = feeds.deep_view();
    let ghost other = |f: FeedRowView| f.id != id;
    let mut i: usize = 0;
    let ghost mut k: int = 0;
    while i < feeds.len()
        invariant
            forall|f: FeedRowView| #[trigger] other(f) == (f.id != id),
            0 <= k <= before.len(),
            i <= feeds.len(),
            feeds.len() - i == before.len() - k,
            feeds.deep_view() =~= before.take(k).filter(other) + before.skip(k),
            i == before.take(k).filter(other).len(),
        decreases feeds.len() - i,
    {
        let ghost cur = feeds@;
        proof {
            lemma_retain_step(feeds.deep_view(), before, other, k);
        }
        if feeds[i].id == id {
            feeds.remove(i);
            proof {
                lemma_deep_view_remove(cur, feeds@, i as int);
            }
        } else {
            i += 1;
        }
        proof {
            k = k + 1;
        }
    }
    assert(before.take(k) =~= before);
}

/// Removes the articles of the feed `feed_id` from a table of articles.
fn remove_articles_of(articles: &mut Vec<ArticleRow>, feed_id: u64)
    ensures
        final(articles).deep_view() == old(articles).deep_view().filter(
            |a: ArticleRowView| a.feed_id != feed_id,
        ),
{
    let ghost before = articles.deep_view();
    let ghost foreign = |a: ArticleRowView| a.feed_id != feed_id;
    let mut i: usize = 0;
    let ghost mut k: int = 0;
    while i < articles.len()
        invariant
            forall|a: ArticleRowView| #[trigger] foreign(a) == (a.feed_id != feed_id),
            0 <= k <= before.len(),
            i <= articles.len(),
            articles.len() - i == before.len() - k,
            articles.deep_view() =~= before.take(k).filter(foreign) + before.skip(k),
            i == before.take(k).filter(foreign).len(),
        decreases articles.len() - i,
    {
        let ghost cur = articles@;
        proof {
            lemma_retain_step(articles.deep_view(), before, foreign, k);
        }
        if articles[i].feed_id == feed_id {
            articles.remove(i);
            proof {
                lemma_deep_view_remove(cur, articles@, i as int);
            }
        } else {
            i += 1;
        }
        proof {
            k = k + 1;
        }
    }
    assert(before.take(k) =~= before);
}

/// Removes the authors of the feed `feed_id` from a table of authors.
fn remove_authors_of(authors: &mut Vec<AuthorRow>, feed_id: u64)
    ensures
        final(authors).deep_view() == old(authors).deep_view().filter(
            |a: AuthorRowView| a.feed_id != feed_id,
        ),
{
    let ghost before = authors.deep_view();
    let ghost stranger = |a: AuthorRowView| a.feed_id != feed_id;
    let mut i: usize = 0;
    let ghost mut k: int = 0;
    while i < authors.len()
        invariant
            forall|a: AuthorRowView| #[trigger] stranger(a) == (a.feed_id != feed_id),
            0 <= k <= before.len(),
            i <= authors.len(),
            authors.len() - i == before.len() - k,
            authors.deep_view() =~= before.take(k).filter(stranger) + before.skip(k),
            i == before.take(k).filter(stranger).len(),
        decreases authors.len() - i,
    {
        let ghost cur = authors@;
        proof {
            lemma_retain_step(authors.deep_view(), before, stranger, k);
        }
        if authors[i].feed_id == feed_id {
            authors.remove(i);
            proof {
                lemma_deep_view_remove(cur, authors@, i as int);
            }
        } else {
            i += 1;
        }
        proof {
            k = k + 1;
        }
    }
    assert(before.take(k) =~= before);
}

/// Adds a folder with the name of `folder` and returns the id it was given.
pub fn create_folder(db: &mut Database, folder: &Folder) -> (r: Result<u64, StoreError>)
    requires
        old(db).wf(),
    ensures
        final(db).wf(),
        match r {
            Ok(id) => {
                &&& old(db)@.next_folder < u64::MAX
                &&& id == old(db)@.next_folder
                &&& final(db)@ == old(db)@.create_folder(folder@.name)
            },
            Err(e) => {
                &&& old(db)@.next_folder == u64::MAX
                &&& e == StoreError::IdSpace
                &&& final(db)@ == old(db)@
            },
        },
{
    if db.next_folder == u64::MAX {
        return Err(StoreError::IdSpace);
    }
    let id = db.next_folder;
    db.folders.push(FolderRow { id, name: folder.name.clone() });
    db.next_folder = id + 1;
    assert(db@.folders =~= old(db)@.create_folder(folder@.name).folders);
    proof {
        lemma_create_folder_inv(old(db)@, folder@.name);
    }
    Ok(id)
}

/// Gives the folder with the id of `folder` the name of `folder` and returns
/// the number of rows changed: 1, or 0 where no folder has that id.
pub fn rename_folder(db: &mut Database, folder: &Folder) -> (changed: usize)
    requires
        old(db).wf(),
    ensures
        final(db).wf(),
        final(db)@ == old(db)@.rename_folder(folder.id, folder@.name),
        changed == if old(db)@.has_folder(folder.id) { 1usize } else { 0usize },
{
    let found = db.find_folder(folder.id);
    let ghost before = db@;
    let ghost target = before.rename_folder(folder.id, folder@.name);
    let changed: usize = match found {
        Some(i) => {
            db.folders[i].name = folder.name.clone();
            assert(db@.folders =~= target.folders) by {
                assert forall|k: int| 0 <= k < before.folders.len() implies db@.folders[k]
                    == target.folders[k] by {
                    if k != i as int {
                        assert(before.folders[k].id != before.folders[i as int].id);
                    }
                }
            }
            1
        },
        None => {
            assert(db@.folders =~= target.folders);
            0
        },
    };
    proof {
        lemma_rename_folder_inv(before, folder.id, folder@.name);
    }
    changed
}

/// Deletes the folder with the id of `folder` and hands its feeds to the
/// default folder. The default folder itself is not deleted.
pub fn delete_folder(db: &mut Database, folder: &Folder) -> (r: Result<(), StoreError>)
    requires
        old(db).wf(),
    ensures
        final(db).wf(),
        match r {
            Ok(()) => folder.id != DEFAULT_FOLDER && final(db)@ == old(db)@.delete_folder(
                folder.id,
            ),
            Err(e) => folder.id == DEFAULT_FOLDER && e == StoreError::DefaultFolder && final(db)@
                == old(db)@,
        },
{
    let id = folder.id;
    if id == DEFAULT_FOLDER {
        return Err(StoreError::DefaultFolder);
    }
    let ghost before = db@;
    let ghost keep = |f: FolderRowView| f.id != id;
    let ghost stay = |f: FeedRowView| f.folder_id != id;
    let ghost go = |f: FeedRowView| f.folder_id == id;
    let ghost repoint = |f: FeedRowView| FeedRowView { folder_id: DEFAULT_FOLDER, ..f };
    let mut i: usize = 0;
    let ghost mut k: int = 0;
    while i < db.folders.len()
        invariant
            forall|f: FolderRowView| #[trigger] keep(f) == (f.id != id),
            0 <= k <= before.folders.len(),
            i <= db.folders.len(),
            db.folders.len() - i == before.folders.len() - k,
            db.folders.deep_view() =~= before.folders.take(k).filter(keep) + before.folders.skip(
                k,
            ),
            i == before.folders.take(k).filter(keep).len(),
            db.feeds == old(db).feeds,
            db.articles == old(db).articles,
            db.authors == old(db).authors,
            db.next_folder == old(db).next_folder,
            db.next_feed == old(db).next_feed,
            db.next_article == old(db).next_article,
            db.next_author == old(db).next_author,
        decreases db.folders.len() - i,
    {
        let ghost cur = db.folders@;
        proof {
            lemma_retain_step(db.folders.deep_view(), before.folders, keep, k);
        }
        if db.folders[i].id == id {
            db.folders.remove(i);
            proof {
                lemma_deep_view_remove(cur, db.folders@, i as int);
            }
        } else {
            i += 1;
        }
        proof {
            k = k + 1;
        }
    }
    assert(before.folders.take(k) =~= before.folders);
    let mut moved: Vec<FeedRow> = Vec::new();
    let mut j: usize = 0;
    let ghost mut m: int = 0;
    while j < db.feeds.len()
        invariant
            forall|f: FeedRowView| #[trigger] stay(f) == (f.folder_id != id),
            forall|f: FeedRowView| #[trigger] go(f) == (f.folder_id == id),
            forall|f: FeedRowView|
                #[trigger] repoint(f) == (FeedRowView { folder_id: DEFAULT_FOLDER, ..f }),
            0 <= m <= before.feeds.len(),
            j <= db.feeds.len(),
            db.feeds.len() - j == before.feeds.len() - m,
            db.feeds.deep_view() =~= before.feeds.take(m).filter(stay) + before.feeds.skip(m),
            j == before.feeds.take(m).filter(stay).len(),
            moved.deep_view() =~= before.feeds.take(m).filter(go).map_values(repoint),
            db.folders.deep_view() == before.folders.filter(keep),
            db.articles == old(db).articles,
            db.authors == old(db).authors,
            db.next_folder == old(db).next_folder,
            db.next_feed == old(db).next_feed,
            db.next_article == old(db).next_article,
            db.next_author == old(db).next_author,
        decreases db.feeds.len() - j,
    {
        let ghost cur = db.feeds@;
        proof {
            lemma_retain_step(db.feeds.deep_view(), before.feeds, stay, m);
            lemma_filter_step(before.feeds, go, m);
        }
        if db.feeds[j].folder_id == id {
            let mut row = db.feeds.remove(j);
            proof {
                lemma_deep_view_remove(cur, db.feeds@, j as int);
            }
            row.folder_id = DEFAULT_FOLDER;
            let ghost gone = moved.deep_view();
            moved.push(row);
            assert(moved.deep_view() =~= gone.push(repoint(before.feeds[m])));
        } else {
            j += 1;
        }
        proof {
            m = m + 1;
        }
    }
    assert(before.feeds.take(m) =~= before.feeds);
    db.feeds.append(&mut moved);
    assert(db@.feeds =~= before.delete_folder(id).feeds);
    proof {
        lemma_delete_folder_inv(before, id);
    }
    Ok(())
}

/// Adds a feed with the address and name of `feed` to the folder that `feed`
/// names and returns the id it was given.
pub fn create_feed(db: &mut Database, feed: &Feed) -> (r: Result<u64, StoreError>)
    requires
        old(db).wf(),
    ensures
        final(db).wf(),
        match r {
            Ok(id) => {
                &&& old(db)@.has_folder(feed.folder_id)
                &&& old(db)@.next_feed < u64::MAX
                &&& id == old(db)@.next_feed
                &&& final(db)@ == old(db)@.create_feed(feed@.url, feed@.name, feed.folder_id)
            },
            Err(e) => {
                &&& final(db)@ == old(db)@
                &&& e == if !old(db)@.has_folder(feed.folder_id) {
                    StoreError::NoSuchFolder
                } else {
                    StoreError::IdSpace
                }
                &&& !old(db)@.has_folder(feed.folder_id) || old(db)@.next_feed == u64::MAX
            },
        },
{
    if db.find_folder(feed.folder_id).is_none() {
        return Err(StoreError::NoSuchFolder);
    }
    if db.next_feed == u64::MAX {
        return Err(StoreError::IdSpace);
    }
    let id = db.next_feed;
    db.feeds.push(
        FeedRow {
            id,
            url: feed.url.clone(),
            name: feed.name.clone(),
            site: None,
            kind: None,
            title: None,
            description: None,
            last_seen: 0,
            folder_id: feed.folder_id,
        },
    );
    db.next_feed = id + 1;
    assert(db@.feeds =~= old(db)@.create_feed(feed@.url, feed@.name, feed.folder_id).feeds);
    proof {
        lemma_create_feed_inv(old(db)@, feed@.url, feed@.name, feed.folder_id);
    }
    Ok(id)
}

/// Deletes the feed with the id of `feed`, its articles and its authors, and
/// returns the number of feeds deleted: 1, or 0 where no feed has that id.
pub fn delete_feed(db: &mut Database, feed: &Feed) -> (changed: usize)
    requires
        old(db).wf(),
    ensures
        final(db).wf(),
        final(db)@ == old(db)@.delete_feed(feed.id),
        changed == if old(db)@.has_feed(feed.id) { 1usize } else { 0usize },
{
    let found = db.find_feed(feed.id);
    remove_feed_row(&mut db.feeds, feed.id);
    remove_articles_of(&mut db.articles, feed.id);
    remove_authors_of(&mut db.authors, feed.id);
    proof {
        lemma_delete_feed_inv(old(db)@, feed.id);
    }
    if found.is_some() {
        1
    } else {
        0
    }
}

/// Gives the feed with the id of `feed` the address and name of `feed` and
/// puts it into the folder that `feed` names. Returns the folder it left (0
/// where it stayed) and the number of feeds changed (1, or 0 where no feed
/// has that id).
pub fn update_feed(db: &mut Database, feed: &Feed) -> (r: Result<(u64, usize), StoreError>)
    requires
        old(db).wf(),
    ensures
        final(db).wf(),
        match r {
            Ok((previous, changed)) => {
                &&& previous == old(db)@.previous_folder(feed.id, feed.folder_id)
                &&& previous != 0 ==> old(db)@.has_folder(feed.folder_id)
                &&& changed == if old(db)@.has_feed(feed.id) { 1usize } else { 0usize }
                &&& final(db)@ == old(db)@.update_feed(
                    feed.id,
                    feed@.url,
                    feed@.name,
                    feed.folder_id,
                )
            },
            Err(e) => {
                &&& e == StoreError::NoSuchFolder
                &&& old(db)@.previous_folder(feed.id, feed.folder_id) != 0
                &&& !old(db)@.has_folder(feed.folder_id)
                &&& final(db)@ == old(db)@
            },
        },
{
    let ghost before = db@;
    let ghost target = before.update_feed(feed.id, feed@.url, feed@.name, feed.folder_id);
    match db.find_feed(feed.id) {
        None => Ok((0, 0)),
        Some(i) => {
            proof {
                lemma_feed_at(before, i as int);
            }
            let previous = db.feeds[i].folder_id;
            if previous == feed.folder_id {
                db.feeds[i].url = feed.url.clone();
                db.feeds[i].name = feed.name.clone();
                assert(db@.feeds =~= target.feeds) by {
                    assert forall|k: int| 0 <= k < before.feeds.len() implies db@.feeds[k]
                        == target.feeds[k] by {
                        if k < i {
                            assert(before.feeds[k].id != before.feeds[i as int].id);
                        } else if k > i {
                            assert(before.feeds[i as int].id != before.feeds[k].id);
                        }
                    }
                }
                proof {
                    lemma_update_feed_inv(
                        before,
                        feed.id,
                        feed@.url,
                        feed@.name,
                        feed.folder_id,
                    );
                }
                Ok((0, 1))
            } else {
                if db.find_folder(feed.folder_id).is_none() {
                    return Err(StoreError::NoSuchFolder);
                }
                let row = &db.feeds[i];
                let moved = FeedRow {
                    id: row.id,
                    url: feed.url.clone(),
                    name: feed.name.clone(),
                    site: row.site.clone(),
                    kind: row.kind,
                    title: row.title.clone(),
                    description: row.description.clone(),
                    last_seen: row.last_seen,
                    folder_id: feed.folder_id,
                };
                remove_feed_row(&mut db.feeds, feed.id);
                db.feeds.push(moved);
                assert(db@.feeds =~= target.feeds);
                proof {
                    lemma_update_feed_inv(
                        before,
                        feed.id,
                        feed@.url,
                        feed@.name,
                        feed.folder_id,
                    );
                }
                Ok((previous, 1))
            }
        },
    }
}

/// Stores what a fetch found out about the feed `id`: its site, its format,
/// its title and its description.
pub fn update_feed_ext(
    db: &mut Database,
    id: u64,
    site: &String,
    kind: FeedType,
    title: Option<String>,
    description: Option<String>,
)
    requires
        old(db).wf(),
    ensures
        final(db).wf(),
        final(db)@ == old(db)@.update_feed_ext(
            id,
            site@,
            kind,
            title.deep_view(),
            description.deep_view(),
        ),
{
    let ghost before = db@;
    let ghost target = before.update_feed_ext(
        id,
        site@,
        kind,
        title.deep_view(),
        description.deep_view(),
    );
    match db.find_feed(id) {
        None => {
            assert(db@.feeds =~= target.feeds);
        },
        Some(i) => {
            db.feeds[i].site = Some(site.clone());
            db.feeds[i].kind = Some(kind);
            db.feeds[i].title = title;
            db.feeds[i].description = description;
            assert(db@.feeds =~= target.feeds) by {
                assert forall|k: int| 0 <= k < before.feeds.len() implies db@.feeds[k]
                    == target.feeds[k] by {
                    if k < i {
                        assert(before.feeds[k].id != before.feeds[i as int].id);
                    } else if k > i {
                        assert(before.feeds[i as int].id != before.feeds[k].id);
                    }
                }
            }
        },
    }
    proof {
        lemma_feed_columns_inv(before, db@);
    }
}

/// Whether the entries of a fetch can be ingested for the feed `id`: the feed
/// exists, unless there is no entry, and ids are left.
fn admit_entries(db: &Database, id: u64, authors: &Vec<Person>, articles: &Vec<Entry>) -> (r:
    Result<(), StoreError>)
    ensures
        match r {
            Ok(()) => {
                &&& db@.has_feed(id) || articles.len() == 0
                &&& db@.fits(articles.deep_view(), authors.deep_view())
            },
            Err(e) => {
                &&& e == if !db@.has_feed(id) && articles.len() > 0 {
                    StoreError::NoSuchFeed
                } else {
                    StoreError::IdSpace
                }
                &&& (!db@.has_feed(id) && articles.len() > 0) || !db@.fits(
                    articles.deep_view(),
                    authors.deep_view(),
                )
            },
        },
{
    if db.find_feed(id).is_none() && articles.len() > 0 {
        return Err(StoreError::NoSuchFeed);
    }
    if articles.len() as u64 > u64::MAX - db.next_article {
        return Err(StoreError::IdSpace);
    }
    match author_demand(articles, authors) {
        None => Err(StoreError::IdSpace),
        Some(n) => {
            if n > u64::MAX - db.next_author {
                Err(StoreError::IdSpace)
            } else {
                Ok(())
            }
        },
    }
}

/// Ingests the entries of a fetch for the feed `id`, in the order given:
/// each is merged into the article stored under its address or added, and
/// credited to its authors. Then the watermark of the feed becomes
/// `feed_published`, which is returned.
pub fn upsert_articles(
    db: &mut Database,
    id: u64,
    site: &String,
    feed_published: i64,
    authors: Vec<Person>,
    articles: Vec<Entry>,
) -> (r: Result<i64, StoreError>)
    requires
        old(db).wf(),
    ensures
        final(db).wf(),
        match r {
            Ok(seen) => {
                &&& seen == feed_published
                &&& old(db)@.has_feed(id) || articles.len() == 0
                &&& old(db)@.fits(articles.deep_view(), authors.deep_view())
                &&& final(db)@ == old(db)@.upsert_articles(
                    id,
                    site@,
                    feed_published,
                    authors.deep_view(),
                    articles.deep_view(),
                )
            },
            Err(e) => {
                &&& final(db)@ == old(db)@
                &&& e == if !old(db)@.has_feed(id) && articles.len() > 0 {
                    StoreError::NoSuchFeed
                } else {
                    StoreError::IdSpace
                }
                &&& (!old(db)@.has_feed(id) && articles.len() > 0) || !old(db)@.fits(
                    articles.deep_view(),
                    authors.deep_view(),
                )
            },
        },
{
    let ghost before = db@;
    let ghost all = articles.deep_view();
    let ghost fa = authors.deep_view();
    let found = db.find_feed(id);
    match admit_entries(db, id, &authors, &articles) {
        Err(e) => {
            return Err(e);
        },
        Ok(()) => {},
    }
    let mut n: usize = 0;
    while n < articles.len()
        invariant
            n <= articles.len(),
            all == articles.deep_view(),
            fa == authors.deep_view(),
            before.inv(),
            before.has_feed(id) || articles.len() == 0,
            before.fits(all, fa),
            db.wf(),
            db@ == before.ingest_entries(id, site@, feed_published, fa, all.take(n as int)),
        decreases articles.len() - n,
    {
        let ghost done = all.take(n as int);
        let ghost now = db@;
        let e = &articles[n];
        proof {
            assert(all.take(n + 1).drop_last() =~= done);
            lemma_demand_grows(all, fa, n as int);
            lemma_demand_grows(all, fa, n + 1);
            lemma_ingest_entries_inv(before, id, site@, feed_published, fa, done);
            lemma_same_feeds(before, now, id);
        }
        let inc = resolve(site.as_str(), feed_published, e);
        let i = db.store_article(id, inc);
        proof {
            lemma_upsert_article_inv(now, id, incoming(site@, feed_published, e@));
            lemma_same_feeds(now, db@, id);
        }
        if e.authors.len() > 0 {
            assert(e.authors.deep_view().take(e.authors.len() as int) =~= e@.authors);
            db.credit(i, id, &e.authors, e.authors.len());
        } else if authors.len() > 0 {
            assert(fa.take(1) =~= seq![fa[0]]);
            db.credit(i, id, &authors, 1);
        } else {
            db.credit(i, id, &authors, 0);
        }
        n += 1;
    }
    assert(all.take(articles.len() as int) =~= all);
    let ghost stored = db@;
    match found {
        None => {
            assert(db@.feeds =~= stored.set_last_seen(id, feed_published).feeds);
        },
        Some(k) => {
            proof {
                lemma_ingest_entries_inv(before, id, site@, feed_published, fa, all);
            }
            db.feeds[k].last_seen = feed_published;
            assert(db@.feeds =~= stored.set_last_seen(id, feed_published).feeds) by {
                assert forall|j: int| 0 <= j < stored.feeds.len() implies db@.feeds[j]
                    == stored.set_last_seen(id, feed_published).feeds[j] by {
                    if j < k {
                        assert(stored.feeds[j].id != stored.feeds[k as int].id);
                    } else if j > k {
                        assert(stored.feeds[k as int].id != stored.feeds[j].id);
                    }
                }
            }
        },
    }
    proof {
        lemma_upsert_articles_inv(before, id, site@, feed_published, fa, all);
    }
    Ok(feed_published)
}

/// Stores a fetch of `feed`: first what the fetch found out about the feed,
/// then its entries, in the order given, and the new watermark `published`,
/// which is returned. Where the entries cannot be ingested nothing is stored.
pub fn update_feed_ext_and_upsert_articles(
    db: &mut Database,
    feed: &Feed,
    site: &String,
    kind: FeedType,
    title: Option<String>,
    description: Option<String>,
    published: i64,
    authors: Vec<Person>,
    articles: Vec<Entry>,
) -> (r: Result<i64, StoreError>)
    requires
        old(db).wf(),
    ensures
        final(db).wf(),
        match r {
            Ok(seen) => {
                &&& seen == published
                &&& old(db)@.has_feed(feed.id) || articles.len() == 0
                &&& old(db)@.fits(articles.deep_view(), authors.deep_view())
                &&& final(db)@ == old(db)@.update_feed_ext(
                    feed.id,
                    site@,
                    kind,
                    title.deep_view(),
                    description.deep_view(),
                ).upsert_articles(
                    feed.id,
                    site@,
                    published,
                    authors.deep_view(),
                    articles.deep_view(),
                )
            },
            Err(e) => {
                &&& final(db)@ == old(db)@
                &&& e == if !old(db)@.has_feed(feed.id) && articles.len() > 0 {
                    StoreError::NoSuchFeed
                } else {
                    StoreError::IdSpace
                }
                &&& (!old(db)@.has_feed(feed.id) && articles.len() > 0) || !old(db)@.fits(
                    articles.deep_view(),
                    authors.deep_view(),
                )
            },
        },
{
    let ghost before = db@;
    match admit_entries(db, feed.id, &authors, &articles) {
        Err(e) => {
            return Err(e);
        },
        Ok(()) => {},
    }
    update_feed_ext(db, feed.id, site, kind, title, description);
    proof {
        lemma_feed_columns_keep(before, db@, feed.id);
    }
    let stored = upsert_articles(db, feed.id, site, published, authors, articles);
    stored
}

/// The next id of each table.
#[derive(Clone, Copy, Debug, PartialEq, Eq)]
pub struct Counters {
    pub folder: u64,
    pub feed: u64,
    pub article: u64,
    pub author: u64,
}

/// The store that holds these tables and next ids.
pub open spec fn assembled(
    folders: Seq<FolderRowView>,
    feeds: Seq<FeedRowView>,
    articles: Seq<ArticleRowView>,
    authors: Seq<AuthorRowView>,
    next: Counters,
) -> DatabaseView {
    DatabaseView {
        folders,
        feeds,
        articles,
        authors,
        next_folder: next.folder,
        next_feed: next.feed,
        next_article: next.article,
        next_author: next.author,
    }
}

/// Ids are at least 1 and below `next`.
spec fn bounded(ids: Seq<u64>, next: u64) -> bool {
    forall|i: int| 0 <= i < ids.len() ==> 1 <= #[trigger] ids[i] < next
}

/// Ids grow along the table.
spec fn increasing(ids: Seq<u64>) -> bool {
    forall|i: int, j: int| 0 <= i < j < ids.len() ==> #[trigger] ids[i] < #[trigger] ids[j]
}

/// No id stands twice.
spec fn distinct(ids: Seq<u64>) -> bool {
    forall|i: int, j: int| 0 <= i < j < ids.len() ==> #[trigger] ids[i] != #[trigger] ids[j]
}

fn is_bounded(ids: &Vec<u64>, next: u64) -> (r: bool)
    ensures
        r == bounded(ids@, next),
{
    let mut i: usize = 0;
    while i < ids.len()
        invariant
            i <= ids.len(),
            forall|k: int| 0 <= k < i ==> 1 <= #[trigger] ids[k] < next,
        decreases ids.len() - i,
    {
        if ids[i] < 1 || ids[i] >= next {
            return false;
        }
        i += 1;
    }
    true
}

fn is_increasing(ids: &Vec<u64>) -> (r: bool)
    ensures
        r == increasing(ids@),
{
    if ids.len() == 0 {
        return true;
    }
    let mut i: usize = 1;
    while i < ids.len()
        invariant
            1 <= i <= ids.len(),
            forall|a: int, b: int| 0 <= a < b < i ==> #[trigger] ids[a] < #[trigger] ids[b],
        decreases ids.len() - i,
    {
        if ids[i - 1] >= ids[i] {
            return false;
        }
        i += 1;
    }
    true
}

fn is_distinct(ids: &Vec<u64>) -> (r: bool)
    ensures
        r == distinct(ids@),
{
    let mut j: usize = 0;
    while j < ids.len()
        invariant
            j <= ids.len(),
            forall|a: int, b: int| 0 <= a < b < j ==> #[trigger] ids[a] != #[trigger] ids[b],
        decreases ids.len() - j,
    {
        let mut i: usize = 0;
        while i < j
            invariant
                i <= j < ids.len(),
                forall|a: int| 0 <= a < i ==> #[trigger] ids[a] != ids[j as int],
            decreases j - i,
        {
            if ids[i] == ids[j] {
                return false;
            }
            i += 1;
        }
        j += 1;
    }
    true
}

impl Database {
    fn folder_ids(&self) -> (r: Vec<u64>)
        ensures
            r@.len() == self@.folders.len(),
            forall|i: int| 0 <= i < r@.len() ==> #[trigger] r@[i] == self@.folders[i].id,
    {
        let mut out: Vec<u64> = Vec::new();
        let mut i: usize = 0;
        while i < self.folders.len()
            invariant
                i <= self.folders.len(),
                out@.len() == i,
                forall|k: int| 0 <= k < i ==> #[trigger] out@[k] == self@.folders[k].id,
            decreases self.folders.len() - i,
        {
            out.push(self.folders[i].id);
            i += 1;
        }
        out
    }

    fn feed_ids(&self) -> (r: Vec<u64>)
        ensures
            r@.len() == self@.feeds.len(),
            forall|i: int| 0 <= i < r@.len() ==> #[trigger] r@[i] == self@.feeds[i].id,
    {
        let mut out: Vec<u64> = Vec::new();
        let mut i: usize = 0;
        while i < self.feeds.len()
            invariant
                i <= self.feeds.len(),
                out@.len() == i,
                forall|k: int| 0 <= k < i ==> #[trigger] out@[k] == self@.feeds[k].id,
            decreases self.feeds.len() - i,
        {
            out.push(self.feeds[i].id);
            i += 1;
        }
        out
    }

    fn article_ids(&self) -> (r: Vec<u64>)
        ensures
            r@.len() == self@.articles.len(),
            forall|i: int| 0 <= i < r@.len() ==> #[trigger] r@[i] == self@.articles[i].id,
    {
        let mut out: Vec<u64> = Vec::new();
        let mut i: usize = 0;
        while i < self.articles.len()
            invariant
                i <= self.articles.len(),
                out@.len() == i,
                forall|k: int| 0 <= k < i ==> #[trigger] out@[k] == self@.articles[k].id,
            decreases self.articles.len() - i,
        {
            out.push(self.articles[i].id);
            i += 1;
        }
        out
    }

    fn author_ids(&self) -> (r: Vec<u64>)
        ensures
            r@.len() == self@.authors.len(),
            forall|i: int| 0 <= i < r@.len() ==> #[trigger] r@[i] == self@.authors[i].id,
    {
        let mut out: Vec<u64> = Vec::new();
        let mut i: usize = 0;
        while i < self.authors.len()
            invariant
                i <= self.authors.len(),
                out@.len() == i,
                forall|k: int| 0 <= k < i ==> #[trigger] out@[k] == self@.authors[k].id,
            decreases self.authors.len() - i,
        {
            out.push(self.authors[i].id);
            i += 1;
        }
        out
    }

    /// Whether every feed is in a folder that exists.
    fn feeds_are_housed(&self) -> (r: bool)
        ensures
            r == (forall|i: int|
                0 <= i < self@.feeds.len() ==> self@.has_folder(
                    #[trigger] self@.feeds[i].folder_id,
                )),
    {
        let mut i: usize = 0;
        while i < self.feeds.len()
            invariant
                i <= self.feeds.len(),
                forall|k: int|
                    0 <= k < i ==> self@.has_folder(#[trigger] self@.feeds[k].folder_id),
            decreases self.feeds.len() - i,
        {
            assert(self@.feeds[i as int].folder_id == self.feeds[i as int].folder_id);
            if self.find_folder(self.feeds[i].folder_id).is_none() {
                return false;
            }
            i += 1;
        }
        true
    }

    /// Whether every article and every author belongs to a feed that exists.
    fn rows_are_owned(&self) -> (r: bool)
        ensures
            r == ((forall|i: int|
                0 <= i < self@.articles.len() ==> self@.has_feed(
                    #[trigger] self@.articles[i].feed_id,
                )) && (forall|i: int|
                0 <= i < self@.authors.len() ==> self@.has_feed(
                    #[trigger] self@.authors[i].feed_id,
                ))),
    {
        let mut i: usize = 0;
        while i < self.articles.len()
            invariant
                i <= self.articles.len(),
                forall|k: int|
                    0 <= k < i ==> self@.has_feed(#[trigger] self@.articles[k].feed_id),
            decreases self.articles.len() - i,
        {
            assert(self@.articles[i as int].feed_id == self.articles[i as int].feed_id);
            if self.find_feed(self.articles[i].feed_id).is_none() {
                return false;
            }
            i += 1;
        }
        let mut j: usize = 0;
        while j < self.authors.len()
            invariant
                j <= self.authors.len(),
                forall|k: int|
                    0 <= k < self@.articles.len() ==> self@.has_feed(
                        #[trigger] self@.articles[k].feed_id,
                    ),
                forall|k: int| 0 <= k < j ==> self@.has_feed(#[trigger] self@.authors[k].feed_id),
            decreases self.authors.len() - j,
        {
            assert(self@.authors[j as int].feed_id == self.authors[j as int].feed_id);
            if self.find_feed(self.authors[j].feed_id).is_none() {
                return false;
            }
            j += 1;
        }
        true
    }

    /// Whether no feed holds two articles under one address.
    fn addresses_are_unique(&self) -> (r: bool)
        ensures
            r == (forall|i: int, j: int|
                0 <= i < j < self@.articles.len() ==> !(#[trigger] self@.articles[i].feed_id
                    == #[trigger] self@.articles[j].feed_id && self@.articles[i].url
                    == self@.articles[j].url)),
    {
        let mut j: usize = 0;
        while j < self.articles.len()
            invariant
                j <= self.articles.len(),
                forall|a: int, b: int|
                    0 <= a < b < j ==> !(#[trigger] self@.articles[a].feed_id
                        == #[trigger] self@.articles[b].feed_id && self@.articles[a].url
                        == self@.articles[b].url),
            decreases self.articles.len() - j,
        {
            let mut i: usize = 0;
            while i < j
                invariant
                    i <= j < self.articles.len(),
                    forall|a: int|
                        0 <= a < i ==> !(#[trigger] self@.articles[a].feed_id
                            == self@.articles[j as int].feed_id && self@.articles[a].url
                            == self@.articles[j as int].url),
                decreases j - i,
            {
                if self.articles[i].feed_id == self.articles[j].feed_id && same(
                    self.articles[i].url.as_str(),
                    self.articles[j].url.as_str(),
                ) {
                    assert(self@.articles[i as int].feed_id == self@.articles[j as int].feed_id
                        && self@.articles[i as int].url == self@.articles[j as int].url);
                    return false;
                }
                i += 1;
            }
            j += 1;
        }
        true
    }

    /// Whether no feed holds two authors under one name.
    fn names_are_unique(&self) -> (r: bool)
        ensures
            r == (forall|i: int, j: int|
                0 <= i < j < self@.authors.len() ==> !(#[trigger] self@.authors[i].feed_id
                    == #[trigger] self@.authors[j].feed_id && self@.authors[i].name
                    == self@.authors[j].name)),
    {
        let mut j: usize = 0;
        while j < self.authors.len()
            invariant
                j <= self.authors.len(),
                forall|a: int, b: int|
                    0 <= a < b < j ==> !(#[trigger] self@.authors[a].feed_id
                        == #[trigger] self@.authors[b].feed_id && self@.authors[a].name
                        == self@.authors[b].name),
            decreases self.authors.len() - j,
        {
            let mut i: usize = 0;
            while i < j
                invariant
                    i <= j < self.authors.len(),
                    forall|a: int|
                        0 <= a < i ==> !(#[trigger] self@.authors[a].feed_id
                            == self@.authors[j as int].feed_id && self@.authors[a].name
                            == self@.authors[j as int].name),
                decreases j - i,
            {
                if self.authors[i].feed_id == self.authors[j].feed_id && same(
                    self.authors[i].name.as_str(),
                    self.authors[j].name.as_str(),
                ) {
                    assert(self@.authors[i as int].feed_id == self@.authors[j as int].feed_id
                        && self@.authors[i as int].name == self@.authors[j as int].name);
                    return false;
                }
                i += 1;
            }
            j += 1;
        }
        true
    }

    /// Whether the author `id` belongs to the feed `feed_id`.
    fn is_author_of(&self, feed_id: u64, id: u64) -> (r: bool)
        ensures
            r == self@.has_author_of(feed_id, id),
    {
        let mut j: usize = 0;
        while j < self.authors.len()
            invariant
                j <= self.authors.len(),
                forall|k: int|
                    0 <= k < j ==> !((#[trigger] self@.authors[k]).id == id
                        && self@.authors[k].feed_id == feed_id),
            decreases self.authors.len() - j,
        {
            assert(self@.authors[j as int] == self.authors[j as int]@);
            if self.authors[j].id == id && self.authors[j].feed_id == feed_id {
                return true;
            }
            j += 1;
        }
        false
    }

    /// Whether every link leads to an author of the feed of its article, and
    /// no article is linked to an author twice.
    fn links_are_sound(&self) -> (r: bool)
        ensures
            r == self@.links_hold(),
    {
        let mut i: usize = 0;
        while i < self.articles.len()
            invariant
                i <= self.articles.len(),
                forall|a: int, k: int|
                    0 <= a < i && 0 <= k < self@.articles[a].authors.len()
                        ==> self@.has_author_of(
                        self@.articles[a].feed_id,
                        #[trigger] self@.articles[a].authors[k],
                    ),
                forall|a: int| 0 <= a < i ==> (#[trigger] self@.articles[a]).authors.no_duplicates(),
            decreases self.articles.len() - i,
        {
            assert(self@.articles[i as int] == self.articles[i as int]@);
            let row = &self.articles[i];
            if !is_distinct(&row.authors) {
                return false;
            }
            let mut k: usize = 0;
            while k < row.authors.len()
                invariant
                    k <= row.authors.len(),
                    i < self.articles.len(),
                    row == &self.articles[i as int],
                    self@.articles[i as int] == row@,
                    forall|n: int|
                        0 <= n < k ==> self@.has_author_of(row.feed_id, #[trigger] row.authors@[n]),
                decreases row.authors.len() - k,
            {
                if !self.is_author_of(row.feed_id, row.authors[k]) {
                    return false;
                }
                k += 1;
            }
            i += 1;
        }
        true
    }

    /// Whether the tables obey the constraints of the schema.
    fn obeys_schema(&self) -> (r: bool)
        ensures
            r == self@.inv(),
    {
        if self.folders.len() == 0 || self.folders[0].id != DEFAULT_FOLDER {
            return false;
        }
        if self.next_feed < 1 || self.next_article < 1 || self.next_author < 1 {
            return false;
        }
        let folders = self.folder_ids();
        let feeds = self.feed_ids();
        let articles = self.article_ids();
        let authors = self.author_ids();
        let ids_hold = is_bounded(&folders, self.next_folder) && is_increasing(&folders)
            && is_bounded(&feeds, self.next_feed) && is_distinct(&feeds) && is_bounded(
            &articles,
            self.next_article,
        ) && is_increasing(&articles) && is_bounded(&authors, self.next_author) && is_increasing(
            &authors,
        );
        proof {
            assert(bounded(folders@, self.next_folder) == (forall|i: int|
                0 <= i < self@.folders.len() ==> 1 <= #[trigger] self@.folders[i].id
                    < self@.next_folder)) by {
                if bounded(folders@, self.next_folder) {
                    assert forall|i: int| 0 <= i < self@.folders.len() implies 1
                        <= #[trigger] self@.folders[i].id < self@.next_folder by {
                        assert(folders@[i] == self@.folders[i].id);
                    }
                }
            }
            assert(increasing(folders@) == (forall|i: int, j: int|
                0 <= i < j < self@.folders.len() ==> #[trigger] self@.folders[i].id
                    < #[trigger] self@.folders[j].id)) by {
                if increasing(folders@) {
                    assert forall|i: int, j: int|
                        0 <= i < j < self@.folders.len() implies #[trigger] self@.folders[i].id
                        < #[trigger] self@.folders[j].id by {
                        assert(folders@[i] < folders@[j]);
                    }
                }
            }
            assert(bounded(feeds@, self.next_feed) == (forall|i: int|
                0 <= i < self@.feeds.len() ==> 1 <= #[trigger] self@.feeds[i].id
                    < self@.next_feed)) by {
                if bounded(feeds@, self.next_feed) {
                    assert forall|i: int| 0 <= i < self@.feeds.len() implies 1
                        <= #[trigger] self@.feeds[i].id < self@.next_feed by {
                        assert(feeds@[i] == self@.feeds[i].id);
                    }
                }
            }
            assert(distinct(feeds@) == (forall|i: int, j: int|
                0 <= i < j < self@.feeds.len() ==> #[trigger] self@.feeds[i].id
                    != #[trigger] self@.feeds[j].id)) by {
                if distinct(feeds@) {
                    assert forall|i: int, j: int|
                        0 <= i < j < self@.feeds.len() implies #[trigger] self@.feeds[i].id
                        != #[trigger] self@.feeds[j].id by {
                        assert(feeds@[i] != feeds@[j]);
                    }
                }
            }
            assert(bounded(articles@, self.next_article) == (forall|i: int|
                0 <= i < self@.articles.len() ==> 1 <= #[trigger] self@.articles[i].id
                    < self@.next_article)) by {
                if bounded(articles@, self.next_article) {
                    assert forall|i: int| 0 <= i < self@.articles.len() implies 1
                        <= #[trigger] self@.articles[i].id < self@.next_article by {
                        assert(articles@[i] == self@.articles[i].id);
                    }
                }
            }
            assert(increasing(articles@) == (forall|i: int, j: int|
                0 <= i < j < self@.articles.len() ==> #[trigger] self@.articles[i].id
                    < #[trigger] self@.articles[j].id)) by {
                if increasing(articles@) {
                    assert forall|i: int, j: int|
                        0 <= i < j < self@.articles.len() implies #[trigger] self@.articles[i].id
                        < #[trigger] self@.articles[j].id by {
                        assert(articles@[i] < articles@[j]);
                    }
                }
            }
            assert(bounded(authors@, self.next_author) == (forall|i: int|
                0 <= i < self@.authors.len() ==> 1 <= #[trigger] self@.authors[i].id
                    < self@.next_author)) by {
                if bounded(authors@, self.next_author) {
                    assert forall|i: int| 0 <= i < self@.authors.len() implies 1
                        <= #[trigger] self@.authors[i].id < self@.next_author by {
                        assert(authors@[i] == self@.authors[i].id);
                    }
                }
            }
            assert(increasing(authors@) == (forall|i: int, j: int|
                0 <= i < j < self@.authors.len() ==> #[trigger] self@.authors[i].id
                    < #[trigger] self@.authors[j].id)) by {
                if increasing(authors@) {
                    assert forall|i: int, j: int|
                        0 <= i < j < self@.authors.len() implies #[trigger] self@.authors[i].id
                        < #[trigger] self@.authors[j].id by {
                        assert(authors@[i] < authors@[j]);
                    }
                }
            }
        }
        if !ids_hold {
            return false;
        }
        self.feeds_are_housed() && self.rows_are_owned() && self.addresses_are_unique()
            && self.names_are_unique() && self.links_are_sound()
    }
}

/// Takes up stored tables as the store, where they obey the constraints of
/// the schema.
pub fn init(
    folders: Vec<FolderRow>,
    feeds: Vec<FeedRow>,
    articles: Vec<ArticleRow>,
    authors: Vec<AuthorRow>,
    next: Counters,
) -> (r: Result<Database, StoreError>)
    ensures
        match r {
            Ok(db) => db.wf() && db@ == assembled(
                folders.deep_view(),
                feeds.deep_view(),
                articles.deep_view(),
                authors.deep_view(),
                next,
            ),
            Err(e) => e == StoreError::Constraint && !assembled(
                folders.deep_view(),
                feeds.deep_view(),
                articles.deep_view(),
                authors.deep_view(),
                next,
            ).inv(),
        },
{
    let db = Database {
        folders,
        feeds,
        articles,
        authors,
        next_folder: next.folder,
        next_feed: next.feed,
        next_article: next.article,
        next_author: next.author,
    };
    if db.obeys_schema() {
        Ok(db)
    } else {
        Err(StoreError::Constraint)
    }
}

} // verus!
