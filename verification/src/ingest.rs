//! Reconciling the entries of a fetched document with the store: what an
//! entry brings, how it merges with the article stored under the same
//! address, and whom it is attributed to.

use vstd::prelude::*;
use vstd::string::*;

use crate::document::{Entry, EntryView, PersonView};
use crate::schema::{
    lemma_feed_at, lemma_feed_columns_inv, lemma_same_folders, ArticleRowView, AuthorRowView,
    DatabaseView,
};
use crate::text::{
    is_prefix, starts_with, trim, trim_end_matches, trim_start_matches, trimmed, without_leading,
    without_trailing,
};

verus! {

/// What an entry brings to the table of articles.
#[derive(Debug, PartialEq, Eq)]
pub struct Incoming {
    pub url: String,
    pub title: String,
    pub content: String,
    /// When the entry says it was published, or, lacking that, changed.
    pub published: Option<i64>,
    /// When the entry says it was changed.
    pub updated: Option<i64>,
    /// The date of an entry that is new to the store and says none.
    pub fallback: i64,
}

/// Mathematical value of an [`Incoming`].
pub struct IncomingView {
    pub url: Seq<char>,
    pub title: Seq<char>,
    pub content: Seq<char>,
    pub published: Option<i64>,
    pub updated: Option<i64>,
    pub fallback: i64,
}

impl IncomingView {
    /// When an article that is new to the store was published: as the entry
    /// says, else the fallback.
    pub open spec fn created(self) -> i64 {
        match self.published {
            Some(t) => t,
            None => self.fallback,
        }
    }

    /// When an article that is new to the store last changed: as the entry
    /// says, else when it was published.
    pub open spec fn changed(self) -> i64 {
        match self.updated {
            Some(t) => t,
            None => self.created(),
        }
    }
}

impl DeepView for Incoming {
    type V = IncomingView;

    open spec fn deep_view(&self) -> IncomingView {
        IncomingView {
            url: self.url@,
            title: self.title@,
            content: self.content@,
            published: self.published,
            updated: self.updated,
            fallback: self.fallback,
        }
    }
}

impl View for Incoming {
    type V = IncomingView;

    open spec fn view(&self) -> IncomingView {
        self.deep_view()
    }
}

/// Where an entry points: its first link, or its identifier where it has no
/// link.
pub open spec fn entry_path(e: EntryView) -> Seq<char> {
    if e.links.len() > 0 {
        e.links[0].href
    } else {
        e.id
    }
}

/// `path` as an address under `site`: itself where it begins with `site`,
/// else `site` and `path` joined by one `/`.
pub open spec fn joined(site: Seq<char>, path: Seq<char>) -> Seq<char> {
    if is_prefix(site, path) {
        path
    } else {
        without_trailing(site, '/').push('/') + without_leading(path, '/')
    }
}

/// The address under which an entry is stored.
pub open spec fn article_url(site: Seq<char>, e: EntryView) -> Seq<char> {
    joined(site, entry_path(e))
}

/// When an entry says it was published: its date of publication, else of
/// its last change.
pub open spec fn article_published(e: EntryView) -> Option<i64> {
    match e.published {
        Some(t) => Some(t),
        None => e.updated,
    }
}

/// The title of an entry without white space around it, empty where it has
/// none.
pub open spec fn article_title(e: EntryView) -> Seq<char> {
    match e.title {
        Some(t) => trimmed(t),
        None => Seq::empty(),
    }
}

/// The text of an entry: its body, else its summary, else nothing.
pub open spec fn article_content(e: EntryView) -> Seq<char> {
    match e.content {
        Some(c) => c,
        None => match e.summary {
            Some(s) => s,
            None => Seq::empty(),
        },
    }
}

/// What the entry `e` of a document fetched for `site` brings.
pub open spec fn incoming(site: Seq<char>, fallback: i64, e: EntryView) -> IncomingView {
    IncomingView {
        url: article_url(site, e),
        title: article_title(e),
        content: article_content(e),
        published: article_published(e),
        updated: e.updated,
        fallback,
    }
}

/// Whom an entry is attributed to: the authors it names, else the first
/// author of the document, else nobody.
pub open spec fn attributed(e: EntryView, feed_authors: Seq<PersonView>) -> Seq<PersonView> {
    if e.authors.len() > 0 {
        e.authors
    } else if feed_authors.len() > 0 {
        seq![feed_authors[0]]
    } else {
        Seq::empty()
    }
}

/// How many authors the entries are attributed to, counted once per entry.
pub open spec fn demand(entries: Seq<EntryView>, feed_authors: Seq<PersonView>) -> nat
    decreases entries.len(),
{
    if entries.len() == 0 {
        0
    } else {
        demand(entries.drop_last(), feed_authors) + attributed(entries.last(), feed_authors).len()
    }
}

/// The later of two timestamps.
pub open spec fn later(a: i64, b: i64) -> i64 {
    if a >= b {
        a
    } else {
        b
    }
}

/// The stored article `row` after `inc` came in under the same address:
/// title and text are those of `inc`. A timestamp that `inc` lacks stays as
/// it is, and neither timestamp goes back.
pub open spec fn merged(row: ArticleRowView, inc: IncomingView) -> ArticleRowView {
    ArticleRowView {
        title: inc.title,
        content: inc.content,
        created: match inc.published {
            Some(t) => later(row.created, t),
            None => row.created,
        },
        updated: match inc.updated {
            Some(t) => later(row.updated, t),
            None => row.updated,
        },
        ..row
    }
}

impl DatabaseView {
    /// Whether the feed `feed_id` holds an article under `url`.
    pub open spec fn has_article(self, feed_id: u64, url: Seq<char>) -> bool {
        exists|i: int|
            0 <= i < self.articles.len() && (#[trigger] self.articles[i]).feed_id == feed_id
                && self.articles[i].url == url
    }

    /// Where the article of the feed `feed_id` under `url` stands.
    /// Meaningful where `has_article(feed_id, url)`.
    pub open spec fn article_index(self, feed_id: u64, url: Seq<char>) -> int {
        choose|i: int|
            0 <= i < self.articles.len() && (#[trigger] self.articles[i]).feed_id == feed_id
                && self.articles[i].url == url
    }

    /// Whether the feed `feed_id` holds an author under `name`.
    pub open spec fn has_author(self, feed_id: u64, name: Seq<char>) -> bool {
        exists|i: int|
            0 <= i < self.authors.len() && (#[trigger] self.authors[i]).feed_id == feed_id
                && self.authors[i].name == name
    }

    /// Where the author `name` of the feed `feed_id` stands. Meaningful where
    /// `has_author(feed_id, name)`.
    pub open spec fn author_index(self, feed_id: u64, name: Seq<char>) -> int {
        choose|i: int|
            0 <= i < self.authors.len() && (#[trigger] self.authors[i]).feed_id == feed_id
                && self.authors[i].name == name
    }

    /// After `inc` came in for the feed `feed_id`: merged into the article
    /// stored under its address, or added as a new article.
    pub open spec fn upsert_article(self, feed_id: u64, inc: IncomingView) -> DatabaseView {
        if self.has_article(feed_id, inc.url) {
            let i = self.article_index(feed_id, inc.url);
            DatabaseView { articles: self.articles.update(i, merged(self.articles[i], inc)), ..self }
        } else {
            DatabaseView {
                articles: self.articles.push(
                    ArticleRowView {
                        id: self.next_article,
                        feed_id,
                        url: inc.url,
                        title: inc.title,
                        content: inc.content,
                        created: inc.created(),
                        updated: inc.changed(),
                        authors: Seq::empty(),
                    },
                ),
                next_article: (self.next_article + 1) as u64,
                ..self
            }
        }
    }

    /// After `person` was named as an author in the feed `feed_id`: the
    /// author stored under that name took the new contact details, or a new
    /// author was added.
    pub open spec fn upsert_author(self, feed_id: u64, person: PersonView) -> DatabaseView {
        if self.has_author(feed_id, person.name) {
            let i = self.author_index(feed_id, person.name);
            DatabaseView {
                authors: self.authors.update(
                    i,
                    AuthorRowView { email: person.email, url: person.uri, ..self.authors[i] },
                ),
                ..self
            }
        } else {
            DatabaseView {
                authors: self.authors.push(
                    AuthorRowView {
                        id: self.next_author,
                        feed_id,
                        name: person.name,
                        email: person.email,
                        url: person.uri,
                    },
                ),
                next_author: (self.next_author + 1) as u64,
                ..self
            }
        }
    }

    /// After the author `author` was linked to the article of the feed
    /// `feed_id` under `url`. A link that exists is not made again.
    pub open spec fn link(self, feed_id: u64, url: Seq<char>, author: u64) -> DatabaseView {
        if self.has_article(feed_id, url) {
            let i = self.article_index(feed_id, url);
            let row = self.articles[i];
            if row.authors.contains(author) {
                self
            } else {
                DatabaseView {
                    articles: self.articles.update(
                        i,
                        ArticleRowView { authors: row.authors.push(author), ..row },
                    ),
                    ..self
                }
            }
        } else {
            self
        }
    }

    /// After each of `persons`, in order, was stored as an author of the feed
    /// and linked to the article under `url`.
    pub open spec fn credit(
        self,
        feed_id: u64,
        url: Seq<char>,
        persons: Seq<PersonView>,
    ) -> DatabaseView
        decreases persons.len(),
    {
        if persons.len() == 0 {
            self
        } else {
            let stored = self.credit(feed_id, url, persons.drop_last()).upsert_author(
                feed_id,
                persons.last(),
            );
            stored.link(
                feed_id,
                url,
                stored.authors[stored.author_index(feed_id, persons.last().name)].id,
            )
        }
    }

    /// After one entry was ingested for the feed `feed_id`.
    pub open spec fn ingest_entry(
        self,
        feed_id: u64,
        site: Seq<char>,
        fallback: i64,
        feed_authors: Seq<PersonView>,
        e: EntryView,
    ) -> DatabaseView {
        self.upsert_article(feed_id, incoming(site, fallback, e)).credit(
            feed_id,
            article_url(site, e),
            attributed(e, feed_authors),
        )
    }

    /// After the entries were ingested for the feed `feed_id`, in order.
    pub open spec fn ingest_entries(
        self,
        feed_id: u64,
        site: Seq<char>,
        fallback: i64,
        feed_authors: Seq<PersonView>,
        entries: Seq<EntryView>,
    ) -> DatabaseView
        decreases entries.len(),
    {
        if entries.len() == 0 {
            self
        } else {
            self.ingest_entries(
                feed_id,
                site,
                fallback,
                feed_authors,
                entries.drop_last(),
            ).ingest_entry(feed_id, site, fallback, feed_authors, entries.last())
        }
    }

    /// After a fetch of the feed `feed_id` was stored: the entries ingested
    /// in order, then the watermark of the feed set to `published`.
    pub open spec fn upsert_articles(
        self,
        feed_id: u64,
        site: Seq<char>,
        published: i64,
        feed_authors: Seq<PersonView>,
        entries: Seq<EntryView>,
    ) -> DatabaseView {
        self.ingest_entries(feed_id, site, published, feed_authors, entries).set_last_seen(
            feed_id,
            published,
        )
    }

    /// Whether ids are left for every article and author that the entries
    /// could add.
    pub open spec fn fits(self, entries: Seq<EntryView>, feed_authors: Seq<PersonView>) -> bool {
        &&& self.next_article + entries.len() <= u64::MAX
        &&& self.next_author + demand(entries, feed_authors) <= u64::MAX
    }
}

/// Where the addresses of articles are distinct within a feed, the article
/// under an address is the row that holds it.
pub proof fn lemma_article_at(db: DatabaseView, i: int)
    requires
        db.inv(),
        0 <= i < db.articles.len(),
    ensures
        db.has_article(db.articles[i].feed_id, db.articles[i].url),
        db.article_index(db.articles[i].feed_id, db.articles[i].url) == i,
{
    let k = db.article_index(db.articles[i].feed_id, db.articles[i].url);
    if k < i {
        assert(!(db.articles[k].feed_id == db.articles[i].feed_id && db.articles[k].url
            == db.articles[i].url));
    } else if i < k {
        assert(!(db.articles[i].feed_id == db.articles[k].feed_id && db.articles[i].url
            == db.articles[k].url));
    }
}

/// Where the names of authors are distinct within a feed, the author under a
/// name is the row that holds it.
pub proof fn lemma_author_at(db: DatabaseView, i: int)
    requires
        db.inv(),
        0 <= i < db.authors.len(),
    ensures
        db.has_author(db.authors[i].feed_id, db.authors[i].name),
        db.author_index(db.authors[i].feed_id, db.authors[i].name) == i,
{
    let k = db.author_index(db.authors[i].feed_id, db.authors[i].name);
    if k < i {
        assert(!(db.authors[k].feed_id == db.authors[i].feed_id && db.authors[k].name
            == db.authors[i].name));
    } else if i < k {
        assert(!(db.authors[i].feed_id == db.authors[k].feed_id && db.authors[i].name
            == db.authors[k].name));
    }
}

/// A change that leaves folders and feeds alone keeps every reference to
/// them.
pub proof fn lemma_same_feeds(db: DatabaseView, after: DatabaseView, id: u64)
    requires
        db.has_feed(id),
        after.feeds == db.feeds,
    ensures
        after.has_feed(id),
{
    let k = choose|k: int| 0 <= k < db.feeds.len() && #[trigger] db.feeds[k].id == id;
    assert(after.feeds[k].id == id);
}

/// Storing an article of a feed that exists keeps the constraints of the
/// schema, uses at most one id, and leaves the other tables alone.
pub proof fn lemma_upsert_article_inv(db: DatabaseView, feed_id: u64, inc: IncomingView)
    requires
        db.inv(),
        db.has_feed(feed_id),
        db.has_article(feed_id, inc.url) || db.next_article < u64::MAX,
    ensures
        db.upsert_article(feed_id, inc).inv(),
        db.upsert_article(feed_id, inc).has_article(feed_id, inc.url),
        db.upsert_article(feed_id, inc).next_article <= db.next_article + 1,
        db.upsert_article(feed_id, inc) == (DatabaseView {
            articles: db.upsert_article(feed_id, inc).articles,
            next_article: db.upsert_article(feed_id, inc).next_article,
            ..db
        }),
{
    let after = db.upsert_article(feed_id, inc);
    assert forall|i: int| 0 <= i < after.feeds.len() implies after.has_folder(
        #[trigger] after.feeds[i].folder_id,
    ) by {
        lemma_same_folders(db, after, db.feeds[i].folder_id);
    }
    assert forall|i: int| 0 <= i < after.authors.len() implies after.has_feed(
        #[trigger] after.authors[i].feed_id,
    ) by {
        lemma_same_feeds(db, after, db.authors[i].feed_id);
    }
    if db.has_article(feed_id, inc.url) {
        let k = db.article_index(feed_id, inc.url);
        assert(after.articles[k].feed_id == feed_id && after.articles[k].url == inc.url);
        assert forall|i: int, j: int| 0 <= i < j < after.articles.len() implies #[trigger] after.articles[i].id
            < #[trigger] after.articles[j].id by {
            assert(after.articles[i].id == db.articles[i].id);
        }
        assert forall|i: int| 0 <= i < after.articles.len() implies after.has_feed(
            #[trigger] after.articles[i].feed_id,
        ) by {
            lemma_same_feeds(db, after, db.articles[i].feed_id);
        }
        assert forall|i: int, j: int| 0 <= i < j < after.articles.len() implies !(
        #[trigger] after.articles[i].feed_id == #[trigger] after.articles[j].feed_id
            && after.articles[i].url == after.articles[j].url) by {
            assert(after.articles[i].feed_id == db.articles[i].feed_id);
        }
    } else {
        let n = db.articles.len() as int;
        assert(after.articles[n].feed_id == feed_id && after.articles[n].url == inc.url);
        assert forall|i: int| 0 <= i < after.articles.len() implies after.has_feed(
            #[trigger] after.articles[i].feed_id,
        ) by {
            if i < n {
                lemma_same_feeds(db, after, db.articles[i].feed_id);
            } else {
                lemma_same_feeds(db, after, feed_id);
            }
        }
    }
}

/// Links hold where they held, the articles did not change, and every
/// author kept its id and its feed.
pub proof fn lemma_links_authors_kept(db: DatabaseView, after: DatabaseView)
    requires
        db.links_hold(),
        after.articles == db.articles,
        after.authors.len() >= db.authors.len(),
        forall|j: int|
            0 <= j < db.authors.len() ==> (#[trigger] after.authors[j]).id == db.authors[j].id
                && after.authors[j].feed_id == db.authors[j].feed_id,
    ensures
        after.links_hold(),
        forall|feed_id: u64, id: u64|
            db.has_author_of(feed_id, id) ==> #[trigger] after.has_author_of(feed_id, id),
{
    assert forall|feed_id: u64, id: u64| db.has_author_of(feed_id, id) implies #[trigger] after.has_author_of(
        feed_id,
        id,
    ) by {
        let j = choose|j: int|
            0 <= j < db.authors.len() && (#[trigger] db.authors[j]).id == id
                && db.authors[j].feed_id == feed_id;
        assert(after.authors[j].id == id && after.authors[j].feed_id == feed_id);
    }
}

/// Storing an author of a feed that exists keeps the constraints of the
/// schema, uses at most one id, and leaves the other tables alone.
pub proof fn lemma_upsert_author_inv(db: DatabaseView, feed_id: u64, person: PersonView)
    requires
        db.inv(),
        db.has_feed(feed_id),
        db.next_author < u64::MAX,
    ensures
        db.upsert_author(feed_id, person).inv(),
        db.upsert_author(feed_id, person).has_author(feed_id, person.name),
        db.upsert_author(feed_id, person).next_author <= db.next_author + 1,
        db.upsert_author(feed_id, person) == (DatabaseView {
            authors: db.upsert_author(feed_id, person).authors,
            next_author: db.upsert_author(feed_id, person).next_author,
            ..db
        }),
{
    let after = db.upsert_author(feed_id, person);
    lemma_links_authors_kept(db, after);
    assert forall|i: int| 0 <= i < after.feeds.len() implies after.has_folder(
        #[trigger] after.feeds[i].folder_id,
    ) by {
        lemma_same_folders(db, after, db.feeds[i].folder_id);
    }
    assert forall|i: int| 0 <= i < after.articles.len() implies after.has_feed(
        #[trigger] after.articles[i].feed_id,
    ) by {
        lemma_same_feeds(db, after, db.articles[i].feed_id);
    }
    if db.has_author(feed_id, person.name) {
        let k = db.author_index(feed_id, person.name);
        assert(after.authors[k].feed_id == feed_id && after.authors[k].name == person.name);
        assert forall|i: int, j: int| 0 <= i < j < after.authors.len() implies #[trigger] after.authors[i].id
            < #[trigger] after.authors[j].id by {
            assert(after.authors[i].id == db.authors[i].id);
        }
        assert forall|i: int| 0 <= i < after.authors.len() implies after.has_feed(
            #[trigger] after.authors[i].feed_id,
        ) by {
            lemma_same_feeds(db, after, db.authors[i].feed_id);
        }
        assert forall|i: int, j: int| 0 <= i < j < after.authors.len() implies !(
        #[trigger] after.authors[i].feed_id == #[trigger] after.authors[j].feed_id
            && after.authors[i].name == after.authors[j].name) by {
            assert(after.authors[i].feed_id == db.authors[i].feed_id);
        }
    } else {
        let n = db.authors.len() as int;
        assert(after.authors[n].feed_id == feed_id && after.authors[n].name == person.name);
        assert forall|i: int| 0 <= i < after.authors.len() implies after.has_feed(
            #[trigger] after.authors[i].feed_id,
        ) by {
            if i < n {
                lemma_same_feeds(db, after, db.authors[i].feed_id);
            } else {
                lemma_same_feeds(db, after, feed_id);
            }
        }
    }
}

/// A change to the table of articles that touches only titles, texts,
/// timestamps and links to authors keeps the constraints of the schema and
/// the articles where they stand, where the links hold afterwards.
pub proof fn lemma_article_columns_inv(db: DatabaseView, after: DatabaseView)
    requires
        db.inv(),
        after == (DatabaseView { articles: after.articles, ..db }),
        after.links_hold(),
        after.articles.len() == db.articles.len(),
        forall|i: int|
            0 <= i < db.articles.len() ==> (#[trigger] after.articles[i]).id == db.articles[i].id
                && after.articles[i].feed_id == db.articles[i].feed_id && after.articles[i].url
                == db.articles[i].url,
    ensures
        after.inv(),
        forall|feed_id: u64, url: Seq<char>|
            db.has_article(feed_id, url) ==> #[trigger] after.has_article(feed_id, url),
{
    assert forall|i: int| 0 <= i < after.feeds.len() implies after.has_folder(
        #[trigger] after.feeds[i].folder_id,
    ) by {
        lemma_same_folders(db, after, db.feeds[i].folder_id);
    }
    assert forall|i: int| 0 <= i < after.authors.len() implies after.has_feed(
        #[trigger] after.authors[i].feed_id,
    ) by {
        lemma_same_feeds(db, after, db.authors[i].feed_id);
    }
    assert forall|i: int, j: int| 0 <= i < j < after.articles.len() implies #[trigger] after.articles[i].id
        < #[trigger] after.articles[j].id by {
        assert(after.articles[i].id == db.articles[i].id);
    }
    assert forall|i: int| 0 <= i < after.articles.len() implies after.has_feed(
        #[trigger] after.articles[i].feed_id,
    ) by {
        lemma_same_feeds(db, after, db.articles[i].feed_id);
    }
    assert forall|i: int, j: int| 0 <= i < j < after.articles.len() implies !(
    #[trigger] after.articles[i].feed_id == #[trigger] after.articles[j].feed_id
        && after.articles[i].url == after.articles[j].url) by {
        assert(after.articles[i].feed_id == db.articles[i].feed_id);
    }
    assert forall|feed_id: u64, url: Seq<char>| db.has_article(feed_id, url) implies #[trigger] after.has_article(
        feed_id,
        url,
    ) by {
        let k = db.article_index(feed_id, url);
        assert(after.articles[k].feed_id == feed_id && after.articles[k].url == url);
    }
}

/// Linking an author of a feed to an article of the feed keeps the
/// constraints of the schema and every article.
pub proof fn lemma_link_inv(db: DatabaseView, feed_id: u64, url: Seq<char>, author: u64)
    requires
        db.inv(),
        db.has_author_of(feed_id, author),
    ensures
        db.link(feed_id, url, author).inv(),
        db.link(feed_id, url, author) == (DatabaseView {
            articles: db.link(feed_id, url, author).articles,
            ..db
        }),
        forall|f: u64, u: Seq<char>|
            db.has_article(f, u) ==> #[trigger] db.link(feed_id, url, author).has_article(f, u),
{
    let after = db.link(feed_id, url, author);
    if db.has_article(feed_id, url) {
        let n = db.article_index(feed_id, url);
        assert forall|i: int, k: int|
            0 <= i < after.articles.len() && 0 <= k < after.articles[i].authors.len() implies after.has_author_of(
            after.articles[i].feed_id,
            #[trigger] after.articles[i].authors[k],
        ) by {
            if i != n || k != db.articles[n].authors.len() {
                assert(db.has_author_of(db.articles[i].feed_id, db.articles[i].authors[k]));
            }
        }
    }
    lemma_article_columns_inv(db, after);
}

/// Crediting an article to persons keeps the constraints of the schema,
/// uses at most one author id for each person, and changes neither folders
/// nor feeds nor the number of articles.
pub proof fn lemma_credit_inv(
    db: DatabaseView,
    feed_id: u64,
    url: Seq<char>,
    persons: Seq<PersonView>,
)
    requires
        db.inv(),
        db.has_feed(feed_id),
        db.has_article(feed_id, url),
        db.next_author + persons.len() <= u64::MAX,
    ensures
        db.credit(feed_id, url, persons).inv(),
        db.credit(feed_id, url, persons).has_article(feed_id, url),
        db.credit(feed_id, url, persons).next_author <= db.next_author + persons.len(),
        db.credit(feed_id, url, persons).next_article == db.next_article,
        db.credit(feed_id, url, persons).feeds == db.feeds,
        db.credit(feed_id, url, persons).folders == db.folders,
        db.credit(feed_id, url, persons).next_folder == db.next_folder,
        db.credit(feed_id, url, persons).next_feed == db.next_feed,
    decreases persons.len(),
{
    if persons.len() > 0 {
        lemma_credit_inv(db, feed_id, url, persons.drop_last());
        let before = db.credit(feed_id, url, persons.drop_last());
        lemma_same_feeds(db, before, feed_id);
        lemma_upsert_author_inv(before, feed_id, persons.last());
        let stored = before.upsert_author(feed_id, persons.last());
        let author = stored.authors[stored.author_index(feed_id, persons.last().name)].id;
        lemma_link_inv(stored, feed_id, url, author);
    }
}

/// Crediting an article changes no article but in its links to authors.
pub proof fn lemma_credit_frame(
    db: DatabaseView,
    feed_id: u64,
    url: Seq<char>,
    persons: Seq<PersonView>,
)
    requires
        db.inv(),
        db.has_feed(feed_id),
        db.has_article(feed_id, url),
        db.next_author + persons.len() <= u64::MAX,
    ensures
        db.credit(feed_id, url, persons).articles.len() == db.articles.len(),
        forall|k: int|
            0 <= k < db.articles.len() ==> #[trigger] db.credit(feed_id, url, persons).articles[k]
                == (ArticleRowView {
                authors: db.credit(feed_id, url, persons).articles[k].authors,
                ..db.articles[k]
            }),
    decreases persons.len(),
{
    if persons.len() > 0 {
        lemma_credit_frame(db, feed_id, url, persons.drop_last());
        lemma_credit_inv(db, feed_id, url, persons.drop_last());
        let before = db.credit(feed_id, url, persons.drop_last());
        lemma_same_feeds(db, before, feed_id);
        lemma_upsert_author_inv(before, feed_id, persons.last());
        let stored = before.upsert_author(feed_id, persons.last());
        let author = stored.authors[stored.author_index(feed_id, persons.last().name)].id;
        let after = stored.link(feed_id, url, author);
        assert(after == db.credit(feed_id, url, persons));
    }
}

/// An address is stored once: after something came in for a feed under an
/// address, and something else under the same address, the feed holds the
/// same articles as after the first, one of them under that address. That
/// article keeps its id and takes the title and text of the second, and
/// neither of its timestamps is earlier than it was, or than the second
/// says where it says one.
pub proof fn lemma_upsert_article_twice(
    db: DatabaseView,
    feed_id: u64,
    first: IncomingView,
    second: IncomingView,
)
    requires
        db.inv(),
        db.has_feed(feed_id),
        db.has_article(feed_id, first.url) || db.next_article < u64::MAX,
        first.url == second.url,
    ensures
        ({
            let once = db.upsert_article(feed_id, first);
            let twice = once.upsert_article(feed_id, second);
            let i = once.article_index(feed_id, first.url);
            &&& twice.inv()
            &&& once.has_article(feed_id, first.url)
            &&& twice.articles.len() == once.articles.len()
            &&& twice.next_article == once.next_article
            &&& forall|k: int|
                0 <= k < twice.articles.len() ==> ((#[trigger] twice.articles[k]).feed_id
                    == feed_id && twice.articles[k].url == first.url <==> k == i)
            &&& forall|k: int|
                0 <= k < twice.articles.len() && k != i ==> #[trigger] twice.articles[k]
                    == once.articles[k]
            &&& twice.articles[i].id == once.articles[i].id
            &&& twice.articles[i].title == second.title
            &&& twice.articles[i].content == second.content
            &&& twice.articles[i].created >= once.articles[i].created
            &&& second.published is Some ==> twice.articles[i].created >= second.published->0
            &&& twice.articles[i].updated >= once.articles[i].updated
            &&& second.updated is Some ==> twice.articles[i].updated >= second.updated->0
            &&& twice.articles[i].authors == once.articles[i].authors
        }),
{
    lemma_upsert_article_inv(db, feed_id, first);
    let once = db.upsert_article(feed_id, first);
    lemma_same_feeds(db, once, feed_id);
    lemma_upsert_article_inv(once, feed_id, second);
    let twice = once.upsert_article(feed_id, second);
    let i = once.article_index(feed_id, first.url);
    assert forall|k: int| 0 <= k < twice.articles.len() implies ((#[trigger] twice.articles[k]).feed_id
        == feed_id && twice.articles[k].url == first.url <==> k == i) by {
        lemma_article_at(once, k);
    }
}

/// An entry is stored once: after an entry was ingested for a feed, and then
/// an entry with the same address, the feed holds as many articles as after
/// the first. The article under that address keeps its id and takes the
/// title and text of the second entry, and neither of its timestamps is
/// earlier than it was.
pub proof fn lemma_ingest_entry_twice(
    db: DatabaseView,
    feed_id: u64,
    site: Seq<char>,
    fallback: i64,
    feed_authors: Seq<PersonView>,
    first: EntryView,
    second: EntryView,
)
    requires
        db.inv(),
        db.has_feed(feed_id),
        db.next_article < u64::MAX,
        db.next_author + attributed(first, feed_authors).len() + attributed(
            second,
            feed_authors,
        ).len() <= u64::MAX,
        article_url(site, first) == article_url(site, second),
    ensures
        ({
            let once = db.ingest_entry(feed_id, site, fallback, feed_authors, first);
            let twice = once.ingest_entry(feed_id, site, fallback, feed_authors, second);
            let i = once.article_index(feed_id, article_url(site, first));
            &&& twice.inv()
            &&& once.has_article(feed_id, article_url(site, first))
            &&& twice.articles.len() == once.articles.len()
            &&& forall|k: int|
                0 <= k < twice.articles.len() ==> ((#[trigger] twice.articles[k]).feed_id
                    == feed_id && twice.articles[k].url == article_url(site, first) <==> k == i)
            &&& twice.articles[i].id == once.articles[i].id
            &&& twice.articles[i].title == article_title(second)
            &&& twice.articles[i].content == article_content(second)
            &&& twice.articles[i].created >= once.articles[i].created
            &&& twice.articles[i].updated >= once.articles[i].updated
        }),
{
    let url = article_url(site, first);
    lemma_ingest_entry_inv(db, feed_id, site, fallback, feed_authors, first);
    let once = db.ingest_entry(feed_id, site, fallback, feed_authors, first);
    lemma_upsert_article_inv(db, feed_id, incoming(site, fallback, first));
    let stored = db.upsert_article(feed_id, incoming(site, fallback, first));
    lemma_same_feeds(db, stored, feed_id);
    lemma_credit_inv(stored, feed_id, url, attributed(first, feed_authors));
    let i = once.article_index(feed_id, url);
    let inc = incoming(site, fallback, second);
    lemma_upsert_article_inv(once, feed_id, inc);
    let again = once.upsert_article(feed_id, inc);
    lemma_same_feeds(once, again, feed_id);
    lemma_credit_inv(again, feed_id, url, attributed(second, feed_authors));
    lemma_credit_frame(again, feed_id, url, attributed(second, feed_authors));
    let twice = once.ingest_entry(feed_id, site, fallback, feed_authors, second);
    assert forall|k: int| 0 <= k < twice.articles.len() implies ((#[trigger] twice.articles[k]).feed_id
        == feed_id && twice.articles[k].url == url <==> k == i) by {
        lemma_article_at(once, k);
    }
}

/// Ingesting an entry for a feed that exists keeps the constraints of the
/// schema, uses at most one article id and one author id for each person it
/// is attributed to, and changes neither folders nor feeds.
pub proof fn lemma_ingest_entry_inv(
    db: DatabaseView,
    feed_id: u64,
    site: Seq<char>,
    fallback: i64,
    feed_authors: Seq<PersonView>,
    e: EntryView,
)
    requires
        db.inv(),
        db.has_feed(feed_id),
        db.next_article < u64::MAX,
        db.next_author + attributed(e, feed_authors).len() <= u64::MAX,
    ensures
        db.ingest_entry(feed_id, site, fallback, feed_authors, e).inv(),
        db.ingest_entry(feed_id, site, fallback, feed_authors, e).has_feed(feed_id),
        db.ingest_entry(feed_id, site, fallback, feed_authors, e).next_article <= db.next_article
            + 1,
        db.ingest_entry(feed_id, site, fallback, feed_authors, e).next_author <= db.next_author
            + attributed(e, feed_authors).len(),
        db.ingest_entry(feed_id, site, fallback, feed_authors, e).feeds == db.feeds,
        db.ingest_entry(feed_id, site, fallback, feed_authors, e).folders == db.folders,
        db.ingest_entry(feed_id, site, fallback, feed_authors, e).next_folder == db.next_folder,
        db.ingest_entry(feed_id, site, fallback, feed_authors, e).next_feed == db.next_feed,
{
    let inc = incoming(site, fallback, e);
    lemma_upsert_article_inv(db, feed_id, inc);
    let stored = db.upsert_article(feed_id, inc);
    lemma_same_feeds(db, stored, feed_id);
    lemma_credit_inv(stored, feed_id, inc.url, attributed(e, feed_authors));
    lemma_same_feeds(db, db.ingest_entry(feed_id, site, fallback, feed_authors, e), feed_id);
}

/// Ingesting entries for a feed that exists, where ids are left for them,
/// keeps the constraints of the schema and changes neither folders nor
/// feeds.
pub proof fn lemma_ingest_entries_inv(
    db: DatabaseView,
    feed_id: u64,
    site: Seq<char>,
    fallback: i64,
    feed_authors: Seq<PersonView>,
    entries: Seq<EntryView>,
)
    requires
        db.inv(),
        db.has_feed(feed_id) || entries.len() == 0,
        db.fits(entries, feed_authors),
    ensures
        db.ingest_entries(feed_id, site, fallback, feed_authors, entries).inv(),
        db.ingest_entries(feed_id, site, fallback, feed_authors, entries).next_article
            <= db.next_article + entries.len(),
        db.ingest_entries(feed_id, site, fallback, feed_authors, entries).next_author
            <= db.next_author + demand(entries, feed_authors),
        db.ingest_entries(feed_id, site, fallback, feed_authors, entries).feeds == db.feeds,
        db.ingest_entries(feed_id, site, fallback, feed_authors, entries).folders == db.folders,
        db.ingest_entries(feed_id, site, fallback, feed_authors, entries).next_folder
            == db.next_folder,
        db.ingest_entries(feed_id, site, fallback, feed_authors, entries).next_feed
            == db.next_feed,
    decreases entries.len(),
{
    if entries.len() > 0 {
        lemma_ingest_entries_inv(db, feed_id, site, fallback, feed_authors, entries.drop_last());
        let before = db.ingest_entries(feed_id, site, fallback, feed_authors, entries.drop_last());
        lemma_same_feeds(db, before, feed_id);
        lemma_ingest_entry_inv(before, feed_id, site, fallback, feed_authors, entries.last());
    }
}

/// Storing a fetch keeps the constraints of the schema, where the feed
/// exists or there is no entry, and ids are left.
pub proof fn lemma_upsert_articles_inv(
    db: DatabaseView,
    feed_id: u64,
    site: Seq<char>,
    published: i64,
    feed_authors: Seq<PersonView>,
    entries: Seq<EntryView>,
)
    requires
        db.inv(),
        db.has_feed(feed_id) || entries.len() == 0,
        db.fits(entries, feed_authors),
    ensures
        db.upsert_articles(feed_id, site, published, feed_authors, entries).inv(),
{
    lemma_ingest_entries_inv(db, feed_id, site, published, feed_authors, entries);
    let stored = db.ingest_entries(feed_id, site, published, feed_authors, entries);
    lemma_feed_columns_inv(stored, stored.set_last_seen(feed_id, published));
}

/// Storing a fetch moves no watermark back, where the timestamp of the fetch
/// is not earlier than the watermark of its feed: the store holds the same
/// feeds afterwards, the feed of the fetch with the timestamp as its
/// watermark and every other feed as it was.
pub proof fn lemma_upsert_articles_watermarks(
    db: DatabaseView,
    feed_id: u64,
    site: Seq<char>,
    published: i64,
    feed_authors: Seq<PersonView>,
    entries: Seq<EntryView>,
)
    requires
        db.inv(),
        db.has_feed(feed_id) || entries.len() == 0,
        db.fits(entries, feed_authors),
        db.has_feed(feed_id) ==> published >= db.feed(feed_id).last_seen,
    ensures
        ({
            let after = db.upsert_articles(feed_id, site, published, feed_authors, entries);
            &&& after.feeds.len() == db.feeds.len()
            &&& forall|k: int|
                0 <= k < db.feeds.len() ==> {
                    &&& (#[trigger] after.feeds[k]).id == db.feeds[k].id
                    &&& after.feeds[k].last_seen >= db.feeds[k].last_seen
                    &&& db.feeds[k].id == feed_id ==> after.feeds[k].last_seen == published
                    &&& db.feeds[k].id != feed_id ==> after.feeds[k] == db.feeds[k]
                }
        }),
{
    let after = db.upsert_articles(feed_id, site, published, feed_authors, entries);
    lemma_ingest_entries_inv(db, feed_id, site, published, feed_authors, entries);
    assert forall|k: int| 0 <= k < db.feeds.len() implies {
        &&& (#[trigger] after.feeds[k]).id == db.feeds[k].id
        &&& after.feeds[k].last_seen >= db.feeds[k].last_seen
        &&& db.feeds[k].id == feed_id ==> after.feeds[k].last_seen == published
        &&& db.feeds[k].id != feed_id ==> after.feeds[k] == db.feeds[k]
    } by {
        if db.feeds[k].id == feed_id {
            lemma_feed_at(db, k);
        }
    }
}

/// The demand of the first entries is part of the demand of all.
pub proof fn lemma_demand_grows(entries: Seq<EntryView>, feed_authors: Seq<PersonView>, n: int)
    requires
        0 <= n <= entries.len(),
    ensures
        demand(entries.take(n), feed_authors) <= demand(entries, feed_authors),
    decreases entries.len(),
{
    if n == entries.len() {
        assert(entries.take(n) =~= entries);
    } else {
        lemma_demand_grows(entries.drop_last(), feed_authors, n);
        assert(entries.drop_last().take(n) =~= entries.take(n));
    }
}

/// The address under which the entry `e` is stored for a feed whose site is
/// `site`.
pub fn resolve_url(site: &str, e: &Entry) -> (r: String)
    ensures
        r@ == article_url(site@, e@),
{
    let path: &str = if e.links.len() > 0 {
        e.links[0].href.as_str()
    } else {
        e.id.as_str()
    };
    if starts_with(path, site) {
        path.to_owned()
    } else {
        let mut url = trim_end_matches(site, '/').to_owned();
        url.append("/");
        proof {
            reveal_strlit("/");
        }
        url.append(trim_start_matches(path, '/'));
        url
    }
}

/// What the entry `e` brings to the table of articles, for a feed whose site
/// is `site`; `fallback` dates an entry that says no date and is new to the
/// store.
pub fn resolve(site: &str, fallback: i64, e: &Entry) -> (r: Incoming)
    ensures
        r@ == incoming(site@, fallback, e@),
{
    let published = match e.published {
        Some(t) => Some(t),
        None => e.updated,
    };
    let title = match &e.title {
        Some(t) => trim(t.as_str()).to_owned(),
        None => String::new(),
    };
    let content = match &e.content {
        Some(c) => c.clone(),
        None => match &e.summary {
            Some(s) => s.clone(),
            None => String::new(),
        },
    };
    Incoming { url: resolve_url(site, e), title, content, published, updated: e.updated, fallback }
}

} // verus!
