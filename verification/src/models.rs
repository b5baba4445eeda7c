//! The entities that readers see: folders, feeds, articles and authors.

use vstd::prelude::*;

pub use crate::document::{Entry, FeedType, Person};

verus! {

/// An author as shown beside an article.
#[derive(Debug, PartialEq, Eq)]
pub struct Author {
    pub id: u64,
    pub name: String,
}

/// Mathematical value of an [`Author`].
pub struct AuthorView {
    pub id: u64,
    pub name: Seq<char>,
}

impl DeepView for Author {
    type V = AuthorView;

    open spec fn deep_view(&self) -> AuthorView {
        AuthorView { id: self.id, name: self.name@ }
    }
}

impl View for Author {
    type V = AuthorView;

    open spec fn view(&self) -> AuthorView {
        self.deep_view()
    }
}

impl Clone for Author {
    fn clone(&self) -> (r: Self)
        ensures
            r@ == self@,
    {
        Author { id: self.id, name: self.name.clone() }
    }
}

impl Default for Author {
    fn default() -> (r: Self)
        ensures
            r@ == (AuthorView { id: 0, name: Seq::empty() }),
    {
        Author { id: 0, name: String::new() }
    }
}

/// One ingested entry of a feed.
#[derive(Debug, PartialEq, Eq)]
pub struct Article {
    pub id: u64,
    pub feed_id: u64,
    pub url: String,
    pub title: String,
    pub content: String,
    /// First seen, or published.
    pub created: i64,
    pub updated: i64,
    pub authors: Option<Vec<Author>>,
}

/// Mathematical value of an [`Article`].
pub struct ArticleView {
    pub id: u64,
    pub feed_id: u64,
    pub url: Seq<char>,
    pub title: Seq<char>,
    pub content: Seq<char>,
    pub created: i64,
    pub updated: i64,
    pub authors: Option<Seq<AuthorView>>,
}

impl DeepView for Article {
    type V = ArticleView;

    open spec fn deep_view(&self) -> ArticleView {
        ArticleView {
            id: self.id,
            feed_id: self.feed_id,
            url: self.url@,
            title: self.title@,
            content: self.content@,
            created: self.created,
            updated: self.updated,
            authors: self.authors.deep_view(),
        }
    }
}

impl View for Article {
    type V = ArticleView;

    open spec fn view(&self) -> ArticleView {
        self.deep_view()
    }
}

impl Clone for Article {
    fn clone(&self) -> (r: Self)
        ensures
            r@ == self@,
    {
        let authors = self.authors.clone();
        Article {
            id: self.id,
            feed_id: self.feed_id,
            url: self.url.clone(),
            title: self.title.clone(),
            content: self.content.clone(),
            created: self.created,
            updated: self.updated,
            authors,
        }
    }
}

impl Default for Article {
    fn default() -> (r: Self)
        ensures
            r@ == ArticleView::blank(),
    {
        Article {
            id: 0,
            feed_id: 0,
            url: String::new(),
            title: String::new(),
            content: String::new(),
            created: 0,
            updated: 0,
            authors: None,
        }
    }
}

impl ArticleView {
    /// The article that stands for "none yet": every field zero or empty.
    pub open spec fn blank() -> ArticleView {
        ArticleView {
            id: 0,
            feed_id: 0,
            url: Seq::empty(),
            title: Seq::empty(),
            content: Seq::empty(),
            created: 0,
            updated: 0,
            authors: None,
        }
    }

    /// This article without its body and authors.
    pub open spec fn headline(self) -> ArticleView {
        ArticleView { content: Seq::empty(), authors: None, ..self }
    }
}

impl Article {
    /// A copy that keeps identity, title and timestamps but drops the body
    /// and the authors.
    pub fn clone_with_content_authors(&self) -> (r: Self)
        ensures
            r@ == self@.headline(),
    {
        Article {
            id: self.id,
            feed_id: self.feed_id,
            url: self.url.clone(),
            title: self.title.clone(),
            content: String::new(),
            created: self.created,
            updated: self.updated,
            authors: None,
        }
    }
}

/// A subscribed source, as the tree of folders holds it.
#[derive(Debug, PartialEq, Eq)]
pub struct Feed {
    pub id: u64,
    pub name: String,
    /// The address that is fetched.
    pub url: String,
    /// The human-facing origin, unknown until a fetch succeeded.
    pub site: Option<String>,
    /// Newest article timestamp seen so far.
    pub last_seen: i64,
    pub folder_id: u64,
    /// `true` while a fetch is in flight.
    pub status: bool,
    /// The articles loaded so far; `None` means not loaded yet.
    pub articles: Option<Vec<Article>>,
}

/// Mathematical value of a [`Feed`].
pub struct FeedView {
    pub id: u64,
    pub name: Seq<char>,
    pub url: Seq<char>,
    pub site: Option<Seq<char>>,
    pub last_seen: i64,
    pub folder_id: u64,
    pub status: bool,
    pub articles: Option<Seq<ArticleView>>,
}

impl DeepView for Feed {
    type V = FeedView;

    open spec fn deep_view(&self) -> FeedView {
        FeedView {
            id: self.id,
            name: self.name@,
            url: self.url@,
            site: self.site.deep_view(),
            last_seen: self.last_seen,
            folder_id: self.folder_id,
            status: self.status,
            articles: self.articles.deep_view(),
        }
    }
}

impl View for Feed {
    type V = FeedView;

    open spec fn view(&self) -> FeedView {
        self.deep_view()
    }
}

impl Clone for Feed {
    fn clone(&self) -> (r: Self)
        ensures
            r@ == self@,
    {
        let articles = self.articles.clone();
        Feed {
            id: self.id,
            name: self.name.clone(),
            url: self.url.clone(),
            site: self.site.clone(),
            last_seen: self.last_seen,
            folder_id: self.folder_id,
            status: self.status,
            articles,
        }
    }
}

impl Default for Feed {
    fn default() -> (r: Self)
        ensures
            r@ == FeedView::fresh(Seq::empty(), Seq::empty(), 0),
    {
        Feed::new(String::new(), String::new(), 0)
    }
}

impl FeedView {
    /// A feed that was never stored nor fetched.
    pub open spec fn fresh(url: Seq<char>, name: Seq<char>, folder_id: u64) -> FeedView {
        FeedView {
            id: 0,
            name,
            url,
            site: None,
            last_seen: 0,
            folder_id,
            status: false,
            articles: None,
        }
    }

    /// The single article that a fetch request carries: the headline of the
    /// newest loaded article, or the blank article where none is loaded.
    pub open spec fn marker(self) -> ArticleView {
        match self.articles {
            Some(list) if list.len() > 0 => list.last().headline(),
            _ => ArticleView::blank(),
        }
    }
}

impl Feed {
    /// A feed that is not stored yet: id 0, never fetched, idle, nothing loaded.
    pub fn new(url: String, name: String, folder_id: u64) -> (r: Self)
        ensures
            r@ == FeedView::fresh(url@, name@, folder_id),
    {
        Feed {
            id: 0,
            name,
            url,
            folder_id,
            last_seen: 0,
            site: None,
            status: false,
            articles: None,
        }
    }

    /// A copy whose article list is cut down to one marker article: the
    /// headline of the last loaded article, or the blank article.
    pub fn clone_with_last_article(&self) -> (r: Self)
        ensures
            r@ == (FeedView { articles: Some(seq![self@.marker()]), ..self@ }),
    {
        let marker = match &self.articles {
            Some(list) => {
                if list.len() > 0 {
                    list[list.len() - 1].clone_with_content_authors()
                } else {
                    Article::default()
                }
            },
            None => Article::default(),
        };
        let mut articles: Vec<Article> = Vec::new();
        articles.push(marker);
        assert(articles.deep_view() =~= seq![self@.marker()]);
        Feed {
            id: self.id,
            name: self.name.clone(),
            url: self.url.clone(),
            site: self.site.clone(),
            last_seen: self.last_seen,
            folder_id: self.folder_id,
            status: self.status,
            articles: Some(articles),
        }
    }
}

/// A user-defined group of feeds.
#[derive(Debug, PartialEq, Eq)]
pub struct Folder {
    pub id: u64,
    pub name: String,
    pub feeds: Option<Vec<Feed>>,
}

/// Mathematical value of a [`Folder`].
pub struct FolderView {
    pub id: u64,
    pub name: Seq<char>,
    pub feeds: Option<Seq<FeedView>>,
}

impl DeepView for Folder {
    type V = FolderView;

    open spec fn deep_view(&self) -> FolderView {
        FolderView { id: self.id, name: self.name@, feeds: self.feeds.deep_view() }
    }
}

impl View for Folder {
    type V = FolderView;

    open spec fn view(&self) -> FolderView {
        self.deep_view()
    }
}

impl Clone for Folder {
    fn clone(&self) -> (r: Self)
        ensures
            r@ == self@,
    {
        let feeds = self.feeds.clone();
        Folder { id: self.id, name: self.name.clone(), feeds }
    }
}

impl Default for Folder {
    fn default() -> (r: Self)
        ensures
            r@ == (FolderView { id: 0, name: Seq::empty(), feeds: None }),
    {
        Folder { id: 0, name: String::new(), feeds: None }
    }
}

impl Folder {
    /// A copy that keeps id and name and carries no feeds.
    pub fn clone_without_feeds(&self) -> (r: Self)
        ensures
            r@ == (FolderView { feeds: None, ..self@ }),
    {
        Folder { id: self.id, name: self.name.clone(), feeds: None }
    }
}

} // verus!
