//! The tree of folders, feeds and articles that readers see. It is changed
//! by patches only: a folder or a feed is added, removed, moved or changed in
//! place, and the tree is never built anew.

use vstd::prelude::*;

use crate::models::{Article, ArticleView, Feed, FeedView, Folder, FolderView};
use crate::tables::{lemma_deep_view_remove, lemma_retain_step};

verus! {

/// The feeds of a folder; a folder that carries no list has none.
pub open spec fn feeds_of(folder: FolderView) -> Seq<FeedView> {
    match folder.feeds {
        Some(list) => list,
        None => Seq::empty(),
    }
}

/// A change to a feed of the tree.
#[derive(Debug)]
pub enum Patch {
    /// The feed takes a name and an address.
    Retitle { name: String, url: String },
    /// A fetch of the feed begins (`true`) or ends (`false`).
    Fetching(bool),
    /// The feed takes the articles read from the store, unless articles are
    /// loaded already.
    Hydrate(Vec<Article>),
    /// A fetch brought something: the feed takes its site and its watermark,
    /// the articles are put behind those loaded, and the fetch ends.
    Absorb { site: String, last_seen: i64, articles: Vec<Article> },
}

/// Mathematical value of a [`Patch`].
pub enum PatchView {
    Retitle { name: Seq<char>, url: Seq<char> },
    Fetching(bool),
    Hydrate(Seq<ArticleView>),
    Absorb { site: Seq<char>, last_seen: i64, articles: Seq<ArticleView> },
}

impl DeepView for Patch {
    type V = PatchView;

    open spec fn deep_view(&self) -> PatchView {
        match self {
            Patch::Retitle { name, url } => PatchView::Retitle { name: name@, url: url@ },
            Patch::Fetching(on) => PatchView::Fetching(*on),
            Patch::Hydrate(articles) => PatchView::Hydrate(articles.deep_view()),
            Patch::Absorb { site, last_seen, articles } => PatchView::Absorb {
                site: site@,
                last_seen: *last_seen,
                articles: articles.deep_view(),
            },
        }
    }
}

impl View for Patch {
    type V = PatchView;

    open spec fn view(&self) -> PatchView {
        self.deep_view()
    }
}

impl PatchView {
    /// The feed after the change.
    pub open spec fn applied(self, feed: FeedView) -> FeedView {
        match self {
            PatchView::Retitle { name, url } => FeedView { name, url, ..feed },
            PatchView::Fetching(on) => FeedView { status: on, ..feed },
            PatchView::Hydrate(articles) => match feed.articles {
                Some(_) => feed,
                None => FeedView { articles: Some(articles), ..feed },
            },
            PatchView::Absorb { site, last_seen, articles } => FeedView {
                site: Some(site),
                last_seen,
                status: false,
                articles: match feed.articles {
                    Some(loaded) => Some(loaded + articles),
                    None => Some(articles),
                },
                ..feed
            },
        }
    }
}

/// The tree with a new folder behind the others.
pub open spec fn with_folder(tree: Seq<FolderView>, id: u64, name: Seq<char>) -> Seq<FolderView> {
    tree.push(FolderView { id, name, feeds: None })
}

/// The tree in which the folder `id` has the name `name`.
pub open spec fn renamed(tree: Seq<FolderView>, id: u64, name: Seq<char>) -> Seq<FolderView> {
    tree.map_values(
        |f: FolderView|
            if f.id == id {
                FolderView { name, ..f }
            } else {
                f
            },
    )
}

/// The tree in which `feed` stands behind the feeds of the folder it names.
pub open spec fn with_feed(tree: Seq<FolderView>, feed: FeedView) -> Seq<FolderView> {
    tree.map_values(
        |f: FolderView|
            if f.id == feed.folder_id {
                FolderView { feeds: Some(feeds_of(f).push(feed)), ..f }
            } else {
                f
            },
    )
}

/// A list of feeds without the feed `id`.
pub open spec fn others(list: Seq<FeedView>, id: u64) -> Seq<FeedView> {
    list.filter(|x: FeedView| x.id != id)
}

/// The tree without the feed `id`.
pub open spec fn without_feed(tree: Seq<FolderView>, id: u64) -> Seq<FolderView> {
    tree.map_values(
        |f: FolderView|
            FolderView {
                feeds: match f.feeds {
                    Some(list) => Some(others(list, id)),
                    None => None,
                },
                ..f
            },
    )
}

/// A list of feeds in which the feed `id` is changed by `patch`.
pub open spec fn patched_list(list: Seq<FeedView>, id: u64, patch: PatchView) -> Seq<FeedView> {
    list.map_values(
        |x: FeedView|
            if x.id == id {
                patch.applied(x)
            } else {
                x
            },
    )
}

/// The tree in which the feed `id` is changed by `patch`.
pub open spec fn patched(tree: Seq<FolderView>, id: u64, patch: PatchView) -> Seq<FolderView> {
    tree.map_values(
        |f: FolderView|
            FolderView {
                feeds: match f.feeds {
                    Some(list) => Some(patched_list(list, id, patch)),
                    None => None,
                },
                ..f
            },
    )
}

/// The first feed of a list that has the id `id`.
pub open spec fn first_feed(list: Seq<FeedView>, id: u64) -> Option<FeedView>
    decreases list.len(),
{
    if list.len() == 0 {
        None
    } else if list.first().id == id {
        Some(list.first())
    } else {
        first_feed(list.drop_first(), id)
    }
}

/// The first feed of the tree that has the id `id`.
pub open spec fn lookup(tree: Seq<FolderView>, id: u64) -> Option<FeedView>
    decreases tree.len(),
{
    if tree.len() == 0 {
        None
    } else {
        match first_feed(feeds_of(tree.first()), id) {
            Some(feed) => Some(feed),
            None => lookup(tree.drop_first(), id),
        }
    }
}

/// The feeds of the folders with the id `id`, in the order of the tree.
pub open spec fn orphans(tree: Seq<FolderView>, id: u64) -> Seq<FeedView>
    decreases tree.len(),
{
    if tree.len() == 0 {
        Seq::empty()
    } else if tree.last().id == id {
        orphans(tree.drop_last(), id) + feeds_of(tree.last())
    } else {
        orphans(tree.drop_last(), id)
    }
}

/// Feeds as members of the folder `heir`.
pub open spec fn adopted(feeds: Seq<FeedView>, heir: u64) -> Seq<FeedView> {
    feeds.map_values(|x: FeedView| FeedView { folder_id: heir, ..x })
}

/// The tree without the folder `id`, whose feeds stand behind those of the
/// folder `heir`.
pub open spec fn without_folder(tree: Seq<FolderView>, id: u64, heir: u64) -> Seq<FolderView> {
    let moved = adopted(orphans(tree, id), heir);
    tree.filter(|f: FolderView| f.id != id).map_values(
        |f: FolderView|
            if f.id == heir && moved.len() > 0 {
                FolderView { feeds: Some(feeds_of(f) + moved), ..f }
            } else {
                f
            },
    )
}

/// The tree in which the feed `id` has this name and address and stands
/// behind the feeds of the folder `folder_id`. Nothing changes where the tree
/// holds no such feed.
pub open spec fn relocated(
    tree: Seq<FolderView>,
    id: u64,
    name: Seq<char>,
    url: Seq<char>,
    folder_id: u64,
) -> Seq<FolderView> {
    match lookup(tree, id) {
        Some(feed) => with_feed(without_feed(tree, id), FeedView { name, url, folder_id, ..feed }),
        None => tree,
    }
}

impl Patch {
    /// Changes `feed`.
    pub fn apply(&self, feed: &mut Feed)
        ensures
            final(feed)@ == self@.applied(old(feed)@),
    {
        match self {
            Patch::Retitle { name, url } => {
                feed.name = name.clone();
                feed.url = url.clone();
            },
            Patch::Fetching(on) => {
                feed.status = *on;
            },
            Patch::Hydrate(articles) => {
                if feed.articles.is_none() {
                    let copy = articles.clone();
                    assert(copy.deep_view() =~= articles.deep_view());
                    feed.articles = Some(copy);
                }
            },
            Patch::Absorb { site, last_seen, articles } => {
                feed.site = Some(site.clone());
                feed.last_seen = *last_seen;
                feed.status = false;
                let mut copy = articles.clone();
                assert(copy.deep_view() =~= articles.deep_view());
                let loaded = feed.articles.take();
                match loaded {
                    Some(mut list) => {
                        let ghost had = list.deep_view();
                        list.append(&mut copy);
                        assert(list.deep_view() =~= had + articles.deep_view());
                        feed.articles = Some(list);
                    },
                    None => {
                        feed.articles = Some(copy);
                    },
                }
            },
        }
    }
}

/// Changes the feed `id` of a list by `patch`.
fn patch_feeds(list: &mut Vec<Feed>, id: u64, patch: &Patch)
    ensures
        final(list).deep_view() == patched_list(old(list).deep_view(), id, patch@),
{
    let ghost before = list.deep_view();
    let mut j: usize = 0;
    while j < list.len()
        invariant
            j <= list.len(),
            list.len() == before.len(),
            forall|k: int|
                0 <= k < j ==> #[trigger] list.deep_view()[k] == patched_list(
                    before,
                    id,
                    patch@,
                )[k],
            forall|k: int| j <= k < before.len() ==> #[trigger] list.deep_view()[k] == before[k],
        decreases list.len() - j,
    {
        let ghost cur = list.deep_view();
        assert(cur[j as int] == list@[j as int].deep_view());
        if list[j].id == id {
            patch.apply(&mut list[j]);
        }
        assert forall|k: int| 0 <= k < list.len() && k != j implies #[trigger] list.deep_view()[k]
            == cur[k] by {}
        j += 1;
    }
    assert(list.deep_view() =~= patched_list(before, id, patch@));
}

/// Removes the feed `id` from a list.
fn drop_feed(list: &mut Vec<Feed>, id: u64)
    ensures
        final(list).deep_view() == others(old(list).deep_view(), id),
{
    let ghost before = list.deep_view();
    let ghost other = |x: FeedView| x.id != id;
    let mut i: usize = 0;
    let ghost mut k: int = 0;
    assert(before.take(0).filter(other) =~= Seq::empty()) by {
        reveal(Seq::filter);
    }
    while i < list.len()
        invariant
            forall|x: FeedView| #[trigger] other(x) == (x.id != id),
            0 <= k <= before.len(),
            i <= list.len(),
            list.len() - i == before.len() - k,
            list.deep_view() =~= before.take(k).filter(other) + before.skip(k),
            i == before.take(k).filter(other).len(),
        decreases list.len() - i,
    {
        let ghost cur = list@;
        proof {
            lemma_retain_step(list.deep_view(), before, other, k);
            assert(list.deep_view()[i as int] == list@[i as int].deep_view());
        }
        if list[i].id == id {
            list.remove(i);
            proof {
                lemma_deep_view_remove(cur, list@, i as int);
            }
        } else {
            i += 1;
        }
        proof {
            k = k + 1;
        }
    }
    assert(before.take(k) =~= before);
    assert(before.filter(other) == others(before, id)) by {
        assert(other =~= (|x: FeedView| x.id != id));
    }
}

/// The first feed of a list that has the id `id`.
fn first_in(list: &Vec<Feed>, id: u64) -> (r: Option<&Feed>)
    ensures
        r.deep_view() == first_feed(list.deep_view(), id),
{
    let ghost all = list.deep_view();
    let mut j: usize = 0;
    assert(all.skip(0) =~= all);
    while j < list.len()
        invariant
            j <= list.len(),
            all == list.deep_view(),
            first_feed(all, id) == first_feed(all.skip(j as int), id),
        decreases list.len() - j,
    {
        assert(all.skip(j as int).first() == list@[j as int].deep_view());
        assert(all.skip(j as int).drop_first() =~= all.skip(j + 1));
        if list[j].id == id {
            return Some(&list[j]);
        }
        j += 1;
    }
    None
}

/// Puts the feeds of `list`, as members of the folder `heir`, behind `moved`.
fn adopt(list: &Vec<Feed>, heir: u64, moved: &mut Vec<Feed>)
    ensures
        final(moved).deep_view() == old(moved).deep_view() + adopted(list.deep_view(), heir),
{
    let ghost had = moved.deep_view();
    let ghost all = list.deep_view();
    let mut j: usize = 0;
    while j < list.len()
        invariant
            j <= list.len(),
            all == list.deep_view(),
            moved.deep_view() =~= had + adopted(all.take(j as int), heir),
        decreases list.len() - j,
    {
        let ghost cur = moved.deep_view();
        let mut feed = list[j].clone();
        feed.folder_id = heir;
        moved.push(feed);
        assert(all[j as int] == list@[j as int].deep_view());
        assert(moved.deep_view() =~= cur.push(FeedView { folder_id: heir, ..all[j as int] }));
        assert(adopted(all.take(j + 1), heir) =~= adopted(all.take(j as int), heir).push(
            FeedView { folder_id: heir, ..all[j as int] },
        ));
        j += 1;
    }
    assert(all.take(list.len() as int) =~= all);
}

/// The tree of folders that readers see.
pub struct Mirror {
    folders: Vec<Folder>,
}

impl View for Mirror {
    type V = Seq<FolderView>;

    closed spec fn view(&self) -> Seq<FolderView> {
        self.folders.deep_view()
    }
}

impl Clone for Mirror {
    fn clone(&self) -> (r: Self)
        ensures
            r@ == self@,
    {
        let folders = self.folders.clone();
        assert(folders.deep_view() =~= self.folders.deep_view());
        Mirror { folders }
    }
}

impl Mirror {
    /// A tree that holds the folders given.
    pub fn new(folders: Vec<Folder>) -> (m: Mirror)
        ensures
            m@ == folders.deep_view(),
    {
        Mirror { folders }
    }

    /// The folders, for reading.
    pub fn folders(&self) -> (r: &Vec<Folder>)
        ensures
            r.deep_view() == self@,
    {
        &self.folders
    }

    /// Changes the feed `id` by `patch`.
    pub fn patch(&mut self, id: u64, patch: &Patch)
        ensures
            final(self)@ == patched(old(self)@, id, patch@),
    {
        let ghost before = self@;
        let mut i: usize = 0;
        while i < self.folders.len()
            invariant
                i <= self.folders.len(),
                self.folders.len() == before.len(),
                forall|k: int|
                    0 <= k < i ==> #[trigger] self@[k] == patched(before, id, patch@)[k],
                forall|k: int| i <= k < before.len() ==> #[trigger] self@[k] == before[k],
            decreases self.folders.len() - i,
        {
            let ghost cur = self@;
            assert(cur[i as int] == self.folders@[i as int].deep_view());
            let folder = &mut self.folders[i];
            match &mut folder.feeds {
                Some(list) => {
                    patch_feeds(list, id, patch);
                },
                None => {},
            }
            assert(self@[i as int] == patched(before, id, patch@)[i as int]);
            assert forall|k: int| 0 <= k < self.folders.len() && k != i implies #[trigger] self@[k]
                == cur[k] by {}
            i += 1;
        }
        assert(self@ =~= patched(before, id, patch@));
    }

    /// Puts a new, empty folder behind the others.
    pub fn insert_folder(&mut self, id: u64, name: String)
        ensures
            final(self)@ == with_folder(old(self)@, id, name@),
    {
        self.folders.push(Folder { id, name, feeds: None });
        assert(self@ =~= with_folder(old(self)@, id, name@));
    }

    /// Gives the folder `id` the name `name`.
    pub fn rename_folder(&mut self, id: u64, name: &String)
        ensures
            final(self)@ == renamed(old(self)@, id, name@),
    {
        let ghost before = self@;
        let mut i: usize = 0;
        while i < self.folders.len()
            invariant
                i <= self.folders.len(),
                self.folders.len() == before.len(),
                forall|k: int| 0 <= k < i ==> #[trigger] self@[k] == renamed(before, id, name@)[k],
                forall|k: int| i <= k < before.len() ==> #[trigger] self@[k] == before[k],
            decreases self.folders.len() - i,
        {
            let ghost cur = self@;
            assert(cur[i as int] == self.folders@[i as int].deep_view());
            if self.folders[i].id == id {
                self.folders[i].name = name.clone();
            }
            assert forall|k: int| 0 <= k < self.folders.len() && k != i implies #[trigger] self@[k]
                == cur[k] by {}
            i += 1;
        }
        assert(self@ =~= renamed(before, id, name@));
    }

    /// Puts `feed` behind the feeds of the folder that it names.
    pub fn insert_feed(&mut self, feed: Feed)
        ensures
            final(self)@ == with_feed(old(self)@, feed@),
    {
        let ghost before = self@;
        let mut i: usize = 0;
        while i < self.folders.len()
            invariant
                i <= self.folders.len(),
                self.folders.len() == before.len(),
                forall|k: int| 0 <= k < i ==> #[trigger] self@[k] == with_feed(before, feed@)[k],
                forall|k: int| i <= k < before.len() ==> #[trigger] self@[k] == before[k],
            decreases self.folders.len() - i,
        {
            let ghost cur = self@;
            assert(cur[i as int] == self.folders@[i as int].deep_view());
            if self.folders[i].id == feed.folder_id {
                let mut list = match self.folders[i].feeds.take() {
                    Some(list) => list,
                    None => Vec::new(),
                };
                let ghost had = list.deep_view();
                assert(had =~= feeds_of(cur[i as int]));
                list.push(feed.clone());
                assert(list.deep_view() =~= had.push(feed@));
                self.folders[i].feeds = Some(list);
            }
            assert forall|k: int| 0 <= k < self.folders.len() && k != i implies #[trigger] self@[k]
                == cur[k] by {}
            i += 1;
        }
        assert(self@ =~= with_feed(before, feed@));
    }

    /// Removes the feed `id`.
    pub fn remove_feed(&mut self, id: u64)
        ensures
            final(self)@ == without_feed(old(self)@, id),
    {
        let ghost before = self@;
        let mut i: usize = 0;
        while i < self.folders.len()
            invariant
                i <= self.folders.len(),
                self.folders.len() == before.len(),
                forall|k: int| 0 <= k < i ==> #[trigger] self@[k] == without_feed(before, id)[k],
                forall|k: int| i <= k < before.len() ==> #[trigger] self@[k] == before[k],
            decreases self.folders.len() - i,
        {
            let ghost cur = self@;
            assert(cur[i as int] == self.folders@[i as int].deep_view());
            let folder = &mut self.folders[i];
            match &mut folder.feeds {
                Some(list) => {
                    drop_feed(list, id);
                },
                None => {},
            }
            assert(self@[i as int] == without_feed(before, id)[i as int]);
            assert forall|k: int| 0 <= k < self.folders.len() && k != i implies #[trigger] self@[k]
                == cur[k] by {}
            i += 1;
        }
        assert(self@ =~= without_feed(before, id));
    }

    /// The first feed with the id `id`.
    pub fn find(&self, id: u64) -> (r: Option<&Feed>)
        ensures
            r.deep_view() == lookup(self@, id),
    {
        let ghost all = self@;
        let mut i: usize = 0;
        assert(all.skip(0) =~= all);
        while i < self.folders.len()
            invariant
                i <= self.folders.len(),
                all == self@,
                lookup(all, id) == lookup(all.skip(i as int), id),
            decreases self.folders.len() - i,
        {
            assert(all.skip(i as int).first() == self.folders@[i as int].deep_view());
            assert(all.skip(i as int).drop_first() =~= all.skip(i + 1));
            match &self.folders[i].feeds {
                Some(list) => {
                    let found = first_in(list, id);
                    if found.is_some() {
                        return found;
                    }
                },
                None => {},
            }
            i += 1;
        }
        None
    }

    /// Removes the folder `id` and puts its feeds behind those of the folder
    /// `heir`.
    pub fn remove_folder(&mut self, id: u64, heir: u64)
        ensures
            final(self)@ == without_folder(old(self)@, id, heir),
    {
        let ghost before = self@;
        let ghost keep = |f: FolderView| f.id != id;
        let mut moved: Vec<Feed> = Vec::new();
        let mut i: usize = 0;
        let ghost mut k: int = 0;
        assert(before.take(0).filter(keep) =~= Seq::empty()) by {
            reveal(Seq::filter);
        }
        assert(moved.deep_view() =~= adopted(orphans(before.take(0), id), heir));
        while i < self.folders.len()
            invariant
                forall|f: FolderView| #[trigger] keep(f) == (f.id != id),
                0 <= k <= before.len(),
                i <= self.folders.len(),
                self.folders.len() - i == before.len() - k,
                self@ =~= before.take(k).filter(keep) + before.skip(k),
                i == before.take(k).filter(keep).len(),
                moved.deep_view() == adopted(orphans(before.take(k), id), heir),
            decreases self.folders.len() - i,
        {
            let ghost cur = self.folders@;
            proof {
                lemma_retain_step(self@, before, keep, k);
                assert(self@[i as int] == self.folders@[i as int].deep_view());
                assert(before.take(k + 1).drop_last() =~= before.take(k));
                assert(before.take(k + 1).last() == before[k]);
            }
            if self.folders[i].id == id {
                let folder = self.folders.remove(i);
                proof {
                    lemma_deep_view_remove(cur, self.folders@, i as int);
                }
                let ghost gone = moved.deep_view();
                match &folder.feeds {
                    Some(list) => {
                        adopt(list, heir, &mut moved);
                    },
                    None => {
                        assert(adopted(Seq::<FeedView>::empty(), heir) =~= Seq::empty());
                        assert(gone + Seq::<FeedView>::empty() =~= gone);
                    },
                }
                assert(moved.deep_view() =~= adopted(orphans(before.take(k + 1), id), heir));
            } else {
                i += 1;
            }
            proof {
                k = k + 1;
            }
        }
        assert(before.take(k) =~= before);
        let ghost kept = self@;
        let ghost pool = moved.deep_view();
        if moved.len() > 0 {
            let mut j: usize = 0;
            while j < self.folders.len()
                invariant
                    j <= self.folders.len(),
                    self.folders.len() == kept.len(),
                    pool == moved.deep_view(),
                    pool.len() > 0,
                    forall|n: int|
                        0 <= n < j ==> #[trigger] self@[n] == (if kept[n].id == heir {
                            FolderView { feeds: Some(feeds_of(kept[n]) + pool), ..kept[n] }
                        } else {
                            kept[n]
                        }),
                    forall|n: int| j <= n < kept.len() ==> #[trigger] self@[n] == kept[n],
                decreases self.folders.len() - j,
            {
                let ghost cur = self@;
                assert(cur[j as int] == self.folders@[j as int].deep_view());
                if self.folders[j].id == heir {
                    let mut list = match self.folders[j].feeds.take() {
                        Some(list) => list,
                        None => Vec::new(),
                    };
                    let ghost had = list.deep_view();
                    assert(had =~= feeds_of(cur[j as int]));
                    let mut copy = moved.clone();
                    assert(copy.deep_view() =~= pool);
                    list.append(&mut copy);
                    assert(list.deep_view() =~= had + pool);
                    self.folders[j].feeds = Some(list);
                }
                assert forall|n: int|
                    0 <= n < self.folders.len() && n != j implies #[trigger] self@[n] == cur[n] by {}
                j += 1;
            }
        }
        assert(self@ =~= without_folder(before, id, heir));
    }

    /// Gives the feed `id` this name and address and puts it behind the
    /// feeds of the folder `folder_id`.
    pub fn move_feed(&mut self, id: u64, name: &String, url: &String, folder_id: u64)
        ensures
            final(self)@ == relocated(old(self)@, id, name@, url@, folder_id),
    {
        let found: Option<Feed> = match self.find(id) {
            Some(feed) => Some(feed.clone()),
            None => None,
        };
        match found {
            Some(mut feed) => {
                feed.name = name.clone();
                feed.url = url.clone();
                feed.folder_id = folder_id;
                self.remove_feed(id);
                self.insert_feed(feed);
            },
            None => {},
        }
    }
}

} // verus!
