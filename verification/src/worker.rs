//! The engine: the store and the tree that mirrors it, changed together by
//! the commands that arrive in order. A fetch is begun by a command and
//! finished by the document that arrived, or by the news that none did.

use vstd::prelude::*;

use crate::db::{
    create_feed, create_folder, delete_feed, delete_folder, rename_folder, update_feed,
    update_feed_ext_and_upsert_articles, Database, StoreError,
};
use crate::document::{Document, DocumentView, Entry};
use crate::fetch::{
    candidate, candidate_timestamp, choose_site, has_new_content, is_news, parse_address,
    parsed_address, site_of,
};
use crate::mirror::{
    adopted, lookup, patched, renamed, with_feed, with_folder, without_feed, without_folder, Mirror,
    Patch, PatchView,
};
use crate::models::{Feed, Folder, FolderView};
use crate::query::{fetch_folders, find_articles_by_feed, watermark_of};
use crate::replica::{
    base, fresh_feed, lemma_absorb_mirrors, lemma_create_feed_mirrors, lemma_create_folder_mirrors,
    lemma_delete_feed_mirrors, lemma_delete_folder_mirrors, lemma_feeds_in_after_delete_folder,
    lemma_lookup_mirrors, lemma_lookup_patched, lemma_rename_folder_mirrors,
    lemma_transient_mirrors, lemma_tree_mirrors, lemma_update_feed_mirrors, mirrors, stored,
    updated,
};
use crate::schema::{
    lemma_create_feed_inv, lemma_create_folder_inv, lemma_delete_feed_inv, lemma_delete_folder_inv,
    lemma_feed_at, lemma_rename_folder_inv, lemma_update_feed_inv, DatabaseView, FeedRowView,
    FolderRowView, DEFAULT_FOLDER,
};
use crate::tables::{lemma_filter_origin, lemma_filter_split};
use crate::{Action, Message, MessageView};

verus! {

/// The store and the tree that mirrors it.
pub struct Engine {
    db: Database,
    mirror: Mirror,
}

/// Mathematical value of an [`Engine`].
pub struct EngineView {
    pub store: DatabaseView,
    pub tree: Seq<FolderView>,
}

impl View for Engine {
    type V = EngineView;

    closed spec fn view(&self) -> EngineView {
        EngineView { store: self.db@, tree: self.mirror@ }
    }
}

impl EngineView {
    /// The store obeys its schema and the tree mirrors the store.
    pub open spec fn inv(self) -> bool {
        self.store.inv() && mirrors(self.tree, self.store)
    }

    /// After a command to add a folder `name`.
    pub open spec fn create_folder(self, name: Seq<char>) -> EngineView {
        if self.store.next_folder < u64::MAX {
            EngineView {
                store: self.store.create_folder(name),
                tree: with_folder(self.tree, self.store.next_folder, name),
            }
        } else {
            self
        }
    }

    /// After a command to give the folder `id` the name `name`.
    pub open spec fn rename_folder(self, id: u64, name: Seq<char>) -> EngineView {
        EngineView {
            store: self.store.rename_folder(id, name),
            tree: renamed(self.tree, id, name),
        }
    }

    /// After a command to delete the folder `id`. The default folder stays.
    pub open spec fn delete_folder(self, id: u64) -> EngineView {
        if id != DEFAULT_FOLDER {
            EngineView {
                store: self.store.delete_folder(id),
                tree: without_folder(self.tree, id, DEFAULT_FOLDER),
            }
        } else {
            self
        }
    }

    /// Whether a feed can be added to the folder `folder_id`.
    pub open spec fn admits_feed(self, folder_id: u64) -> bool {
        self.store.has_folder(folder_id) && self.store.next_feed < u64::MAX
    }

    /// After a command to add a feed to the folder `folder_id`.
    pub open spec fn create_feed(self, url: Seq<char>, name: Seq<char>, folder_id: u64) -> EngineView {
        if self.admits_feed(folder_id) {
            EngineView {
                store: self.store.create_feed(url, name, folder_id),
                tree: with_feed(self.tree, fresh_feed(self.store.next_feed, url, name, folder_id)),
            }
        } else {
            self
        }
    }

    /// Whether the feed `id` can be updated to be in the folder `folder_id`.
    pub open spec fn admits_update(self, id: u64, folder_id: u64) -> bool {
        self.store.previous_folder(id, folder_id) != 0 ==> self.store.has_folder(folder_id)
    }

    /// After a command to give the feed `id` an address and a name and to
    /// put it into the folder `folder_id`.
    pub open spec fn update_feed(
        self,
        id: u64,
        url: Seq<char>,
        name: Seq<char>,
        folder_id: u64,
    ) -> EngineView {
        if self.admits_update(id, folder_id) {
            EngineView {
                store: self.store.update_feed(id, url, name, folder_id),
                tree: updated(self.tree, self.store, id, url, name, folder_id),
            }
        } else {
            self
        }
    }

    /// After a command to delete the feed `id`.
    pub open spec fn delete_feed(self, id: u64) -> EngineView {
        EngineView { store: self.store.delete_feed(id), tree: without_feed(self.tree, id) }
    }

    /// Whether a fetch of the feed `id` can begin: the tree holds the feed
    /// and no fetch of it is in flight.
    pub open spec fn accepts_fetch(self, id: u64) -> bool {
        lookup(self.tree, id) is Some && !lookup(self.tree, id)->0.status
    }

    /// After a command to fetch the feed `id`. Where the fetch can begin,
    /// the feed takes the articles of the store, unless articles are loaded,
    /// and is marked as being fetched. Else nothing changes.
    pub open spec fn begin_fetch(self, id: u64) -> EngineView {
        if self.accepts_fetch(id) {
            let hydrated = if lookup(self.tree, id)->0.articles is None {
                patched(self.tree, id, PatchView::Hydrate(self.store.find_articles(id, 0)))
            } else {
                self.tree
            };
            EngineView { tree: patched(hydrated, id, PatchView::Fetching(true)), ..self }
        } else {
            self
        }
    }

    /// Whether a fetch of the feed `id` that is in flight has brought `doc`
    /// and `doc` is to be stored: it brings something new, and ids are left
    /// for its entries.
    pub open spec fn takes(self, id: u64, doc: DocumentView) -> bool {
        let feed = lookup(self.tree, id)->0;
        &&& is_news(candidate(doc, feed.last_seen), feed.last_seen, doc.entries.len())
        &&& self.store.fits(doc.entries.reverse(), doc.authors)
    }

    /// After the fetch of the feed `id` ended. `outcome` is the document that
    /// arrived, if one did, and `parsed_id` its identifier as an address,
    /// where it is one.
    ///
    /// Nothing changes unless the tree holds the feed and a fetch of it is in
    /// flight. A document that is taken is stored, oldest entry first, under
    /// the timestamp it stands for; the feed of the tree takes its site and
    /// that timestamp as its watermark, and the articles that changed after
    /// the watermark it had are put behind those loaded. In every case the
    /// fetch is over.
    pub open spec fn finish_fetch(
        self,
        id: u64,
        outcome: Option<DocumentView>,
        parsed_id: Option<Seq<char>>,
    ) -> EngineView {
        match lookup(self.tree, id) {
            Some(feed) if feed.status => match outcome {
                Some(doc) if self.takes(id, doc) => {
                    let stamp = candidate(doc, feed.last_seen);
                    let site = site_of(doc, parsed_id, feed.url);
                    let store = self.store.update_feed_ext(
                        id,
                        site,
                        doc.kind,
                        doc.title,
                        doc.description,
                    ).upsert_articles(id, site, stamp, doc.authors, doc.entries.reverse());
                    EngineView {
                        store,
                        tree: patched(
                            self.tree,
                            id,
                            PatchView::Absorb {
                                site,
                                last_seen: stamp,
                                articles: store.find_articles(id, watermark_of(feed)),
                            },
                        ),
                    }
                },
                _ => EngineView {
                    tree: patched(self.tree, id, PatchView::Fetching(false)),
                    ..self
                },
            },
            _ => self,
        }
    }

    /// After the command `message`.
    pub open spec fn step(self, message: MessageView) -> EngineView {
        match message {
            MessageView::Folder(Action::Create, folder) => self.create_folder(folder.name),
            MessageView::Folder(Action::Update, folder) => self.rename_folder(
                folder.id,
                folder.name,
            ),
            MessageView::Folder(Action::Delete, folder) => self.delete_folder(folder.id),
            MessageView::Feed(Action::Create, feed) => self.create_feed(
                feed.url,
                feed.name,
                feed.folder_id,
            ),
            MessageView::Feed(Action::Update, feed) => self.update_feed(
                feed.id,
                feed.url,
                feed.name,
                feed.folder_id,
            ),
            MessageView::Feed(Action::Delete, feed) => self.delete_feed(feed.id),
            MessageView::Feed(Action::Fetch, feed) => self.begin_fetch(feed.id),
            _ => self,
        }
    }

    /// The address to fetch after the command `message`, where the command
    /// began a fetch.
    pub open spec fn request(self, message: MessageView) -> Option<Seq<char>> {
        match message {
            MessageView::Feed(Action::Fetch, feed) if self.accepts_fetch(feed.id) => Some(
                lookup(self.tree, feed.id)->0.url,
            ),
            _ => None,
        }
    }
}

/// What the caller is to do once a command was handled.
#[derive(Debug, PartialEq, Eq)]
pub enum Effect {
    /// Nothing.
    Nothing,
    /// Fetch the address `url` and hand what arrives to the engine as the
    /// end of the fetch of the feed `feed_id`.
    Fetch { feed_id: u64, url: String },
}

/// A fetch of one feed at a time: once a fetch of a feed was asked for,
/// whether it began or not, a second one does not begin, and asking again
/// changes nothing.
pub proof fn lemma_single_flight(e: EngineView, id: u64)
    ensures
        !e.begin_fetch(id).accepts_fetch(id),
        e.begin_fetch(id).begin_fetch(id) == e.begin_fetch(id),
        e.accepts_fetch(id) ==> lookup(e.begin_fetch(id).tree, id) is Some && lookup(
            e.begin_fetch(id).tree,
            id,
        )->0.status,
{
    if e.accepts_fetch(id) {
        let feed = lookup(e.tree, id)->0;
        crate::replica::lemma_lookup(e.tree, id);
        let load = PatchView::Hydrate(e.store.find_articles(id, 0));
        let hydrated = if feed.articles is None {
            patched(e.tree, id, load)
        } else {
            e.tree
        };
        lemma_lookup_patched(e.tree, id, load, id);
        lemma_lookup_patched(hydrated, id, PatchView::Fetching(true), id);
    }
}

/// The end of a fetch never moves a watermark back: the store holds the same
/// feeds after it as before, and none with an earlier watermark.
pub proof fn lemma_watermarks_grow(
    e: EngineView,
    id: u64,
    outcome: Option<DocumentView>,
    parsed_id: Option<Seq<char>>,
)
    requires
        e.inv(),
    ensures
        e.finish_fetch(id, outcome, parsed_id).inv(),
        e.finish_fetch(id, outcome, parsed_id).store.feeds.len() == e.store.feeds.len(),
        forall|k: int|
            0 <= k < e.store.feeds.len() ==> {
                &&& (#[trigger] e.finish_fetch(id, outcome, parsed_id).store.feeds[k]).id
                    == e.store.feeds[k].id
                &&& e.finish_fetch(id, outcome, parsed_id).store.feeds[k].last_seen
                    >= e.store.feeds[k].last_seen
            },
{
    let after = e.finish_fetch(id, outcome, parsed_id);
    match lookup(e.tree, id) {
        Some(feed) if feed.status => {
            lemma_lookup_mirrors(e.tree, e.store, id);
            match outcome {
                Some(doc) if e.takes(id, doc) => {
                    let stamp = candidate(doc, feed.last_seen);
                    let site = site_of(doc, parsed_id, feed.url);
                    lemma_absorb_mirrors(
                        e.tree,
                        e.store,
                        id,
                        site,
                        doc.kind,
                        doc.title,
                        doc.description,
                        stamp,
                        doc.authors,
                        doc.entries.reverse(),
                        after.store.find_articles(id, watermark_of(feed)),
                    );
                },
                _ => {
                    lemma_transient_mirrors(e.tree, e.store, id, PatchView::Fetching(false));
                },
            }
        },
        _ => {},
    }
}

/// Deleting a folder hands its feeds to the default folder: afterwards
/// neither the store nor the tree holds the folder, no feed is lost, and the
/// default folder, which stands first, holds the feeds it held and behind
/// them the feeds of the deleted folder, in the store and in the tree.
pub proof fn lemma_folder_deletion_transfers(e: EngineView, id: u64)
    requires
        e.inv(),
        id != DEFAULT_FOLDER,
    ensures
        ({
            let after = e.delete_folder(id);
            let heirloom = adopted(e.store.feeds_in(id), DEFAULT_FOLDER);
            &&& after.inv()
            &&& !after.store.has_folder(id)
            &&& forall|i: int| 0 <= i < after.tree.len() ==> (#[trigger] after.tree[i]).id != id
            &&& after.store.feeds.len() == e.store.feeds.len()
            &&& after.store.folders[0].id == DEFAULT_FOLDER
            &&& after.tree[0].id == DEFAULT_FOLDER
            &&& after.store.feeds_in(DEFAULT_FOLDER) == e.store.feeds_in(DEFAULT_FOLDER)
                + heirloom
            &&& stored(after.tree[0]) == stored(e.tree[0]) + heirloom
        }),
{
    let after = e.delete_folder(id);
    lemma_delete_folder_inv(e.store, id);
    lemma_delete_folder_mirrors(e.tree, e.store, id);
    lemma_feeds_in_after_delete_folder(e.store, id, DEFAULT_FOLDER);
    let keep = |f: FolderRowView| f.id != id;
    lemma_filter_origin(e.store.folders, keep);
    assert forall|i: int| 0 <= i < after.tree.len() implies (#[trigger] after.tree[i]).id != id by {
        assert(after.tree[i].id == after.store.folders[i].id);
    }
    assert(after.store.feeds.len() == e.store.feeds.len()) by {
        let stay = |r: FeedRowView| r.folder_id != id;
        let go = |r: FeedRowView| r.folder_id == id;
        lemma_filter_split(e.store.feeds, go, stay);
    }
}

/// Every command leaves the store within its schema and the tree a mirror
/// of the store.
pub proof fn lemma_step_inv(e: EngineView, message: MessageView)
    requires
        e.inv(),
    ensures
        e.step(message).inv(),
{
    match message {
        MessageView::Folder(Action::Create, folder) => {
            if e.store.next_folder < u64::MAX {
                lemma_create_folder_inv(e.store, folder.name);
                lemma_create_folder_mirrors(e.tree, e.store, folder.name);
            }
        },
        MessageView::Folder(Action::Update, folder) => {
            lemma_rename_folder_inv(e.store, folder.id, folder.name);
            lemma_rename_folder_mirrors(e.tree, e.store, folder.id, folder.name);
        },
        MessageView::Folder(Action::Delete, folder) => {
            if folder.id != DEFAULT_FOLDER {
                lemma_delete_folder_inv(e.store, folder.id);
                lemma_delete_folder_mirrors(e.tree, e.store, folder.id);
            }
        },
        MessageView::Feed(Action::Create, feed) => {
            if e.admits_feed(feed.folder_id) {
                lemma_create_feed_inv(e.store, feed.url, feed.name, feed.folder_id);
                lemma_create_feed_mirrors(e.tree, e.store, feed.url, feed.name, feed.folder_id);
            }
        },
        MessageView::Feed(Action::Update, feed) => {
            if e.admits_update(feed.id, feed.folder_id) {
                lemma_update_feed_inv(e.store, feed.id, feed.url, feed.name, feed.folder_id);
                lemma_update_feed_mirrors(
                    e.tree,
                    e.store,
                    feed.id,
                    feed.url,
                    feed.name,
                    feed.folder_id,
                );
            }
        },
        MessageView::Feed(Action::Delete, feed) => {
            lemma_delete_feed_inv(e.store, feed.id);
            lemma_delete_feed_mirrors(e.tree, e.store, feed.id);
        },
        MessageView::Feed(Action::Fetch, feed) => {
            lemma_begin_fetch_inv(e, feed.id);
        },
        _ => {},
    }
}

/// A feed that was added can be read at once: after a command to add a feed
/// was taken, the tree holds the feed under the id it was given, idle and
/// never fetched.
pub proof fn lemma_created_feed_is_mirrored(
    e: EngineView,
    url: Seq<char>,
    name: Seq<char>,
    folder_id: u64,
)
    requires
        e.inv(),
        e.admits_feed(folder_id),
    ensures
        e.create_feed(url, name, folder_id).inv(),
        lookup(e.create_feed(url, name, folder_id).tree, e.store.next_feed) is Some,
        base(lookup(e.create_feed(url, name, folder_id).tree, e.store.next_feed)->0)
            == fresh_feed(e.store.next_feed, url, name, folder_id),
{
    let after = e.create_feed(url, name, folder_id);
    lemma_create_feed_inv(e.store, url, name, folder_id);
    lemma_create_feed_mirrors(e.tree, e.store, url, name, folder_id);
    let n = e.store.feeds.len() as int;
    lemma_lookup_mirrors(after.tree, after.store, e.store.next_feed);
    lemma_feed_at(after.store, n);
}

/// Asking for a fetch keeps the store as it is and the tree a mirror of it.
pub proof fn lemma_begin_fetch_inv(e: EngineView, id: u64)
    requires
        e.inv(),
    ensures
        e.begin_fetch(id).inv(),
        e.begin_fetch(id).store == e.store,
{
    if e.accepts_fetch(id) {
        let load = PatchView::Hydrate(e.store.find_articles(id, 0));
        lemma_transient_mirrors(e.tree, e.store, id, load);
        let hydrated = if lookup(e.tree, id)->0.articles is None {
            patched(e.tree, id, load)
        } else {
            e.tree
        };
        lemma_transient_mirrors(hydrated, e.store, id, PatchView::Fetching(true));
    }
}

/// The entries in the opposite order.
pub fn reversed(entries: Vec<Entry>) -> (r: Vec<Entry>)
    ensures
        r.deep_view() == entries.deep_view().reverse(),
{
    let ghost all = entries.deep_view();
    let mut rest = entries;
    let mut out: Vec<Entry> = Vec::new();
    while rest.len() > 0
        invariant
            rest.len() + out.len() == all.len(),
            forall|k: int| 0 <= k < rest.len() ==> #[trigger] rest.deep_view()[k] == all[k],
            forall|k: int|
                0 <= k < out.len() ==> #[trigger] out.deep_view()[k] == all[all.len() - 1 - k],
        decreases rest.len(),
    {
        let ghost left = rest.deep_view();
        let ghost done = out.deep_view();
        let last = rest.pop();
        match last {
            Some(e) => {
                assert(e.deep_view() == left[left.len() - 1]);
                out.push(e);
                assert forall|k: int| 0 <= k < rest.len() implies #[trigger] rest.deep_view()[k]
                    == all[k] by {
                    assert(rest.deep_view()[k] == left[k]);
                }
                assert forall|k: int| 0 <= k < out.len() implies #[trigger] out.deep_view()[k]
                    == all[all.len() - 1 - k] by {
                    if k < done.len() {
                        assert(out.deep_view()[k] == done[k]);
                    }
                }
            },
            None => {},
        }
    }
    out
}

impl Clone for Engine {
    fn clone(&self) -> (r: Self)
        ensures
            r@ == self@,
    {
        Engine { db: self.db.clone(), mirror: self.mirror.clone() }
    }
}

impl Engine {
    /// The store obeys its schema and the tree mirrors the store.
    pub open spec fn wf(&self) -> bool {
        self@.inv()
    }

    /// An engine over `db`, with the tree read from it once.
    pub fn new(db: Database) -> (e: Engine)
        requires
            db.wf(),
        ensures
            e.wf(),
            e@.store == db@,
            e@.tree == db@.tree(),
    {
        let folders = fetch_folders(&db);
        proof {
            lemma_tree_mirrors(db@);
        }
        Engine { db, mirror: Mirror::new(folders) }
    }

    /// The store, for reading.
    pub fn database(&self) -> (r: &Database)
        ensures
            r@ == self@.store,
    {
        &self.db
    }

    /// The tree, for reading.
    pub fn mirror(&self) -> (r: &Mirror)
        ensures
            r@ == self@.tree,
    {
        &self.mirror
    }

    /// Adds a folder with the name of `folder` to the store and to the tree.
    pub fn create_folder(&mut self, folder: &Folder) -> (r: Result<u64, StoreError>)
        requires
            old(self).wf(),
        ensures
            final(self).wf(),
            final(self)@ == old(self)@.create_folder(folder@.name),
            match r {
                Ok(id) => old(self)@.store.next_folder < u64::MAX && id
                    == old(self)@.store.next_folder,
                Err(e) => old(self)@.store.next_folder == u64::MAX && e == StoreError::IdSpace,
            },
    {
        proof {
            if self@.store.next_folder < u64::MAX {
                lemma_create_folder_mirrors(self@.tree, self@.store, folder@.name);
            }
        }
        match create_folder(&mut self.db, folder) {
            Ok(id) => {
                self.mirror.insert_folder(id, folder.name.clone());
                Ok(id)
            },
            Err(e) => Err(e),
        }
    }

    /// Renames the folder with the id of `folder` in the store and in the
    /// tree and returns the number of folders renamed.
    pub fn rename_folder(&mut self, folder: &Folder) -> (changed: usize)
        requires
            old(self).wf(),
        ensures
            final(self).wf(),
            final(self)@ == old(self)@.rename_folder(folder.id, folder@.name),
            changed == if old(self)@.store.has_folder(folder.id) { 1usize } else { 0usize },
    {
        proof {
            lemma_rename_folder_mirrors(self@.tree, self@.store, folder.id, folder@.name);
        }
        let changed = rename_folder(&mut self.db, folder);
        self.mirror.rename_folder(folder.id, &folder.name);
        changed
    }

    /// Deletes the folder with the id of `folder` from the store and from the
    /// tree; its feeds join the default folder.
    pub fn delete_folder(&mut self, folder: &Folder) -> (r: Result<(), StoreError>)
        requires
            old(self).wf(),
        ensures
            final(self).wf(),
            final(self)@ == old(self)@.delete_folder(folder.id),
            match r {
                Ok(()) => folder.id != DEFAULT_FOLDER,
                Err(e) => folder.id == DEFAULT_FOLDER && e == StoreError::DefaultFolder,
            },
    {
        proof {
            if folder.id != DEFAULT_FOLDER {
                lemma_delete_folder_mirrors(self@.tree, self@.store, folder.id);
            }
        }
        match delete_folder(&mut self.db, folder) {
            Ok(()) => {
                self.mirror.remove_folder(folder.id, DEFAULT_FOLDER);
                Ok(())
            },
            Err(e) => Err(e),
        }
    }

    /// Adds a feed with the address and name of `feed` to the folder that
    /// `feed` names, in the store and in the tree.
    pub fn create_feed(&mut self, feed: &Feed) -> (r: Result<u64, StoreError>)
        requires
            old(self).wf(),
        ensures
            final(self).wf(),
            final(self)@ == old(self)@.create_feed(feed@.url, feed@.name, feed.folder_id),
            match r {
                Ok(id) => {
                    &&& old(self)@.admits_feed(feed.folder_id)
                    &&& id == old(self)@.store.next_feed
                    &&& lookup(final(self)@.tree, id) is Some
                    &&& base(lookup(final(self)@.tree, id)->0) == fresh_feed(
                        id,
                        feed@.url,
                        feed@.name,
                        feed.folder_id,
                    )
                },
                Err(e) => {
                    &&& !old(self)@.admits_feed(feed.folder_id)
                    &&& e == if !old(self)@.store.has_folder(feed.folder_id) {
                        StoreError::NoSuchFolder
                    } else {
                        StoreError::IdSpace
                    }
                },
            },
    {
        let ghost before = self@;
        proof {
            lemma_create_feed_mirrors(
                before.tree,
                before.store,
                feed@.url,
                feed@.name,
                feed.folder_id,
            );
        }
        match create_feed(&mut self.db, feed) {
            Ok(id) => {
                self.mirror.insert_feed(
                    Feed {
                        id,
                        name: feed.name.clone(),
                        url: feed.url.clone(),
                        site: None,
                        last_seen: 0,
                        folder_id: feed.folder_id,
                        status: false,
                        articles: None,
                    },
                );
                proof {
                    let after = self@;
                    let n = before.store.feeds.len() as int;
                    lemma_lookup_mirrors(after.tree, after.store, id);
                    lemma_feed_at(after.store, n);
                }
                Ok(id)
            },
            Err(e) => Err(e),
        }
    }

    /// Updates the feed with the id of `feed` in the store and in the tree:
    /// it takes the address and name of `feed` and joins the folder that
    /// `feed` names. Returns the folder it left (0 where it stayed) and the
    /// number of feeds changed.
    pub fn update_feed(&mut self, feed: &Feed) -> (r: Result<(u64, usize), StoreError>)
        requires
            old(self).wf(),
        ensures
            final(self).wf(),
            final(self)@ == old(self)@.update_feed(
                feed.id,
                feed@.url,
                feed@.name,
                feed.folder_id,
            ),
            match r {
                Ok((previous, changed)) => {
                    &&& old(self)@.admits_update(feed.id, feed.folder_id)
                    &&& previous == old(self)@.store.previous_folder(feed.id, feed.folder_id)
                    &&& changed == if old(self)@.store.has_feed(feed.id) { 1usize } else { 0usize }
                },
                Err(e) => !old(self)@.admits_update(feed.id, feed.folder_id) && e
                    == StoreError::NoSuchFolder,
            },
    {
        let ghost before = self@;
        proof {
            lemma_update_feed_mirrors(
                before.tree,
                before.store,
                feed.id,
                feed@.url,
                feed@.name,
                feed.folder_id,
            );
            if before.store.has_feed(feed.id) {
                let k = choose|k: int|
                    0 <= k < before.store.feeds.len() && #[trigger] before.store.feeds[k].id
                        == feed.id;
                lemma_feed_at(before.store, k);
            }
        }
        match update_feed(&mut self.db, feed) {
            Ok((previous, changed)) => {
                if previous != 0 {
                    self.mirror.move_feed(feed.id, &feed.name, &feed.url, feed.folder_id);
                } else if changed > 0 {
                    self.mirror.patch(
                        feed.id,
                        &Patch::Retitle { name: feed.name.clone(), url: feed.url.clone() },
                    );
                }
                Ok((previous, changed))
            },
            Err(e) => Err(e),
        }
    }

    /// Deletes the feed with the id of `feed` from the store and from the
    /// tree and returns the number of feeds deleted.
    pub fn delete_feed(&mut self, feed: &Feed) -> (changed: usize)
        requires
            old(self).wf(),
        ensures
            final(self).wf(),
            final(self)@ == old(self)@.delete_feed(feed.id),
            changed == if old(self)@.store.has_feed(feed.id) { 1usize } else { 0usize },
    {
        proof {
            lemma_delete_feed_mirrors(self@.tree, self@.store, feed.id);
        }
        let changed = delete_feed(&mut self.db, feed);
        self.mirror.remove_feed(feed.id);
        changed
    }

    /// Begins a fetch of the feed `id`, where the tree holds the feed and no
    /// fetch of it is in flight, and returns the address to fetch.
    pub fn begin_fetch(&mut self, id: u64) -> (r: Option<String>)
        requires
            old(self).wf(),
        ensures
            final(self).wf(),
            final(self)@ == old(self)@.begin_fetch(id),
            match r {
                Some(url) => old(self)@.accepts_fetch(id) && url@ == lookup(
                    old(self)@.tree,
                    id,
                )->0.url,
                None => !old(self)@.accepts_fetch(id),
            },
    {
        let ghost before = self@;
        proof {
            lemma_begin_fetch_inv(before, id);
        }
        let (url, loaded) = match self.mirror.find(id) {
            Some(feed) => {
                if feed.status {
                    return None;
                }
                (feed.url.clone(), feed.articles.is_some())
            },
            None => {
                return None;
            },
        };
        if !loaded {
            let mut probe = Feed::new(String::new(), String::new(), 0);
            probe.id = id;
            let articles = find_articles_by_feed(&self.db, &probe);
            self.mirror.patch(id, &Patch::Hydrate(articles));
        }
        self.mirror.patch(id, &Patch::Fetching(true));
        Some(url)
    }

    /// Ends the fetch of the feed `id` with the document that arrived, or
    /// with none; `parsed_id` is the identifier of the document as an
    /// address, where it is one.
    pub fn finish_fetch_with(
        &mut self,
        id: u64,
        outcome: Option<Document>,
        parsed_id: Option<String>,
    )
        requires
            old(self).wf(),
        ensures
            final(self).wf(),
            final(self)@ == old(self)@.finish_fetch(
                id,
                outcome.deep_view(),
                parsed_id.deep_view(),
            ),
            final(self)@.store.feeds.len() == old(self)@.store.feeds.len(),
            forall|k: int|
                0 <= k < old(self)@.store.feeds.len() ==> {
                    &&& (#[trigger] final(self)@.store.feeds[k]).id == old(self)@.store.feeds[k].id
                    &&& final(self)@.store.feeds[k].last_seen
                        >= old(self)@.store.feeds[k].last_seen
                },
    {
        let ghost before = self@;
        proof {
            lemma_watermarks_grow(before, id, outcome.deep_view(), parsed_id.deep_view());
            lemma_lookup_mirrors(before.tree, before.store, id);
        }
        let probe = match self.mirror.find(id) {
            Some(feed) => {
                if !feed.status {
                    return ;
                }
                Feed {
                    id,
                    name: String::new(),
                    url: feed.url.clone(),
                    site: None,
                    last_seen: feed.last_seen,
                    folder_id: feed.folder_id,
                    status: true,
                    articles: if feed.articles.is_some() {
                        Some(Vec::new())
                    } else {
                        None
                    },
                }
            },
            None => {
                return ;
            },
        };
        let ghost found = lookup(before.tree, id)->0;
        assert(watermark_of(probe@) == watermark_of(found));
        let doc = match outcome {
            Some(doc) => doc,
            None => {
                self.mirror.patch(id, &Patch::Fetching(false));
                return ;
            },
        };
        let ghost seen = doc@;
        let stamp = candidate_timestamp(&doc, probe.last_seen);
        if !has_new_content(stamp, probe.last_seen, doc.entries.len()) {
            self.mirror.patch(id, &Patch::Fetching(false));
            return ;
        }
        let site = choose_site(&doc, parsed_id, probe.url.as_str());
        let Document { kind, title, description, authors, entries, .. } = doc;
        let oldest_first = reversed(entries);
        match update_feed_ext_and_upsert_articles(
            &mut self.db,
            &probe,
            &site,
            kind,
            title,
            description,
            stamp,
            authors,
            oldest_first,
        ) {
            Ok(published) => {
                let articles = find_articles_by_feed(&self.db, &probe);
                self.mirror.patch(id, &Patch::Absorb { site, last_seen: published, articles });
            },
            Err(_) => {
                self.mirror.patch(id, &Patch::Fetching(false));
            },
        }
    }

    /// Ends the fetch of the feed `id` with the document that arrived, or
    /// with none. No watermark of the store goes back.
    pub fn finish_fetch(&mut self, id: u64, outcome: Option<Document>)
        requires
            old(self).wf(),
        ensures
            final(self).wf(),
            final(self)@ == old(self)@.finish_fetch(
                id,
                outcome.deep_view(),
                match outcome {
                    Some(doc) => parsed_address(doc@.id),
                    None => None,
                },
            ),
            final(self)@.store.feeds.len() == old(self)@.store.feeds.len(),
            forall|k: int|
                0 <= k < old(self)@.store.feeds.len() ==> {
                    &&& (#[trigger] final(self)@.store.feeds[k]).id == old(self)@.store.feeds[k].id
                    &&& final(self)@.store.feeds[k].last_seen
                        >= old(self)@.store.feeds[k].last_seen
                },
    {
        let parsed = match &outcome {
            Some(doc) => parse_address(doc.id.as_str()),
            None => None,
        };
        self.finish_fetch_with(id, outcome, parsed)
    }

    /// Handles one command: changes the store and the tree together, and
    /// says whether an address is to be fetched.
    pub fn handle(&mut self, message: &Message) -> (r: Effect)
        requires
            old(self).wf(),
        ensures
            final(self).wf(),
            final(self)@ == old(self)@.step(message@),
            match r {
                Effect::Fetch { feed_id, url } => {
                    &&& message@ matches MessageView::Feed(Action::Fetch, feed)
                    &&& feed_id == feed.id
                    &&& old(self)@.request(message@) == Some(url@)
                },
                Effect::Nothing => old(self)@.request(message@) is None,
            },
    {
        match message {
            Message::Folder(Action::Create, folder) => {
                let _ = self.create_folder(folder);
                Effect::Nothing
            },
            Message::Folder(Action::Update, folder) => {
                let _ = self.rename_folder(folder);
                Effect::Nothing
            },
            Message::Folder(Action::Delete, folder) => {
                let _ = self.delete_folder(folder);
                Effect::Nothing
            },
            Message::Feed(Action::Create, feed) => {
                let _ = self.create_feed(feed);
                Effect::Nothing
            },
            Message::Feed(Action::Update, feed) => {
                let _ = self.update_feed(feed);
                Effect::Nothing
            },
            Message::Feed(Action::Delete, feed) => {
                let _ = self.delete_feed(feed);
                Effect::Nothing
            },
            Message::Feed(Action::Fetch, feed) => match self.begin_fetch(feed.id) {
                Some(url) => Effect::Fetch { feed_id: feed.id, url },
                None => Effect::Nothing,
            },
            _ => Effect::Nothing,
        }
    }
}

} // verus!
