//! What it means for the tree to mirror the store, and that every patch of
//! the tree follows the operation on the store that it belongs to.

use vstd::prelude::*;

use crate::mirror::{
    adopted, feeds_of, first_feed, lookup, orphans, others, patched, patched_list, relocated,
    renamed, with_feed, with_folder, without_feed, without_folder, PatchView,
};
use crate::document::{EntryView, FeedType, PersonView};
use crate::ingest::{lemma_ingest_entries_inv, lemma_upsert_articles_inv};
use crate::models::{ArticleView, FeedView, FolderView};
use crate::query::feed_of;
use crate::schema::{
    lemma_feed_columns_inv, lemma_feed_columns_keep, DatabaseView, FeedRowView, FolderRowView,
    DEFAULT_FOLDER,
};
use crate::tables::{
    lemma_filter_aligned, lemma_filter_commutes, lemma_filter_every, lemma_filter_has,
    lemma_filter_mapped, lemma_filter_none, lemma_filter_origin, lemma_filter_same,
    lemma_filter_twice, origin,
};

verus! {

/// What the store holds of a feed of the tree: everything but whether a
/// fetch is in flight and which articles are loaded.
pub open spec fn base(feed: FeedView) -> FeedView {
    FeedView { status: false, articles: None, ..feed }
}

/// The feeds of a folder of the tree, as the store holds them.
pub open spec fn stored(folder: FolderView) -> Seq<FeedView> {
    feeds_of(folder).map_values(|x: FeedView| base(x))
}

/// The tree mirrors the store: it holds the folders of the store in their
/// order, each under its name and with the feeds that the store holds for it,
/// in their order. Of a feed, the tree holds what the store holds, and in
/// addition the state of its fetch and its loaded articles.
pub open spec fn mirrors(tree: Seq<FolderView>, db: DatabaseView) -> bool {
    &&& tree.len() == db.folders.len()
    &&& forall|i: int|
        0 <= i < tree.len() ==> {
            &&& (#[trigger] tree[i]).id == db.folders[i].id
            &&& tree[i].name == db.folders[i].name
            &&& stored(tree[i]) == db.feeds_in(db.folders[i].id)
        }
}

/// The tree read from the store mirrors the store.
pub proof fn lemma_tree_mirrors(db: DatabaseView)
    ensures
        mirrors(db.tree(), db),
{
    let tree = db.tree();
    assert forall|i: int| 0 <= i < tree.len() implies {
        &&& (#[trigger] tree[i]).id == db.folders[i].id
        &&& tree[i].name == db.folders[i].name
        &&& stored(tree[i]) == db.feeds_in(db.folders[i].id)
    } by {
        assert(tree[i] == db.folder_of(db.folders[i]));
        assert(stored(tree[i]) =~= db.feeds_in(db.folders[i].id));
    }
}

/// The feeds of a folder after a feed was put behind the others.
pub proof fn lemma_feeds_in_push(db: DatabaseView, after: DatabaseView, row: FeedRowView, f: u64)
    requires
        after.feeds == db.feeds.push(row),
    ensures
        after.feeds_in(f) == if row.folder_id == f {
            db.feeds_in(f).push(feed_of(row))
        } else {
            db.feeds_in(f)
        },
{
    let member = |r: FeedRowView| r.folder_id == f;
    db.feeds.lemma_filter_push(row, member);
    if row.folder_id == f {
        assert(after.feeds_in(f) =~= db.feeds_in(f).push(feed_of(row)));
    }
}

/// The feeds of a folder after the feed `id` was removed.
pub proof fn lemma_feeds_in_others(db: DatabaseView, after: DatabaseView, id: u64, f: u64)
    requires
        after.feeds == db.feeds.filter(|r: FeedRowView| r.id != id),
    ensures
        after.feeds_in(f) == others(db.feeds_in(f), id),
{
    let member = |r: FeedRowView| r.folder_id == f;
    let other_row = |r: FeedRowView| r.id != id;
    let other = |x: FeedView| x.id != id;
    let show = |r: FeedRowView| feed_of(r);
    let s = db.feeds.filter(member);
    lemma_filter_mapped(s, show, other);
    lemma_filter_same(s, |r: FeedRowView| other(show(r)), other_row);
    lemma_filter_commutes(db.feeds, other_row, member);
}

/// Adding a folder to the store and to the tree keeps the tree a mirror.
pub proof fn lemma_create_folder_mirrors(tree: Seq<FolderView>, db: DatabaseView, name: Seq<char>)
    requires
        db.inv(),
        mirrors(tree, db),
        db.next_folder < u64::MAX,
    ensures
        mirrors(with_folder(tree, db.next_folder, name), db.create_folder(name)),
{
    let after = db.create_folder(name);
    let grown = with_folder(tree, db.next_folder, name);
    assert forall|i: int| 0 <= i < grown.len() implies {
        &&& (#[trigger] grown[i]).id == after.folders[i].id
        &&& grown[i].name == after.folders[i].name
        &&& stored(grown[i]) == after.feeds_in(after.folders[i].id)
    } by {
        if i < tree.len() {
            assert(grown[i] == tree[i]);
        } else {
            let member = |r: FeedRowView| r.folder_id == db.next_folder;
            assert forall|k: int| 0 <= k < db.feeds.len() implies !member(
                #[trigger] db.feeds[k],
            ) by {
                assert(db.has_folder(db.feeds[k].folder_id));
            }
            lemma_filter_none(db.feeds, member);
            assert(stored(grown[i]) =~= after.feeds_in(after.folders[i].id));
        }
    }
}

/// Renaming a folder in the store and in the tree keeps the tree a mirror.
pub proof fn lemma_rename_folder_mirrors(
    tree: Seq<FolderView>,
    db: DatabaseView,
    id: u64,
    name: Seq<char>,
)
    requires
        mirrors(tree, db),
    ensures
        mirrors(renamed(tree, id, name), db.rename_folder(id, name)),
{
    let after = db.rename_folder(id, name);
    let changed = renamed(tree, id, name);
    assert forall|i: int| 0 <= i < changed.len() implies {
        &&& (#[trigger] changed[i]).id == after.folders[i].id
        &&& changed[i].name == after.folders[i].name
        &&& stored(changed[i]) == after.feeds_in(after.folders[i].id)
    } by {
        assert(tree[i].id == db.folders[i].id);
        assert(stored(changed[i]) == stored(tree[i]));
    }
}

/// The feed that the tree takes for a feed just added to the store.
pub open spec fn fresh_feed(id: u64, url: Seq<char>, name: Seq<char>, folder_id: u64) -> FeedView {
    FeedView { id, ..FeedView::fresh(url, name, folder_id) }
}

/// Adding a feed to the store and to the tree keeps the tree a mirror.
pub proof fn lemma_create_feed_mirrors(
    tree: Seq<FolderView>,
    db: DatabaseView,
    url: Seq<char>,
    name: Seq<char>,
    folder_id: u64,
)
    requires
        mirrors(tree, db),
    ensures
        mirrors(
            with_feed(tree, fresh_feed(db.next_feed, url, name, folder_id)),
            db.create_feed(url, name, folder_id),
        ),
{
    let after = db.create_feed(url, name, folder_id);
    let feed = fresh_feed(db.next_feed, url, name, folder_id);
    let row = FeedRowView::fresh(db.next_feed, url, name, folder_id);
    let grown = with_feed(tree, feed);
    assert forall|i: int| 0 <= i < grown.len() implies {
        &&& (#[trigger] grown[i]).id == after.folders[i].id
        &&& grown[i].name == after.folders[i].name
        &&& stored(grown[i]) == after.feeds_in(after.folders[i].id)
    } by {
        assert(tree[i].id == db.folders[i].id);
        lemma_feeds_in_push(db, after, row, db.folders[i].id);
        if tree[i].id == folder_id {
            assert(stored(grown[i]) =~= stored(tree[i]).push(base(feed)));
        }
    }
}

/// What a list of the tree holds for the store after the feed `id` left it.
pub proof fn lemma_stored_others(list: Seq<FeedView>, id: u64)
    ensures
        others(list, id).map_values(|x: FeedView| base(x)) == others(
            list.map_values(|x: FeedView| base(x)),
            id,
        ),
{
    let other = |x: FeedView| x.id != id;
    let strip = |x: FeedView| base(x);
    lemma_filter_mapped(list, strip, other);
    lemma_filter_same(list, |x: FeedView| other(strip(x)), other);
}

/// Deleting a feed from the store and from the tree keeps the tree a mirror.
pub proof fn lemma_delete_feed_mirrors(tree: Seq<FolderView>, db: DatabaseView, id: u64)
    requires
        mirrors(tree, db),
    ensures
        mirrors(without_feed(tree, id), db.delete_feed(id)),
{
    let after = db.delete_feed(id);
    let cut = without_feed(tree, id);
    assert forall|i: int| 0 <= i < cut.len() implies {
        &&& (#[trigger] cut[i]).id == after.folders[i].id
        &&& cut[i].name == after.folders[i].name
        &&& stored(cut[i]) == after.feeds_in(after.folders[i].id)
    } by {
        assert(tree[i].id == db.folders[i].id);
        lemma_feeds_in_others(db, after, id, db.folders[i].id);
        lemma_stored_others(feeds_of(tree[i]), id);
        assert(feeds_of(cut[i]) =~= others(feeds_of(tree[i]), id)) by {
            if tree[i].feeds is None {
                lemma_filter_none(Seq::<FeedView>::empty(), |x: FeedView| x.id != id);
            }
        }
    }
}

/// A patch of a feed of the tree that follows a change of columns of the
/// feed in the store keeps the tree a mirror.
pub proof fn lemma_patch_mirrors(
    tree: Seq<FolderView>,
    db: DatabaseView,
    after: DatabaseView,
    id: u64,
    patch: PatchView,
    g: spec_fn(FeedRowView) -> FeedRowView,
)
    requires
        mirrors(tree, db),
        after.folders == db.folders,
        after.feeds == db.feeds.map_values(g),
        forall|r: FeedRowView| (#[trigger] g(r)).folder_id == r.folder_id,
        forall|r: FeedRowView| r.id != id ==> #[trigger] g(r) == r,
        forall|x: FeedView, r: FeedRowView|
            x.id == id && base(x) == feed_of(r) ==> base(#[trigger] patch.applied(x)) == feed_of(
                #[trigger] g(r),
            ),
    ensures
        mirrors(patched(tree, id, patch), after),
{
    let changed = patched(tree, id, patch);
    assert forall|i: int| 0 <= i < changed.len() implies {
        &&& (#[trigger] changed[i]).id == after.folders[i].id
        &&& changed[i].name == after.folders[i].name
        &&& stored(changed[i]) == after.feeds_in(after.folders[i].id)
    } by {
        let f = db.folders[i].id;
        assert(tree[i].id == f);
        let member = |r: FeedRowView| r.folder_id == f;
        lemma_filter_mapped(db.feeds, g, member);
        lemma_filter_same(db.feeds, |r: FeedRowView| member(g(r)), member);
        let rows = db.feeds.filter(member);
        assert(after.feeds.filter(member) == rows.map_values(g));
        let list = feeds_of(tree[i]);
        assert(stored(tree[i]) == db.feeds_in(f));
        assert(stored(tree[i]).len() == list.len());
        assert(db.feeds_in(f) == rows.map_values(|r: FeedRowView| feed_of(r)));
        assert(list.len() == rows.len());
        assert(feeds_of(changed[i]) =~= patched_list(list, id, patch));
        assert forall|j: int| 0 <= j < list.len() implies stored(changed[i])[j]
            == after.feeds_in(f)[j] by {
            assert(stored(tree[i])[j] == base(list[j]));
            assert(db.feeds_in(f)[j] == feed_of(rows[j]));
            assert(after.feeds_in(f)[j] == feed_of(g(rows[j])));
            if list[j].id == id {
                assert(base(patch.applied(list[j])) == feed_of(g(rows[j])));
            } else {
                assert(rows[j].id == list[j].id);
            }
        }
        assert(stored(changed[i]) =~= after.feeds_in(f));
    }
}

/// What the first feed with an id is: a feed of the list with that id, or
/// nothing where the list holds no such feed.
pub proof fn lemma_first_feed(list: Seq<FeedView>, id: u64)
    ensures
        match first_feed(list, id) {
            Some(v) => v.id == id && exists|j: int| 0 <= j < list.len() && #[trigger] list[j] == v,
            None => forall|j: int| 0 <= j < list.len() ==> (#[trigger] list[j]).id != id,
        },
    decreases list.len(),
{
    if list.len() > 0 {
        if list.first().id == id {
            assert(list[0] == list.first());
        } else {
            let rest = list.drop_first();
            lemma_first_feed(rest, id);
            match first_feed(rest, id) {
                Some(v) => {
                    let j = choose|j: int| 0 <= j < rest.len() && #[trigger] rest[j] == v;
                    assert(list[j + 1] == v);
                },
                None => {
                    assert forall|j: int| 0 <= j < list.len() implies (#[trigger] list[j]).id
                        != id by {
                        if j > 0 {
                            assert(rest[j - 1] == list[j]);
                        }
                    }
                },
            }
        }
    }
}

/// What looking up an id in the tree gives: a feed of the tree with that id,
/// or nothing where the tree holds no such feed.
pub proof fn lemma_lookup(tree: Seq<FolderView>, id: u64)
    ensures
        match lookup(tree, id) {
            Some(v) => v.id == id && exists|i: int, j: int|
                0 <= i < tree.len() && 0 <= j < feeds_of(tree[i]).len() && #[trigger] feeds_of(
                    tree[i],
                )[j] == v,
            None => forall|i: int, j: int|
                0 <= i < tree.len() && 0 <= j < feeds_of(tree[i]).len() ==> (#[trigger] feeds_of(
                    tree[i],
                )[j]).id != id,
        },
    decreases tree.len(),
{
    if tree.len() > 0 {
        lemma_first_feed(feeds_of(tree.first()), id);
        match first_feed(feeds_of(tree.first()), id) {
            Some(v) => {
                let j = choose|j: int|
                    0 <= j < feeds_of(tree.first()).len() && #[trigger] feeds_of(tree.first())[j]
                        == v;
                assert(feeds_of(tree[0])[j] == v);
            },
            None => {
                let rest = tree.drop_first();
                lemma_lookup(rest, id);
                match lookup(rest, id) {
                    Some(v) => {
                        let (i, j) = choose|i: int, j: int|
                            0 <= i < rest.len() && 0 <= j < feeds_of(rest[i]).len()
                                && #[trigger] feeds_of(rest[i])[j] == v;
                        assert(rest[i] == tree[i + 1]);
                        assert(feeds_of(tree[i + 1])[j] == v);
                    },
                    None => {
                        assert forall|i: int, j: int|
                            0 <= i < tree.len() && 0 <= j < feeds_of(
                                tree[i],
                            ).len() implies (#[trigger] feeds_of(tree[i])[j]).id != id by {
                            if i > 0 {
                                assert(rest[i - 1] == tree[i]);
                                assert(feeds_of(rest[i - 1])[j].id != id);
                            } else {
                                assert(tree[0] == tree.first());
                            }
                        }
                    },
                }
            },
        }
    }
}

/// In a tree that mirrors the store, the feeds that can be looked up are the
/// feeds of the store, and what is found holds what the store holds.
pub proof fn lemma_lookup_mirrors(tree: Seq<FolderView>, db: DatabaseView, id: u64)
    requires
        db.inv(),
        mirrors(tree, db),
    ensures
        lookup(tree, id) is Some <==> db.has_feed(id),
        lookup(tree, id) is Some ==> base(lookup(tree, id)->0) == feed_of(db.feed(id)),
{
    lemma_lookup(tree, id);
    match lookup(tree, id) {
        Some(v) => {
            let (i, j) = choose|i: int, j: int|
                0 <= i < tree.len() && 0 <= j < feeds_of(tree[i]).len() && #[trigger] feeds_of(
                    tree[i],
                )[j] == v;
            let f = db.folders[i].id;
            assert(tree[i].id == f);
            let member = |r: FeedRowView| r.folder_id == f;
            let rows = db.feeds.filter(member);
            assert(stored(tree[i])[j] == base(v));
            assert(db.feeds_in(f) == rows.map_values(|r: FeedRowView| feed_of(r)));
            assert(stored(tree[i]).len() == feeds_of(tree[i]).len());
            assert(db.feeds_in(f)[j] == feed_of(rows[j]));
            lemma_filter_origin(db.feeds, member);
            let k = origin(db.feeds, member, j);
            assert(db.feeds[k] == rows[j]);
            assert(db.feeds[k].id == id);
            crate::schema::lemma_feed_at(db, k);
        },
        None => {
            if db.has_feed(id) {
                let k = choose|k: int| 0 <= k < db.feeds.len() && #[trigger] db.feeds[k].id == id;
                let f = db.feeds[k].folder_id;
                assert(db.has_folder(f));
                let i = choose|i: int| 0 <= i < db.folders.len() && #[trigger] db.folders[i].id == f;
                assert(tree[i].id == f);
                let member = |r: FeedRowView| r.folder_id == f;
                let rows = db.feeds.filter(member);
                lemma_filter_has(db.feeds, member, k);
                let a = choose|a: int| 0 <= a < rows.len() && #[trigger] rows[a] == db.feeds[k];
                assert(db.feeds_in(f) == rows.map_values(|r: FeedRowView| feed_of(r)));
                assert(db.feeds_in(f)[a] == feed_of(rows[a]));
                assert(stored(tree[i]).len() == feeds_of(tree[i]).len());
                assert(stored(tree[i])[a] == base(feeds_of(tree[i])[a]));
                assert(feeds_of(tree[i])[a].id == id);
            }
        },
    }
}

/// The tree after the feed `id` was updated in the store: unchanged where
/// the store holds no such feed, patched in place where the feed stays in
/// its folder, else with the feed moved.
pub open spec fn updated(
    tree: Seq<FolderView>,
    db: DatabaseView,
    id: u64,
    url: Seq<char>,
    name: Seq<char>,
    folder_id: u64,
) -> Seq<FolderView> {
    if !db.has_feed(id) {
        tree
    } else if db.feed(id).folder_id == folder_id {
        patched(tree, id, PatchView::Retitle { name, url })
    } else {
        relocated(tree, id, name, url, folder_id)
    }
}

/// Updating a feed in the store and in the tree keeps the tree a mirror.
pub proof fn lemma_update_feed_mirrors(
    tree: Seq<FolderView>,
    db: DatabaseView,
    id: u64,
    url: Seq<char>,
    name: Seq<char>,
    folder_id: u64,
)
    requires
        db.inv(),
        mirrors(tree, db),
    ensures
        mirrors(
            updated(tree, db, id, url, name, folder_id),
            db.update_feed(id, url, name, folder_id),
        ),
{
    let after = db.update_feed(id, url, name, folder_id);
    if !db.has_feed(id) {
    } else if db.feed(id).folder_id == folder_id {
        let g = |f: FeedRowView|
            if f.id == id {
                FeedRowView { url, name, ..f }
            } else {
                f
            };
        lemma_patch_mirrors(tree, db, after, id, PatchView::Retitle { name, url }, g);
    } else {
        lemma_lookup_mirrors(tree, db, id);
        let found = lookup(tree, id)->0;
        lemma_lookup(tree, id);
        let moved = FeedView { name, url, folder_id, ..found };
        let row = FeedRowView { url, name, folder_id, ..db.feed(id) };
        assert(base(moved) == feed_of(row));
        let middle = DatabaseView { feeds: db.feeds.filter(|f: FeedRowView| f.id != id), ..db };
        let cut = without_feed(tree, id);
        let changed = with_feed(cut, moved);
        assert forall|i: int| 0 <= i < changed.len() implies {
            &&& (#[trigger] changed[i]).id == after.folders[i].id
            &&& changed[i].name == after.folders[i].name
            &&& stored(changed[i]) == after.feeds_in(after.folders[i].id)
        } by {
            let f = db.folders[i].id;
            assert(tree[i].id == f);
            lemma_feeds_in_others(db, middle, id, f);
            lemma_feeds_in_push(middle, after, row, f);
            lemma_stored_others(feeds_of(tree[i]), id);
            assert(feeds_of(cut[i]) =~= others(feeds_of(tree[i]), id)) by {
                if tree[i].feeds is None {
                    lemma_filter_none(Seq::<FeedView>::empty(), |x: FeedView| x.id != id);
                }
            }
            if f == folder_id {
                assert(stored(changed[i]) =~= stored(cut[i]).push(base(moved)));
            }
        }
    }
}

/// Moving a feed leaves every other feed where it stands: the tree holds
/// the same folders afterwards, and each holds, of the feeds other than the
/// one moved, those that it held, in their order.
pub proof fn lemma_move_keeps_others(
    tree: Seq<FolderView>,
    id: u64,
    name: Seq<char>,
    url: Seq<char>,
    folder_id: u64,
)
    ensures
        relocated(tree, id, name, url, folder_id).len() == tree.len(),
        forall|i: int|
            0 <= i < tree.len() ==> {
                &&& (#[trigger] relocated(tree, id, name, url, folder_id)[i]).id == tree[i].id
                &&& relocated(tree, id, name, url, folder_id)[i].name == tree[i].name
                &&& others(feeds_of(relocated(tree, id, name, url, folder_id)[i]), id) == others(
                    feeds_of(tree[i]),
                    id,
                )
            },
{
    let after = relocated(tree, id, name, url, folder_id);
    let other = |x: FeedView| x.id != id;
    match lookup(tree, id) {
        Some(feed) => {
            lemma_lookup(tree, id);
            let moved = FeedView { name, url, folder_id, ..feed };
            let cut = without_feed(tree, id);
            assert forall|i: int| 0 <= i < tree.len() implies {
                &&& (#[trigger] after[i]).id == tree[i].id
                &&& after[i].name == tree[i].name
                &&& others(feeds_of(after[i]), id) == others(feeds_of(tree[i]), id)
            } by {
                let list = feeds_of(tree[i]);
                assert(feeds_of(cut[i]) =~= others(list, id)) by {
                    if tree[i].feeds is None {
                        lemma_filter_none(Seq::<FeedView>::empty(), other);
                    }
                }
                lemma_filter_twice(list, other, other);
                lemma_filter_same(list, |x: FeedView| other(x) && other(x), other);
                assert(others(others(list, id), id) == others(list, id));
                if tree[i].id == folder_id {
                    assert(feeds_of(after[i]) == others(list, id).push(moved));
                    others(list, id).lemma_filter_push(moved, other);
                } else {
                    assert(after[i] == cut[i]);
                }
            }
        },
        None => {},
    }
}

/// In a tree that mirrors the store, the feeds of the folders with one id
/// are the feeds that the store holds for that id.
pub proof fn lemma_orphans_mirrors(tree: Seq<FolderView>, db: DatabaseView, id: u64, n: int)
    requires
        db.inv(),
        mirrors(tree, db),
        0 <= n <= tree.len(),
    ensures
        orphans(tree.take(n), id).map_values(|x: FeedView| base(x)) == if exists|j: int|
            0 <= j < n && #[trigger] db.folders[j].id == id {
            db.feeds_in(id)
        } else {
            Seq::<FeedView>::empty()
        },
    decreases n,
{
    let strip = |x: FeedView| base(x);
    if n == 0 {
        assert(orphans(tree.take(0), id).map_values(strip) =~= Seq::<FeedView>::empty());
    } else {
        lemma_orphans_mirrors(tree, db, id, n - 1);
        assert(tree.take(n).drop_last() =~= tree.take(n - 1));
        assert(tree.take(n).last() == tree[n - 1]);
        assert(tree[n - 1].id == db.folders[n - 1].id);
        let before = orphans(tree.take(n - 1), id);
        if tree[n - 1].id == id {
            assert(!(exists|j: int| 0 <= j < n - 1 && #[trigger] db.folders[j].id == id)) by {
                if exists|j: int| 0 <= j < n - 1 && #[trigger] db.folders[j].id == id {
                    let j = choose|j: int| 0 <= j < n - 1 && #[trigger] db.folders[j].id == id;
                    assert(db.folders[j].id < db.folders[n - 1].id);
                }
            }
            assert(before.map_values(strip) =~= Seq::<FeedView>::empty());
            assert(before =~= Seq::<FeedView>::empty());
            assert(orphans(tree.take(n), id) =~= feeds_of(tree[n - 1]));
            assert(stored(tree[n - 1]) == db.feeds_in(id));
        } else {
            if exists|j: int| 0 <= j < n && #[trigger] db.folders[j].id == id {
                let j = choose|j: int| 0 <= j < n && #[trigger] db.folders[j].id == id;
                assert(j < n - 1);
            }
        }
    }
}

/// The feeds of a folder after another folder was deleted.
pub proof fn lemma_feeds_in_after_delete_folder(db: DatabaseView, id: u64, f: u64)
    requires
        id != DEFAULT_FOLDER,
        f != id,
    ensures
        db.delete_folder(id).feeds_in(f) == if f == DEFAULT_FOLDER {
            db.feeds_in(f) + adopted(db.feeds_in(id), DEFAULT_FOLDER)
        } else {
            db.feeds_in(f)
        },
{
    let after = db.delete_folder(id);
    let member = |r: FeedRowView| r.folder_id == f;
    let stay = |r: FeedRowView| r.folder_id != id;
    let go = |r: FeedRowView| r.folder_id == id;
    let repoint = |r: FeedRowView| FeedRowView { folder_id: DEFAULT_FOLDER, ..r };
    let kept = db.feeds.filter(stay);
    let moved = db.feeds.filter(go).map_values(repoint);
    Seq::filter_distributes_over_add(kept, moved, member);
    lemma_filter_twice(db.feeds, stay, member);
    lemma_filter_same(db.feeds, |r: FeedRowView| stay(r) && member(r), member);
    assert(kept.filter(member) == db.feeds.filter(member));
    lemma_filter_origin(db.feeds, go);
    if f == DEFAULT_FOLDER {
        assert forall|k: int| 0 <= k < moved.len() implies member(#[trigger] moved[k]) by {}
        lemma_filter_every(moved, member);
        assert(after.feeds_in(f) =~= db.feeds_in(f) + adopted(db.feeds_in(id), DEFAULT_FOLDER));
    } else {
        assert forall|k: int| 0 <= k < moved.len() implies !member(#[trigger] moved[k]) by {}
        lemma_filter_none(moved, member);
        assert(kept.filter(member) + Seq::<FeedRowView>::empty() =~= kept.filter(member));
    }
}

/// Deleting a folder other than the default folder from the store and from
/// the tree keeps the tree a mirror.
pub proof fn lemma_delete_folder_mirrors(tree: Seq<FolderView>, db: DatabaseView, id: u64)
    requires
        db.inv(),
        mirrors(tree, db),
        id != DEFAULT_FOLDER,
    ensures
        mirrors(without_folder(tree, id, DEFAULT_FOLDER), db.delete_folder(id)),
{
    let after = db.delete_folder(id);
    let cut = without_folder(tree, id, DEFAULT_FOLDER);
    let keep_folder = |f: FolderView| f.id != id;
    let keep_row = |f: FolderRowView| f.id != id;
    let strip = |x: FeedView| base(x);
    let moved = adopted(orphans(tree, id), DEFAULT_FOLDER);
    lemma_filter_aligned(tree, keep_folder, db.folders, keep_row);
    lemma_filter_origin(tree, keep_folder);
    lemma_filter_origin(db.folders, keep_row);
    lemma_orphans_mirrors(tree, db, id, tree.len() as int);
    assert(tree.take(tree.len() as int) =~= tree);
    let gone = orphans(tree, id).map_values(strip);
    assert(gone == db.feeds_in(id)) by {
        if !(exists|j: int| 0 <= j < tree.len() && #[trigger] db.folders[j].id == id) {
            let member = |r: FeedRowView| r.folder_id == id;
            assert forall|k: int| 0 <= k < db.feeds.len() implies !member(
                #[trigger] db.feeds[k],
            ) by {
                assert(db.has_folder(db.feeds[k].folder_id));
            }
            lemma_filter_none(db.feeds, member);
            assert(db.feeds_in(id) =~= Seq::<FeedView>::empty());
        }
    }
    assert(moved.map_values(strip) =~= adopted(gone, DEFAULT_FOLDER));
    assert forall|a: int| 0 <= a < cut.len() implies {
        &&& (#[trigger] cut[a]).id == after.folders[a].id
        &&& cut[a].name == after.folders[a].name
        &&& stored(cut[a]) == after.feeds_in(after.folders[a].id)
    } by {
        let k = origin(tree, keep_folder, a);
        assert(k == origin(db.folders, keep_row, a));
        assert(tree.filter(keep_folder)[a] == tree[k]);
        assert(after.folders[a] == db.folders[k]);
        let f = db.folders[k].id;
        assert(tree[k].id == f);
        lemma_feeds_in_after_delete_folder(db, id, f);
        if f == DEFAULT_FOLDER && moved.len() > 0 {
            assert(stored(cut[a]) =~= stored(tree[k]) + moved.map_values(strip));
        } else if f == DEFAULT_FOLDER {
            assert(gone.len() == 0);
            assert(db.feeds_in(f) + adopted(db.feeds_in(id), DEFAULT_FOLDER) =~= db.feeds_in(f));
        }
    }
}

/// Storing a fetch and letting the feed of the tree absorb it keeps the tree
/// a mirror.
pub proof fn lemma_absorb_mirrors(
    tree: Seq<FolderView>,
    db: DatabaseView,
    id: u64,
    site: Seq<char>,
    kind: FeedType,
    title: Option<Seq<char>>,
    description: Option<Seq<char>>,
    stamp: i64,
    authors: Seq<PersonView>,
    entries: Seq<EntryView>,
    articles: Seq<ArticleView>,
)
    requires
        db.inv(),
        mirrors(tree, db),
        db.has_feed(id) || entries.len() == 0,
        db.fits(entries, authors),
    ensures
        db.update_feed_ext(id, site, kind, title, description).upsert_articles(
            id,
            site,
            stamp,
            authors,
            entries,
        ).inv(),
        mirrors(
            patched(tree, id, PatchView::Absorb { site, last_seen: stamp, articles }),
            db.update_feed_ext(id, site, kind, title, description).upsert_articles(
                id,
                site,
                stamp,
                authors,
                entries,
            ),
        ),
        db.update_feed_ext(id, site, kind, title, description).upsert_articles(
            id,
            site,
            stamp,
            authors,
            entries,
        ).feeds == db.feeds.map_values(
            |r: FeedRowView|
                if r.id == id {
                    FeedRowView {
                        site: Some(site),
                        kind: Some(kind),
                        title,
                        description,
                        last_seen: stamp,
                        ..r
                    }
                } else {
                    r
                },
        ),
{
    let mid = db.update_feed_ext(id, site, kind, title, description);
    lemma_feed_columns_inv(db, mid);
    lemma_feed_columns_keep(db, mid, id);
    lemma_ingest_entries_inv(mid, id, site, stamp, authors, entries);
    lemma_upsert_articles_inv(mid, id, site, stamp, authors, entries);
    let after = mid.upsert_articles(id, site, stamp, authors, entries);
    let g = |r: FeedRowView|
        if r.id == id {
            FeedRowView {
                site: Some(site),
                kind: Some(kind),
                title,
                description,
                last_seen: stamp,
                ..r
            }
        } else {
            r
        };
    assert(after.feeds =~= db.feeds.map_values(g));
    lemma_patch_mirrors(
        tree,
        db,
        after,
        id,
        PatchView::Absorb { site, last_seen: stamp, articles },
        g,
    );
}

/// A patch that touches only what the store does not hold keeps the tree a
/// mirror.
pub proof fn lemma_transient_mirrors(
    tree: Seq<FolderView>,
    db: DatabaseView,
    id: u64,
    patch: PatchView,
)
    requires
        mirrors(tree, db),
        patch is Fetching || patch is Hydrate,
    ensures
        mirrors(patched(tree, id, patch), db),
{
    let g = |r: FeedRowView| r;
    assert(db.feeds =~= db.feeds.map_values(g));
    lemma_patch_mirrors(tree, db, db, id, patch, g);
}

/// Looking up a feed in a list in which the feed `x` was patched.
pub proof fn lemma_first_feed_patched(list: Seq<FeedView>, x: u64, patch: PatchView, id: u64)
    ensures
        first_feed(patched_list(list, x, patch), id) == match first_feed(list, id) {
            Some(v) => Some(
                if v.id == x {
                    patch.applied(v)
                } else {
                    v
                },
            ),
            None => None,
        },
    decreases list.len(),
{
    if list.len() > 0 {
        lemma_first_feed_patched(list.drop_first(), x, patch, id);
        assert(patched_list(list, x, patch).drop_first() =~= patched_list(
            list.drop_first(),
            x,
            patch,
        ));
    }
}

/// Looking up a feed in a tree in which the feed `x` was patched: the feed
/// found before, patched where it is the feed `x`.
pub proof fn lemma_lookup_patched(tree: Seq<FolderView>, x: u64, patch: PatchView, id: u64)
    ensures
        lookup(patched(tree, x, patch), id) == match lookup(tree, id) {
            Some(v) => Some(
                if v.id == x {
                    patch.applied(v)
                } else {
                    v
                },
            ),
            None => None,
        },
    decreases tree.len(),
{
    if tree.len() > 0 {
        lemma_lookup_patched(tree.drop_first(), x, patch, id);
        assert(patched(tree, x, patch).drop_first() =~= patched(tree.drop_first(), x, patch));
        lemma_first_feed_patched(feeds_of(tree.first()), x, patch, id);
        assert(feeds_of(patched(tree, x, patch).first()) =~= patched_list(
            feeds_of(tree.first()),
            x,
            patch,
        ));
    }
}

/// A tree that mirrors the store is sound: no two of its folders have one
/// id, every feed names the folder it stands in and is a feed of the store,
/// and no feed stands in it twice.
pub proof fn lemma_mirror_is_sound(tree: Seq<FolderView>, db: DatabaseView)
    requires
        db.inv(),
        mirrors(tree, db),
    ensures
        forall|i: int, j: int|
            0 <= i < j < tree.len() ==> (#[trigger] tree[i]).id != (#[trigger] tree[j]).id,
        forall|i: int, a: int|
            0 <= i < tree.len() && 0 <= a < feeds_of(tree[i]).len() ==> {
                &&& (#[trigger] feeds_of(tree[i])[a]).folder_id == tree[i].id
                &&& db.has_feed(feeds_of(tree[i])[a].id)
            },
        forall|i: int, a: int, j: int, b: int|
            0 <= i < tree.len() && 0 <= a < feeds_of(tree[i]).len() && 0 <= j < tree.len() && 0
                <= b < feeds_of(tree[j]).len() && (#[trigger] feeds_of(tree[i])[a]).id
                == (#[trigger] feeds_of(tree[j])[b]).id ==> i == j && a == b,
{
    assert forall|i: int, j: int| 0 <= i < j < tree.len() implies (#[trigger] tree[i]).id != (
    #[trigger] tree[j]).id by {
        assert(db.folders[i].id < db.folders[j].id);
    }
    assert forall|i: int, a: int|
        0 <= i < tree.len() && 0 <= a < feeds_of(tree[i]).len() implies {
        &&& (#[trigger] feeds_of(tree[i])[a]).folder_id == tree[i].id
        &&& db.has_feed(feeds_of(tree[i])[a].id)
    } by {
        lemma_row_of(tree, db, i, a);
    }
    assert forall|i: int, a: int, j: int, b: int|
        0 <= i < tree.len() && 0 <= a < feeds_of(tree[i]).len() && 0 <= j < tree.len() && 0 <= b
            < feeds_of(tree[j]).len() && (#[trigger] feeds_of(tree[i])[a]).id == (
        #[trigger] feeds_of(tree[j])[b]).id implies i == j && a == b by {
        lemma_row_of(tree, db, i, a);
        lemma_row_of(tree, db, j, b);
        let k = row_of(db, db.folders[i].id, a);
        let m = row_of(db, db.folders[j].id, b);
        if k < m {
            assert(db.feeds[k].id != db.feeds[m].id);
        } else if m < k {
            assert(db.feeds[m].id != db.feeds[k].id);
        }
        assert(db.folders[i].id == db.folders[j].id);
        if i < j {
            assert(db.folders[i].id < db.folders[j].id);
        } else if j < i {
            assert(db.folders[j].id < db.folders[i].id);
        }
        let member = |r: FeedRowView| r.folder_id == db.folders[i].id;
        lemma_filter_origin(db.feeds, member);
        assert(i == j);
        assert(stored(tree[i]).len() == feeds_of(tree[i]).len());
        assert(db.feeds_in(db.folders[i].id) == db.feeds.filter(member).map_values(
            |r: FeedRowView| feed_of(r),
        ));
        assert(feeds_of(tree[i]).len() == db.feeds.filter(member).len());
        if a < b {
            assert(origin(db.feeds, member, a) < origin(db.feeds, member, b));
        } else if b < a {
            assert(origin(db.feeds, member, b) < origin(db.feeds, member, a));
        }
    }
}

/// Where the row of the feed at position `a` of the folder `f` stands in the
/// table of feeds.
pub open spec fn row_of(db: DatabaseView, f: u64, a: int) -> int {
    origin(db.feeds, |r: FeedRowView| r.folder_id == f, a)
}

/// In a tree that mirrors the store, the feed at a position of a folder
/// holds what its row of the store holds.
pub proof fn lemma_row_of(tree: Seq<FolderView>, db: DatabaseView, i: int, a: int)
    requires
        mirrors(tree, db),
        0 <= i < tree.len(),
        0 <= a < feeds_of(tree[i]).len(),
    ensures
        0 <= row_of(db, db.folders[i].id, a) < db.feeds.len(),
        base(feeds_of(tree[i])[a]) == feed_of(db.feeds[row_of(db, db.folders[i].id, a)]),
        db.feeds[row_of(db, db.folders[i].id, a)].folder_id == tree[i].id,
        db.has_feed(feeds_of(tree[i])[a].id),
{
    let f = db.folders[i].id;
    assert(tree[i].id == f);
    let member = |r: FeedRowView| r.folder_id == f;
    let rows = db.feeds.filter(member);
    lemma_filter_origin(db.feeds, member);
    assert(stored(tree[i]).len() == feeds_of(tree[i]).len());
    assert(db.feeds_in(f) == rows.map_values(|r: FeedRowView| feed_of(r)));
    assert(stored(tree[i])[a] == base(feeds_of(tree[i])[a]));
    assert(db.feeds_in(f)[a] == feed_of(rows[a]));
    let k = origin(db.feeds, member, a);
    assert(db.feeds[k] == rows[a]);
    assert(db.feeds[k].id == feeds_of(tree[i])[a].id);
}

} // verus!
