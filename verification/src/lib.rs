//! Feed synchronisation engine: a relational store of folders, feeds and
//! articles, the rules that reconcile a fetched feed document with it, and an
//! in-memory tree that mirrors the store for readers.

use vstd::prelude::*;

pub mod db;
pub mod document;
pub mod fetch;
pub mod ingest;
pub mod mirror;
pub mod models;
pub mod query;
pub mod replica;
pub mod schema;
pub mod tables;
pub mod text;
pub mod utils;
pub mod windows;
pub mod worker;

verus! {

/// What a command asks for.
#[derive(Clone, Copy, Debug, PartialEq, Eq)]
pub enum Action {
    Create,
    Update,
    Read,
    Delete,
    Fetch,
}

/// A command to the engine, or a signal between windows. A command carries
/// the entity it acts on as the sender last saw it.
#[derive(Debug, PartialEq, Eq)]
pub enum Message {
    /// Nothing to do.
    Normal,
    /// A window is to read the folders again.
    RefreshFolders,
    Feed(Action, models::Feed),
    Folder(Action, models::Folder),
}

/// Mathematical value of a [`Message`].
pub enum MessageView {
    Normal,
    RefreshFolders,
    Feed(Action, models::FeedView),
    Folder(Action, models::FolderView),
}

impl DeepView for Message {
    type V = MessageView;

    open spec fn deep_view(&self) -> MessageView {
        match self {
            Message::Normal => MessageView::Normal,
            Message::RefreshFolders => MessageView::RefreshFolders,
            Message::Feed(action, feed) => MessageView::Feed(*action, feed@),
            Message::Folder(action, folder) => MessageView::Folder(*action, folder@),
        }
    }
}

impl Clone for Message {
    fn clone(&self) -> (r: Self)
        ensures
            r@ == self@,
    {
        match self {
            Message::Normal => Message::Normal,
            Message::RefreshFolders => Message::RefreshFolders,
            Message::Feed(action, feed) => Message::Feed(*action, feed.clone()),
            Message::Folder(action, folder) => Message::Folder(*action, folder.clone()),
        }
    }
}

impl View for Message {
    type V = MessageView;

    open spec fn view(&self) -> MessageView {
        self.deep_view()
    }
}

} // verus!
