//! The dialogs that add, delete and edit a feed.

use vstd::prelude::*;
use vstd::string::*;

use crate::models::{Feed, FeedView, Folder, FolderView};
use crate::{Action, Message, MessageView};

verus! {

/// The first folder with the id `id` among `folders`.
pub open spec fn chosen(folders: Seq<FolderView>, id: u64) -> Option<FolderView>
    decreases folders.len(),
{
    if folders.len() == 0 {
        None
    } else if folders.first().id == id {
        Some(folders.first())
    } else {
        chosen(folders.drop_first(), id)
    }
}

/// The first folder with the id `id` among `folders`.
pub fn find_folder(folders: &Vec<Folder>, id: u64) -> (r: Option<&Folder>)
    ensures
        r.deep_view() == chosen(folders.deep_view(), id),
{
    let ghost all = folders.deep_view();
    let mut i: usize = 0;
    assert(all.skip(0) =~= all);
    while i < folders.len()
        invariant
            i <= folders.len(),
            all == folders.deep_view(),
            chosen(all, id) == chosen(all.skip(i as int), id),
        decreases folders.len() - i,
    {
        assert(all.skip(i as int).drop_first() =~= all.skip(i + 1));
        if folders[i].id == id {
            return Some(&folders[i]);
        }
        i += 1;
    }
    None
}

/// The form that adds a feed.
#[derive(Debug, PartialEq, Eq)]
pub struct AddWindow {
    /// The address typed so far.
    pub url: String,
    /// The name typed so far.
    pub name: String,
    /// The folder chosen, without its feeds.
    pub folder: Folder,
    /// Whether the form was submitted and is to go away.
    pub closed: bool,
    /// Whether the address field is to take the focus.
    pub autofocus: bool,
    /// The folders to choose from.
    pub folders: Option<Vec<Folder>>,
}

impl AddWindow {
    /// The title of the dialog, which is also its key.
    pub const NAME: &'static str = "Add Feed";

    /// An empty form.
    pub fn new() -> (r: Self)
        ensures
            r.url@.len() == 0,
            r.name@.len() == 0,
            r.folder@ == (FolderView { id: 0, name: Seq::empty(), feeds: None }),
            r.folders is None,
            !r.autofocus,
            !r.closed,
    {
        AddWindow {
            url: String::new(),
            name: String::new(),
            folder: Folder::default(),
            closed: false,
            autofocus: false,
            folders: None,
        }
    }

    /// The title of the dialog, which is also its key.
    pub fn name(&self) -> (r: &'static str)
        ensures
            r@ == "Add Feed"@,
    {
        "Add Feed"
    }

    /// Shows the form. Where `data` asks to read the folders again, the form
    /// takes `folders` to choose from, the first of them as the folder
    /// chosen, and the address field takes the focus.
    pub fn show(&mut self, data: Option<Message>, folders: &Vec<Folder>)
        ensures
            !final(self).closed,
            final(self).url == old(self).url,
            final(self).name == old(self).name,
            match data.deep_view() {
                Some(MessageView::RefreshFolders) => {
                    &&& final(self).autofocus
                    &&& final(self).folders.deep_view() == Some(folders.deep_view())
                    &&& final(self).folder@ == if folders.len() > 0 {
                        FolderView { feeds: None, ..folders.deep_view()[0] }
                    } else {
                        old(self).folder@
                    }
                },
                _ => {
                    &&& final(self).autofocus == old(self).autofocus
                    &&& final(self).folders == old(self).folders
                    &&& final(self).folder == old(self).folder
                },
            },
    {
        match data {
            Some(Message::RefreshFolders) => {
                self.autofocus = true;
                if folders.len() > 0 {
                    self.folder = folders[0].clone_without_feeds();
                }
                let copy = folders.clone();
                self.folders = Some(copy);
            },
            _ => {},
        }
        self.closed = false;
    }

    /// Whether the form was submitted and is to go away.
    pub fn is_closed(&self) -> (r: bool)
        ensures
            r == self.closed,
    {
        self.closed
    }

    /// The command that the form gives: to add a feed with the address and
    /// the name typed to the folder chosen. Both fields are then cleared. A
    /// form that lacks the address or the name gives none.
    pub fn submit(&mut self) -> (r: Option<Message>)
        ensures
            final(self).closed == old(self).closed,
            final(self).folder == old(self).folder,
            final(self).folders == old(self).folders,
            final(self).autofocus == old(self).autofocus,
            match r {
                Some(message) => {
                    &&& old(self).url@.len() > 0 && old(self).name@.len() > 0
                    &&& message@ == MessageView::Feed(
                        Action::Create,
                        FeedView::fresh(old(self).url@, old(self).name@, old(self).folder.id),
                    )
                    &&& final(self).url@.len() == 0
                    &&& final(self).name@.len() == 0
                },
                None => {
                    &&& old(self).url@.len() == 0 || old(self).name@.len() == 0
                    &&& final(self).url == old(self).url
                    &&& final(self).name == old(self).name
                },
            },
    {
        if self.url.as_str().is_empty() || self.name.as_str().is_empty() {
            return None;
        }
        let url = self.url.clone();
        let name = self.name.clone();
        self.url = String::new();
        self.name = String::new();
        Some(Message::Feed(Action::Create, Feed::new(url, name, self.folder.id)))
    }

    /// The command was sent: the form is to go away.
    pub fn sent(&mut self)
        ensures
            final(self).closed,
            final(self).url == old(self).url,
            final(self).name == old(self).name,
            final(self).folder == old(self).folder,
            final(self).folders == old(self).folders,
            final(self).autofocus == old(self).autofocus,
    {
        self.closed = true;
    }
}

/// The form that asks whether a feed is to be deleted.
#[derive(Debug, PartialEq, Eq)]
pub struct DeleteWindow {
    feed: Feed,
    closed: bool,
}

impl View for DeleteWindow {
    type V = FeedView;

    closed spec fn view(&self) -> FeedView {
        self.feed@
    }
}

impl DeleteWindow {
    /// The title of the dialog, which is also its key.
    pub const NAME: &'static str = "Delete Feed";

    /// A form for no feed yet.
    pub fn new() -> (r: Self)
        ensures
            r@ == FeedView::fresh(Seq::empty(), Seq::empty(), 0),
            !r.is_closed(),
    {
        DeleteWindow { feed: Feed::default(), closed: false }
    }

    /// The title of the dialog, which is also its key.
    pub fn name(&self) -> (r: &'static str)
        ensures
            r@ == "Delete Feed"@,
    {
        "Delete Feed"
    }

    /// Shows the form, for the feed of `data` where `data` carries one.
    pub fn show(&mut self, data: Option<Message>)
        ensures
            !final(self).is_closed(),
            final(self)@ == match data.deep_view() {
                Some(MessageView::Feed(_, feed)) => feed,
                _ => old(self)@,
            },
    {
        match data {
            Some(Message::Feed(_, feed)) => {
                self.feed = feed;
            },
            _ => {},
        }
        self.closed = false;
    }

    /// Whether the form was submitted and is to go away.
    pub closed spec fn is_closed_spec(&self) -> bool {
        self.closed
    }

    /// Whether the form was submitted and is to go away.
    #[verifier::when_used_as_spec(is_closed_spec)]
    pub fn is_closed(&self) -> (r: bool)
        ensures
            r == self.is_closed(),
    {
        self.closed
    }

    /// The question that the dialog asks.
    pub fn prompt(&self) -> (r: String)
        ensures
            r@ == "Are you sure you want to delete the '"@ + self@.name + "' feed?"@,
    {
        let mut text = "Are you sure you want to delete the '".to_owned();
        text.append(self.feed.name.as_str());
        text.append("' feed?");
        text
    }

    /// The command that the form gives: to delete its feed. The form is left
    /// with no feed.
    pub fn submit(&mut self) -> (r: Message)
        ensures
            r@ == MessageView::Feed(Action::Delete, old(self)@),
            final(self)@ == FeedView::fresh(Seq::empty(), Seq::empty(), 0),
            final(self).is_closed() == old(self).is_closed(),
    {
        let feed = self.feed.clone();
        self.feed = Feed::default();
        Message::Feed(Action::Delete, feed)
    }

    /// The command was sent: the form is to go away.
    pub fn sent(&mut self)
        ensures
            final(self).is_closed(),
            final(self)@ == old(self)@,
    {
        self.closed = true;
    }
}

/// The form that edits a feed.
#[derive(Debug, PartialEq, Eq)]
pub struct EditWindow {
    /// The feed, with the address and the name typed so far.
    pub feed: Feed,
    /// The folder chosen.
    pub folder: Folder,
    /// Whether the form was submitted and is to go away.
    pub closed: bool,
    /// Whether the address field is to take the focus.
    pub autofocus: bool,
    /// The folders to choose from.
    pub folders: Option<Vec<Folder>>,
}

impl EditWindow {
    /// The title of the dialog, which is also its key.
    pub const NAME: &'static str = "Edit Feed";

    /// A form for no feed yet.
    pub fn new() -> (r: Self)
        ensures
            r.feed@ == FeedView::fresh(Seq::empty(), Seq::empty(), 0),
            r.folder@ == (FolderView { id: 0, name: Seq::empty(), feeds: None }),
            r.folders is None,
            !r.autofocus,
            !r.closed,
    {
        EditWindow {
            feed: Feed::default(),
            folder: Folder::default(),
            closed: false,
            autofocus: false,
            folders: None,
        }
    }

    /// The title of the dialog, which is also its key.
    pub fn name(&self) -> (r: &'static str)
        ensures
            r@ == "Edit Feed"@,
    {
        "Edit Feed"
    }

    /// Shows the form. Where `data` carries a feed, the form takes it, with
    /// `folders` to choose from; the folder chosen is the folder of the feed,
    /// or the first folder where the feed names none of them; and the address
    /// field takes the focus.
    pub fn show(&mut self, data: Option<Message>, folders: &Vec<Folder>)
        ensures
            !final(self).closed,
            match data.deep_view() {
                Some(MessageView::Feed(_, feed)) => {
                    &&& final(self).autofocus
                    &&& final(self).feed@ == feed
                    &&& final(self).folders.deep_view() == Some(folders.deep_view())
                    &&& final(self).folder@ == match chosen(folders.deep_view(), feed.folder_id) {
                        Some(folder) => folder,
                        None => if folders.len() > 0 {
                            folders.deep_view()[0]
                        } else {
                            old(self).folder@
                        },
                    }
                },
                _ => {
                    &&& final(self).autofocus == old(self).autofocus
                    &&& final(self).feed == old(self).feed
                    &&& final(self).folders == old(self).folders
                    &&& final(self).folder == old(self).folder
                },
            },
    {
        match data {
            Some(Message::Feed(_, feed)) => {
                self.autofocus = true;
                match find_folder(folders, feed.folder_id) {
                    Some(folder) => {
                        self.folder = folder.clone();
                    },
                    None => {
                        if folders.len() > 0 {
                            self.folder = folders[0].clone();
                        }
                    },
                }
                self.feed = feed;
                let copy = folders.clone();
                self.folders = Some(copy);
            },
            _ => {},
        }
        self.closed = false;
    }

    /// Whether the form was submitted and is to go away.
    pub fn is_closed(&self) -> (r: bool)
        ensures
            r == self.closed,
    {
        self.closed
    }

    /// The command that the form gives: to update its feed, which is to be
    /// in the folder chosen. The form is left with no feed and no folder. A
    /// form that lacks the address or the name gives none.
    pub fn submit(&mut self) -> (r: Option<Message>)
        ensures
            final(self).closed == old(self).closed,
            final(self).folders == old(self).folders,
            final(self).autofocus == old(self).autofocus,
            match r {
                Some(message) => {
                    &&& old(self).feed@.url.len() > 0 && old(self).feed@.name.len() > 0
                    &&& message@ == MessageView::Feed(
                        Action::Update,
                        FeedView { folder_id: old(self).folder.id, ..old(self).feed@ },
                    )
                    &&& final(self).feed@ == FeedView::fresh(Seq::empty(), Seq::empty(), 0)
                    &&& final(self).folder@ == (FolderView {
                        id: 0,
                        name: Seq::empty(),
                        feeds: None,
                    })
                },
                None => {
                    &&& old(self).feed@.url.len() == 0 || old(self).feed@.name.len() == 0
                    &&& final(self).feed == old(self).feed
                    &&& final(self).folder == old(self).folder
                },
            },
    {
        if self.feed.url.as_str().is_empty() || self.feed.name.as_str().is_empty() {
            return None;
        }
        let mut feed = self.feed.clone();
        feed.folder_id = self.folder.id;
        self.feed = Feed::default();
        self.folder = Folder::default();
        Some(Message::Feed(Action::Update, feed))
    }

    /// The command was sent: the form is to go away.
    pub fn sent(&mut self)
        ensures
            final(self).closed,
            final(self).feed == old(self).feed,
            final(self).folder == old(self).folder,
            final(self).folders == old(self).folders,
            final(self).autofocus == old(self).autofocus,
    {
        self.closed = true;
    }
}

} // verus!
