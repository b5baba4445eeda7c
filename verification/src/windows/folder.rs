//! The dialogs that add, delete and rename a folder.

use vstd::prelude::*;
use vstd::string::*;

use crate::models::{Folder, FolderView};
use crate::{Action, Message, MessageView};

verus! {

/// The form that adds a folder.
#[derive(Debug, PartialEq, Eq)]
pub struct AddWindow {
    /// The name typed so far.
    pub name: String,
    /// Whether the form was submitted and is to go away.
    pub closed: bool,
}

impl AddWindow {
    /// The title of the dialog, which is also its key.
    pub const NAME: &'static str = "Add Folder";

    /// An empty form.
    pub fn new() -> (r: Self)
        ensures
            r.name@.len() == 0,
            !r.closed,
    {
        AddWindow { name: String::new(), closed: false }
    }

    /// The title of the dialog, which is also its key.
    pub fn name(&self) -> (r: &'static str)
        ensures
            r@ == "Add Folder"@,
    {
        "Add Folder"
    }

    /// Shows the form again.
    pub fn show(&mut self)
        ensures
            !final(self).closed,
            final(self).name == old(self).name,
    {
        self.closed = false;
    }

    /// Whether the form was submitted and is to go away.
    pub fn is_closed(&self) -> (r: bool)
        ensures
            r == self.closed,
    {
        self.closed
    }

    /// The command that the form gives: to add a folder under the name typed,
    /// which is then cleared. A form without a name gives none.
    pub fn submit(&mut self) -> (r: Option<Message>)
        ensures
            final(self).closed == old(self).closed,
            match r {
                Some(message) => {
                    &&& old(self).name@.len() > 0
                    &&& message@ == MessageView::Folder(
                        Action::Create,
                        FolderView { id: 0, name: old(self).name@, feeds: None },
                    )
                    &&& final(self).name@.len() == 0
                },
                None => old(self).name@.len() == 0 && final(self).name == old(self).name,
            },
    {
        if self.name.as_str().is_empty() {
            return None;
        }
        let name = self.name.clone();
        self.name = String::new();
        Some(Message::Folder(Action::Create, Folder { id: 0, name, feeds: None }))
    }

    /// The command was sent: the form is to go away.
    pub fn sent(&mut self)
        ensures
            final(self).closed,
            final(self).name == old(self).name,
    {
        self.closed = true;
    }
}

/// The form that asks whether a folder is to be deleted.
#[derive(Debug, PartialEq, Eq)]
pub struct DeleteWindow {
    folder: Folder,
    closed: bool,
}

impl View for DeleteWindow {
    type V = FolderView;

    closed spec fn view(&self) -> FolderView {
        self.folder@
    }
}

impl DeleteWindow {
    /// The title of the dialog, which is also its key.
    pub const NAME: &'static str = "Delete Folder";

    /// A form for no folder yet.
    pub fn new() -> (r: Self)
        ensures
            r@ == (FolderView { id: 0, name: Seq::empty(), feeds: None }),
            !r.is_closed(),
    {
        DeleteWindow { folder: Folder::default(), closed: false }
    }

    /// The title of the dialog, which is also its key.
    pub fn name(&self) -> (r: &'static str)
        ensures
            r@ == "Delete Folder"@,
    {
        "Delete Folder"
    }

    /// Shows the form, for the folder of `data` where `data` carries one.
    pub fn show(&mut self, data: Option<Message>)
        ensures
            !final(self).is_closed(),
            final(self)@ == match data.deep_view() {
                Some(MessageView::Folder(_, folder)) => folder,
                _ => old(self)@,
            },
    {
        match data {
            Some(Message::Folder(_, folder)) => {
                self.folder = folder;
            },
            _ => {},
        }
        self.closed = false;
    }

    /// Whether the form was submitted and is to go away.
    pub closed spec fn is_closed_spec(&self) -> bool {
        self.closed
    }

    /// Whether the form was submitted and is to go away.
    #[verifier::when_used_as_spec(is_closed_spec)]
    pub fn is_closed(&self) -> (r: bool)
        ensures
            r == self.is_closed(),
    {
        self.closed
    }

    /// The question that the dialog asks.
    pub fn prompt(&self) -> (r: String)
        ensures
            r@ == "Are you sure you want to delete the '"@ + self@.name + "' folder?"@,
    {
        let mut text = "Are you sure you want to delete the '".to_owned();
        text.append(self.folder.name.as_str());
        text.append("' folder?");
        text
    }

    /// The command that the form gives: to delete its folder. The form is
    /// left with no folder.
    pub fn submit(&mut self) -> (r: Message)
        ensures
            r@ == MessageView::Folder(Action::Delete, old(self)@),
            final(self)@ == (FolderView { id: 0, name: Seq::empty(), feeds: None }),
            final(self).is_closed() == old(self).is_closed(),
    {
        let folder = self.folder.clone();
        self.folder = Folder::default();
        Message::Folder(Action::Delete, folder)
    }

    /// The command was sent: the form is to go away.
    pub fn sent(&mut self)
        ensures
            final(self).is_closed(),
            final(self)@ == old(self)@,
    {
        self.closed = true;
    }
}

/// The form that renames a folder.
#[derive(Debug, PartialEq, Eq)]
pub struct EditWindow {
    /// The folder to rename.
    pub folder: Folder,
    /// The name typed so far.
    pub name: String,
    /// Whether the form was submitted and is to go away.
    pub closed: bool,
}

impl View for EditWindow {
    type V = FolderView;

    open spec fn view(&self) -> FolderView {
        self.folder@
    }
}

impl EditWindow {
    /// The title of the dialog, which is also its key.
    pub const NAME: &'static str = "Rename Folder";

    /// A form for no folder yet.
    pub fn new() -> (r: Self)
        ensures
            r@ == (FolderView { id: 0, name: Seq::empty(), feeds: None }),
            r.name@.len() == 0,
            !r.closed,
    {
        EditWindow { folder: Folder::default(), name: String::new(), closed: false }
    }

    /// The title of the dialog, which is also its key.
    pub fn name(&self) -> (r: &'static str)
        ensures
            r@ == "Rename Folder"@,
    {
        "Rename Folder"
    }

    /// Shows the form, for the folder of `data` and with its name typed in
    /// where `data` carries one.
    pub fn show(&mut self, data: Option<Message>)
        ensures
            !final(self).closed,
            match data.deep_view() {
                Some(MessageView::Folder(_, folder)) => {
                    &&& final(self)@ == folder
                    &&& final(self).name@ == folder.name
                },
                _ => final(self)@ == old(self)@ && final(self).name == old(self).name,
            },
    {
        match data {
            Some(Message::Folder(_, folder)) => {
                self.name = folder.name.clone();
                self.folder = folder;
            },
            _ => {},
        }
        self.closed = false;
    }

    /// Whether the form was submitted and is to go away.
    pub fn is_closed(&self) -> (r: bool)
        ensures
            r == self.closed,
    {
        self.closed
    }

    /// Whether the form can be submitted: a name is typed and it is not the
    /// name the folder has.
    pub open spec fn ready(&self) -> bool {
        self.name@.len() > 0 && self.name@ != self@.name
    }

    /// The command that the form gives: to give its folder the name typed.
    /// The form is left with no folder and no name. A form that is not ready
    /// gives none.
    pub fn submit(&mut self) -> (r: Option<Message>)
        ensures
            final(self).closed == old(self).closed,
            match r {
                Some(message) => {
                    &&& old(self).ready()
                    &&& message@ == MessageView::Folder(
                        Action::Update,
                        FolderView { name: old(self).name@, ..old(self)@ },
                    )
                    &&& final(self)@ == (FolderView { id: 0, name: Seq::empty(), feeds: None })
                    &&& final(self).name@.len() == 0
                },
                None => !old(self).ready() && final(self)@ == old(self)@ && final(self).name
                    == old(self).name,
            },
    {
        if self.name.as_str().is_empty() || self.name == self.folder.name {
            return None;
        }
        let mut folder = self.folder.clone();
        folder.name = self.name.clone();
        self.folder = Folder::default();
        self.name = String::new();
        Some(Message::Folder(Action::Update, folder))
    }

    /// The command was sent: the form is to go away.
    pub fn sent(&mut self)
        ensures
            final(self).closed,
            final(self)@ == old(self)@,
            final(self).name == old(self).name,
    {
        self.closed = true;
    }
}

} // verus!
