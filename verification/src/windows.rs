//! The state behind the dialogs: what each form holds, what opening it with a
//! message does to it, and which command it gives when it is submitted.
//! Drawing is not done here.

use vstd::prelude::*;

use crate::{Message, MessageView};

pub mod feed;
pub mod folder;

verus! {

/// Which dialog is open, and the message it was opened with. At most one
/// dialog is open at a time.
#[derive(Debug)]
pub struct Desk {
    open: Option<(&'static str, Option<Message>)>,
}

impl View for Desk {
    type V = Option<(Seq<char>, Option<MessageView>)>;

    closed spec fn view(&self) -> Option<(Seq<char>, Option<MessageView>)> {
        match self.open {
            Some((key, data)) => Some((key@, data.deep_view())),
            None => None,
        }
    }
}

/// Whether the dialog `key` is open.
pub open spec fn holds(desk: Option<(Seq<char>, Option<MessageView>)>, key: Seq<char>) -> bool {
    match desk {
        Some((open, _)) => open == key,
        None => false,
    }
}

/// The desk after the dialog `key` was opened with `data` (`is_open`), which
/// closes every other dialog, or was closed.
pub open spec fn after_set_open(
    desk: Option<(Seq<char>, Option<MessageView>)>,
    key: Seq<char>,
    is_open: bool,
    data: Option<MessageView>,
) -> Option<(Seq<char>, Option<MessageView>)> {
    if is_open {
        Some((key, data))
    } else {
        match desk {
            Some((open, _)) if open == key => None,
            _ => desk,
        }
    }
}

impl Desk {
    /// A desk with no dialog open.
    pub fn new() -> (r: Desk)
        ensures
            r@ is None,
    {
        Desk { open: None }
    }

    /// Whether the dialog `key` is open.
    pub fn contains_key(&self, key: &'static str) -> (r: bool)
        ensures
            r == holds(self@, key@),
    {
        match &self.open {
            Some((open, _)) => crate::text::same(open, key),
            None => false,
        }
    }

    /// Opens the dialog `key` with `data`, closing every other, where
    /// `is_open` holds; else closes it.
    pub fn set_open(&mut self, key: &'static str, is_open: bool, data: Option<Message>)
        ensures
            final(self)@ == after_set_open(old(self)@, key@, is_open, data.deep_view()),
    {
        if is_open {
            self.open = Some((key, data));
        } else if self.contains_key(key) {
            self.open = None;
        }
    }

    /// Hands out the message that the dialog `key` was opened with, once.
    pub fn take_data(&mut self, key: &'static str) -> (r: Option<Message>)
        ensures
            match old(self)@ {
                Some((open, data)) if open == key@ => r.deep_view() == data && final(self)@
                    == Some((open, None::<MessageView>)),
                _ => r is None && final(self)@ == old(self)@,
            },
    {
        if self.contains_key(key) {
            match self.open.take() {
                Some((open, data)) => {
                    self.open = Some((open, None));
                    data
                },
                None => None,
            }
        } else {
            None
        }
    }
}

} // verus!
