//! A fetched feed as plain values: what the reconciliation rules read of a
//! syndication document. Whoever parses the bytes of a feed hands over a
//! [`Document`].

use vstd::prelude::*;

use crate::text::same;

verus! {

/// The syndication format a document was written in.
#[derive(Clone, Copy, Debug, PartialEq, Eq)]
pub enum FeedType {
    Atom,
    JSON,
    RSS0,
    RSS1,
    RSS2,
}

impl FeedType {
    /// The spelling under which the format is stored.
    pub open spec fn spec_label(self) -> Seq<char> {
        match self {
            FeedType::Atom => "Atom"@,
            FeedType::JSON => "JSON"@,
            FeedType::RSS0 => "RSS0"@,
            FeedType::RSS1 => "RSS1"@,
            FeedType::RSS2 => "RSS2"@,
        }
    }

    /// The format that is stored under the spelling `label`, where there is
    /// one.
    pub fn from_label(label: &str) -> (r: Option<FeedType>)
        ensures
            r is Some <==> exists|kind: FeedType| label@ == kind.spec_label(),
            r is Some ==> r->0.spec_label() == label@,
    {
        let found = if same(label, "Atom") {
            Some(FeedType::Atom)
        } else if same(label, "JSON") {
            Some(FeedType::JSON)
        } else if same(label, "RSS0") {
            Some(FeedType::RSS0)
        } else if same(label, "RSS1") {
            Some(FeedType::RSS1)
        } else if same(label, "RSS2") {
            Some(FeedType::RSS2)
        } else {
            None
        };
        proof {
            match found {
                Some(kind) => {
                    assert(label@ == kind.spec_label());
                },
                None => {
                    assert forall|kind: FeedType| label@ != kind.spec_label() by {}
                },
            }
        }
        found
    }

    /// The spelling under which the format is stored.
    pub fn label(&self) -> (r: &'static str)
        ensures
            r@ == self.spec_label(),
    {
        match self {
            FeedType::Atom => "Atom",
            FeedType::JSON => "JSON",
            FeedType::RSS0 => "RSS0",
            FeedType::RSS1 => "RSS1",
            FeedType::RSS2 => "RSS2",
        }
    }
}

/// A link of a document or of an entry.
#[derive(Debug, PartialEq, Eq)]
pub struct Link {
    pub href: String,
    /// The relation of the target to the document, `self` for the document's
    /// own address.
    pub rel: Option<String>,
}

/// Mathematical value of a [`Link`].
pub struct LinkView {
    pub href: Seq<char>,
    pub rel: Option<Seq<char>>,
}

impl DeepView for Link {
    type V = LinkView;

    open spec fn deep_view(&self) -> LinkView {
        LinkView { href: self.href@, rel: self.rel.deep_view() }
    }
}

impl View for Link {
    type V = LinkView;

    open spec fn view(&self) -> LinkView {
        self.deep_view()
    }
}

impl Clone for Link {
    fn clone(&self) -> (r: Self)
        ensures
            r@ == self@,
    {
        Link { href: self.href.clone(), rel: self.rel.clone() }
    }
}

/// Someone a document or an entry names as its author.
#[derive(Debug, PartialEq, Eq)]
pub struct Person {
    pub name: String,
    pub email: Option<String>,
    pub uri: Option<String>,
}

/// Mathematical value of a [`Person`].
pub struct PersonView {
    pub name: Seq<char>,
    pub email: Option<Seq<char>>,
    pub uri: Option<Seq<char>>,
}

impl DeepView for Person {
    type V = PersonView;

    open spec fn deep_view(&self) -> PersonView {
        PersonView { name: self.name@, email: self.email.deep_view(), uri: self.uri.deep_view() }
    }
}

impl View for Person {
    type V = PersonView;

    open spec fn view(&self) -> PersonView {
        self.deep_view()
    }
}

impl Clone for Person {
    fn clone(&self) -> (r: Self)
        ensures
            r@ == self@,
    {
        Person { name: self.name.clone(), email: self.email.clone(), uri: self.uri.clone() }
    }
}

/// One entry of a fetched document. Timestamps are milliseconds since the
/// epoch.
#[derive(Debug, PartialEq, Eq)]
pub struct Entry {
    /// The entry's own identifier, which may or may not be an address.
    pub id: String,
    pub title: Option<String>,
    pub links: Vec<Link>,
    /// The body of the entry.
    pub content: Option<String>,
    pub summary: Option<String>,
    pub published: Option<i64>,
    pub updated: Option<i64>,
    pub authors: Vec<Person>,
}

/// Mathematical value of an [`Entry`].
pub struct EntryView {
    pub id: Seq<char>,
    pub title: Option<Seq<char>>,
    pub links: Seq<LinkView>,
    pub content: Option<Seq<char>>,
    pub summary: Option<Seq<char>>,
    pub published: Option<i64>,
    pub updated: Option<i64>,
    pub authors: Seq<PersonView>,
}

impl DeepView for Entry {
    type V = EntryView;

    open spec fn deep_view(&self) -> EntryView {
        EntryView {
            id: self.id@,
            title: self.title.deep_view(),
            links: self.links.deep_view(),
            content: self.content.deep_view(),
            summary: self.summary.deep_view(),
            published: self.published,
            updated: self.updated,
            authors: self.authors.deep_view(),
        }
    }
}

impl View for Entry {
    type V = EntryView;

    open spec fn view(&self) -> EntryView {
        self.deep_view()
    }
}

impl Clone for Entry {
    fn clone(&self) -> (r: Self)
        ensures
            r@ == self@,
    {
        let links = self.links.clone();
        let authors = self.authors.clone();
        Entry {
            id: self.id.clone(),
            title: self.title.clone(),
            links,
            content: self.content.clone(),
            summary: self.summary.clone(),
            published: self.published,
            updated: self.updated,
            authors,
        }
    }
}

/// A fetched document: the feed-level fields and the entries, newest first
/// as documents list them.
#[derive(Debug, PartialEq, Eq)]
pub struct Document {
    /// The document's own identifier.
    pub id: String,
    pub kind: FeedType,
    pub title: Option<String>,
    pub description: Option<String>,
    pub published: Option<i64>,
    pub updated: Option<i64>,
    pub authors: Vec<Person>,
    pub links: Vec<Link>,
    pub entries: Vec<Entry>,
}

/// Mathematical value of a [`Document`].
pub struct DocumentView {
    pub id: Seq<char>,
    pub kind: FeedType,
    pub title: Option<Seq<char>>,
    pub description: Option<Seq<char>>,
    pub published: Option<i64>,
    pub updated: Option<i64>,
    pub authors: Seq<PersonView>,
    pub links: Seq<LinkView>,
    pub entries: Seq<EntryView>,
}

impl DeepView for Document {
    type V = DocumentView;

    open spec fn deep_view(&self) -> DocumentView {
        DocumentView {
            id: self.id@,
            kind: self.kind,
            title: self.title.deep_view(),
            description: self.description.deep_view(),
            published: self.published,
            updated: self.updated,
            authors: self.authors.deep_view(),
            links: self.links.deep_view(),
            entries: self.entries.deep_view(),
        }
    }
}

impl View for Document {
    type V = DocumentView;

    open spec fn view(&self) -> DocumentView {
        self.deep_view()
    }
}

impl Clone for Document {
    fn clone(&self) -> (r: Self)
        ensures
            r@ == self@,
    {
        let authors = self.authors.clone();
        let links = self.links.clone();
        let entries = self.entries.clone();
        Document {
            id: self.id.clone(),
            kind: self.kind,
            title: self.title.clone(),
            description: self.description.clone(),
            published: self.published,
            updated: self.updated,
            authors,
            links,
            entries,
        }
    }
}

} // verus!
