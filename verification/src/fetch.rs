//! What a fetch decides once a document has arrived: which timestamp it
//! stands for, whether it brings anything new, and where the site of the
//! feed is.

use vstd::prelude::*;
use vstd::string::*;

use crate::document::{Document, DocumentView, EntryView, Link, LinkView};
use crate::text::{contains_char, strip_suffix, without_suffix};
use crate::utils::{is_feed_address, is_feed_url};

verus! {

/// The timestamp an entry stands for: when it last changed, else when it was
/// published.
pub open spec fn entry_stamp(e: EntryView) -> Option<i64> {
    match e.updated {
        Some(t) => Some(t),
        None => e.published,
    }
}

/// The timestamp a document stands for: that of its first entry, else when
/// the document last changed, else when it was published, else the watermark
/// `last_seen`, which says that nothing is new.
pub open spec fn candidate(doc: DocumentView, last_seen: i64) -> i64 {
    let first = if doc.entries.len() > 0 {
        entry_stamp(doc.entries[0])
    } else {
        None
    };
    match first {
        Some(t) => t,
        None => match doc.updated {
            Some(t) => t,
            None => match doc.published {
                Some(t) => t,
                None => last_seen,
            },
        },
    }
}

/// Whether a fetch brings something new: its timestamp is later than the
/// watermark, or equal to it while the document has entries.
pub open spec fn is_news(stamp: i64, last_seen: i64, entries: nat) -> bool {
    stamp > last_seen || (stamp == last_seen && entries > 0)
}

/// The first address among the links that does not look like that of a feed.
pub open spec fn plain_link(links: Seq<LinkView>) -> Option<Seq<char>>
    decreases links.len(),
{
    if links.len() == 0 {
        None
    } else if !is_feed_address(links.first().href) {
        Some(links.first().href)
    } else {
        plain_link(links.drop_first())
    }
}

/// `url` without the usual names of feed files and feed paths at its end,
/// each removed in turn as often as it stands there.
pub open spec fn stripped(url: Seq<char>) -> Seq<char> {
    let a = without_suffix(url, "rss.xml"@);
    let b = without_suffix(a, "atom.xml"@);
    let c = without_suffix(b, "index.xml"@);
    let d = without_suffix(c, "feed.xml"@);
    let e = without_suffix(d, "feed.atom"@);
    let f = without_suffix(e, "feed/"@);
    let g = without_suffix(f, "feed"@);
    let h = without_suffix(g, "rss/"@);
    without_suffix(h, "rss"@)
}

/// The address of the site of a feed. `parsed_id` is the identifier of the
/// document as an address, where it is one.
///
/// A link that does not look like the address of a feed is preferred. Else
/// the identifier is taken, where it holds no comma and is an address. Else
/// the first link, or the address of the feed where there is no link, is
/// taken without the usual names of feed files at its end.
pub open spec fn site_of(
    doc: DocumentView,
    parsed_id: Option<Seq<char>>,
    feed_url: Seq<char>,
) -> Seq<char> {
    match plain_link(doc.links) {
        Some(href) => href,
        None => match parsed_id {
            Some(address) if !doc.id.contains(',') => address,
            _ => stripped(
                if doc.links.len() > 0 {
                    doc.links[0].href
                } else {
                    feed_url
                },
            ),
        },
    }
}

/// What `url::Url::parse` makes of a text: the address in its normal
/// spelling, or nothing where the text is no address.
pub uninterp spec fn parsed_address(input: Seq<char>) -> Option<Seq<char>>;

/// Parses `input` as an address with `url::Url::parse` and returns the
/// spelling that the parsed address has (`Url::as_str`), or `None` where the
/// parser refuses the text. Not proved: the result is only given a name,
/// as a function of the text.
#[verifier::external_body]
pub(crate) fn parse_address(input: &str) -> (r: Option<String>)
    ensures
        r.deep_view() == parsed_address(input@),
{
    match url::Url::parse(input) {
        Ok(address) => Some(address.as_str().to_owned()),
        Err(_) => None,
    }
}

/// The timestamp that `doc` stands for, fetched for a feed whose watermark is
/// `last_seen`.
pub fn candidate_timestamp(doc: &Document, last_seen: i64) -> (r: i64)
    ensures
        r == candidate(doc@, last_seen),
{
    let first: Option<i64> = if doc.entries.len() > 0 {
        let e = &doc.entries[0];
        match e.updated {
            Some(t) => Some(t),
            None => e.published,
        }
    } else {
        None
    };
    match first {
        Some(t) => t,
        None => match doc.updated {
            Some(t) => t,
            None => match doc.published {
                Some(t) => t,
                None => last_seen,
            },
        },
    }
}

/// Whether a fetch with the timestamp `stamp` and `entries` entries brings
/// something new for a feed whose watermark is `last_seen`.
pub fn has_new_content(stamp: i64, last_seen: i64, entries: usize) -> (r: bool)
    ensures
        r == is_news(stamp, last_seen, entries as nat),
{
    stamp > last_seen || (stamp == last_seen && entries > 0)
}

/// `url` without the usual names of feed files and feed paths at its end.
pub fn strip_feed_suffixes(url: &str) -> (r: String)
    ensures
        r@ == stripped(url@),
{
    let a = strip_suffix(url, "rss.xml");
    let b = strip_suffix(a, "atom.xml");
    let c = strip_suffix(b, "index.xml");
    let d = strip_suffix(c, "feed.xml");
    let e = strip_suffix(d, "feed.atom");
    let f = strip_suffix(e, "feed/");
    let g = strip_suffix(f, "feed");
    let h = strip_suffix(g, "rss/");
    strip_suffix(h, "rss").to_owned()
}

/// The first address among `links` that does not look like that of a feed.
pub fn find_plain_link(links: &Vec<Link>) -> (r: Option<String>)
    ensures
        r.deep_view() == plain_link(links.deep_view()),
{
    let ghost all = links.deep_view();
    let mut i: usize = 0;
    assert(all.skip(0) =~= all);
    while i < links.len()
        invariant
            i <= links.len(),
            all == links.deep_view(),
            plain_link(all) == plain_link(all.skip(i as int)),
        decreases links.len() - i,
    {
        assert(all.skip(i as int).drop_first() =~= all.skip(i + 1));
        if !is_feed_url(&links[i]) {
            return Some(links[i].href.clone());
        }
        i += 1;
    }
    None
}

/// The address of the site of the feed at `feed_url`, given what became of
/// the identifier of its document when it was parsed as an address.
pub fn choose_site(doc: &Document, parsed_id: Option<String>, feed_url: &str) -> (r: String)
    ensures
        r@ == site_of(doc@, parsed_id.deep_view(), feed_url@),
{
    match find_plain_link(&doc.links) {
        Some(href) => href,
        None => {
            let single = !contains_char(doc.id.as_str(), ',');
            match parsed_id {
                Some(address) => {
                    if single {
                        return address;
                    }
                },
                None => {},
            }
            if doc.links.len() > 0 {
                strip_feed_suffixes(doc.links[0].href.as_str())
            } else {
                strip_feed_suffixes(feed_url)
            }
        },
    }
}

/// The address of the site of the feed at `feed_url`, told from its
/// document.
pub fn derive_site_url(doc: &Document, feed_url: &str) -> (r: String)
    ensures
        r@ == site_of(doc@, parsed_address(doc@.id), feed_url@),
{
    let parsed = parse_address(doc.id.as_str());
    choose_site(doc, parsed, feed_url)
}

} // verus!
