//! Telling the address of a site from the address of its feed.

use vstd::prelude::*;
use vstd::string::*;

use crate::document::{Link, LinkView};
use crate::text::{ends_with, is_suffix, same, trim_end_matches, without_trailing};

verus! {

/// Whether an address looks like that of a feed rather than of a site: it
/// ends in one of the usual names of feed files and feed paths.
pub open spec fn is_feed_address(href: Seq<char>) -> bool {
    ||| is_suffix(".xml"@, href)
    ||| is_suffix(".atom"@, href)
    ||| is_suffix("rss/"@, href)
    ||| is_suffix("rss"@, href)
    ||| is_suffix("atom/"@, href)
    ||| is_suffix("atom"@, href)
    ||| is_suffix("feed"@, href)
    ||| is_suffix("feed/"@, href)
}

/// Whether a link points to the document itself.
pub open spec fn is_self(link: LinkView) -> bool {
    link.rel == Some("self"@)
}

/// The first link that does not point to the document itself.
pub open spec fn first_foreign(links: Seq<LinkView>) -> Option<LinkView>
    decreases links.len(),
{
    if links.len() == 0 {
        None
    } else if !is_self(links.first()) {
        Some(links.first())
    } else {
        first_foreign(links.drop_first())
    }
}

/// The address of the site of a feed: the first link that does not point to
/// the document itself, where there is one and it does not look like the
/// address of a feed, else the address of the feed; either without slashes
/// at its end.
pub open spec fn site_url(feed_url: Seq<char>, links: Seq<LinkView>) -> Seq<char> {
    match first_foreign(links) {
        Some(link) if !is_feed_address(link.href) => without_trailing(link.href, '/'),
        _ => without_trailing(feed_url, '/'),
    }
}

/// Whether the address of `link` looks like that of a feed.
pub fn is_feed_url(link: &Link) -> (r: bool)
    ensures
        r == is_feed_address(link@.href),
{
    let href = link.href.as_str();
    ends_with(href, ".xml") || ends_with(href, ".atom") || ends_with(href, "rss/") || ends_with(
        href,
        "rss",
    ) || ends_with(href, "atom/") || ends_with(href, "atom") || ends_with(href, "feed")
        || ends_with(href, "feed/")
}

/// `url` without slashes at its end.
pub fn trim_end(url: String) -> (r: String)
    ensures
        r@ == without_trailing(url@, '/'),
{
    trim_end_matches(url.as_str(), '/').to_owned()
}

/// The address of the site of the feed at `feed_url`, told from the links of
/// its document.
pub fn extract_site_url(feed_url: String, links: Vec<Link>) -> (r: String)
    ensures
        r@ == site_url(feed_url@, links.deep_view()),
{
    let ghost all = links.deep_view();
    let mut i: usize = 0;
    assert(all.skip(0) =~= all);
    while i < links.len()
        invariant
            i <= links.len(),
            all == links.deep_view(),
            first_foreign(all) == first_foreign(all.skip(i as int)),
        decreases links.len() - i,
    {
        assert(all.skip(i as int).drop_first() =~= all.skip(i + 1));
        let own = match &links[i].rel {
            Some(rel) => same(rel.as_str(), "self"),
            None => false,
        };
        if !own {
            if !is_feed_url(&links[i]) {
                return trim_end(links[i].href.clone());
            }
            return trim_end(feed_url);
        }
        i += 1;
    }
    trim_end(feed_url)
}

} // verus!
