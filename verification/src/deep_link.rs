//! Bookmarks that arrive as a link of the application's own scheme.
//!
//! Taking a link apart is left to the `url` crate. What it found is copied
//! into plain pairs of strings, and the bookmark is made from those.

use vstd::prelude::*;
use crate::models::{texts_of, BookmarkNew, NewBookmarkRecord};
use crate::text::{same_text, split, split_on, starts_with};

verus! {

/// The pairs of a query, each a name and a value, in order.
pub type QueryPairs = Seq<(Seq<char>, Seq<char>)>;

/// A URL of the `url` crate, opaque here.
#[verifier::external_type_specification]
#[verifier::external_body]
pub struct ExUrl(url::Url);

/// The query pairs of the URL that a text spells, if it spells an absolute URL.
pub uninterp spec fn link_query(link: Seq<char>) -> Option<QueryPairs>;

/// The query pairs that a URL holds.
pub uninterp spec fn url_query(url: url::Url) -> QueryPairs;

/// What the outcome of parsing says of the text that was parsed.
pub open spec fn parsed_query(parsed: Option<url::Url>) -> Option<QueryPairs> {
    match parsed {
        Some(url) => Some(url_query(url)),
        None => None,
    }
}

/// The pairs of a list, as texts.
pub open spec fn pairs_of(pairs: Seq<(String, String)>) -> QueryPairs {
    Seq::new(pairs.len(), |i: int| (pairs[i].0@, pairs[i].1@))
}

/// `url::Url::parse`: reads a text as an absolute URL, or fails. The outcome
/// is a function of the text alone.
#[verifier::external_body]
pub(crate) fn parse_url(link: &str) -> (r: Option<url::Url>)
    ensures
        parsed_query(r) == link_query(link@),
{
    url::Url::parse(link).ok()
}

/// `url::Url::query_pairs`: the names and values of the URL's query, decoded,
/// in the order of the query. A URL without a query has none.
#[verifier::external_body]
pub(crate) fn query_pairs(url: &url::Url) -> (r: Vec<(String, String)>)
    ensures
        pairs_of(r@) == url_query(*url),
{
    url.query_pairs().map(|(name, value)| (name.into_owned(), value.into_owned())).collect()
}

/// The scheme of the links that the application takes.
pub open spec fn scheme() -> Seq<char> {
    "pcpocket://"@
}

/// The value of the first pair named `name` at or after `start`, or the
/// empty text where there is none.
pub open spec fn value_from(pairs: QueryPairs, name: Seq<char>, start: int) -> Seq<char>
    decreases pairs.len() - start,
{
    if start < 0 || start >= pairs.len() {
        Seq::empty()
    } else if pairs[start].0 == name {
        pairs[start].1
    } else {
        value_from(pairs, name, start + 1)
    }
}

/// The value of the first pair named `name`, or the empty text.
pub open spec fn first_value(pairs: QueryPairs, name: Seq<char>) -> Seq<char> {
    value_from(pairs, name, 0)
}

/// The bookmark that a query asks to add: its `title`, `link` and
/// `icon_link`, each empty where the query does not give it, created now.
pub open spec fn query_bookmark(pairs: QueryPairs, now: int) -> NewBookmarkRecord {
    NewBookmarkRecord {
        title: Some(first_value(pairs, "title"@)),
        link: first_value(pairs, "link"@),
        icon_link: Some(first_value(pairs, "icon_link"@)),
        created_at: now,
    }
}

/// The tags that a query asks for: the pieces of its `tags` between commas.
pub open spec fn query_tags(pairs: QueryPairs) -> Seq<Seq<char>> {
    split(first_value(pairs, "tags"@), ',')
}

/// What an argument of the command line asks for.
#[derive(Debug)]
pub enum DeepLink {
    /// The argument is no link of the application's scheme.
    Ignored,
    /// The argument begins like a link of the scheme and is no URL.
    Invalid,
    /// Add this bookmark with these tags.
    Bookmark { bookmark: BookmarkNew, tags: Vec<String> },
}

/// Whether `found` is what the query of a link asks for at the time `now`.
pub open spec fn asks_for(found: DeepLink, query: Option<QueryPairs>, now: int) -> bool {
    match query {
        None => found is Invalid,
        Some(pairs) => found matches DeepLink::Bookmark { bookmark, tags } && bookmark@
            == query_bookmark(pairs, now) && texts_of(tags@) == query_tags(pairs),
    }
}

/// Finds the value of the first pair named `name`.
pub fn value_of(pairs: &Vec<(String, String)>, name: &str) -> (r: String)
    ensures
        r@ == first_value(pairs_of(pairs@), name@),
{
    let ghost all = pairs_of(pairs@);
    let mut i: usize = 0;
    while i < pairs.len()
        invariant
            i <= pairs@.len(),
            all == pairs_of(pairs@),
            first_value(all, name@) == value_from(all, name@, i as int),
        decreases pairs.len() - i,
    {
        if same_text(pairs[i].0.as_str(), name) {
            return pairs[i].1.clone();
        }
        i = i + 1;
    }
    String::new()
}

/// Makes the bookmark and the tags that the pairs of a query ask for.
pub fn bookmark_from_pairs(pairs: &Vec<(String, String)>, now: i64) -> (r: (
    BookmarkNew,
    Vec<String>,
))
    ensures
        r.0@ == query_bookmark(pairs_of(pairs@), now as int),
        texts_of(r.1@) == query_tags(pairs_of(pairs@)),
{
    let bookmark = BookmarkNew {
        title: Some(value_of(pairs, "title")),
        link: value_of(pairs, "link"),
        icon_link: Some(value_of(pairs, "icon_link")),
        created_at: now,
    };
    let tags = value_of(pairs, "tags");
    (bookmark, split_on(tags.as_str(), ','))
}

/// Reads an argument of the command line as a request to add a bookmark. Only
/// a link of the application's scheme is one; `now` is the time in seconds
/// that the bookmark is dated with.
pub fn deep_link(argument: &str, now: i64) -> (r: DeepLink)
    ensures
        !scheme().is_prefix_of(argument@) ==> r is Ignored,
        scheme().is_prefix_of(argument@) ==> asks_for(r, link_query(argument@), now as int),
{
    if !starts_with(argument, "pcpocket://") {
        return DeepLink::Ignored;
    }
    match parse_url(argument) {
        None => DeepLink::Invalid,
        Some(url) => {
            let pairs = query_pairs(&url);
            let (bookmark, tags) = bookmark_from_pairs(&pairs, now);
            DeepLink::Bookmark { bookmark, tags }
        },
    }
}

} // verus!
