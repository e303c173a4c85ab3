//! Hacker News source (the HN Algolia search API): the parts that do not talk
//! to the network.

use vstd::prelude::*;
use vstd::string::*;

use crate::model::{Match, Query, Source};
use crate::text::{join, join_strings, string_views};

verus! {

/// The live HN Algolia API.
pub const DEFAULT_BASE_URL: &'static str = "https://hn.algolia.com";

/// The text of an optional string, empty when absent.
pub open spec fn text_or_empty(o: Option<String>) -> Seq<char> {
    match o {
        Some(s) => s@,
        None => Seq::empty(),
    }
}

/// The canonical link of a story: its HN discussion page.
pub open spec fn item_url(object_id: Seq<char>) -> Seq<char> {
    "https://news.ycombinator.com/item?id="@ + object_id
}

/// The search endpoint under `base_url`.
pub fn search_url(base_url: &str) -> (r: String)
    ensures
        r@ == base_url@ + "/api/v1/search"@,
{
    let mut r = String::from_str(base_url);
    r.append("/api/v1/search");
    r
}

/// The search text for a query: its keywords separated by single spaces.
pub fn search_text(query: &Query) -> (r: String)
    ensures
        r@ == join(string_views(query.keywords@), " "@),
{
    join_strings(query.keywords.as_slice(), " ")
}

/// The match for one search hit. The canonical link is the HN discussion, not
/// the (optional) outbound URL: the discussion is always present.
pub fn hit_to_match(
    title: Option<String>,
    story_text: Option<String>,
    object_id: String,
    points: Option<u64>,
) -> (m: Match)
    ensures
        m.name@ == text_or_empty(title),
        m.source == Source::HackerNews,
        m.url@ == item_url(object_id@),
        m.description@ == text_or_empty(story_text),
        m.popularity == points,
        m.similarity == 0,
{
    let name = match title {
        Some(t) => t,
        None => String::new(),
    };
    let description = match story_text {
        Some(t) => t,
        None => String::new(),
    };
    let mut url = String::from_str("https://news.ycombinator.com/item?id=");
    url.append(object_id.as_str());
    Match { name, source: Source::HackerNews, url, description, popularity: points, similarity: 0 }
}

} // verus!
