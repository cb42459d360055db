//! What the catalog's HTML pages hold, read with the scraper crate.
//!
//! Each reader below parses a page's text and selects elements from it. What it
//! returns depends on that text alone, so its result is named by a spec function
//! of the text; the logic that consumes the result is verified in `catalog`.
use vstd::prelude::*;

verus! {

/// The text of each listing-title element of a listing page, in document order.
pub uninterp spec fn listing_titles(page: Seq<char>) -> Seq<Seq<char>>;

/// The `href` of each result-tile link of a search page, in document order.
pub uninterp spec fn search_hits(page: Seq<char>) -> Seq<Option<Seq<char>>>;

/// For each track element of a detail page, in document order: the `content` of
/// each nested name element, and the `href` of each nested media-link element.
pub uninterp spec fn track_scan(page: Seq<char>) -> Seq<
    (Seq<Option<Seq<char>>>, Seq<Option<Seq<char>>>),
>;

/// Relies on scraper's Html::parse_document, Selector::parse, Html::select and
/// ElementRef::text: the joined text pieces of each `div.ttl` element.
#[verifier::external_body]
pub(crate) fn listing_title_texts(page: &str) -> (r: Vec<String>)
    ensures
        r.deep_view() == listing_titles(page@),
{
    let doc = scraper::Html::parse_document(page);
    let title = scraper::Selector::parse(r#"div[class="ttl"]"#).unwrap();
    doc.select(&title).map(|el| el.text().collect::<String>()).collect()
}

/// Relies on scraper's Html::parse_document, Selector::parse, Html::select and
/// ElementRef::attr: the `href` of each item-tile link, where it has one.
#[verifier::external_body]
pub(crate) fn search_hit_links(page: &str) -> (r: Vec<Option<String>>)
    ensures
        r.deep_view() == search_hits(page@),
{
    let doc = scraper::Html::parse_document(page);
    let tile = scraper::Selector::parse(
        r#"a[data-event-click-tracking="GenericNonCollection|ItemTile"]"#,
    ).unwrap();
    doc.select(&tile).map(|el| el.attr("href").map(String::from)).collect()
}

/// Relies on scraper's Html::parse_document, Selector::parse, Html::select,
/// ElementRef::select and ElementRef::attr: per track element, the attributes of
/// the name and media-link elements below it.
#[verifier::external_body]
pub(crate) fn track_blocks(page: &str) -> (r: Vec<(Vec<Option<String>>, Vec<Option<String>>)>)
    ensures
        r.deep_view() == track_scan(page@),
{
    let doc = scraper::Html::parse_document(page);
    let track = scraper::Selector::parse(r#"div[itemprop="track"]"#).unwrap();
    let name = scraper::Selector::parse(r#"meta[itemprop="name"]"#).unwrap();
    let link = scraper::Selector::parse(r#"link[itemprop="associatedMedia"]"#).unwrap();
    doc.select(&track).map(|el| (
        el.select(&name).map(|c| c.attr("content").map(String::from)).collect(),
        el.select(&link).map(|c| c.attr("href").map(String::from)).collect(),
    )).collect()
}

} // verus!
