//! The library page's HTML queries, made by the `scraper` crate.

use vstd::prelude::*;

use super::ollama::{listing_view, ListedModel, ListedModelView};

verus! {

/// What the `scraper` crate finds on a page: for each element matching
/// `model_css`, the `title` attributes of its descendants matching
/// `title_css`, the texts of those matching `desc_css` and the texts of those
/// matching `size_css`, each query yielding its elements in the order the
/// parser created the nodes; `None` when one of the four selectors does not
/// compile.
pub uninterp spec fn page_listing(
    html: Seq<char>,
    model_css: Seq<char>,
    title_css: Seq<char>,
    desc_css: Seq<char>,
    size_css: Seq<char>,
) -> Option<Seq<ListedModelView>>;

/// `scraper::Html::parse_document` followed by `Html::select` and
/// `ElementRef::select` / `attr` / `text` queries (with selectors compiled by
/// `scraper::Selector::parse`): the listing the page shows, taken as the
/// name `page_listing`. The parser and selector engine are deterministic, so
/// the result depends on the page text and the selectors alone.
#[verifier::external_body]
pub(crate) fn scrape_listing(
    html: &str,
    model_css: &str,
    title_css: &str,
    desc_css: &str,
    size_css: &str,
) -> (listing: Option<Vec<ListedModel>>)
    ensures
        page_listing(html@, model_css@, title_css@, desc_css@, size_css@) == match listing {
            Some(v) => Some(listing_view(v@)),
            None => None,
        },
{
    let sel = |css: &str| scraper::Selector::parse(css).ok();
    let (m, t, d, s) = (sel(model_css)?, sel(title_css)?, sel(desc_css)?, sel(size_css)?);
    let text = |e: scraper::ElementRef| e.text().collect::<String>();
    let doc = scraper::Html::parse_document(html);
    Some(doc.select(&m).map(|el| ListedModel {
        titles: el.select(&t).map(|e| e.attr("title").map(|a| a.to_string())).collect(),
        descriptions: el.select(&d).map(text).collect(),
        sizes: el.select(&s).map(text).collect(),
    }).collect())
}

} // verus!
