//! Reading the show rows out of the listing page, through scraper.
use vstd::prelude::*;
use crate::calendar::Movie;
use crate::cinegestion::{ShowRow, ShowRowView, extract, movie_views, plausible_instants, row_views, select_movies};

verus! {

/// The show rows that scraper finds in a page: each `tr` marked
/// `data-type="show"`, in document order, with the inner markup and the
/// `data-names` attribute of each of its `td` cells.
pub uninterp spec fn page_rows(html: Seq<char>) -> Seq<ShowRowView>;

/// Relies on scraper's Html::parse_fragment, Selector::parse, select,
/// ElementRef::inner_html and ElementRef::attr: the show rows of a page, which
/// depend on its text alone since the `deterministic` feature keeps each
/// element's attributes in document order.
#[verifier::external_body]
fn scrape_rows(html: &str) -> (r: Vec<ShowRow>)
    ensures
        row_views(r@) == page_rows(html@),
{
    let doc = scraper::Html::parse_fragment(html);
    let (tr, td) = match (scraper::Selector::parse("tr[data-type=\"show\"]"), scraper::Selector::parse("td")) {
        (Ok(tr), Ok(td)) => (tr, td),
        _ => return Vec::new(),
    };
    doc.select(&tr).map(|row| {
        let tds: Vec<_> = row.select(&td).collect();
        ShowRow {
            cells: tds.iter().map(|c| c.inner_html()).collect(),
            cell_names: tds.iter().map(|c| c.attr("data-names").map(|v| v.to_string())).collect(),
        }
    }).collect()
}

/// The show rows of a listing page, in document order.
pub fn show_rows(html: &str) -> (r: Vec<ShowRow>)
    ensures
        row_views(r@) == page_rows(html@),
{
    scrape_rows(html)
}

/// The show records of `location` on a listing page, in page order: one per
/// show row that is kept and whose local start converts to an instant.
pub fn load_movies(html: &str, location: &str) -> (r: Vec<Movie>)
    ensures
        exists|instants: Seq<Option<int>>| plausible_instants(page_rows(html@), location@, instants)
            && movie_views(r@) == #[trigger] select_movies(page_rows(html@), location@, instants),
        forall|k: int| 0 <= k < r@.len() ==> (#[trigger] r@[k]).wf(),
{
    let rows = show_rows(html);
    extract(&rows, location)
}

} // verus!
