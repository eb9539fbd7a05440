//! The scraping provider for a subscene-style subtitle site.
//!
//! A search fetches one listing page; each table cell of class `a1` on it
//! describes one candidate: its first span holds the language label, the
//! next span the display name, and its first anchor the relative link.
//! A cell missing any of the three is discarded, and a cell is kept only
//! when its trimmed language label equals the requested language exactly.
//! Resolving a candidate fetches its detail page and follows the single
//! download-button link to the archive.

use vstd::prelude::*;
use vstd::string::StrSliceExecFns;
use select::document::Document;
use select::predicate::{And, Attr, Name};
use crate::provider::{Downloadable, Provider, ResultModel};
use crate::text::{trim, trim_spec, str_eq};

verus! {

/// One cell of a result listing, as the HTML parser hands it over: the
/// texts of its span elements and the link targets of its anchors, in
/// document order.
pub struct RawCell {
    pub texts: Vec<String>,
    pub links: Vec<String>,
}

impl RawCell {
    /// The cell as plain sequences: span texts and anchor targets.
    pub open spec fn model(&self) -> (Seq<Seq<char>>, Seq<Seq<char>>) {
        (self.texts.deep_view(), self.links.deep_view())
    }
}

/// What the HTML parser finds on a listing page: for each `td` element of
/// class `a1`, the span texts and anchor targets inside it, in document
/// order.  Parsing the same text always finds the same cells.
pub uninterp spec fn cells_of(page: Seq<char>) -> Seq<(Seq<Seq<char>>, Seq<Seq<char>>)>;

/// The link behind a detail page's single download button, if the page
/// shows one.  Parsing the same text always finds the same link.
pub uninterp spec fn download_href_of(page: Seq<char>) -> Option<Seq<char>>;

/// Relies on select's `Document`, `Find` and `Node`: parses the page and
/// collects, for each `td` element whose `class` attribute is `a1`, the
/// `text()` of every descendant `span` and the `href` of every descendant
/// anchor that has one, in document order.
#[verifier::external_body]
fn scrape_cells(page: &str) -> (r: Vec<RawCell>)
    ensures
        r@.map_values(|c: RawCell| c.model()) == cells_of(page@),
{
    let doc = Document::from(page);
    let mut out: Vec<RawCell> = Vec::new();
    for cell in doc.find(And(Name("td"), Attr("class", "a1"))) {
        let mut c = RawCell { texts: Vec::new(), links: Vec::new() };
        for n in cell.find(Name("span")) {
            c.texts.push(n.text());
        }
        for n in cell.find(And(Name("a"), Attr("href", ()))) {
            c.links.push(n.attr("href").unwrap_or("").to_string());
        }
        out.push(c);
    }
    out
}

/// Relies on select's `Document` and `Node`: the `href` of the anchor
/// whose `id` attribute is `downloadButton`, if the page holds such an
/// anchor carrying that attribute.
#[verifier::external_body]
fn scrape_download_href(page: &str) -> (r: Option<String>)
    ensures
        r is Some <==> download_href_of(page@) is Some,
        r is Some ==> r.unwrap()@ == download_href_of(page@)->0,
{
    let doc = Document::from(page);
    match doc.find(And(Name("a"), Attr("id", "downloadButton"))).next() {
        Some(node) => match node.attr("href") {
            Some(h) => Some(h.to_string()),
            None => None,
        },
        None => None,
    }
}

/// A relative link resolved against the site's fixed origin.
pub open spec fn subscene_abs_spec(relative: Seq<char>) -> Seq<char> {
    "https://subscene.com"@ + relative
}

/// A relative subscene link resolved against the site's origin.
pub fn subscene_abs(relative: &str) -> (r: String)
    ensures
        r@ == subscene_abs_spec(relative@),
{
    let mut url = String::from_str("https://subscene.com");
    url.append(relative);
    url
}

/// The trimmed link behind a detail page's download button, if present.
pub fn get_download_url(page: &str) -> (r: Option<String>)
    ensures
        r is Some <==> download_href_of(page@) is Some,
        r is Some ==> r.unwrap()@ == trim_spec(download_href_of(page@)->0),
{
    match scrape_download_href(page) {
        Some(h) => Some(String::from_str(trim(h.as_str()))),
        None => None,
    }
}

/// One search result scraped from a listing page.
#[derive(Debug)]
pub struct SubsceneDownloadable {
    pub name: String,
    pub url: String,
    pub lang: String,
}

/// The result a single cell yields: its trimmed language label, trimmed
/// display name (the span after the language span) and trimmed link, or
/// nothing when the cell lacks a second span or an anchor.
pub open spec fn cell_result(c: (Seq<Seq<char>>, Seq<Seq<char>>)) -> Option<ResultModel> {
    if c.0.len() >= 2 && c.1.len() >= 1 {
        Some(
            ResultModel {
                name: trim_spec(c.0[1]),
                url: trim_spec(c.1[0]),
                lang: trim_spec(c.0[0]),
            },
        )
    } else {
        None
    }
}

/// The results a listing page's cells yield for a language, in page
/// order: complete cells whose trimmed language label equals `language`
/// exactly.
pub open spec fn results_of(
    cells: Seq<(Seq<Seq<char>>, Seq<Seq<char>>)>,
    language: Seq<char>,
) -> Seq<ResultModel>
    decreases cells.len(),
{
    if cells.len() == 0 {
        Seq::empty()
    } else {
        results_of(cells.drop_last(), language) + match cell_result(cells.last()) {
            Some(m) => if m.lang == language {
                seq![m]
            } else {
                Seq::empty()
            },
            None => Seq::empty(),
        }
    }
}

/// Language filtering is exact: every result read off a listing page
/// carries precisely the requested language label, so a cell whose
/// trimmed label differs from it in any way contributes nothing.
pub proof fn lemma_results_language(
    cells: Seq<(Seq<Seq<char>>, Seq<Seq<char>>)>,
    language: Seq<char>,
)
    ensures
        forall|i: int|
            0 <= i < results_of(cells, language).len() ==> #[trigger] results_of(
                cells,
                language,
            )[i].lang == language,
    decreases cells.len(),
{
    if cells.len() > 0 {
        lemma_results_language(cells.drop_last(), language);
        let pre = results_of(cells.drop_last(), language);
        let all = results_of(cells, language);
        assert forall|i: int| 0 <= i < all.len() implies #[trigger] all[i].lang == language by {
            if i < pre.len() {
                assert(all[i] == pre[i]);
            } else {
                let c = cell_result(cells.last());
                assert(c is Some && c->0.lang == language);
                assert(all[i] == c->0);
            }
        }
    }
}

/// Scrape a fetched listing page and keep the rows whose language label
/// matches `language` exactly after trimming.
pub fn search_on_page(page: &str, language: &str) -> (r: Vec<SubsceneDownloadable>)
    ensures
        r@.map_values(|d: SubsceneDownloadable| d.model()) == results_of(
            cells_of(page@),
            language@,
        ),
{
    let cells = scrape_cells(page);
    let mut subtitles: Vec<SubsceneDownloadable> = Vec::new();
    let mut i: usize = 0;
    while i < cells.len()
        invariant
            cells@.map_values(|c: RawCell| c.model()) == cells_of(page@),
            i <= cells.len(),
            subtitles@.map_values(|d: SubsceneDownloadable| d.model()) == results_of(
                cells_of(page@).take(i as int),
                language@,
            ),
        decreases cells.len() - i,
    {
        proof {
            assert(cells_of(page@)[i as int] == cells@.map_values(|c: RawCell| c.model())[
                i as int
            ]);
        }
        let cell = &cells[i];
        if cell.texts.len() >= 2 && cell.links.len() >= 1 {
            let lang = trim(cell.texts[0].as_str());
            if str_eq(lang, language) {
                let name_t = trim(cell.texts[1].as_str());
                let url_t = trim(cell.links[0].as_str());
                let d = SubsceneDownloadable {
                    name: String::from_str(name_t),
                    url: String::from_str(url_t),
                    lang: String::from_str(lang),
                };
                subtitles.push(d);
            }
        }
        proof {
            let cs = cells_of(page@);
            assert(cs.take(i + 1).drop_last() =~= cs.take(i as int));
            assert(cs.take(i + 1).last() == cs[i as int]);
            assert(subtitles@.map_values(|d: SubsceneDownloadable| d.model()) =~= results_of(
                cs.take(i + 1),
                language@,
            ));
        }
        i += 1;
    }
    proof {
        assert(cells_of(page@).take(cells@.len() as int) =~= cells_of(page@));
    }
    subtitles
}

impl Downloadable for SubsceneDownloadable {
    open spec fn model(&self) -> ResultModel {
        ResultModel { name: self.name@, url: self.url@, lang: self.lang@ }
    }

    open spec fn spec_download_page_url(&self) -> Seq<char> {
        subscene_abs_spec(self.url@)
    }

    open spec fn spec_archive_url(&self, page: Seq<char>) -> Option<Seq<char>> {
        match download_href_of(page) {
            Some(h) => Some(subscene_abs_spec(trim_spec(h))),
            None => None,
        }
    }

    fn name(&self) -> (r: String) {
        self.name.clone()
    }

    fn lang(&self) -> (r: String) {
        self.lang.clone()
    }

    fn download_page_url(&self) -> (r: String) {
        subscene_abs(self.url.as_str())
    }

    fn archive_url(&self, page: &str) -> (r: Option<String>) {
        match get_download_url(page) {
            Some(h) => Some(subscene_abs(h.as_str())),
            None => None,
        }
    }
}

/// The scraping provider for the subscene site.
pub struct SubsceneProvider {}

impl Provider for SubsceneProvider {
    open spec fn spec_results(&self, page: Seq<char>, language: Seq<char>) -> Seq<ResultModel> {
        results_of(cells_of(page), language)
    }

    open spec fn spec_search_url(&self, query: Seq<char>) -> Seq<char> {
        "https://subscene.com/subtitles/release?q="@ + query + "&l="@
    }

    open spec fn spec_accepts_whole_name(&self) -> bool {
        true
    }

    fn search_url(&self, query: &str) -> (r: String) {
        let mut url = String::from_str("https://subscene.com/subtitles/release?q=");
        url.append(query);
        url.append("&l=");
        url
    }

    fn search(&self, page: &str, language: &str) -> (r: Vec<SubsceneDownloadable>) {
        search_on_page(page, language)
    }

    fn accepts_whole_name(&self) -> (r: bool) {
        true
    }
}

} // verus!
