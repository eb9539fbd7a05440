//! Capability contracts for subtitle sources.
//!
//! A provider turns a search query into candidate results by reading its
//! site's pages; each result can then be resolved to an archive URL.  The
//! network itself stays outside: the embedding program fetches each URL
//! these contracts name and feeds the fetched text back in.

use vstd::prelude::*;

verus! {

/// The picture of one search result that contracts speak of: display
/// name, source-specific locator, and language tag.
pub struct ResultModel {
    pub name: Seq<char>,
    pub url: Seq<char>,
    pub lang: Seq<char>,
}

/// One candidate subtitle returned by a provider's search.
///
/// Resolving its content takes two pure steps around one fetch: ask for
/// the detail page's URL, hand the fetched page back to learn the archive
/// URL, fetch that, and pass the bytes through the extraction in
/// [`crate::utils`].
pub trait Downloadable: Sized {
    /// What this result is: its name, locator and language.
    spec fn model(&self) -> ResultModel;

    /// The absolute URL of the detail page behind this result.
    spec fn spec_download_page_url(&self) -> Seq<char>;

    /// The archive URL the fetched detail page leads to, if any.
    spec fn spec_archive_url(&self, page: Seq<char>) -> Option<Seq<char>>;

    /// The result's display name.
    fn name(&self) -> (r: String)
        ensures
            r@ == self.model().name,
    ;

    /// The result's language tag.
    fn lang(&self) -> (r: String)
        ensures
            r@ == self.model().lang,
    ;

    /// The absolute URL of the detail page that must be fetched to
    /// resolve this result's download.
    fn download_page_url(&self) -> (r: String)
        ensures
            r@ == self.spec_download_page_url(),
    ;

    /// Given the fetched detail page, the absolute URL of the archive to
    /// download, or `None` when the page shows no download link.
    fn archive_url(&self, page: &str) -> (r: Option<String>)
        ensures
            r is Some <==> self.spec_archive_url(page@) is Some,
            r is Some ==> r.unwrap()@ == self.spec_archive_url(page@)->0,
    ;
}

/// A subtitle source: builds the URL its search lives at and interprets
/// the fetched result page.
pub trait Provider: Sized {
    /// The results this provider reads off a fetched search page when
    /// asked for a language.
    spec fn spec_results(&self, page: Seq<char>, language: Seq<char>) -> Seq<ResultModel>;

    /// The URL its search for `query` lives at.
    spec fn spec_search_url(&self, query: Seq<char>) -> Seq<char>;

    /// Whether this source prefers the whole filename over the
    /// normalized query.
    spec fn spec_accepts_whole_name(&self) -> bool;

    /// The URL that must be fetched to search for `query`.
    fn search_url(&self, query: &str) -> (r: String)
        ensures
            r@ == self.spec_search_url(query@),
    ;

    /// Read the results for `language` off a fetched search page.
    fn search(&self, page: &str, language: &str) -> (r: Vec<
        crate::subscene::SubsceneDownloadable,
    >)
        ensures
            r@.map_values(|d: crate::subscene::SubsceneDownloadable| d.model())
                == self.spec_results(page@, language@),
    ;

    /// Whether search wants the whole filename, not the normalized
    /// query.
    fn accepts_whole_name(&self) -> (r: bool)
        ensures
            r == self.spec_accepts_whole_name(),
    ;
}

} // verus!
