use sub_searcher::provider::{Downloadable, Provider};
use sub_searcher::search::{append_results, provider_query, truncate_results};
use sub_searcher::subscene::{
    get_download_url, search_on_page, subscene_abs, SubsceneDownloadable, SubsceneProvider,
};
use sub_searcher::text::trim;

fn listing_page() -> String {
    let mut page = String::from("<html><body><table>");
    page.push_str("<tr><td class=\"a1\"><a href=\"/subtitles/fargo/english/111\">");
    page.push_str("<span class=\"l r positive-icon\"> English </span>");
    page.push_str("<span>Fargo.S01E10.720p </span></a></td></tr>");
    page.push_str("<tr><td class=\"a1\"><a href=\"/subtitles/fargo/french/222\">");
    page.push_str("<span class=\"l r\"> French </span>");
    page.push_str("<span>Fargo.S01E10.FR</span></a></td></tr>");
    page.push_str("<tr><td class=\"a1\"><a href=\"/subtitles/fargo/english/333\">");
    page.push_str("<span class=\"l r\">English (HI)</span>");
    page.push_str("<span>Fargo.S01E10.HI</span></a></td></tr>");
    // A cell with a single span lacks a title and is discarded.
    page.push_str("<tr><td class=\"a1\"><a href=\"/subtitles/fargo/english/444\">");
    page.push_str("<span class=\"l r\">English</span></a></td></tr>");
    page.push_str("</table></body></html>");
    page
}

#[test]
fn test_search_filters_by_exact_language() {
    let page = listing_page();
    let results = search_on_page(&page, "English");
    assert_eq!(1, results.len());
    assert_eq!("Fargo.S01E10.720p", results[0].name);
    assert_eq!("/subtitles/fargo/english/111", results[0].url);
    assert_eq!("English", results[0].lang);
    for r in &results {
        assert_eq!("English", r.lang);
    }
}

#[test]
fn test_search_other_language() {
    let page = listing_page();
    let results = search_on_page(&page, "French");
    assert_eq!(1, results.len());
    assert_eq!("Fargo.S01E10.FR", results[0].name);
    let none = search_on_page(&page, "german");
    assert!(none.is_empty());
}

#[test]
fn test_search_on_unparsable_text() {
    let results = search_on_page("no markup at all", "English");
    assert!(results.is_empty());
}

#[test]
fn test_subscene_abs() {
    assert_eq!("https://subscene.com/subtitles/x", subscene_abs("/subtitles/x"));
    assert_eq!("https://subscene.com", subscene_abs(""));
}

#[test]
fn test_provider_search_url_and_preference() {
    let p = SubsceneProvider {};
    assert_eq!(
        "https://subscene.com/subtitles/release?q=Fargo+S01E10&l=",
        p.search_url("Fargo+S01E10")
    );
    assert!(p.accepts_whole_name());
    assert_eq!(
        "Fargo.S01E10.Morton's.Fork.720p.[rofl].mkv",
        provider_query(&p, "Fargo.S01E10.Morton's.Fork.720p.[rofl].mkv")
    );
}

#[test]
fn test_provider_search_parses_page() {
    let p = SubsceneProvider {};
    let results = p.search(&listing_page(), "English");
    assert_eq!(1, results.len());
    assert_eq!("Fargo.S01E10.720p", results[0].name());
    assert_eq!("English", results[0].lang());
}

#[test]
fn test_download_url_from_detail_page() {
    let mut page = String::from("<html><body><div class=\"download\">");
    page.push_str("<a id=\"downloadButton\" href=\" /subtitles/text/fargo-111 \">Download</a>");
    page.push_str("</div></body></html>");
    let page = page.as_str();
    assert_eq!(Some("/subtitles/text/fargo-111".to_string()), get_download_url(page));
    let bare = "<html><body><p>nothing to download</p></body></html>";
    assert_eq!(None, get_download_url(bare));
}

#[test]
fn test_downloadable_resolution_steps() {
    let d = SubsceneDownloadable {
        name: "Fargo.S01E10.720p".to_string(),
        url: "/subtitles/fargo/english/111".to_string(),
        lang: "English".to_string(),
    };
    assert_eq!("Fargo.S01E10.720p", d.name());
    assert_eq!("English", d.lang());
    assert_eq!("https://subscene.com/subtitles/fargo/english/111", d.download_page_url());
    let mut page = String::from("<html><body>");
    page.push_str("<a id=\"downloadButton\" href=\"/subtitles/text/fargo-111\">Download</a>");
    page.push_str("</body></html>");
    let page = page.as_str();
    assert_eq!(
        Some("https://subscene.com/subtitles/text/fargo-111".to_string()),
        d.archive_url(page)
    );
    assert_eq!(None, d.archive_url("<html><body>gone</body></html>"));
}

#[test]
fn test_merge_and_truncate() {
    let mk = |n: &str| SubsceneDownloadable {
        name: n.to_string(),
        url: format!("/u/{}", n),
        lang: "English".to_string(),
    };
    let mut merged: Vec<SubsceneDownloadable> = Vec::new();
    append_results(&mut merged, vec![mk("a"), mk("b")]);
    append_results(&mut merged, vec![mk("c")]);
    assert_eq!(3, merged.len());
    assert_eq!("a", merged[0].name);
    assert_eq!("b", merged[1].name);
    assert_eq!("c", merged[2].name);
    let capped = truncate_results(merged, 2);
    assert_eq!(2, capped.len());
    assert_eq!("a", capped[0].name);
    assert_eq!("b", capped[1].name);
    let same = truncate_results(vec![mk("x")], 10);
    assert_eq!(1, same.len());
}

#[test]
fn test_trim_whitespace() {
    assert_eq!("English", trim(" English "));
    assert_eq!("a b", trim("\t a b \r\n"));
    assert_eq!("", trim("   "));
    assert_eq!("x", trim("x"));
    // the full Unicode white-space set is stripped, as str::trim does
    assert_eq!("English", trim("\u{A0}English\u{2003}"));
    assert_eq!("English", trim("\u{0B}\u{3000}English\u{85}\u{202F}"));
    assert_eq!("English", " English ".trim());
}
