use sub_searcher::normalize::{extract_name, get_search_query, stem_of};

#[test]
fn test_get_search_query() {
    assert_eq!("Fargo.S01E10", extract_name("Fargo.S01E10.Morton's.Fork.720p.[rofl].mkv"));
    assert_eq!("Fargo.1X09", extract_name("Fargo.1X09.A.Fox.A.Ra..."));
    assert_eq!("Fargo The Heap", extract_name("Fargo The Heap.avi"));
}

#[test]
fn test_search_query_web_form() {
    assert_eq!("Fargo+S01E10", get_search_query("Fargo.S01E10.Morton's.Fork.720p.[rofl].mkv"));
    assert_eq!("Fargo+1X09", get_search_query("Fargo.1X09.A.Fox.A.Ra..."));
    assert_eq!("Fargo+The+Heap", get_search_query("Fargo The Heap.avi"));
}

#[test]
fn test_marker_with_period_between_halves() {
    assert_eq!("Fargo.S01.E10", extract_name("Fargo.S01.E10.720p.x264.mkv"));
    assert_eq!("Fargo+S01+E10", get_search_query("Fargo.S01.E10.720p.x264.mkv"));
}

#[test]
fn test_marker_case_insensitive() {
    assert_eq!("fargo.s01e10", extract_name("fargo.s01e10.720p.mkv"));
    assert_eq!("Fargo.1x09", extract_name("Fargo.1x09.A.Fox.mkv"));
}

#[test]
fn test_multiple_markers_leftmost_wins() {
    assert_eq!("Show.1x02", extract_name("Show.1x02.1x03.special.mkv"));
    assert_eq!("Show.S01E02", extract_name("Show.S01E02.S01E03.double.mkv"));
}

#[test]
fn test_se_form_preferred_over_x_form() {
    assert_eq!("Show.1x09.S02E01", extract_name("Show.1x09.S02E01.mkv"));
}

#[test]
fn test_no_marker_falls_back_to_stem() {
    assert_eq!("Fargo The Heap", extract_name("Fargo The Heap.avi"));
    assert_eq!("archive.tar", extract_name("archive.tar.gz"));
    assert_eq!("no extension here", extract_name("no extension here"));
    assert_eq!(".hidden", extract_name(".hidden"));
    assert_eq!("", extract_name(""));
}

#[test]
fn test_marker_needs_preceding_period() {
    // A marker at the very front has no period before it, so the name
    // falls back to its stem.
    assert_eq!("S01E01.Pilot", extract_name("S01E01.Pilot.mkv"));
    assert_eq!("A.S01E10", extract_name("A.S01E10.mkv"));
    assert_eq!("Show..S01E01", extract_name("Show..S01E01.mkv"));
}

#[test]
fn test_stem_of() {
    assert_eq!("Movie", stem_of("Movie.mkv"));
    assert_eq!("Movie", stem_of("Movie."));
    assert_eq!(".hidden", stem_of(".hidden"));
    assert_eq!("plain", stem_of("plain"));
}

#[test]
fn test_normalize_idempotent() {
    let once = get_search_query("Fargo.S01E10.Morton's.Fork.720p.[rofl].mkv");
    assert_eq!(once, get_search_query(&once));
    let movie = get_search_query("Fargo The Heap.avi");
    assert_eq!(movie, get_search_query(&movie));
    assert_eq!("Fargo+S01E10", get_search_query("Fargo+S01E10"));
}
