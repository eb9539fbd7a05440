use std::io::Write;
use sub_searcher::utils::{unzip_first_sub, unzip_to_subs};

fn make_archive(entries: &[(&str, &[u8])]) -> Vec<u8> {
    let mut writer = zip::ZipWriter::new(std::io::Cursor::new(Vec::new()));
    let options = zip::write::SimpleFileOptions::default();
    for (name, data) in entries {
        writer.start_file(*name, options).unwrap();
        writer.write_all(data).unwrap();
    }
    writer.finish().unwrap().into_inner()
}

#[test]
fn test_first_sub_is_first_qualifying_entry() {
    let buf = make_archive(&[
        ("a.txt", b"not a subtitle"),
        ("movie.srt", b"1\n00:00:01,000 --> 00:00:02,000\nhello\n"),
        ("other.srt", b"1\n00:00:03,000 --> 00:00:04,000\nworld\n"),
    ]);
    assert_eq!(
        b"1\n00:00:01,000 --> 00:00:02,000\nhello\n".to_vec(),
        unzip_first_sub(&buf)
    );
}

#[test]
fn test_all_subs_in_container_order() {
    let buf = make_archive(&[
        ("a.txt", b"not a subtitle"),
        ("movie.srt", b"first payload"),
        ("other.srt", b"second payload"),
    ]);
    let subs = unzip_to_subs(&buf);
    assert_eq!(2, subs.len());
    assert_eq!(b"first payload".to_vec(), subs[0]);
    assert_eq!(b"second payload".to_vec(), subs[1]);
}

#[test]
fn test_suffix_match_is_case_sensitive() {
    let buf = make_archive(&[("LOUD.SRT", b"upper"), ("quiet.srt", b"lower")]);
    assert_eq!(b"lower".to_vec(), unzip_first_sub(&buf));
    assert_eq!(1, unzip_to_subs(&buf).len());
}

#[test]
fn test_nested_entry_names_qualify() {
    let buf = make_archive(&[("nested/dir/inner.srt", b"nested payload"), ("top.txt", b"x")]);
    assert_eq!(b"nested payload".to_vec(), unzip_first_sub(&buf));
}

#[test]
fn test_no_qualifying_entry_yields_empty() {
    let buf = make_archive(&[("readme.txt", b"nothing here")]);
    assert_eq!(Vec::<u8>::new(), unzip_first_sub(&buf));
    assert!(unzip_to_subs(&buf).is_empty());
}

#[test]
fn test_invalid_archive_yields_empty() {
    let buf = b"this is no zip archive at all".to_vec();
    assert_eq!(Vec::<u8>::new(), unzip_first_sub(&buf));
    assert!(unzip_to_subs(&buf).is_empty());
    let empty: Vec<u8> = Vec::new();
    assert_eq!(Vec::<u8>::new(), unzip_first_sub(&empty));
    assert!(unzip_to_subs(&empty).is_empty());
}
