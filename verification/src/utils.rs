//! Archive-aware retrieval: pulls subtitle payloads out of a downloaded
//! compressed archive.
//!
//! The archive bytes are read through the `zip` crate behind a small
//! trusted surface; which entries qualify — those whose stored name ends
//! in `.srt` — and in which order they are returned is decided and proved
//! here.

use vstd::prelude::*;
use crate::text::ends_with;

verus! {

/// Whether the `zip` reader accepts `b` as an archive.  Parsing the same
/// bytes always ends the same way, so this is a function of the buffer.
pub uninterp spec fn zip_ok(b: Seq<u8>) -> bool;

/// The stored names of the archive's entries, in container order.
pub uninterp spec fn zip_names(b: Seq<u8>) -> Seq<Seq<char>>;

/// The decompressed data of the archive's entries, in container order.
pub uninterp spec fn zip_data(b: Seq<u8>) -> Seq<Seq<u8>>;

/// Relies on `zip::ZipArchive::new` over an in-memory cursor: it accepts
/// or rejects a buffer deterministically, and `len` reports how many
/// entries the archive holds.
#[verifier::external_body]
fn zip_entry_count(buf: &Vec<u8>) -> (r: Option<usize>)
    ensures
        r is Some <==> zip_ok(buf@),
        r is Some ==> r.unwrap() == zip_names(buf@).len() && r.unwrap() == zip_data(buf@).len(),
{
    match zip::ZipArchive::new(std::io::Cursor::new(buf.as_slice())) {
        Ok(z) => Some(z.len()),
        Err(_) => None,
    }
}

/// Relies on `zip::ZipArchive::by_index` and `ZipFile::name`: the stored
/// name of entry `i`, deterministic in the buffer alone; an entry the
/// crate cannot open counts as having an empty name.
#[verifier::external_body]
fn zip_entry_name(buf: &Vec<u8>, i: usize) -> (r: String)
    requires
        zip_ok(buf@),
        i < zip_names(buf@).len(),
    ensures
        r@ == zip_names(buf@)[i as int],
{
    match zip::ZipArchive::new(std::io::Cursor::new(buf.as_slice())) {
        Ok(mut z) => match z.by_index(i) {
            Ok(f) => f.name().to_string(),
            Err(_) => String::new(),
        },
        Err(_) => String::new(),
    }
}

/// Relies on `zip::ZipArchive::by_index` and the entry's `Read` impl: the
/// decompressed bytes of entry `i`, deterministic in the buffer alone; an
/// entry the crate cannot open or decompress counts as empty.
#[verifier::external_body]
fn zip_entry_data(buf: &Vec<u8>, i: usize) -> (r: Vec<u8>)
    requires
        zip_ok(buf@),
        i < zip_data(buf@).len(),
    ensures
        r@ == zip_data(buf@)[i as int],
{
    match zip::ZipArchive::new(std::io::Cursor::new(buf.as_slice())) {
        Ok(mut z) => match z.by_index(i) {
            Ok(mut f) => {
                let mut out = Vec::new();
                match std::io::Read::read_to_end(&mut f, &mut out) {
                    Ok(_) => out,
                    Err(_) => Vec::new(),
                }
            },
            Err(_) => Vec::new(),
        },
        Err(_) => Vec::new(),
    }
}

/// An entry qualifies as a subtitle when its stored name ends in `.srt`
/// (a case-sensitive suffix match).
pub open spec fn is_subtitle_name(name: Seq<char>) -> bool {
    ends_with(name, ".srt"@)
}

/// The data of the qualifying entries among the first `i` entries, in
/// container order.
pub open spec fn srt_entries_upto(b: Seq<u8>, i: int) -> Seq<Seq<u8>>
    decreases i,
{
    if i <= 0 {
        Seq::empty()
    } else {
        srt_entries_upto(b, i - 1) + if is_subtitle_name(zip_names(b)[i - 1]) {
            seq![zip_data(b)[i - 1]]
        } else {
            Seq::empty()
        }
    }
}

/// All subtitle payloads of the archive, in container order; empty when
/// the buffer is not a valid archive.
pub open spec fn srt_entries(b: Seq<u8>) -> Seq<Seq<u8>> {
    if zip_ok(b) {
        srt_entries_upto(b, zip_names(b).len() as int)
    } else {
        Seq::empty()
    }
}

proof fn lemma_srt_upto_prefix(b: Seq<u8>, j: int, n: int)
    requires
        0 <= j <= n,
    ensures
        srt_entries_upto(b, j).len() <= srt_entries_upto(b, n).len(),
        srt_entries_upto(b, j) == srt_entries_upto(b, n).take(srt_entries_upto(b, j).len() as int),
    decreases n - j,
{
    if j < n {
        lemma_srt_upto_prefix(b, j, n - 1);
        assert(srt_entries_upto(b, j) =~= srt_entries_upto(b, n).take(
            srt_entries_upto(b, j).len() as int,
        ));
    } else {
        assert(srt_entries_upto(b, j) =~= srt_entries_upto(b, n).take(
            srt_entries_upto(b, j).len() as int,
        ));
    }
}

/// Every subtitle payload in the archive, in container order.  A buffer
/// that is no valid archive, or holds no qualifying entry, yields the
/// empty list — never an error.
pub fn unzip_to_subs(buf: &Vec<u8>) -> (r: Vec<Vec<u8>>)
    ensures
        r.deep_view() == srt_entries(buf@),
{
    let mut subtitles: Vec<Vec<u8>> = Vec::new();
    match zip_entry_count(buf) {
        None => {
            proof {
                assert(subtitles.deep_view() =~~= srt_entries(buf@));
            }
            subtitles
        },
        Some(n) => {
            let mut i: usize = 0;
            while i < n
                invariant
                    zip_ok(buf@),
                    n == zip_names(buf@).len(),
                    zip_names(buf@).len() == zip_data(buf@).len(),
                    i <= n,
                    subtitles.deep_view() == srt_entries_upto(buf@, i as int),
                decreases n - i,
            {
                let name = zip_entry_name(buf, i);
                if crate::text::str_ends_with(name.as_str(), ".srt") {
                    let data = zip_entry_data(buf, i);
                    subtitles.push(data);
                }
                proof {
                    assert(subtitles.deep_view() =~~= srt_entries_upto(buf@, i + 1));
                }
                i += 1;
            }
            subtitles
        },
    }
}

/// The decompressed bytes of the first qualifying entry, in container
/// order; empty when there is none or the buffer is no valid archive.
pub fn unzip_first_sub(buf: &Vec<u8>) -> (r: Vec<u8>)
    ensures
        r@ == if srt_entries(buf@).len() > 0 {
            srt_entries(buf@)[0]
        } else {
            Seq::<u8>::empty()
        },
{
    match zip_entry_count(buf) {
        None => Vec::new(),
        Some(n) => {
            let mut i: usize = 0;
            while i < n
                invariant
                    zip_ok(buf@),
                    n == zip_names(buf@).len(),
                    zip_names(buf@).len() == zip_data(buf@).len(),
                    i <= n,
                    srt_entries_upto(buf@, i as int).len() == 0,
                decreases n - i,
            {
                let name = zip_entry_name(buf, i);
                if crate::text::str_ends_with(name.as_str(), ".srt") {
                    let data = zip_entry_data(buf, i);
                    proof {
                        assert(srt_entries_upto(buf@, i + 1) =~= seq![zip_data(buf@)[i as int]]);
                        lemma_srt_upto_prefix(buf@, i + 1, n as int);
                        assert(srt_entries(buf@)[0] == srt_entries_upto(buf@, i + 1)[0]);
                    }
                    return data;
                }
                proof {
                    assert(srt_entries_upto(buf@, i + 1) =~= srt_entries_upto(buf@, i as int));
                }
                i += 1;
            }
            Vec::new()
        },
    }
}

} // verus!
