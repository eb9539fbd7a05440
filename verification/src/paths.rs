//! Path-string manipulation for video files: final path segment, extension
//! classification, and the canonical subtitle sibling path.
//!
//! A subtitle sibling lives in the same directory as its video and carries
//! the video's stem with the fixed `.srt` extension.  It is derived purely
//! from the path text, never from the search query.

use vstd::prelude::*;
use vstd::string::StrSliceExecFns;
use crate::normalize::stem_spec;
use crate::text::last_index_before;

verus! {

/// The final path segment: everything after the last `/`.
pub open spec fn file_name_spec(p: Seq<char>) -> Seq<char> {
    match last_index_before(p, p.len() as int, '/') {
        Some(q) => p.subrange(q + 1, p.len() as int),
        None => p,
    }
}

/// The directory part, up to and including the last `/`; empty for a bare
/// filename.
pub open spec fn dir_prefix_spec(p: Seq<char>) -> Seq<char> {
    match last_index_before(p, p.len() as int, '/') {
        Some(q) => p.subrange(0, q + 1),
        None => Seq::empty(),
    }
}

/// The extension of a filename: what follows the last period, unless that
/// period starts the name or is missing.
pub open spec fn ext_spec(name: Seq<char>) -> Seq<char> {
    match last_index_before(name, name.len() as int, '.') {
        Some(q) => if q > 0 {
            name.subrange(q + 1, name.len() as int)
        } else {
            Seq::empty()
        },
        None => Seq::empty(),
    }
}

/// The subtitle filename for a video filename: its stem plus `.srt`.
pub open spec fn sub_name_spec(name: Seq<char>) -> Seq<char> {
    stem_spec(name) + ".srt"@
}

/// The subtitle sibling path: same directory, video stem, `.srt`.
pub open spec fn sub_path_spec(p: Seq<char>) -> Seq<char> {
    dir_prefix_spec(p) + sub_name_spec(file_name_spec(p))
}

/// The final path segment of `path`.
pub fn file_name(path: &str) -> (r: &str)
    ensures
        r@ == file_name_spec(path@),
{
    let n = path.unicode_len();
    match crate::text::last_index_of(path, '/') {
        Some(q) => path.substring_char(q + 1, n),
        None => path,
    }
}

/// The extension of a filename, or the empty string when it has none.
pub fn ext_of(name: &str) -> (r: &str)
    ensures
        r@ == ext_spec(name@),
{
    let n = name.unicode_len();
    match crate::text::last_index_of(name, '.') {
        Some(q) => {
            if q > 0 {
                name.substring_char(q + 1, n)
            } else {
                proof {
                    reveal_strlit("");
                }
                ""
            }
        },
        None => {
            proof {
                reveal_strlit("");
            }
            ""
        },
    }
}

/// Whether a path names a video: its filename's extension is a member of
/// `extensions` (a case-sensitive, exact comparison).
pub fn is_video(path: &str, extensions: &Vec<String>) -> (r: bool)
    ensures
        r == extensions.deep_view().contains(ext_spec(file_name_spec(path@))),
{
    let name = file_name(path);
    let ext = ext_of(name);
    let mut i: usize = 0;
    while i < extensions.len()
        invariant
            ext@ == ext_spec(file_name_spec(path@)),
            i <= extensions.len(),
            forall|k: int| 0 <= k < i ==> extensions.deep_view()[k] != ext@,
        decreases extensions.len() - i,
    {
        if crate::text::str_eq(extensions[i].as_str(), ext) {
            assert(extensions.deep_view()[i as int] == ext@);
            return true;
        }
        i += 1;
    }
    false
}

/// The subtitle filename for a video filename.
pub fn make_sub_name(name: &str) -> (r: String)
    ensures
        r@ == sub_name_spec(name@),
{
    let stem = crate::normalize::stem_of(name);
    let mut r = String::from_str(stem);
    r.append(".srt");
    r
}

/// The subtitle sibling path for a video path: the same directory and
/// stem with the `.srt` extension, whatever the normalizer would make of
/// the name.
pub fn make_sub_path(path: &str) -> (r: String)
    ensures
        r@ == sub_path_spec(path@),
{
    let n = path.unicode_len();
    let name = file_name(path);
    let mut r = match crate::text::last_index_of(path, '/') {
        Some(q) => String::from_str(path.substring_char(0, q + 1)),
        None => String::new(),
    };
    let sub = make_sub_name(name);
    r.append(sub.as_str());
    proof {
        assert(r@ =~= sub_path_spec(path@));
    }
    r
}

} // verus!
