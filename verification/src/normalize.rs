//! Derives a web search query from a video filename.
//!
//! Two season/episode shapes are recognised, in priority order: `S<n>E<n>`
//! (case-insensitive, optionally `S<n>.E<n>`) and `<n>X<n>`.  A marker
//! counts only when it directly follows a period that is preceded by at
//! least one character; the name is cut right after the leftmost such
//! marker, discarding quality tags, release group tags and the extension.
//! A name without a marker falls back to its stem (the part before the
//! final period).  For use in a URL every period and space of the cut
//! name is then replaced by `+`.

use vstd::prelude::*;
use vstd::string::StrSliceExecFns;

verus! {

pub open spec fn is_digit(c: char) -> bool {
    '0' <= c && c <= '9'
}

pub open spec fn is_s_letter(c: char) -> bool {
    c == 'S' || c == 's'
}

pub open spec fn is_e_letter(c: char) -> bool {
    c == 'E' || c == 'e'
}

pub open spec fn is_x_letter(c: char) -> bool {
    c == 'X' || c == 'x'
}

/// Index just past the run of digits starting at `i`.
pub open spec fn digit_run_end(s: Seq<char>, i: int) -> int
    decreases s.len() - i,
{
    if 0 <= i < s.len() && is_digit(s[i]) {
        digit_run_end(s, i + 1)
    } else {
        i
    }
}

/// End of an `E<digits>` (or `e<digits>`) group starting at `k`, if one
/// starts there.
pub open spec fn episode_part_end(s: Seq<char>, k: int) -> Option<int> {
    if 0 <= k < s.len() && is_e_letter(s[k]) && k + 1 < s.len() && is_digit(s[k + 1]) {
        Some(digit_run_end(s, k + 1))
    } else {
        None
    }
}

/// End of a marker `S<digits>[.]E<digits>` starting at `j`, if one starts
/// there.  The period between the two halves is taken when doing so still
/// leaves a complete `E<digits>` group, as a greedy optional element.
pub open spec fn marker_se_end(s: Seq<char>, j: int) -> Option<int> {
    if 0 <= j < s.len() && is_s_letter(s[j]) && j + 1 < s.len() && is_digit(s[j + 1]) {
        let k = digit_run_end(s, j + 1);
        if k < s.len() && s[k] == '.' && episode_part_end(s, k + 1) is Some {
            episode_part_end(s, k + 1)
        } else {
            episode_part_end(s, k)
        }
    } else {
        None
    }
}

/// End of a marker `<digits>X<digits>` starting at `j`, if one starts
/// there.
pub open spec fn marker_x_end(s: Seq<char>, j: int) -> Option<int> {
    if 0 <= j < s.len() && is_digit(s[j]) {
        let k = digit_run_end(s, j);
        if k < s.len() && is_x_letter(s[k]) && k + 1 < s.len() && is_digit(s[k + 1]) {
            Some(digit_run_end(s, k + 1))
        } else {
            None
        }
    } else {
        None
    }
}

/// A marker found at `j` counts only when it follows a period at `j - 1`
/// that itself follows at least one character.
pub open spec fn se_marker_at(s: Seq<char>, j: int) -> bool {
    j >= 2 && s[j - 1] == '.' && marker_se_end(s, j) is Some
}

pub open spec fn x_marker_at(s: Seq<char>, j: int) -> bool {
    j >= 2 && s[j - 1] == '.' && marker_x_end(s, j) is Some
}

/// Position of the leftmost `S..E..` marker at or after `j`.
pub open spec fn first_se_pos(s: Seq<char>, j: int) -> Option<int>
    decreases s.len() - j,
{
    if j >= s.len() {
        None
    } else if se_marker_at(s, j) {
        Some(j)
    } else {
        first_se_pos(s, j + 1)
    }
}

/// Position of the leftmost `<n>X<n>` marker at or after `j`.
pub open spec fn first_x_pos(s: Seq<char>, j: int) -> Option<int>
    decreases s.len() - j,
{
    if j >= s.len() {
        None
    } else if x_marker_at(s, j) {
        Some(j)
    } else {
        first_x_pos(s, j + 1)
    }
}

/// The filename without its final extension.  A period at position 0
/// (a hidden file) does not start an extension.
pub open spec fn stem_spec(s: Seq<char>) -> Seq<char> {
    match crate::text::last_index_before(s, s.len() as int, '.') {
        Some(p) => if p > 0 {
            s.subrange(0, p)
        } else {
            s
        },
        None => s,
    }
}

/// The cut name: everything up to and including the leftmost marker, in
/// the priority order `S..E..` before `<n>X<n>`, else the stem.
pub open spec fn extract_name_spec(s: Seq<char>) -> Seq<char> {
    if first_se_pos(s, 2) is Some {
        s.subrange(0, marker_se_end(s, first_se_pos(s, 2)->0).unwrap())
    } else if first_x_pos(s, 2) is Some {
        s.subrange(0, marker_x_end(s, first_x_pos(s, 2)->0).unwrap())
    } else {
        stem_spec(s)
    }
}

/// Every period and space replaced by `+`.
pub open spec fn plus_separated(s: Seq<char>) -> Seq<char> {
    Seq::new(s.len(), |i: int| if s[i] == '.' || s[i] == ' ' { '+' } else { s[i] })
}

/// The full normalization: cut the name, then make it web-safe.
pub open spec fn search_query_spec(s: Seq<char>) -> Seq<char> {
    plus_separated(extract_name_spec(s))
}

proof fn lemma_first_se_from(s: Seq<char>, t: int, j: int)
    requires
        t <= j,
        se_marker_at(s, j),
        forall|u: int| t <= u < j ==> !se_marker_at(s, u),
    ensures
        first_se_pos(s, t) == Some(j),
    decreases j - t,
{
    assert(0 <= j < s.len());
    if t < j {
        lemma_first_se_from(s, t + 1, j);
    }
}

proof fn lemma_first_x_from(s: Seq<char>, t: int, j: int)
    requires
        t <= j,
        x_marker_at(s, j),
        forall|u: int| t <= u < j ==> !x_marker_at(s, u),
    ensures
        first_x_pos(s, t) == Some(j),
    decreases j - t,
{
    assert(0 <= j < s.len());
    if t < j {
        lemma_first_x_from(s, t + 1, j);
    }
}

proof fn lemma_no_se_marker(s: Seq<char>, t: int)
    requires
        forall|u: int| !se_marker_at(s, u),
    ensures
        first_se_pos(s, t) is None,
    decreases s.len() - t,
{
    if t < s.len() {
        lemma_no_se_marker(s, t + 1);
    }
}

proof fn lemma_no_x_marker(s: Seq<char>, t: int)
    requires
        forall|u: int| !x_marker_at(s, u),
    ensures
        first_x_pos(s, t) is None,
    decreases s.len() - t,
{
    if t < s.len() {
        lemma_no_x_marker(s, t + 1);
    }
}

/// The leftmost marker wins: when an `S..E..` marker stands at `j` and
/// none stands earlier, the name is cut exactly at the end of the marker
/// at `j`, whatever follows it.
pub proof fn lemma_leftmost_se_marker_cuts(s: Seq<char>, j: int)
    requires
        se_marker_at(s, j),
        forall|t: int| 2 <= t < j ==> !se_marker_at(s, t),
    ensures
        extract_name_spec(s) == s.subrange(0, marker_se_end(s, j)->0),
{
    lemma_first_se_from(s, 2, j);
}

/// With no `S..E..` marker anywhere, the leftmost `<n>X<n>` marker wins:
/// the name is cut exactly at the end of the marker at `j`.
pub proof fn lemma_leftmost_x_marker_cuts(s: Seq<char>, j: int)
    requires
        forall|t: int| !se_marker_at(s, t),
        x_marker_at(s, j),
        forall|t: int| 2 <= t < j ==> !x_marker_at(s, t),
    ensures
        extract_name_spec(s) == s.subrange(0, marker_x_end(s, j)->0),
{
    lemma_no_se_marker(s, 2);
    lemma_first_x_from(s, 2, j);
}

/// A name carrying no recognised marker at all is cut to its bare stem.
pub proof fn lemma_no_marker_gives_stem(s: Seq<char>)
    requires
        forall|t: int| !se_marker_at(s, t),
        forall|t: int| !x_marker_at(s, t),
    ensures
        extract_name_spec(s) == stem_spec(s),
{
    lemma_no_se_marker(s, 2);
    lemma_no_x_marker(s, 2);
}

fn is_digit_char(c: char) -> (r: bool)
    ensures
        r == is_digit(c),
{
    '0' <= c && c <= '9'
}

/// Index just past the run of digits starting at `i`.
fn digit_run_end_x(s: &str, i: usize) -> (r: usize)
    requires
        i <= s@.len(),
    ensures
        r == digit_run_end(s@, i as int),
        i <= r && r <= s@.len(),
{
    let n = s.unicode_len();
    let mut cur = i;
    while cur < n && is_digit_char(s.get_char(cur))
        invariant
            n == s@.len(),
            i <= cur <= n,
            digit_run_end(s@, i as int) == digit_run_end(s@, cur as int),
        decreases n - cur,
    {
        cur += 1;
    }
    cur
}

/// End of an `E<digits>` group starting at `k`, if one starts there.
fn episode_part_end_x(s: &str, k: usize) -> (r: Option<usize>)
    ensures
        match r {
            Some(e) => episode_part_end(s@, k as int) == Some(e as int) && e <= s@.len(),
            None => episode_part_end(s@, k as int) is None,
        },
{
    let n = s.unicode_len();
    if k < n && is_e_char(s.get_char(k)) && k + 1 < n && is_digit_char(s.get_char(k + 1)) {
        let e = digit_run_end_x(s, k + 1);
        Some(e)
    } else {
        None
    }
}

fn is_e_char(c: char) -> (r: bool)
    ensures
        r == is_e_letter(c),
{
    c == 'E' || c == 'e'
}

fn is_s_char(c: char) -> (r: bool)
    ensures
        r == is_s_letter(c),
{
    c == 'S' || c == 's'
}

fn is_x_char(c: char) -> (r: bool)
    ensures
        r == is_x_letter(c),
{
    c == 'X' || c == 'x'
}

/// End of an `S<digits>[.]E<digits>` marker starting at `j`, if one
/// starts there.
fn marker_se_end_x(s: &str, j: usize) -> (r: Option<usize>)
    ensures
        match r {
            Some(e) => marker_se_end(s@, j as int) == Some(e as int) && e <= s@.len(),
            None => marker_se_end(s@, j as int) is None,
        },
{
    let n = s.unicode_len();
    if j < n && is_s_char(s.get_char(j)) && j + 1 < n && is_digit_char(s.get_char(j + 1)) {
        let k = digit_run_end_x(s, j + 1);
        if k < n && s.get_char(k) == '.' {
            match episode_part_end_x(s, k + 1) {
                Some(e) => {
                    return Some(e);
                },
                None => {},
            }
        }
        episode_part_end_x(s, k)
    } else {
        None
    }
}

/// End of a `<digits>X<digits>` marker starting at `j`, if one starts
/// there.
fn marker_x_end_x(s: &str, j: usize) -> (r: Option<usize>)
    ensures
        match r {
            Some(e) => marker_x_end(s@, j as int) == Some(e as int) && e <= s@.len(),
            None => marker_x_end(s@, j as int) is None,
        },
{
    let n = s.unicode_len();
    if j < n && is_digit_char(s.get_char(j)) {
        let k = digit_run_end_x(s, j);
        if k < n && is_x_char(s.get_char(k)) && k + 1 < n && is_digit_char(s.get_char(k + 1)) {
            let e = digit_run_end_x(s, k + 1);
            Some(e)
        } else {
            None
        }
    } else {
        None
    }
}

/// The leftmost `S..E..` marker position together with its end.
fn find_se_marker(s: &str) -> (r: Option<(usize, usize)>)
    ensures
        match r {
            Some(p) => first_se_pos(s@, 2) == Some(p.0 as int) && marker_se_end(s@, p.0 as int)
                == Some(p.1 as int) && p.1 <= s@.len(),
            None => first_se_pos(s@, 2) is None,
        },
{
    let n = s.unicode_len();
    let mut j: usize = 2;
    while j < n
        invariant
            n == s@.len(),
            2 <= j,
            first_se_pos(s@, 2) == first_se_pos(s@, j as int),
        decreases n - j,
    {
        if s.get_char(j - 1) == '.' {
            match marker_se_end_x(s, j) {
                Some(e) => {
                    return Some((j, e));
                },
                None => {},
            }
        }
        j += 1;
    }
    None
}

/// The leftmost `<n>X<n>` marker position together with its end.
fn find_x_marker(s: &str) -> (r: Option<(usize, usize)>)
    ensures
        match r {
            Some(p) => first_x_pos(s@, 2) == Some(p.0 as int) && marker_x_end(s@, p.0 as int)
                == Some(p.1 as int) && p.1 <= s@.len(),
            None => first_x_pos(s@, 2) is None,
        },
{
    let n = s.unicode_len();
    let mut j: usize = 2;
    while j < n
        invariant
            n == s@.len(),
            2 <= j,
            first_x_pos(s@, 2) == first_x_pos(s@, j as int),
        decreases n - j,
    {
        if s.get_char(j - 1) == '.' {
            match marker_x_end_x(s, j) {
                Some(e) => {
                    return Some((j, e));
                },
                None => {},
            }
        }
        j += 1;
    }
    None
}

/// The filename without its final extension.
pub fn stem_of(file: &str) -> (r: &str)
    ensures
        r@ == stem_spec(file@),
{
    match crate::text::last_index_of(file, '.') {
        Some(p) => {
            if p > 0 {
                file.substring_char(0, p)
            } else {
                file
            }
        },
        None => file,
    }
}

/// The cut name of a video filename: everything up to and including the
/// leftmost season/episode marker, else the stem.
pub fn extract_name(file: &str) -> (r: String)
    ensures
        r@ == extract_name_spec(file@),
{
    match find_se_marker(file) {
        Some(p) => {
            return String::from_str(file.substring_char(0, p.1));
        },
        None => {},
    }
    match find_x_marker(file) {
        Some(p) => {
            return String::from_str(file.substring_char(0, p.1));
        },
        None => {},
    }
    String::from_str(stem_of(file))
}

/// The cut name with every period and space replaced by `+`, ready to be
/// embedded in a search URL.
pub fn get_search_query(name: &str) -> (r: String)
    ensures
        r@ == search_query_spec(name@),
{
    let cut = extract_name(name);
    let cut_str = cut.as_str();
    let n = cut_str.unicode_len();
    let mut out = String::new();
    let mut i: usize = 0;
    while i < n
        invariant
            n == cut_str@.len(),
            cut_str@ == extract_name_spec(name@),
            i <= n,
            out@ == plus_separated(cut_str@).take(i as int),
        decreases n - i,
    {
        let c = cut_str.get_char(i);
        if c == '.' || c == ' ' {
            out.append("+");
            proof {
                reveal_strlit("+");
            }
        } else {
            out.append(cut_str.substring_char(i, i + 1));
        }
        proof {
            assert(out@ =~= plus_separated(cut_str@).take(i + 1));
        }
        i += 1;
    }
    proof {
        assert(plus_separated(cut_str@).take(n as int) =~= plus_separated(cut_str@));
    }
    out
}

} // verus!
