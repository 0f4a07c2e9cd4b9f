//! Finding the video identifier in a URL-like string.
//!
//! The search is the `regex` crate's. What it finds is accepted only where
//! it is an identifier that stands in the string behind a marker, so that
//! the identifier handed on is known to come from the string.

use vstd::prelude::*;
use crate::summarizer::HuggingFaceSummarizer;
use crate::text::chars_of;

verus! {

/// The pattern that locates an identifier: the marker `v=` or a `/`, then
/// eleven characters out of letters, digits, `_` and `-`, which form the
/// first capture group.
pub const VIDEO_ID_PATTERN: &'static str = r"(?:v=|/)([0-9A-Za-z_-]{11}).*";

/// The capture group of [`VIDEO_ID_PATTERN`] that holds the identifier.
pub const VIDEO_ID_GROUP: usize = 1;

/// The number of characters in an identifier.
pub const VIDEO_ID_LENGTH: usize = 11;

/// What the `regex` crate finds for capture group `group` in the leftmost
/// match of `pattern` in `haystack`: the text that the group matched, or
/// `None` where `pattern` does not compile, `haystack` has no match, or the
/// group took no part in the match.
pub uninterp spec fn regex_capture(pattern: Seq<char>, haystack: Seq<char>, group: nat) -> Option<
    Seq<char>,
>;

/// Calls `Regex::new` on `pattern` and `Regex::captures` on `haystack`, then
/// `Captures::get` and `Match::as_str` for `group`. The result is what
/// [`regex_capture`] names for these arguments; nothing else is claimed of it.
#[verifier::external_body]
fn first_capture(pattern: &str, haystack: &str, group: usize) -> (found: Option<String>)
    ensures
        found.deep_view() == regex_capture(pattern@, haystack@, group as nat),
{
    match regex::Regex::new(pattern) {
        Ok(re) => match re.captures(haystack) {
            Some(captures) => captures.get(group).map(|m| m.as_str().to_string()),
            None => None,
        },
        Err(_) => None,
    }
}

/// Whether `c` may stand in an identifier: an ASCII letter or digit, `_` or `-`.
pub open spec fn is_id_char(c: char) -> bool {
    ||| '0' <= c <= '9'
    ||| 'A' <= c <= 'Z'
    ||| 'a' <= c <= 'z'
    ||| c == '_'
    ||| c == '-'
}

/// Whether `id` has the form of an identifier.
pub open spec fn is_video_id(id: Seq<char>) -> bool {
    &&& id.len() == VIDEO_ID_LENGTH
    &&& forall|j: int| 0 <= j < id.len() ==> is_id_char(#[trigger] id[j])
}

/// Whether `part` stands in `source` from index `from` on.
pub open spec fn stands_at(source: Seq<char>, from: int, part: Seq<char>) -> bool {
    &&& 0 <= from
    &&& from + part.len() <= source.len()
    &&& source.subrange(from, from + part.len()) == part
}

/// Whether a marker, `v=` or `/`, starts at index `at` of `source` and `id`
/// stands right behind it.
pub open spec fn follows_marker_at(source: Seq<char>, at: int, id: Seq<char>) -> bool {
    ||| stands_at(source, at, seq!['v', '=']) && stands_at(source, at + 2, id)
    ||| stands_at(source, at, seq!['/']) && stands_at(source, at + 1, id)
}

/// Whether `id` is an identifier that stands in `source` behind a marker.
pub open spec fn holds_video_id(source: Seq<char>, id: Seq<char>) -> bool {
    &&& is_video_id(id)
    &&& exists|at: int| follows_marker_at(source, at, id)
}

/// What is accepted of a capture: the capture itself where it is an
/// identifier that `source` holds, nothing otherwise.
pub open spec fn accepted(source: Seq<char>, capture: Option<Seq<char>>) -> Option<Seq<char>> {
    match capture {
        Some(id) => if holds_video_id(source, id) {
            Some(id)
        } else {
            None
        },
        None => None,
    }
}

/// The identifier that is found in `source`, if any.
pub open spec fn video_id_in(source: Seq<char>) -> Option<Seq<char>> {
    accepted(source, regex_capture(VIDEO_ID_PATTERN@, source, VIDEO_ID_GROUP as nat))
}

/// Executable form of [`is_id_char`].
pub fn is_id_character(c: char) -> (b: bool)
    ensures
        b == is_id_char(c),
{
    ('0' <= c && c <= '9') || ('A' <= c && c <= 'Z') || ('a' <= c && c <= 'z') || c == '_' || c
        == '-'
}

/// Whether `id` has the form of an identifier.
fn has_id_form(id: &Vec<char>) -> (b: bool)
    ensures
        b == is_video_id(id@),
{
    if id.len() != VIDEO_ID_LENGTH {
        return false;
    }
    let mut j: usize = 0;
    while j < id.len()
        invariant
            0 <= j <= id.len(),
            id.len() == VIDEO_ID_LENGTH,
            forall|k: int| 0 <= k < j ==> is_id_char(#[trigger] id@[k]),
        decreases id.len() - j,
    {
        if !is_id_character(id[j]) {
            return false;
        }
        j = j + 1;
    }
    true
}

/// Whether `part` stands in `source` from index `from` on.
fn part_stands_at(source: &Vec<char>, from: usize, part: &Vec<char>) -> (b: bool)
    ensures
        b == stands_at(source@, from as int, part@),
{
    if from > source.len() || part.len() > source.len() - from {
        return false;
    }
    let mut j: usize = 0;
    while j < part.len()
        invariant
            0 <= j <= part.len(),
            from + part.len() <= source.len(),
            forall|k: int| 0 <= k < j ==> source@[from + k] == #[trigger] part@[k],
        decreases part.len() - j,
    {
        if source[from + j] != part[j] {
            return false;
        }
        j = j + 1;
    }
    assert(source@.subrange(from as int, from + part.len()) =~= part@);
    true
}

/// Whether `id` stands in `source` right behind a marker.
fn follows_marker(source: &Vec<char>, id: &Vec<char>) -> (b: bool)
    ensures
        b == exists|at: int| follows_marker_at(source@, at, id@),
{
    let mut at: usize = 0;
    while at < source.len()
        invariant
            0 <= at <= source.len(),
            forall|k: int| 0 <= k < at ==> !follows_marker_at(source@, k, id@),
        decreases source.len() - at,
    {
        let c = source[at];
        if c == '/' {
            assert(source@.subrange(at as int, at + 1) =~= seq!['/']);
            if part_stands_at(source, at + 1, id) {
                assert(follows_marker_at(source@, at as int, id@));
                return true;
            }
        } else if c == 'v' && source.len() - at >= 2 && source[at + 1] == '=' {
            assert(source@.subrange(at as int, at + 2) =~= seq!['v', '=']);
            if part_stands_at(source, at + 2, id) {
                assert(follows_marker_at(source@, at as int, id@));
                return true;
            }
        } else {
            assert(source@.subrange(at as int, at + 1)[0] != '/');
        }
        at = at + 1;
    }
    false
}

impl HuggingFaceSummarizer {
    /// Extracts the video identifier from a URL-like string: what the
    /// pattern finds, as far as it is an identifier of the string.
    pub fn extract_video_id(youtube_url: &str) -> (id: Option<String>)
        ensures
            id.deep_view() == video_id_in(youtube_url@),
            id matches Some(found) ==> holds_video_id(youtube_url@, found@),
            (forall|any: Seq<char>| !holds_video_id(youtube_url@, any)) ==> id is None,
    {
        let capture = first_capture(VIDEO_ID_PATTERN, youtube_url, VIDEO_ID_GROUP);
        Self::accept_video_id(youtube_url, capture)
    }

    /// Accepts `capture` as the identifier of `source` where it has the form
    /// of an identifier and stands in `source` behind a marker.
    pub fn accept_video_id(source: &str, capture: Option<String>) -> (id: Option<String>)
        ensures
            id.deep_view() == accepted(source@, capture.deep_view()),
    {
        match capture {
            None => None,
            Some(found) => {
                let id_chars = chars_of(found.as_str());
                if !has_id_form(&id_chars) {
                    return None;
                }
                let source_chars = chars_of(source);
                if follows_marker(&source_chars, &id_chars) {
                    Some(found)
                } else {
                    None
                }
            },
        }
    }
}

} // verus!
