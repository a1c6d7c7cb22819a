//! The search keyword of an (artist, title) pair.

use crate::text::{
    chars_of, find, find_in, index_of, index_of_char, push_range, replace_all, replace_in,
    slice_of, string_from,
};
use vstd::prelude::*;

verus! {

/// What [`extract`] gives for `s`: where `start` stands in `s` and `end`
/// follows it, the text between the two is taken out. The first part is
/// `s` without the span from the first `start` through the next `end`,
/// the second is what stood between them. Where `start` does not occur,
/// or no `end` comes after it, `s` is kept and nothing is taken out.
pub open spec fn extracted(s: Seq<char>, start: Seq<char>, end: char) -> (Seq<char>, Seq<char>) {
    match find(s, start) {
        Some(a) => {
            let b = index_of(s, end, a);
            if b < s.len() && a + start.len() <= b {
                (s.take(a) + s.skip(b + 1), s.subrange(a + start.len(), b))
            } else {
                (s, Seq::<char>::empty())
            }
        },
        None => (s, Seq::<char>::empty()),
    }
}

/// The artist list with its separators unified: `", "` and `" & "`
/// become the ideographic comma, and every full stop is deleted.
pub open spec fn unified_artists(a: Seq<char>) -> Seq<char> {
    replace_all(replace_all(replace_all(a, ", "@, "、"@), " & "@, "、"@), "."@, ""@)
}

/// The search keyword: a featuring clause `" (feat. X)"` moves from the
/// title to the end of the artist list, the artist separators are unified,
/// and the two are joined by `" - "`.
pub open spec fn keyword_of(artist: Seq<char>, title: Seq<char>) -> Seq<char> {
    let (cleaned, featuring) = extracted(title, " (feat. "@, ')');
    let artists = if featuring.len() == 0 {
        artist
    } else {
        artist + ", "@ + featuring
    };
    unified_artists(artists) + " - "@ + cleaned
}

fn extract_chars(s: &Vec<char>, start: &Vec<char>, end: char) -> (r: (Vec<char>, Vec<char>))
    ensures
        (r.0@, r.1@) == extracted(s@, start@, end),
{
    let n = s.len();
    assert(s@.take(n as int) =~= s@);
    match find_in(s, start, 0) {
        Some(a) => {
            let b = index_of_char(s, n, end, a);
            if b < n && start.len() <= b - a {
                let mut main = slice_of(s, 0, a);
                push_range(&mut main, s, b + 1, n);
                let taken = slice_of(s, a + start.len(), b);
                proof {
                    assert(s@.subrange(0, a as int) =~= s@.take(a as int));
                    assert(s@.subrange(b + 1, n as int) =~= s@.skip(b + 1));
                }
                (main, taken)
            } else {
                (slice_of(s, 0, n), Vec::new())
            }
        },
        None => {
            (slice_of(s, 0, n), Vec::new())
        },
    }
}

/// Takes the text between `start_delimiter` and the next `end_delimiter`
/// out of `s`.
pub fn extract(s: &str, start_delimiter: &str, end_delimiter: char) -> (r: (String, String))
    ensures
        (r.0@, r.1@) == extracted(s@, start_delimiter@, end_delimiter),
{
    let text = chars_of(s);
    let start = chars_of(start_delimiter);
    let (main, taken) = extract_chars(&text, &start, end_delimiter);
    (string_from(&main), string_from(&taken))
}

/// Builds the search keyword of an artist and a title.
pub fn keyword(artist: &str, title: &str) -> (r: String)
    ensures
        r@ == keyword_of(artist@, title@),
{
    let title_chars = chars_of(title);
    let marker = chars_of(" (feat. ");
    let (cleaned, featuring) = extract_chars(&title_chars, &marker, ')');
    let mut artists = chars_of(artist);
    let comma = chars_of(", ");
    if featuring.len() > 0 {
        push_range(&mut artists, &comma, 0, comma.len());
        push_range(&mut artists, &featuring, 0, featuring.len());
        proof {
            assert(comma@.subrange(0, comma.len() as int) =~= comma@);
            assert(featuring@.subrange(0, featuring.len() as int) =~= featuring@);
        }
    }
    let joint = chars_of("、");
    let amp = chars_of(" & ");
    let stop = chars_of(".");
    let nothing = chars_of("");
    proof {
        reveal_strlit(", ");
        reveal_strlit(" & ");
        reveal_strlit(".");
    }
    let step1 = replace_in(&artists, &comma, &joint);
    let step2 = replace_in(&step1, &amp, &joint);
    let mut out = replace_in(&step2, &stop, &nothing);
    let dash = chars_of(" - ");
    push_range(&mut out, &dash, 0, dash.len());
    push_range(&mut out, &cleaned, 0, cleaned.len());
    proof {
        assert(dash@.subrange(0, dash.len() as int) =~= dash@);
        assert(cleaned@.subrange(0, cleaned.len() as int) =~= cleaned@);
    }
    string_from(&out)
}

} // verus!
