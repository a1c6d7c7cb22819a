//! Stripping the attribution header that some providers put before the
//! lyric body.
//!
//! Distances are counted in bytes of the UTF-8 encoding, as the providers'
//! clients do, while the text itself is handled as characters.

use crate::text::{
    chars_of, has_at, index_of, index_of_char, lemma_index_of_bounds, matches_at, replace_all,
    replace_in, slice_of, starts_with, string_from, trim, trim_bounds,
};
use vstd::prelude::*;

verus! {

/// How many bytes the UTF-8 encoding of `c` takes.
pub open spec fn utf8_len(c: char) -> nat {
    let u = c as u32;
    if u < 0x80 {
        1
    } else if u < 0x800 {
        2
    } else if u < 0x10000 {
        3
    } else {
        4
    }
}

/// How many bytes the UTF-8 encoding of `s` takes.
pub open spec fn byte_len(s: Seq<char>) -> nat
    decreases s.len(),
{
    if s.len() == 0 {
        0
    } else {
        byte_len(s.drop_last()) + utf8_len(s.last())
    }
}

/// How many leading characters of `s` fit into `off` bytes.
pub open spec fn chars_within(s: Seq<char>, off: int) -> nat
    decreases s.len(),
{
    if s.len() > 0 && utf8_len(s[0]) <= off {
        1 + chars_within(s.drop_first(), off - utf8_len(s[0]))
    } else {
        0
    }
}

/// The part of `s` that starts at byte `off`: empty where `off` lies
/// beyond the end or inside a character.
pub open spec fn from_byte(s: Seq<char>, off: int) -> Seq<char> {
    let k = chars_within(s, off) as int;
    if byte_len(s.take(k)) == off {
        s.skip(k)
    } else {
        Seq::<char>::empty()
    }
}

/// Whether `pat` stands in `s` at byte `off`, which is the start of a
/// character.
pub open spec fn stands_at_byte(s: Seq<char>, pat: Seq<char>, off: int) -> bool {
    let k = chars_within(s, off) as int;
    byte_len(s.take(k)) == off && matches_at(s, pat, k)
}

/// The bracketed tags that open a header line.
pub open spec fn header_tags() -> Seq<Seq<char>> {
    seq![
        "[ti:"@,
        "[ar:"@,
        "[al:"@,
        "[by:"@,
        "[hash:"@,
        "[sign:"@,
        "[qq:"@,
        "[total:"@,
        "[offset:"@,
        "[id:"@,
    ]
}

/// The credit markers: what an attribution line has at byte 9.
pub open spec fn credit_markers() -> Seq<Seq<char>> {
    seq![
        "Written by："@,
        "Lyrics by："@,
        "Composed by："@,
        "Producer："@,
        "作曲 : "@,
        "作词 : "@,
    ]
}

/// A line of the header: it begins with a header tag, or has a credit
/// marker at byte 9.
pub open spec fn is_header(line: Seq<char>) -> bool {
    ||| exists|i: int| 0 <= i < header_tags().len() && starts_with(line, #[trigger] header_tags()[i])
    ||| exists|i: int|
        0 <= i < credit_markers().len() && stands_at_byte(line, #[trigger] credit_markers()[i], 9)
}

/// The line of `t` that starts at `start` and ends before `e`, the place
/// of its line feed or the end of `t`: a carriage return directly before
/// the line feed is not part of it.
pub open spec fn line_at(t: Seq<char>, start: int, e: int) -> Seq<char> {
    if e < t.len() && start < e && t[e - 1] == '\r' {
        t.subrange(start, e - 1)
    } else {
        t.subrange(start, e)
    }
}

/// Where the scan for the end of the header stands.
#[derive(Debug, Clone, Copy, PartialEq, Eq, Structural)]
pub enum Scanner {
    /// Every line so far belongs to the header.
    Dropping,
    /// The last line was no header line: it is in doubt.
    PendingMaybe,
    /// Two lines in a row were no header lines: the header has ended.
    Stopped,
}

/// The transition of the scan on a line that is, or is not, a header
/// line. A header line leads back to dropping; another line leads from
/// dropping into doubt, and from doubt to the stop.
pub open spec fn scanner_step(s: Scanner, header: bool) -> Scanner {
    match s {
        Scanner::Stopped => Scanner::Stopped,
        Scanner::Dropping => if header {
            Scanner::Dropping
        } else {
            Scanner::PendingMaybe
        },
        Scanner::PendingMaybe => if header {
            Scanner::Dropping
        } else {
            Scanner::Stopped
        },
    }
}

impl Scanner {
    /// Where the scan stands after a line.
    pub fn step(self, header: bool) -> (r: Scanner)
        ensures
            r == scanner_step(self, header),
    {
        match self {
            Scanner::Stopped => Scanner::Stopped,
            Scanner::Dropping => if header {
                Scanner::Dropping
            } else {
                Scanner::PendingMaybe
            },
            Scanner::PendingMaybe => if header {
                Scanner::Dropping
            } else {
                Scanner::Stopped
            },
        }
    }
}

/// The scan for the end of the header, from the line that starts at
/// `start`, in the state `state`, with `dropped` bytes confirmed and
/// `pending` bytes of the line in doubt. A line counts with the byte for
/// its line feed.
///
/// Each line moves the scan by [`scanner_step`]. Back in dropping, the
/// line is confirmed together with the line in doubt. In doubt, the line
/// is what is in doubt. At the stop, what was confirmed is the result and
/// the line in doubt stays. At the end of the text a line still in doubt
/// is dropped too.
pub open spec fn header_bytes(
    t: Seq<char>,
    start: int,
    state: Scanner,
    dropped: nat,
    pending: nat,
) -> nat
    decreases t.len() + 1 - start,
{
    if start < 0 || start >= t.len() {
        dropped + pending
    } else {
        let e = index_of(t, '\n', start);
        let line = line_at(t, start, e);
        let len = byte_len(line) + 1;
        if e < start || e > t.len() {
            dropped + pending
        } else {
            match scanner_step(state, is_header(line)) {
                Scanner::Dropping => header_bytes(
                    t,
                    e + 1,
                    Scanner::Dropping,
                    dropped + len + pending,
                    0,
                ),
                Scanner::PendingMaybe => header_bytes(t, e + 1, Scanner::PendingMaybe, dropped, len),
                Scanner::Stopped => dropped,
            }
        }
    }
}

/// The text without its header: line ends are unified to line feeds, the
/// enclosing blanks go, the header found by the scan is cut off, and every
/// `&apos;` becomes an apostrophe.
pub open spec fn normalized(raw: Seq<char>) -> Seq<char> {
    let t = trim(replace_all(raw, "\r\n"@, "\n"@));
    replace_all(
        from_byte(t, header_bytes(t, 0, Scanner::Dropping, 0, 0) as int),
        "&apos;"@,
        "'"@,
    )
}

/// A header line confirms itself together with the line in doubt before
/// it: one line between two header blocks is absorbed.
pub proof fn lemma_header_line_absorbs(
    t: Seq<char>,
    start: int,
    state: Scanner,
    dropped: nat,
    pending: nat,
)
    requires
        0 <= start < t.len(),
        state != Scanner::Stopped,
        is_header(line_at(t, start, index_of(t, '\n', start))),
    ensures
        header_bytes(t, start, state, dropped, pending) == header_bytes(
            t,
            index_of(t, '\n', start) + 1,
            Scanner::Dropping,
            dropped + byte_len(line_at(t, start, index_of(t, '\n', start))) + 1 + pending,
            0,
        ),
{
    lemma_index_of_bounds(t, '\n', start);
}

/// Two lines in a row that are no header lines stop the scan at the first
/// of the two: what was confirmed before them is all that is cut off.
pub proof fn lemma_two_plain_lines_halt(t: Seq<char>, start: int, dropped: nat)
    requires
        0 <= start < t.len(),
        index_of(t, '\n', start) + 1 < t.len(),
        !is_header(line_at(t, start, index_of(t, '\n', start))),
        !is_header(
            line_at(
                t,
                index_of(t, '\n', start) + 1,
                index_of(t, '\n', index_of(t, '\n', start) + 1),
            ),
        ),
    ensures
        header_bytes(t, start, Scanner::Dropping, dropped, 0) == dropped,
{
    let e = index_of(t, '\n', start);
    lemma_index_of_bounds(t, '\n', start);
    lemma_index_of_bounds(t, '\n', e + 1);
    let len = byte_len(line_at(t, start, e)) + 1;
    assert(header_bytes(t, start, Scanner::Dropping, dropped, 0) == header_bytes(
        t,
        e + 1,
        Scanner::PendingMaybe,
        dropped,
        len,
    ));
}

/// A header line that two plain lines follow is the last of the header:
/// the text is cut exactly through it.
pub proof fn lemma_header_then_body(t: Seq<char>, start: int, dropped: nat)
    requires
        0 <= start < t.len(),
        is_header(line_at(t, start, index_of(t, '\n', start))),
        index_of(t, '\n', start) + 1 < t.len(),
        index_of(t, '\n', index_of(t, '\n', start) + 1) + 1 < t.len(),
        !is_header(
            line_at(
                t,
                index_of(t, '\n', start) + 1,
                index_of(t, '\n', index_of(t, '\n', start) + 1),
            ),
        ),
        !is_header(
            line_at(
                t,
                index_of(t, '\n', index_of(t, '\n', start) + 1) + 1,
                index_of(t, '\n', index_of(t, '\n', index_of(t, '\n', start) + 1) + 1),
            ),
        ),
    ensures
        header_bytes(t, start, Scanner::Dropping, dropped, 0) == dropped + byte_len(
            line_at(t, start, index_of(t, '\n', start)),
        ) + 1,
{
    let e = index_of(t, '\n', start);
    lemma_header_line_absorbs(t, start, Scanner::Dropping, dropped, 0);
    lemma_index_of_bounds(t, '\n', start);
    lemma_two_plain_lines_halt(
        t,
        e + 1,
        (dropped + byte_len(line_at(t, start, e)) + 1) as nat,
    );
}

pub fn utf8_len_of(c: char) -> (r: usize)
    ensures
        r == utf8_len(c),
        1 <= r <= 4,
{
    let u: u32 = c as u32;
    if u < 0x80 {
        1
    } else if u < 0x800 {
        2
    } else if u < 0x10000 {
        3
    } else {
        4
    }
}

/// The bytes of `v[lo..hi]`.
fn byte_len_of(v: &Vec<char>, lo: usize, hi: usize) -> (r: u128)
    requires
        lo <= hi <= v.len(),
    ensures
        r == byte_len(v@.subrange(lo as int, hi as int)),
        r <= 4 * (hi - lo),
{
    let mut acc: u128 = 0;
    let mut i: usize = lo;
    assert(v@.subrange(lo as int, lo as int) =~= Seq::<char>::empty());
    while i < hi
        invariant
            lo <= i <= hi <= v.len(),
            acc == byte_len(v@.subrange(lo as int, i as int)),
            acc <= 4 * (i - lo),
        decreases hi - i,
    {
        let w = utf8_len_of(v[i]);
        proof {
            let s = v@.subrange(lo as int, i + 1);
            assert(s.drop_last() =~= v@.subrange(lo as int, i as int));
            assert(s.last() == v@[i as int]);
        }
        acc = acc + w as u128;
        i += 1;
    }
    acc
}

/// The count of leading characters of `v` that fit into `off` bytes, and
/// whether they fill them exactly.
fn boundary(v: &Vec<char>, off: u128) -> (r: (usize, bool))
    ensures
        r.0 == chars_within(v@, off as int),
        r.0 <= v.len(),
        r.1 == (byte_len(v@.take(r.0 as int)) == off),
{
    let n = v.len();
    let mut k: usize = 0;
    let mut left: u128 = off;
    proof {
        assert(v@.skip(0) =~= v@);
        assert(v@.take(0) =~= Seq::<char>::empty());
    }
    while k < n && utf8_len_of(v[k]) as u128 <= left
        invariant
            k <= n,
            n == v.len(),
            left <= off,
            chars_within(v@, off as int) == k + chars_within(v@.skip(k as int), left as int),
            byte_len(v@.take(k as int)) == off - left,
        decreases n - k,
    {
        proof {
            let rest = v@.skip(k as int);
            assert(rest[0] == v@[k as int]);
            assert(rest.drop_first() =~= v@.skip(k + 1));
            let p = v@.take(k + 1);
            assert(p.drop_last() =~= v@.take(k as int));
            assert(p.last() == v@[k as int]);
        }
        left = left - utf8_len_of(v[k]) as u128;
        k += 1;
    }
    proof {
        if k < n {
            assert(v@.skip(k as int)[0] == v@[k as int]);
        }
    }
    (k, left == 0)
}

fn contains_at_chars(line: &Vec<char>, pat: &Vec<char>, off: u128) -> (r: bool)
    ensures
        r == stands_at_byte(line@, pat@, off as int),
{
    let (k, exact) = boundary(line, off);
    assert(line@.take(line.len() as int) =~= line@);
    exact && has_at(line, line.len(), pat, k)
}

/// Whether `pattern` stands in `s` at byte `index`.
pub fn contains_at(s: &str, pattern: &str, index: usize) -> (r: bool)
    ensures
        r == stands_at_byte(s@, pattern@, index as int),
{
    let line = chars_of(s);
    let pat = chars_of(pattern);
    contains_at_chars(&line, &pat, index as u128)
}

fn tag_list() -> (r: Vec<Vec<char>>)
    ensures
        r.len() == header_tags().len(),
        forall|i: int| 0 <= i < r.len() ==> (#[trigger] r@[i])@ == header_tags()[i],
{
    let mut r: Vec<Vec<char>> = Vec::new();
    r.push(chars_of("[ti:"));
    r.push(chars_of("[ar:"));
    r.push(chars_of("[al:"));
    r.push(chars_of("[by:"));
    r.push(chars_of("[hash:"));
    r.push(chars_of("[sign:"));
    r.push(chars_of("[qq:"));
    r.push(chars_of("[total:"));
    r.push(chars_of("[offset:"));
    r.push(chars_of("[id:"));
    r
}

fn marker_list() -> (r: Vec<Vec<char>>)
    ensures
        r.len() == credit_markers().len(),
        forall|i: int| 0 <= i < r.len() ==> (#[trigger] r@[i])@ == credit_markers()[i],
{
    let mut r: Vec<Vec<char>> = Vec::new();
    r.push(chars_of("Written by："));
    r.push(chars_of("Lyrics by："));
    r.push(chars_of("Composed by："));
    r.push(chars_of("Producer："));
    r.push(chars_of("作曲 : "));
    r.push(chars_of("作词 : "));
    r
}

fn is_header_line(line: &Vec<char>, tags: &Vec<Vec<char>>, markers: &Vec<Vec<char>>) -> (r: bool)
    requires
        tags.len() == header_tags().len(),
        forall|i: int| 0 <= i < tags.len() ==> (#[trigger] tags@[i])@ == header_tags()[i],
        markers.len() == credit_markers().len(),
        forall|i: int| 0 <= i < markers.len() ==> (#[trigger] markers@[i])@ == credit_markers()[i],
    ensures
        r == is_header(line@),
{
    let n = line.len();
    assert(line@.take(n as int) =~= line@);
    let mut i: usize = 0;
    while i < tags.len()
        invariant
            i <= tags.len(),
            n == line.len(),
            line@.take(n as int) == line@,
            tags.len() == header_tags().len(),
            forall|j: int| 0 <= j < tags.len() ==> (#[trigger] tags@[j])@ == header_tags()[j],
            forall|j: int| 0 <= j < i ==> !starts_with(line@, #[trigger] header_tags()[j]),
        decreases tags.len() - i,
    {
        if has_at(line, n, &tags[i], 0) {
            assert(starts_with(line@, header_tags()[i as int]));
            return true;
        }
        i += 1;
    }
    let mut k: usize = 0;
    while k < markers.len()
        invariant
            k <= markers.len(),
            markers.len() == credit_markers().len(),
            forall|j: int|
                0 <= j < markers.len() ==> (#[trigger] markers@[j])@ == credit_markers()[j],
            forall|j: int| 0 <= j < k ==> !stands_at_byte(line@, #[trigger] credit_markers()[j], 9),
        decreases markers.len() - k,
    {
        if contains_at_chars(line, &markers[k], 9) {
            assert(stands_at_byte(line@, credit_markers()[k as int], 9));
            return true;
        }
        k += 1;
    }
    false
}

/// Runs the header scan over `t` and gives the bytes to cut off.
fn scan_header(t: &Vec<char>) -> (r: u128)
    ensures
        r == header_bytes(t@, 0, Scanner::Dropping, 0, 0),
{
    let tags = tag_list();
    let markers = marker_list();
    let n = t.len();
    let mut start: usize = 0;
    let mut state = Scanner::Dropping;
    let mut dropped: u128 = 0;
    let mut pending: u128 = 0;
    assert(t@.take(n as int) =~= t@);
    while start < n
        invariant
            start <= n,
            n == t.len(),
            t@.take(n as int) == t@,
            dropped + pending <= 5 * start,
            state != Scanner::Stopped,
            header_bytes(t@, 0, Scanner::Dropping, 0, 0) == header_bytes(
                t@,
                start as int,
                state,
                dropped as nat,
                pending as nat,
            ),
            tags.len() == header_tags().len(),
            forall|i: int| 0 <= i < tags.len() ==> (#[trigger] tags@[i])@ == header_tags()[i],
            markers.len() == credit_markers().len(),
            forall|i: int|
                0 <= i < markers.len() ==> (#[trigger] markers@[i])@ == credit_markers()[i],
        decreases n - start,
    {
        let e = index_of_char(t, n, '\n', start);
        let stop: usize = if e < n && start < e && t[e - 1] == '\r' {
            e - 1
        } else {
            e
        };
        let line = slice_of(t, start, stop);
        assert(line@ == line_at(t@, start as int, e as int));
        let len: u128 = byte_len_of(t, start, stop) + 1;
        state = state.step(is_header_line(&line, &tags, &markers));
        match state {
            Scanner::Dropping => {
                dropped = dropped + len + pending;
                pending = 0;
            },
            Scanner::PendingMaybe => {
                pending = len;
            },
            Scanner::Stopped => {
                return dropped;
            },
        }
        if e == n {
            assert(header_bytes(t@, n + 1, state, dropped as nat, pending as nat) == dropped
                + pending);
            return dropped + pending;
        }
        start = e + 1;
    }
    dropped + pending
}

/// Lyrics as the hash-and-token provider hands them out.
#[derive(Debug)]
pub struct Lyrics(pub String);

impl Lyrics {
    /// Cuts the attribution header off the lyrics.
    pub fn normalize(self) -> (r: Lyrics)
        ensures
            r.0@ == normalized(self.0@),
    {
        let raw = chars_of(self.0.as_str());
        let crlf = chars_of("\r\n");
        let lf = chars_of("\n");
        let entity = chars_of("&apos;");
        let apostrophe = chars_of("'");
        proof {
            reveal_strlit("\r\n");
            reveal_strlit("&apos;");
        }
        let unified = replace_in(&raw, &crlf, &lf);
        let (a, b) = trim_bounds(&unified, 0, unified.len());
        assert(unified@.subrange(0, unified.len() as int) =~= unified@);
        let t = slice_of(&unified, a, b);
        let off = scan_header(&t);
        let (k, exact) = boundary(&t, off);
        let tail = if exact {
            slice_of(&t, k, t.len())
        } else {
            Vec::new()
        };
        assert(tail@ =~= from_byte(t@, off as int));
        let out = replace_in(&tail, &entity, &apostrophe);
        Lyrics(string_from(&out))
    }
}

} // verus!
