//! The timed-lyrics (LRC) format: the classification of a line and the
//! parsing of a whole text.

use crate::numeral::{
    all_digits, digits_in, digits_value, lemma_digits_value_bound, lemma_digits_value_push, pow10,
    value_of,
};
use crate::text::{
    chars_of, index_of, index_of_char, replace_all, replace_in, slice_of, string_of, trim,
    trim_bounds,
};
use vstd::prelude::*;

verus! {

/// One classified line of a timed-lyrics text.
#[derive(Debug, Clone, PartialEq, Eq)]
pub enum LrcLine {
    Invalid,
    Metadata { key: String, value: String },
    Lyric {
        /// Milliseconds from the start of the track.
        timestamp: u64,
        line: String,
    },
}

/// What an [`LrcLine`] stands for.
pub enum LineModel {
    Invalid,
    Metadata { key: Seq<char>, value: Seq<char> },
    Lyric { timestamp: u64, line: Seq<char> },
}

impl View for LrcLine {
    type V = LineModel;

    open spec fn view(&self) -> LineModel {
        match self {
            LrcLine::Invalid => LineModel::Invalid,
            LrcLine::Metadata { key, value } => LineModel::Metadata { key: key@, value: value@ },
            LrcLine::Lyric { timestamp, line } => LineModel::Lyric {
                timestamp: *timestamp,
                line: line@,
            },
        }
    }
}

/// The models of a list of lines, in order.
pub open spec fn models(lines: Seq<LrcLine>) -> Seq<LineModel> {
    Seq::new(lines.len(), |i: int| lines[i]@)
}

/// `f` right-padded with `'0'` to three characters; longer input is kept.
pub open spec fn pad3(f: Seq<char>) -> Seq<char>
    decreases 3 - f.len(),
{
    if f.len() >= 3 {
        f
    } else {
        pad3(f.push('0'))
    }
}

/// The padding law of the fractional part: a fraction of at most three
/// characters is completed with zeros on the right to exactly three, keeps
/// what it had, and then reads as the integer count of milliseconds, so
/// that each missing place multiplies the written number by ten.
pub proof fn lemma_padding_law(f: Seq<char>)
    requires
        f.len() <= 3,
    ensures
        pad3(f).len() == 3,
        pad3(f).take(f.len() as int) == f,
        forall|i: int| f.len() <= i < 3 ==> pad3(f)[i] == '0',
        digits_value(pad3(f)) == digits_value(f) * pow10((3 - f.len()) as nat),
    decreases 3 - f.len(),
{
    if f.len() < 3 {
        let g = f.push('0');
        lemma_padding_law(g);
        lemma_digits_value_push(f, '0');
        assert(pad3(f).take(f.len() as int) =~= pad3(g).take(g.len() as int).take(f.len() as int));
        assert(g.take(f.len() as int) =~= f);
        assert forall|i: int| f.len() <= i < 3 implies pad3(f)[i] == '0' by {
            if i == f.len() {
                assert(pad3(g).take(g.len() as int)[i] == g[i]);
            }
        }
        let n = (3 - g.len()) as nat;
        let m = (3 - f.len()) as nat;
        let d = digits_value(f);
        assert(pow10(m) == 10 * pow10(n));
        assert(digits_value(g) == d * 10);
        assert(digits_value(pad3(g)) == (d * 10) * pow10(n));
        assert((d * 10) * pow10(n) == d * (10 * pow10(n))) by (nonlinear_arith);
        assert(pad3(f) == pad3(g));
    } else {
        assert(pad3(f).take(3) =~= f);
        assert(pow10(0) == 1);
        assert(digits_value(f) * 1 == digits_value(f));
    }
}

/// The lyric-line pattern: `[`, two or more digits of minutes, `:`, two
/// digits of seconds, `.`, two or three digits of fraction, `]`, then the
/// text. Gives the timestamp in milliseconds and the trimmed text. A line
/// whose timestamp does not fit in 64 bits is no lyric line.
pub open spec fn lyric_of(line: Seq<char>) -> Option<(u64, Seq<char>)> {
    let c = index_of(line, ':', 0);
    let e = index_of(line, ']', 0);
    if line.len() > 0 && line[0] == '[' && c >= 3 && all_digits(line.subrange(1, c)) && e
        < line.len() && (e == c + 6 || e == c + 7) && all_digits(line.subrange(c + 1, c + 3))
        && line[c + 3] == '.' && all_digits(line.subrange(c + 4, e)) {
        let ts = digits_value(line.subrange(1, c)) * 60000 + digits_value(
            line.subrange(c + 1, c + 3),
        ) * 1000 + digits_value(pad3(line.subrange(c + 4, e)));
        if ts <= u64::MAX {
            Some((ts as u64, trim(line.skip(e + 1))))
        } else {
            None
        }
    } else {
        None
    }
}

/// The metadata-line pattern: `[key:value]`, where the key is at least one
/// character and ends at the first `:` after it, and the value runs to the
/// closing bracket that ends the line. Gives the trimmed key and value.
pub open spec fn metadata_of(line: Seq<char>) -> Option<(Seq<char>, Seq<char>)> {
    let c = index_of(line, ':', 2);
    if line.len() >= 4 && line[0] == '[' && line.last() == ']' && c < line.len() - 1 {
        Some((trim(line.subrange(1, c)), trim(line.subrange(c + 1, line.len() - 1))))
    } else {
        None
    }
}

/// The class of one cleaned line: the lyric pattern is tried first, then the
/// metadata pattern.
pub open spec fn classify(line: Seq<char>) -> LineModel {
    match lyric_of(line) {
        Some((timestamp, text)) => LineModel::Lyric { timestamp, line: text },
        None => match metadata_of(line) {
            Some((key, value)) => LineModel::Metadata { key, value },
            None => LineModel::Invalid,
        },
    }
}

/// A source line without its `#` comment and enclosing blanks.
pub open spec fn clean(line: Seq<char>) -> Seq<char> {
    trim(line.take(index_of(line, '#', 0)))
}

/// A text with its line ends unified to line feeds and without the blanks
/// around it.
pub open spec fn normal(raw: Seq<char>) -> Seq<char> {
    trim(replace_all(raw, "\r\n"@, "\n"@))
}

/// The classified lines of a text: the text is cut at every line feed, each
/// piece is cleaned, empty pieces are dropped, the others are classified.
pub open spec fn classified(raw: Seq<char>) -> Seq<LineModel>
    decreases raw.len(),
{
    let e = index_of(raw, '\n', 0);
    let first = clean(raw.take(e));
    let head = if first.len() == 0 {
        Seq::<LineModel>::empty()
    } else {
        seq![classify(first)]
    };
    if 0 <= e < raw.len() {
        head + classified(raw.skip(e + 1))
    } else {
        head
    }
}

/// No line is a lyric or a metadata line (true of the empty list).
pub open spec fn all_invalid(lines: Seq<LineModel>) -> bool {
    forall|i: int| 0 <= i < lines.len() ==> lines[i] is Invalid
}

/// What parsing a text gives: the text is normalized and its lines are
/// classified; the result is nothing where no line is usable, else every
/// classified line in source order.
pub open spec fn parsed(raw: Seq<char>) -> Option<Seq<LineModel>> {
    let lines = classified(normal(raw));
    if all_invalid(lines) {
        None
    } else {
        Some(lines)
    }
}

/// A text without a usable line parses to nothing: where every classified
/// line is invalid, and so for every text that is not empty but entirely
/// unparsable, the result is `None`; and the result is `None` only then.
pub proof fn lemma_unparsable_is_nothing(raw: Seq<char>)
    ensures
        all_invalid(classified(normal(raw))) <==> parsed(raw) is None,
        classified(normal(raw)).len() == 0 ==> parsed(raw) is None,
{
}

fn lyric_line(line: &Vec<char>) -> (r: Option<LrcLine>)
    ensures
        match r {
            Some(l) => match lyric_of(line@) {
                Some(p) => l@ == (LineModel::Lyric { timestamp: p.0, line: p.1 }),
                None => false,
            },
            None => lyric_of(line@) is None,
        },
{
    let n = line.len();
    assert(line@.take(n as int) =~= line@);
    let c = index_of_char(line, n, ':', 0);
    let e = index_of_char(line, n, ']', 0);
    if n == 0 || line[0] != '[' || c < 3 || e >= n || e < c {
        return None;
    }
    if e - c != 6 && e - c != 7 {
        return None;
    }
    if !digits_in(line, 1, c) || !digits_in(line, c + 1, c + 3) || line[c + 3] != '.'
        || !digits_in(line, c + 4, e) {
        return None;
    }
    let ghost frac = line@.subrange(c + 4, e as int);
    proof {
        lemma_padding_law(frac);
        lemma_digits_value_bound(line@.subrange(c + 1, c + 3));
        lemma_digits_value_bound(frac);
        assert(pow10(0) == 1);
        assert(pow10(1) == 10 * pow10(0));
        assert(pow10(2) == 10 * pow10(1));
        assert(pow10(3) == 10 * pow10(2));
    }
    let sec = match value_of(line, c + 1, c + 3) {
        Some(x) => x,
        None => {
            return None;
        },
    };
    let written = match value_of(line, c + 4, e) {
        Some(x) => x,
        None => {
            return None;
        },
    };
    let millis: u64 = if e - c == 6 {
        written * 10
    } else {
        written
    };
    assert(millis == digits_value(pad3(frac)));
    let rest: u64 = sec * 1000 + millis;
    let min = match value_of(line, 1, c) {
        Some(x) => x,
        None => {
            return None;
        },
    };
    if min > (u64::MAX - rest) / 60000 {
        return None;
    }
    let timestamp: u64 = min * 60000 + rest;
    let (a, b) = trim_bounds(line, e + 1, n);
    let text = string_of(line, a, b);
    assert(line@.skip(e + 1) =~= line@.subrange(e + 1, n as int));
    Some(LrcLine::Lyric { timestamp, line: text })
}

fn metadata_line(line: &Vec<char>) -> (r: Option<LrcLine>)
    ensures
        match r {
            Some(l) => match metadata_of(line@) {
                Some(p) => l@ == (LineModel::Metadata { key: p.0, value: p.1 }),
                None => false,
            },
            None => metadata_of(line@) is None,
        },
{
    let n = line.len();
    if n < 4 || line[0] != '[' || line[n - 1] != ']' {
        return None;
    }
    assert(line@.take(n as int) =~= line@);
    let c = index_of_char(line, n, ':', 2);
    if c >= n - 1 {
        return None;
    }
    let (ka, kb) = trim_bounds(line, 1, c);
    let key = string_of(line, ka, kb);
    let (va, vb) = trim_bounds(line, c + 1, n - 1);
    let value = string_of(line, va, vb);
    Some(LrcLine::Metadata { key, value })
}

/// Classifies one cleaned line.
pub fn classify_line(line: &Vec<char>) -> (r: LrcLine)
    ensures
        r@ == classify(line@),
{
    match lyric_line(line) {
        Some(l) => l,
        None => match metadata_line(line) {
            Some(m) => m,
            None => LrcLine::Invalid,
        },
    }
}

/// Parses a timed-lyrics text into its classified lines.
///
/// Returns `None` exactly when no line of the text is a lyric or a metadata
/// line, which includes the empty text and texts of blanks and comments
/// only. Otherwise every non-empty cleaned line is reported, in source
/// order, invalid ones included.
pub fn parse(raw: &str) -> (r: Option<Vec<LrcLine>>)
    ensures
        match r {
            Some(lines) => parsed(raw@) == Some(models(lines@)),
            None => parsed(raw@) is None,
        },
{
    let source = chars_of(raw);
    let crlf = chars_of("\r\n");
    let lf = chars_of("\n");
    proof {
        reveal_strlit("\r\n");
    }
    let unified = replace_in(&source, &crlf, &lf);
    let (from, to) = trim_bounds(&unified, 0, unified.len());
    assert(unified@.subrange(0, unified.len() as int) =~= unified@);
    let text = slice_of(&unified, from, to);
    let n = text.len();
    let mut out: Vec<LrcLine> = Vec::new();
    let mut usable = false;
    let mut start: usize = 0;
    let mut done = false;
    assert(text@.skip(0) =~= text@);
    while !done
        invariant
            n == text.len(),
            text@ == normal(raw@),
            start <= n,
            !done ==> models(out@) + classified(text@.skip(start as int)) == classified(text@),
            done ==> models(out@) == classified(text@),
            usable == !all_invalid(models(out@)),
        decreases n - start + (if done { 0int } else { 1int }),
    {
        let ghost rest = text@.skip(start as int);
        let ghost before = models(out@);
        let end = index_of_char(&text, n, '\n', start);
        let hash = index_of_char(&text, end, '#', start);
        let (a, b) = trim_bounds(&text, start, hash);
        proof {
            assert(text@.take(n as int) =~= text@);
            lemma_index_shift(text@, '\n', start as int, 0);
            assert(index_of(rest, '\n', 0) == end - start);
            let piece = rest.take(end - start);
            assert(piece =~= text@.subrange(start as int, end as int));
            assert(piece =~= text@.take(end as int).skip(start as int));
            lemma_index_shift(text@.take(end as int), '#', start as int, 0);
            assert(index_of(piece, '#', 0) == hash - start);
            assert(piece.take(hash - start) =~= text@.subrange(start as int, hash as int));
            assert(text@.subrange(a as int, b as int) == clean(piece));
        }
        if a < b {
            let line = slice_of(&text, a, b);
            let item = classify_line(&line);
            proof {
                let m = item@;
                assert(models(out@.push(item)) =~= before.push(m));
                if !(m is Invalid) {
                    assert(before.push(m)[before.len() as int] == m);
                } else {
                    assert forall|i: int| 0 <= i < before.len() implies before.push(m)[i]
                        == before[i] by {}
                }
            }
            if !matches!(item, LrcLine::Invalid) {
                usable = true;
            }
            out.push(item);
        }
        proof {
            let head = if clean(rest.take(end - start)).len() == 0 {
                Seq::<LineModel>::empty()
            } else {
                seq![classify(clean(rest.take(end - start)))]
            };
            assert(models(out@) =~= before + head);
            if end < n {
                assert(rest.skip(end - start + 1) =~= text@.skip(end + 1));
                assert(before + (head + classified(text@.skip(end + 1))) =~= (before + head)
                    + classified(text@.skip(end + 1)));
            }
        }
        if end < n {
            start = end + 1;
        } else {
            done = true;
        }
    }
    if usable {
        Some(out)
    } else {
        None
    }
}

/// Searching `s` from `from + k` is searching `s.skip(from)` from `k`.
proof fn lemma_index_shift(s: Seq<char>, c: char, from: int, k: int)
    requires
        0 <= from <= s.len(),
        0 <= k,
    ensures
        index_of(s, c, from + k) == index_of(s.skip(from), c, k) + from,
    decreases s.len() - from - k,
{
    let t = s.skip(from);
    if k < t.len() {
        assert(t[k] == s[from + k]);
        if s[from + k] != c {
            lemma_index_shift(s, c, from, k + 1);
        }
    }
}

} // verus!
