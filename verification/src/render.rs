//! Writing a timeline back as text, and the law that reading it again
//! gives the same timeline.

use crate::lrc::{
    all_invalid, classified, classify, clean, lemma_padding_law, lyric_of, metadata_of, normal,
    pad3, parsed, LineModel,
};
use crate::numeral::{
    all_digits, decimal_of, digit_char, digit_of, digits_value, is_digit,
    lemma_decimal_reads_back,
};
use crate::text::{
    index_of, is_space, lead_spaces, lemma_index_of_bounds, lemma_trim_is, lemma_trim_shape,
    matches_at, replace_all, trail_spaces, trim, trim_end, trim_start,
};
use crate::text::pairs_view;
use crate::timeline::{
    entries_map, folded_lines, folded_metadata, lemma_entries_lookup, LrcFile,
};
use vstd::prelude::*;

verus! {

/// The numeral of `n` with at least two digits.
pub open spec fn two_digits(n: nat) -> Seq<char> {
    if n < 10 {
        seq!['0', digit_char(n)]
    } else {
        decimal_of(n)
    }
}

/// The timestamp of a lyric line: minutes, seconds and milliseconds of
/// `ts` between brackets.
pub open spec fn stamp(ts: u64) -> Seq<char> {
    let secs = (ts % 60000) / 1000;
    let ms = ts % 1000;
    seq!['['] + two_digits((ts / 60000) as nat) + seq![
        ':',
        digit_char((secs / 10) as nat),
        digit_char((secs % 10) as nat),
        '.',
        digit_char((ms / 100) as nat),
        digit_char(((ms / 10) % 10) as nat),
        digit_char((ms % 10) as nat),
        ']',
    ]
}

/// A line as it is written: a lyric line as its timestamp and its text, a
/// metadata line as `[key:value]`.
pub open spec fn written(l: LineModel) -> Seq<char> {
    match l {
        LineModel::Lyric { timestamp, line } => stamp(timestamp) + line,
        LineModel::Metadata { key, value } => seq!['['] + key + seq![':'] + value + seq![']'],
        LineModel::Invalid => Seq::empty(),
    }
}

/// The text of some lines: each line as it is written, with a line feed
/// after it.
pub open spec fn written_text(ls: Seq<LineModel>) -> Seq<char>
    decreases ls.len(),
{
    if ls.len() == 0 {
        Seq::empty()
    } else {
        written(ls[0]) + seq!['\n'] + written_text(ls.drop_first())
    }
}

/// A text that survives cleaning: no line feed, no comment sign, and no
/// blank at either end.
pub open spec fn tidy(s: Seq<char>) -> bool {
    &&& !s.contains('\n')
    &&& !s.contains('#')
    &&& s.len() > 0 ==> !is_space(s[0]) && !is_space(s.last())
}

/// A line that can be written and read again as itself: its texts are
/// tidy, and a metadata line has a key that is not empty, holds no colon
/// after its first character, and does not make the line look like a
/// lyric line.
pub open spec fn writable(l: LineModel) -> bool {
    match l {
        LineModel::Lyric { timestamp, line } => tidy(line),
        LineModel::Metadata { key, value } => {
            &&& tidy(key)
            &&& tidy(value)
            &&& key.len() > 0
            &&& !key.skip(1).contains(':')
            &&& lyric_of(written(l)) is None
        },
        LineModel::Invalid => false,
    }
}

/// The first `c` from `from` on is at `k`.
proof fn lemma_index_of_is(s: Seq<char>, c: char, from: int, k: int)
    requires
        0 <= from <= k <= s.len(),
        forall|j: int| from <= j < k ==> s[j] != c,
        k < s.len() ==> s[k] == c,
    ensures
        index_of(s, c, from) == k,
    decreases k - from,
{
    if from < k {
        lemma_index_of_is(s, c, from + 1, k);
    }
}

/// A text without blanks at its ends is its own trimming.
proof fn lemma_trim_tidy(s: Seq<char>)
    requires
        s.len() > 0 ==> !is_space(s[0]) && !is_space(s.last()),
    ensures
        trim(s) == s,
{
    assert(lead_spaces(s) == 0);
    assert(trim_start(s) =~= s);
    assert(trail_spaces(s) == 0);
    assert(trim_end(s) =~= s);
}

/// A written line without line feed and comment sign, which begins with
/// a bracket and ends without a blank, is not changed by cleaning.
proof fn lemma_clean_keeps(line: Seq<char>)
    requires
        line.len() > 0,
        !line.contains('#'),
        !is_space(line[0]),
        !is_space(line.last()),
    ensures
        clean(line) == line,
{
    assert forall|j: int| 0 <= j < line.len() implies line[j] != '#' by {
        if line[j] == '#' {
            assert(line.contains('#'));
        }
    }
    lemma_index_of_is(line, '#', 0, line.len() as int);
    assert(line.take(line.len() as int) =~= line);
    lemma_trim_tidy(line);
}

proof fn lemma_digit_chars(d: nat)
    requires
        d < 10,
    ensures
        is_digit(digit_char(d)),
        digit_of(digit_char(d)) == d,
        digit_char(d) != ':',
        digit_char(d) != ']',
        digit_char(d) != '#',
        digit_char(d) != '\n',
        !is_space(digit_char(d)),
{
}

/// The digits of a numeral are digits, whatever else is asked of them.
proof fn lemma_digits_are_plain(s: Seq<char>)
    requires
        all_digits(s),
    ensures
        forall|j: int|
            0 <= j < s.len() ==> (#[trigger] s[j]) != ':' && s[j] != ']' && s[j] != '#' && s[j]
                != '\n' && !is_space(s[j]),
{
    assert forall|j: int| 0 <= j < s.len() implies (#[trigger] s[j]) != ':' && s[j] != ']' && s[j]
        != '#' && s[j] != '\n' && !is_space(s[j]) by {
        assert(is_digit(s[j]));
    }
}

/// The numeral of at least two digits reads back as its number.
proof fn lemma_two_digits(n: nat)
    ensures
        two_digits(n).len() >= 2,
        all_digits(two_digits(n)),
        digits_value(two_digits(n)) == n,
{
    if n < 10 {
        let s = seq!['0', digit_char(n)];
        lemma_digit_chars(n);
        lemma_digit_chars(0);
        assert(s.drop_last() =~= seq!['0']);
        assert(seq!['0'].drop_last() =~= Seq::<char>::empty());
        assert(digits_value(seq!['0']) == 0) by {
            assert(digits_value(seq!['0'].drop_last()) == 0);
            assert(seq!['0'].last() == '0');
        }
        assert(s.last() == digit_char(n));
        assert forall|i: int| 0 <= i < s.len() implies is_digit(#[trigger] s[i]) by {}
    } else {
        lemma_decimal_reads_back(n);
        lemma_decimal_long(n);
    }
}

proof fn lemma_decimal_long(n: nat)
    requires
        n >= 10,
    ensures
        decimal_of(n).len() >= 2,
{
    lemma_decimal_reads_back(n / 10);
}

/// A lyric line that is written and read again is itself.
pub proof fn lemma_lyric_reads_back(ts: u64, text: Seq<char>)
    requires
        tidy(text),
    ensures
        clean(stamp(ts) + text) == stamp(ts) + text,
        classify(stamp(ts) + text) == (LineModel::Lyric { timestamp: ts, line: text }),
        !(stamp(ts) + text).contains('\n'),
        (stamp(ts) + text).len() > 0,
        !is_space((stamp(ts) + text)[0]),
        !is_space((stamp(ts) + text).last()),
{
    let mins = (ts / 60000) as nat;
    let secs = ((ts % 60000) / 1000) as nat;
    let ms = (ts % 1000) as nat;
    let m_digits = two_digits(mins);
    let m = m_digits.len() as int;
    let tail = seq![
        ':',
        digit_char(secs / 10),
        digit_char(secs % 10),
        '.',
        digit_char(ms / 100),
        digit_char((ms / 10) % 10),
        digit_char(ms % 10),
        ']',
    ];
    let line = stamp(ts) + text;
    lemma_two_digits(mins);
    lemma_digits_are_plain(m_digits);
    lemma_digit_chars(secs / 10);
    lemma_digit_chars(secs % 10);
    lemma_digit_chars(ms / 100);
    lemma_digit_chars((ms / 10) % 10);
    lemma_digit_chars(ms % 10);
    assert(stamp(ts) == seq!['['] + m_digits + tail);
    assert(line.len() == 1 + m + 8 + text.len());
    assert(line[0] == '[');
    assert forall|j: int| 0 <= j < m implies line[1 + j] == m_digits[j] by {}
    assert forall|j: int| 0 <= j < 8 implies line[1 + m + j] == tail[j] by {}
    assert forall|j: int| 0 <= j < text.len() implies line[9 + m + j] == text[j] by {}
    let c = 1 + m;
    let e = c + 7;
    assert(line[c] == ':') by {
        assert(line[1 + m + 0] == tail[0]);
    }
    assert(line[c + 1] == tail[1] && line[c + 2] == tail[2] && line[c + 3] == tail[3] && line[c
        + 4] == tail[4] && line[c + 5] == tail[5] && line[c + 6] == tail[6] && line[c + 7]
        == tail[7]) by {
        assert(line[1 + m + 1] == tail[1]);
        assert(line[1 + m + 2] == tail[2]);
        assert(line[1 + m + 3] == tail[3]);
        assert(line[1 + m + 4] == tail[4]);
        assert(line[1 + m + 5] == tail[5]);
        assert(line[1 + m + 6] == tail[6]);
        assert(line[1 + m + 7] == tail[7]);
    }
    assert forall|j: int| 0 <= j < c implies line[j] != ':' by {
        if j >= 1 {
            assert(line[1 + (j - 1)] == m_digits[j - 1]);
        }
    }
    lemma_index_of_is(line, ':', 0, c);
    assert forall|j: int| 0 <= j < e implies line[j] != ']' by {
        if 1 <= j < c {
            assert(line[1 + (j - 1)] == m_digits[j - 1]);
        }
    }
    lemma_index_of_is(line, ']', 0, e);
    let got_m = line.subrange(1, c);
    let got_s = line.subrange(c + 1, c + 3);
    let got_f = line.subrange(c + 4, e);
    assert(got_m =~= m_digits) by {
        assert forall|j: int| 0 <= j < m implies got_m[j] == m_digits[j] by {
            assert(line[1 + j] == m_digits[j]);
        }
    }
    assert(got_s =~= seq![digit_char(secs / 10), digit_char(secs % 10)]);
    assert(got_f =~= seq![digit_char(ms / 100), digit_char((ms / 10) % 10), digit_char(ms % 10)]);
    assert(all_digits(got_s));
    assert(all_digits(got_f));
    assert(digits_value(got_s) == secs) by {
        let one = got_s.drop_last();
        assert(one =~= seq![digit_char(secs / 10)]);
        assert(one.drop_last() =~= Seq::<char>::empty());
        assert(digits_value(one.drop_last()) == 0);
        assert(digits_value(one) == secs / 10);
    }
    assert(digits_value(got_f) == ms) by {
        let two = got_f.drop_last();
        assert(two =~= seq![digit_char(ms / 100), digit_char((ms / 10) % 10)]);
        let one = two.drop_last();
        assert(one =~= seq![digit_char(ms / 100)]);
        assert(one.drop_last() =~= Seq::<char>::empty());
        assert(digits_value(one.drop_last()) == 0);
        assert(digits_value(one) == ms / 100);
        assert(digits_value(two) == (ms / 100) * 10 + (ms / 10) % 10);
    }
    lemma_padding_law(got_f);
    assert(pad3(got_f) == got_f);
    assert(mins * 60000 + secs * 1000 + ms == ts);
    assert(line.skip(e + 1) =~= text);
    lemma_trim_tidy(text);
    assert(lyric_of(line) == Some((ts, text)));
    // Cleaning leaves the line alone.
    assert forall|j: int| 0 <= j < line.len() implies line[j] != '#' && line[j] != '\n' by {
        if 1 <= j < c {
            assert(line[1 + (j - 1)] == m_digits[j - 1]);
        } else if c <= j <= e {
            assert(line[1 + m + (j - c)] == tail[j - c]);
        } else if j > e {
            assert(line[9 + m + (j - e - 1)] == text[j - e - 1]);
            if text[j - e - 1] == '#' {
                assert(text.contains('#'));
            }
            if text[j - e - 1] == '\n' {
                assert(text.contains('\n'));
            }
        }
    }
    assert(!line.contains('#'));
    assert(!line.contains('\n'));
    if text.len() > 0 {
        assert(line.last() == text.last()) by {
            assert(line[9 + m + (text.len() - 1)] == text[text.len() - 1]);
        }
    } else {
        assert(line.last() == ']');
    }
    lemma_clean_keeps(line);
}

/// A lyric line put together from the digits of its minutes, seconds and
/// fraction and from its text.
pub open spec fn composed(m: Seq<char>, s: Seq<char>, f: Seq<char>, t: Seq<char>) -> Seq<char> {
    seq!['['] + m + seq![':'] + s + seq!['.'] + f + seq![']'] + t
}

/// The milliseconds that the digits of a timestamp stand for: the
/// fraction is padded on the right to three digits and then counts
/// milliseconds.
pub open spec fn composed_timestamp(m: Seq<char>, s: Seq<char>, f: Seq<char>) -> nat {
    digits_value(m) * 60000 + digits_value(s) * 1000 + digits_value(pad3(f))
}

/// The parts of a timestamp are of the lengths that the pattern asks for,
/// and the timestamp fits in 64 bits.
pub open spec fn timestamp_parts(m: Seq<char>, s: Seq<char>, f: Seq<char>) -> bool {
    &&& all_digits(m) && m.len() >= 2
    &&& all_digits(s) && s.len() == 2
    &&& all_digits(f) && 2 <= f.len() <= 3
    &&& composed_timestamp(m, s, f) <= u64::MAX
}

/// A composed line is a lyric line: its timestamp is that of its digits,
/// with the fraction padded and never read as a decimal, and its text is
/// its text trimmed.
pub proof fn lemma_composed_line(m: Seq<char>, s: Seq<char>, f: Seq<char>, t: Seq<char>)
    requires
        timestamp_parts(m, s, f),
    ensures
        lyric_of(composed(m, s, f, t)) == Some((composed_timestamp(m, s, f) as u64, trim(t))),
        classify(composed(m, s, f, t)) == (LineModel::Lyric {
            timestamp: composed_timestamp(m, s, f) as u64,
            line: trim(t),
        }),
{
    let line = composed(m, s, f, t);
    let ml = m.len() as int;
    let fl = f.len() as int;
    let c = 1 + ml;
    let e = c + 4 + fl;
    lemma_digits_are_plain(m);
    lemma_digits_are_plain(s);
    lemma_digits_are_plain(f);
    assert(line.len() == e + 1 + t.len());
    assert(line[0] == '[');
    assert forall|j: int| 0 <= j < ml implies line[1 + j] == m[j] by {}
    assert(line[c] == ':');
    assert(line[c + 1] == s[0]);
    assert(line[c + 2] == s[1]);
    assert(line[c + 3] == '.');
    assert forall|j: int| 0 <= j < fl implies line[c + 4 + j] == f[j] by {}
    assert(line[e] == ']');
    assert forall|j: int| 0 <= j < t.len() implies line[e + 1 + j] == t[j] by {}
    assert forall|j: int| 0 <= j < c implies line[j] != ':' by {
        if j >= 1 {
            assert(line[1 + (j - 1)] == m[j - 1]);
        }
    }
    lemma_index_of_is(line, ':', 0, c);
    assert forall|j: int| 0 <= j < e implies line[j] != ']' by {
        if 1 <= j < c {
            assert(line[1 + (j - 1)] == m[j - 1]);
        } else if c + 4 <= j {
            assert(line[c + 4 + (j - c - 4)] == f[j - c - 4]);
        }
    }
    lemma_index_of_is(line, ']', 0, e);
    assert(line.subrange(1, c) =~= m);
    assert(line.subrange(c + 1, c + 3) =~= s);
    assert(line.subrange(c + 4, e) =~= f);
    assert(line.skip(e + 1) =~= t);
}

/// The padding law on a whole text: a text that is one composed line,
/// whose text holds no comment sign and no line feed, parses to exactly
/// one lyric line, with the timestamp of its digits and its text trimmed.
pub proof fn lemma_composed_line_parses(m: Seq<char>, s: Seq<char>, f: Seq<char>, t: Seq<char>)
    requires
        timestamp_parts(m, s, f),
        !t.contains('#'),
        !t.contains('\n'),
    ensures
        parsed(composed(m, s, f, t)) == Some(
            seq![
                LineModel::Lyric {
                    timestamp: composed_timestamp(m, s, f) as u64,
                    line: trim(t),
                },
            ],
        ),
{
    let line = composed(m, s, f, t);
    let ml = m.len() as int;
    let fl = f.len() as int;
    let c = 1 + ml;
    let e = c + 4 + fl;
    lemma_digits_are_plain(m);
    lemma_digits_are_plain(s);
    lemma_digits_are_plain(f);
    assert(line.len() == e + 1 + t.len());
    assert(line[0] == '[');
    assert forall|j: int| 0 <= j < ml implies line[1 + j] == m[j] by {}
    assert(line[c] == ':');
    assert(line[c + 1] == s[0]);
    assert(line[c + 2] == s[1]);
    assert(line[c + 3] == '.');
    assert forall|j: int| 0 <= j < fl implies line[c + 4 + j] == f[j] by {}
    assert(line[e] == ']');
    assert forall|j: int| 0 <= j < t.len() implies line[e + 1 + j] == t[j] by {}
    assert forall|j: int| 0 <= j < line.len() implies line[j] != '\n' && line[j] != '#' by {
        if 1 <= j < c {
            assert(line[1 + (j - 1)] == m[j - 1]);
        } else if c + 4 <= j < e {
            assert(line[c + 4 + (j - c - 4)] == f[j - c - 4]);
        } else if j > e {
            assert(line[e + 1 + (j - e - 1)] == t[j - e - 1]);
            if t[j - e - 1] == '\n' {
                assert(t.contains('\n'));
            }
            if t[j - e - 1] == '#' {
                assert(t.contains('#'));
            }
        }
    }
    // The line ends are unified already.
    reveal_strlit("\r\n");
    assert forall|i: int| !matches_at(line, "\r\n"@, i) by {
        if matches_at(line, "\r\n"@, i) {
            let w = line.subrange(i, i + 2);
            assert(w[1] == line[i + 1]);
            assert("\r\n"@[1] == '\n');
        }
    }
    lemma_replace_absent(line, "\r\n"@, "\n"@);
    // Trimming takes the blanks off the end of the text.
    lemma_trim_shape(t);
    let a = lead_spaces(t) as int;
    let r = trim(t);
    let keep = if r.len() > 0 {
        a + r.len()
    } else {
        0
    };
    let t2 = t.take(keep);
    let b = e + 1 + keep;
    assert forall|i: int| b <= i < line.len() implies is_space(#[trigger] line[i]) by {
        assert(line[e + 1 + (i - e - 1)] == t[i - e - 1]);
    }
    if r.len() > 0 {
        assert(r.last() == t[a + r.len() - 1]);
        assert(line[e + 1 + (keep - 1)] == t[keep - 1]);
    }
    lemma_trim_is(line, 0, b);
    let n = composed(m, s, f, t2);
    assert(line.subrange(0, b) =~= n);
    assert(normal(line) == n);
    // The one line is kept by cleaning and is a lyric line.
    assert forall|j: int| 0 <= j < n.len() implies n[j] != '\n' && n[j] != '#' by {
        assert(n[j] == line[j]);
    }
    assert(!n.contains('#'));
    lemma_index_of_is(n, '\n', 0, n.len() as int);
    assert(n.take(n.len() as int) =~= n);
    assert(n[0] == line[0]);
    assert(n.last() == line[b - 1]);
    lemma_clean_keeps(n);
    lemma_composed_line(m, s, f, t2);
    if r.len() > 0 {
        assert forall|i: int| 0 <= i < a implies is_space(#[trigger] t2[i]) by {
            assert(t2[i] == t[i]);
        }
        assert(t2[a] == r[0]);
        assert(t2[keep - 1] == r.last());
        lemma_trim_is(t2, a, keep);
        assert(t2.subrange(a, keep) =~= r);
    } else {
        lemma_trim_is(t2, 0, 0);
        assert(t2.subrange(0, 0) =~= r);
    }
    let got = classified(n);
    assert(got =~= seq![classify(n)]);
    assert(got[0] is Lyric);
    assert(!all_invalid(got));
}

/// A metadata line that is written and read again is itself.
pub proof fn lemma_metadata_reads_back(key: Seq<char>, value: Seq<char>)
    requires
        writable(LineModel::Metadata { key, value }),
    ensures
        clean(written(LineModel::Metadata { key, value })) == written(
            LineModel::Metadata { key, value },
        ),
        classify(written(LineModel::Metadata { key, value })) == (LineModel::Metadata {
            key,
            value,
        }),
        !written(LineModel::Metadata { key, value }).contains('\n'),
        written(LineModel::Metadata { key, value }).len() > 0,
        !is_space(written(LineModel::Metadata { key, value })[0]),
        !is_space(written(LineModel::Metadata { key, value }).last()),
{
    let line = written(LineModel::Metadata { key, value });
    let k = key.len() as int;
    let v = value.len() as int;
    assert(line.len() == k + v + 3);
    assert(line[0] == '[');
    assert forall|j: int| 0 <= j < k implies line[1 + j] == key[j] by {}
    assert(line[1 + k] == ':');
    assert forall|j: int| 0 <= j < v implies line[2 + k + j] == value[j] by {}
    assert(line.last() == ']');
    assert forall|j: int| 2 <= j < 1 + k implies line[j] != ':' by {
        assert(line[1 + (j - 1)] == key[j - 1]);
        assert(key.skip(1)[j - 2] == key[j - 1]);
        if key[j - 1] == ':' {
            assert(key.skip(1).contains(':'));
        }
    }
    lemma_index_of_is(line, ':', 2, 1 + k);
    assert(line.subrange(1, 1 + k) =~= key);
    assert(line.subrange(2 + k, line.len() - 1) =~= value);
    lemma_trim_tidy(key);
    lemma_trim_tidy(value);
    assert(metadata_of(line) == Some((key, value)));
    assert forall|j: int| 0 <= j < line.len() implies line[j] != '#' && line[j] != '\n' by {
        if 1 <= j < 1 + k {
            assert(line[1 + (j - 1)] == key[j - 1]);
            if key[j - 1] == '#' {
                assert(key.contains('#'));
            }
            if key[j - 1] == '\n' {
                assert(key.contains('\n'));
            }
        } else if 2 + k <= j < 2 + k + v {
            assert(line[2 + k + (j - 2 - k)] == value[j - 2 - k]);
            if value[j - 2 - k] == '#' {
                assert(value.contains('#'));
            }
            if value[j - 2 - k] == '\n' {
                assert(value.contains('\n'));
            }
        }
    }
    assert(!line.contains('#'));
    assert(!line.contains('\n'));
    lemma_clean_keeps(line);
}

/// What holds of every writable line as it is written.
proof fn lemma_written_line(l: LineModel)
    requires
        writable(l),
    ensures
        clean(written(l)) == written(l),
        classify(written(l)) == l,
        !written(l).contains('\n'),
        written(l).len() > 0,
        !is_space(written(l)[0]),
        !is_space(written(l).last()),
{
    match l {
        LineModel::Lyric { timestamp, line } => {
            lemma_lyric_reads_back(timestamp, line);
        },
        LineModel::Metadata { key, value } => {
            lemma_metadata_reads_back(key, value);
        },
        LineModel::Invalid => {},
    }
}

/// A text in which the pattern stands nowhere is left as it is.
proof fn lemma_replace_absent(s: Seq<char>, pat: Seq<char>, to: Seq<char>)
    requires
        forall|i: int| !matches_at(s, pat, i),
    ensures
        replace_all(s, pat, to) == s,
    decreases s.len(),
{
    if pat.len() > 0 && s.len() >= pat.len() {
        assert(!matches_at(s, pat, 0));
        let t = s.skip(1);
        assert forall|i: int| !matches_at(t, pat, i) by {
            if matches_at(t, pat, i) {
                assert(t.subrange(i, i + pat.len()) =~= s.subrange(i + 1, i + 1 + pat.len()));
                assert(matches_at(s, pat, i + 1));
            }
        }
        lemma_replace_absent(t, pat, to);
        assert(seq![s[0]] + t =~= s);
    }
}

/// No line of a written text ends with a carriage return.
pub open spec fn no_crlf(s: Seq<char>) -> bool {
    forall|i: int| 0 <= i < s.len() - 1 ==> !(#[trigger] s[i] == '\r' && s[i + 1] == '\n')
}

proof fn lemma_written_text_shape(ls: Seq<LineModel>)
    requires
        forall|i: int| 0 <= i < ls.len() ==> writable(#[trigger] ls[i]),
    ensures
        no_crlf(written_text(ls)),
        ls.len() > 0 ==> written_text(ls).len() >= 2 && !is_space(written_text(ls)[0])
            && written_text(ls).last() == '\n' && !is_space(
            written_text(ls)[written_text(ls).len() - 2],
        ),
    decreases ls.len(),
{
    let w = written_text(ls);
    if ls.len() > 0 {
        let line = written(ls[0]);
        let rest = ls.drop_first();
        let tail = written_text(rest);
        lemma_written_line(ls[0]);
        assert forall|i: int| 0 <= i < rest.len() implies writable(#[trigger] rest[i]) by {
            assert(rest[i] == ls[i + 1]);
        }
        lemma_written_text_shape(rest);
        let n = line.len() as int;
        assert(w.len() == n + 1 + tail.len());
        assert forall|j: int| 0 <= j < n implies w[j] == line[j] by {}
        assert(w[n] == '\n');
        assert forall|j: int| 0 <= j < tail.len() implies w[n + 1 + j] == tail[j] by {}
        assert forall|i: int| 0 <= i < w.len() - 1 implies !(#[trigger] w[i] == '\r' && w[i + 1]
            == '\n') by {
            if i + 1 < n {
                assert(w[i + 1] == line[i + 1]);
                if line[i + 1] == '\n' {
                    assert(line.contains('\n'));
                }
            } else if i + 1 == n {
                assert(w[i] == line[n - 1]);
            } else if i == n {
            } else {
                assert(w[n + 1 + (i - n - 1)] == tail[i - n - 1]);
                assert(w[n + 1 + (i - n)] == tail[i - n]);
            }
        }
        assert(w[0] == line[0]);
        if rest.len() == 0 {
            assert(tail =~= Seq::<char>::empty());
            assert(w[w.len() - 2] == line[n - 1]);
        } else {
            assert(w[n + 1 + (tail.len() - 1)] == tail[tail.len() - 1]);
            assert(w[n + 1 + (tail.len() - 2)] == tail[tail.len() - 2]);
        }
    } else {
        assert(w =~= Seq::<char>::empty());
    }
}

/// A line feed at the very end of a text adds no line.
proof fn lemma_final_line_feed(t: Seq<char>)
    ensures
        classified(t.push('\n')) == classified(t),
    decreases t.len(),
{
    let u = t.push('\n');
    lemma_index_of_bounds(t, '\n', 0);
    let e = index_of(t, '\n', 0);
    assert forall|j: int| 0 <= j < e implies u[j] != '\n' by {
        assert(u[j] == t[j]);
    }
    if e < t.len() {
        assert(u[e] == t[e]);
        lemma_index_of_is(u, '\n', 0, e);
        assert(u.take(e) =~= t.take(e));
        assert(u.skip(e + 1) =~= t.skip(e + 1).push('\n'));
        lemma_final_line_feed(t.skip(e + 1));
    } else {
        lemma_index_of_is(u, '\n', 0, e);
        assert(u.take(e) =~= t.take(e));
        let nothing = u.skip(e + 1);
        assert(nothing =~= Seq::<char>::empty());
        assert(nothing.take(0) =~= Seq::<char>::empty());
        assert(classified(nothing) =~= Seq::<LineModel>::empty());
        assert(classified(u) =~= classified(t));
    }
}

/// Normalizing a written text takes off its last line feed and nothing
/// else, which changes no line.
proof fn lemma_written_text_normal(ls: Seq<LineModel>)
    requires
        ls.len() > 0,
        forall|i: int| 0 <= i < ls.len() ==> writable(#[trigger] ls[i]),
    ensures
        classified(normal(written_text(ls))) == classified(written_text(ls)),
{
    let w = written_text(ls);
    lemma_written_text_shape(ls);
    reveal_strlit("\r\n");
    assert forall|i: int| !matches_at(w, "\r\n"@, i) by {
        if matches_at(w, "\r\n"@, i) {
            let m = w.subrange(i, i + 2);
            assert(m[0] == w[i]);
            assert(m[1] == w[i + 1]);
            assert("\r\n"@[0] == '\r');
            assert("\r\n"@[1] == '\n');
        }
    }
    lemma_replace_absent(w, "\r\n"@, "\n"@);
    assert(lead_spaces(w) == 0);
    assert(trim_start(w) =~= w);
    let body = w.drop_last();
    assert(is_space('\n'));
    assert(trail_spaces(w) == 1 + trail_spaces(body));
    assert(body.last() == w[w.len() - 2]);
    assert(trail_spaces(body) == 0);
    assert(trim_end(w) =~= body);
    assert(normal(w) == body);
    assert(body.push('\n') =~= w);
    lemma_final_line_feed(body);
}

/// Lines that are written and read again are themselves: reading the
/// text of writable lines classifies each line as what it was, in order.
pub proof fn lemma_lines_read_back(ls: Seq<LineModel>)
    requires
        forall|i: int| 0 <= i < ls.len() ==> writable(#[trigger] ls[i]),
    ensures
        classified(written_text(ls)) == ls,
    decreases ls.len(),
{
    let raw = written_text(ls);
    if ls.len() == 0 {
        assert(raw.take(0) =~= Seq::<char>::empty());
        assert(classified(raw) =~= ls);
    } else {
        let first = written(ls[0]);
        let rest = ls.drop_first();
        lemma_written_line(ls[0]);
        assert forall|i: int| 0 <= i < rest.len() implies writable(#[trigger] rest[i]) by {
            assert(rest[i] == ls[i + 1]);
        }
        lemma_lines_read_back(rest);
        let e = first.len() as int;
        assert forall|j: int| 0 <= j < e implies raw[j] != '\n' by {
            assert(raw[j] == first[j]);
            if first[j] == '\n' {
                assert(first.contains('\n'));
            }
        }
        assert(raw[e] == '\n');
        lemma_index_of_is(raw, '\n', 0, e);
        assert(raw.take(e) =~= first);
        assert(raw.skip(e + 1) =~= written_text(rest));
        assert(classified(raw) =~= seq![ls[0]] + rest);
        assert(seq![ls[0]] + rest =~= ls);
    }
}

/// The lines of a timeline in the order written: the metadata entries,
/// then the lyric lines at the timestamps of `order`.
pub open spec fn listing(
    entries: Seq<(Seq<char>, Seq<char>)>,
    lines: Map<u64, Seq<char>>,
    order: Seq<u64>,
) -> Seq<LineModel> {
    Seq::new(entries.len(), |i: int| LineModel::Metadata { key: entries[i].0, value: entries[i].1 })
        + Seq::new(order.len(), |i: int| LineModel::Lyric { timestamp: order[i], line: lines[order[i]] })
}

/// The mapping that a list of entries stands for, a later entry first.
pub open spec fn entries_model(entries: Seq<(Seq<char>, Seq<char>)>) -> Map<Seq<char>, Seq<char>>
    decreases entries.len(),
{
    if entries.len() == 0 {
        Map::empty()
    } else {
        entries_model(entries.drop_last()).insert(entries.last().0, entries.last().1)
    }
}

proof fn lemma_fold_listing(
    entries: Seq<(Seq<char>, Seq<char>)>,
    lines: Map<u64, Seq<char>>,
    order: Seq<u64>,
)
    ensures
        folded_metadata(listing(entries, lines, order)) == entries_model(entries),
        forall|t: u64| #[trigger]
            folded_lines(listing(entries, lines, order)).contains_key(t) <==> (t == 0
                || order.contains(t)),
        forall|t: u64|
            order.contains(t) ==> #[trigger] folded_lines(listing(entries, lines, order))[t]
                == lines[t],
        !order.contains(0) ==> folded_lines(listing(entries, lines, order))[0] == Seq::<
            char,
        >::empty(),
    decreases order.len(), entries.len(),
{
    let ls = listing(entries, lines, order);
    if order.len() > 0 {
        let shorter = order.drop_last();
        lemma_fold_listing(entries, lines, shorter);
        assert(ls.drop_last() =~= listing(entries, lines, shorter));
        assert(ls.last() == (LineModel::Lyric {
            timestamp: order.last(),
            line: lines[order.last()],
        }));
        let last = order.last();
        let g = folded_lines(listing(entries, lines, shorter));
        let f = folded_lines(ls);
        assert(f == g.insert(last, lines[last]));
        assert(folded_metadata(ls) == folded_metadata(ls.drop_last()));
        assert forall|t: u64| order.contains(t) <==> (shorter.contains(t) || t == last) by {
            if order.contains(t) {
                let i = choose|i: int| 0 <= i < order.len() && order[i] == t;
                if i < shorter.len() {
                    assert(shorter[i] == t);
                }
            }
            if shorter.contains(t) {
                let i = choose|i: int| 0 <= i < shorter.len() && shorter[i] == t;
                assert(order[i] == t);
            }
            if t == last {
                assert(order[order.len() - 1] == t);
            }
        }
        assert forall|t: u64| #[trigger] f.contains_key(t) <==> (t == 0 || order.contains(t)) by {
            assert(g.contains_key(t) <==> (t == 0 || shorter.contains(t)));
        }
        assert forall|t: u64| order.contains(t) implies #[trigger] f[t] == lines[t] by {
            if t != last {
                assert(shorter.contains(t));
                assert(g[t] == lines[t]);
            }
        }
        if !order.contains(0) {
            assert(!shorter.contains(0));
            assert(last != 0);
        }
    } else if entries.len() > 0 {
        let fewer = entries.drop_last();
        lemma_fold_listing(fewer, lines, order);
        assert(ls.drop_last() =~= listing(fewer, lines, order));
        assert(ls.last() == (LineModel::Metadata {
            key: entries.last().0,
            value: entries.last().1,
        }));
        let g = folded_lines(listing(fewer, lines, order));
        let f = folded_lines(ls);
        assert(f == g);
        assert forall|t: u64| #[trigger] f.contains_key(t) <==> (t == 0 || order.contains(t)) by {
            assert(g.contains_key(t) <==> (t == 0 || order.contains(t)));
        }
    } else {
        assert(ls =~= Seq::<LineModel>::empty());
        let f = folded_lines(ls);
        assert forall|t: u64| #[trigger] f.contains_key(t) <==> (t == 0 || order.contains(t)) by {}
    }
}

/// The round trip of a timeline. Take a timeline with its metadata
/// `entries` and its `lines`, which have the line at 0; list the
/// timestamps of its lines in `order` (rising, say), all of them, or all
/// but that of an empty line at 0; write the metadata lines and then the
/// lyric lines in that order as text. Where every line is writable,
/// parsing that text and folding the result gives the same metadata and
/// the same lines again, the line at 0 included.
pub proof fn lemma_round_trip(
    entries: Seq<(Seq<char>, Seq<char>)>,
    lines: Map<u64, Seq<char>>,
    order: Seq<u64>,
)
    requires
        lines.contains_key(0),
        forall|t: u64| order.contains(t) ==> lines.contains_key(t),
        forall|t: u64|
            lines.contains_key(t) ==> order.contains(t) || (t == 0 && lines[0] == Seq::<
                char,
            >::empty()),
        forall|i: int| 0 <= i < order.len() ==> tidy(#[trigger] lines[order[i]]),
        forall|i: int|
            0 <= i < entries.len() ==> writable(
                LineModel::Metadata { key: (#[trigger] entries[i]).0, value: entries[i].1 },
            ),
    ensures
        listing(entries, lines, order).len() > 0 ==> parsed(
            written_text(listing(entries, lines, order)),
        ) == Some(listing(entries, lines, order)),
        folded_metadata(listing(entries, lines, order)) == entries_model(entries),
        folded_lines(listing(entries, lines, order)) == lines,
{
    let ls = listing(entries, lines, order);
    assert forall|i: int| 0 <= i < ls.len() implies writable(#[trigger] ls[i]) by {
        if i < entries.len() {
            assert(ls[i] == (LineModel::Metadata { key: entries[i].0, value: entries[i].1 }));
        } else {
            let j = i - entries.len();
            assert(ls[i] == (LineModel::Lyric { timestamp: order[j], line: lines[order[j]] }));
        }
    }
    lemma_lines_read_back(ls);
    lemma_fold_listing(entries, lines, order);
    if ls.len() > 0 {
        assert(writable(ls[0]));
        lemma_written_text_normal(ls);
        assert(!all_invalid(ls));
    }
    assert(folded_lines(ls) =~= lines);
}

/// The entries of a timeline stand for its metadata.
proof fn lemma_entries_model(ps: Seq<(String, String)>)
    ensures
        entries_model(pairs_view(ps)) == entries_map(ps),
    decreases ps.len(),
{
    if ps.len() > 0 {
        lemma_entries_model(ps.drop_last());
        assert(pairs_view(ps).drop_last() =~= pairs_view(ps.drop_last()));
        assert(pairs_view(ps).last() == (ps.last().0@, ps.last().1@));
    } else {
        assert(pairs_view(ps) =~= Seq::<(Seq<char>, Seq<char>)>::empty());
    }
}

/// The lines of the timeline `file` in the order written: its metadata
/// entries, then its lyric lines at the timestamps of `order`.
pub open spec fn timeline_lines(file: LrcFile, order: Seq<u64>) -> Seq<LineModel> {
    listing(pairs_view(file.metadata@), file.lines_map(), order)
}

/// The round trip of a timeline: writing a timeline as text, its metadata
/// lines first and then its lyric lines at its timestamps (in rising
/// order, or any other; all of them, or all but that of an empty line at
/// 0), and parsing and folding that text gives the same metadata and the
/// same lines again, where every line of the timeline is writable.
pub proof fn lemma_timeline_round_trip(file: LrcFile, order: Seq<u64>)
    requires
        file.wf(),
        forall|t: u64| order.contains(t) ==> file.lines_map().contains_key(t),
        forall|t: u64|
            file.lines_map().contains_key(t) ==> order.contains(t) || (t == 0
                && file.lines_map()[0] == Seq::<char>::empty()),
        forall|i: int| 0 <= i < order.len() ==> tidy(#[trigger] file.lines_map()[order[i]]),
        forall|i: int|
            0 <= i < file.metadata@.len() ==> writable(
                LineModel::Metadata {
                    key: (#[trigger] file.metadata@[i]).0@,
                    value: file.metadata@[i].1@,
                },
            ),
    ensures
        folded_metadata(timeline_lines(file, order)) == file.metadata_map(),
        folded_lines(timeline_lines(file, order)) == file.lines_map(),
        timeline_lines(file, order).len() > 0 ==> parsed(
            written_text(timeline_lines(file, order)),
        ) == Some(timeline_lines(file, order)),
{
    let entries = pairs_view(file.metadata@);
    assert forall|i: int| 0 <= i < entries.len() implies writable(
        LineModel::Metadata { key: (#[trigger] entries[i]).0, value: entries[i].1 },
    ) by {
        assert(entries[i] == (file.metadata@[i].0@, file.metadata@[i].1@));
    }
    lemma_round_trip(entries, file.lines_map(), order);
    lemma_entries_model(file.metadata@);
}

/// A text without line feed and comment sign.
pub open spec fn plain(s: Seq<char>) -> bool {
    forall|i: int| 0 <= i < s.len() ==> (#[trigger] s[i]) != '\n' && s[i] != '#'
}

/// What parsing hands out is tidy: the text of a lyric line, and the key
/// and the value of a metadata line, whose key holds no colon after its
/// first character.
pub open spec fn well_read(l: LineModel) -> bool {
    match l {
        LineModel::Lyric { timestamp, line } => tidy(line),
        LineModel::Metadata { key, value } => tidy(key) && tidy(value) && (key.len() > 0
            ==> !key.skip(1).contains(':')),
        LineModel::Invalid => true,
    }
}

proof fn lemma_plain_tidy(s: Seq<char>)
    requires
        plain(s),
        s.len() > 0 ==> !is_space(s[0]) && !is_space(s.last()),
    ensures
        tidy(s),
{
    if s.contains('\n') {
        let i = choose|i: int| 0 <= i < s.len() && s[i] == '\n';
        assert(s[i] != '\n');
    }
    if s.contains('#') {
        let i = choose|i: int| 0 <= i < s.len() && s[i] == '#';
        assert(s[i] != '#');
    }
}

/// The trimming of a part of a plain text is tidy.
proof fn lemma_trimmed_part_tidy(s: Seq<char>, a: int, b: int)
    requires
        plain(s),
        0 <= a <= b <= s.len(),
    ensures
        tidy(trim(s.subrange(a, b))),
        plain(trim(s.subrange(a, b))),
{
    let q = s.subrange(a, b);
    lemma_trim_shape(q);
    let r = trim(q);
    let k = lead_spaces(q) as int;
    assert forall|i: int| 0 <= i < r.len() implies (#[trigger] r[i]) != '\n' && r[i] != '#' by {
        assert(r[i] == q[k + i]);
        assert(q[k + i] == s[a + k + i]);
    }
    lemma_plain_tidy(r);
}

/// The class of a plain line is well read.
proof fn lemma_classify_well_read(line: Seq<char>)
    requires
        plain(line),
    ensures
        well_read(classify(line)),
{
    match lyric_of(line) {
        Some(p) => {
            let e = index_of(line, ']', 0);
            assert(line.skip(e + 1) =~= line.subrange(e + 1, line.len() as int));
            lemma_trimmed_part_tidy(line, e + 1, line.len() as int);
        },
        None => {
            match metadata_of(line) {
                Some(p) => {
                    lemma_index_of_bounds(line, ':', 2);
                    let c = index_of(line, ':', 2);
                    lemma_trimmed_part_tidy(line, 1, c);
                    lemma_trimmed_part_tidy(line, c + 1, line.len() - 1);
                    let q = line.subrange(1, c);
                    lemma_trim_shape(q);
                    let key = trim(q);
                    let k = lead_spaces(q) as int;
                    if key.len() > 0 && key.skip(1).contains(':') {
                        let i = choose|i: int| 0 <= i < key.skip(1).len() && key.skip(1)[i] == ':';
                        assert(key.skip(1)[i] == key[i + 1]);
                        assert(key[i + 1] == q[k + i + 1]);
                        assert(q[k + i + 1] == line[2 + k + i]);
                    }
                },
                None => {},
            }
        },
    }
}

/// Every line that the classification of a text hands out is well read.
pub proof fn lemma_classified_well_read(raw: Seq<char>)
    ensures
        forall|i: int| 0 <= i < classified(raw).len() ==> well_read(#[trigger] classified(raw)[i]),
    decreases raw.len(),
{
    lemma_index_of_bounds(raw, '\n', 0);
    let e = index_of(raw, '\n', 0);
    let piece = raw.take(e);
    lemma_index_of_bounds(piece, '#', 0);
    let h = index_of(piece, '#', 0);
    let q = piece.take(h);
    assert forall|i: int| 0 <= i < q.len() implies (#[trigger] q[i]) != '\n' && q[i] != '#' by {
        assert(q[i] == piece[i]);
        assert(piece[i] == raw[i]);
    }
    assert(q.subrange(0, q.len() as int) =~= q);
    lemma_trimmed_part_tidy(q, 0, q.len() as int);
    let first = clean(piece);
    lemma_classify_well_read(first);
    let head = if first.len() == 0 {
        Seq::<LineModel>::empty()
    } else {
        seq![classify(first)]
    };
    if 0 <= e < raw.len() {
        let rest = classified(raw.skip(e + 1));
        lemma_classified_well_read(raw.skip(e + 1));
        assert forall|i: int| 0 <= i < classified(raw).len() implies well_read(
            #[trigger] classified(raw)[i],
        ) by {
            if i < head.len() {
                assert(classified(raw)[i] == head[i]);
            } else {
                assert(classified(raw)[i] == rest[i - head.len()]);
            }
        }
    }
}

/// What an entry of the metadata is where it is well read.
pub open spec fn entry_well_read(key: Seq<char>, value: Seq<char>) -> bool {
    tidy(key) && tidy(value) && (key.len() > 0 ==> !key.skip(1).contains(':'))
}

/// What folding hands out comes from the lines folded: where these are
/// well read, every line and every metadata entry of the timeline is.
pub proof fn lemma_folded_well_read(ls: Seq<LineModel>)
    requires
        forall|i: int| 0 <= i < ls.len() ==> well_read(#[trigger] ls[i]),
    ensures
        forall|t: u64| #[trigger]
            folded_lines(ls).contains_key(t) ==> tidy(folded_lines(ls)[t]),
        forall|k: Seq<char>| #[trigger]
            folded_metadata(ls).contains_key(k) ==> entry_well_read(k, folded_metadata(ls)[k]),
    decreases ls.len(),
{
    let f = folded_lines(ls);
    let m = folded_metadata(ls);
    if ls.len() > 0 {
        let shorter = ls.drop_last();
        assert forall|i: int| 0 <= i < shorter.len() implies well_read(#[trigger] shorter[i]) by {
            assert(shorter[i] == ls[i]);
        }
        lemma_folded_well_read(shorter);
        let g = folded_lines(shorter);
        let n = folded_metadata(shorter);
        let last = ls.last();
        assert(last == ls[ls.len() - 1]);
        assert(well_read(last));
        assert forall|t: u64| #[trigger] f.contains_key(t) implies tidy(f[t]) by {
            match last {
                LineModel::Lyric { timestamp, line } => {
                    assert(f == g.insert(timestamp, line));
                    if t != timestamp {
                        assert(g.contains_key(t));
                    }
                },
                _ => {
                    assert(f == g);
                    assert(g.contains_key(t));
                },
            }
        }
        assert forall|k: Seq<char>| #[trigger] m.contains_key(k) implies entry_well_read(
            k,
            m[k],
        ) by {
            match last {
                LineModel::Metadata { key, value } => {
                    assert(m == n.insert(key, value));
                    if k != key {
                        assert(n.contains_key(k));
                    }
                },
                _ => {
                    assert(m == n);
                    assert(n.contains_key(k));
                },
            }
        }
    } else {
        assert(tidy(Seq::<char>::empty()));
    }
}

/// The round trip of a parsed timeline. Take the timeline `file` that
/// folding the lines parsed from any text `source` gives; list its
/// timestamps in `order` (all of them, or all but that of an empty line at
/// 0) and write it as text. Where no key of its metadata is empty and no
/// metadata line of it, as written, is a lyric line, parsing and folding
/// that text gives the same metadata and the same lines again.
pub proof fn lemma_parsed_timeline_round_trip(source: Seq<char>, file: LrcFile, order: Seq<u64>)
    requires
        file.wf(),
        match parsed(source) {
            Some(ls) => file.metadata_map() == folded_metadata(ls) && file.lines_map()
                == folded_lines(ls),
            None => false,
        },
        forall|t: u64| order.contains(t) ==> file.lines_map().contains_key(t),
        forall|t: u64|
            file.lines_map().contains_key(t) ==> order.contains(t) || (t == 0
                && file.lines_map()[0] == Seq::<char>::empty()),
        forall|i: int| 0 <= i < file.metadata@.len() ==> (#[trigger] file.metadata@[i]).0@.len() > 0,
        forall|i: int|
            0 <= i < file.metadata@.len() ==> lyric_of(
                written(
                    LineModel::Metadata {
                        key: (#[trigger] file.metadata@[i]).0@,
                        value: file.metadata@[i].1@,
                    },
                ),
            ) is None,
    ensures
        folded_metadata(timeline_lines(file, order)) == file.metadata_map(),
        folded_lines(timeline_lines(file, order)) == file.lines_map(),
        timeline_lines(file, order).len() > 0 ==> parsed(
            written_text(timeline_lines(file, order)),
        ) == Some(timeline_lines(file, order)),
{
    let ls = parsed(source)->0;
    lemma_classified_well_read(normal(source));
    lemma_folded_well_read(ls);
    assert forall|i: int| 0 <= i < order.len() implies tidy(
        #[trigger] file.lines_map()[order[i]],
    ) by {
        assert(order.contains(order[i]));
        assert(folded_lines(ls).contains_key(order[i]));
    }
    assert forall|i: int| 0 <= i < file.metadata@.len() implies writable(
        LineModel::Metadata {
            key: (#[trigger] file.metadata@[i]).0@,
            value: file.metadata@[i].1@,
        },
    ) by {
        let k = file.metadata@[i].0@;
        assert forall|j: int| i < j < file.metadata@.len() implies (
        #[trigger] file.metadata@[j]).0@ != k by {}
        lemma_entries_lookup(file.metadata@, k, i);
        assert(folded_metadata(ls).contains_key(k));
        assert(entry_well_read(k, folded_metadata(ls)[k]));
    }
    lemma_timeline_round_trip(file, order);
}

} // verus!
