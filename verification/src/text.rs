//! Character-sequence primitives shared by the lyric parsers.
//!
//! Every text rule in this crate is stated over `Seq<char>`, the view of a
//! `str`. The executable counterparts work on `Vec<char>` so that indexing is
//! constant time, and convert at the public boundary.

use vstd::prelude::*;
use vstd::std_specs::iter::IteratorSpec;
use vstd::string::StringExecFns;

verus! {

broadcast use vstd::string::group_string_axioms;

/// `String::push` appends exactly one character to the end of the string.
pub assume_specification[ String::push ](s: &mut String, ch: char)
    ensures
        final(s)@ == old(s)@.push(ch),
;

/// The characters of `s`, in order.
pub fn chars_of(s: &str) -> (v: Vec<char>)
    ensures
        v@ == s@,
{
    let mut it = s.chars();
    let mut v: Vec<char> = Vec::new();
    loop
        invariant
            v@ + it.remaining() == s@,
            it.obeys_prophetic_iter_laws(),
            it.decrease() is Some,
        ensures
            v@ == s@,
        decreases it.decrease()->0,
    {
        let ghost before = it.remaining();
        match it.next() {
            Some(c) => {
                v.push(c);
                assert(v@ + it.remaining() =~= s@) by {
                    assert(before =~= seq![c] + before.drop_first());
                }
            },
            None => {
                assert(v@ =~= v@ + it.remaining());
                break ;
            },
        }
    }
    v
}

/// The string whose characters are `v[lo..hi]`.
pub fn string_of(v: &Vec<char>, lo: usize, hi: usize) -> (s: String)
    requires
        lo <= hi <= v.len(),
    ensures
        s@ == v@.subrange(lo as int, hi as int),
{
    let mut s = String::new();
    let mut i: usize = lo;
    while i < hi
        invariant
            lo <= i <= hi <= v.len(),
            s@ == v@.subrange(lo as int, i as int),
        decreases hi - i,
    {
        s.push(v[i]);
        i += 1;
        assert(s@ =~= v@.subrange(lo as int, i as int));
    }
    s
}

/// The string whose characters are `v`.
pub fn string_from(v: &Vec<char>) -> (s: String)
    ensures
        s@ == v@,
{
    let s = string_of(v, 0, v.len());
    assert(v@.subrange(0, v.len() as int) =~= v@);
    s
}

/// Appends `src[lo..hi]` to `dst`.
pub fn push_range(dst: &mut Vec<char>, src: &Vec<char>, lo: usize, hi: usize)
    requires
        lo <= hi <= src.len(),
    ensures
        final(dst)@ == old(dst)@ + src@.subrange(lo as int, hi as int),
{
    let mut i: usize = lo;
    while i < hi
        invariant
            lo <= i <= hi <= src.len(),
            dst@ == old(dst)@ + src@.subrange(lo as int, i as int),
        decreases hi - i,
    {
        dst.push(src[i]);
        i += 1;
        assert(dst@ =~= old(dst)@ + src@.subrange(lo as int, i as int));
    }
}

/// A fresh vector holding `src[lo..hi]`.
pub fn slice_of(src: &Vec<char>, lo: usize, hi: usize) -> (r: Vec<char>)
    requires
        lo <= hi <= src.len(),
    ensures
        r@ == src@.subrange(lo as int, hi as int),
{
    let mut r: Vec<char> = Vec::new();
    push_range(&mut r, src, lo, hi);
    assert(r@ =~= src@.subrange(lo as int, hi as int));
    r
}

/// The characters with the Unicode `White_Space` property: what splitting and
/// trimming treat as blank.
pub open spec fn is_space(c: char) -> bool {
    let u = c as u32;
    ||| (0x09 <= u && u <= 0x0d)
    ||| u == 0x20
    ||| u == 0x85
    ||| u == 0xa0
    ||| u == 0x1680
    ||| (0x2000 <= u && u <= 0x200a)
    ||| u == 0x2028
    ||| u == 0x2029
    ||| u == 0x202f
    ||| u == 0x205f
    ||| u == 0x3000
}

pub fn is_space_char(c: char) -> (r: bool)
    ensures
        r == is_space(c),
{
    let u: u32 = c as u32;
    (0x09 <= u && u <= 0x0d) || u == 0x20 || u == 0x85 || u == 0xa0 || u == 0x1680 || (0x2000 <= u
        && u <= 0x200a) || u == 0x2028 || u == 0x2029 || u == 0x202f || u == 0x205f || u == 0x3000
}

/// How many blank characters `s` begins with.
pub open spec fn lead_spaces(s: Seq<char>) -> nat
    decreases s.len(),
{
    if s.len() > 0 && is_space(s[0]) {
        1 + lead_spaces(s.drop_first())
    } else {
        0
    }
}

/// How many blank characters `s` ends with.
pub open spec fn trail_spaces(s: Seq<char>) -> nat
    decreases s.len(),
{
    if s.len() > 0 && is_space(s.last()) {
        1 + trail_spaces(s.drop_last())
    } else {
        0
    }
}

/// `s` without its leading blanks.
pub open spec fn trim_start(s: Seq<char>) -> Seq<char> {
    s.skip(lead_spaces(s) as int)
}

/// `s` without its trailing blanks.
pub open spec fn trim_end(s: Seq<char>) -> Seq<char> {
    s.take(s.len() - trail_spaces(s))
}

/// `s` without leading and trailing blanks.
pub open spec fn trim(s: Seq<char>) -> Seq<char> {
    trim_end(trim_start(s))
}

/// A prefix of `k` blanks that is followed by the end or by a non-blank is
/// the whole leading run.
pub(crate) proof fn lemma_lead_spaces_is(s: Seq<char>, k: int)
    requires
        0 <= k <= s.len(),
        forall|i: int| 0 <= i < k ==> is_space(#[trigger] s[i]),
        k == s.len() || !is_space(s[k]),
    ensures
        lead_spaces(s) == k,
    decreases s.len(),
{
    if k > 0 {
        let t = s.drop_first();
        assert forall|i: int| 0 <= i < k - 1 implies is_space(#[trigger] t[i]) by {
            assert(t[i] == s[i + 1]);
        }
        lemma_lead_spaces_is(t, k - 1);
    }
}

/// A suffix of `k` blanks that is preceded by the start or by a non-blank is
/// the whole trailing run.
pub(crate) proof fn lemma_trail_spaces_is(s: Seq<char>, k: int)
    requires
        0 <= k <= s.len(),
        forall|i: int| s.len() - k <= i < s.len() ==> is_space(#[trigger] s[i]),
        k == s.len() || !is_space(s[s.len() - k - 1]),
    ensures
        trail_spaces(s) == k,
    decreases s.len(),
{
    if k > 0 {
        let t = s.drop_last();
        assert forall|i: int| t.len() - (k - 1) <= i < t.len() implies is_space(#[trigger] t[i]) by {
            assert(t[i] == s[i]);
        }
        lemma_trail_spaces_is(t, k - 1);
    }
}

/// The leading run of blanks is a run of blanks and ends at a non-blank.
pub(crate) proof fn lemma_lead_spaces(s: Seq<char>)
    ensures
        lead_spaces(s) <= s.len(),
        forall|i: int| 0 <= i < lead_spaces(s) ==> is_space(#[trigger] s[i]),
        lead_spaces(s) < s.len() ==> !is_space(s[lead_spaces(s) as int]),
    decreases s.len(),
{
    if s.len() > 0 && is_space(s[0]) {
        let t = s.drop_first();
        lemma_lead_spaces(t);
        assert forall|i: int| 0 <= i < lead_spaces(s) implies is_space(#[trigger] s[i]) by {
            if i > 0 {
                assert(s[i] == t[i - 1]);
            }
        }
        if lead_spaces(s) < s.len() {
            assert(s[lead_spaces(s) as int] == t[lead_spaces(t) as int]);
        }
    }
}

/// The trailing run of blanks is a run of blanks and begins after a
/// non-blank.
pub(crate) proof fn lemma_trail_spaces(s: Seq<char>)
    ensures
        trail_spaces(s) <= s.len(),
        forall|i: int| s.len() - trail_spaces(s) <= i < s.len() ==> is_space(#[trigger] s[i]),
        trail_spaces(s) < s.len() ==> !is_space(s[s.len() - trail_spaces(s) - 1]),
    decreases s.len(),
{
    if s.len() > 0 && is_space(s.last()) {
        let t = s.drop_last();
        lemma_trail_spaces(t);
        assert forall|i: int| s.len() - trail_spaces(s) <= i < s.len() implies is_space(
            #[trigger] s[i],
        ) by {
            if i < s.len() - 1 {
                assert(s[i] == t[i]);
            }
        }
        if trail_spaces(s) < s.len() {
            assert(s[s.len() - trail_spaces(s) - 1] == t[t.len() - trail_spaces(t) - 1]);
        }
    }
}

/// What trimming leaves: the part of `s` from its first to its last
/// non-blank, with blanks only before and after it.
pub proof fn lemma_trim_shape(s: Seq<char>)
    ensures
        lead_spaces(s) + trim(s).len() <= s.len(),
        trim(s) == s.subrange(lead_spaces(s) as int, (lead_spaces(s) + trim(s).len()) as int),
        forall|i: int| 0 <= i < lead_spaces(s) ==> is_space(#[trigger] s[i]),
        forall|i: int| lead_spaces(s) + trim(s).len() <= i < s.len() ==> is_space(#[trigger] s[i]),
        trim(s).len() > 0 ==> !is_space(trim(s)[0]) && !is_space(trim(s).last()),
{
    lemma_lead_spaces(s);
    let a = lead_spaces(s) as int;
    let t = trim_start(s);
    lemma_trail_spaces(t);
    let r = trim(s);
    assert(r =~= s.subrange(a, a + r.len()));
    assert forall|i: int| a + r.len() <= i < s.len() implies is_space(#[trigger] s[i]) by {
        assert(s[i] == t[i - a]);
    }
    if r.len() > 0 {
        assert(r.last() == t[t.len() - trail_spaces(t) - 1]);
        assert(r[0] == t[0]);
        assert(t[0] == s[a]);
    }
}

/// The part of `s` between `a` and `b` is its trimming, where only blanks
/// stand before and after it and it does not begin or end with one.
pub proof fn lemma_trim_is(s: Seq<char>, a: int, b: int)
    requires
        0 <= a <= b <= s.len(),
        forall|i: int| 0 <= i < a ==> is_space(#[trigger] s[i]),
        forall|i: int| b <= i < s.len() ==> is_space(#[trigger] s[i]),
        a < b ==> !is_space(s[a]) && !is_space(s[b - 1]),
    ensures
        trim(s) == s.subrange(a, b),
{
    if a < b {
        lemma_lead_spaces_is(s, a);
        let t = trim_start(s);
        assert forall|i: int| t.len() - (s.len() - b) <= i < t.len() implies is_space(
            #[trigger] t[i],
        ) by {
            assert(t[i] == s[a + i]);
        }
        assert(t[t.len() - (s.len() - b) - 1] == s[b - 1]);
        lemma_trail_spaces_is(t, s.len() - b);
        assert(trim_end(t) =~= s.subrange(a, b));
    } else {
        assert forall|i: int| 0 <= i < s.len() implies is_space(#[trigger] s[i]) by {}
        lemma_lead_spaces_is(s, s.len() as int);
        let t = trim_start(s);
        assert(t =~= Seq::<char>::empty());
        assert(trim_end(t) =~= s.subrange(a, b));
    }
}

/// The bounds of the trimmed part of `v[lo..hi]`.
pub fn trim_bounds(v: &Vec<char>, lo: usize, hi: usize) -> (r: (usize, usize))
    requires
        lo <= hi <= v.len(),
    ensures
        lo <= r.0 <= r.1 <= hi,
        v@.subrange(r.0 as int, r.1 as int) == trim(v@.subrange(lo as int, hi as int)),
{
    let ghost s = v@.subrange(lo as int, hi as int);
    let mut a: usize = lo;
    while a < hi && is_space_char(v[a])
        invariant
            lo <= a <= hi <= v.len(),
            forall|i: int| lo <= i < a ==> is_space(#[trigger] v@[i]),
        decreases hi - a,
    {
        a += 1;
    }
    let mut b: usize = hi;
    while b > a && is_space_char(v[b - 1])
        invariant
            lo <= a <= b <= hi <= v.len(),
            forall|i: int| b <= i < hi ==> is_space(#[trigger] v@[i]),
        decreases b - a,
    {
        b -= 1;
    }
    proof {
        assert forall|i: int| 0 <= i < a - lo implies is_space(#[trigger] s[i]) by {
            assert(s[i] == v@[lo + i]);
        }
        lemma_lead_spaces_is(s, a - lo);
        let t = trim_start(s);
        assert(t =~= v@.subrange(a as int, hi as int));
        assert forall|i: int| t.len() - (hi - b) <= i < t.len() implies is_space(
            #[trigger] t[i],
        ) by {
            assert(t[i] == v@[a + i]);
        }
        if b > a {
            assert(t[t.len() - (hi - b) - 1] == v@[b - 1]);
        }
        lemma_trail_spaces_is(t, hi - b);
        assert(trim_end(t) =~= v@.subrange(a as int, b as int));
    }
    (a, b)
}

/// Whether `pat` stands in `s` at index `i`.
pub open spec fn matches_at(s: Seq<char>, pat: Seq<char>, i: int) -> bool {
    0 <= i && i + pat.len() <= s.len() && s.subrange(i, i + pat.len()) == pat
}

pub fn has_at(v: &Vec<char>, hi: usize, pat: &Vec<char>, i: usize) -> (r: bool)
    requires
        hi <= v.len(),
    ensures
        r == matches_at(v@.take(hi as int), pat@, i as int),
{
    let n = pat.len();
    if i > hi || n > hi - i {
        return false;
    }
    let mut k: usize = 0;
    while k < n
        invariant
            i + n <= hi <= v.len(),
            n == pat.len(),
            k <= n,
            forall|j: int| 0 <= j < k ==> v@[i + j] == pat@[j],
        decreases n - k,
    {
        if v[i + k] != pat[k] {
            proof {
                let w = v@.take(hi as int).subrange(i as int, i + n);
                assert(w[k as int] == v@[i + k]);
            }
            return false;
        }
        k += 1;
    }
    assert(v@.take(hi as int).subrange(i as int, i + n) =~= pat@);
    true
}

/// The first index at or after `from` where `pat` stands in `s`, if any.
pub open spec fn find_from(s: Seq<char>, pat: Seq<char>, from: int) -> Option<int>
    decreases s.len() + 1 - from,
{
    if from < 0 || from + pat.len() > s.len() {
        None
    } else if matches_at(s, pat, from) {
        Some(from)
    } else {
        find_from(s, pat, from + 1)
    }
}

/// The first index where `pat` stands in `s`, if any.
pub open spec fn find(s: Seq<char>, pat: Seq<char>) -> Option<int> {
    find_from(s, pat, 0)
}

pub fn find_in(v: &Vec<char>, pat: &Vec<char>, from: usize) -> (r: Option<usize>)
    ensures
        match r {
            Some(i) => find_from(v@, pat@, from as int) == Some(i as int) && i + pat.len()
                <= v.len() && from <= i,
            None => find_from(v@, pat@, from as int) is None,
        },
{
    let n = pat.len();
    let len = v.len();
    if from > len || n > len - from {
        return None;
    }
    let last = len - n;
    let mut i: usize = from;
    loop
        invariant
            from <= i <= last,
            last == len - n,
            n == pat.len(),
            len == v.len(),
            find_from(v@, pat@, from as int) == find_from(v@, pat@, i as int),
        decreases last - i,
    {
        assert(v@.take(len as int) =~= v@);
        if has_at(v, len, pat, i) {
            return Some(i);
        }
        if i == last {
            assert(find_from(v@, pat@, i + 1) is None);
            return None;
        }
        i += 1;
    }
}

/// `s` with every occurrence of `pat` replaced by `to`, scanning from the
/// left and never re-reading what was replaced. `pat` is not empty.
pub open spec fn replace_all(s: Seq<char>, pat: Seq<char>, to: Seq<char>) -> Seq<char>
    decreases s.len(),
{
    if pat.len() == 0 || s.len() < pat.len() {
        s
    } else if matches_at(s, pat, 0) {
        to + replace_all(s.skip(pat.len() as int), pat, to)
    } else {
        seq![s[0]] + replace_all(s.skip(1), pat, to)
    }
}

pub fn replace_in(v: &Vec<char>, pat: &Vec<char>, to: &Vec<char>) -> (r: Vec<char>)
    requires
        pat.len() > 0,
    ensures
        r@ == replace_all(v@, pat@, to@),
{
    let n = pat.len();
    let len = v.len();
    let mut out: Vec<char> = Vec::new();
    let mut i: usize = 0;
    assert(v@.skip(0) =~= v@);
    while i < len
        invariant
            i <= len,
            len == v.len(),
            n == pat.len(),
            n > 0,
            out@ + replace_all(v@.skip(i as int), pat@, to@) == replace_all(v@, pat@, to@),
        decreases len - i,
    {
        let ghost rest = v@.skip(i as int);
        assert(v@.take(len as int) =~= v@);
        let hit = has_at(v, len, pat, i);
        proof {
            if i + n <= len {
                assert(v@.subrange(i as int, i + n) =~= rest.subrange(0, n as int));
            }
            assert(hit == (rest.len() >= n && matches_at(rest, pat@, 0)));
        }
        if hit {
            push_range(&mut out, to, 0, to.len());
            proof {
                assert(to@.subrange(0, to.len() as int) =~= to@);
                assert(rest.skip(n as int) =~= v@.skip(i + n));
                assert(out@ + replace_all(v@.skip(i + n), pat@, to@) =~= replace_all(
                    v@,
                    pat@,
                    to@,
                ));
            }
            i += n;
        } else {
            out.push(v[i]);
            proof {
                assert(rest.skip(1) =~= v@.skip(i + 1));
                assert(rest[0] == v@[i as int]);
                if rest.len() < n {
                    lemma_replace_short(rest, pat@, to@);
                }
                assert(out@ + replace_all(v@.skip(i + 1), pat@, to@) =~= replace_all(
                    v@,
                    pat@,
                    to@,
                ));
            }
            i += 1;
        }
    }
    assert(v@.skip(len as int) =~= Seq::<char>::empty());
    assert(out@ + Seq::<char>::empty() =~= out@);
    out
}

/// A text shorter than the pattern is left as it is, also when peeled one
/// character at a time.
proof fn lemma_replace_short(s: Seq<char>, pat: Seq<char>, to: Seq<char>)
    requires
        0 < s.len() < pat.len(),
    ensures
        replace_all(s, pat, to) == seq![s[0]] + replace_all(s.skip(1), pat, to),
{
    assert(replace_all(s.skip(1), pat, to) == s.skip(1));
    assert(s =~= seq![s[0]] + s.skip(1));
}

/// Whether `s` begins with `pat`.
pub open spec fn starts_with(s: Seq<char>, pat: Seq<char>) -> bool {
    matches_at(s, pat, 0)
}

/// The index of the first `c` in `s` at or after `from`, or `s.len()`.
pub open spec fn index_of(s: Seq<char>, c: char, from: int) -> int
    decreases s.len() - from,
{
    if from < 0 || from >= s.len() {
        s.len() as int
    } else if s[from] == c {
        from
    } else {
        index_of(s, c, from + 1)
    }
}

pub(crate) proof fn lemma_index_of_bounds(s: Seq<char>, c: char, from: int)
    requires
        0 <= from <= s.len(),
    ensures
        from <= index_of(s, c, from) <= s.len(),
        index_of(s, c, from) < s.len() ==> s[index_of(s, c, from)] == c,
        forall|j: int| from <= j < index_of(s, c, from) ==> s[j] != c,
    decreases s.len() - from,
{
    if from < s.len() && s[from] != c {
        lemma_index_of_bounds(s, c, from + 1);
    }
}

pub fn index_of_char(v: &Vec<char>, hi: usize, c: char, from: usize) -> (r: usize)
    requires
        from <= hi <= v.len(),
    ensures
        r == index_of(v@.take(hi as int), c, from as int),
        from <= r <= hi,
        r < hi ==> v@[r as int] == c,
{
    let ghost s = v@.take(hi as int);
    let mut i: usize = from;
    while i < hi && v[i] != c
        invariant
            from <= i <= hi <= v.len(),
            s == v@.take(hi as int),
            index_of(s, c, from as int) == index_of(s, c, i as int),
        decreases hi - i,
    {
        assert(s[i as int] == v@[i as int]);
        i += 1;
    }
    proof {
        if i < hi {
            assert(s[i as int] == v@[i as int]);
        }
    }
    i
}

/// What a list of string pairs stands for.
pub open spec fn pairs_view(v: Seq<(String, String)>) -> Seq<(Seq<char>, Seq<char>)> {
    Seq::new(v.len(), |i: int| (v[i].0@, v[i].1@))
}

/// Appends the pair of `key` and `value` to `out`.
pub fn push_pair(out: &mut Vec<(String, String)>, key: &str, value: &str)
    ensures
        pairs_view(final(out)@) == pairs_view(old(out)@).push((key@, value@)),
{
    out.push((String::from_str(key), String::from_str(value)));
    assert(pairs_view(out@) =~= pairs_view(old(out)@).push((key@, value@)));
}

} // verus!
