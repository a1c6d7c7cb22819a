//! The timeline: metadata and timestamped lines folded from classified
//! lines, with the accessors derived from the metadata.

use crate::lrc::{models, parse, LineModel, LrcLine};
use crate::numeral::{read_signed, read_unsigned, signed_of, unsigned_of};
use crate::text::{chars_of, index_of, index_of_char};
use std::collections::HashMap;
use vstd::prelude::*;
use vstd::string::StringExecFns;

verus! {

broadcast use vstd::std_specs::hash::group_hash_axioms;

/// A parsed timed-lyrics text.
///
/// `metadata` holds each key once, in the order of first appearance;
/// `lines` maps a timestamp in milliseconds to the text of its line and
/// always has an entry at 0; `errors` counts the invalid source lines.
#[derive(Debug, Clone, PartialEq, Eq)]
pub struct LrcFile {
    pub metadata: Vec<(String, String)>,
    pub lines: HashMap<u64, String>,
    pub errors: usize,
}

/// The mapping that a list of key-value entries stands for: a later entry
/// overwrites an earlier one with the same key.
pub open spec fn entries_map(ps: Seq<(String, String)>) -> Map<Seq<char>, Seq<char>>
    decreases ps.len(),
{
    if ps.len() == 0 {
        Map::empty()
    } else {
        entries_map(ps.drop_last()).insert(ps.last().0@, ps.last().1@)
    }
}

/// No key stands twice in `ps`.
pub open spec fn unique_keys(ps: Seq<(String, String)>) -> bool {
    forall|i: int, j: int| 0 <= i < j < ps.len() ==> (#[trigger] ps[i]).0@ != (#[trigger] ps[j]).0@
}

/// The metadata that folding `ls` gives: each metadata line upserts its
/// key, in order.
pub open spec fn folded_metadata(ls: Seq<LineModel>) -> Map<Seq<char>, Seq<char>>
    decreases ls.len(),
{
    if ls.len() == 0 {
        Map::empty()
    } else {
        let m = folded_metadata(ls.drop_last());
        match ls.last() {
            LineModel::Metadata { key, value } => m.insert(key, value),
            _ => m,
        }
    }
}

/// The lines that folding `ls` gives: the empty line at 0 first, then each
/// lyric line upserts its timestamp, in order.
pub open spec fn folded_lines(ls: Seq<LineModel>) -> Map<u64, Seq<char>>
    decreases ls.len(),
{
    if ls.len() == 0 {
        Map::empty().insert(0u64, Seq::<char>::empty())
    } else {
        let m = folded_lines(ls.drop_last());
        match ls.last() {
            LineModel::Lyric { timestamp, line } => m.insert(timestamp, line),
            _ => m,
        }
    }
}

/// How many lines of `ls` are invalid.
pub open spec fn invalid_count(ls: Seq<LineModel>) -> nat
    decreases ls.len(),
{
    if ls.len() == 0 {
        0
    } else {
        invalid_count(ls.drop_last()) + if ls.last() is Invalid {
            1nat
        } else {
            0nat
        }
    }
}

/// Every folded timeline has a line at timestamp 0, and that line is empty
/// unless a lyric line of the source stands at 0 itself. In particular the
/// timeline of no lines at all holds exactly the empty line at 0.
pub proof fn lemma_seed_line(ls: Seq<LineModel>)
    ensures
        folded_lines(ls).contains_key(0),
        (forall|i: int| 0 <= i < ls.len() && ls[i] is Lyric ==> ls[i]->timestamp != 0)
            ==> folded_lines(ls)[0] == Seq::<char>::empty(),
        ls.len() == 0 ==> folded_lines(ls) == Map::<u64, Seq<char>>::empty().insert(
            0u64,
            Seq::<char>::empty(),
        ),
    decreases ls.len(),
{
    if ls.len() > 0 {
        let t = ls.drop_last();
        lemma_seed_line(t);
        if forall|i: int| 0 <= i < ls.len() && ls[i] is Lyric ==> ls[i]->timestamp != 0 {
            assert forall|i: int| 0 <= i < t.len() && t[i] is Lyric implies t[i]->timestamp
                != 0 by {
                assert(t[i] == ls[i]);
            }
            assert(ls.last() == ls[ls.len() - 1]);
        }
    }
}

proof fn lemma_invalid_count_bound(ls: Seq<LineModel>)
    ensures
        invalid_count(ls) <= ls.len(),
    decreases ls.len(),
{
    if ls.len() > 0 {
        lemma_invalid_count_bound(ls.drop_last());
    }
}

/// The last entry with key `k` decides what the map holds at `k`.
pub(crate) proof fn lemma_entries_lookup(ps: Seq<(String, String)>, k: Seq<char>, i: int)
    requires
        0 <= i < ps.len(),
        ps[i].0@ == k,
        forall|j: int| i < j < ps.len() ==> (#[trigger] ps[j]).0@ != k,
    ensures
        entries_map(ps).contains_key(k),
        entries_map(ps)[k] == ps[i].1@,
    decreases ps.len(),
{
    if i < ps.len() - 1 {
        let t = ps.drop_last();
        assert(t[i] == ps[i]);
        assert forall|j: int| i < j < t.len() implies (#[trigger] t[j]).0@ != k by {
            assert(t[j] == ps[j]);
        }
        lemma_entries_lookup(t, k, i);
        assert(ps[ps.len() - 1].0@ != k);
    }
}

/// A key that no entry has is not in the map.
pub(crate) proof fn lemma_entries_absent(ps: Seq<(String, String)>, k: Seq<char>)
    requires
        forall|j: int| 0 <= j < ps.len() ==> (#[trigger] ps[j]).0@ != k,
    ensures
        !entries_map(ps).contains_key(k),
    decreases ps.len(),
{
    if ps.len() > 0 {
        let t = ps.drop_last();
        assert forall|j: int| 0 <= j < t.len() implies (#[trigger] t[j]).0@ != k by {
            assert(t[j] == ps[j]);
        }
        lemma_entries_absent(t, k);
        assert(ps[ps.len() - 1].0@ != k);
    }
}

/// Replacing the value of the last entry with key `k` is an upsert at `k`.
proof fn lemma_entries_update(ps: Seq<(String, String)>, i: int, e: (String, String))
    requires
        0 <= i < ps.len(),
        ps[i].0@ == e.0@,
        forall|j: int| i < j < ps.len() ==> (#[trigger] ps[j]).0@ != e.0@,
    ensures
        entries_map(ps.update(i, e)) == entries_map(ps).insert(e.0@, e.1@),
    decreases ps.len(),
{
    let qs = ps.update(i, e);
    let t = ps.drop_last();
    if i < ps.len() - 1 {
        assert(t[i] == ps[i]);
        assert forall|j: int| i < j < t.len() implies (#[trigger] t[j]).0@ != e.0@ by {
            assert(t[j] == ps[j]);
        }
        lemma_entries_update(t, i, e);
        assert(qs.drop_last() =~= t.update(i, e));
        assert(qs.last() == ps.last());
        assert(ps[ps.len() - 1].0@ != e.0@);
        assert(entries_map(qs) =~= entries_map(ps).insert(e.0@, e.1@));
    } else {
        assert(qs.drop_last() =~= t);
        assert(entries_map(qs) =~= entries_map(ps).insert(e.0@, e.1@));
    }
}

/// The index of the last entry whose key is `key`.
fn position(entries: &Vec<(String, String)>, key: &String) -> (r: Option<usize>)
    ensures
        match r {
            Some(i) => i < entries.len() && entries@[i as int].0@ == key@ && forall|j: int|
                i < j < entries.len() ==> (#[trigger] entries@[j]).0@ != key@,
            None => forall|j: int| 0 <= j < entries.len() ==> (#[trigger] entries@[j]).0@ != key@,
        },
{
    let mut i: usize = entries.len();
    while i > 0
        invariant
            i <= entries.len(),
            forall|j: int| i <= j < entries.len() ==> (#[trigger] entries@[j]).0@ != key@,
        decreases i,
    {
        i -= 1;
        if entries[i].0 == *key {
            return Some(i);
        }
    }
    None
}

/// Sets `key` to `value`, keeping each key once.
fn upsert(entries: &mut Vec<(String, String)>, key: String, value: String)
    requires
        unique_keys(old(entries)@),
    ensures
        unique_keys(final(entries)@),
        entries_map(final(entries)@) == entries_map(old(entries)@).insert(key@, value@),
{
    match position(entries, &key) {
        Some(i) => {
            proof {
                lemma_entries_update(entries@, i as int, (key, value));
            }
            let ghost before = entries@;
            entries.set(i, (key, value));
            assert forall|a: int, b: int| 0 <= a < b < entries@.len() implies (
            #[trigger] entries@[a]).0@ != (#[trigger] entries@[b]).0@ by {
                assert(entries@[a].0@ == before[a].0@);
                assert(entries@[b].0@ == before[b].0@);
            }
        },
        None => {
            let ghost before = entries@;
            entries.push((key, value));
            assert(entries@.drop_last() =~= before);
            assert forall|a: int, b: int| 0 <= a < b < entries@.len() implies (
            #[trigger] entries@[a]).0@ != (#[trigger] entries@[b]).0@ by {
                if b < before.len() {
                    assert(entries@[a] == before[a]);
                    assert(entries@[b] == before[b]);
                } else {
                    assert(entries@[a] == before[a]);
                }
            }
        },
    }
}

/// Folds classified lines into a timeline.
///
/// The empty line at timestamp 0 is set first. Then, in order, a metadata
/// line sets its key, a lyric line sets its timestamp (a later one
/// overwrites an earlier one, the seed at 0 included), and an invalid line
/// is counted.
pub fn to_lrc_file(lines: Vec<LrcLine>) -> (r: LrcFile)
    ensures
        r.wf(),
        r.metadata_map() == folded_metadata(models(lines@)),
        r.lines_map() == folded_lines(models(lines@)),
        r.errors == invalid_count(models(lines@)),
        lines@.len() == 0 ==> r.lines_map() == Map::<u64, Seq<char>>::empty().insert(
            0u64,
            Seq::<char>::empty(),
        ),
{
    let mut metadata: Vec<(String, String)> = Vec::new();
    let mut lyric_lines: HashMap<u64, String> = HashMap::new();
    let mut errors: usize = 0;
    lyric_lines.insert(0, String::new());
    let ghost all = models(lines@);
    let n = lines.len();
    let mut i: usize = 0;
    proof {
        assert(all.take(0) =~= Seq::<LineModel>::empty());
        assert(lines_model(lyric_lines@) =~= folded_lines(all.take(0)));
        assert(entries_map(metadata@) =~= folded_metadata(all.take(0)));
    }
    while i < n
        invariant
            i <= n,
            n == lines.len(),
            all == models(lines@),
            unique_keys(metadata@),
            entries_map(metadata@) == folded_metadata(all.take(i as int)),
            lines_model(lyric_lines@) == folded_lines(all.take(i as int)),
            errors == invalid_count(all.take(i as int)),
        decreases n - i,
    {
        proof {
            assert(all.take(i + 1).drop_last() =~= all.take(i as int));
            assert(all.take(i + 1).last() == lines@[i as int]@);
            lemma_invalid_count_bound(all.take(i as int));
        }
        match &lines[i] {
            LrcLine::Invalid => {
                errors += 1;
            },
            LrcLine::Metadata { key, value } => {
                upsert(&mut metadata, key.clone(), value.clone());
            },
            LrcLine::Lyric { timestamp, line } => {
                let ghost before = lyric_lines@;
                lyric_lines.insert(*timestamp, line.clone());
                assert(lines_model(lyric_lines@) =~= lines_model(before).insert(
                    *timestamp,
                    line@,
                ));
            },
        }
        i += 1;
    }
    proof {
        assert(all.take(n as int) =~= all);
        lemma_seed_line(all);
    }
    LrcFile { metadata, lines: lyric_lines, errors }
}

/// The mapping from timestamp to text that a table of lines stands for.
pub open spec fn lines_model(m: Map<u64, String>) -> Map<u64, Seq<char>> {
    Map::new(|k: u64| m.contains_key(k), |k: u64| m[k]@)
}

/// The track length written as `MM:SS`: exactly one colon between two
/// unsigned numerals, as whole seconds, where that fits in 64 bits.
pub open spec fn length_of(s: Seq<char>) -> Option<u64> {
    let c = index_of(s, ':', 0);
    if c < s.len() && index_of(s, ':', c + 1) == s.len() {
        match (unsigned_of(s.take(c)), unsigned_of(s.skip(c + 1))) {
            (Some(m), Some(sec)) => if m * 60 + sec <= u64::MAX {
                Some((m * 60 + sec) as u64)
            } else {
                None
            },
            _ => None,
        }
    } else {
        None
    }
}

/// How many `+` characters `s` begins with.
pub open spec fn lead_plus(s: Seq<char>) -> nat
    decreases s.len(),
{
    if s.len() > 0 && s[0] == '+' {
        1 + lead_plus(s.drop_first())
    } else {
        0
    }
}

/// The offset in signed milliseconds: leading `+` signs are dropped, the
/// rest is a signed numeral.
pub open spec fn offset_of(s: Seq<char>) -> Option<i64> {
    signed_of(s.skip(lead_plus(s) as int))
}

proof fn lemma_lead_plus_is(s: Seq<char>, k: int)
    requires
        0 <= k <= s.len(),
        forall|i: int| 0 <= i < k ==> #[trigger] s[i] == '+',
        k == s.len() || s[k] != '+',
    ensures
        lead_plus(s) == k,
    decreases s.len(),
{
    if k > 0 {
        let t = s.drop_first();
        assert forall|i: int| 0 <= i < k - 1 implies #[trigger] t[i] == '+' by {
            assert(t[i] == s[i + 1]);
        }
        lemma_lead_plus_is(t, k - 1);
    }
}

impl LrcFile {
    /// Each key stands once and the line at timestamp 0 is there.
    pub open spec fn wf(&self) -> bool {
        unique_keys(self.metadata@) && self.lines@.contains_key(0)
    }

    /// The metadata as a mapping from key to value.
    pub open spec fn metadata_map(&self) -> Map<Seq<char>, Seq<char>> {
        entries_map(self.metadata@)
    }

    /// The lines as a mapping from timestamp to text.
    pub open spec fn lines_map(&self) -> Map<u64, Seq<char>> {
        lines_model(self.lines@)
    }

    /// What an accessor for `key` returns: the value under `key`, if any.
    pub open spec fn meta(&self, key: Seq<char>) -> Option<Seq<char>> {
        if self.metadata_map().contains_key(key) {
            Some(self.metadata_map()[key])
        } else {
            None
        }
    }

    /// The value under `key`.
    pub fn get_meta(&self, key: &str) -> (r: Option<&String>)
        ensures
            match r {
                Some(v) => self.meta(key@) == Some(v@),
                None => self.meta(key@) is None,
            },
    {
        let wanted = String::from_str(key);
        match position(&self.metadata, &wanted) {
            Some(i) => {
                proof {
                    lemma_entries_lookup(self.metadata@, key@, i as int);
                }
                Some(&self.metadata[i].1)
            },
            None => {
                proof {
                    lemma_entries_absent(self.metadata@, key@);
                }
                None
            },
        }
    }

    /// The title, under `ti`.
    pub fn title(&self) -> (r: Option<&String>)
        ensures
            match r {
                Some(v) => self.meta("ti"@) == Some(v@),
                None => self.meta("ti"@) is None,
            },
    {
        self.get_meta("ti")
    }

    /// The artist, under `ar`.
    pub fn artist(&self) -> (r: Option<&String>)
        ensures
            match r {
                Some(v) => self.meta("ar"@) == Some(v@),
                None => self.meta("ar"@) is None,
            },
    {
        self.get_meta("ar")
    }

    /// The album, under `al`.
    pub fn album(&self) -> (r: Option<&String>)
        ensures
            match r {
                Some(v) => self.meta("al"@) == Some(v@),
                None => self.meta("al"@) is None,
            },
    {
        self.get_meta("al")
    }

    /// The author, under `au`.
    pub fn author(&self) -> (r: Option<&String>)
        ensures
            match r {
                Some(v) => self.meta("au"@) == Some(v@),
                None => self.meta("au"@) is None,
            },
    {
        self.get_meta("au")
    }

    /// The author of the file, under `by`.
    pub fn file_author(&self) -> (r: Option<&String>)
        ensures
            match r {
                Some(v) => self.meta("by"@) == Some(v@),
                None => self.meta("by"@) is None,
            },
    {
        self.get_meta("by")
    }

    /// The tool that made the file: under `re`, and under `tool` where `re`
    /// is absent.
    pub fn tool(&self) -> (r: Option<&String>)
        ensures
            match r {
                Some(v) => Some(v@) == if self.meta("re"@) is Some {
                    self.meta("re"@)
                } else {
                    self.meta("tool"@)
                },
                None => self.meta("re"@) is None && self.meta("tool"@) is None,
            },
    {
        match self.get_meta("re") {
            Some(v) => Some(v),
            None => self.get_meta("tool"),
        }
    }

    /// The version, under `ve`.
    pub fn version(&self) -> (r: Option<&String>)
        ensures
            match r {
                Some(v) => self.meta("ve"@) == Some(v@),
                None => self.meta("ve"@) is None,
            },
    {
        self.get_meta("ve")
    }

    /// The total duration in whole seconds, read from `length`.
    pub fn duration(&self) -> (r: Option<u64>)
        ensures
            r == match self.meta("length"@) {
                Some(s) => length_of(s),
                None => None,
            },
    {
        match self.get_meta("length") {
            None => None,
            Some(s) => {
                let v = chars_of(s.as_str());
                let n = v.len();
                assert(v@.take(n as int) =~= v@);
                let c = index_of_char(&v, n, ':', 0);
                if c >= n {
                    return None;
                }
                let d = index_of_char(&v, n, ':', c + 1);
                if d < n {
                    return None;
                }
                assert(v@.subrange(0, c as int) =~= v@.take(c as int));
                assert(v@.subrange(c + 1, n as int) =~= v@.skip(c + 1));
                let minutes = read_unsigned(&v, 0, c);
                let seconds = read_unsigned(&v, c + 1, n);
                match (minutes, seconds) {
                    (Some(m), Some(sec)) => {
                        if m > (u64::MAX - sec) / 60 {
                            None
                        } else {
                            Some(m * 60 + sec)
                        }
                    },
                    _ => None,
                }
            },
        }
    }

    /// The offset in signed milliseconds, read from `offset`.
    pub fn offset(&self) -> (r: Option<i64>)
        ensures
            r == match self.meta("offset"@) {
                Some(s) => offset_of(s),
                None => None,
            },
    {
        match self.get_meta("offset") {
            None => None,
            Some(s) => {
                let v = chars_of(s.as_str());
                let n = v.len();
                let mut k: usize = 0;
                while k < n && v[k] == '+'
                    invariant
                        k <= n,
                        n == v.len(),
                        forall|i: int| 0 <= i < k ==> #[trigger] v@[i] == '+',
                    decreases n - k,
                {
                    k += 1;
                }
                proof {
                    lemma_lead_plus_is(v@, k as int);
                    assert(v@.subrange(k as int, n as int) =~= v@.skip(k as int));
                }
                read_signed(&v, k, n)
            },
        }
    }
}

/// Lyrics as a provider returned them: the text, and whether it is in the
/// timed format.
#[derive(Debug, Clone, PartialEq, Eq)]
pub struct Lyrics {
    pub text: String,
    pub synced: bool,
}

impl Lyrics {
    /// The timeline of synced lyrics: nothing for plain lyrics and for a
    /// text without a usable line.
    pub fn as_lrc(&self) -> (r: Option<LrcFile>)
        ensures
            match r {
                Some(f) => self.synced && f.wf() && match crate::lrc::parsed(self.text@) {
                    Some(ls) => f.metadata_map() == folded_metadata(ls) && f.lines_map()
                        == folded_lines(ls) && f.errors == invalid_count(ls),
                    None => false,
                },
                None => !self.synced || crate::lrc::parsed(self.text@) is None,
            },
    {
        if !self.synced {
            return None;
        }
        match parse(self.text.as_str()) {
            Some(lines) => Some(to_lrc_file(lines)),
            None => None,
        }
    }
}

} // verus!
