//! The metadata-search provider: which of the tracks that it returns is
//! the best match for a query.

use crate::lrc::{parse, parsed};
use crate::text::pairs_view;
use crate::timeline::{
    folded_lines, folded_metadata, invalid_count, to_lrc_file, LrcFile, Lyrics,
};
use vstd::prelude::*;
use vstd::string::StrSliceExecFns;
use vstd::string::StringExecFns;

verus! {

/// A track as the provider describes it.
#[derive(Debug, Clone)]
pub struct Track {
    pub id: i64,
    pub track_name: String,
    pub artist_name: String,
    /// Whole seconds.
    pub duration: u64,
    pub plain_lyrics: Option<String>,
    pub synced_lyrics: Option<String>,
}

/// Which tracks take part in a ranking.
#[derive(Debug, Clone, Copy, PartialEq, Eq, Structural)]
pub enum Flavor {
    /// Every track.
    Any,
    /// The tracks with plain lyrics.
    Plain,
    /// The tracks with synced lyrics.
    Synced,
}

/// The flavor that a caller asks for with its `synced` flag.
pub open spec fn flavor_of(synced: bool) -> Flavor {
    if synced {
        Flavor::Synced
    } else {
        Flavor::Plain
    }
}

/// `t` has the lyrics that `flavor` asks for.
pub open spec fn eligible(t: Track, flavor: Flavor) -> bool {
    match flavor {
        Flavor::Any => true,
        Flavor::Plain => t.plain_lyrics is Some,
        Flavor::Synced => t.synced_lyrics is Some,
    }
}

/// How far the length of a track's name is from `title_len`, both counted
/// in characters.
pub open spec fn title_gap(t: Track, title_len: nat) -> nat {
    if t.track_name@.len() >= title_len {
        (t.track_name@.len() - title_len) as nat
    } else {
        (title_len - t.track_name@.len()) as nat
    }
}

/// `t` takes part and lasts exactly `secs` seconds.
pub open spec fn exact(t: Track, flavor: Flavor, secs: u64) -> bool {
    eligible(t, flavor) && t.duration == secs
}

/// `i` is the place of the best match among `tracks`: the first eligible
/// track that lasts exactly `secs` seconds, or, where there is no such
/// track, the first of the eligible tracks whose name is closest in length
/// to the title.
pub open spec fn is_best(tracks: Seq<Track>, flavor: Flavor, title_len: nat, secs: u64, i: int)
    -> bool {
    &&& 0 <= i < tracks.len()
    &&& eligible(tracks[i], flavor)
    &&& if exists|j: int| 0 <= j < tracks.len() && exact(#[trigger] tracks[j], flavor, secs) {
        &&& tracks[i].duration == secs
        &&& forall|j: int| 0 <= j < i ==> !exact(#[trigger] tracks[j], flavor, secs)
    } else {
        &&& forall|j: int|
            0 <= j < tracks.len() && eligible(#[trigger] tracks[j], flavor) ==> title_gap(
                tracks[i],
                title_len,
            ) <= title_gap(tracks[j], title_len)
        &&& forall|j: int|
            0 <= j < i && eligible(#[trigger] tracks[j], flavor) ==> title_gap(
                tracks[i],
                title_len,
            ) < title_gap(tracks[j], title_len)
    }
}

/// A track of exactly the target duration always wins: where any eligible
/// track lasts exactly `secs` seconds, the best match lasts exactly `secs`
/// seconds too and stands at or before it, however close another name is
/// to the title.
pub proof fn lemma_exact_duration_wins(
    tracks: Seq<Track>,
    flavor: Flavor,
    title_len: nat,
    secs: u64,
    best: int,
    j: int,
)
    requires
        is_best(tracks, flavor, title_len, secs, best),
        0 <= j < tracks.len(),
        exact(tracks[j], flavor, secs),
    ensures
        tracks[best].duration == secs,
        best <= j,
{
}

/// The best match is one place: two places that are both best are the same.
pub proof fn lemma_best_is_unique(
    tracks: Seq<Track>,
    flavor: Flavor,
    title_len: nat,
    secs: u64,
    a: int,
    b: int,
)
    requires
        is_best(tracks, flavor, title_len, secs, a),
        is_best(tracks, flavor, title_len, secs, b),
    ensures
        a == b,
{
    if a < b {
        assert(eligible(tracks[a], flavor));
    } else if b < a {
        assert(eligible(tracks[b], flavor));
    }
}

fn takes_part(t: &Track, flavor: Flavor) -> (r: bool)
    ensures
        r == eligible(*t, flavor),
{
    match flavor {
        Flavor::Any => true,
        Flavor::Plain => t.plain_lyrics.is_some(),
        Flavor::Synced => t.synced_lyrics.is_some(),
    }
}

fn gap_of(t: &Track, title_len: usize) -> (r: usize)
    ensures
        r == title_gap(*t, title_len as nat),
{
    let n = t.track_name.as_str().unicode_len();
    if n >= title_len {
        n - title_len
    } else {
        title_len - n
    }
}

/// The place of the best match for a title of `title_len` characters and
/// a target of `secs` seconds, among the tracks that `flavor` lets in.
pub fn best_index(tracks: &Vec<Track>, flavor: Flavor, title_len: usize, secs: u64) -> (r: Option<
    usize,
>)
    ensures
        match r {
            Some(i) => is_best(tracks@, flavor, title_len as nat, secs, i as int),
            None => forall|j: int| 0 <= j < tracks.len() ==> !eligible(#[trigger] tracks@[j], flavor),
        },
{
    let n = tracks.len();
    let mut i: usize = 0;
    while i < n
        invariant
            i <= n,
            n == tracks.len(),
            forall|j: int| 0 <= j < i ==> !exact(#[trigger] tracks@[j], flavor, secs),
        decreases n - i,
    {
        if takes_part(&tracks[i], flavor) && tracks[i].duration == secs {
            assert(exact(tracks@[i as int], flavor, secs));
            return Some(i);
        }
        i += 1;
    }
    let mut best: Option<usize> = None;
    let mut best_gap: usize = 0;
    let mut k: usize = 0;
    while k < n
        invariant
            k <= n,
            n == tracks.len(),
            forall|j: int| 0 <= j < n ==> !exact(#[trigger] tracks@[j], flavor, secs),
            match best {
                Some(b) => {
                    &&& b < k
                    &&& eligible(tracks@[b as int], flavor)
                    &&& best_gap == title_gap(tracks@[b as int], title_len as nat)
                    &&& forall|j: int|
                        0 <= j < k && eligible(#[trigger] tracks@[j], flavor) ==> best_gap
                            <= title_gap(tracks@[j], title_len as nat)
                    &&& forall|j: int|
                        0 <= j < b && eligible(#[trigger] tracks@[j], flavor) ==> best_gap
                            < title_gap(tracks@[j], title_len as nat)
                },
                None => forall|j: int| 0 <= j < k ==> !eligible(#[trigger] tracks@[j], flavor),
            },
        decreases n - k,
    {
        if takes_part(&tracks[k], flavor) {
            let g = gap_of(&tracks[k], title_len);
            match best {
                Some(_) => {
                    if g < best_gap {
                        best = Some(k);
                        best_gap = g;
                    }
                },
                None => {
                    best = Some(k);
                    best_gap = g;
                },
            }
        }
        k += 1;
    }
    best
}

/// The best match for a title and a target duration in whole seconds,
/// among all the tracks.
pub fn best_matching_for<'a>(tracks: &'a Vec<Track>, title: &str, target_secs: u64) -> (r: Option<
    &'a Track,
>)
    ensures
        match r {
            Some(t) => exists|i: int|
                is_best(tracks@, Flavor::Any, title@.len(), target_secs, i) && *t == tracks@[i],
            None => tracks.len() == 0,
        },
{
    let title_len = title.unicode_len();
    match best_index(tracks, Flavor::Any, title_len, target_secs) {
        Some(i) => {
            assert(is_best(tracks@, Flavor::Any, title@.len(), target_secs, i as int));
            Some(&tracks[i])
        },
        None => {
            proof {
                if tracks.len() > 0 {
                    assert(eligible(tracks@[0], Flavor::Any));
                }
            }
            None
        },
    }
}

/// The lyrics of `t` in the flavor asked for.
pub open spec fn text_of(t: Track, synced: bool) -> Option<Seq<char>> {
    let text = if synced {
        t.synced_lyrics
    } else {
        t.plain_lyrics
    };
    match text {
        Some(s) => Some(s@),
        None => None,
    }
}

/// The best lyrics among the tracks that the provider returned for a
/// query: tracks without the flavor asked for are left out, the best match
/// for the title and the duration (in milliseconds, compared in whole
/// seconds) is chosen, and its text is handed out.
///
/// Nothing is returned exactly when no track has the flavor asked for.
pub fn best_lyrics(tracks: &Vec<Track>, title: &str, duration_ms: u64, synced: bool) -> (r: Option<
    Lyrics,
>)
    ensures
        match r {
            Some(l) => l.synced == synced && exists|i: int|
                is_best(tracks@, flavor_of(synced), title@.len(), (duration_ms / 1000) as u64, i)
                    && text_of(tracks@[i], synced) == Some(l.text@),
            None => forall|j: int|
                0 <= j < tracks.len() ==> !eligible(#[trigger] tracks@[j], flavor_of(synced)),
        },
{
    let flavor = if synced {
        Flavor::Synced
    } else {
        Flavor::Plain
    };
    let title_len = title.unicode_len();
    match best_index(tracks, flavor, title_len, duration_ms / 1000) {
        Some(i) => {
            let text = if synced {
                &tracks[i].synced_lyrics
            } else {
                &tracks[i].plain_lyrics
            };
            match text {
                Some(t) => {
                    assert(is_best(
                        tracks@,
                        flavor_of(synced),
                        title@.len(),
                        (duration_ms / 1000) as u64,
                        i as int,
                    ));
                    Some(Lyrics { text: t.clone(), synced })
                },
                None => None,
            }
        },
        None => None,
    }
}

/// The query parameters of a search, in the order sent.
pub open spec fn search_query(artist: Seq<char>, title: Seq<char>, album: Option<Seq<char>>) -> Seq<
    (Seq<char>, Seq<char>),
> {
    let base = seq![("track_name"@, title), ("artist_name"@, artist)];
    match album {
        Some(a) => base.push(("album_name"@, a)),
        None => base,
    }
}

/// Builds the query parameters of a search by track name, artist name
/// and, where given, album name.
pub fn search_params(artist: &str, title: &str, album: Option<&str>) -> (r: Vec<(String, String)>)
    ensures
        pairs_view(r@) == search_query(
            artist@,
            title@,
            match album {
                Some(a) => Some(a@),
                None => None,
            },
        ),
{
    let mut r: Vec<(String, String)> = Vec::new();
    r.push((String::from_str("track_name"), String::from_str(title)));
    r.push((String::from_str("artist_name"), String::from_str(artist)));
    match album {
        Some(a) => {
            r.push((String::from_str("album_name"), String::from_str(a)));
        },
        None => {},
    }
    assert(pairs_view(r@) =~= search_query(
        artist@,
        title@,
        match album {
            Some(a) => Some(a@),
            None => None,
        },
    ));
    r
}

impl Track {
    /// The timeline of the track's synced lyrics, where it has any with a
    /// usable line.
    pub fn lrc(&self) -> (r: Option<LrcFile>)
        ensures
            match r {
                Some(f) => match self.synced_lyrics {
                    Some(text) => match parsed(text@) {
                        Some(ls) => f.wf() && f.metadata_map() == folded_metadata(ls)
                            && f.lines_map() == folded_lines(ls) && f.errors == invalid_count(ls),
                        None => false,
                    },
                    None => false,
                },
                None => match self.synced_lyrics {
                    Some(text) => parsed(text@) is None,
                    None => true,
                },
            },
    {
        match &self.synced_lyrics {
            Some(text) => match parse(text.as_str()) {
                Some(lines) => Some(to_lrc_file(lines)),
                None => None,
            },
            None => None,
        }
    }
}

} // verus!
