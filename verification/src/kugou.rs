//! The hash-and-token provider: which request follows which reply, and
//! what becomes of the content that it hands out.
//!
//! Sending the requests is the caller's part. The decisions are here: one
//! [`Resolution`] per query, advanced by each reply.

use crate::header::{normalized, Lyrics};
use crate::keyword::{keyword, keyword_of};
use crate::numeral::{decimal_of, push_decimal, push_signed_decimal, signed_decimal_of};
use crate::text::{chars_of, pairs_view, push_pair, string_from};
use crate::web::{address_of, address_with};
use vstd::prelude::*;
use vstd::string::StringExecFns;
use vstd::string::StringSliceAdditionalSpecFns;
use vstd::utf8::{decode_utf8, encode_utf8, valid_utf8};

verus! {

/// Why a resolution failed.
#[derive(Debug)]
pub enum KuGouError {
    NotFound,
    NetworkError(String),
    ParsingError(String),
    Base64Error(String),
}

/// A song of the provider's catalogue.
#[derive(Debug)]
pub struct SongInfo {
    /// Whole seconds.
    pub duration: i64,
    pub hash: String,
}

/// A lyric resource that can be downloaded.
#[derive(Debug)]
pub struct Candidate {
    pub id: i64,
    pub access_key: String,
    /// Whole seconds.
    pub duration: i64,
}

/// `duration` lies in the closed window of `tolerance` seconds around
/// `target`.
pub open spec fn within(duration: i64, target: i64, tolerance: int) -> bool {
    target - tolerance <= duration <= target + tolerance
}

/// The widest tolerance that is tried, in seconds.
pub open spec fn max_tolerance() -> int {
    5
}

/// The first song to ask the provider about, from tolerance `tol` and
/// place `idx` on: the tolerances 0 to 5 are tried in rising order, and
/// under each the songs in the order of the list.
pub open spec fn next_probe(songs: Seq<SongInfo>, target: i64, tol: int, idx: int) -> Option<
    (int, int),
>
    decreases max_tolerance() + 1 - tol, songs.len() - idx,
{
    if tol < 0 || tol > max_tolerance() || idx < 0 {
        None
    } else if idx >= songs.len() {
        next_probe(songs, target, tol + 1, 0)
    } else if within(songs[idx].duration, target, tol) {
        Some((tol, idx))
    } else {
        next_probe(songs, target, tol, idx + 1)
    }
}

/// `(t1, i1)` comes before `(t2, i2)` in the order of the probes.
pub open spec fn probe_before(t1: int, i1: int, t2: int, i2: int) -> bool {
    t1 < t2 || (t1 == t2 && i1 < i2)
}

/// The probes are tried in rising order and none is passed over: what
/// [`next_probe`] gives is the first place at or after the start where a
/// song lies within the tolerance, and it gives nothing only where no
/// tolerance up to the widest has such a song.
pub proof fn lemma_probe_order(songs: Seq<SongInfo>, target: i64, tol: int, idx: int)
    requires
        0 <= tol <= max_tolerance(),
        0 <= idx <= songs.len(),
    ensures
        match next_probe(songs, target, tol, idx) {
            Some((t, i)) => {
                &&& tol <= t <= max_tolerance()
                &&& 0 <= i < songs.len()
                &&& !probe_before(t, i, tol, idx)
                &&& within(songs[i].duration, target, t)
                &&& forall|t2: int, i2: int|
                    0 <= i2 < songs.len() && !probe_before(t2, i2, tol, idx) && probe_before(
                        t2,
                        i2,
                        t,
                        i,
                    ) ==> !#[trigger] within(songs[i2].duration, target, t2)
            },
            None => forall|t2: int, i2: int|
                0 <= i2 < songs.len() && t2 <= max_tolerance() && !probe_before(t2, i2, tol, idx)
                    ==> !#[trigger] within(songs[i2].duration, target, t2),
        },
    decreases max_tolerance() + 1 - tol, songs.len() - idx,
{
    if idx >= songs.len() {
        if tol < max_tolerance() {
            lemma_probe_order(songs, target, tol + 1, 0);
        }
    } else if !within(songs[idx].duration, target, tol) {
        lemma_probe_order(songs, target, tol, idx + 1);
    }
}

/// A song whose duration is exactly the target is found under tolerance 0,
/// before any wider tolerance is tried: the first probe is the first such
/// song of the list.
pub proof fn lemma_exact_duration_first(songs: Seq<SongInfo>, target: i64, i: int)
    requires
        0 <= i < songs.len(),
        songs[i].duration == target,
        forall|j: int| 0 <= j < i ==> (#[trigger] songs[j]).duration != target,
    ensures
        next_probe(songs, target, 0, 0) == Some((0int, i)),
{
    lemma_probe_from(songs, target, i, 0);
}

proof fn lemma_probe_from(songs: Seq<SongInfo>, target: i64, i: int, k: int)
    requires
        0 <= k <= i < songs.len(),
        songs[i].duration == target,
        forall|j: int| 0 <= j < i ==> (#[trigger] songs[j]).duration != target,
    ensures
        next_probe(songs, target, 0, k) == Some((0int, i)),
    decreases i - k,
{
    if k < i {
        assert(songs[k].duration != target);
        lemma_probe_from(songs, target, i, k + 1);
    }
}

/// Finds the next probe from tolerance `tol` and place `idx` on.
pub fn find_probe(songs: &Vec<SongInfo>, target: i64, tol: u8, idx: usize) -> (r: Option<
    (u8, usize),
>)
    ensures
        match r {
            Some((t, i)) => next_probe(songs@, target, tol as int, idx as int) == Some(
                (t as int, i as int),
            ) && i < songs.len() && t <= 5,
            None => next_probe(songs@, target, tol as int, idx as int) is None,
        },
{
    let n = songs.len();
    let mut t: u8 = tol;
    let mut i: usize = idx;
    while t <= 5
        invariant
            n == songs.len(),
            next_probe(songs@, target, tol as int, idx as int) == next_probe(
                songs@,
                target,
                t as int,
                i as int,
            ),
        decreases 6 - t, n - i,
    {
        if i >= n {
            t = t + 1;
            i = 0;
        } else {
            let d: i128 = songs[i].duration as i128;
            let lo: i128 = target as i128 - t as i128;
            let hi: i128 = target as i128 + t as i128;
            if lo <= d && d <= hi {
                return Some((t, i));
            }
            i = i + 1;
        }
    }
    None
}

/// What is waited for.
#[derive(Debug, Clone, Copy, PartialEq, Eq, Structural)]
pub enum Stage {
    /// The songs that match the keyword.
    AwaitSongs,
    /// The candidates for the hash of the song at `index`, which lies
    /// within `tolerance` seconds of the target.
    AwaitHash { tolerance: u8, index: usize },
    /// The candidates for the keyword itself.
    AwaitKeyword,
    /// The content of the chosen candidate.
    AwaitContent,
    /// Nothing: the resolution has ended.
    Finished,
}

/// A request to the provider.
#[derive(Debug)]
pub enum Request {
    SearchSong { keyword: String },
    SearchByHash { hash: String },
    SearchByKeyword { keyword: String },
    Download { id: i64, access_key: String },
}

/// What a [`Request`] stands for.
pub enum RequestModel {
    SearchSong { keyword: Seq<char> },
    SearchByHash { hash: Seq<char> },
    SearchByKeyword { keyword: Seq<char> },
    Download { id: i64, access_key: Seq<char> },
}

impl View for Request {
    type V = RequestModel;

    open spec fn view(&self) -> RequestModel {
        match self {
            Request::SearchSong { keyword } => RequestModel::SearchSong { keyword: keyword@ },
            Request::SearchByHash { hash } => RequestModel::SearchByHash { hash: hash@ },
            Request::SearchByKeyword { keyword } => RequestModel::SearchByKeyword {
                keyword: keyword@,
            },
            Request::Download { id, access_key } => RequestModel::Download {
                id: *id,
                access_key: access_key@,
            },
        }
    }
}

/// The provider's answer to a request.
#[derive(Debug)]
pub enum Reply {
    Songs(Vec<SongInfo>),
    Candidates(Vec<Candidate>),
    Content(String),
}

/// What to do next.
#[derive(Debug)]
pub enum Step {
    Ask(Request),
    Found(Lyrics),
    NotFound,
    Failed(KuGouError),
}

/// One query on its way through the provider.
#[derive(Debug)]
pub struct Resolution {
    pub keyword: String,
    pub duration: u64,
    pub songs: Vec<SongInfo>,
    pub stage: Stage,
}

/// A decoding of standard padded base64, as the decoder of the `base64`
/// crate gives it: the bytes, or nothing where the text is rejected.
pub uninterp spec fn base64_decoded(content: Seq<char>) -> Option<Seq<u8>>;

/// `base64::DecodeError`, carried from the decoder to its message.
#[verifier::external_type_specification]
#[verifier::external_body]
pub struct ExDecodeError(base64::DecodeError);

/// `base64::decode`, which reads the standard alphabet with padding: the
/// decoded bytes, or the decoder's error where it rejects the text. It
/// sizes its buffers from the length of the text and gives up where that
/// overflows: a text beyond the longest that memory can hold is left out.
#[verifier::external_body]
fn base64_decode(content: &str) -> (r: Result<Vec<u8>, base64::DecodeError>)
    requires
        content.spec_bytes().len() <= isize::MAX,
    ensures
        match r {
            Ok(bytes) => base64_decoded(content@) == Some(bytes@),
            Err(_) => base64_decoded(content@) is None,
        },
{
    base64::decode(content)
}

/// The message of a `base64::DecodeError`, as its `Display` writes it.
#[verifier::external_body]
fn decode_error_text(e: &base64::DecodeError) -> String {
    e.to_string()
}

/// `std::string::FromUtf8Error`, carried from the conversion to its
/// message.
#[verifier::external_type_specification]
#[verifier::external_body]
pub struct ExFromUtf8Error(std::string::FromUtf8Error);

/// `String::from_utf8`: the text that the bytes encode, or its error where
/// they are no UTF-8.
#[verifier::external_body]
fn utf8_text(bytes: Vec<u8>) -> (r: Result<String, std::string::FromUtf8Error>)
    ensures
        match r {
            Ok(s) => valid_utf8(bytes@) && s@ == decode_utf8(bytes@),
            Err(_) => !valid_utf8(bytes@),
        },
{
    String::from_utf8(bytes)
}

/// The message of a `std::string::FromUtf8Error`, as its `Display` writes
/// it.
#[verifier::external_body]
fn utf8_error_text(e: &std::string::FromUtf8Error) -> String {
    e.to_string()
}

/// What the decoded bytes of a download become: the lyrics that they
/// encode, or a parsing error where they are no UTF-8.
pub fn lyrics_from_bytes(bytes: Vec<u8>) -> (r: Result<Lyrics, KuGouError>)
    ensures
        match r {
            Ok(l) => valid_utf8(bytes@) && l.0@ == decode_utf8(bytes@),
            Err(e) => !valid_utf8(bytes@) && e is ParsingError,
        },
{
    match utf8_text(bytes) {
        Ok(s) => Ok(Lyrics(s)),
        Err(e) => Err(KuGouError::ParsingError(utf8_error_text(&e))),
    }
}

/// What a download's content stands for, before normalizing.
pub open spec fn content_text(content: Seq<char>) -> Option<Seq<char>> {
    match base64_decoded(content) {
        Some(bytes) => if valid_utf8(bytes) {
            Some(decode_utf8(bytes))
        } else {
            None
        },
        None => None,
    }
}

/// Decodes the content of a download: base64, then UTF-8. Content that is
/// no base64 gives a base64 error, bytes that are no UTF-8 a parsing error.
pub fn decode_content(content: &str) -> (r: Result<Lyrics, KuGouError>)
    requires
        content.spec_bytes().len() <= isize::MAX,
    ensures
        match r {
            Ok(l) => content_text(content@) == Some(l.0@),
            Err(e) => content_text(content@) is None && (e is Base64Error <==> base64_decoded(
                content@,
            ) is None) && (e is ParsingError <==> base64_decoded(content@) is Some),
        },
{
    match base64_decode(content) {
        Ok(bytes) => lyrics_from_bytes(bytes),
        Err(e) => Err(KuGouError::Base64Error(decode_error_text(&e))),
    }
}

/// Where a request is sent.
pub open spec fn endpoint_of(q: RequestModel) -> Seq<char> {
    match q {
        RequestModel::SearchSong { .. } => "https://mobileservice.kugou.com/api/v3/search/song"@,
        RequestModel::SearchByHash { .. } => "https://krcs.kugou.com/search"@,
        RequestModel::SearchByKeyword { .. } => "https://krcs.kugou.com/search"@,
        RequestModel::Download { .. } => "https://krcs.kugou.com/download"@,
    }
}

/// The query parameters of a request, in the order sent.
pub open spec fn params_of(q: RequestModel) -> Seq<(Seq<char>, Seq<char>)> {
    match q {
        RequestModel::SearchSong { keyword } => seq![
            ("version"@, "9108"@),
            ("plat"@, "0"@),
            ("pagesize"@, "8"@),
            ("showtype"@, "0"@),
            ("keyword"@, keyword),
        ],
        RequestModel::SearchByHash { hash } => seq![
            ("ver"@, "1"@),
            ("man"@, "yes"@),
            ("client"@, "mobi"@),
            ("hash"@, hash),
        ],
        RequestModel::SearchByKeyword { keyword } => seq![
            ("ver"@, "1"@),
            ("man"@, "yes"@),
            ("client"@, "mobi"@),
            ("keyword"@, keyword),
        ],
        RequestModel::Download { id, access_key } => seq![
            ("ver"@, "1"@),
            ("man"@, "yes"@),
            ("client"@, "pc"@),
            ("fmt"@, "lrc"@),
            ("id"@, signed_decimal_of(id as int)),
            ("accesskey"@, access_key),
        ],
    }
}

impl Request {
    /// Where the request is sent.
    pub fn endpoint(&self) -> (r: &'static str)
        ensures
            r@ == endpoint_of(self@),
    {
        match self {
            Request::SearchSong { .. } => "https://mobileservice.kugou.com/api/v3/search/song",
            Request::SearchByHash { .. } => "https://krcs.kugou.com/search",
            Request::SearchByKeyword { .. } => "https://krcs.kugou.com/search",
            Request::Download { .. } => "https://krcs.kugou.com/download",
        }
    }

    /// The query parameters of the request, in the order sent.
    pub fn params(&self) -> (r: Vec<(String, String)>)
        ensures
            pairs_view(r@) == params_of(self@),
    {
        let mut out: Vec<(String, String)> = Vec::new();
        match self {
            Request::SearchSong { keyword } => {
                push_pair(&mut out, "version", "9108");
                push_pair(&mut out, "plat", "0");
                push_pair(&mut out, "pagesize", "8");
                push_pair(&mut out, "showtype", "0");
                push_pair(&mut out, "keyword", keyword.as_str());
            },
            Request::SearchByHash { hash } => {
                push_pair(&mut out, "ver", "1");
                push_pair(&mut out, "man", "yes");
                push_pair(&mut out, "client", "mobi");
                push_pair(&mut out, "hash", hash.as_str());
            },
            Request::SearchByKeyword { keyword } => {
                push_pair(&mut out, "ver", "1");
                push_pair(&mut out, "man", "yes");
                push_pair(&mut out, "client", "mobi");
                push_pair(&mut out, "keyword", keyword.as_str());
            },
            Request::Download { id, access_key } => {
                let mut digits: Vec<char> = Vec::new();
                push_signed_decimal(&mut digits, *id);
                let id_text = string_from(&digits);
                assert(id_text@ =~= signed_decimal_of(*id as int));
                push_pair(&mut out, "ver", "1");
                push_pair(&mut out, "man", "yes");
                push_pair(&mut out, "client", "pc");
                push_pair(&mut out, "fmt", "lrc");
                push_pair(&mut out, "id", id_text.as_str());
                push_pair(&mut out, "accesskey", access_key.as_str());
            },
        }
        assert(pairs_view(out@) =~= params_of(self@));
        out
    }

    /// The address of the request, with its query parameters encoded by
    /// the `url` crate.
    pub fn url(&self) -> (r: Option<String>)
        ensures
            match r {
                Some(s) => address_of(endpoint_of(self@), params_of(self@)) == Some(s@),
                None => address_of(endpoint_of(self@), params_of(self@)) is None,
            },
    {
        let params = self.params();
        address_with(self.endpoint(), &params)
    }
}

/// The message for a duration beyond the signed range.
pub open spec fn too_large_message(duration: u64) -> Seq<char> {
    "Duration value is too large: "@ + decimal_of(duration as nat)
}

fn too_large(duration: u64) -> (r: KuGouError)
    ensures
        r matches KuGouError::ParsingError(m) && m@ == too_large_message(duration),
{
    let mut text = chars_of("Duration value is too large: ");
    push_decimal(&mut text, duration);
    KuGouError::ParsingError(string_from(&text))
}

/// What the caller of the whole resolution gets: the text, or the error,
/// where finding nothing counts as the error `NotFound`.
pub fn lyrics_result(found: Result<Option<Lyrics>, KuGouError>) -> (r: Result<String, KuGouError>)
    ensures
        match found {
            Ok(Some(l)) => r == Ok::<String, KuGouError>(l.0),
            Ok(None) => r == Err::<String, KuGouError>(KuGouError::NotFound),
            Err(e) => r == Err::<String, KuGouError>(e),
        },
{
    match found {
        Ok(Some(l)) => Ok(l.0),
        Ok(None) => Err(KuGouError::NotFound),
        Err(e) => Err(e),
    }
}

impl Resolution {
    /// The target duration in whole seconds.
    pub open spec fn target(&self) -> i64 {
        self.duration as i64
    }

    /// After a probe: the hash of the song found is asked for, or, where
    /// no song is left, the keyword itself.
    pub open spec fn probing(&self, probe: Option<(int, int)>, step: Step) -> bool {
        match probe {
            Some((t, i)) => {
                &&& self.stage == Stage::AwaitHash { tolerance: t as u8, index: i as usize }
                &&& step matches Step::Ask(q) && q@ == (RequestModel::SearchByHash {
                    hash: self.songs@[i].hash@,
                })
            },
            None => {
                &&& self.stage == Stage::AwaitKeyword
                &&& step matches Step::Ask(q) && q@ == (RequestModel::SearchByKeyword {
                    keyword: self.keyword@,
                })
            },
        }
    }

    /// The first candidate is downloaded.
    pub open spec fn choosing(&self, candidates: Seq<Candidate>, step: Step) -> bool {
        &&& self.stage == Stage::AwaitContent
        &&& step matches Step::Ask(q) && q@ == (RequestModel::Download {
            id: candidates[0].id,
            access_key: candidates[0].access_key@,
        })
    }

    /// The end of the resolution on the content of the download: the
    /// normalized lyrics, a base64 error where the content is no base64
    /// (or too long to decode), a parsing error where the bytes are no
    /// UTF-8.
    pub open spec fn concluding(content: Seq<char>, step: Step) -> bool {
        if encode_utf8(content).len() > isize::MAX {
            step matches Step::Failed(e) && e is Base64Error
        } else {
            match content_text(content) {
                Some(t) => step matches Step::Found(l) && l.0@ == normalized(t),
                None => step matches Step::Failed(e) && (e is Base64Error <==> base64_decoded(
                    content,
                ) is None) && (e is ParsingError <==> base64_decoded(content) is Some),
            }
        }
    }

    /// The resolution ends with a parsing error whose message is
    /// `message`.
    pub open spec fn refusing(step: Step, message: Seq<char>) -> bool {
        step matches Step::Failed(e) && (e matches KuGouError::ParsingError(m) && m@ == message)
    }

    /// Starts the resolution of a query: the keyword is built and the
    /// songs that match it are asked for.
    pub fn begin(artist: &str, title: &str, duration: u64) -> (r: (Resolution, Request))
        ensures
            r.0.keyword@ == keyword_of(artist@, title@),
            r.0.duration == duration,
            r.0.songs@.len() == 0,
            r.0.stage == Stage::AwaitSongs,
            r.1@ == (RequestModel::SearchSong { keyword: keyword_of(artist@, title@) }),
    {
        let word = keyword(artist, title);
        let ask = Request::SearchSong { keyword: word.clone() };
        (Resolution { keyword: word, duration, songs: Vec::new(), stage: Stage::AwaitSongs }, ask)
    }

    fn probe(&mut self, tol: u8, idx: usize) -> (step: Step)
        requires
            old(self).duration <= i64::MAX,
        ensures
            final(self).keyword == old(self).keyword,
            final(self).duration == old(self).duration,
            final(self).songs == old(self).songs,
            final(self).probing(
                next_probe(old(self).songs@, old(self).target(), tol as int, idx as int),
                step,
            ),
    {
        match find_probe(&self.songs, self.duration as i64, tol, idx) {
            Some((t, i)) => {
                self.stage = Stage::AwaitHash { tolerance: t, index: i };
                Step::Ask(Request::SearchByHash { hash: self.songs[i].hash.clone() })
            },
            None => {
                self.stage = Stage::AwaitKeyword;
                Step::Ask(Request::SearchByKeyword { keyword: self.keyword.clone() })
            },
        }
    }

    fn choose_first(&mut self, candidates: &Vec<Candidate>) -> (step: Step)
        requires
            candidates.len() > 0,
        ensures
            final(self).keyword == old(self).keyword,
            final(self).duration == old(self).duration,
            final(self).songs == old(self).songs,
            final(self).choosing(candidates@, step),
    {
        self.stage = Stage::AwaitContent;
        Step::Ask(
            Request::Download {
                id: candidates[0].id,
                access_key: candidates[0].access_key.clone(),
            },
        )
    }

    /// Takes the failure of the last request: whatever the stage, the
    /// resolution ends with that error, and no further request is asked
    /// for.
    pub fn fail(&mut self, e: KuGouError) -> (step: Step)
        ensures
            final(self).stage == Stage::Finished,
            final(self).keyword == old(self).keyword,
            final(self).duration == old(self).duration,
            final(self).songs == old(self).songs,
            step == Step::Failed(e),
    {
        self.stage = Stage::Finished;
        Step::Failed(e)
    }

    /// Takes the reply to the last request and says what to do next.
    ///
    /// - The songs: a duration beyond the signed range ends with a parsing
    ///   error; else the first probe is made.
    /// - The candidates for a hash: the first one is downloaded; where
    ///   there is none, the next probe is made.
    /// - The candidates for the keyword: the first one is downloaded;
    ///   where there is none, nothing was found.
    /// - The content: it is decoded and normalized.
    /// - A reply that does not answer the request ends with a parsing
    ///   error.
    pub fn advance(&mut self, reply: Reply) -> (step: Step)
        ensures
            final(self).keyword@ == old(self).keyword@,
            final(self).duration == old(self).duration,
            match (old(self).stage, reply) {
                (Stage::AwaitSongs, Reply::Songs(list)) => if old(self).duration > i64::MAX {
                    final(self).stage == Stage::Finished && Self::refusing(
                        step,
                        too_large_message(old(self).duration),
                    )
                } else {
                    final(self).songs@ == list@ && final(self).probing(
                        next_probe(list@, old(self).target(), 0, 0),
                        step,
                    )
                },
                (Stage::AwaitHash { tolerance, index }, Reply::Candidates(found)) => {
                    &&& final(self).songs@ == old(self).songs@
                    &&& if found@.len() > 0 {
                        final(self).choosing(found@, step)
                    } else if old(self).duration > i64::MAX {
                        final(self).stage == Stage::Finished && Self::refusing(
                            step,
                            too_large_message(old(self).duration),
                        )
                    } else {
                        final(self).probing(
                            next_probe(
                                old(self).songs@,
                                old(self).target(),
                                tolerance as int,
                                index + 1,
                            ),
                            step,
                        )
                    }
                },
                (Stage::AwaitKeyword, Reply::Candidates(found)) => if found@.len() > 0 {
                    final(self).choosing(found@, step)
                } else {
                    final(self).stage == Stage::Finished && step is NotFound
                },
                (Stage::AwaitContent, Reply::Content(content)) => final(self).stage
                    == Stage::Finished && Self::concluding(content@, step),
                _ => final(self).stage == Stage::Finished && Self::refusing(
                    step,
                    "reply does not answer the request"@,
                ),
            },
    {
        let stage = self.stage;
        match (stage, reply) {
            (Stage::AwaitSongs, Reply::Songs(list)) => {
                if self.duration > 0x7fff_ffff_ffff_ffff {
                    self.stage = Stage::Finished;
                    return Step::Failed(too_large(self.duration));
                }
                self.songs = list;
                self.probe(0, 0)
            },
            (Stage::AwaitHash { tolerance, index }, Reply::Candidates(found)) => {
                if found.len() > 0 {
                    self.choose_first(&found)
                } else if self.duration > 0x7fff_ffff_ffff_ffff {
                    self.stage = Stage::Finished;
                    Step::Failed(too_large(self.duration))
                } else {
                    let n = self.songs.len();
                    let next: usize = if index < n {
                        index + 1
                    } else {
                        n
                    };
                    proof {
                        let songs = self.songs@;
                        let target = self.target();
                        if index >= n {
                            assert(next_probe(songs, target, tolerance as int, index + 1)
                                == next_probe(songs, target, tolerance as int, n as int));
                        }
                    }
                    self.probe(tolerance, next)
                }
            },
            (Stage::AwaitKeyword, Reply::Candidates(found)) => {
                if found.len() > 0 {
                    self.choose_first(&found)
                } else {
                    self.stage = Stage::Finished;
                    Step::NotFound
                }
            },
            (Stage::AwaitContent, Reply::Content(content)) => {
                self.stage = Stage::Finished;
                if content.as_str().as_bytes().len() > isize::MAX as usize {
                    return Step::Failed(
                        KuGouError::Base64Error(String::from_str("content too long")),
                    );
                }
                match decode_content(content.as_str()) {
                    Ok(lyrics) => Step::Found(lyrics.normalize()),
                    Err(e) => Step::Failed(e),
                }
            },
            _ => {
                self.stage = Stage::Finished;
                Step::Failed(
                    KuGouError::ParsingError(String::from_str("reply does not answer the request")),
                )
            },
        }
    }
}

} // verus!
