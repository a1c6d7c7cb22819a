//! The playlist provider: its records, and what is read out of the
//! addresses in them.

use crate::text::pairs_view;
use crate::web::{
    texts_of, url_join, url_joined, url_pairs, url_parse, url_parsed, url_path_segments,
    url_query_pairs, url_segments,
};
use vstd::prelude::*;
use vstd::string::StringExecFns;

verus! {

/// A public instance of the provider.
#[derive(Debug, Clone)]
pub struct Instance {
    pub name: String,
    pub api_base_url: String,
    pub locations_formatted: String,
    pub version: String,
    pub up_to_date: bool,
    pub is_cdn: bool,
    pub user_count: i64,
    /// Seconds since the epoch.
    pub last_checked: i64,
    pub has_cache: bool,
    pub uses_s3: bool,
    pub image_proxy_base_url: String,
    pub registration_disabled: bool,
}

#[derive(Debug, Clone)]
pub struct PlaylistPreview {
    pub id: String,
    pub name: String,
    pub description: Option<String>,
    pub thumbnail_url: String,
    pub video_count: i32,
}

#[derive(Debug, Clone)]
pub struct CreatedPlaylist {
    pub id: String,
}

#[derive(Debug, Clone)]
pub struct Playlist {
    pub name: String,
    pub thumbnail_url: String,
    pub description: Option<String>,
    pub banner_url: Option<String>,
    pub video_count: i32,
    pub videos: Vec<PlaylistVideo>,
}

#[derive(Debug, Clone)]
pub struct PlaylistVideo {
    /// Relative or absolute.
    pub url: String,
    pub title: String,
    pub thumbnail_url: String,
    pub uploader_name: String,
    /// Relative or absolute.
    pub uploader_url: String,
    pub uploader_avatar_url: String,
    pub duration_seconds: i64,
}

#[derive(Debug)]
pub struct TokenResponse {
    pub token: String,
}

#[derive(Debug)]
pub struct OkMessage {
    pub result: String,
}

/// Why a call to the provider failed, with the message of the cause.
#[derive(Debug)]
pub enum PipedError {
    Request(String),
    Parse(String),
    Api(String),
    UrlParse(String),
}

/// What `uuid::Uuid::parse_str` objects to in `text`, in the words of its
/// error; nothing where it reads `text` as a UUID.
pub uninterp spec fn uuid_fault(text: Seq<char>) -> Option<Seq<char>>;

/// `uuid::Uuid::parse_str`, keeping only the message of its error.
#[verifier::external_body]
fn uuid_error(text: &str) -> (r: Option<String>)
    ensures
        match r {
            Some(m) => uuid_fault(text@) == Some(m@),
            None => uuid_fault(text@) is None,
        },
{
    uuid::Uuid::parse_str(text).err().map(|e| e.to_string())
}

/// Checks the id of a playlist before it is sent: it must be a UUID; any
/// other text is an API error with the parser's message.
pub fn checked_playlist_id(id: &str) -> (r: Result<(), PipedError>)
    ensures
        match r {
            Ok(_) => uuid_fault(id@) is None,
            Err(e) => e matches PipedError::Api(m) && uuid_fault(id@) == Some(m@),
        },
{
    match uuid_error(id) {
        Some(message) => Err(PipedError::Api(message)),
        None => Ok(()),
    }
}

/// The value of the first pair whose key is `key`.
pub open spec fn first_value(pairs: Seq<(Seq<char>, Seq<char>)>, key: Seq<char>) -> Option<
    Seq<char>,
>
    decreases pairs.len(),
{
    if pairs.len() == 0 {
        None
    } else if pairs[0].0 == key {
        Some(pairs[0].1)
    } else {
        first_value(pairs.drop_first(), key)
    }
}

/// Finds the value of the first pair whose key is `key`.
pub fn value_of_key(pairs: &Vec<(String, String)>, key: &str) -> (r: Option<String>)
    ensures
        match r {
            Some(v) => first_value(pairs_view(pairs@), key@) == Some(v@),
            None => first_value(pairs_view(pairs@), key@) is None,
        },
{
    let wanted = String::from_str(key);
    let n = pairs.len();
    let mut i: usize = 0;
    let ghost all = pairs_view(pairs@);
    assert(all.skip(0) =~= all);
    while i < n
        invariant
            i <= n,
            n == pairs.len(),
            all == pairs_view(pairs@),
            wanted@ == key@,
            first_value(all, key@) == first_value(all.skip(i as int), key@),
        decreases n - i,
    {
        proof {
            assert(all.skip(i as int)[0] == (pairs@[i as int].0@, pairs@[i as int].1@));
            assert(all.skip(i as int).drop_first() =~= all.skip(i + 1));
        }
        if pairs[i].0 == wanted {
            return Some(pairs[i].1.clone());
        }
        i += 1;
    }
    None
}

/// The segments of `segments` that are not empty, in order.
pub open spec fn filled(segments: Seq<Seq<char>>) -> Seq<Seq<char>>
    decreases segments.len(),
{
    if segments.len() == 0 {
        Seq::empty()
    } else if segments.last().len() == 0 {
        filled(segments.drop_last())
    } else {
        filled(segments.drop_last()).push(segments.last())
    }
}

/// The uploader that the path names: the second of its non-empty segments,
/// where the first is `channel` or `user`.
pub open spec fn uploader_in(segments: Seq<Seq<char>>) -> Option<Seq<char>> {
    let f = filled(segments);
    if f.len() >= 2 && (f[0] == "channel"@ || f[0] == "user"@) {
        Some(f[1])
    } else {
        None
    }
}

/// Finds the uploader that the segments of a path name.
pub fn uploader_among(segments: &Vec<String>) -> (r: Option<String>)
    ensures
        match r {
            Some(v) => uploader_in(texts_of(segments@)) == Some(v@),
            None => uploader_in(texts_of(segments@)) is None,
        },
{
    let mut kept: Vec<usize> = Vec::new();
    let n = segments.len();
    let mut i: usize = 0;
    let ghost all = texts_of(segments@);
    assert(all.take(0) =~= Seq::<Seq<char>>::empty());
    while i < n
        invariant
            i <= n,
            n == segments.len(),
            all == texts_of(segments@),
            kept@.len() == filled(all.take(i as int)).len(),
            forall|j: int|
                0 <= j < kept@.len() ==> (#[trigger] kept@[j]) < i && segments@[kept@[j] as int]@
                    == filled(all.take(i as int))[j],
        decreases n - i,
    {
        proof {
            assert(all.take(i + 1).drop_last() =~= all.take(i as int));
            assert(all.take(i + 1).last() == segments@[i as int]@);
        }
        let ghost before = kept@;
        let ghost shown = filled(all.take(i as int));
        if segments[i].as_str().unicode_len() > 0 {
            kept.push(i);
        }
        proof {
            let now = filled(all.take(i + 1));
            assert forall|j: int| 0 <= j < kept@.len() implies kept@[j] < i + 1
                && segments@[kept@[j] as int]@ == now[j] by {
                if j < before.len() {
                    assert(kept@[j] == before[j]);
                    assert(now[j] == shown[j]);
                }
            }
        }
        i += 1;
    }
    assert(all.take(n as int) =~= all);
    if kept.len() >= 2 {
        let first = &segments[kept[0]];
        let channel = String::from_str("channel");
        let user = String::from_str("user");
        if *first == channel || *first == user {
            return Some(segments[kept[1]].clone());
        }
    }
    None
}

/// The address that `reference` names when read at the reading base, as
/// the `url` crate makes it; nothing where it makes none.
pub open spec fn read_address(reference: Seq<char>) -> Option<Seq<char>> {
    match url_parsed("http://example.com"@) {
        Some(base) => url_joined(base, reference),
        None => None,
    }
}

/// The id of the video at the address `url`: the value of the first `v`
/// in the query of the address read.
pub open spec fn video_id_in(url: Seq<char>) -> Option<Seq<char>> {
    match read_address(url) {
        Some(address) => first_value(url_pairs(address), "v"@),
        None => None,
    }
}

/// The id of the uploader at the address `url`: the uploader that the
/// path of the address read names.
pub open spec fn uploader_id_in(url: Seq<char>) -> Option<Seq<char>> {
    match read_address(url) {
        Some(address) => match url_segments(address) {
            Some(segments) => uploader_in(segments),
            None => None,
        },
        None => None,
    }
}

/// The base that a relative address of the provider is read at.
pub fn reading_base() -> (r: &'static str)
    ensures
        r@ == "http://example.com"@,
{
    "http://example.com"
}

/// The id of a video: the value of `v` in the query of its address, read
/// at [`reading_base`] where it is relative. Nothing where the address
/// cannot be read or its query has no `v`.
pub fn video_get_id(video: PlaylistVideo) -> (r: Option<String>)
    ensures
        match r {
            Some(id) => video_id_in(video.url@) == Some(id@),
            None => video_id_in(video.url@) is None,
        },
{
    let base = match url_parse(reading_base()) {
        Some(b) => b,
        None => {
            return None;
        },
    };
    match url_join(&base, video.url.as_str()) {
        Some(address) => {
            let pairs = url_query_pairs(&address);
            value_of_key(&pairs, "v")
        },
        None => None,
    }
}

/// The id of the uploader of a video, out of the path of the uploader's
/// address, read at [`reading_base`] where it is relative. Nothing where
/// the address cannot be read or its path names no uploader.
pub fn video_get_uploader_id(video: PlaylistVideo) -> (r: Option<String>)
    ensures
        match r {
            Some(id) => uploader_id_in(video.uploader_url@) == Some(id@),
            None => uploader_id_in(video.uploader_url@) is None,
        },
{
    let base = match url_parse(reading_base()) {
        Some(b) => b,
        None => {
            return None;
        },
    };
    match url_join(&base, video.uploader_url.as_str()) {
        Some(address) => match url_path_segments(&address) {
            Some(segments) => uploader_among(&segments),
            None => None,
        },
        None => None,
    }
}

/// The duration of a video in milliseconds, where it fits in 64 bits.
pub fn video_get_duration_ms(video: PlaylistVideo) -> (r: i64)
    requires
        i64::MIN <= video.duration_seconds * 1000 <= i64::MAX,
    ensures
        r == video.duration_seconds * 1000,
{
    video.duration_seconds * 1000
}

} // verus!
