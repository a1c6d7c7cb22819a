//! The music-streaming provider: the shapes of its responses and the
//! mapping from them to what callers see.

use crate::common::{found, json_texts, JsonStep};
use vstd::prelude::*;
use vstd::string::StrSliceExecFns;
use vstd::string::StringExecFns;

verus! {

/// Why a call to the provider failed.
#[derive(Debug)]
pub enum InnertubeError {
    JsonSerializationError { message: String },
    JsonDeserializationError { message: String },
    InvalidRequestData { message: String },
    LogicError { message: String },
    NetworkError { message: String },
    InitializationFailed { message: String },
}

/// The client that a request claims to come from.
#[derive(Debug, Clone, Copy, PartialEq, Eq, Structural)]
pub enum Context {
    DefaultAndroidMusic,
    DefaultIOS,
    DefaultWeb,
    DefaultTV,
}

/// The user agent of each client.
pub open spec fn user_agent_of(c: Context) -> Seq<char> {
    match c {
        Context::DefaultAndroidMusic => "com.google.android.apps.youtube.music/5.11.51"@,
        Context::DefaultIOS => "com.google.ios.youtube.music/5.11.51"@,
        Context::DefaultWeb => "Mozilla/5.0 (Windows NT 10.0; Win64; x64; rv:109.0) Gecko/20100101 Firefox/117.0"@,
        Context::DefaultTV => "com.google.android.apps.youtube.music.tv/1.0.0"@,
    }
}

impl Context {
    /// The user agent to send with a request from this client.
    pub fn user_agent(&self) -> (r: &'static str)
        ensures
            r@ == user_agent_of(*self),
    {
        match self {
            Context::DefaultAndroidMusic => "com.google.android.apps.youtube.music/5.11.51",
            Context::DefaultIOS => "com.google.ios.youtube.music/5.11.51",
            Context::DefaultWeb => "Mozilla/5.0 (Windows NT 10.0; Win64; x64; rv:109.0) Gecko/20100101 Firefox/117.0",
            Context::DefaultTV => "com.google.android.apps.youtube.music.tv/1.0.0",
        }
    }
}

#[derive(Debug, Clone)]
pub struct GetQueueResponseInner {
    pub contents: Option<QueueContents>,
}

#[derive(Debug, Clone)]
pub struct QueueContents {
    pub tab_renderer: Option<TabRenderer>,
}

#[derive(Debug, Clone)]
pub struct TabRenderer {
    pub content: Option<TabContent>,
}

#[derive(Debug, Clone)]
pub struct TabContent {
    pub music_queue_renderer: Option<MusicQueueRenderer>,
}

#[derive(Debug, Clone)]
pub struct MusicQueueRenderer {
    pub contents: Option<Vec<MusicQueueContent>>,
}

#[derive(Debug, Clone)]
pub struct MusicQueueContent {
    pub playlist_panel_video_renderer: Option<PlaylistPanelVideoRenderer>,
}

#[derive(Debug, Clone)]
pub struct PlayerResponseInner {
    pub playability_status: Option<PlayabilityStatus>,
    pub streaming_data: Option<StreamingData>,
    pub video_details: Option<VideoDetails>,
}

#[derive(Debug, Clone)]
pub struct PlayabilityStatus {
    pub status: Option<String>,
}

#[derive(Debug, Clone)]
pub struct StreamingData {}

#[derive(Debug, Clone)]
pub struct VideoDetails {}

#[derive(Debug, Clone)]
pub struct NextResponseInner {
    pub contents: Option<NextContents>,
    pub continuation_contents: Option<ContinuationContents>,
}

#[derive(Debug, Clone)]
pub struct NextContents {
    pub music_player_page_renderer: Option<MusicPlayerPageRenderer>,
}

#[derive(Debug, Clone)]
pub struct ContinuationContents {
    pub music_continuation_renderer: Option<MusicContinuationRenderer>,
}

#[derive(Debug, Clone)]
pub struct MusicContinuationRenderer {
    pub continuation_endpoint: Option<ContinuationEndpoint>,
}

#[derive(Debug, Clone)]
pub struct ContinuationEndpoint {
    pub continuation_command: Option<ContinuationCommand>,
}

#[derive(Debug, Clone)]
pub struct ContinuationCommand {
    pub token: Option<String>,
}

#[derive(Debug, Clone)]
pub struct MusicPlayerPageRenderer {
    pub content: Option<MusicPlayerPageContent>,
}

#[derive(Debug, Clone)]
pub struct MusicPlayerPageContent {
    pub music_queue_renderer: Option<MusicQueueRenderer>,
    pub section_list_renderer: Option<SectionListRendererInner>,
}

#[derive(Debug, Clone)]
pub struct BrowseResponseInner {
    pub contents: Option<BrowseContents>,
}

#[derive(Debug, Clone)]
pub struct BrowseContents {
    pub single_column_browse_results_renderer: Option<SingleColumnBrowseResultsRenderer>,
}

#[derive(Debug, Clone)]
pub struct SingleColumnBrowseResultsRenderer {
    pub tabs: Option<Vec<Tab>>,
}

#[derive(Debug, Clone)]
pub struct Tab {
    pub tab_renderer: Option<TabRendererInner>,
}

#[derive(Debug, Clone)]
pub struct TabRendererInner {
    pub content: Option<TabContentInner>,
}

#[derive(Debug, Clone)]
pub struct TabContentInner {
    pub section_list_renderer: Option<SectionListRendererInner>,
}

#[derive(Debug, Clone)]
pub struct SectionListRenderer {
    pub contents: Option<Vec<SectionListRendererContent>>,
}

#[derive(Debug, Clone)]
pub struct SectionListRendererContent {
    pub music_description_shelf_renderer: Option<MusicDescriptionShelfRenderer>,
    pub music_shelf_renderer: Option<MusicShelfRenderer>,
}

#[derive(Debug, Clone)]
pub struct MusicDescriptionShelfRenderer {
    pub description: Option<RunsInner>,
    pub footer: Option<RunsInner>,
}

#[derive(Debug, Clone)]
pub struct MusicShelfRenderer {
    pub title: Option<RunsInner>,
    pub contents: Option<Vec<PlaylistPanelVideoRenderer>>,
}

#[derive(Debug, Clone)]
pub struct SectionListRendererInner {
    pub contents: Option<Vec<SectionListRendererContentInner>>,
}

#[derive(Debug, Clone)]
pub struct SectionListRendererContentInner {
    pub music_description_shelf_renderer: Option<MusicDescriptionShelfRenderer>,
    pub music_shelf_renderer: Option<MusicShelfRenderer>,
}

#[derive(Debug, Clone)]
pub struct Runs {
    pub runs: Vec<Run>,
}

#[derive(Debug, Clone)]
pub struct RunsInner {
    pub runs: Vec<RunInner>,
}

#[derive(Debug, Clone)]
pub struct Run {
    pub text: String,
}

#[derive(Debug, Clone)]
pub struct RunInner {
    pub text: Option<String>,
    pub navigation_endpoint: Option<NavigationEndpointInner>,
}

#[derive(Debug, Clone)]
pub struct SongItem {
    pub key: String,
    pub video_id: String,
    pub explicit: bool,
    pub authors: Option<Vec<Info>>,
    pub info: Info,
    pub album: Option<Info>,
    pub duration_text: Option<String>,
    pub thumbnail: Option<Thumbnail>,
}

#[derive(Debug, Clone)]
pub struct Info {
    pub name: Option<String>,
    pub endpoint: Option<NavigationEndpoint>,
}

#[derive(Debug, Clone)]
pub struct NavigationEndpoint {
    pub video_id: Option<String>,
    pub playlist_id: Option<String>,
    pub browse_id: Option<String>,
    pub params: Option<String>,
}

#[derive(Debug, Clone)]
pub struct Thumbnail {
    pub url: String,
    pub width: u32,
    pub height: u32,
}

#[derive(Debug, Clone)]
pub struct PlaylistPanelVideoRenderer {
    pub video_id: Option<String>,
    pub title: Option<RunsInner>,
    pub long_byline_text: Option<RunsInner>,
    pub short_byline_text: Option<RunsInner>,
    pub length_text: Option<RunsInner>,
    pub navigation_endpoint: Option<NavigationEndpointInner>,
    pub thumbnail: Option<ThumbnailDetails>,
    pub badges: Option<Vec<Badge>>,
}

#[derive(Debug, Clone)]
pub struct ThumbnailDetails {
    pub music_thumbnail_renderer: Option<MusicThumbnailRenderer>,
}

#[derive(Debug, Clone)]
pub struct MusicThumbnailRenderer {
    pub thumbnail: Option<ThumbnailInner>,
}

#[derive(Debug, Clone)]
pub struct ThumbnailInner {
    pub thumbnails: Vec<ThumbnailRaw>,
}

#[derive(Debug, Clone)]
pub struct ThumbnailRaw {
    pub url: String,
    pub width: u32,
    pub height: u32,
}

#[derive(Debug, Clone)]
pub struct Badge {
    pub music_inline_badge_renderer: Option<MusicInlineBadgeRenderer>,
}

#[derive(Debug, Clone)]
pub struct MusicInlineBadgeRenderer {
    pub icon: Option<Icon>,
}

#[derive(Debug, Clone)]
pub struct Icon {
    pub icon_type: String,
}

#[derive(Debug, Clone)]
pub struct NavigationEndpointInner {
    pub watch_endpoint: Option<WatchEndpoint>,
}

#[derive(Debug, Clone)]
pub struct WatchEndpoint {
    pub video_id: Option<String>,
    pub playlist_id: Option<String>,
    pub params: Option<String>,
}

#[derive(Debug, Clone)]
pub struct PlayerResponse {
    pub playability_status_status: Option<String>, 
    pub streaming_data_present: bool, 
}

#[derive(Debug, Clone)]
pub struct NextResponse {
    pub get_browse_id: Option<String>,
    pub get_video_id: Option<String>,
}


#[derive(Debug, Clone)]
pub struct BrowseResponse {
    pub lyrics_text: Option<String>,
    pub contents: Option<SectionListRenderer>, 
}

#[derive(Debug, Clone)]
pub struct ContinuationResponse {
    pub continuation: Option<String>,
}

#[derive(Debug, Clone)]
pub struct PlayerBody {
    pub video_id: String,
    pub playlist_id: Option<String>,
    pub cpn: Option<String>,
    pub signature_timestamp: Option<String>, 
}

#[derive(Debug, Clone)]
pub struct QueueBody {
    pub video_id: Option<String>,
    pub playlist_id: Option<String>,
}

impl NextResponse {
    /// The browse id of the lyrics page.
    pub fn get_browse_id(&self) -> (r: Option<String>)
        ensures
            r == self.get_browse_id,
    {
        clone_text(&self.get_browse_id)
    }
}

fn clone_text(o: &Option<String>) -> (r: Option<String>)
    ensures
        r == *o,
{
    match o {
        Some(s) => Some(s.clone()),
        None => None,
    }
}

/// The text of the first run, if there is one and it has a text.
pub open spec fn first_text(r: Option<RunsInner>) -> Option<String> {
    match r {
        Some(rs) => if rs.runs@.len() > 0 {
            rs.runs@[0].text
        } else {
            None
        },
        None => None,
    }
}

/// The endpoint that callers see for a watch endpoint: the browse id is
/// never set.
pub open spec fn endpoint_of(we: WatchEndpoint) -> NavigationEndpoint {
    NavigationEndpoint {
        video_id: we.video_id,
        playlist_id: we.playlist_id,
        browse_id: None,
        params: we.params,
    }
}

/// The watch endpoint inside a navigation endpoint, if both are there.
pub open spec fn watch_of(ne: Option<NavigationEndpointInner>) -> Option<WatchEndpoint> {
    match ne {
        Some(n) => n.watch_endpoint,
        None => None,
    }
}

/// The endpoint that callers see for a navigation endpoint.
pub open spec fn seen_endpoint(ne: Option<NavigationEndpointInner>) -> Option<NavigationEndpoint> {
    match watch_of(ne) {
        Some(we) => Some(endpoint_of(we)),
        None => None,
    }
}

/// The texts that only separate the authors of a byline.
pub open spec fn is_separator(text: Seq<char>) -> bool {
    text == " • "@ || text == " · "@
}

/// The author that a run of the byline names: a run without text, or
/// with a separator as its text, names none.
pub open spec fn author_of(run: RunInner) -> Option<Info> {
    match run.text {
        Some(t) => if is_separator(t@) {
            None
        } else {
            Some(Info { name: Some(t), endpoint: seen_endpoint(run.navigation_endpoint) })
        },
        None => None,
    }
}

/// The authors that the runs of a byline name, in order.
pub open spec fn authors_of(runs: Seq<RunInner>) -> Seq<Info>
    decreases runs.len(),
{
    if runs.len() == 0 {
        Seq::empty()
    } else {
        let rest = authors_of(runs.drop_last());
        match author_of(runs.last()) {
            Some(a) => rest.push(a),
            None => rest,
        }
    }
}

/// The first thumbnail of the renderer, if every level down to it is
/// there.
pub open spec fn thumbnail_of(t: Option<ThumbnailDetails>) -> Option<Thumbnail> {
    match t {
        Some(d) => match d.music_thumbnail_renderer {
            Some(m) => match m.thumbnail {
                Some(inner) => if inner.thumbnails@.len() > 0 {
                    let raw = inner.thumbnails@[0];
                    Some(Thumbnail { url: raw.url, width: raw.width, height: raw.height })
                } else {
                    None
                },
                None => None,
            },
            None => None,
        },
        None => None,
    }
}

/// The badge marks explicit content.
pub open spec fn is_explicit_badge(b: Badge) -> bool {
    match b.music_inline_badge_renderer {
        Some(m) => match m.icon {
            Some(i) => i.icon_type@ == "MUSIC_EXPLICIT_BADGE"@,
            None => false,
        },
        None => false,
    }
}

/// One of the badges marks explicit content.
pub open spec fn some_explicit(bs: Seq<Badge>) -> bool {
    exists|i: int| 0 <= i < bs.len() && is_explicit_badge(#[trigger] bs[i])
}

/// There are badges, and one of them marks explicit content.
pub open spec fn explicit_of(badges: Option<Vec<Badge>>) -> bool {
    match badges {
        Some(bs) => some_explicit(bs@),
        None => false,
    }
}

/// The playlist that the item is played from, if its endpoint names one.
pub open spec fn playlist_of(ne: Option<NavigationEndpointInner>) -> Option<String> {
    match watch_of(ne) {
        Some(we) => we.playlist_id,
        None => None,
    }
}

/// The key of an item: the video id, an underscore, and the playlist id
/// where there is one.
pub open spec fn key_of(video_id: Seq<char>, playlist: Option<String>) -> Seq<char> {
    video_id + "_"@ + match playlist {
        Some(p) => p@,
        None => Seq::<char>::empty(),
    }
}

/// `item` is what callers see of the renderer `r`, whose video id is
/// `video_id`.
pub open spec fn shows(item: SongItem, r: PlaylistPanelVideoRenderer, video_id: String) -> bool {
    &&& item.video_id == video_id
    &&& item.key@ == key_of(video_id@, playlist_of(r.navigation_endpoint))
    &&& item.explicit == explicit_of(r.badges)
    &&& match (item.authors, r.long_byline_text) {
        (Some(v), Some(byline)) => v@ == authors_of(byline.runs@),
        (None, None) => true,
        _ => false,
    }
    &&& item.info == (Info {
        name: first_text(r.title),
        endpoint: seen_endpoint(r.navigation_endpoint),
    })
    &&& item.album is None
    &&& item.duration_text == first_text(r.length_text)
    &&& item.thumbnail == thumbnail_of(r.thumbnail)
}

fn text_of_first(r: &Option<RunsInner>) -> (t: Option<String>)
    ensures
        t == first_text(*r),
{
    match r {
        Some(rs) => if rs.runs.len() > 0 {
            clone_text(&rs.runs[0].text)
        } else {
            None
        },
        None => None,
    }
}

fn endpoint_seen(ne: &Option<NavigationEndpointInner>) -> (r: Option<NavigationEndpoint>)
    ensures
        r == seen_endpoint(*ne),
{
    match ne {
        Some(n) => match &n.watch_endpoint {
            Some(we) => Some(
                NavigationEndpoint {
                    video_id: clone_text(&we.video_id),
                    playlist_id: clone_text(&we.playlist_id),
                    browse_id: None,
                    params: clone_text(&we.params),
                },
            ),
            None => None,
        },
        None => None,
    }
}

fn authors_in(runs: &Vec<RunInner>) -> (r: Vec<Info>)
    ensures
        r@ == authors_of(runs@),
{
    let bullet = String::from_str(" • ");
    let dot = String::from_str(" · ");
    let mut out: Vec<Info> = Vec::new();
    let n = runs.len();
    let mut i: usize = 0;
    assert(runs@.take(0) =~= Seq::<RunInner>::empty());
    while i < n
        invariant
            i <= n,
            n == runs.len(),
            bullet@ == " • "@,
            dot@ == " · "@,
            out@ == authors_of(runs@.take(i as int)),
        decreases n - i,
    {
        proof {
            assert(runs@.take(i + 1).drop_last() =~= runs@.take(i as int));
            assert(runs@.take(i + 1).last() == runs@[i as int]);
        }
        match &runs[i].text {
            Some(text) => {
                if !(*text == bullet) && !(*text == dot) {
                    let endpoint = endpoint_seen(&runs[i].navigation_endpoint);
                    out.push(Info { name: Some(text.clone()), endpoint });
                }
            },
            None => {},
        }
        i += 1;
    }
    assert(runs@.take(n as int) =~= runs@);
    out
}

fn first_thumbnail(t: &Option<ThumbnailDetails>) -> (r: Option<Thumbnail>)
    ensures
        r == thumbnail_of(*t),
{
    match t {
        Some(d) => match &d.music_thumbnail_renderer {
            Some(m) => match &m.thumbnail {
                Some(inner) => if inner.thumbnails.len() > 0 {
                    let raw = &inner.thumbnails[0];
                    Some(Thumbnail { url: raw.url.clone(), width: raw.width, height: raw.height })
                } else {
                    None
                },
                None => None,
            },
            None => None,
        },
        None => None,
    }
}

fn explicit_badge(b: &Badge) -> (r: bool)
    ensures
        r == is_explicit_badge(*b),
{
    match &b.music_inline_badge_renderer {
        Some(m) => match &m.icon {
            Some(i) => {
                let wanted = String::from_str("MUSIC_EXPLICIT_BADGE");
                i.icon_type == wanted
            },
            None => false,
        },
        None => false,
    }
}

fn explicit_among(bs: &Vec<Badge>) -> (r: bool)
    ensures
        r == some_explicit(bs@),
{
    let mut i: usize = 0;
    while i < bs.len()
        invariant
            i <= bs.len(),
            forall|j: int| 0 <= j < i ==> !is_explicit_badge(#[trigger] bs@[j]),
        decreases bs.len() - i,
    {
        if explicit_badge(&bs[i]) {
            assert(is_explicit_badge(bs@[i as int]));
            return true;
        }
        i += 1;
    }
    false
}

fn any_explicit(badges: &Option<Vec<Badge>>) -> (r: bool)
    ensures
        r == explicit_of(*badges),
{
    match badges {
        Some(bs) => explicit_among(bs),
        None => false,
    }
}

impl PlaylistPanelVideoRenderer {
    /// What callers see of this renderer.
    ///
    /// Fails exactly when the renderer has no video id. The title and the
    /// duration are the texts of the first runs, the authors are the runs
    /// of the long byline that are no separators, the thumbnail is the
    /// first one, and the album is never set.
    pub fn song_item(&self) -> (r: Result<SongItem, InnertubeError>)
        ensures
            match r {
                Ok(item) => match self.video_id {
                    Some(id) => shows(item, *self, id),
                    None => false,
                },
                Err(e) => self.video_id is None && (e matches InnertubeError::LogicError {
                    message,
                } && message@ == "Song item missing videoId"@),
            },
    {
        let video_id = match &self.video_id {
            Some(id) => id.clone(),
            None => {
                return Err(
                    InnertubeError::LogicError {
                        message: String::from_str("Song item missing videoId"),
                    },
                );
            },
        };
        let title_text = text_of_first(&self.title);
        let authors = match &self.long_byline_text {
            Some(byline) => Some(authors_in(&byline.runs)),
            None => None,
        };
        let duration_text = text_of_first(&self.length_text);
        let thumbnail = first_thumbnail(&self.thumbnail);
        let explicit = any_explicit(&self.badges);
        let endpoint = endpoint_seen(&self.navigation_endpoint);
        let mut key = video_id.clone();
        key.append("_");
        match &self.navigation_endpoint {
            Some(n) => match &n.watch_endpoint {
                Some(we) => match &we.playlist_id {
                    Some(p) => {
                        key.append(p.as_str());
                    },
                    None => {},
                },
                None => {},
            },
            None => {},
        }
        proof {
            let k = key_of(video_id@, playlist_of(self.navigation_endpoint));
            assert(key@ =~= k);
        }
        Ok(
            SongItem {
                key,
                video_id,
                explicit,
                authors,
                info: Info { name: title_text, endpoint },
                album: None,
                duration_text,
                thumbnail,
            },
        )
    }

    /// What callers see of this renderer, which is given up.
    pub fn to_song_item(self) -> (r: Result<SongItem, InnertubeError>)
        ensures
            match r {
                Ok(item) => match self.video_id {
                    Some(id) => shows(item, self, id),
                    None => false,
                },
                Err(e) => self.video_id is None && (e matches InnertubeError::LogicError {
                    message,
                } && message@ == "Song item missing videoId"@),
            },
    {
        self.song_item()
    }
}

/// The renderers of a queue response, in order: those of the entries that
/// have one, where every level down to the entries is there.
pub open spec fn queue_renderers(response: GetQueueResponseInner) -> Seq<
    Option<PlaylistPanelVideoRenderer>,
> {
    match response.contents {
        Some(c) => match c.tab_renderer {
            Some(t) => match t.content {
                Some(tc) => match tc.music_queue_renderer {
                    Some(m) => match m.contents {
                        Some(list) => Seq::new(
                            list@.len(),
                            |i: int| list@[i].playlist_panel_video_renderer,
                        ),
                        None => Seq::empty(),
                    },
                    None => Seq::empty(),
                },
                None => Seq::empty(),
            },
            None => Seq::empty(),
        },
        None => Seq::empty(),
    }
}

/// The renderers among `rs` that have a video id, in order.
pub open spec fn with_video(rs: Seq<Option<PlaylistPanelVideoRenderer>>) -> Seq<
    PlaylistPanelVideoRenderer,
>
    decreases rs.len(),
{
    if rs.len() == 0 {
        Seq::empty()
    } else {
        let rest = with_video(rs.drop_last());
        match rs.last() {
            Some(r) => if r.video_id is Some {
                rest.push(r)
            } else {
                rest
            },
            None => rest,
        }
    }
}

/// The items of a queue response: one for each entry whose renderer has a
/// video id, in order; the other entries are passed over.
pub fn queue_items(response: &GetQueueResponseInner) -> (r: Vec<SongItem>)
    ensures
        r@.len() == with_video(queue_renderers(*response)).len(),
        forall|i: int|
            0 <= i < r@.len() ==> {
                let shown = #[trigger] with_video(queue_renderers(*response))[i];
                shown.video_id matches Some(id) && shows(r@[i], shown, id)
            },
{
    let mut out: Vec<SongItem> = Vec::new();
    let ghost all = queue_renderers(*response);
    let list = match &response.contents {
        Some(c) => match &c.tab_renderer {
            Some(t) => match &t.content {
                Some(tc) => match &tc.music_queue_renderer {
                    Some(m) => match &m.contents {
                        Some(list) => list,
                        None => {
                            return out;
                        },
                    },
                    None => {
                        return out;
                    },
                },
                None => {
                    return out;
                },
            },
            None => {
                return out;
            },
        },
        None => {
            return out;
        },
    };
    let n = list.len();
    let mut i: usize = 0;
    assert(all.take(0) =~= Seq::<Option<PlaylistPanelVideoRenderer>>::empty());
    while i < n
        invariant
            i <= n,
            n == list.len(),
            all.len() == n,
            forall|j: int| 0 <= j < n ==> all[j] == list@[j].playlist_panel_video_renderer,
            out@.len() == with_video(all.take(i as int)).len(),
            forall|j: int|
                0 <= j < out@.len() ==> {
                    let shown = #[trigger] with_video(all.take(i as int))[j];
                    shown.video_id matches Some(id) && shows(out@[j], shown, id)
                },
        decreases n - i,
    {
        proof {
            assert(all.take(i + 1).drop_last() =~= all.take(i as int));
            assert(all.take(i + 1).last() == all[i as int]);
        }
        match &list[i].playlist_panel_video_renderer {
            Some(renderer) => match renderer.song_item() {
                Ok(item) => {
                    out.push(item);
                },
                Err(_) => {},
            },
            None => {},
        }
        i += 1;
    }
    assert(all.take(n as int) =~= all);
    out
}

/// What callers see of a player response: the status, and whether there
/// is streaming data.
pub fn player_response(inner: &PlayerResponseInner) -> (r: PlayerResponse)
    ensures
        r.playability_status_status == match inner.playability_status {
            Some(s) => s.status,
            None => None,
        },
        r.streaming_data_present == inner.streaming_data is Some,
{
    PlayerResponse {
        playability_status_status: match &inner.playability_status {
            Some(s) => clone_text(&s.status),
            None => None,
        },
        streaming_data_present: inner.streaming_data.is_some(),
    }
}

/// The sections of the last tab of a browse response, where every level
/// down to them is there.
pub open spec fn lyric_sections(inner: BrowseResponseInner) -> Option<
    Seq<SectionListRendererContentInner>,
> {
    match inner.contents {
        Some(c) => match c.single_column_browse_results_renderer {
            Some(s) => match s.tabs {
                Some(tabs) => if tabs@.len() > 0 {
                    match tabs@.last().tab_renderer {
                        Some(t) => match t.content {
                            Some(tc) => match tc.section_list_renderer {
                                Some(sl) => match sl.contents {
                                    Some(list) => Some(list@),
                                    None => None,
                                },
                                None => None,
                            },
                            None => None,
                        },
                        None => None,
                    }
                } else {
                    None
                },
                None => None,
            },
            None => None,
        },
        None => None,
    }
}

/// The lyrics in a list of sections: the first text of the description of
/// the first section that has a description shelf.
pub open spec fn lyrics_in(sections: Seq<SectionListRendererContentInner>) -> Option<String>
    decreases sections.len(),
{
    if sections.len() == 0 {
        None
    } else {
        match sections[0].music_description_shelf_renderer {
            Some(shelf) => first_text(shelf.description),
            None => lyrics_in(sections.drop_first()),
        }
    }
}

/// The lyrics text of a browse response, found in the last tab.
pub fn browse_lyrics(inner: &BrowseResponseInner) -> (r: Option<String>)
    ensures
        r == match lyric_sections(*inner) {
            Some(sections) => lyrics_in(sections),
            None => None,
        },
{
    let list = match &inner.contents {
        Some(c) => match &c.single_column_browse_results_renderer {
            Some(s) => match &s.tabs {
                Some(tabs) => if tabs.len() > 0 {
                    match &tabs[tabs.len() - 1].tab_renderer {
                        Some(t) => match &t.content {
                            Some(tc) => match &tc.section_list_renderer {
                                Some(sl) => match &sl.contents {
                                    Some(list) => list,
                                    None => {
                                        return None;
                                    },
                                },
                                None => {
                                    return None;
                                },
                            },
                            None => {
                                return None;
                            },
                        },
                        None => {
                            return None;
                        },
                    }
                } else {
                    return None;
                },
                None => {
                    return None;
                },
            },
            None => {
                return None;
            },
        },
        None => {
            return None;
        },
    };
    let n = list.len();
    let mut i: usize = 0;
    assert(list@.skip(0) =~= list@);
    assert(lyric_sections(*inner) == Some(list@));
    while i < n
        invariant
            i <= n,
            n == list.len(),
            lyric_sections(*inner) == Some(list@),
            lyrics_in(list@) == lyrics_in(list@.skip(i as int)),
        decreases n - i,
    {
        proof {
            assert(list@.skip(i as int)[0] == list@[i as int]);
            assert(list@.skip(i as int).drop_first() =~= list@.skip(i + 1));
        }
        match &list[i].music_description_shelf_renderer {
            Some(shelf) => {
                assert(lyrics_in(list@.skip(i as int)) == first_text(shelf.description));
                return text_of_first(&shelf.description);
            },
            None => {},
        }
        i += 1;
    }
    None
}

/// `serde_json::Value::get` with a key: the member of an object under the
/// key, or nothing where the value is no object or has no such member.
/// What the member holds is what the value holds behind that step; where
/// there is no member, the value holds nothing behind it.
#[verifier::external_body]
fn json_member<'a>(value: &'a serde_json::Value, key: &str) -> (r: Option<&'a serde_json::Value>)
    ensures
        match r {
            Some(inner) => forall|p: Seq<JsonStep>| #[trigger]
                found(json_texts(*inner), p) == found(json_texts(*value), seq![JsonStep::Key(key@)] + p),
            None => forall|p: Seq<JsonStep>|
                (#[trigger] found(json_texts(*value), seq![JsonStep::Key(key@)] + p)) is None,
        },
{
    value.get(key)
}

/// `serde_json::Value::get` with an index: the item of an array at the
/// index, or nothing where the value is no array or is shorter. What the
/// item holds is what the value holds behind that step; where there is no
/// item, the value holds nothing behind it.
#[verifier::external_body]
fn json_item<'a>(value: &'a serde_json::Value, index: usize) -> (r: Option<&'a serde_json::Value>)
    ensures
        match r {
            Some(inner) => forall|p: Seq<JsonStep>| #[trigger]
                found(json_texts(*inner), p) == found(json_texts(*value), seq![JsonStep::Item(index as nat)] + p),
            None => forall|p: Seq<JsonStep>|
                (#[trigger] found(json_texts(*value), seq![JsonStep::Item(index as nat)] + p)) is None,
        },
{
    value.get(index)
}

/// `serde_json::Value::as_str`: the text of a value that is a string,
/// which is what the value holds at the empty path.
#[verifier::external_body]
fn json_text(value: &serde_json::Value) -> (r: Option<String>)
    ensures
        match r {
            Some(s) => found(json_texts(*value), Seq::empty()) == Some(s@),
            None => found(json_texts(*value), Seq::empty()) is None,
        },
{
    value.as_str().map(String::from)
}

/// One step down into a JSON value.
#[derive(Debug, Clone, Copy)]
pub enum PathStep {
    /// Into the member of an object under this key.
    Key(&'static str),
    /// Into the first item of an array.
    First,
}

/// What a step stands for.
pub open spec fn step_model(s: PathStep) -> JsonStep {
    match s {
        PathStep::Key(key) => JsonStep::Key(key@),
        PathStep::First => JsonStep::Item(0),
    }
}

/// What a path stands for.
pub open spec fn path_model(path: Seq<PathStep>) -> Seq<JsonStep> {
    Seq::new(path.len(), |i: int| step_model(path[i]))
}

/// The text at the end of `path` in `value`: nothing where a step leads
/// nowhere or the end is no string.
pub fn text_at(value: &serde_json::Value, path: &Vec<PathStep>) -> (r: Option<String>)
    ensures
        match r {
            Some(s) => found(json_texts(*value), path_model(path@)) == Some(s@),
            None => found(json_texts(*value), path_model(path@)) is None,
        },
{
    let mut here = value;
    let mut i: usize = 0;
    let ghost whole = path_model(path@);
    assert(whole.skip(0) =~= whole);
    while i < path.len()
        invariant
            i <= path.len(),
            whole == path_model(path@),
            found(json_texts(*value), whole) == found(json_texts(*here), whole.skip(i as int)),
        decreases path.len() - i,
    {
        let ghost rest = whole.skip(i + 1);
        let ghost step = step_model(path@[i as int]);
        proof {
            assert(whole.skip(i as int) =~= seq![step] + rest);
        }
        let next = match path[i] {
            PathStep::Key(key) => json_member(here, key),
            PathStep::First => json_item(here, 0),
        };
        match next {
            Some(inner) => {
                assert(found(json_texts(*inner), rest) == found(json_texts(*here), seq![step] + rest));
                here = inner;
            },
            None => {
                assert(found(json_texts(*here), seq![step] + rest) is None);
                return None;
            },
        }
        i += 1;
    }
    assert(whole.skip(path.len() as int) =~= Seq::<JsonStep>::empty());
    json_text(here)
}

/// Where the id of the lyrics page stands in a next response.
pub open spec fn browse_id_steps() -> Seq<PathStep> {
    seq![
        PathStep::Key("onResponseReceivedActions"),
        PathStep::First,
        PathStep::Key("openPopupAction"),
        PathStep::Key("popup"),
        PathStep::Key("continuationPopupRenderer"),
        PathStep::Key("contents"),
        PathStep::First,
        PathStep::Key("sectionListRenderer"),
        PathStep::Key("contents"),
        PathStep::First,
        PathStep::Key("musicDescriptionShelfRenderer"),
        PathStep::Key("description"),
        PathStep::Key("runs"),
        PathStep::First,
        PathStep::Key("navigationEndpoint"),
        PathStep::Key("browseEndpoint"),
        PathStep::Key("browseId"),
    ]
}

/// Where the id of the video stands in a next response.
pub open spec fn video_id_steps() -> Seq<PathStep> {
    seq![
        PathStep::Key("contents"),
        PathStep::Key("twoColumnWatchNextResults"),
        PathStep::Key("results"),
        PathStep::Key("resultsContent"),
        PathStep::Key("videoPrimaryInfoRenderer"),
        PathStep::Key("videoId"),
    ]
}

/// The path to the id of the lyrics page.
pub fn browse_id_path() -> (r: Vec<PathStep>)
    ensures
        r@ == browse_id_steps(),
{
    let mut p: Vec<PathStep> = Vec::new();
    p.push(PathStep::Key("onResponseReceivedActions"));
    p.push(PathStep::First);
    p.push(PathStep::Key("openPopupAction"));
    p.push(PathStep::Key("popup"));
    p.push(PathStep::Key("continuationPopupRenderer"));
    p.push(PathStep::Key("contents"));
    p.push(PathStep::First);
    p.push(PathStep::Key("sectionListRenderer"));
    p.push(PathStep::Key("contents"));
    p.push(PathStep::First);
    p.push(PathStep::Key("musicDescriptionShelfRenderer"));
    p.push(PathStep::Key("description"));
    p.push(PathStep::Key("runs"));
    p.push(PathStep::First);
    p.push(PathStep::Key("navigationEndpoint"));
    p.push(PathStep::Key("browseEndpoint"));
    p.push(PathStep::Key("browseId"));
    assert(p@ =~= browse_id_steps());
    p
}

/// The path to the id of the video.
pub fn video_id_path() -> (r: Vec<PathStep>)
    ensures
        r@ == video_id_steps(),
{
    let mut p: Vec<PathStep> = Vec::new();
    p.push(PathStep::Key("contents"));
    p.push(PathStep::Key("twoColumnWatchNextResults"));
    p.push(PathStep::Key("results"));
    p.push(PathStep::Key("resultsContent"));
    p.push(PathStep::Key("videoPrimaryInfoRenderer"));
    p.push(PathStep::Key("videoId"));
    assert(p@ =~= video_id_steps());
    p
}

/// The text of a string that may be there.
pub open spec fn text_view(o: Option<String>) -> Option<Seq<char>> {
    match o {
        Some(s) => Some(s@),
        None => None,
    }
}

/// What callers see of a next response: the id of the lyrics page and the
/// id of the video, each where the response has it at its place.
pub fn next_response_of(value: &serde_json::Value) -> (r: NextResponse)
    ensures
        text_view(r.get_browse_id) == found(json_texts(*value), path_model(browse_id_steps())),
        text_view(r.get_video_id) == found(json_texts(*value), path_model(video_id_steps())),
{
    let browse = browse_id_path();
    let video = video_id_path();
    NextResponse { get_browse_id: text_at(value, &browse), get_video_id: text_at(value, &video) }
}

/// The message for a response that names no lyrics page.
pub open spec fn no_browse_id_message(next: NextResponse) -> Seq<char> {
    "Browse ID not found in /next response for video: "@ + match next.get_video_id {
        Some(v) => v@,
        None => Seq::<char>::empty(),
    }
}

/// Whether lyrics can be asked for at all: not for a video without id.
pub fn has_video(video_id: &str) -> (r: bool)
    ensures
        r == (video_id@.len() > 0),
{
    video_id.unicode_len() > 0
}

/// The id of the lyrics page that a response names. A response that names
/// none is a logic error, which says for which video.
pub fn browse_id_of(next: &NextResponse) -> (r: Result<String, InnertubeError>)
    ensures
        match r {
            Ok(id) => next.get_browse_id == Some(id),
            Err(e) => next.get_browse_id is None && (e matches InnertubeError::LogicError {
                message,
            } && message@ == no_browse_id_message(*next)),
        },
{
    match next.get_browse_id() {
        Some(id) => Ok(id),
        None => {
            let mut message = String::from_str("Browse ID not found in /next response for video: ");
            match &next.get_video_id {
                Some(v) => {
                    message.append(v.as_str());
                },
                None => {
                    assert(message@ + Seq::<char>::empty() =~= message@);
                },
            }
            Err(InnertubeError::LogicError { message })
        },
    }
}

/// The handle of the provider's API.
#[derive(Debug)]
pub struct InnertubeClient {
    api_key: String,
}

impl InnertubeClient {
    /// A handle that sends `api_key` with each request.
    pub fn with_key(api_key: String) -> (r: InnertubeClient)
        ensures
            r.key() == api_key@,
    {
        InnertubeClient { api_key }
    }

    /// The key that is sent with each request.
    pub closed spec fn key(&self) -> Seq<char> {
        self.api_key@
    }

    /// The key that is sent with each request.
    pub fn api_key(&self) -> (r: &String)
        ensures
            r@ == self.key(),
    {
        &self.api_key
    }

    /// The fields asked of the player endpoint.
    pub fn get_player_mask(&self) -> (r: String)
        ensures
            r@ == "playabilityStatus,streamingData,videoDetails"@,
    {
        String::from_str("playabilityStatus,streamingData,videoDetails")
    }

    /// The fields asked of the queue endpoint.
    pub fn get_queue_mask(&self) -> (r: String)
        ensures
            r@ == "contents"@,
    {
        String::from_str("contents")
    }

    /// The fields asked of the next endpoint.
    pub fn get_next_mask(&self) -> (r: String)
        ensures
            r@ == "contents,continuationContents"@,
    {
        String::from_str("contents,continuationContents")
    }

    /// The fields asked of the browse endpoint.
    pub fn get_browse_mask(&self) -> (r: String)
        ensures
            r@ == "contents"@,
    {
        String::from_str("contents")
    }

    /// The items of a queue response.
    pub fn parse_queue_items(&self, response: &GetQueueResponseInner) -> (r: Vec<SongItem>)
        ensures
            r@.len() == with_video(queue_renderers(*response)).len(),
            forall|i: int|
                0 <= i < r@.len() ==> {
                    let shown = #[trigger] with_video(queue_renderers(*response))[i];
                    shown.video_id matches Some(id) && shows(r@[i], shown, id)
                },
    {
        queue_items(response)
    }
}

} // verus!
