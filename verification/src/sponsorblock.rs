//! The segment provider: its categories and actions, and the query of a
//! segment lookup.

use crate::text::{pairs_view, push_pair};
use vstd::prelude::*;

verus! {

/// Why a call to the provider failed.
#[derive(Debug, Clone, Copy, PartialEq, Eq, Structural)]
pub enum SponsorBlockError {
    Request,
    Serialization,
    Network,
    InvalidSegmentData,
    UrlParsing,
}

#[derive(Debug, Clone, Copy, PartialEq, Eq, Structural)]
pub enum Category {
    Sponsor,
    SelfPromotion,
    Interaction,
    Intro,
    Outro,
    Preview,
    OfftopicMusic,
    Filler,
    PoiHighlight,
}

#[derive(Debug, Clone, Copy, PartialEq, Eq, Structural)]
pub enum Action {
    Skip,
    Mute,
    Full,
    POI,
    Chapter,
}

/// The name of a category on the wire.
pub open spec fn category_name(c: Category) -> Seq<char> {
    match c {
        Category::Sponsor => "sponsor"@,
        Category::SelfPromotion => "selfpromo"@,
        Category::Interaction => "interaction"@,
        Category::Intro => "intro"@,
        Category::Outro => "outro"@,
        Category::Preview => "preview"@,
        Category::OfftopicMusic => "music_offtopic"@,
        Category::Filler => "filler"@,
        Category::PoiHighlight => "poi_highlight"@,
    }
}

/// The name of an action on the wire.
pub open spec fn action_name(a: Action) -> Seq<char> {
    match a {
        Action::Skip => "skip"@,
        Action::Mute => "mute"@,
        Action::Full => "full"@,
        Action::POI => "poi"@,
        Action::Chapter => "chapter"@,
    }
}

impl Category {
    /// The name that the provider knows the category by.
    pub fn serial_name(&self) -> (r: &'static str)
        ensures
            r@ == category_name(*self),
    {
        match self {
            Category::Sponsor => "sponsor",
            Category::SelfPromotion => "selfpromo",
            Category::Interaction => "interaction",
            Category::Intro => "intro",
            Category::Outro => "outro",
            Category::Preview => "preview",
            Category::OfftopicMusic => "music_offtopic",
            Category::Filler => "filler",
            Category::PoiHighlight => "poi_highlight",
        }
    }
}

impl Action {
    /// The name that the provider knows the action by.
    pub fn serial_name(&self) -> (r: &'static str)
        ensures
            r@ == action_name(*self),
    {
        match self {
            Action::Skip => "skip",
            Action::Mute => "mute",
            Action::Full => "full",
            Action::POI => "poi",
            Action::Chapter => "chapter",
        }
    }
}

/// The handle of the provider's API.
#[derive(Debug)]
pub struct SponsorBlockApi;

/// The categories asked for where the caller names none.
pub open spec fn default_categories() -> Seq<Category> {
    seq![Category::Sponsor, Category::OfftopicMusic, Category::PoiHighlight]
}

/// The actions asked for where the caller names none.
pub open spec fn default_actions() -> Seq<Action> {
    seq![Action::Skip, Action::POI]
}

/// The query of a segment lookup: the video and the service, then one
/// pair for each category, each action and each required segment, in
/// order.
pub open spec fn segment_query(
    video_id: Seq<char>,
    categories: Seq<Category>,
    actions: Seq<Action>,
    required: Seq<String>,
) -> Seq<(Seq<char>, Seq<char>)> {
    seq![("videoID"@, video_id), ("service"@, "YouTube"@)] + Seq::new(
        categories.len(),
        |i: int| ("category"@, category_name(categories[i])),
    ) + Seq::new(actions.len(), |i: int| ("action"@, action_name(actions[i]))) + Seq::new(
        required.len(),
        |i: int| ("requiredSegment"@, required[i]@),
    )
}

/// What the caller's choice stands for.
pub open spec fn chosen<T>(choice: Option<Vec<T>>, default: Seq<T>) -> Seq<T> {
    match choice {
        Some(v) => v@,
        None => default,
    }
}

impl SponsorBlockApi {
    /// A handle of the API.
    pub fn new() -> (r: SponsorBlockApi) {
        SponsorBlockApi
    }

    /// Builds the query of a segment lookup. Categories and actions that
    /// are not named fall back to the defaults; required segments that are
    /// not named are none.
    pub fn segments_query(
        &self,
        video_id: &str,
        categories: Option<Vec<Category>>,
        actions: Option<Vec<Action>>,
        required_segments: Option<Vec<String>>,
    ) -> (r: Vec<(String, String)>)
        ensures
            pairs_view(r@) == segment_query(
                video_id@,
                chosen(categories, default_categories()),
                chosen(actions, default_actions()),
                chosen(required_segments, Seq::empty()),
            ),
    {
        let categories_list = match categories {
            Some(v) => v,
            None => {
                let mut v: Vec<Category> = Vec::new();
                v.push(Category::Sponsor);
                v.push(Category::OfftopicMusic);
                v.push(Category::PoiHighlight);
                assert(v@ =~= default_categories());
                v
            },
        };
        let actions_list = match actions {
            Some(v) => v,
            None => {
                let mut v: Vec<Action> = Vec::new();
                v.push(Action::Skip);
                v.push(Action::POI);
                assert(v@ =~= default_actions());
                v
            },
        };
        let required_list = match required_segments {
            Some(v) => v,
            None => Vec::new(),
        };
        let mut out: Vec<(String, String)> = Vec::new();
        push_pair(&mut out, "videoID", video_id);
        push_pair(&mut out, "service", "YouTube");
        let ghost head = pairs_view(out@);
        assert(head =~= seq![("videoID"@, video_id@), ("service"@, "YouTube"@)]);
        let mut i: usize = 0;
        while i < categories_list.len()
            invariant
                i <= categories_list.len(),
                pairs_view(out@) == head + Seq::new(
                    i as nat,
                    |k: int| ("category"@, category_name(categories_list@[k])),
                ),
            decreases categories_list.len() - i,
        {
            push_pair(&mut out, "category", categories_list[i].serial_name());
            i += 1;
            assert(pairs_view(out@) =~= head + Seq::new(
                i as nat,
                |k: int| ("category"@, category_name(categories_list@[k])),
            ));
        }
        let ghost with_categories = pairs_view(out@);
        let mut j: usize = 0;
        while j < actions_list.len()
            invariant
                j <= actions_list.len(),
                pairs_view(out@) == with_categories + Seq::new(
                    j as nat,
                    |k: int| ("action"@, action_name(actions_list@[k])),
                ),
            decreases actions_list.len() - j,
        {
            push_pair(&mut out, "action", actions_list[j].serial_name());
            j += 1;
            assert(pairs_view(out@) =~= with_categories + Seq::new(
                j as nat,
                |k: int| ("action"@, action_name(actions_list@[k])),
            ));
        }
        let ghost with_actions = pairs_view(out@);
        let mut m: usize = 0;
        while m < required_list.len()
            invariant
                m <= required_list.len(),
                pairs_view(out@) == with_actions + Seq::new(
                    m as nat,
                    |k: int| ("requiredSegment"@, required_list@[k]@),
                ),
            decreases required_list.len() - m,
        {
            push_pair(&mut out, "requiredSegment", required_list[m].as_str());
            m += 1;
            assert(pairs_view(out@) =~= with_actions + Seq::new(
                m as nat,
                |k: int| ("requiredSegment"@, required_list@[k]@),
            ));
        }
        out
    }
}

} // verus!
