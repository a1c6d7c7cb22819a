//! The release-notes provider: its records and the shape of its request.

use crate::numeral::{push_signed_decimal, signed_decimal_of};
use crate::text::{pairs_view, string_from};
use vstd::prelude::*;
use vstd::string::StringExecFns;

verus! {

/// Why a call to the provider failed.
#[derive(Debug)]
pub enum GitHubError {
    InvalidPagination,
    RequestFailed { message: String },
}

#[derive(Debug)]
pub struct Reactions {
    pub url: String,
    pub count: i32,
    pub likes: i32,
    pub dislikes: i32,
    pub laughs: i32,
    pub confused: i32,
    pub hearts: i32,
    pub hoorays: i32,
    pub eyes: i32,
    pub rockets: i32,
}

#[derive(Debug)]
pub struct SimpleUser {
    pub name: Option<String>,
    pub email: Option<String>,
    pub login: String,
    pub id: i32,
    pub node_id: String,
    pub avatar_url: String,
    pub gravatar_id: Option<String>,
    pub url: String,
    pub frontend_url: String,
    pub followers_url: String,
    pub following_url: String,
    pub gists_url: String,
    pub starred_url: String,
    pub subscriptions_url: String,
    pub organizations_url: String,
    pub repos_url: String,
    pub events_url: String,
    pub received_events_url: String,
    pub type_: String,
    pub admin: bool,
}

#[derive(Debug, Clone, Copy, PartialEq, Eq, Structural)]
pub enum AssetState {
    Uploaded,
    Open,
}

/// Where the releases of a repository are listed.
pub open spec fn releases_address(owner: Seq<char>, repo: Seq<char>) -> Seq<char> {
    "https://api.github.com/repos/"@ + owner + "/"@ + repo + "/releases"@
}

/// The query of one page of releases.
pub open spec fn releases_query(page: i32, page_size: i32) -> Seq<(Seq<char>, Seq<char>)> {
    seq![
        ("per_page"@, signed_decimal_of(page_size as int)),
        ("page"@, signed_decimal_of(page as int)),
    ]
}

/// The request for one page of the releases of a repository: its address
/// and its query. A page or a page size that is not positive is refused.
pub fn releases_request(owner: &str, repo: &str, page: i32, page_size: i32) -> (r: Result<
    (String, Vec<(String, String)>),
    GitHubError,
>)
    ensures
        match r {
            Ok((address, query)) => page > 0 && page_size > 0 && address@ == releases_address(
                owner@,
                repo@,
            ) && pairs_view(query@) == releases_query(page, page_size),
            Err(e) => (page <= 0 || page_size <= 0) && e is InvalidPagination,
        },
{
    if page <= 0 || page_size <= 0 {
        return Err(GitHubError::InvalidPagination);
    }
    let mut address = String::from_str("https://api.github.com/repos/");
    address.append(owner);
    address.append("/");
    address.append(repo);
    address.append("/releases");
    let mut size_text: Vec<char> = Vec::new();
    push_signed_decimal(&mut size_text, page_size as i64);
    let mut page_text: Vec<char> = Vec::new();
    push_signed_decimal(&mut page_text, page as i64);
    let mut query: Vec<(String, String)> = Vec::new();
    query.push((String::from_str("per_page"), string_from(&size_text)));
    query.push((String::from_str("page"), string_from(&page_text)));
    proof {
        assert(size_text@ =~= signed_decimal_of(page_size as int));
        assert(page_text@ =~= signed_decimal_of(page as int));
        assert(pairs_view(query@) =~= releases_query(page, page_size));
    }
    Ok((address, query))
}

} // verus!
