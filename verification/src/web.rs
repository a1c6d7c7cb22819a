//! Addresses: the calls into the `url` crate.

use crate::text::{chars_of, index_of_char, lemma_index_of_bounds, pairs_view};
use vstd::prelude::*;

verus! {

/// `url::Url`, an address as the crate holds it.
#[verifier::external_type_specification]
#[verifier::external_body]
pub struct ExUrl(url::Url);

/// The address that `url::Url::parse_with_params` makes of `base` and the
/// query parameters `params`, as text: the parameters are appended to the
/// query in order, percent-encoded. Nothing where `base` is no address.
pub uninterp spec fn url_with_query(base: Seq<char>, params: Seq<(Seq<char>, Seq<char>)>) -> Option<
    Seq<char>,
>;

/// A base that query parameters can be appended to: it has no fragment,
/// and is short enough for the crate's 32-bit positions whatever its
/// characters are.
pub open spec fn can_take_query(base: Seq<char>) -> bool {
    base.len() <= 0x0400_0000 && !base.contains('#')
}

/// `url::Url::parse_with_params`, with the address handed back as text.
/// The crate keeps positions in 32 bits and takes a fragment apart to
/// append to the query: a longer base, or one with a fragment, is left
/// out.
#[verifier::external_body]
fn url_with_params(base: &str, params: &Vec<(String, String)>) -> (r: Option<String>)
    requires
        can_take_query(base@),
    ensures
        match r {
            Some(s) => url_with_query(base@, pairs_view(params@)) == Some(s@),
            None => url_with_query(base@, pairs_view(params@)) is None,
        },
{
    url::Url::parse_with_params(base, params.iter()).ok().map(String::from)
}

/// What [`address_with`] gives.
pub open spec fn address_of(base: Seq<char>, params: Seq<(Seq<char>, Seq<char>)>) -> Option<
    Seq<char>,
> {
    if can_take_query(base) {
        url_with_query(base, params)
    } else {
        None
    }
}

/// The address made of `base` and the query parameters `params`, which
/// are appended in order and percent-encoded. Nothing where `base` is no
/// address, has a fragment or is too long.
pub fn address_with(base: &str, params: &Vec<(String, String)>) -> (r: Option<String>)
    ensures
        match r {
            Some(s) => address_of(base@, pairs_view(params@)) == Some(s@),
            None => address_of(base@, pairs_view(params@)) is None,
        },
{
    let letters = chars_of(base);
    let n = letters.len();
    if n > 0x0400_0000 {
        return None;
    }
    let mark = index_of_char(&letters, n, '#', 0);
    proof {
        assert(letters@.take(n as int) =~= letters@);
        lemma_index_of_bounds(letters@, '#', 0);
    }
    if mark < n {
        assert(base@[mark as int] == '#');
        return None;
    }
    url_with_params(base, params)
}

/// The text of an address, as `url::Url::as_str` gives it. The crate
/// keeps an address as this text with the places of its parts, which are
/// those that parsing the text again gives: the text says all about it.
pub uninterp spec fn url_text(address: url::Url) -> Seq<char>;

/// The text of the address that `url::Url::parse` reads out of `input`;
/// nothing where it reads none.
pub uninterp spec fn url_parsed(input: Seq<char>) -> Option<Seq<char>>;

/// The text of the address that `url::Url::join` makes of `reference` at
/// the address with the text `base`; nothing where it makes none.
pub uninterp spec fn url_joined(base: Seq<char>, reference: Seq<char>) -> Option<Seq<char>>;

/// The decoded pairs that `url::Url::query_pairs` reads out of the query
/// of the address with the text `address`, in order.
pub uninterp spec fn url_pairs(address: Seq<char>) -> Seq<(Seq<char>, Seq<char>)>;

/// The segments that `url::Url::path_segments` cuts the path of the
/// address with the text `address` into, in order; nothing for an address
/// that cannot be a base.
pub uninterp spec fn url_segments(address: Seq<char>) -> Option<Seq<Seq<char>>>;

/// The texts of a list of strings.
pub open spec fn texts_of(v: Seq<String>) -> Seq<Seq<char>> {
    Seq::new(v.len(), |i: int| v[i]@)
}

/// `url::Url::parse`: the address, or nothing where the text is none.
#[verifier::external_body]
pub(crate) fn url_parse(input: &str) -> (r: Option<url::Url>)
    ensures
        match r {
            Some(address) => url_parsed(input@) == Some(url_text(address)),
            None => url_parsed(input@) is None,
        },
{
    url::Url::parse(input).ok()
}

/// `url::Url::join`: the address that `reference` names when read at
/// `base`, or nothing where it names none.
#[verifier::external_body]
pub(crate) fn url_join(base: &url::Url, reference: &str) -> (r: Option<url::Url>)
    ensures
        match r {
            Some(address) => url_joined(url_text(*base), reference@) == Some(url_text(address)),
            None => url_joined(url_text(*base), reference@) is None,
        },
{
    base.join(reference).ok()
}

/// `url::Url::query_pairs`: the decoded pairs of the query, in order.
#[verifier::external_body]
pub(crate) fn url_query_pairs(address: &url::Url) -> (r: Vec<(String, String)>)
    ensures
        pairs_view(r@) == url_pairs(url_text(*address)),
{
    address.query_pairs().map(|p| (p.0.into_owned(), p.1.into_owned())).collect()
}

/// `url::Url::path_segments`: the segments of the path, in order, or
/// nothing for an address that cannot be a base.
#[verifier::external_body]
pub(crate) fn url_path_segments(address: &url::Url) -> (r: Option<Vec<String>>)
    ensures
        match r {
            Some(segments) => url_segments(url_text(*address)) == Some(texts_of(segments@)),
            None => url_segments(url_text(*address)) is None,
        },
{
    address.path_segments().map(|it| it.map(String::from).collect())
}

} // verus!
