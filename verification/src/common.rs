//! What every provider shares: the errors, the raw request and response,
//! and the reading of JSON text.

use crate::timeline::{entries_map, lemma_entries_absent, lemma_entries_lookup, unique_keys};
use std::collections::HashMap;
use vstd::prelude::*;
use vstd::string::StringExecFns;

verus! {

/// An error inside the library, with its message.
#[derive(Debug)]
pub enum CoreError {
    Network(String),
    UrlParse(String),
    Parse(String),
    InvalidMethod(String),
    InvalidHeader(String),
}

/// An error as callers see it.
#[derive(Debug)]
pub enum ApiError {
    RequestError(String),
    ParseError(String),
}

/// What callers see of an error of the library: everything about the
/// request is a request error, with a prefix for a bad method or header;
/// unreadable JSON is a parse error.
pub open spec fn api_error_of(err: CoreError, shown: ApiError) -> bool {
    match err {
        CoreError::Network(m) => shown matches ApiError::RequestError(s) && s@ == m@,
        CoreError::UrlParse(m) => shown matches ApiError::RequestError(s) && s@ == m@,
        CoreError::InvalidMethod(m) => shown matches ApiError::RequestError(s) && s@
            == "Invalid Method: "@ + m@,
        CoreError::InvalidHeader(m) => shown matches ApiError::RequestError(s) && s@
            == "Header error: "@ + m@,
        CoreError::Parse(m) => shown matches ApiError::ParseError(s) && s@ == m@,
    }
}

impl ApiError {
    /// The error that callers see for an error of the library.
    pub fn from_core(err: CoreError) -> (r: ApiError)
        ensures
            api_error_of(err, r),
    {
        match err {
            CoreError::Network(m) => ApiError::RequestError(m),
            CoreError::UrlParse(m) => ApiError::RequestError(m),
            CoreError::InvalidMethod(m) => ApiError::RequestError(
                String::from_str("Invalid Method: ").concat(m.as_str()),
            ),
            CoreError::InvalidHeader(m) => ApiError::RequestError(
                String::from_str("Header error: ").concat(m.as_str()),
            ),
            CoreError::Parse(m) => ApiError::ParseError(m),
        }
    }
}

/// What `reqwest::header::HeaderName::from_str` objects to in `name`, in
/// the words of its error; nothing where `name` is a header name.
pub uninterp spec fn header_name_fault(name: Seq<char>) -> Option<Seq<char>>;

/// A character that a header value may hold: a tab, or any character
/// from the space on but the delete character.
pub open spec fn is_value_char(c: char) -> bool {
    c == '\t' || (c as u32 >= 32 && c as u32 != 127)
}

/// What is wrong with `value` as a header value: nothing where every
/// character may stand in one, else the one message of the error.
pub open spec fn header_value_fault(value: Seq<char>) -> Option<Seq<char>> {
    if forall|i: int| 0 <= i < value.len() ==> is_value_char(#[trigger] value[i]) {
        None
    } else {
        Some("failed to parse header value"@)
    }
}

/// `reqwest::header::HeaderName::from_str`, keeping only the message of
/// its error.
#[verifier::external_body]
fn name_fault(name: &str) -> (r: Option<String>)
    ensures
        match r {
            Some(m) => header_name_fault(name@) == Some(m@),
            None => header_name_fault(name@) is None,
        },
{
    name.parse::<reqwest::header::HeaderName>().err().map(|e| e.to_string())
}

/// `reqwest::header::HeaderValue::from_str`, keeping only the message of
/// its error. It takes a value exactly when each of its bytes is a tab or
/// at least 32 and not 127, which every byte of a character beyond ASCII
/// is, and its error has one message.
#[verifier::external_body]
fn value_fault(value: &str) -> (r: Option<String>)
    ensures
        match r {
            Some(m) => header_value_fault(value@) == Some(m@),
            None => header_value_fault(value@) is None,
        },
{
    reqwest::header::HeaderValue::from_str(value).err().map(|e| e.to_string())
}

/// What `serde_json::from_str` reads out of `text` as a map from string
/// to string: the map, or the message of the reader's error where the
/// text is no JSON object of strings.
pub uninterp spec fn json_string_map(text: Seq<char>) -> Result<
    Map<Seq<char>, Seq<char>>,
    Seq<char>,
>;

/// `serde_json::from_str` into a map from string to string, handed back
/// as its pairs, or the message of the reader's error. The pairs are
/// those of the map, each key once; the order in which the map gives them
/// out is left open.
#[verifier::external_body]
fn json_string_pairs(text: &str) -> (r: Result<Vec<(String, String)>, String>)
    ensures
        match r {
            Ok(pairs) => unique_keys(pairs@) && json_string_map(text@) == Ok::<
                Map<Seq<char>, Seq<char>>,
                Seq<char>,
            >(entries_map(pairs@)),
            Err(m) => json_string_map(text@) == Err::<Map<Seq<char>, Seq<char>>, Seq<char>>(m@),
        },
{
    serde_json::from_str::<HashMap<String, String>>(text).map(|m| m.into_iter().collect()).map_err(
        |e| e.to_string(),
    )
}

/// What is wrong with the header `name: value`, if anything: the name is
/// looked at first.
pub open spec fn header_fault(name: Seq<char>, value: Seq<char>) -> Option<Seq<char>> {
    match header_name_fault(name) {
        Some(e) => Some("Invalid header name ("@ + name + "): "@ + e),
        None => match header_value_fault(value) {
            Some(e) => Some("Invalid header value for "@ + name + ": "@ + e),
            None => None,
        },
    }
}

/// What is wrong with the first header of `headers` that has a fault.
pub open spec fn first_header_fault(headers: Seq<(String, String)>) -> Option<Seq<char>>
    decreases headers.len(),
{
    if headers.len() == 0 {
        None
    } else {
        match header_fault(headers[0].0@, headers[0].1@) {
            Some(m) => Some(m),
            None => first_header_fault(headers.drop_first()),
        }
    }
}

/// Checks that every header has a valid name and a valid value. The first
/// header with a fault, in the order of the list, is reported as an
/// invalid header.
pub fn checked_headers(headers: &Vec<(String, String)>) -> (r: Result<(), CoreError>)
    ensures
        match r {
            Ok(_) => first_header_fault(headers@) is None,
            Err(e) => e matches CoreError::InvalidHeader(m) && first_header_fault(headers@)
                == Some(m@),
        },
{
    let n = headers.len();
    let mut i: usize = 0;
    assert(headers@.skip(0) =~= headers@);
    while i < n
        invariant
            i <= n,
            n == headers.len(),
            first_header_fault(headers@) == first_header_fault(headers@.skip(i as int)),
        decreases n - i,
    {
        proof {
            assert(headers@.skip(i as int)[0] == headers@[i as int]);
            assert(headers@.skip(i as int).drop_first() =~= headers@.skip(i + 1));
        }
        let name = headers[i].0.as_str();
        match name_fault(name) {
            Some(e) => {
                let mut m = String::from_str("Invalid header name (");
                m.append(name);
                m.append("): ");
                m.append(e.as_str());
                return Err(CoreError::InvalidHeader(m));
            },
            None => {},
        }
        match value_fault(headers[i].1.as_str()) {
            Some(e) => {
                let mut m = String::from_str("Invalid header value for ");
                m.append(name);
                m.append(": ");
                m.append(e.as_str());
                return Err(CoreError::InvalidHeader(m));
            },
            None => {},
        }
        i += 1;
    }
    Ok(())
}

/// No header of the mapping has a fault.
pub open spec fn no_header_fault(headers: Map<Seq<char>, Seq<char>>) -> bool {
    forall|k: Seq<char>| headers.contains_key(k) ==> (#[trigger] header_fault(k, headers[k])) is None
}

/// A list without a first fault has no fault at all, and a first fault is
/// the fault of one of the headers.
proof fn lemma_first_header_fault(headers: Seq<(String, String)>)
    ensures
        match first_header_fault(headers) {
            Some(m) => exists|i: int|
                0 <= i < headers.len() && header_fault(
                    (#[trigger] headers[i]).0@,
                    headers[i].1@,
                ) == Some(m),
            None => forall|i: int|
                0 <= i < headers.len() ==> header_fault(
                    (#[trigger] headers[i]).0@,
                    headers[i].1@,
                ) is None,
        },
    decreases headers.len(),
{
    if headers.len() > 0 {
        let rest = headers.drop_first();
        lemma_first_header_fault(rest);
        match header_fault(headers[0].0@, headers[0].1@) {
            Some(m) => {
                assert(header_fault(headers[0].0@, headers[0].1@) == Some(m));
            },
            None => {
                match first_header_fault(rest) {
                    Some(m) => {
                        let i = choose|i: int|
                            0 <= i < rest.len() && header_fault(
                                (#[trigger] rest[i]).0@,
                                rest[i].1@,
                            ) == Some(m);
                        assert(rest[i] == headers[i + 1]);
                    },
                    None => {
                        assert forall|i: int| 0 <= i < headers.len() implies header_fault(
                            (#[trigger] headers[i]).0@,
                            headers[i].1@,
                        ) is None by {
                            if i > 0 {
                                assert(rest[i - 1] == headers[i]);
                            }
                        }
                    },
                }
            },
        }
    }
}

/// What reading the headers gives for the JSON text `text`: an invalid
/// header with the reader's message where the text is no object of
/// strings; else the headers of that object, each once, where none has a
/// fault, and else the fault of one of them.
pub open spec fn headers_read(text: Seq<char>, r: Result<Vec<(String, String)>, CoreError>) -> bool {
    match json_string_map(text) {
        Err(m) => r matches Err(e) && (e matches CoreError::InvalidHeader(s) && s@
            == "Failed to parse JSON headers: "@ + m),
        Ok(map) => match r {
            Ok(h) => unique_keys(h@) && entries_map(h@) == map && no_header_fault(map),
            Err(e) => e matches CoreError::InvalidHeader(s) && exists|k: Seq<char>|
                map.contains_key(k) && #[trigger] header_fault(k, map[k]) == Some(s@),
        },
    }
}

/// Reads the headers of a request from their JSON text, an object from
/// names to values, and checks each of them. No text gives no headers.
///
/// Text that is no such object is an invalid header with the reader's
/// message. Else the headers of the object come back, each once, if none
/// of them has a fault; if some have, the fault of one of them is the
/// invalid header reported.
pub fn parse_headers_from_json(headers_json: Option<String>) -> (r: Result<
    Vec<(String, String)>,
    CoreError,
>)
    ensures
        match headers_json {
            None => r matches Ok(h) && h@.len() == 0,
            Some(text) => headers_read(text@, r),
        },
        match r {
            Ok(h) => first_header_fault(h@) is None,
            Err(e) => headers_json is Some && e is InvalidHeader,
        },
{
    let text = match headers_json {
        Some(t) => t,
        None => {
            return Ok(Vec::new());
        },
    };
    match json_string_pairs(text.as_str()) {
        Ok(pairs) => {
            let ghost map = entries_map(pairs@);
            proof {
                lemma_first_header_fault(pairs@);
            }
            match checked_headers(&pairs) {
                Ok(_) => {
                    proof {
                        assert forall|k: Seq<char>| map.contains_key(k) implies (
                        #[trigger] header_fault(k, map[k])) is None by {
                            if forall|j: int|
                                0 <= j < pairs@.len() ==> (#[trigger] pairs@[j]).0@ != k {
                                lemma_entries_absent(pairs@, k);
                            }
                            let i = choose|i: int|
                                0 <= i < pairs@.len() && (#[trigger] pairs@[i]).0@ == k;
                            lemma_entries_lookup(pairs@, k, i);
                        }
                    }
                    Ok(pairs)
                },
                Err(e) => {
                    proof {
                        let m = first_header_fault(pairs@)->0;
                        let i = choose|i: int|
                            0 <= i < pairs@.len() && header_fault(
                                (#[trigger] pairs@[i]).0@,
                                pairs@[i].1@,
                            ) == Some(m);
                        let k = pairs@[i].0@;
                        lemma_entries_lookup(pairs@, k, i);
                        assert(map.contains_key(k) && header_fault(k, map[k]) == Some(m));
                    }
                    Err(e)
                },
            }
        },
        Err(e) => Err(
            CoreError::InvalidHeader(
                String::from_str("Failed to parse JSON headers: ").concat(e.as_str()),
            ),
        ),
    }
}

/// A request as callers hand it in.
#[derive(Debug)]
pub struct NetworkRequest {
    pub url: String,
    pub method: String,
    pub headers_json: Option<String>,
    pub body: Option<String>,
}

/// A response as callers get it back, whatever its status.
#[derive(Debug)]
pub struct RawResponse {
    pub status_code: i64,
    pub body: String,
}

/// `serde_json::Value`, a JSON value as the crate holds it.
#[verifier::external_type_specification]
#[verifier::external_body]
pub struct ExJsonValue(serde_json::Value);

/// `serde_json::Error`, carried from the reader to its message.
#[verifier::external_type_specification]
#[verifier::external_body]
pub struct ExJsonError(serde_json::Error);

/// One step down into a JSON value, as it is spoken of.
pub enum JsonStep {
    /// Into the member of an object under this key.
    Key(Seq<char>),
    /// Into the item of an array at this index.
    Item(nat),
}

/// What a JSON value holds of texts: the string at the end of each path
/// that leads to one. A path steps into the member of an object under a
/// key or into the item of an array at an index; the empty path ends at
/// the value itself.
pub uninterp spec fn json_texts(value: serde_json::Value) -> Map<Seq<JsonStep>, Seq<char>>;

/// The text at the end of `path` among `texts`, if the path leads to one.
pub open spec fn found(texts: Map<Seq<JsonStep>, Seq<char>>, path: Seq<JsonStep>) -> Option<
    Seq<char>,
> {
    if texts.contains_key(path) {
        Some(texts[path])
    } else {
        None
    }
}

/// What `serde_json::from_str` reads out of `text` as a JSON value: the
/// texts that the value holds, or nothing where the text is no JSON.
pub uninterp spec fn json_read(text: Seq<char>) -> Option<Map<Seq<JsonStep>, Seq<char>>>;

/// Whether `serde_json` reads `text` as one JSON value.
pub open spec fn is_json(text: Seq<char>) -> bool {
    json_read(text) is Some
}

/// `serde_json::from_str` into a `Value`: the value, which holds what is
/// read out of the text, where the text is one JSON value, else the
/// reader's error.
#[verifier::external_body]
fn json_from_str(text: &str) -> (r: Result<serde_json::Value, serde_json::Error>)
    ensures
        match r {
            Ok(value) => json_read(text@) == Some(json_texts(value)),
            Err(_) => json_read(text@) is None,
        },
{
    serde_json::from_str::<serde_json::Value>(text)
}

/// The message of a `serde_json::Error`, as its `Display` writes it.
#[verifier::external_body]
fn json_error_text(e: &serde_json::Error) -> String {
    e.to_string()
}

/// Reads a response text as JSON. `context` names the response for those
/// who read the failure.
///
/// Succeeds exactly on JSON, with the value that holds what the text
/// says; any other text is a parse error.
pub fn parse_json_from_text(response_text: &str, context: &str) -> (r: Result<
    serde_json::Value,
    CoreError,
>)
    ensures
        match r {
            Ok(value) => json_read(response_text@) == Some(json_texts(value)),
            Err(e) => json_read(response_text@) is None && e is Parse,
        },
        r is Ok <==> is_json(response_text@),
{
    match json_from_str(response_text) {
        Ok(value) => Ok(value),
        Err(e) => Err(CoreError::Parse(json_error_text(&e))),
    }
}

} // verus!
