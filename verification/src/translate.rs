//! The translation provider: the query of a translation and the policy of
//! its retries.

use crate::text::{pairs_view, push_pair};
use vstd::prelude::*;

verus! {

/// A language of the provider.
#[derive(Debug, Clone, Copy, PartialEq, Eq, Structural)]
pub enum Language {
    /// Let the provider find out; only a source can be this.
    Auto,
    English,
    French,
    ChineseSimplified,
}

/// The code of a language on the wire.
pub open spec fn language_code(l: Language) -> Seq<char> {
    match l {
        Language::Auto => "auto"@,
        Language::English => "en"@,
        Language::French => "fr"@,
        Language::ChineseSimplified => "zh-cn"@,
    }
}

impl Language {
    /// The code that the provider knows the language by.
    pub fn code(&self) -> (r: &'static str)
        ensures
            r@ == language_code(*self),
    {
        match self {
            Language::Auto => "auto",
            Language::English => "en",
            Language::French => "fr",
            Language::ChineseSimplified => "zh-cn",
        }
    }
}

/// Why a translation failed.
#[derive(Debug)]
pub enum TranslateError {
    TargetLanguageAuto,
    CoreError { message: String },
    RequestError { message: String },
    Panic { message: String },
}

/// The kinds of data asked of the provider, in the order sent.
pub open spec fn data_kinds() -> Seq<Seq<char>> {
    seq!["at"@, "bd"@, "ex"@, "ld"@, "md"@, "qca"@, "rw"@, "rm"@, "ss"@, "t"@]
}

/// The query of a translation.
pub open spec fn translation_query(text: Seq<char>, from: Language, to: Language) -> Seq<
    (Seq<char>, Seq<char>),
> {
    seq![
        ("client"@, "gtx"@),
        ("ie"@, "utf-8"@),
        ("oe"@, "utf-8"@),
        ("otf"@, "1"@),
        ("ssel"@, "0"@),
        ("tsel"@, "0"@),
        ("sl"@, language_code(from)),
        ("tl"@, language_code(to)),
        ("hl"@, language_code(to)),
        ("q"@, text),
    ] + Seq::new(data_kinds().len(), |i: int| ("dt"@, data_kinds()[i]))
}

/// Builds the query of a translation. The target must be a language: one
/// left to the provider is refused.
pub fn translate_query(text: &str, from: Language, to: Language) -> (r: Result<
    Vec<(String, String)>,
    TranslateError,
>)
    ensures
        match r {
            Ok(q) => to != Language::Auto && pairs_view(q@) == translation_query(text@, from, to),
            Err(e) => to == Language::Auto && e is TargetLanguageAuto,
        },
{
    if to == Language::Auto {
        return Err(TranslateError::TargetLanguageAuto);
    }
    let mut q: Vec<(String, String)> = Vec::new();
    push_pair(&mut q, "client", "gtx");
    push_pair(&mut q, "ie", "utf-8");
    push_pair(&mut q, "oe", "utf-8");
    push_pair(&mut q, "otf", "1");
    push_pair(&mut q, "ssel", "0");
    push_pair(&mut q, "tsel", "0");
    push_pair(&mut q, "sl", from.code());
    push_pair(&mut q, "tl", to.code());
    push_pair(&mut q, "hl", to.code());
    push_pair(&mut q, "q", text);
    push_pair(&mut q, "dt", "at");
    push_pair(&mut q, "dt", "bd");
    push_pair(&mut q, "dt", "ex");
    push_pair(&mut q, "dt", "ld");
    push_pair(&mut q, "dt", "md");
    push_pair(&mut q, "dt", "qca");
    push_pair(&mut q, "dt", "rw");
    push_pair(&mut q, "dt", "rm");
    push_pair(&mut q, "dt", "ss");
    push_pair(&mut q, "dt", "t");
    assert(pairs_view(q@) =~= translation_query(text@, from, to));
    Ok(q)
}

/// How a request failed.
#[derive(Debug, Clone, Copy, PartialEq, Eq, Structural)]
pub enum Failure {
    /// The provider answered with a status of the client-error class.
    ClientStatus,
    /// The provider answered with a status of the server-error class.
    ServerStatus,
    /// Anything else: no answer, a broken one, an unreadable one.
    Other,
}

/// What to do after a failure.
#[derive(Debug, Clone, Copy, PartialEq, Eq, Structural)]
pub enum Retry {
    /// Stop and report the last error.
    GiveUp,
    /// Wait `delay_ms` milliseconds and try again; `retries` have then
    /// been made.
    After { delay_ms: u64, retries: u32 },
}

/// How many times a request is tried again.
pub open spec fn max_retries() -> u32 {
    2
}

/// The policy of the retries: a client error is final, two retries are the
/// most, and the wait before retry `k` is `100 * 2^k` milliseconds, so 200
/// and then 400.
pub open spec fn retry_policy(retries: u32, failure: Failure) -> Retry {
    if failure == Failure::ClientStatus || retries >= max_retries() {
        Retry::GiveUp
    } else if retries == 0 {
        Retry::After { delay_ms: 200, retries: 1 }
    } else {
        Retry::After { delay_ms: 400, retries: 2 }
    }
}

/// Decides what follows a failure after `retries` retries.
pub fn after_failure(retries: u32, failure: Failure) -> (r: Retry)
    ensures
        r == retry_policy(retries, failure),
{
    if failure == Failure::ClientStatus || retries >= 2 {
        return Retry::GiveUp;
    }
    let next: u32 = retries + 1;
    let factor: u64 = if next == 1 {
        2
    } else {
        4
    };
    Retry::After { delay_ms: 100 * factor, retries: next }
}

} // verus!
