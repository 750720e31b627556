//! The library's trusted boundary: every call into an outside crate is made
//! here, behind a contract that names or states what the call returns.

use vstd::prelude::*;

use sha2::Digest;

verus! {

// ---------------- named results ----------------

/// Whether `pattern` compiles as a regular expression that matches somewhere
/// in `hay`: `Err` carries the compile error's rendering (a function of the
/// pattern alone), `Ok` the match verdict.
pub uninterp spec fn re_match_of(pattern: Seq<char>, hay: Seq<char>) -> Result<bool, Seq<char>>;

/// The text of the leftmost match of `pattern` in `hay` (`Err`: compile
/// error rendering; `Ok(None)`: no match).
pub uninterp spec fn re_find_of(pattern: Seq<char>, hay: Seq<char>) -> Result<
    Option<Seq<char>>,
    Seq<char>,
>;

/// The text of capture group 1 of the leftmost match of `pattern` in `hay`
/// (`Ok(None)`: no match, or group 1 took no part in it).
pub uninterp spec fn re_capture1_of(pattern: Seq<char>, hay: Seq<char>) -> Result<
    Option<Seq<char>>,
    Seq<char>,
>;

/// The resolution of the reference `rel` against the absolute URL `base`,
/// when `base` parses and the join succeeds.
pub uninterp spec fn url_join_of(base: Seq<char>, rel: Seq<char>) -> Option<Seq<char>>;

/// The SHA-256 digest of `data`.
pub uninterp spec fn sha256_of(data: Seq<u8>) -> Seq<u8>;

// ---------------- view adapters ----------------

pub open spec fn res_bool_view(r: Result<bool, String>) -> Result<bool, Seq<char>> {
    match r {
        Ok(b) => Ok(b),
        Err(e) => Err(e@),
    }
}

pub open spec fn res_opt_view(r: Result<Option<String>, String>) -> Result<
    Option<Seq<char>>,
    Seq<char>,
> {
    match r {
        Ok(None) => Ok(None),
        Ok(Some(s)) => Ok(Some(s@)),
        Err(e) => Err(e@),
    }
}

pub open spec fn opt_str_view(r: Option<String>) -> Option<Seq<char>> {
    match r {
        None => None,
        Some(s) => Some(s@),
    }
}

// ---------------- trusted wrappers ----------------

/// Relies on `regex::Regex::new` and `Regex::is_match`: compiles `pattern`
/// and reports whether it matches anywhere in `hay`.
#[verifier::external_body]
pub(crate) fn re_is_match(pattern: &str, hay: &str) -> (r: Result<bool, String>)
    ensures
        res_bool_view(r) == re_match_of(pattern@, hay@),
{
    match regex::Regex::new(pattern) {
        Ok(re) => Ok(re.is_match(hay)),
        Err(e) => Err(format!("{e}")),
    }
}

/// Relies on `regex::Regex::new` and `Regex::find`: the text of the leftmost
/// match of `pattern` in `hay`.
#[verifier::external_body]
pub(crate) fn re_find(pattern: &str, hay: &str) -> (r: Result<Option<String>, String>)
    ensures
        res_opt_view(r) == re_find_of(pattern@, hay@),
{
    match regex::Regex::new(pattern) {
        Ok(re) => Ok(re.find(hay).map(|m| m.as_str().to_string())),
        Err(e) => Err(format!("{e}")),
    }
}

/// Relies on `regex::Regex::new` and `Regex::captures`: the text of capture
/// group 1 of the leftmost match of `pattern` in `hay`.
#[verifier::external_body]
pub(crate) fn re_capture1(pattern: &str, hay: &str) -> (r: Result<Option<String>, String>)
    ensures
        res_opt_view(r) == re_capture1_of(pattern@, hay@),
{
    match regex::Regex::new(pattern) {
        Ok(re) => Ok(re.captures(hay).and_then(|c| c.get(1)).map(|m| m.as_str().to_string())),
        Err(e) => Err(format!("{e}")),
    }
}

/// Relies on `url::Url::parse` and `Url::join`: `rel` resolved against
/// `base`, or `None` when `base` does not parse or the join fails.
#[verifier::external_body]
pub(crate) fn url_join(base: &str, rel: &str) -> (r: Option<String>)
    ensures
        opt_str_view(r) == url_join_of(base@, rel@),
{
    match url::Url::parse(base) {
        Ok(b) => match b.join(rel) {
            Ok(u) => Some(u.to_string()),
            Err(_) => None,
        },
        Err(_) => None,
    }
}

/// Relies on `sha2::Sha256` through `Digest::digest`: the SHA-256 digest of
/// `data`, 32 bytes by the algorithm's definition.
#[verifier::external_body]
pub(crate) fn sha256_bytes(data: &[u8]) -> (r: Vec<u8>)
    ensures
        r@ == sha256_of(data@),
        r@.len() == 32,
{
    sha2::Sha256::digest(data).to_vec()
}

/// Relies on `dirs::home_dir`: the platform's notion of the user's home
/// directory, if it reports one; nothing is assumed of the value.
#[verifier::external_body]
pub(crate) fn host_home_dir() -> (r: Option<String>) {
    dirs::home_dir().map(|p| p.to_string_lossy().into_owned())
}

} // verus!
