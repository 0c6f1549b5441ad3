//! The decision logic of artifact fetching. The network transfer itself is
//! I/O and lives with the caller; this module holds what can be decided from
//! plain values: locating the release asset whose name matches the resolved
//! artifact, classifying fetch failures, and validating URLs.

use vstd::prelude::*;

use crate::util::str_eq;

verus! {

/// Why an artifact could not be fetched.
#[derive(Clone, Copy, Debug, PartialEq, Eq, Structural)]
pub enum FetchError {
    /// The release metadata could not be retrieved.
    ReleaseLookupFailed,
    /// No asset in the release matches the expected artifact name.
    AssetNotFound,
    /// The transfer failed after the asset URL was resolved.
    DownloadFailed,
}

/// The index of the first asset whose name equals `wanted`, or `None` when no
/// asset matches — the condition that is reported as `AssetNotFound`.
pub fn find_asset(names: &Vec<String>, wanted: &str) -> (r: Option<usize>)
    ensures
        match r {
            Some(i) => i < names@.len() && names@[i as int]@ == wanted@ && forall|j: int|
                0 <= j < i ==> names@[j]@ != wanted@,
            None => forall|j: int| 0 <= j < names@.len() ==> names@[j]@ != wanted@,
        },
{
    let mut i: usize = 0;
    while i < names.len()
        invariant
            i <= names@.len(),
            forall|j: int| 0 <= j < i ==> names@[j]@ != wanted@,
        decreases names@.len() - i,
    {
        if str_eq(names[i].as_str(), wanted) {
            return Some(i);
        }
        i += 1;
    }
    None
}

/// The fetcher's asset decision: the index of the first release asset whose
/// name equals the resolved artifact name, or `AssetNotFound` — the release
/// and the platform table disagree — exactly when no asset matches.
pub fn locate_asset(names: &Vec<String>, wanted: &str) -> (r: Result<usize, FetchError>)
    ensures
        match r {
            Ok(i) => i < names@.len() && names@[i as int]@ == wanted@ && forall|j: int|
                0 <= j < i ==> names@[j]@ != wanted@,
            Err(e) => e == FetchError::AssetNotFound && forall|j: int|
                0 <= j < names@.len() ==> names@[j]@ != wanted@,
        },
{
    match find_asset(names, wanted) {
        Some(i) => Ok(i),
        None => Err(FetchError::AssetNotFound),
    }
}

/// Whether `url::Url::parse` accepts the string; the outcome depends on the
/// characters alone.
pub uninterp spec fn url_accepts(s: Seq<char>) -> bool;

/// Relies on `url::Url::parse`: returns whether the string parses as an
/// absolute URL; the result is a function of the input characters alone.
#[verifier::external_body]
fn parse_url_ok(s: &str) -> (r: bool)
    ensures
        r == url_accepts(s@),
{
    url::Url::parse(s).is_ok()
}

/// True when the string is a URL that the fetcher would accept.
pub fn is_valid_url(url: &str) -> (r: bool)
    ensures
        r == url_accepts(url@),
{
    parse_url_ok(url)
}

} // verus!
