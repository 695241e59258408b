//! The cache-or-network policy of the fetcher. The fetcher maps a query
//! URL to a response body, keyed by the full URL string, one file per
//! distinct URL under a fixed namespace of the cache root. The decisions
//! live here and are pure; the front end performs the probe, the disk
//! read and the download they call for, and hands the outcomes back.

use vstd::prelude::*;
use vstd::string::StringSliceAdditionalSpecFns;
use vstd::string::StrSliceExecFns;
use crate::text::push_char;

verus! {

/// Seconds a network fetch may take before it fails rather than hang.
pub const FETCH_TIMEOUT_SECS: u64 = 5;

/// The subdirectory of the cache root that listing responses live under,
/// so later fetch categories do not collide with them.
pub fn cache_subdir() -> (r: &'static str)
    ensures
        r@ == "list"@,
{
    "list"
}

/// The identifying client label sent with every request.
pub fn user_agent() -> (r: &'static str)
    ensures
        r@ == "florinutz/yts"@,
{
    "florinutz/yts"
}

/// A lower-case hex digit.
pub open spec fn hex_lower_of(d: nat) -> char {
    if d < 10 {
        ((d + 48) as u8) as char
    } else {
        ((d + 87) as u8) as char
    }
}

/// A run of bytes spelled as lower-case hex, two digits per byte.
pub open spec fn hex_of(bs: Seq<u8>) -> Seq<char>
    decreases bs.len(),
{
    if bs.len() == 0 {
        Seq::empty()
    } else {
        hex_of(bs.drop_last()).push(hex_lower_of(bs.last() as nat / 16)).push(
            hex_lower_of(bs.last() as nat % 16),
        )
    }
}

fn hex_lower(d: u8) -> (c: char)
    requires
        d < 16,
    ensures
        c == hex_lower_of(d as nat),
{
    if d < 10 {
        (d + 48) as char
    } else {
        (d + 87) as char
    }
}

/// The cache file name of a URL: its UTF-8 bytes spelled in hex, so the
/// full URL string keys the entry and every URL is a plain file name.
pub fn cache_file_name(url: &str) -> (r: String)
    ensures
        r@ == hex_of(url.spec_bytes()),
{
    let bs = url.as_bytes_vec();
    let mut out = String::new();
    let mut i: usize = 0;
    while i < bs.len()
        invariant
            0 <= i <= bs@.len(),
            bs@ == url.spec_bytes(),
            out@ == hex_of(bs@.take(i as int)),
        decreases bs@.len() - i,
    {
        let b = bs[i];
        push_char(&mut out, hex_lower(b / 16));
        push_char(&mut out, hex_lower(b % 16));
        proof {
            assert(bs@.take(i as int + 1).drop_last() =~= bs@.take(i as int));
            assert(bs@.take(i as int + 1).last() == bs@[i as int]);
        }
        i = i + 1;
    }
    proof {
        assert(bs@.take(bs@.len() as int) =~= bs@);
    }
    out
}

/// What a probe of the cache found for a URL's entry.
#[derive(Clone, Copy, Debug, PartialEq, Eq, Structural)]
pub enum CacheProbe {
    /// No entry for this URL.
    Absent,
    /// An entry that cache validation found still fresh.
    Fresh,
    /// An entry that cache validation found out of date.
    Stale,
}

/// What the fetcher tells the front end to do next for a URL.
#[derive(Clone, Copy, Debug, PartialEq, Eq, Structural)]
pub enum FetchAction {
    /// Read the cached entry from disk and return its bytes.
    ReadCache,
    /// Fetch over the network, store the body in the cache, return it.
    Download,
}

/// A failed fetch, tagged with its cause.
#[derive(Clone, Debug, PartialEq)]
pub enum FetchError {
    /// Connection, timeout or non-success status; carries the cause.
    Network(String),
    /// The cache entry could not be read or written; carries the cause.
    /// A corrupt cache surfaces here, never as a silent refetch.
    Cache(String),
}

/// The action the policy takes for each probe outcome: only a fresh entry
/// is read back; an absent or stale one is downloaded anew.
pub open spec fn spec_plan(probe: CacheProbe) -> FetchAction {
    match probe {
        CacheProbe::Fresh => FetchAction::ReadCache,
        CacheProbe::Absent => FetchAction::Download,
        CacheProbe::Stale => FetchAction::Download,
    }
}

/// Decides what to do after probing the cache.
pub fn plan_after_probe(probe: CacheProbe) -> (a: FetchAction)
    ensures
        a == spec_plan(probe),
{
    match probe {
        CacheProbe::Fresh => FetchAction::ReadCache,
        CacheProbe::Absent => FetchAction::Download,
        CacheProbe::Stale => FetchAction::Download,
    }
}

/// Settles the outcome of the download the policy asked for: the body on
/// success, a network error tagged with its cause otherwise. No retry.
pub fn settle_download(outcome: Result<Vec<u8>, String>) -> (r: Result<Vec<u8>, FetchError>)
    ensures
        match outcome {
            Ok(body) => r == Ok::<Vec<u8>, FetchError>(body),
            Err(cause) => r == Err::<Vec<u8>, FetchError>(FetchError::Network(cause)),
        },
{
    match outcome {
        Ok(body) => Ok(body),
        Err(cause) => Err(FetchError::Network(cause)),
    }
}

/// Settles the outcome of the cache read the policy asked for: the body
/// on success, a cache error otherwise. An unreadable entry is surfaced,
/// never papered over by a refetch.
pub fn settle_cache_read(outcome: Result<Vec<u8>, String>) -> (r: Result<Vec<u8>, FetchError>)
    ensures
        match outcome {
            Ok(body) => r == Ok::<Vec<u8>, FetchError>(body),
            Err(cause) => r == Err::<Vec<u8>, FetchError>(FetchError::Cache(cause)),
        },
{
    match outcome {
        Ok(body) => Ok(body),
        Err(cause) => Err(FetchError::Cache(cause)),
    }
}

/// Law: a cache hit performs no network call: when the probe of a
/// previously fetched URL finds the entry fresh, the policy asks the
/// front end to read the cache, never to download.
pub proof fn lemma_cache_hit_avoids_network(probe: CacheProbe)
    requires
        probe == CacheProbe::Fresh,
    ensures
        spec_plan(probe) == FetchAction::ReadCache,
        spec_plan(probe) != FetchAction::Download,
{
}

} // verus!
