//! When to look for a newer release, and which version to believe.
//!
//! The latest release is asked of the network at most once a week; in between
//! the answer is kept in a cache. Fetching, reading and writing are the
//! application's; the decisions are made here, on plain values. Versions
//! themselves are parsed and ordered by the `semver` crate.

use crate::text::{chars_of, text_between};
use semver::Version;
use vstd::prelude::*;

verus! {

/// How long a cached answer is believed, in nanoseconds: seven days.
pub const UPDATE_INTERVAL_NANOS: i64 = 604_800_000_000_000;

/// `semver::Version`, a parsed version.
#[verifier::external_type_specification]
#[verifier::external_body]
pub struct ExVersion(Version);

/// `semver::Error`, which says why a text is no version.
#[verifier::external_type_specification]
#[verifier::external_body]
pub struct ExSemverError(semver::Error);

/// The text of a version: what `Display` writes for it, which holds all of
/// its parts.
pub uninterp spec fn version_text(version: Version) -> Seq<char>;

/// The text of the version that `semver::Version::parse` reads from `text`,
/// or `None` where it refuses `text`.
pub uninterp spec fn semver_parsed(text: Seq<char>) -> Option<Seq<char>>;

/// Whether the version with the text `a` is greater than the one with the
/// text `b` in the order of `semver::Version`.
pub uninterp spec fn semver_greater(a: Seq<char>, b: Seq<char>) -> bool;

/// `Version::parse`.
#[verifier::external_body]
fn version_parse(text: &str) -> (r: Result<Version, semver::Error>)
    ensures
        r matches Ok(version) ==> semver_parsed(text@) == Some(version_text(version)),
        r is Err ==> semver_parsed(text@) is None,
{
    Version::parse(text)
}

/// `ToString::to_string` of a `Version`, which goes through its `Display`.
#[verifier::external_body]
fn version_to_string(version: &Version) -> (text: String)
    ensures
        text@ == version_text(*version),
{
    version.to_string()
}

/// `PartialOrd::gt` of `Version`.
#[verifier::external_body]
fn version_greater(a: &Version, b: &Version) -> (greater: bool)
    ensures
        greater == semver_greater(version_text(*a), version_text(*b)),
{
    a > b
}

/// What the cache file holds: the latest version that was seen, and when it
/// was seen, in nanoseconds since the epoch.
#[derive(Debug, PartialEq, Eq)]
pub struct CacheData {
    pub version: String,
    pub last_update_time: i64,
}

/// What a [`CacheData`] holds.
pub struct CacheDataView {
    pub version: Seq<char>,
    pub last_update_time: int,
}

impl View for CacheData {
    type V = CacheDataView;

    open spec fn view(&self) -> CacheDataView {
        CacheDataView { version: self.version@, last_update_time: self.last_update_time as int }
    }
}

/// Where the latest version comes from.
#[derive(Debug, Clone, Copy, PartialEq, Eq, Structural)]
pub enum VersionSource {
    /// The cache is a week old or older: ask the network.
    Fetch,
    /// The cache is fresh: believe it.
    Cache,
}

/// Whether a cache that was written at `last_update_time` is a week old or
/// older at `now`.
pub open spec fn stale(last_update_time: int, now: int) -> bool {
    last_update_time <= now - UPDATE_INTERVAL_NANOS
}

/// Whether the cache is a week old or older at `now`.
pub fn cache_is_stale(cache: &CacheData, now: i64) -> (old: bool)
    ensures
        old == stale(cache@.last_update_time, now as int),
{
    match now.checked_sub(UPDATE_INTERVAL_NANOS) {
        Some(limit) => cache.last_update_time <= limit,
        None => false,
    }
}

/// Where the latest version comes from at `now`.
pub fn version_source(cache: &CacheData, now: i64) -> (source: VersionSource)
    ensures
        source == if stale(cache@.last_update_time, now as int) {
            VersionSource::Fetch
        } else {
            VersionSource::Cache
        },
{
    if cache_is_stale(cache, now) {
        VersionSource::Fetch
    } else {
        VersionSource::Cache
    }
}

/// The cache to start from where none can be read: version `0.0.0`, seen a
/// week before `now`, so that it is stale at once. Where a week before `now`
/// is out of range the earliest time stands in.
pub fn default_cache(now: i64) -> (cache: CacheData)
    ensures
        cache@.version == "0.0.0"@,
        cache@.last_update_time == if now - UPDATE_INTERVAL_NANOS >= i64::MIN {
            now - UPDATE_INTERVAL_NANOS
        } else {
            i64::MIN as int
        },
        now - UPDATE_INTERVAL_NANOS >= i64::MIN ==> stale(cache@.last_update_time, now as int),
{
    let last_update_time = match now.checked_sub(UPDATE_INTERVAL_NANOS) {
        Some(time) => time,
        None => i64::MIN,
    };
    CacheData { version: "0.0.0".to_owned(), last_update_time }
}

/// The cache to write after `latest` was fetched at `now`.
pub fn refreshed_cache(latest: &Version, now: i64) -> (cache: CacheData)
    ensures
        cache@.version == version_text(*latest),
        cache@.last_update_time == now,
{
    CacheData { version: version_to_string(latest), last_update_time: now }
}

/// `text` without the `c`s it starts with.
pub open spec fn without_leading(text: Seq<char>, c: char) -> Seq<char>
    decreases text.len(),
{
    if text.len() > 0 && text[0] == c {
        without_leading(text.drop_first(), c)
    } else {
        text
    }
}

/// [`without_leading`] starts at the first character that is not `c`.
pub proof fn lemma_without_leading(text: Seq<char>, c: char, from: int)
    requires
        0 <= from <= text.len(),
        forall|j: int| 0 <= j < from ==> text[j] == c,
        from < text.len() ==> text[from] != c,
    ensures
        without_leading(text, c) == text.subrange(from, text.len() as int),
    decreases text.len(),
{
    if from == 0 {
        assert(text.subrange(0, text.len() as int) == text);
    } else {
        let rest = text.drop_first();
        assert forall|j: int| 0 <= j < from - 1 implies rest[j] == c by {
            assert(rest[j] == text[j + 1]);
        }
        lemma_without_leading(rest, c, from - 1);
        assert(rest.subrange(from - 1, rest.len() as int) == text.subrange(
            from,
            text.len() as int,
        ));
    }
}

/// The version text of a release tag: the tag without its leading `v`s.
pub fn strip_tag_prefix(tag: &str) -> (text: String)
    ensures
        text@ == without_leading(tag@, 'v'),
{
    let chars = chars_of(tag);
    let mut from: usize = 0;
    while from < chars.len() && chars[from] == 'v'
        invariant
            from <= chars@.len(),
            forall|j: int| 0 <= j < from ==> chars@[j] == 'v',
        decreases chars@.len() - from,
    {
        from += 1;
    }
    proof {
        lemma_without_leading(chars@, 'v', from as int);
    }
    text_between(&chars, from, chars.len())
}

/// The text of a version that may be absent.
pub open spec fn text_of_version(version: Option<Version>) -> Option<Seq<char>> {
    match version {
        Some(version) => Some(version_text(version)),
        None => None,
    }
}

/// Reads a version, if `text` is one.
pub fn parse_version(text: &str) -> (version: Option<Version>)
    ensures
        text_of_version(version) == semver_parsed(text@),
{
    match version_parse(text) {
        Ok(version) => Some(version),
        Err(_) => None,
    }
}

/// Reads the version of a release tag such as `v1.2.3`.
pub fn parse_release_tag(tag: &str) -> (version: Option<Version>)
    ensures
        text_of_version(version) == semver_parsed(without_leading(tag@, 'v')),
{
    let text = strip_tag_prefix(tag);
    parse_version(text.as_str())
}

/// The version to believe after a fetch: what was fetched where the fetch
/// gave a version, else the cached version where it can be read, else
/// `0.0.0`.
pub open spec fn believed(fetched: Option<Seq<char>>, cached: Seq<char>) -> Option<Seq<char>> {
    match fetched {
        Some(version) => Some(version),
        None => match semver_parsed(cached) {
            Some(version) => Some(version),
            None => semver_parsed("0.0.0"@),
        },
    }
}

/// The version to believe after a fetch that may have failed. It is absent
/// only where nothing was fetched and neither the cached text nor `0.0.0`
/// reads as a version.
pub fn latest_or_fallback(fetched: Option<Version>, cached: &str) -> (version: Option<Version>)
    ensures
        text_of_version(version) == believed(text_of_version(fetched), cached@),
{
    match fetched {
        Some(version) => Some(version),
        None => match parse_version(cached) {
            Some(version) => Some(version),
            None => parse_version("0.0.0"),
        },
    }
}

/// Whether `latest` is a newer version than `current`.
pub fn update_available(latest: &Version, current: &Version) -> (newer: bool)
    ensures
        newer == semver_greater(version_text(*latest), version_text(*current)),
{
    version_greater(latest, current)
}

} // verus!
