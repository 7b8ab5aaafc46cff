//! Checking for a newer release of the application.
//!
//! A release is an update only when its tag, less any leading `v`, is a
//! valid semantic version strictly greater than the running one; a tag that
//! does not parse is never taken for an update.

use vstd::prelude::*;
use crate::liveness::text_of;

verus! {

/// Declares the `semver` crate's version type.
#[verifier::external_type_specification]
#[verifier::external_body]
pub struct ExSemverVersion(semver::Version);

/// Whether `text` is a valid semantic version, as `semver::Version::parse`
/// judges it.
pub uninterp spec fn semver_valid(text: Seq<char>) -> bool;

/// Whether the version written `a` is greater than the one written `b`, in
/// the order of `semver::Version` (major, minor, patch, then pre-release
/// precedence, a pre-release ranking below its release, then build).
pub uninterp spec fn semver_greater(a: Seq<char>, b: Seq<char>) -> bool;

/// A parsed semantic version, with the text it was parsed from.
pub struct ParsedVersion {
    text: String,
    version: semver::Version,
}

impl ParsedVersion {
    /// The text the version was parsed from.
    pub closed spec fn text(self) -> Seq<char> {
        self.text@
    }
}

/// Parses a semantic version.
///
/// Calls `semver::Version::parse`; whether it succeeds is a function of the
/// text alone, named `semver_valid`.
#[verifier::external_body]
fn parse_version(text: &str) -> (r: Option<ParsedVersion>)
    ensures
        r is Some <==> semver_valid(text@),
        r matches Some(v) ==> v.text() == text@,
{
    match semver::Version::parse(text) {
        Ok(version) => Some(ParsedVersion { text: text.to_string(), version }),
        Err(_) => None,
    }
}

/// Whether `a` is a greater version than `b`.
///
/// Compares the two `semver::Version`s with `>`. The answer is a function of
/// the texts they were parsed from, named `semver_greater`; since the order
/// is a total order (`Ord`), a version is never greater than itself, and
/// when `a` is greater than `b`, `b` is not greater than `a`.
#[verifier::external_body]
fn version_greater(a: &ParsedVersion, b: &ParsedVersion) -> (r: bool)
    ensures
        r == semver_greater(a.text(), b.text()),
        a.text() == b.text() ==> !r,
        r ==> !semver_greater(b.text(), a.text()),
{
    a.version > b.version
}

/// Whether a release is an update for the running version.
pub open spec fn is_newer_spec(latest: Seq<char>, current: Seq<char>) -> bool {
    semver_valid(latest) && semver_valid(current) && semver_greater(latest, current)
}

/// True only when `latest` is a valid semantic version strictly greater than
/// `current`; an unparseable version on either side means "no update".
/// A version is never newer than itself, and when `latest` is newer than
/// `current`, `current` is not newer than `latest`.
pub fn is_newer(latest: &str, current: &str) -> (r: bool)
    ensures
        r == is_newer_spec(latest@, current@),
        latest@ == current@ ==> !r,
        r ==> !is_newer_spec(current@, latest@),
{
    let latest_ver = match parse_version(latest) {
        Some(v) => v,
        None => return false,
    };
    let current_ver = match parse_version(current) {
        Some(v) => v,
        None => return false,
    };
    version_greater(&latest_ver, &current_ver)
}

/// The tag of a release with every leading `v` removed (`v1.2.3` is `1.2.3`).
pub open spec fn without_v_prefix(tag: Seq<char>) -> Seq<char>
    decreases tag.len(),
{
    if tag.len() > 0 && tag[0] == 'v' {
        without_v_prefix(tag.drop_first())
    } else {
        tag
    }
}

/// Removes every leading `v` from a release tag.
pub fn strip_v_prefix(tag: &str) -> (r: &str)
    ensures
        r@ == without_v_prefix(tag@),
{
    let n = tag.unicode_len();
    let mut i: usize = 0;
    assert(tag@.skip(0) =~= tag@);
    while i < n && tag.get_char(i) == 'v'
        invariant
            n == tag@.len(),
            i <= n,
            without_v_prefix(tag@) == without_v_prefix(tag@.skip(i as int)),
        decreases n - i,
    {
        assert(tag@.skip(i as int).drop_first() =~= tag@.skip(i as int + 1));
        i = i + 1;
    }
    let r = tag.substring_char(i, n);
    assert(r@ =~= tag@.skip(i as int));
    r
}

/// What an update check reports.
#[derive(Debug, Clone)]
pub struct UpdateInfo {
    pub available: bool,
    pub current_version: String,
    pub latest_version: Option<String>,
    pub release_url: Option<String>,
    pub release_notes: Option<String>,
}

/// The report for the latest release, tagged `tag` (at `url`, with notes
/// `body`), seen from the running version `current`.
pub fn update_info_from_release(tag: &str, url: String, body: Option<String>, current: &str) -> (info: UpdateInfo)
    ensures
        info.available == is_newer_spec(without_v_prefix(tag@), current@),
        info.current_version@ == current@,
        text_of(info.latest_version) == Some(without_v_prefix(tag@)),
        info.release_url == Some(url),
        info.release_notes == body,
{
    let latest = strip_v_prefix(tag);
    let available = is_newer(latest, current);
    UpdateInfo {
        available,
        current_version: String::from_str(current),
        latest_version: Some(String::from_str(latest)),
        release_url: Some(url),
        release_notes: body,
    }
}

/// The shortest interval between two background update checks, in hours.
pub const UPDATE_CHECK_MIN_INTERVAL_HOURS: u64 = 1;

/// The pause after a background update check, in seconds: the configured
/// interval in hours, at least one hour.
pub fn update_check_pause_secs(interval_hours: u64) -> (secs: u64)
    requires
        interval_hours * 3600 <= u64::MAX,
    ensures
        secs == (if interval_hours < 1 { 1 } else { interval_hours }) * 3600,
{
    let hours = if interval_hours < UPDATE_CHECK_MIN_INTERVAL_HOURS {
        UPDATE_CHECK_MIN_INTERVAL_HOURS
    } else {
        interval_hours
    };
    hours * 3600
}

/// Whether an available update should be announced: only when its version
/// differs from the one already announced this session.
pub fn should_announce(latest: &Option<String>, last_announced: &Option<String>) -> (r: bool)
    ensures
        r == (text_of(*latest) != text_of(*last_announced)),
{
    match (latest, last_announced) {
        (Some(a), Some(b)) => {
            let same = crate::text::eq_exact(a.as_str(), b.as_str());
            !same
        },
        (None, None) => false,
        _ => true,
    }
}

} // verus!
