//! Looking for updates: what to tell the user, and when to look again.

use crate::channel::{VERSION_CHANNEL, VERSION_CHECK_BASE_URL};
use crate::config::MultiTemplateConfig;
use crate::meta::Timestamp;
use vstd::prelude::*;
use vstd::string::*;

verus! {

/// An update that the user can be told of.
#[derive(Debug)]
pub struct UpdateNotice {
    pub current: String,
    pub latest: String,
}

/// The mathematical content of an [`UpdateNotice`].
pub struct UpdateNoticeView {
    pub current: Seq<char>,
    pub latest: Seq<char>,
}

impl View for UpdateNotice {
    type V = UpdateNoticeView;

    open spec fn view(&self) -> UpdateNoticeView {
        UpdateNoticeView { current: self.current@, latest: self.latest@ }
    }
}

/// What asking for the latest version came to.
#[derive(Debug)]
pub enum ForceCheckResult {
    UpdateAvailable(UpdateNotice),
    UpToDate,
    FetchFailed,
}

/// What is remembered between runs.
#[derive(Debug)]
pub struct VersionCheckState {
    pub last_checked: Timestamp,
    pub latest_version: Option<String>,
}

/// The mathematical content of a [`VersionCheckState`].
pub struct VersionCheckStateView {
    pub last_checked: Timestamp,
    pub latest_version: Option<Seq<char>>,
}

impl View for VersionCheckState {
    type V = VersionCheckStateView;

    open spec fn view(&self) -> VersionCheckStateView {
        VersionCheckStateView {
            last_checked: self.last_checked,
            latest_version: crate::config::opt_text(self.latest_version),
        }
    }
}

/// For two texts that semver both reads as versions, whether the first is
/// the greater in the order that `semver::Version` derives: by major, minor
/// and patch number, then by pre-release, then by build metadata. Nothing
/// where semver does not read one of them as a version.
pub uninterp spec fn semver_newer(latest: Seq<char>, current: Seq<char>) -> Option<bool>;

/// `semver::Version::parse` on both texts, and `>` on the two versions. The
/// versions are values of semver's own and stay inside; what comes out
/// depends on the two texts alone, and no text makes a call fail to return.
#[verifier::external_body]
fn compare_versions(latest: &str, current: &str) -> (r: Option<bool>)
    ensures
        r == semver_newer(latest@, current@),
{
    match (semver::Version::parse(latest), semver::Version::parse(current)) {
        (Ok(l), Ok(c)) => Some(l > c),
        _ => None,
    }
}

/// Whether a comparison says that there is a newer version: it does where
/// both texts are versions and the latest is the greater.
pub fn newer_from(compared: Option<bool>) -> (r: bool)
    ensures
        r == (compared == Some(true)),
{
    match compared {
        Some(b) => b,
        None => false,
    }
}

/// Whether `latest` is a newer version than `current`. A text that is no
/// version is never newer, and nothing is newer than it.
pub fn version_newer(latest: &str, current: &str) -> (r: bool)
    ensures
        r == (semver_newer(latest@, current@) == Some(true)),
{
    newer_from(compare_versions(latest, current))
}

/// The hours after which the latest version is asked for again.
pub const CHECK_INTERVAL_HOURS: i64 = 24;

/// Whether what was learnt at `last_checked` is stale at `now`: whether a
/// day or more has passed.
pub fn is_stale(last_checked: &Timestamp, now: &Timestamp) -> (r: bool)
    ensures
        r == (now.seconds_since_of(*last_checked) >= 24 * 3600),
{
    now.seconds_since(last_checked) / 3600 >= CHECK_INTERVAL_HOURS
}

/// Whether looking for updates is enabled: it is unless the configuration
/// could be read and says otherwise.
pub fn is_enabled(config: Option<&MultiTemplateConfig>) -> (r: bool)
    ensures
        r == match config {
            Some(c) => match c@.version_check {
                Some(vc) => vc.enabled,
                None => true,
            },
            None => true,
        },
{
    match config {
        Some(c) => match c.version_check {
            Some(vc) => vc.enabled,
            None => true,
        },
        None => true,
    }
}

/// What to do after a command succeeded.
#[derive(Debug)]
pub struct CacheDecision {
    /// This is the first run: say that updates are looked for, and remember
    /// the time.
    pub first_run: bool,
    /// The update to tell the user of.
    pub notice: Option<UpdateNotice>,
    /// Ask for the latest version in the background, and remember the time.
    pub refresh: bool,
}

/// Decides what to do after a command succeeded, from what is remembered:
/// nothing, if looking for updates is disabled; on the first run, to say so
/// and to look; else to tell of a newer version that is remembered, and to
/// look again if none is remembered or what is remembered is stale.
pub fn check_cache_and_notify(
    enabled: bool,
    state: Option<&VersionCheckState>,
    current: &str,
    now: &Timestamp,
) -> (r: CacheDecision)
    ensures
        !enabled ==> !r.first_run && r.notice is None && !r.refresh,
        enabled && state is None ==> r.first_run && r.notice is None && r.refresh,
        enabled && state is Some ==> {
            let cached = state->0@;
            &&& !r.first_run
            &&& r.refresh == (cached.latest_version is None || now.seconds_since_of(
                cached.last_checked,
            ) >= 24 * 3600)
            &&& r.notice is Some <==> cached.latest_version is Some && semver_newer(
                cached.latest_version->0,
                current@,
            ) == Some(true)
            &&& r.notice matches Some(n) ==> n@ == (UpdateNoticeView {
                current: current@,
                latest: cached.latest_version->0,
            })
        },
{
    if !enabled {
        return CacheDecision { first_run: false, notice: None, refresh: false };
    }
    match state {
        None => CacheDecision { first_run: true, notice: None, refresh: true },
        Some(cached) => {
            let notice = match &cached.latest_version {
                Some(latest) => if version_newer(latest.as_str(), current) {
                    Some(
                        UpdateNotice { current: String::from_str(current), latest: latest.clone() },
                    )
                } else {
                    None
                },
                None => None,
            };
            let refresh = cached.latest_version.is_none() || is_stale(&cached.last_checked, now);
            CacheDecision { first_run: false, notice, refresh }
        },
    }
}

/// What asking for the latest version came to: `fetched` is the answer, if
/// there was one.
pub fn force_check(fetched: Option<String>, current: &str) -> (r: ForceCheckResult)
    ensures
        fetched is None ==> r is FetchFailed,
        fetched matches Some(latest) ==> if semver_newer(latest@, current@) == Some(true) {
            r matches ForceCheckResult::UpdateAvailable(n) && n@ == (UpdateNoticeView {
                current: current@,
                latest: latest@,
            })
        } else {
            r is UpToDate
        },
{
    match fetched {
        Some(latest) => {
            if version_newer(latest.as_str(), current) {
                ForceCheckResult::UpdateAvailable(
                    UpdateNotice { current: String::from_str(current), latest },
                )
            } else {
                ForceCheckResult::UpToDate
            }
        },
        None => ForceCheckResult::FetchFailed,
    }
}

/// What to remember after the latest version was asked for in the
/// background: nothing new, if there was no answer; else the answer, with
/// the time of the last check as remembered, or `now` if nothing was.
pub fn run_background_version_check(
    fetched: Option<String>,
    state: Option<VersionCheckState>,
    now: &Timestamp,
) -> (r: Option<VersionCheckState>)
    ensures
        fetched is None ==> r is None,
        fetched matches Some(latest) ==> r matches Some(s) && s@ == (VersionCheckStateView {
            last_checked: match state {
                Some(old) => old.last_checked,
                None => *now,
            },
            latest_version: Some(latest@),
        }),
{
    match fetched {
        Some(latest) => {
            let last_checked = match state {
                Some(old) => old.last_checked,
                None => *now,
            };
            Some(VersionCheckState { last_checked, latest_version: Some(latest) })
        },
        None => None,
    }
}

/// The address that the latest version is asked for at.
pub fn version_check_url(current: &str) -> (r: String)
    ensures
        r@ == VERSION_CHECK_BASE_URL@ + "?v="@ + current@ + "&channel="@ + VERSION_CHANNEL@,
{
    let mut s = String::from_str(VERSION_CHECK_BASE_URL);
    s.append("?v=");
    s.append(current);
    s.append("&channel=");
    s.append(VERSION_CHANNEL);
    s
}

} // verus!
