//! GitHub-release auto-updater: what a check finds, and which release an update
//! goes for.

use vstd::prelude::*;

use crate::apply::{self, Job};
use crate::msi::{self, Upgrade};
use crate::place::Environment;
use crate::project::Project;
use crate::release::{self, Os, Release, ReleaseAsset};
use crate::state::{self, Record, UpdateStatus};
use crate::text;
use crate::version;

pub use crate::aliases::refresh_aliases;
pub use crate::apply::{apply, install_frontends, Applied, FrontendOutcome};
pub use crate::msi::{is_product_code, msi_product_code, parse_reg_value};
pub use crate::release::{
    arch_target, archive_kind, archive_suffix, latest_release, release_named,
};
pub use crate::version::version_gt;

verus! {

/// Six hours: long enough that a panel polling this costs nothing, short
/// enough that a release lands the same day. The check itself is always live;
/// this is the caller's answer to how stale a banner may be.
pub const CACHE_TTL_MS: i64 = 6 * 60 * 60 * 1000;

/// What GitHub's asset `url` has to be asked for: it is the API endpoint, which
/// streams the binary only under this `Accept`, and otherwise returns the asset's
/// JSON metadata.
pub const DOWNLOAD_ACCEPT: &'static str = "application/octet-stream";

/// The status that a check records, where the cache says `now` once the answer is
/// in and the answer is `latest`. `updated` is whether an update was recorded
/// while the check asked.
///
/// The running version is what is current, except that such an update is not
/// undone: where what it left in the cache is newer than the running version,
/// that is current and is compared against. Another check that finishes meanwhile
/// changes nothing in that. The `notified` guard is preserved.
pub open spec fn checked(
    now: Record,
    updated: bool,
    running: Seq<char>,
    latest: Seq<char>,
    now_ms: i64,
) -> Record {
    let current = if updated && version::newer(now.current, running) {
        now.current
    } else {
        running
    };
    Record {
        current,
        latest: Some(latest),
        available: version::newer(latest, current),
        checked_ms: now_ms,
        notified: now.notified,
    }
}

/// The status that an update records: what it installed is current and latest,
/// and there is nothing to announce.
pub open spec fn applied(version: Seq<char>, now_ms: i64) -> Record {
    Record {
        current: version,
        latest: Some(version),
        available: false,
        checked_ms: now_ms,
        notified: None,
    }
}

/// Whether a cached status still answers: it carries an answer, and that is
/// younger than [`CACHE_TTL_MS`].
pub open spec fn is_fresh(r: Record, now_ms: i64) -> bool {
    &&& r.latest is Some
    &&& r.latest->0.len() > 0
    &&& now_ms - r.checked_ms < CACHE_TTL_MS
}

/// Recompute availability from what GitHub answered, and give the status to
/// persist. The `notified` guard is preserved across calls.
///
/// `now` is the cache as it is read once GitHub has answered, under its lock,
/// which the caller holds until the status is written: deciding on what was read
/// before would write over an update that finished meanwhile. How many updates
/// were ever recorded, counted under that lock before GitHub was asked and again
/// now, tells whether one was. `latest` is the version of the newest release for
/// this platform, and `now_ms` when the check began.
pub fn check(
    project: &Project,
    now: Option<UpdateStatus>,
    updates_before: u64,
    updates_now: u64,
    latest: &str,
    now_ms: i64,
) -> (r: UpdateStatus)
    ensures
        r@ == checked(
            state::says(now),
            updates_before != updates_now,
            project.version@,
            latest@,
            now_ms,
        ),
{
    let now = state::or_default(now);
    let updated = updates_before != updates_now;
    let current = if updated && version::version_gt(now.current.as_str(), project.version) {
        now.current
    } else {
        project.version.to_owned()
    };
    let available = version::version_gt(latest, current.as_str());
    UpdateStatus {
        current,
        latest: Some(latest.to_owned()),
        available,
        checked_ms: now_ms,
        notified: now.notified,
    }
}

/// What is served of a cached status: all of it while it is fresh and nobody
/// insists, and else nothing.
pub open spec fn served(cached: Option<UpdateStatus>, force: bool, now_ms: i64) -> Option<
    UpdateStatus,
> {
    match cached {
        Some(status) => if !force && is_fresh(status@, now_ms) {
            cached
        } else {
            None
        },
        None => None,
    }
}

/// The cached answer while it is fresh, and nothing where a live [`check`] has to
/// be made. A panel polls this, so the round trip to GitHub is meant to be the
/// exception.
pub fn check_cached(cached: Option<UpdateStatus>, force: bool, now_ms: i64) -> (r: Option<
    UpdateStatus,
>)
    ensures
        r == served(cached, force, now_ms),
{
    if force {
        return None;
    }
    match cached {
        Some(status) => {
            let answers = match &status.latest {
                Some(latest) => !latest.as_str().is_empty(),
                None => false,
            };
            let age: i128 = now_ms as i128 - status.checked_ms as i128;
            if answers && age < CACHE_TTL_MS as i128 {
                Some(status)
            } else {
                None
            }
        },
        None => None,
    }
}

/// The status to persist once `version` is installed, so the panel drops the
/// update banner.
pub fn applied_status(version: &str, now_ms: i64) -> (r: UpdateStatus)
    ensures
        r@ == applied(version@, now_ms),
{
    UpdateStatus {
        current: version.to_owned(),
        latest: Some(version.to_owned()),
        available: false,
        checked_ms: now_ms,
        notified: None,
    }
}

/// What an update comes down to.
#[derive(Debug, Clone, PartialEq, Eq)]
pub enum Choice {
    /// What is installed is current, and this is the whole answer: nothing is
    /// fetched and nothing is touched. A same-version run never clobbers.
    Current { applied: Applied },
    /// The release to hand to the Windows installer, as [`crate::msi`] says.
    Package { version: String, asset: ReleaseAsset },
    /// The release to replace the binaries from, as [`crate::apply`] says.
    Replace { version: String, asset: ReleaseAsset },
}

/// Whether the release at place `i` is the newest that carries the archive for
/// `target`.
pub open spec fn is_newest_for(
    releases: Seq<Release>,
    target: Seq<char>,
    suffix: Seq<char>,
    i: int,
) -> bool {
    &&& 0 <= i < releases.len()
    &&& release::carries(releases[i], target, suffix)
    &&& forall|j: int| 0 <= j < i ==> !release::carries(#[trigger] releases[j], target, suffix)
}

/// Whether the install is one that the Windows installer owns, and so one that
/// it upgrades. Replacing the files underneath would leave Windows describing a
/// version that is no longer installed, and a later package comparing against
/// it.
pub open spec fn is_packaged(project: Project, os: Os, product_code: Option<&str>) -> bool {
    os == Os::Windows && project.msi_marker_key is Some && product_code is Some
}

/// Whether the asset at place `k` of a release is its first installer package.
pub open spec fn is_first_package(release: Release, k: int) -> bool {
    &&& 0 <= k < release.assets@.len()
    &&& text::ends_with(release.assets@[k].name@, ".msi"@)
    &&& forall|j: int|
        0 <= j < k ==> !text::ends_with((#[trigger] release.assets@[j]).name@, ".msi"@)
}

/// Whether `a` reports that the running version stays: nothing was installed and
/// no installer was launched.
pub open spec fn is_unchanged(project: Project, a: Applied) -> bool {
    &&& a.version@ == project.version@
    &&& a.frontends@.len() == 0
    &&& !a.installer_launched
}

/// Whether `r` is what an update comes down to.
pub open spec fn is_choice(
    project: Project,
    releases: Seq<Release>,
    os: Os,
    target: Seq<char>,
    product_code: Option<&str>,
    r: Result<Choice, String>,
) -> bool {
    match r {
        Ok(Choice::Current { applied }) => is_unchanged(project, applied) && exists|i: int|
            is_newest_for(releases, target, release::suffix_of(os), i) && !version::newer(
                (#[trigger] releases[i]).version@,
                project.version@,
            ),
        Ok(Choice::Package { version, asset }) => exists|i: int, k: int|
            {
                &&& is_newest_for(releases, target, release::suffix_of(os), i)
                &&& version::newer(releases[i].version@, project.version@)
                &&& is_packaged(project, os, product_code)
                &&& version@ == releases[i].version@
                &&& is_first_package(releases[i], k)
                &&& release::same_asset(#[trigger] releases[i].assets@[k], asset)
            },
        Ok(Choice::Replace { version, asset }) => exists|i: int, k: int|
            {
                &&& is_newest_for(releases, target, release::suffix_of(os), i)
                &&& version::newer(releases[i].version@, project.version@)
                &&& !is_packaged(project, os, product_code)
                &&& version@ == releases[i].version@
                &&& release::is_first_for(
                    releases[i].assets@,
                    target,
                    release::suffix_of(os),
                    k,
                )
                &&& release::same_asset(#[trigger] releases[i].assets@[k], asset)
            },
        Err(e) => {
            ||| {
                &&& forall|i: int|
                    0 <= i < releases.len() ==> !release::carries(
                        #[trigger] releases[i],
                        target,
                        release::suffix_of(os),
                    )
                &&& e@ == "no release with a "@ + target + " asset found"@
            }
            ||| exists|i: int|
                {
                    &&& is_newest_for(releases, target, release::suffix_of(os), i)
                    &&& version::newer(
                        (#[trigger] releases[i]).version@,
                        project.version@,
                    )
                    &&& is_packaged(project, os, product_code)
                    &&& forall|k: int| !is_first_package(releases[i], k)
                    &&& e@ == "release "@ + releases[i].version@
                        + " has no .msi asset; download it from the releases page"@
                }
        },
    }
}

/// Decide what an update comes down to: `releases` is what the repository lists,
/// newest first, `target` what names this platform, and `product_code` the code
/// that the installer left behind, if it did.
pub fn choose_update(
    project: &Project,
    releases: &Vec<Release>,
    os: Os,
    target: &str,
    product_code: Option<&str>,
) -> (r: Result<Choice, String>)
    ensures
        is_choice(*project, releases@, os, target@, product_code, r),
{
    let suffix = release::archive_suffix(os);
    let i = match release::latest_release(releases, target, suffix) {
        Ok(i) => i,
        Err(e) => return Err(e),
    };
    let newest = &releases[i];
    assert(is_newest_for(releases@, target@, release::suffix_of(os), i as int));
    if !version::version_gt(newest.version.as_str(), project.version) {
        let applied = Applied {
            version: project.version.to_owned(),
            frontends: Vec::new(),
            installer_launched: false,
        };
        return Ok(Choice::Current { applied });
    }
    let version = newest.version.clone();
    if os == Os::Windows && project.msi_marker_key.is_some() && product_code.is_some() {
        match release::msi_asset(newest) {
            Ok(k) => {
                let found = &newest.assets[k];
                let asset = ReleaseAsset {
                    name: found.name.clone(),
                    download_url: found.download_url.clone(),
                };
                assert(is_first_package(releases@[i as int], k as int));
                assert(release::same_asset(releases@[i as int].assets@[k as int], asset));
                Ok(Choice::Package { version, asset })
            },
            Err(e) => Err(e),
        }
    } else {
        match release::platform_asset(newest, target, suffix) {
            Some(asset) => Ok(Choice::Replace { version, asset }),
            None => {
                assert(false);
                Err(String::new())
            },
        }
    }
}

/// An update that was decided on, ready to be driven.
#[derive(Debug, Clone)]
pub enum Started {
    /// There is nothing to do, and this is the whole answer.
    Current { applied: Applied },
    /// The installer is to be handed the package.
    Package { upgrade: Upgrade },
    /// The binaries are to be replaced.
    Replace { job: Job },
}

/// Whether `r` is what was chosen, ready to be driven.
pub open spec fn is_started(
    choice: Choice,
    project: Project,
    os: Os,
    env: Environment,
    r: Started,
) -> bool {
    match choice {
        Choice::Current { applied } => r == (Started::Current { applied }),
        Choice::Package { version, asset } => {
            &&& r matches Started::Package { upgrade }
            &&& upgrade.version@ == version@
            &&& upgrade.asset == asset
            &&& upgrade.step == msi::Step::Clear
        },
        Choice::Replace { version, asset } => {
            &&& r matches Started::Replace { job }
            &&& job.project == project
            &&& job.mode == apply::Mode::Update
            &&& job.os == os
            &&& job.env == env
            &&& job.version@ == version@
            &&& job.asset == asset
            &&& job.step == apply::Step::Lock
            &&& job.wf()
        },
    }
}

impl Choice {
    /// Start what was chosen, on the release and the asset that were chosen.
    pub fn start(self, project: &Project, os: Os, env: &Environment) -> (r: Started)
        requires
            self is Replace ==> project.ships(),
        ensures
            is_started(self, *project, os, *env, r),
    {
        match self {
            Choice::Current { applied } => Started::Current { applied },
            Choice::Package { version, asset } => Started::Package {
                upgrade: msi::msi_upgrade(version.as_str(), asset),
            },
            Choice::Replace { version, asset } => Started::Replace {
                job: apply::apply(project, os, env, version.as_str(), asset),
            },
        }
    }
}

/// Whether an update has to ask what code the installer left behind.
pub open spec fn asks(
    project: Project,
    releases: Seq<Release>,
    os: Os,
    target: Seq<char>,
) -> bool {
    os == Os::Windows && project.msi_marker_key is Some && exists|i: int|
        is_newest_for(releases, target, release::suffix_of(os), i) && version::newer(
            (#[trigger] releases[i]).version@,
            project.version@,
        )
}

/// Whether an update has to ask what code the installer left behind: on Windows,
/// of a project that ships a package, where there is something newer.
pub fn asks_for_product_code(
    project: &Project,
    releases: &Vec<Release>,
    os: Os,
    target: &str,
) -> (r: bool)
    ensures
        r == asks(*project, releases@, os, target@),
{
    if os != Os::Windows || project.msi_marker_key.is_none() {
        return false;
    }
    match release::latest_release(releases, target, release::archive_suffix(os)) {
        Ok(i) => {
            assert(is_newest_for(releases@, target@, release::suffix_of(os), i as int));
            version::version_gt(releases[i].version.as_str(), project.version)
        },
        Err(_) => false,
    }
}

/// Whether `r` is the archive to install frontends of `version` from, or why there
/// is none.
pub open spec fn is_archive_choice(
    releases: Seq<Release>,
    os: Os,
    target: Seq<char>,
    version: Seq<char>,
    r: Result<ReleaseAsset, String>,
) -> bool {
    match r {
        Ok(asset) => exists|i: int, k: int|
            {
                &&& is_release_of(releases, version, i)
                &&& release::is_first_for(
                    releases[i].assets@,
                    target,
                    release::suffix_of(os),
                    k,
                )
                &&& release::same_asset(#[trigger] releases[i].assets@[k], asset)
            },
        Err(e) => {
            ||| {
                &&& forall|i: int| !is_release_of(releases, version, i)
                &&& e@ == "no release v"@ + release::untagged(version)
                    + " to install frontends from"@
            }
            ||| exists|i: int|
                {
                    &&& is_release_of(releases, version, i)
                    &&& !release::carries(
                        #[trigger] releases[i],
                        target,
                        release::suffix_of(os),
                    )
                    &&& e@ == "release "@ + releases[i].version@
                        + " has no asset for this platform"@
                }
        },
    }
}

/// The archive to install frontends of `version` from: that of the release of
/// that version, for this platform.
pub fn choose_frontend_archive(
    releases: &Vec<Release>,
    os: Os,
    target: &str,
    version: &str,
) -> (r: Result<ReleaseAsset, String>)
    ensures
        is_archive_choice(releases@, os, target@, version@, r),
{
    let i = match release::release_named(releases, version) {
        Ok(i) => i,
        Err(e) => return Err(e),
    };
    let found = &releases[i];
    assert(is_release_of(releases@, version@, i as int));
    match release::platform_asset(found, target, release::archive_suffix(os)) {
        Some(asset) => Ok(asset),
        None => {
            assert(!release::carries(releases@[i as int], target@, release::suffix_of(os)));
            Err(
                text::cat3(
                    "release ",
                    found.version.as_str(),
                    " has no asset for this platform",
                ),
            )
        },
    }
}

/// Whether the release at place `i` is the first of that version, however either
/// spells the leading `v`.
pub open spec fn is_release_of(releases: Seq<Release>, version: Seq<char>, i: int) -> bool {
    &&& 0 <= i < releases.len()
    &&& release::untagged(releases[i].version@) == release::untagged(version)
    &&& forall|j: int|
        0 <= j < i ==> release::untagged((#[trigger] releases[j]).version@) != release::untagged(
            version,
        )
}

/// An update that finishes while a check asks GitHub is not undone: the check
/// records the version it installed as current, and offers only what is newer
/// than that. So the cache does not go on offering an update to the version
/// already installed.
pub proof fn an_update_during_a_check_stands(
    running: Seq<char>,
    installed: Seq<char>,
    installed_ms: i64,
    latest: Seq<char>,
    now_ms: i64,
)
    requires
        version::newer(installed, running),
    ensures
        ({
            let r = checked(applied(installed, installed_ms), true, running, latest, now_ms);
            &&& r.current == installed
            &&& r.available <==> version::newer(latest, installed)
            &&& latest == installed ==> !r.available
        }),
{
    version::newer_is_a_strict_order(installed, installed, installed);
}

/// A check during which no update is recorded goes by the running version,
/// whatever the cache says, and whoever else checked meanwhile.
pub proof fn a_check_goes_by_the_running_version(
    now: Record,
    running: Seq<char>,
    latest: Seq<char>,
    now_ms: i64,
)
    ensures
        checked(now, false, running, latest, now_ms).current == running,
        checked(now, false, running, latest, now_ms).available <==> version::newer(
            latest,
            running,
        ),
{
}

/// An update is offered exactly where the latest release is newer than what is
/// installed, after a check and after an update.
pub proof fn an_offer_is_of_something_newer(
    now: Record,
    updated: bool,
    running: Seq<char>,
    latest: Seq<char>,
    version: Seq<char>,
    now_ms: i64,
)
    ensures
        ({
            let r = checked(now, updated, running, latest, now_ms);
            r.available <==> version::newer(r.latest->0, r.current)
        }),
        ({
            let r = applied(version, now_ms);
            r.available <==> version::newer(r.latest->0, r.current)
        }),
{
    version::newer_is_a_strict_order(version, version, version);
}

/// A check keeps the announcement guard: a version that was announced is not
/// news to a later check that finds it again.
pub proof fn a_check_keeps_the_guard(
    now: Record,
    updated: bool,
    running: Seq<char>,
    latest: Seq<char>,
    now_ms: i64,
)
    ensures
        checked(now, updated, running, latest, now_ms).notified == now.notified,
        now.notified == Some(latest) ==> !state::is_news(
            checked(now, updated, running, latest, now_ms),
        ),
{
}

/// Once an update is recorded there is nothing to announce, and what it recorded
/// answers the panel without another round trip.
pub proof fn an_update_drops_the_banner(version: Seq<char>, now_ms: i64)
    requires
        version.len() > 0,
    ensures
        !state::is_news(applied(version, now_ms)),
        is_fresh(applied(version, now_ms), now_ms),
{
}

/// What a check records answers the panel until its time is up, and not after.
pub proof fn a_check_answers_for_its_time(
    now: Record,
    updated: bool,
    running: Seq<char>,
    latest: Seq<char>,
    checked_at: i64,
    now_ms: i64,
)
    requires
        latest.len() > 0,
    ensures
        is_fresh(checked(now, updated, running, latest, checked_at), now_ms) <==> now_ms
            - checked_at < CACHE_TTL_MS,
{
}

/// A check that finds another version than the one that was announced leaves news
/// where that is newer than what is installed, so each release is announced in its
/// turn.
pub proof fn a_new_release_is_news(
    now: Record,
    updated: bool,
    running: Seq<char>,
    latest: Seq<char>,
    now_ms: i64,
)
    requires
        latest.len() > 0,
        now.notified != Some(latest),
    ensures
        ({
            let r = checked(now, updated, running, latest, now_ms);
            state::is_news(r) <==> version::newer(latest, r.current)
        }),
        !updated ==> (state::is_news(checked(now, updated, running, latest, now_ms))
            <==> version::newer(latest, running)),
{
}

/// Once a version was claimed and a check then finds a newer one, that is news.
pub proof fn a_release_behind_an_announced_one_is_news(
    r: Record,
    running: Seq<char>,
    latest: Seq<char>,
    now_ms: i64,
)
    requires
        state::is_news(r),
        latest.len() > 0,
        r.latest != Some(latest),
        version::newer(latest, running),
    ensures
        state::is_news(checked(state::claimed(r), false, running, latest, now_ms)),
{
}

/// A check records what it found and when, whatever the cache said.
pub proof fn a_check_records_what_it_found(
    now: Record,
    updated: bool,
    running: Seq<char>,
    latest: Seq<char>,
    now_ms: i64,
)
    ensures
        checked(now, updated, running, latest, now_ms).latest == Some(latest),
        checked(now, updated, running, latest, now_ms).checked_ms == now_ms,
        checked(now, updated, running, latest, now_ms).notified == now.notified,
        ({
            let current = checked(now, updated, running, latest, now_ms).current;
            current == running || (updated && current == now.current && version::newer(
                now.current,
                running,
            ))
        }),
        // What is current is never older than what runs.
        !version::newer(running, checked(now, updated, running, latest, now_ms).current),
{
    version::newer_is_a_strict_order(running, now.current, running);
}

/// An update records the version that it installed as it is named, and when, and
/// that nothing was announced.
pub proof fn an_update_records_what_it_installed(version: Seq<char>, now_ms: i64)
    ensures
        applied(version, now_ms).current == version,
        applied(version, now_ms).latest == Some(version),
        !applied(version, now_ms).available,
        applied(version, now_ms).checked_ms == now_ms,
        applied(version, now_ms).notified is None,
{
}

/// A cached status answers while it is younger than six hours and says of some
/// version that it is the latest. Whether it answers depends on nothing else, and
/// once it no longer does it never will again.
pub proof fn a_cached_status_answers_for_six_hours(r: Record, other: Record, now_ms: i64, then: i64)
    ensures
        is_fresh(r, now_ms) ==> r.latest is Some && r.latest->0.len() > 0,
        r.latest is Some && r.latest->0.len() > 0 ==> (is_fresh(r, now_ms) <==> now_ms
            - r.checked_ms < 6 * 60 * 60 * 1000),
        is_fresh(r, now_ms) && then <= now_ms ==> is_fresh(r, then),
        r.latest == other.latest && r.checked_ms == other.checked_ms ==> is_fresh(r, now_ms)
            == is_fresh(other, now_ms),
{
}

} // verus!
