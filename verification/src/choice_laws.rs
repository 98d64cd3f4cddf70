//! What an update comes down to, said of what the repository lists.

use vstd::prelude::*;

use crate::apply;
use crate::msi;
use crate::place::Environment;
use crate::project::Project;
use crate::release::{self, Os, Release, ReleaseAsset};
use crate::release_laws;
use crate::state::UpdateStatus;
use crate::text;
use crate::update::{self, Choice, Started};
use crate::version;

verus! {

/// What the repository lists leaves no choice but one: whatever is decided twice
/// of the same is decided alike, in kind, in version and in asset.
pub proof fn there_is_one_choice(
    project: Project,
    releases: Seq<Release>,
    os: Os,
    target: Seq<char>,
    code: Option<&str>,
    a: Result<Choice, String>,
    b: Result<Choice, String>,
)
    requires
        update::is_choice(project, releases, os, target, code, a),
        update::is_choice(project, releases, os, target, code, b),
    ensures
        match (a, b) {
            (Ok(Choice::Current { applied: _ }), Ok(Choice::Current { applied: _ })) => true,
            (
                Ok(Choice::Package { version: v, asset: x }),
                Ok(Choice::Package { version: w, asset: y }),
            ) => v@ == w@ && release::same_asset(x, y),
            (
                Ok(Choice::Replace { version: v, asset: x }),
                Ok(Choice::Replace { version: w, asset: y }),
            ) => v@ == w@ && release::same_asset(x, y),
            (Err(e), Err(f)) => e@ == f@,
            _ => false,
        },
{
    let suffix = release::suffix_of(os);
    if exists|i: int| #[trigger] update::is_newest_for(releases, target, suffix, i) {
        let i = choose|i: int| #[trigger] update::is_newest_for(releases, target, suffix, i);
        lemma_choice(project, releases, os, target, code, a, i);
        lemma_choice(project, releases, os, target, code, b, i);
        assert forall|k: int, l: int|
            update::is_first_package(releases[i], k) && update::is_first_package(
                releases[i],
                l,
            ) implies k == l by {
            release_laws::the_package_is_the_first_named_so(releases[i], k, l);
        }
        assert forall|k: int, l: int|
            release::is_first_for(releases[i].assets@, target, suffix, k) && release::is_first_for(
                releases[i].assets@,
                target,
                suffix,
                l,
            ) implies k == l by {
            release_laws::a_release_carries_what_an_asset_is_named_for(
                releases[i],
                target,
                suffix,
                k,
                l,
            );
        }
    } else {
        assert forall|j: int| 0 <= j < releases.len() implies !release::carries(
            #[trigger] releases[j],
            target,
            suffix,
        ) by {
            if release::carries(releases[j], target, suffix) {
                let i = lemma_newest(releases, target, suffix, j);
            }
        }
    }
}

proof fn lemma_newest(releases: Seq<Release>, target: Seq<char>, suffix: Seq<char>, j: int) -> (i:
    int)
    requires
        0 <= j < releases.len(),
        release::carries(releases[j], target, suffix),
    ensures
        update::is_newest_for(releases, target, suffix, i),
    decreases j,
{
    if forall|k: int| 0 <= k < j ==> !release::carries(#[trigger] releases[k], target, suffix) {
        j
    } else {
        let k = choose|k: int|
            0 <= k < j && release::carries(#[trigger] releases[k], target, suffix);
        lemma_newest(releases, target, suffix, k)
    }
}

/// What is decided where the release at place `i` is the newest for the platform.
proof fn lemma_choice(
    project: Project,
    releases: Seq<Release>,
    os: Os,
    target: Seq<char>,
    code: Option<&str>,
    r: Result<Choice, String>,
    i: int,
)
    requires
        update::is_choice(project, releases, os, target, code, r),
        update::is_newest_for(releases, target, release::suffix_of(os), i),
    ensures
        !version::newer(releases[i].version@, project.version@) ==> r matches Ok(
            Choice::Current { applied: _ },
        ),
        version::newer(releases[i].version@, project.version@) && !update::is_packaged(
            project,
            os,
            code,
        ) ==> {
            &&& r matches Ok(Choice::Replace { version, asset })
            &&& version@ == releases[i].version@
            &&& exists|k: int|
                release::is_first_for(
                    releases[i].assets@,
                    target,
                    release::suffix_of(os),
                    k,
                ) && release::same_asset(#[trigger] releases[i].assets@[k], asset)
        },
        version::newer(releases[i].version@, project.version@) && update::is_packaged(
            project,
            os,
            code,
        ) ==> match r {
            Ok(Choice::Package { version, asset }) => {
                &&& version@ == releases[i].version@
                &&& exists|k: int|
                    update::is_first_package(releases[i], k) && release::same_asset(
                        #[trigger] releases[i].assets@[k],
                        asset,
                    )
            },
            Err(e) => {
                &&& forall|k: int| !update::is_first_package(releases[i], k)
                &&& e@ == "release "@ + releases[i].version@
                    + " has no .msi asset; download it from the releases page"@
            },
            _ => false,
        },
{
    assert forall|j: int|
        update::is_newest_for(releases, target, release::suffix_of(os), j) implies j == i by {
        release_laws::the_newest_is_the_first_that_carries(
            releases[i],
            releases,
            target,
            release::suffix_of(os),
            i,
            j,
        );
    }
    assert(release::carries(releases[i], target, release::suffix_of(os)));
}

/// Where the newest release for the platform is newer than what runs, and the
/// installer has no part in it, the update replaces from an asset of that very
/// release that is named for the platform.
pub proof fn something_newer_is_gone_for(
    project: Project,
    releases: Seq<Release>,
    os: Os,
    target: Seq<char>,
    r: Result<Choice, String>,
    i: int,
)
    requires
        update::is_choice(project, releases, os, target, None, r),
        update::is_newest_for(releases, target, release::suffix_of(os), i),
        version::newer(releases[i].version@, project.version@),
    ensures
        r matches Ok(Choice::Replace { version, asset }) && {
            &&& version@ == releases[i].version@
            &&& text::contains(asset.name@, target)
            &&& text::contains(asset.name@, release::suffix_of(os))
            &&& exists|k: int|
                0 <= k < releases[i].assets@.len() && release::same_asset(
                    #[trigger] releases[i].assets@[k],
                    asset,
                )
        },
{
    lemma_choice(project, releases, os, target, None, r, i);
}

/// Where nothing is newer than what runs, everything stays as it is: the answer is
/// the running version, and neither a code that the installer left behind nor
/// anything else changes that.
pub proof fn nothing_newer_changes_nothing(
    project: Project,
    releases: Seq<Release>,
    os: Os,
    target: Seq<char>,
    code: Option<&str>,
    r: Result<Choice, String>,
    i: int,
)
    requires
        update::is_choice(project, releases, os, target, code, r),
        update::is_newest_for(releases, target, release::suffix_of(os), i),
        !version::newer(releases[i].version@, project.version@),
    ensures
        r matches Ok(Choice::Current { applied }) && {
            &&& applied.version@ == project.version@
            &&& applied.frontends@.len() == 0
            &&& !applied.installer_launched
        },
{
    lemma_choice(project, releases, os, target, code, r, i);
}

/// What the installer installed it upgrades, where the newest release is newer and
/// has a package: with the first of its packages.
pub proof fn a_package_is_handed_over(
    project: Project,
    releases: Seq<Release>,
    target: Seq<char>,
    code: &str,
    r: Result<Choice, String>,
    i: int,
    k: int,
)
    requires
        update::is_choice(project, releases, Os::Windows, target, Some(code), r),
        project.msi_marker_key is Some,
        update::is_newest_for(releases, target, release::suffix_of(Os::Windows), i),
        version::newer(releases[i].version@, project.version@),
        update::is_first_package(releases[i], k),
    ensures
        r matches Ok(Choice::Package { version, asset }) && {
            &&& version@ == releases[i].version@
            &&& release::same_asset(releases[i].assets@[k], asset)
        },
{
    lemma_choice(project, releases, Os::Windows, target, Some(code), r, i);
    assert forall|l: int| update::is_first_package(releases[i], l) implies l == k by {
        release_laws::the_package_is_the_first_named_so(releases[i], l, k);
    }
}

/// An update has no release to go for only where none in the list carries the
/// platform, and says which platform that is.
pub proof fn a_platform_that_nothing_carries_is_refused(
    project: Project,
    releases: Seq<Release>,
    os: Os,
    target: Seq<char>,
    code: Option<&str>,
    r: Result<Choice, String>,
)
    requires
        update::is_choice(project, releases, os, target, code, r),
        forall|j: int|
            0 <= j < releases.len() ==> !release::carries(
                #[trigger] releases[j],
                target,
                release::suffix_of(os),
            ),
    ensures
        r matches Err(e) && text::contains(e@, target),
{
    match r {
        Err(e) => {
            crate::text_laws::what_is_put_in_is_contained(
                "no release with a "@,
                target,
                " asset found"@,
            );
        },
        _ => {},
    }
}

/// Where an update does not have to ask what the installer left behind, the answer
/// would change nothing.
pub proof fn what_is_not_asked_does_not_matter(
    project: Project,
    releases: Seq<Release>,
    os: Os,
    target: Seq<char>,
    code: Option<&str>,
    r: Result<Choice, String>,
)
    requires
        !update::asks(project, releases, os, target),
        update::is_choice(project, releases, os, target, code, r),
    ensures
        update::is_choice(project, releases, os, target, None, r),
{
}

/// Where an update does have to ask, it does matter: with a code the installer
/// upgrades, or the update is refused, and without one the binaries are replaced.
pub proof fn what_is_asked_matters(
    project: Project,
    releases: Seq<Release>,
    os: Os,
    target: Seq<char>,
    code: &str,
    r: Result<Choice, String>,
)
    requires
        update::asks(project, releases, os, target),
        update::is_choice(project, releases, os, target, Some(code), r),
    ensures
        !update::is_choice(project, releases, os, target, None, r),
{
    let i = choose|i: int|
        update::is_newest_for(releases, target, release::suffix_of(os), i) && version::newer(
            (#[trigger] releases[i]).version@,
            project.version@,
        );
    lemma_choice(project, releases, os, target, Some(code), r, i);
    if update::is_choice(project, releases, os, target, None, r) {
        lemma_choice(project, releases, os, target, None, r, i);
    }
}

/// Frontends are installed from the release of the version asked for, however it
/// spells its `v`, and from an asset of it that is named for the platform; where
/// there is such an asset one is found.
pub proof fn frontends_come_from_the_version_asked_for(
    releases: Seq<Release>,
    os: Os,
    target: Seq<char>,
    version: Seq<char>,
    r: Result<ReleaseAsset, String>,
    i: int,
)
    requires
        update::is_archive_choice(releases, os, target, version, r),
        update::is_release_of(releases, version, i),
    ensures
        r is Ok <==> release::carries(releases[i], target, release::suffix_of(os)),
        r matches Ok(asset) ==> {
            &&& text::contains(asset.name@, target)
            &&& text::contains(asset.name@, release::suffix_of(os))
            &&& exists|k: int|
                0 <= k < releases[i].assets@.len() && release::same_asset(
                    #[trigger] releases[i].assets@[k],
                    asset,
                )
        },
        update::is_archive_choice(releases, os, target, seq!['v'] + version, r),
{
    assert forall|j: int| update::is_release_of(releases, version, j) implies j == i by {
        release_laws::a_version_has_one_release(releases, version, i, j);
    }
    assert forall|j: int| #[trigger]
        update::is_release_of(releases, seq!['v'] + version, j) <==> update::is_release_of(
            releases,
            version,
            j,
        ) by {
        release_laws::a_version_has_one_release(releases, version, j, j);
    }
    match r {
        Ok(asset) => {
            let (j, k) = choose|j: int, k: int|
                {
                    &&& update::is_release_of(releases, version, j)
                    &&& release::is_first_for(
                        releases[j].assets@,
                        target,
                        release::suffix_of(os),
                        k,
                    )
                    &&& release::same_asset(#[trigger] releases[j].assets@[k], asset)
                };
            assert(release::is_for(releases[i].assets@[k].name@, target, release::suffix_of(os)));
            assert(update::is_release_of(releases, seq!['v'] + version, j));
            assert(release::same_asset(releases[j].assets@[k], asset));
        },
        Err(e) => {
            assert(update::is_release_of(releases, seq!['v'] + version, i));
            assert(exists|j: int|
                {
                    &&& update::is_release_of(releases, version, j)
                    &&& !release::carries(
                        #[trigger] releases[j],
                        target,
                        release::suffix_of(os),
                    )
                    &&& e@ == "release "@ + releases[j].version@
                        + " has no asset for this platform"@
                });
        },
    }
}

/// What was chosen is what is done: the job or the upgrade that is started is on
/// the version and the asset that were chosen, and where nothing was to be done
/// nothing is started.
pub proof fn what_was_chosen_is_started(
    choice: Choice,
    project: Project,
    os: Os,
    env: Environment,
    r: Started,
)
    requires
        update::is_started(choice, project, os, env, r),
    ensures
        r matches Started::Replace { job } ==> {
            &&& choice matches Choice::Replace { version, asset }
            &&& job.version@ == version@
            &&& job.asset == asset
            &&& job.project == project
            &&& job.mode == apply::Mode::Update
            &&& job.os == os
            &&& job.env == env
            &&& job.step == apply::Step::Lock
        },
        r matches Started::Package { upgrade } ==> {
            &&& choice matches Choice::Package { version, asset }
            &&& upgrade.version@ == version@
            &&& upgrade.asset == asset
            &&& upgrade.step == msi::Step::Clear
        },
        r is Current <==> choice is Current,
{
}

/// A cached status is served as it is or not at all: never to one who insists,
/// never once its time is up, and always else.
pub proof fn a_cache_is_served_as_it_is(cached: UpdateStatus, force: bool, now_ms: i64)
    ensures
        update::served(Some(cached), true, now_ms) is None,
        update::served(None, force, now_ms) is None,
        update::served(Some(cached), false, now_ms) is Some <==> update::is_fresh(cached@, now_ms),
        update::served(Some(cached), force, now_ms) matches Some(s) ==> s == cached,
{
}

} // verus!
