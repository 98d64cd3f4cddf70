//! What a platform's releases and assets are, said of how they are named and
//! listed.

use vstd::prelude::*;

use crate::project::Project;
use crate::release::{self, Os, Release, ReleaseAsset};
use crate::text::{self, Class};
use crate::text_laws;
use crate::update;

verus! {

/// What the target of a platform starts with.
pub open spec fn os_name(os: Os) -> Seq<char> {
    match os {
        Os::Windows => "windows-"@,
        Os::Unix => "linux-"@,
    }
}

proof fn lemma_names()
    ensures
        "x86_64"@ != "aarch64"@,
        "x86_64"@ != "arm64"@,
        "aarch64"@ != "arm64"@,
        "windows-x86_64"@ == "windows-"@ + "x86_64"@,
        "linux-x86_64"@ == "linux-"@ + "x86_64"@,
        "linux-aarch64"@ == "linux-"@ + "aarch64"@,
        "windows-"@ != "linux-"@,
{
    reveal_strlit("x86_64");
    reveal_strlit("aarch64");
    reveal_strlit("arm64");
    reveal_strlit("windows-");
    reveal_strlit("linux-");
    reveal_strlit("windows-x86_64");
    reveal_strlit("linux-x86_64");
    reveal_strlit("linux-aarch64");
    assert("x86_64"@.len() == 6);
    assert("aarch64"@.len() == 7);
    assert("arm64"@.len() == 5);
    assert("windows-"@.len() == 8);
    assert("linux-"@.len() == 6);
    assert("windows-x86_64"@ =~= "windows-"@ + "x86_64"@);
    assert("linux-x86_64"@ =~= "linux-"@ + "x86_64"@);
    assert("linux-aarch64"@ =~= "linux-"@ + "aarch64"@);
}

/// A target names the architecture as well as the operating system: it is the two
/// with a dash between them, `arm64` being another spelling of `aarch64`.
pub proof fn a_target_names_the_architecture(os: Os, arch: Seq<char>)
    ensures
        release::target_of(os, arch) matches Some(t) ==> t == os_name(os) + if arch == "arm64"@ {
            "aarch64"@
        } else {
            arch
        },
        release::target_of(os, arch) is Some <==> arch == "x86_64"@ || (os == Os::Unix && (arch
            == "aarch64"@ || arch == "arm64"@)),
{
    lemma_names();
}

/// Two platforms have the same target only where they are the same: the operating
/// system is the same, and so is the architecture but for its two spellings.
pub proof fn platforms_have_targets_of_their_own(
    os: Os,
    arch: Seq<char>,
    other_os: Os,
    other_arch: Seq<char>,
)
    requires
        release::target_of(os, arch) is Some,
        release::target_of(os, arch) == release::target_of(other_os, other_arch),
    ensures
        os == other_os,
        arch == other_arch || {
            &&& arch == "aarch64"@ || arch == "arm64"@
            &&& other_arch == "aarch64"@ || other_arch == "arm64"@
        },
{
    lemma_names();
    reveal_strlit("windows-");
    reveal_strlit("linux-");
    let t = release::target_of(os, arch)->0;
    assert(t[0] == os_name(os)[0]);
    assert(t[0] == os_name(other_os)[0]);
    reveal_strlit("x86_64");
    reveal_strlit("aarch64");
    assert(("linux-"@ + "x86_64"@).len() != ("linux-"@ + "aarch64"@).len());
}

/// The archive of a platform is told by its name: `<binary>-<tag>-<target><suffix>`
/// is it, and whatever is it has both the target and the suffix in its name.
pub proof fn an_archive_is_told_by_its_name(
    front: Seq<char>,
    target: Seq<char>,
    suffix: Seq<char>,
    name: Seq<char>,
)
    ensures
        release::is_for(front + target + suffix, target, suffix),
        release::is_for(name, target, suffix) <==> {
            &&& exists|a: Seq<char>, b: Seq<char>| name == #[trigger] (a + target + b)
            &&& exists|a: Seq<char>, b: Seq<char>| name == #[trigger] (a + suffix + b)
        },
{
    text_laws::what_is_put_in_is_contained(front, target, suffix);
    text_laws::what_is_put_in_is_contained(front + target, suffix, seq![]);
    assert(front + target + suffix + Seq::<char>::empty() =~= front + target + suffix);
    text_laws::containing_is_having_a_before_and_a_behind(name, target);
    text_laws::containing_is_having_a_before_and_a_behind(name, suffix);
}

/// A release carries a platform exactly where some asset of it, wherever it stands
/// among them, has both the target and the suffix in its name. The first of those
/// is the one that is taken, and only one is.
pub proof fn a_release_carries_what_an_asset_is_named_for(
    r: Release,
    target: Seq<char>,
    suffix: Seq<char>,
    i: int,
    k: int,
)
    ensures
        release::carries(r, target, suffix) <==> exists|j: int|
            0 <= j < r.assets@.len() && text::contains((#[trigger] r.assets@[j]).name@, target)
                && text::contains(r.assets@[j].name@, suffix),
        release::carries(r, target, suffix) <==> exists|j: int|
            #[trigger] release::is_first_for(r.assets@, target, suffix, j),
        release::is_first_for(r.assets@, target, suffix, i) && release::is_first_for(
            r.assets@,
            target,
            suffix,
            k,
        ) ==> i == k,
        release::is_first_for(r.assets@, target, suffix, i) ==> 0 <= i < r.assets@.len()
            && text::contains(r.assets@[i].name@, target) && text::contains(
            r.assets@[i].name@,
            suffix,
        ),
        release::is_first_for(r.assets@, target, suffix, i) && 0 <= k < i ==> !(text::contains(
            r.assets@[k].name@,
            target,
        ) && text::contains(r.assets@[k].name@, suffix)),
{
    let names = r.assets@;
    if release::carries(r, target, suffix) {
        let j = choose|j: int|
            0 <= j < names.len() && release::is_for((#[trigger] names[j]).name@, target, suffix);
        lemma_first(names, target, suffix, j);
    }
    if exists|j: int|
        0 <= j < names.len() && text::contains((#[trigger] names[j]).name@, target)
            && text::contains(names[j].name@, suffix) {
        let j = choose|j: int|
            0 <= j < names.len() && text::contains((#[trigger] names[j]).name@, target)
                && text::contains(names[j].name@, suffix);
        assert(release::is_for(names[j].name@, target, suffix));
    }
    if release::is_first_for(names, target, suffix, i) && release::is_first_for(
        names,
        target,
        suffix,
        k,
    ) {
        assert(release::is_for(names[i].name@, target, suffix));
        assert(release::is_for(names[k].name@, target, suffix));
    }
    if release::is_first_for(names, target, suffix, i) && 0 <= k < i {
        assert(!release::is_for(names[k].name@, target, suffix));
    }
    if exists|j: int| #[trigger] release::is_first_for(names, target, suffix, j) {
        let j = choose|j: int| #[trigger] release::is_first_for(names, target, suffix, j);
        assert(release::is_for(names[j].name@, target, suffix));
    }
}

proof fn lemma_first(assets: Seq<ReleaseAsset>, target: Seq<char>, suffix: Seq<char>, j: int) -> (i:
    int)
    requires
        0 <= j < assets.len(),
        release::is_for(assets[j].name@, target, suffix),
    ensures
        release::is_first_for(assets, target, suffix, i),
    decreases j,
{
    if forall|k: int|
        0 <= k < j ==> !release::is_for((#[trigger] assets[k]).name@, target, suffix) {
        j
    } else {
        let k = choose|k: int|
            0 <= k < j && release::is_for((#[trigger] assets[k]).name@, target, suffix);
        lemma_first(assets, target, suffix, k)
    }
}

/// The newest release for a platform is the first in the list that carries it.
/// One that is published in front of the list and carries it is the newest, and
/// one that does not changes nothing but the place.
pub proof fn the_newest_is_the_first_that_carries(
    first: Release,
    releases: Seq<Release>,
    target: Seq<char>,
    suffix: Seq<char>,
    i: int,
    k: int,
)
    ensures
        update::is_newest_for(releases, target, suffix, i) && update::is_newest_for(
            releases,
            target,
            suffix,
            k,
        ) ==> i == k,
        update::is_newest_for(releases, target, suffix, i) ==> 0 <= i < releases.len()
            && release::carries(releases[i], target, suffix),
        release::carries(first, target, suffix) ==> update::is_newest_for(
            seq![first] + releases,
            target,
            suffix,
            0,
        ),
        !release::carries(first, target, suffix) ==> (update::is_newest_for(
            seq![first] + releases,
            target,
            suffix,
            i + 1,
        ) <==> update::is_newest_for(releases, target, suffix, i)),
{
    let more = seq![first] + releases;
    assert(more[0] == first);
    assert forall|j: int| 0 <= j < releases.len() implies #[trigger] more[j + 1]
        == releases[j] by {}
    if !release::carries(first, target, suffix) {
        if update::is_newest_for(releases, target, suffix, i) {
            assert forall|j: int| 0 <= j < i + 1 implies !release::carries(
                #[trigger] more[j],
                target,
                suffix,
            ) by {
                if j > 0 {
                    assert(more[j] == releases[j - 1]);
                }
            }
            assert(more[i + 1] == releases[i]);
        }
        if update::is_newest_for(more, target, suffix, i + 1) {
            assert(i >= 0) by {
                if i + 1 == 0 {
                    assert(more[0] == first);
                }
            }
            assert forall|j: int| 0 <= j < i implies !release::carries(
                #[trigger] releases[j],
                target,
                suffix,
            ) by {
                assert(more[j + 1] == releases[j]);
            }
            assert(more[i + 1] == releases[i]);
        }
    }
}

/// A version is looked up without the `v` of its tag: with any number of them in
/// front it is the same release, and nothing else about a version is ignored.
pub proof fn a_release_is_named_by_its_bare_version(marks: Seq<char>, version: Seq<char>)
    requires
        forall|i: int| 0 <= i < marks.len() ==> #[trigger] marks[i] == 'v',
        version.len() > 0 ==> version[0] != 'v',
    ensures
        release::untagged(marks + version) == version,
        release::untagged(version) == version,
{
    assert forall|i: int| 0 <= i < marks.len() implies Class::SmallV.holds(
        #[trigger] marks[i],
    ) by {}
    text_laws::the_start_is_stripped(marks, version, Class::SmallV);
    text_laws::the_start_is_stripped(seq![], version, Class::SmallV);
    assert(Seq::<char>::empty() + version =~= version);
}

/// Which release is that of a version does not depend on how either spells the
/// `v`, it is one at most, and it is the first of them.
pub proof fn a_version_has_one_release(
    releases: Seq<Release>,
    version: Seq<char>,
    i: int,
    k: int,
)
    ensures
        update::is_release_of(releases, seq!['v'] + version, i) <==> update::is_release_of(
            releases,
            version,
            i,
        ),
        update::is_release_of(releases, version, i) && update::is_release_of(releases, version, k)
            ==> i == k,
        update::is_release_of(releases, version, i) ==> 0 <= i < releases.len(),
        releases.len() > 0 && (releases[0].version@ == version || releases[0].version@ == seq!['v']
            + version) ==> update::is_release_of(releases, version, 0),
{
    lemma_v_in_front(version);
}

proof fn lemma_v_in_front(version: Seq<char>)
    ensures
        release::untagged(seq!['v'] + version) == release::untagged(version),
{
    let n = text::span(version, Class::SmallV) as int;
    text::lemma_span_is(version, Class::SmallV);
    let marks = seq!['v'] + version.take(n);
    let bare = version.skip(n);
    assert forall|i: int| 0 <= i < marks.len() implies #[trigger] marks[i] == 'v' by {
        if i > 0 {
            assert(marks[i] == version[i - 1]);
            assert(Class::SmallV.holds(version[i - 1]));
        }
    }
    if bare.len() > 0 {
        assert(bare[0] == version[n]);
    }
    a_release_is_named_by_its_bare_version(marks, bare);
    assert(marks + bare =~= seq!['v'] + version);
}

/// The package of a release is the first asset that is named as one, and there is
/// one exactly where some asset is.
pub proof fn the_package_is_the_first_named_so(r: Release, i: int, k: int)
    ensures
        update::is_first_package(r, i) ==> 0 <= i < r.assets@.len() && exists|front: Seq<char>|
            r.assets@[i].name@ == #[trigger] (front + ".msi"@),
        update::is_first_package(r, i) && update::is_first_package(r, k) ==> i == k,
        0 <= k < r.assets@.len() && (exists|front: Seq<char>|
            r.assets@[k].name@ == #[trigger] (front + ".msi"@)) ==> exists|j: int|
            j <= k && #[trigger] update::is_first_package(r, j),
    decreases k,
{
    if 0 <= i < r.assets@.len() {
        text_laws::starting_and_ending(r.assets@[i].name@, ".msi"@);
    }
    if 0 <= k < r.assets@.len() {
        text_laws::starting_and_ending(r.assets@[k].name@, ".msi"@);
        if text::ends_with(r.assets@[k].name@, ".msi"@) && !update::is_first_package(r, k) {
            let j = choose|j: int|
                0 <= j < k && text::ends_with((#[trigger] r.assets@[j]).name@, ".msi"@);
            the_package_is_the_first_named_so(r, i, j);
            text_laws::starting_and_ending(r.assets@[j].name@, ".msi"@);
        }
    }
}

/// The installer upgrades what it installed, and nothing else: a code that it
/// left behind makes for its upgrade on Windows, for a project that ships a
/// package, and taking away any of the three makes for replacing in place.
pub proof fn the_installer_upgrades_what_it_installed(
    project: Project,
    unmarked: Project,
    code: &str,
)
    requires
        project.msi_marker_key is Some,
        unmarked.msi_marker_key is None,
    ensures
        update::is_packaged(project, Os::Windows, Some(code)),
        !update::is_packaged(project, Os::Unix, Some(code)),
        !update::is_packaged(project, Os::Windows, None),
        !update::is_packaged(unmarked, Os::Windows, Some(code)),
{
}

/// The archive of a platform is packed as its extractor takes it, and those of the
/// two systems differ.
pub proof fn each_system_has_its_own_archives(os: Os, other: Os)
    requires
        os != other,
    ensures
        release::suffix_of(os) != release::suffix_of(other),
        release::kind_of(os) != release::kind_of(other),
        release::kind_of(Os::Windows) == release::ArchiveKind::Zip,
{
    reveal_strlit(".zip");
    reveal_strlit(".tar.gz");
    assert(".zip"@.len() == 4);
    assert(".tar.gz"@.len() == 7);
}

} // verus!
