//! Releases, and which of their assets is for the running platform.

use vstd::prelude::*;

use crate::text::{self, Class};

verus! {

/// The operating system, as far as releases tell them apart.
#[derive(Debug, Clone, Copy, PartialEq, Eq, Structural)]
pub enum Os {
    Windows,
    /// Anything else, which is taken for Linux.
    Unix,
}

/// How the binary archive of a release is packed.
#[derive(Debug, Clone, Copy, PartialEq, Eq, Structural)]
pub enum ArchiveKind {
    /// A gzipped tar.
    TarGz,
    Zip,
}

/// One file that a release carries.
#[derive(Debug, Clone, PartialEq, Eq)]
pub struct ReleaseAsset {
    pub name: String,
    pub download_url: String,
}

/// A release. A repository lists its releases newest first.
#[derive(Debug, Clone, PartialEq, Eq)]
pub struct Release {
    pub version: String,
    pub assets: Vec<ReleaseAsset>,
}

/// Distinguishes the binary archive from the other assets a release carries.
pub open spec fn suffix_of(os: Os) -> Seq<char> {
    match os {
        Os::Windows => ".zip"@,
        Os::Unix => ".tar.gz"@,
    }
}

/// The extractor for the asset that [`suffix_of`] asks for.
pub open spec fn kind_of(os: Os) -> ArchiveKind {
    match os {
        Os::Windows => ArchiveKind::Zip,
        Os::Unix => ArchiveKind::TarGz,
    }
}

/// The substring that an asset name must contain for a platform, if releases
/// are built for it.
pub open spec fn target_of(os: Os, arch: Seq<char>) -> Option<Seq<char>> {
    match os {
        Os::Windows => if arch == "x86_64"@ {
            Some("windows-x86_64"@)
        } else {
            None
        },
        Os::Unix => if arch == "x86_64"@ {
            Some("linux-x86_64"@)
        } else if arch == "aarch64"@ || arch == "arm64"@ {
            Some("linux-aarch64"@)
        } else {
            None
        },
    }
}

/// Distinguishes the binary archive from the other assets a release carries.
///
/// Public because a consumer's own tests are what check that its release
/// workflow publishes an asset this will go looking for. Getting that wrong
/// produces a release nothing can update from, with green CI.
///
/// Windows releases ship a zip, because that is what a Windows user can open
/// without installing anything.
pub fn archive_suffix(os: Os) -> (r: &'static str)
    ensures
        r@ == suffix_of(os),
{
    match os {
        Os::Windows => ".zip",
        Os::Unix => ".tar.gz",
    }
}

/// The extractor for the asset that [`archive_suffix`] asks for.
pub fn archive_kind(os: Os) -> (r: ArchiveKind)
    ensures
        r == kind_of(os),
{
    match os {
        Os::Windows => ArchiveKind::Zip,
        Os::Unix => ArchiveKind::TarGz,
    }
}

/// Substring the release asset name must contain for the running platform.
///
/// Public for the same reason as [`archive_suffix`]. Matches the release
/// workflow's `<binary>-<tag>-<target><suffix>` naming.
///
/// The operating system is part of it, not just the architecture: an x86_64
/// answer that named only the architecture matched the Linux asset on Windows,
/// and the update downloaded a tarball of ELF binaries.
pub fn arch_target(os: Os, arch: &str) -> (r: Result<&'static str, String>)
    ensures
        match r {
            Ok(t) => target_of(os, arch@) == Some(t@),
            Err(e) => target_of(os, arch@) is None && e@ == "unsupported arch: "@ + arch@,
        },
{
    match os {
        Os::Windows => if text::same(arch, "x86_64") {
            return Ok("windows-x86_64");
        },
        Os::Unix => if text::same(arch, "x86_64") {
            return Ok("linux-x86_64");
        } else if text::same(arch, "aarch64") || text::same(arch, "arm64") {
            return Ok("linux-aarch64");
        },
    }
    Err(text::cat2("unsupported arch: ", arch))
}

/// Whether an asset of that name is the archive for `target`: its name contains
/// both the target and the archive suffix.
pub open spec fn is_for(name: Seq<char>, target: Seq<char>, suffix: Seq<char>) -> bool {
    text::contains(name, target) && text::contains(name, suffix)
}

/// Whether the asset at place `i` is the first that is the archive for `target`.
pub open spec fn is_first_for(
    assets: Seq<ReleaseAsset>,
    target: Seq<char>,
    suffix: Seq<char>,
    i: int,
) -> bool {
    &&& 0 <= i < assets.len()
    &&& is_for(assets[i].name@, target, suffix)
    &&& forall|j: int| 0 <= j < i ==> !is_for((#[trigger] assets[j]).name@, target, suffix)
}

/// Whether no asset is the archive for `target`.
pub open spec fn has_none_for(
    assets: Seq<ReleaseAsset>,
    target: Seq<char>,
    suffix: Seq<char>,
) -> bool {
    forall|j: int| 0 <= j < assets.len() ==> !is_for((#[trigger] assets[j]).name@, target, suffix)
}

/// Whether two assets are written the same.
pub open spec fn same_asset(a: ReleaseAsset, b: ReleaseAsset) -> bool {
    a.name@ == b.name@ && a.download_url@ == b.download_url@
}

impl ReleaseAsset {
    /// The same asset once more.
    pub(crate) fn again(&self) -> (r: ReleaseAsset)
        ensures
            same_asset(r, *self),
    {
        ReleaseAsset { name: self.name.clone(), download_url: self.download_url.clone() }
    }
}

/// `self_update::update::Release::asset_for`: the first asset whose name
/// contains both the target and the identifier. Where there is none it falls
/// back to an asset whose name contains the identifier alone, whatever platform
/// that is for, and it gives nothing only where no name contains the
/// identifier. Which of several such assets it falls back to depends on the
/// machine, and is left unsaid.
#[verifier::external_body]
fn asset_for(assets: &Vec<ReleaseAsset>, target: &str, identifier: &str) -> (r: Option<
    ReleaseAsset,
>)
    ensures
        match r {
            Some(a) => exists|i: int|
                {
                    &&& 0 <= i < assets@.len()
                    &&& same_asset(#[trigger] assets@[i], a)
                    &&& text::contains(a.name@, identifier@)
                    &&& is_first_for(assets@, target@, identifier@, i) || has_none_for(
                        assets@,
                        target@,
                        identifier@,
                    )
                },
            None => forall|j: int|
                0 <= j < assets@.len() ==> !text::contains(
                    (#[trigger] assets@[j]).name@,
                    identifier@,
                ),
        },
{
    let assets = assets.iter().map(
        |a| self_update::update::ReleaseAsset {
            download_url: a.download_url.clone(),
            name: a.name.clone(),
        },
    ).collect();
    let release = self_update::update::Release { assets, ..Default::default() };
    let found = release.asset_for(target, Some(identifier));
    found.map(|a| ReleaseAsset { name: a.name, download_url: a.download_url })
}

/// The archive of a release for the running platform. A release that does not
/// carry this platform has none, however many archives for others it carries:
/// installing one of those would leave binaries that cannot run here.
pub fn platform_asset(release: &Release, target: &str, suffix: &str) -> (r: Option<ReleaseAsset>)
    ensures
        match r {
            Some(a) => exists|i: int|
                is_first_for(release.assets@, target@, suffix@, i) && same_asset(
                    #[trigger] release.assets@[i],
                    a,
                ),
            None => has_none_for(release.assets@, target@, suffix@),
        },
{
    match asset_for(&release.assets, target, suffix) {
        Some(asset) => if text::occurs(asset.name.as_str(), target) {
            Some(asset)
        } else {
            None
        },
        None => None,
    }
}

/// Whether a release carries the archive for `target`.
pub open spec fn carries(release: Release, target: Seq<char>, suffix: Seq<char>) -> bool {
    !has_none_for(release.assets@, target, suffix)
}

/// The newest release carrying an asset for the running platform: the place of
/// the first such release in the list.
pub fn latest_release(releases: &Vec<Release>, target: &str, suffix: &str) -> (r: Result<
    usize,
    String,
>)
    ensures
        match r {
            Ok(i) => {
                &&& i < releases@.len()
                &&& carries(releases@[i as int], target@, suffix@)
                &&& forall|j: int|
                    0 <= j < i ==> !carries(#[trigger] releases@[j], target@, suffix@)
            },
            Err(e) => {
                &&& forall|j: int|
                    0 <= j < releases@.len() ==> !carries(
                        #[trigger] releases@[j],
                        target@,
                        suffix@,
                    )
                &&& e@ == "no release with a "@ + target@ + " asset found"@
            },
        },
{
    let mut i: usize = 0;
    while i < releases.len()
        invariant
            i <= releases@.len(),
            forall|j: int| 0 <= j < i ==> !carries(#[trigger] releases@[j], target@, suffix@),
        decreases releases.len() - i,
    {
        if platform_asset(&releases[i], target, suffix).is_some() {
            return Ok(i);
        }
        i = i + 1;
    }
    Err(text::cat3("no release with a ", target, " asset found"))
}

/// A version as releases are looked up by: without the `v` of its tag.
pub open spec fn untagged(version: Seq<char>) -> Seq<char> {
    text::strip_start(version, Class::SmallV)
}

/// The release of a version, however either of them spells the leading `v`: the
/// place of the first such release in the list.
pub fn release_named(releases: &Vec<Release>, version: &str) -> (r: Result<usize, String>)
    ensures
        match r {
            Ok(i) => {
                &&& i < releases@.len()
                &&& untagged(releases@[i as int].version@) == untagged(version@)
                &&& forall|j: int|
                    0 <= j < i ==> untagged((#[trigger] releases@[j]).version@) != untagged(
                        version@,
                    )
            },
            Err(e) => {
                &&& forall|j: int|
                    0 <= j < releases@.len() ==> untagged((#[trigger] releases@[j]).version@)
                        != untagged(version@)
                &&& e@ == "no release v"@ + untagged(version@) + " to install frontends from"@
            },
        },
{
    let wanted = text::stripped_start(version, Class::SmallV);
    let mut i: usize = 0;
    while i < releases.len()
        invariant
            i <= releases@.len(),
            wanted@ == untagged(version@),
            forall|j: int|
                0 <= j < i ==> untagged((#[trigger] releases@[j]).version@) != untagged(version@),
        decreases releases.len() - i,
    {
        if text::same(
            text::stripped_start(releases[i].version.as_str(), Class::SmallV),
            wanted,
        ) {
            return Ok(i);
        }
        i = i + 1;
    }
    Err(text::cat3("no release v", wanted, " to install frontends from"))
}

/// The first asset of a release that is a Windows installer package.
pub fn msi_asset(release: &Release) -> (r: Result<usize, String>)
    ensures
        match r {
            Ok(i) => {
                &&& i < release.assets@.len()
                &&& text::ends_with(release.assets@[i as int].name@, ".msi"@)
                &&& forall|j: int|
                    0 <= j < i ==> !text::ends_with(
                        (#[trigger] release.assets@[j]).name@,
                        ".msi"@,
                    )
            },
            Err(e) => {
                &&& forall|j: int|
                    0 <= j < release.assets@.len() ==> !text::ends_with(
                        (#[trigger] release.assets@[j]).name@,
                        ".msi"@,
                    )
                &&& e@ == "release "@ + release.version@
                    + " has no .msi asset; download it from the releases page"@
            },
        },
{
    let mut i: usize = 0;
    while i < release.assets.len()
        invariant
            i <= release.assets@.len(),
            forall|j: int|
                0 <= j < i ==> !text::ends_with((#[trigger] release.assets@[j]).name@, ".msi"@),
        decreases release.assets.len() - i,
    {
        if text::ends(release.assets[i].name.as_str(), ".msi") {
            return Ok(i);
        }
        i = i + 1;
    }
    Err(
        text::cat3(
            "release ",
            release.version.as_str(),
            " has no .msi asset; download it from the releases page",
        ),
    )
}

/// The extractor and the asset asked for describe the same file on every
/// platform.
pub proof fn kind_matches_suffix(os: Os)
    ensures
        kind_of(os) == ArchiveKind::Zip <==> suffix_of(os) == ".zip"@,
        kind_of(os) == ArchiveKind::TarGz <==> suffix_of(os) == ".tar.gz"@,
{
    reveal_strlit(".zip");
    reveal_strlit(".tar.gz");
    assert(".zip"@.len() != ".tar.gz"@.len());
}

/// A target starts with the operating system it is for.
pub proof fn target_names_the_os(os: Os, arch: Seq<char>)
    ensures
        target_of(os, arch) matches Some(t) ==> text::starts_with(
            t,
            match os {
                Os::Windows => "windows"@,
                Os::Unix => "linux"@,
            },
        ),
{
    reveal_strlit("windows");
    reveal_strlit("linux");
    reveal_strlit("windows-x86_64");
    reveal_strlit("linux-x86_64");
    reveal_strlit("linux-aarch64");
    assert("windows-x86_64"@.take(7) =~= "windows"@);
    assert("linux-x86_64"@.take(5) =~= "linux"@);
    assert("linux-aarch64"@.take(5) =~= "linux"@);
}

/// No target occurs in the target of another platform, so a name that ends in one
/// platform's target does not answer for another by that ending.
pub proof fn targets_are_apart(os: Os, arch: Seq<char>, other_os: Os, other_arch: Seq<char>)
    requires
        target_of(os, arch) is Some,
        target_of(other_os, other_arch) is Some,
        target_of(os, arch) != target_of(other_os, other_arch),
    ensures
        !text::contains(target_of(os, arch)->0, target_of(other_os, other_arch)->0),
{
    let a = target_of(os, arch)->0;
    let b = target_of(other_os, other_arch)->0;
    reveal_strlit("windows-x86_64");
    reveal_strlit("linux-x86_64");
    reveal_strlit("linux-aarch64");
    assert forall|i: int| 0 <= i <= a.len() - b.len() implies #[trigger] a.subrange(
        i,
        i + b.len(),
    ) != b by {
        let s = a.subrange(i, i + b.len());
        assert(s[0] == a[i]);
        assert(s[b.len() - 1] == a[i + b.len() - 1]);
        assert(s[6] == a[i + 6]);
    }
}

} // verus!
