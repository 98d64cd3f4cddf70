//! The project that drives the machinery.

use vstd::prelude::*;

use crate::frontend::Frontend;
use crate::text::{self, Class};

verus! {

/// Everything the machinery cannot know about the project driving it.
///
/// A project is threaded through rather than read from a global, so a test can
/// describe one that does not exist and drive the whole install against it.
#[derive(Debug, Clone, Copy)]
pub struct Project {
    /// Every executable the release archive carries, the primary one first.
    /// That one also names the assets: `<primary>-<tag>-<target>.tar.gz`.
    ///
    /// A project shipping more than one names them all, because an update that
    /// replaced some of them would leave an install describing a version half
    /// of it is not. Declare the Windows spellings with the caller's own
    /// `cfg`: which names carry `.exe` is not something this crate can know.
    pub binaries: &'static [&'static str],
    /// `owner/repo` releases are pulled from.
    pub repo: &'static str,
    /// Environment variable that overrides `repo`, so a fork can update from
    /// its own releases without a rebuild.
    pub repo_env: &'static str,
    /// The running binary's version. It has to come from the caller:
    /// `CARGO_PKG_VERSION` here would be this crate's version, not theirs.
    pub version: &'static str,
    /// Desktop payloads shipped in the same archive as the binary.
    pub frontends: &'static [Frontend],
    /// Symlinks installed beside the binary, which an update has to keep
    /// pointing at the copy it just wrote.
    pub aliases: &'static [&'static str],
    /// Executables an older layout installed that nothing writes now. An
    /// update removes them rather than leaving a stale copy to answer.
    ///
    /// The opposite of an alias: an alias is an old name the binary still
    /// answers to, and gets a symlink.
    pub legacy: &'static [&'static str],
    /// Windows: the registry key an MSI writes its ProductCode under, if this
    /// project ships one. `None` means every update replaces in place.
    ///
    /// Where MSI owns what is on disk, replacing the files underneath it
    /// leaves Windows describing a version that is no longer installed, and a
    /// later package comparing against it. So an install that came from the
    /// MSI is upgraded by the MSI.
    pub msi_marker_key: Option<&'static str>,
}

/// The two sides of the first `/` of a text, where it has one.
pub open spec fn sides(repo: Seq<char>) -> Option<(Seq<char>, Seq<char>)> {
    let i = text::until(repo, Class::Slash) as int;
    if i < repo.len() {
        Some((repo.take(i), repo.skip(i + 1)))
    } else {
        None
    }
}

impl Project {
    /// Whether the project ships anything at all, which naming its primary
    /// binary takes for granted.
    pub open spec fn ships(self) -> bool {
        self.binaries@.len() > 0
    }

    /// The name of the primary binary.
    pub open spec fn primary_name(self) -> Seq<char> {
        self.binaries@[0]@
    }

    /// The repository, after the environment has had its say.
    pub open spec fn repo_name(self, named: Option<&str>) -> Seq<char> {
        match named {
            Some(r) => r@,
            None => self.repo@,
        }
    }

    /// The executable the others are named after and the aliases point at.
    /// Without it in an archive there is nothing to update to.
    pub fn primary(&self) -> (r: &'static str)
        requires
            self.ships(),
        ensures
            r@ == self.primary_name(),
    {
        self.binaries[0]
    }

    /// The repository to pull releases from, after the environment has had its
    /// say: `named` is what the variable `repo_env` holds, if it holds text.
    pub fn repo(&self, named: Option<&str>) -> (r: String)
        ensures
            r@ == self.repo_name(named),
    {
        match named {
            Some(r) => r.to_owned(),
            None => self.repo.to_owned(),
        }
    }

    /// The owner and the name that releases are asked for by.
    pub open spec fn asked_for(self, named: Option<&str>) -> (Seq<char>, Seq<char>) {
        match sides(self.repo_name(named)) {
            Some(parts) => parts,
            None => match sides(self.repo@) {
                Some(parts) => parts,
                None => (seq![], self.repo_name(named)),
            },
        }
    }

    /// The owner and the name that releases are asked for by. An override that
    /// names no owner is passed over for the repository the project declares,
    /// and where that names none either there is only a name.
    pub fn owner_and_name(&self, named: Option<&str>) -> (r: (String, String))
        ensures
            r.0@ == self.asked_for(named).0,
            r.1@ == self.asked_for(named).1,
    {
        let repo = self.repo(named);
        match text::split_first(repo.as_str(), Class::Slash) {
            Some((owner, name)) => return (owner.to_owned(), name.to_owned()),
            None => {},
        }
        match text::split_first(self.repo, Class::Slash) {
            Some((owner, name)) => (owner.to_owned(), name.to_owned()),
            None => (String::new(), repo),
        }
    }
}

/// A repository is parted at its first `/`, and only there: what stands before it
/// is the owner, and what stands behind it the name, with any further `/` in it.
pub proof fn a_repository_is_owner_and_name(owner: Seq<char>, name: Seq<char>)
    requires
        forall|i: int| 0 <= i < owner.len() ==> #[trigger] owner[i] != '/',
    ensures
        sides(owner + seq!['/'] + name) == Some((owner, name)),
        sides(owner) is None,
{
    let repo = owner + seq!['/'] + name;
    let n = owner.len() as int;
    assert forall|j: int| 0 <= j < n implies !Class::Slash.holds(#[trigger] repo[j]) by {
        assert(repo[j] == owner[j]);
    }
    assert(repo[n] == '/');
    text::lemma_until(repo, Class::Slash, n);
    assert(repo.take(n) =~= owner);
    assert(repo.skip(n + 1) =~= name);
    assert forall|j: int| 0 <= j < n implies !Class::Slash.holds(#[trigger] owner[j]) by {}
    text::lemma_until(owner, Class::Slash, n);
}

/// The environment has its say over the repository, whatever the project
/// declares, and where it says nothing the project's own counts.
pub proof fn an_override_counts(project: Project, other: Project, named: &str)
    ensures
        project.repo_name(Some(named)) == named@,
        project.repo_name(Some(named)) == other.repo_name(Some(named)),
        project.repo_name(None) == project.repo@,
{
}

/// The primary binary is the first that is declared, however many follow it.
pub proof fn the_primary_is_the_first(project: Project, other: Project)
    requires
        project.ships(),
        other.ships(),
        project.binaries@.first() == other.binaries@.first(),
    ensures
        project.primary_name() == other.primary_name(),
        project.primary_name() == project.binaries@.first()@,
{
}

/// Releases are asked for by what the environment names, where that names an owner
/// and a name, whatever the project declares. What names no owner is passed over
/// for what the project declares, and it is asked for as it is, with no owner, only
/// where that names none either.
pub proof fn an_override_that_names_an_owner_counts(
    project: Project,
    named: &str,
    owner: Seq<char>,
    name: Seq<char>,
)
    requires
        forall|i: int| 0 <= i < owner.len() ==> #[trigger] owner[i] != '/',
    ensures
        named@ == owner + seq!['/'] + name ==> project.asked_for(Some(named)) == (owner, name),
        project.repo@ == owner + seq!['/'] + name ==> project.asked_for(None) == (owner, name),
        project.repo@ == owner + seq!['/'] + name && (forall|i: int|
            0 <= i < named@.len() ==> #[trigger] named@[i] != '/') ==> project.asked_for(
            Some(named),
        ) == (owner, name),
        project.repo@ == owner && (forall|i: int|
            0 <= i < named@.len() ==> #[trigger] named@[i] != '/') ==> project.asked_for(
            Some(named),
        ) == (Seq::<char>::empty(), named@),
{
    a_repository_is_owner_and_name(owner, name);
    if forall|i: int| 0 <= i < named@.len() ==> #[trigger] named@[i] != '/' {
        a_repository_is_owner_and_name(named@, name);
    }
}

} // verus!
