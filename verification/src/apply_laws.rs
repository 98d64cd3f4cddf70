//! What applying a release keeps, whatever the disk and the network do to it:
//! nothing happens without the lock, nothing is replaced from an archive that
//! lacks the primary binary, and nothing staged is left behind.

use vstd::prelude::*;

use crate::aliases;
use crate::apply::{self, Mode, Outcome, Setup, Step};
use crate::project::Project;
use crate::text;
use crate::text_laws;

verus! {

/// What a job works on. Each frontend it is about has a directory of its own, and
/// goes by its place among them.
pub struct Disk<T> {
    /// The files of the install directory, by name.
    pub bins: Map<Seq<char>, T>,
    /// Their modes, where files have one.
    pub modes: Map<Seq<char>, u32>,
    /// The files of the staging directory, by name, if it is there.
    pub staging: Option<Map<Seq<char>, T>>,
    /// The payloads in the staging directory, each as it is once installed.
    pub unpacked: Map<int, T>,
    /// The frontends that are installed.
    pub frontends: Map<int, T>,
    /// Whether this job holds the lock.
    pub locked: bool,
    /// Whether the cached status says that the release is installed.
    pub recorded: bool,
}

/// What is fetched: the name of the archive, the files it carries, and the
/// payloads it carries, each as it is once installed.
pub struct Fetched<T> {
    pub name: Seq<char>,
    pub files: Map<Seq<char>, T>,
    pub payloads: Map<int, T>,
}

/// Whether two directories hold the same under a name.
pub open spec fn agree<K, T>(a: Map<K, T>, b: Map<K, T>, name: K) -> bool {
    &&& a.contains_key(name) == b.contains_key(name)
    &&& a.contains_key(name) ==> a[name] == b[name]
}

/// Whether the staging directory is there and holds a file of that name.
pub open spec fn stages<T>(disk: Disk<T>, name: Seq<char>) -> bool {
    disk.staging is Some && disk.staging->0.contains_key(name)
}

/// The name of the binary at place `i`.
pub open spec fn binary(project: Project, i: int) -> Seq<char> {
    project.binaries@[i]@
}

/// What a disk and a network may do at a step.
///
/// A removal or an extraction that fails may have got part of the way, and so
/// may a replacement, which can at worst leave the file it was to replace
/// missing. A staging directory that is there already keeps what is in it. An
/// install that fails leaves the old frontend where it was, or moved aside where
/// it could not be moved back.
pub open spec fn effect<T>(
    project: Project,
    step: Step,
    outcome: Outcome,
    fetched: Fetched<T>,
    before: Disk<T>,
    after: Disk<T>,
) -> bool {
    let done = outcome == Outcome::Done;
    match step {
        Step::Lock => after == (Disk { locked: done, ..before }),
        Step::ClearBefore | Step::ClearAfter { ok: _ } => {
            &&& after == (Disk { staging: after.staging, unpacked: after.unpacked, ..before })
            &&& done || before.staging is None ==> after.staging is None
        },
        Step::MakeStaging => after == if done && before.staging is None {
            Disk { staging: Some(Map::empty()), unpacked: Map::empty(), ..before }
        } else {
            before
        },
        Step::CreateArchive | Step::Download => {
            &&& after == (Disk { staging: after.staging, ..before })
            &&& before.staging is Some ==> after.staging is Some && forall|name: Seq<char>|
                name != fetched.name ==> #[trigger] agree(
                    after.staging->0,
                    before.staging->0,
                    name,
                )
        },
        Step::Extract => {
            &&& after == (Disk { staging: after.staging, unpacked: after.unpacked, ..before })
            &&& done ==> after.unpacked == before.unpacked.union_prefer_right(fetched.payloads)
            &&& done && before.staging is Some ==> after.staging is Some && forall|name: Seq<char>|
                name != fetched.name ==> #[trigger] agree(
                    after.staging->0,
                    before.staging->0.union_prefer_right(fetched.files),
                    name,
                )
        },
        Step::FindPrimary => after == before && (done <==> stages(before, binary(project, 0))),
        Step::FindBinary(i) => after == before && (done <==> stages(
            before,
            binary(project, i as int),
        )),
        Step::Replace(i) => {
            let name = binary(project, i as int);
            &&& forall|other: Seq<char>|
                other != name ==> #[trigger] agree(after.modes, before.modes, other)
            &&& if done {
                &&& stages(before, name)
                &&& after == (Disk {
                    bins: before.bins.insert(name, before.staging->0[name]),
                    modes: after.modes,
                    staging: Some(
                        if before.bins.contains_key(name) {
                            before.staging->0.remove(name).insert(
                                apply::aside_of(name),
                                before.bins[name],
                            )
                        } else {
                            before.staging->0.remove(name)
                        },
                    ),
                    ..before
                })
            } else {
                &&& after == (Disk {
                    bins: after.bins,
                    modes: after.modes,
                    staging: after.staging,
                    ..before
                })
                &&& after.bins == before.bins || after.bins == before.bins.remove(name)
            }
        },
        Step::MakeRunnable(i) => after == if done {
            Disk {
                modes: before.modes.insert(binary(project, i as int), apply::RUNNABLE_MODE),
                ..before
            }
        } else {
            before
        },
        Step::RefreshAliases => {
            &&& after == (Disk { bins: after.bins, modes: after.modes, ..before })
            &&& forall|name: Seq<char>|
                !aliases::is_dealt_with(project, name) ==> #[trigger] agree(
                    after.bins,
                    before.bins,
                    name,
                ) && agree(after.modes, before.modes, name)
        },
        Step::FindPayload(k) => after == before && (done <==> before.unpacked.contains_key(
            k as int,
        )),
        Step::InstallFrontend(k) => if done {
            &&& before.unpacked.contains_key(k as int)
            &&& after == (Disk {
                frontends: before.frontends.insert(k as int, before.unpacked[k as int]),
                ..before
            })
        } else {
            ||| after == before
            ||| after == (Disk { frontends: before.frontends.remove(k as int), ..before })
        },
        Step::Record => after == (Disk { recorded: before.recorded || done, ..before }),
        Step::ListFrontends | Step::Finished { ok: _ } => after == before,
    }
}

/// A job from its first step on: the steps it was at, how each of their actions
/// went, and what the disk held at each step.
pub struct Run<T> {
    pub steps: Seq<Step>,
    pub outcomes: Seq<Outcome>,
    pub disks: Seq<Disk<T>>,
}

impl<T> Run<T> {
    /// Whether the steps follow one another and disk and network did what they
    /// may do. The setup counts the frontends that the job turns out to be
    /// about: no step before they are listed goes by that number.
    pub open spec fn is_run(self, project: Project, setup: Setup, fetched: Fetched<T>) -> bool {
        &&& project.ships()
        &&& setup.binaries == project.binaries@.len()
        &&& self.steps.len() == self.outcomes.len() + 1
        &&& self.disks.len() == self.steps.len()
        &&& self.steps[0] == Step::Lock
        &&& !self.disks[0].locked
        &&& forall|i: int|
            #![trigger self.outcomes[i]]
            0 <= i < self.outcomes.len() ==> {
                &&& self.steps[i + 1] == apply::next_step(setup, self.steps[i], self.outcomes[i])
                &&& effect(
                    project,
                    self.steps[i],
                    self.outcomes[i],
                    fetched,
                    self.disks[i],
                    self.disks[i + 1],
                )
            }
    }

    /// Whether the staging directory was out of the way when it was to be made.
    pub open spec fn staged_afresh(self) -> bool {
        forall|i: int|
            #![trigger self.steps[i]]
            0 <= i < self.steps.len() && self.steps[i] is MakeStaging ==> self.disks[i].staging
                is None
    }

    /// Whether the staging directory could be removed afterwards wherever that
    /// was tried.
    pub open spec fn cleared(self) -> bool {
        forall|i: int|
            #![trigger self.outcomes[i]]
            0 <= i < self.outcomes.len() && self.steps[i] is ClearAfter ==> self.outcomes[i]
                == Outcome::Done
    }

    /// Whether a step up to the one at place `i` replaces a binary.
    pub open spec fn replaces_by(self, i: int) -> bool {
        exists|k: int| 0 <= k <= i && k < self.steps.len() && #[trigger] self.steps[k] is Replace
    }

    /// Whether a step up to the one at place `i` begins to fetch the archive.
    pub open spec fn fetches_by(self, i: int) -> bool {
        exists|k: int|
            0 <= k <= i && k < self.steps.len() && #[trigger] self.steps[k] is CreateArchive
    }
}

/// Whether the names that meet in the staging directory are different names: the
/// binaries, what they are set aside under, and the archive.
pub open spec fn names_are_apart(project: Project, archive: Seq<char>) -> bool {
    let n = project.binaries@.len();
    &&& forall|i: int, j: int|
        #![trigger binary(project, i), binary(project, j)]
        0 <= i < n && 0 <= j < n && i != j ==> binary(project, i) != binary(project, j)
    &&& forall|i: int, j: int|
        #![trigger binary(project, i), binary(project, j)]
        0 <= i < n && 0 <= j < n ==> binary(project, i) != apply::aside_of(binary(project, j))
    &&& forall|i: int| 0 <= i < n ==> #[trigger] binary(project, i) != archive
}

/// Whether a binary is the archive's copy where the archive carries one, and as
/// it was where it does not.
pub open spec fn is_replaced<T>(
    bins: Map<Seq<char>, T>,
    old: Map<Seq<char>, T>,
    files: Map<Seq<char>, T>,
    name: Seq<char>,
) -> bool {
    if files.contains_key(name) {
        bins.contains_key(name) && bins[name] == files[name]
    } else {
        agree(bins, old, name)
    }
}

/// Whether the binaries below place `low` are replaced, and those from place
/// `high` on are as they were and wait in the staging directory if the archive
/// carries them.
spec fn half_way<T>(
    project: Project,
    fetched: Fetched<T>,
    old: Map<Seq<char>, T>,
    disk: Disk<T>,
    low: int,
    high: int,
) -> bool {
    &&& disk.staging is Some
    &&& forall|j: int|
        0 <= j < low && j < project.binaries@.len() ==> is_replaced(
            disk.bins,
            old,
            fetched.files,
            #[trigger] binary(project, j),
        )
    &&& forall|j: int|
        high <= j < project.binaries@.len() ==> {
            &&& agree(disk.bins, old, #[trigger] binary(project, j))
            &&& agree(disk.staging->0, fetched.files, binary(project, j))
        }
}

/// What holds of the binaries at each step of an update whose staging directory
/// was fresh and whose names are apart.
spec fn binaries_at<T>(run: Run<T>, project: Project, fetched: Fetched<T>, i: int) -> bool {
    let old = run.disks[0].bins;
    let now = run.disks[i];
    let carries = fetched.files.contains_key(binary(project, 0));
    match run.steps[i] {
        Step::Lock | Step::ClearBefore | Step::MakeStaging => now.bins == old,
        Step::ListFrontends | Step::CreateArchive | Step::Download | Step::Extract => {
            &&& now.bins == old
            &&& now.staging is Some
            &&& forall|name: Seq<char>|
                name != fetched.name ==> !#[trigger] now.staging->0.contains_key(name)
        },
        Step::FindPrimary => now.bins == old && half_way(project, fetched, old, now, 0, 0),
        Step::FindBinary(k) => {
            &&& carries
            &&& k < project.binaries@.len()
            &&& half_way(project, fetched, old, now, k as int, k as int)
        },
        Step::Replace(k) => {
            &&& carries
            &&& k < project.binaries@.len()
            &&& half_way(project, fetched, old, now, k as int, k as int)
            &&& stages(now, binary(project, k as int))
        },
        Step::MakeRunnable(k) => carries && half_way(project, fetched, old, now, k + 1, k + 1),
        Step::RefreshAliases => carries && half_way(
            project,
            fetched,
            old,
            now,
            project.binaries@.len() as int,
            project.binaries@.len() as int,
        ),
        Step::FindPayload(_) | Step::InstallFrontend(_) | Step::ClearAfter { ok: true } => {
            &&& carries
            &&& forall|j: int|
                0 <= j < project.binaries@.len() && !aliases::is_dealt_with(
                    project,
                    binary(project, j),
                ) ==> is_replaced(now.bins, old, fetched.files, #[trigger] binary(project, j))
        },
        Step::Record | Step::Finished { ok: true } => {
            &&& carries
            &&& forall|j: int|
                0 <= j < project.binaries@.len() && !aliases::is_dealt_with(
                    project,
                    binary(project, j),
                ) ==> is_replaced(now.bins, old, fetched.files, #[trigger] binary(project, j))
        },
        Step::ClearAfter { ok: false } | Step::Finished { ok: false } => {
            &&& !carries ==> now.bins == old
            &&& forall|j: int|
                0 <= j < project.binaries@.len() && now.bins.contains_key(
                    #[trigger] binary(project, j),
                ) ==> is_replaced(now.bins, old, fetched.files, binary(project, j)) || agree(
                    now.bins,
                    old,
                    binary(project, j),
                )
        },
    }
}

#[verifier::rlimit(40)]
proof fn lemma_binaries<T>(
    run: Run<T>,
    project: Project,
    setup: Setup,
    fetched: Fetched<T>,
    i: int,
)
    requires
        run.is_run(project, setup, fetched),
        setup.mode == Mode::Update,
        run.staged_afresh(),
        names_are_apart(project, fetched.name),
        0 <= i < run.steps.len(),
    ensures
        binaries_at(run, project, fetched, i),
    decreases i,
{
    if i > 0 {
        lemma_binaries(run, project, setup, fetched, i - 1);
        let outcome = run.outcomes[i - 1];
        let step = run.steps[i - 1];
        let before = run.disks[i - 1];
        let after = run.disks[i];
        let old = run.disks[0].bins;
        assert(run.steps[i] == apply::next_step(setup, step, outcome));
        match step {
            Step::CreateArchive | Step::Download => {
                assert forall|name: Seq<char>| name != fetched.name implies !(
                #[trigger] after.staging->0.contains_key(name)) by {
                    assert(agree(after.staging->0, before.staging->0, name));
                }
            },
            Step::Extract => {
                if outcome == Outcome::Done {
                    assert forall|j: int| 0 <= j < project.binaries@.len() implies agree(
                        after.staging->0,
                        fetched.files,
                        #[trigger] binary(project, j),
                    ) by {
                        let name = binary(project, j);
                        let both = before.staging->0.union_prefer_right(fetched.files);
                        assert(agree(after.staging->0, both, name));
                        assert(!before.staging->0.contains_key(name));
                    }
                }
            },
            Step::FindPrimary => {
                assert(agree(before.staging->0, fetched.files, binary(project, 0)));
            },
            Step::FindBinary(k) => {
                let name = binary(project, k as int);
                assert(agree(before.staging->0, fetched.files, name));
                assert(agree(before.bins, old, name));
            },
            Step::Replace(k) => {
                let name = binary(project, k as int);
                assert(agree(before.staging->0, fetched.files, name));
                assert(agree(before.bins, old, name));
                assert forall|j: int| 0 <= j < project.binaries@.len() && j != k implies agree(
                    after.bins,
                    before.bins,
                    #[trigger] binary(project, j),
                ) by {
                    assert(binary(project, j) != name);
                }
                if outcome == Outcome::Done {
                    assert forall|j: int| 0 <= j < project.binaries@.len() && j != k implies agree(
                        after.staging->0,
                        before.staging->0,
                        #[trigger] binary(project, j),
                    ) by {
                        assert(binary(project, j) != name);
                        assert(binary(project, j) != apply::aside_of(name));
                    }
                }
            },
            Step::RefreshAliases => {
                assert forall|j: int|
                    0 <= j < project.binaries@.len() && !aliases::is_dealt_with(
                        project,
                        binary(project, j),
                    ) implies is_replaced(
                    after.bins,
                    old,
                    fetched.files,
                    #[trigger] binary(project, j),
                ) by {
                    assert(agree(after.bins, before.bins, binary(project, j)));
                }
            },
            _ => {},
        }
    }
}

/// An update that succeeds leaves no half of one release behind: every declared
/// binary that the archive carries is the archive's copy, the primary one is
/// among them, and a binary that the archive does not carry is as it was.
///
/// This is of a staging directory that was fresh, since a file left in one from
/// before would pass for the archive's; of names that do not collide in it; and
/// of binaries that are not also aliases or legacy names, which refreshing those
/// replaces or takes away.
pub proof fn success_replaces_every_binary<T>(
    run: Run<T>,
    project: Project,
    setup: Setup,
    fetched: Fetched<T>,
    k: int,
)
    requires
        run.is_run(project, setup, fetched),
        setup.mode == Mode::Update,
        run.staged_afresh(),
        names_are_apart(project, fetched.name),
        run.steps.last() == (Step::Finished { ok: true }),
        0 <= k < project.binaries@.len(),
        !aliases::is_dealt_with(project, binary(project, k)),
    ensures
        fetched.files.contains_key(binary(project, 0)),
        is_replaced(
            run.disks.last().bins,
            run.disks[0].bins,
            fetched.files,
            binary(project, k),
        ),
{
    lemma_binaries(run, project, setup, fetched, run.steps.len() - 1);
}

/// An archive without the primary binary is refused: the update does not succeed
/// and the install directory is never touched.
pub proof fn a_partial_archive_is_refused<T>(
    run: Run<T>,
    project: Project,
    setup: Setup,
    fetched: Fetched<T>,
    i: int,
)
    requires
        run.is_run(project, setup, fetched),
        setup.mode == Mode::Update,
        run.staged_afresh(),
        names_are_apart(project, fetched.name),
        !fetched.files.contains_key(binary(project, 0)),
        0 <= i < run.steps.len(),
    ensures
        run.steps[i] != (Step::Finished { ok: true }),
        run.disks[i].bins == run.disks[0].bins,
{
    lemma_binaries(run, project, setup, fetched, i);
}

/// Whatever becomes of an update, a binary it leaves in the install directory is
/// the old copy or the archive's, and never anything in between.
pub proof fn a_binary_is_old_or_new<T>(
    run: Run<T>,
    project: Project,
    setup: Setup,
    fetched: Fetched<T>,
    k: int,
)
    requires
        run.is_run(project, setup, fetched),
        setup.mode == Mode::Update,
        run.staged_afresh(),
        names_are_apart(project, fetched.name),
        run.steps.last() is Finished,
        0 <= k < project.binaries@.len(),
        !aliases::is_dealt_with(project, binary(project, k)),
        run.disks.last().bins.contains_key(binary(project, k)),
    ensures
        is_replaced(
            run.disks.last().bins,
            run.disks[0].bins,
            fetched.files,
            binary(project, k),
        ) || agree(run.disks.last().bins, run.disks[0].bins, binary(project, k)),
{
    lemma_binaries(run, project, setup, fetched, run.steps.len() - 1);
}

/// Everything between taking the lock and the end happens with the lock held, so
/// an update fired from the panel and one fired from a terminal cannot race on
/// the staging directory.
pub proof fn the_lock_is_held_throughout<T>(
    run: Run<T>,
    project: Project,
    setup: Setup,
    fetched: Fetched<T>,
    i: int,
)
    requires
        run.is_run(project, setup, fetched),
        0 <= i < run.steps.len(),
    ensures
        run.steps[i] is Lock ==> i == 0,
        !(run.steps[i] is Lock) && !(run.steps[i] is Finished) ==> run.disks[i].locked,
        !run.disks[i].locked ==> run.disks[i] == run.disks[0],
    decreases i,
{
    if i > 0 {
        the_lock_is_held_throughout(run, project, setup, fetched, i - 1);
        let outcome = run.outcomes[i - 1];
        assert(run.steps[i] == apply::next_step(setup, run.steps[i - 1], outcome));
    }
}

/// Whether a job at that step may have touched the install directory.
spec fn past_replacing(step: Step) -> bool {
    match step {
        Step::RefreshAliases | Step::FindPayload(_) | Step::InstallFrontend(_) | Step::Record => {
            true
        },
        Step::FindBinary(_) | Step::MakeRunnable(_) => true,
        Step::ClearAfter { ok } => ok,
        Step::Finished { ok } => ok,
        _ => false,
    }
}

/// A job that fails before it replaces anything leaves the install directory as
/// it was, and one that is about frontends alone never touches it.
pub proof fn failing_early_touches_nothing<T>(
    run: Run<T>,
    project: Project,
    setup: Setup,
    fetched: Fetched<T>,
    i: int,
)
    requires
        run.is_run(project, setup, fetched),
        0 <= i < run.steps.len(),
    ensures
        setup.mode == Mode::Frontends ==> run.disks[i].bins == run.disks[0].bins,
        run.steps[i] == (Step::Finished { ok: false }) && !run.replaces_by(i) ==> run.disks[i].bins
            == run.disks[0].bins,
{
    lemma_untouched(run, project, setup, fetched, i);
}

/// What holds of the install directory at each step, whatever was staged.
spec fn untouched_at<T>(run: Run<T>, setup: Setup, i: int) -> bool {
    let same = run.disks[i].bins == run.disks[0].bins;
    &&& setup.mode == Mode::Frontends ==> same && match run.steps[i] {
        Step::FindPrimary | Step::FindBinary(_) | Step::Replace(_) => false,
        Step::MakeRunnable(_) | Step::RefreshAliases => false,
        _ => true,
    }
    &&& match run.steps[i] {
        Step::FindBinary(_) | Step::MakeRunnable(_) | Step::RefreshAliases => {
            run.replaces_by(i) || same
        },
        _ => run.replaces_by(i) || past_replacing(run.steps[i]) || same,
    }
}

proof fn lemma_untouched<T>(
    run: Run<T>,
    project: Project,
    setup: Setup,
    fetched: Fetched<T>,
    i: int,
)
    requires
        run.is_run(project, setup, fetched),
        0 <= i < run.steps.len(),
    ensures
        untouched_at(run, setup, i),
    decreases i,
{
    if i > 0 {
        lemma_untouched(run, project, setup, fetched, i - 1);
        let outcome = run.outcomes[i - 1];
        let step = run.steps[i - 1];
        assert(run.steps[i] == apply::next_step(setup, step, outcome));
        if run.replaces_by(i - 1) {
            let k = choose|k: int|
                0 <= k <= i - 1 && k < run.steps.len() && #[trigger] run.steps[k] is Replace;
            assert(run.steps[k] is Replace);
        }
        assert(run.steps[i] is Replace ==> run.replaces_by(i));
        assert(step is Replace ==> run.replaces_by(i));
    }
}

/// What holds of the staging directory at each step.
spec fn staging_at<T>(run: Run<T>, i: int) -> bool {
    match run.steps[i] {
        Step::Lock | Step::ClearBefore | Step::MakeStaging | Step::ListFrontends => {
            !run.fetches_by(i)
        },
        Step::Record => run.cleared() ==> run.disks[i].staging is None,
        Step::Finished { ok: _ } => run.fetches_by(i) && run.cleared() ==> run.disks[i].staging
            is None,
        _ => true,
    }
}

proof fn lemma_staging<T>(
    run: Run<T>,
    project: Project,
    setup: Setup,
    fetched: Fetched<T>,
    i: int,
)
    requires
        run.is_run(project, setup, fetched),
        0 <= i < run.steps.len(),
    ensures
        staging_at(run, i),
    decreases i,
{
    if i > 0 {
        lemma_staging(run, project, setup, fetched, i - 1);
        let outcome = run.outcomes[i - 1];
        let step = run.steps[i - 1];
        assert(run.steps[i] == apply::next_step(setup, step, outcome));
        if run.fetches_by(i) && !(run.steps[i] is CreateArchive) {
            let k = choose|k: int|
                0 <= k <= i && k < run.steps.len() && #[trigger] run.steps[k] is CreateArchive;
            assert(k <= i - 1);
            assert(run.fetches_by(i - 1));
        }
    }
}

/// Once a job is over, nothing it fetched is left behind if it could be removed
/// at all, whether the job succeeded or failed.
pub proof fn nothing_staged_is_left<T>(
    run: Run<T>,
    project: Project,
    setup: Setup,
    fetched: Fetched<T>,
)
    requires
        run.is_run(project, setup, fetched),
        run.steps.last() is Finished,
        run.fetches_by(run.steps.len() - 1),
        run.cleared(),
    ensures
        run.disks.last().staging is None,
{
    lemma_staging(run, project, setup, fetched, run.steps.len() - 1);
}

/// The cached status is said to describe the release only by an update that
/// succeeds.
pub proof fn only_success_is_recorded<T>(
    run: Run<T>,
    project: Project,
    setup: Setup,
    fetched: Fetched<T>,
    i: int,
)
    requires
        run.is_run(project, setup, fetched),
        0 <= i < run.steps.len(),
    ensures
        run.disks[i].recorded && !run.disks[0].recorded ==> setup.mode == Mode::Update
            && run.steps[i] == (Step::Finished { ok: true }),
        run.steps[i] is Record ==> setup.mode == Mode::Update,
    decreases i,
{
    if i > 0 {
        only_success_is_recorded(run, project, setup, fetched, i - 1);
        let outcome = run.outcomes[i - 1];
        assert(run.steps[i] == apply::next_step(setup, run.steps[i - 1], outcome));
    }
}

/// Projects with different primary binaries lock separately, and stage
/// separately too; so do the two things a project fetches a release for.
pub proof fn projects_lock_apart(a: Project, b: Project, mode: Mode, other: Mode)
    requires
        a.ships(),
        b.ships(),
    ensures
        a.primary_name() != b.primary_name() ==> apply::lock_of(a) != apply::lock_of(b),
        a.primary_name() != b.primary_name() ==> apply::staging_of(a, mode) != apply::staging_of(
            b,
            mode,
        ),
        mode != other ==> apply::staging_of(a, mode) != apply::staging_of(a, other),
{
    reveal_strlit(".");
    reveal_strlit("-update.lock");
    reveal_strlit("-update.tmp");
    reveal_strlit("-frontend.tmp");
    let x = a.primary_name();
    let y = b.primary_name();
    assert(apply::lock_of(a).subrange(1, 1 + x.len() as int) =~= x);
    assert(apply::lock_of(b).subrange(1, 1 + y.len() as int) =~= y);
    assert(apply::staging_of(a, mode).subrange(1, 1 + x.len() as int) =~= x);
    assert(apply::staging_of(b, mode).subrange(1, 1 + y.len() as int) =~= y);
    assert(apply::staging_of(a, Mode::Update).len() == x.len() + 12);
    assert(apply::staging_of(a, Mode::Frontends).len() == x.len() + 14);
}

/// What trying to take a project's lock comes to, where its file can be opened.
/// `held` are the names of the locks that someone holds, before and after. The
/// file being there says nothing: a lock is held by a process or it is not.
pub open spec fn locking(
    project: Project,
    held: Set<Seq<char>>,
    outcome: Outcome,
    held_after: Set<Seq<char>>,
) -> bool {
    if held.contains(apply::lock_of(project)) {
        outcome == Outcome::Busy && held_after == held
    } else {
        outcome == Outcome::Done && held_after == held.insert(apply::lock_of(project))
    }
}

/// While one job of a project holds its lock, another with the same primary
/// binary is refused before it does anything, and says so.
pub proof fn a_held_lock_keeps_others_out(
    holder: Project,
    other: Project,
    setup: Setup,
    version: Seq<char>,
    held: Set<Seq<char>>,
    taken: Outcome,
    held_then: Set<Seq<char>>,
    outcome: Outcome,
    held_after: Set<Seq<char>>,
    place: Seq<char>,
    cause: Seq<char>,
)
    requires
        holder.ships(),
        other.ships(),
        locking(holder, held, taken, held_then),
        locking(other, held_then, outcome, held_after),
        holder.primary_name() == other.primary_name(),
    ensures
        apply::next_step(setup, Step::Lock, outcome) == (Step::Finished { ok: false }),
        apply::failure(other, setup, version, Step::Lock, outcome, place, cause) == Some(
            "an update is already running"@,
        ),
        held_after == held_then,
{
}

/// A lock that was let go, by a job that is over or a process that died, lets the
/// next in.
pub proof fn letting_go_lets_the_next_in(
    holder: Project,
    other: Project,
    setup: Setup,
    held: Set<Seq<char>>,
    outcome: Outcome,
    held_after: Set<Seq<char>>,
)
    requires
        holder.ships(),
        other.ships(),
        holder.primary_name() == other.primary_name(),
        locking(other, held.remove(apply::lock_of(holder)), outcome, held_after),
    ensures
        outcome == Outcome::Done,
        held_after.contains(apply::lock_of(other)),
        apply::next_step(setup, Step::Lock, outcome) == Step::ClearBefore,
{
}

/// Whether a project with another primary binary holds its lock makes no
/// difference: two of them can share an install directory.
pub proof fn the_lock_of_another_project_does_not_matter(
    another: Project,
    project: Project,
    held: Set<Seq<char>>,
    outcome: Outcome,
    held_after: Set<Seq<char>>,
    instead: Outcome,
    held_instead: Set<Seq<char>>,
)
    requires
        another.ships(),
        project.ships(),
        another.primary_name() != project.primary_name(),
        locking(project, held, outcome, held_after),
        locking(project, held.insert(apply::lock_of(another)), instead, held_instead),
    ensures
        outcome == instead,
{
    projects_lock_apart(another, project, Mode::Update, Mode::Update);
}

/// What becomes of the locks of an install directory.
pub enum LockEvent {
    /// A job of that project tries to take its lock, and that is how it goes.
    Take { project: Project, outcome: Outcome },
    /// A job of that project lets its lock go, being over, or its process is dead.
    LetGo { project: Project },
}

/// The locks that are held over time, from when none is.
pub struct LockHistory {
    pub held: Seq<Set<Seq<char>>>,
    pub events: Seq<LockEvent>,
}

impl LockHistory {
    /// Whether every lock file could be opened and each event did what it does.
    pub open spec fn is_history(self) -> bool {
        &&& self.held.len() == self.events.len() + 1
        &&& self.held[0] == Set::<Seq<char>>::empty()
        &&& forall|i: int|
            #![trigger self.events[i]]
            0 <= i < self.events.len() ==> match self.events[i] {
                LockEvent::Take { project, outcome } => {
                    &&& project.ships()
                    &&& locking(project, self.held[i], outcome, self.held[i + 1])
                },
                LockEvent::LetGo { project } => {
                    &&& project.ships()
                    &&& self.held[i + 1] == self.held[i].remove(apply::lock_of(project))
                },
            }
    }

    /// Whether the event at place `j` took the lock of that primary binary.
    pub open spec fn takes(self, primary: Seq<char>, j: int) -> bool {
        self.events[j] matches LockEvent::Take { project, outcome } && project.primary_name()
            == primary && outcome == Outcome::Done
    }

    /// Whether the event at place `j` let go the lock of that primary binary.
    pub open spec fn lets_go(self, primary: Seq<char>, j: int) -> bool {
        self.events[j] matches LockEvent::LetGo { project } && project.primary_name() == primary
    }

    /// Whether the lock that the event at place `j` took for that primary binary
    /// is still held before the one at place `i`.
    pub open spec fn holds_since(self, primary: Seq<char>, j: int, i: int) -> bool {
        &&& 0 <= j < i
        &&& self.takes(primary, j)
        &&& forall|l: int| j < l < i ==> !(#[trigger] self.lets_go(primary, l))
    }
}

/// A lock is held exactly where one was taken earlier for the same primary binary
/// and not let go since. So taking one is refused then, and never else: not for a
/// file that is there, not for a lock that was let go, not for that of another
/// project.
pub proof fn a_lock_is_refused_exactly_while_held(h: LockHistory, project: Project, i: int)
    requires
        h.is_history(),
        project.ships(),
        0 <= i < h.held.len(),
    ensures
        h.held[i].contains(apply::lock_of(project)) <==> exists|j: int|
            #[trigger] h.holds_since(project.primary_name(), j, i),
        forall|outcome: Outcome, after: Set<Seq<char>>|
            #[trigger] locking(project, h.held[i], outcome, after) ==> {
                &&& outcome == Outcome::Busy || outcome == Outcome::Done
                &&& outcome == Outcome::Busy <==> exists|j: int|
                    #[trigger] h.holds_since(project.primary_name(), j, i)
            },
    decreases i,
{
    let primary = project.primary_name();
    if i > 0 {
        a_lock_is_refused_exactly_while_held(h, project, i - 1);
        let event = h.events[i - 1];
        match event {
            LockEvent::Take { project: p, outcome } => {
                projects_lock_apart(p, project, Mode::Update, Mode::Update);
                if p.primary_name() == primary && outcome == Outcome::Done {
                    assert(h.holds_since(primary, i - 1, i));
                }
            },
            LockEvent::LetGo { project: p } => {
                projects_lock_apart(p, project, Mode::Update, Mode::Update);
                if p.primary_name() == primary {
                    assert(h.lets_go(primary, i - 1));
                }
            },
        }
        let before = exists|j: int| #[trigger] h.holds_since(primary, j, i - 1);
        if before && !h.lets_go(primary, i - 1) {
            let j = choose|j: int| #[trigger] h.holds_since(primary, j, i - 1);
            assert(h.holds_since(primary, j, i));
        }
        if exists|j: int| #[trigger] h.holds_since(primary, j, i) {
            let j = choose|j: int| #[trigger] h.holds_since(primary, j, i);
            if j < i - 1 {
                assert(!h.lets_go(primary, i - 1));
                assert(h.holds_since(primary, j, i - 1));
            }
        }
    }
}

/// How far a step is from the end, for a job that turns out to be about so many
/// frontends.
pub open spec fn left(setup: Setup, step: Step) -> int {
    let binaries = setup.binaries as int;
    let frontends = setup.frontends as int;
    match step {
        Step::Lock => 3 * binaries + 2 * frontends + 11,
        Step::ClearBefore => 3 * binaries + 2 * frontends + 10,
        Step::MakeStaging => 3 * binaries + 2 * frontends + 9,
        Step::ListFrontends => 3 * binaries + 2 * frontends + 8,
        Step::CreateArchive => 3 * binaries + 2 * frontends + 7,
        Step::Download => 3 * binaries + 2 * frontends + 6,
        Step::Extract => 3 * binaries + 2 * frontends + 5,
        Step::FindPrimary => 3 * binaries + 2 * frontends + 4,
        Step::FindBinary(i) => 3 * (binaries - i) + 2 * frontends + 3,
        Step::Replace(i) => 3 * (binaries - i) + 2 * frontends + 2,
        Step::MakeRunnable(i) => 3 * (binaries - i) + 2 * frontends + 1,
        Step::RefreshAliases => 2 * frontends + 3,
        Step::FindPayload(k) => 2 * frontends - k + 2,
        Step::InstallFrontend(k) => frontends - k + 2,
        Step::ClearAfter { ok: _ } => 2,
        Step::Record => 1,
        Step::Finished { ok: _ } => 0,
    }
}

/// Whether a step is one that a job of that setup can be at.
pub open spec fn is_step_of(setup: Setup, step: Step) -> bool {
    match step {
        Step::FindBinary(i) | Step::Replace(i) | Step::MakeRunnable(i) => i < setup.binaries,
        Step::FindPayload(k) | Step::InstallFrontend(k) => k < setup.frontends,
        _ => true,
    }
}

/// Every answer brings a job nearer its end, so it always ends. The number of
/// frontends is that which the job turns out to be about, from the start.
pub proof fn every_answer_brings_the_end_nearer(setup: Setup, step: Step, outcome: Outcome)
    requires
        is_step_of(setup, step),
        !(step is Finished),
    ensures
        0 <= left(setup, apply::next_step(setup, step, outcome)) < left(setup, step),
        is_step_of(setup, apply::next_step(setup, step, outcome)),
{
}

/// Whether a step belongs to a job that has failed.
pub open spec fn has_failed(step: Step) -> bool {
    match step {
        Step::ClearAfter { ok } => !ok,
        Step::Finished { ok } => !ok,
        _ => false,
    }
}

/// A job gives its reason exactly when it turns to failing, and only then.
pub proof fn failing_says_why(
    project: Project,
    setup: Setup,
    version: Seq<char>,
    step: Step,
    outcome: Outcome,
    place: Seq<char>,
    cause: Seq<char>,
)
    requires
        is_step_of(setup, step),
        // Refreshing the aliases is a step of updates alone.
        step is RefreshAliases ==> setup.mode == Mode::Update,
    ensures
        apply::failure(project, setup, version, step, outcome, place, cause) is Some <==> {
            &&& !has_failed(step)
            &&& has_failed(apply::next_step(setup, step, outcome))
        },
{
}

/// A failure that a frontend's install ends with does not skip the others: from
/// the first on, each in turn is installed, whatever became of those before.
pub proof fn one_failing_frontend_does_not_skip_the_rest(setup: Setup, k: usize, outcome: Outcome)
    requires
        k < setup.frontends,
    ensures
        apply::next_step(setup, Step::InstallFrontend(k), outcome) == if k + 1 < setup.frontends {
            Step::InstallFrontend((k + 1) as usize)
        } else {
            Step::ClearAfter { ok: true }
        },
{
}

/// Whether a step is work on which the whole job depends, whatever the archive
/// carries. Clearing, setting modes, refreshing names, installing one frontend and
/// recording are not: a job goes on whatever becomes of them.
pub open spec fn is_vital(step: Step) -> bool {
    match step {
        Step::Lock | Step::MakeStaging | Step::CreateArchive | Step::Download | Step::Extract => {
            true
        },
        Step::Replace(_) => true,
        _ => false,
    }
}

/// Whether, before place `i`, everything vital was done.
pub open spec fn vital_done<T>(run: Run<T>, i: int) -> bool {
    forall|j: int|
        #![trigger run.outcomes[j]]
        0 <= j < i && j < run.outcomes.len() && is_vital(run.steps[j]) ==> run.outcomes[j]
            == Outcome::Done
}

/// Whether, before place `i`, the primary binary was found wherever it was looked
/// for.
pub open spec fn primary_found<T>(run: Run<T>, i: int) -> bool {
    forall|j: int|
        #![trigger run.outcomes[j]]
        0 <= j < i && j < run.outcomes.len() && run.steps[j] is FindPrimary ==> run.outcomes[j]
            == Outcome::Done
}

proof fn lemma_update_cause<T>(
    run: Run<T>,
    project: Project,
    setup: Setup,
    fetched: Fetched<T>,
    i: int,
)
    requires
        run.is_run(project, setup, fetched),
        setup.mode == Mode::Update,
        0 <= i < run.steps.len(),
    ensures
        has_failed(run.steps[i]) <==> !(vital_done(run, i) && primary_found(run, i)),
    decreases i,
{
    if i > 0 {
        lemma_update_cause(run, project, setup, fetched, i - 1);
        let outcome = run.outcomes[i - 1];
        let step = run.steps[i - 1];
        assert(run.steps[i] == apply::next_step(setup, step, outcome));
        if vital_done(run, i) {
            assert(vital_done(run, i - 1));
        }
        if primary_found(run, i) {
            assert(primary_found(run, i - 1));
        }
    }
}

/// An update that is over has succeeded exactly where everything vital was done
/// and the primary binary was in the archive. However many binaries and frontends
/// it is about, none included, nothing else makes it fail.
pub proof fn an_update_fails_only_for_a_cause<T>(
    run: Run<T>,
    project: Project,
    setup: Setup,
    fetched: Fetched<T>,
)
    requires
        run.is_run(project, setup, fetched),
        setup.mode == Mode::Update,
        run.steps.last() is Finished,
    ensures
        run.steps.last() == (Step::Finished { ok: true }) <==> {
            &&& vital_done(run, run.outcomes.len() as int)
            &&& primary_found(run, run.outcomes.len() as int)
        },
{
    lemma_update_cause(run, project, setup, fetched, run.steps.len() - 1);
}

proof fn lemma_primary_is_found<T>(
    run: Run<T>,
    project: Project,
    setup: Setup,
    fetched: Fetched<T>,
    i: int,
)
    requires
        run.is_run(project, setup, fetched),
        setup.mode == Mode::Update,
        run.staged_afresh(),
        names_are_apart(project, fetched.name),
        fetched.files.contains_key(binary(project, 0)),
        0 <= i < run.steps.len(),
    ensures
        primary_found(run, i),
{
    assert forall|j: int|
        #![trigger run.outcomes[j]]
        0 <= j < i && j < run.outcomes.len() && run.steps[j] is FindPrimary implies run.outcomes[j]
        == Outcome::Done by {
        lemma_binaries(run, project, setup, fetched, j);
        assert(agree(run.disks[j].staging->0, fetched.files, binary(project, 0)));
    }
}

/// An update succeeds where nothing goes wrong: where everything vital is done and
/// the archive carries the primary binary, and only there. This is of a staging
/// directory that was fresh and of names that do not collide in it.
pub proof fn an_update_succeeds_where_nothing_goes_wrong<T>(
    run: Run<T>,
    project: Project,
    setup: Setup,
    fetched: Fetched<T>,
)
    requires
        run.is_run(project, setup, fetched),
        setup.mode == Mode::Update,
        run.staged_afresh(),
        names_are_apart(project, fetched.name),
        run.steps.last() is Finished,
    ensures
        run.steps.last() == (Step::Finished { ok: true }) <==> {
            &&& vital_done(run, run.outcomes.len() as int)
            &&& fetched.files.contains_key(binary(project, 0))
        },
{
    let last = run.steps.len() - 1;
    an_update_fails_only_for_a_cause(run, project, setup, fetched);
    if fetched.files.contains_key(binary(project, 0)) {
        lemma_primary_is_found(run, project, setup, fetched, last);
    } else {
        a_partial_archive_is_refused(run, project, setup, fetched, last);
    }
}

/// What is left of an earlier job is cleared away before a job stages anything:
/// wherever that could be done, or there was nothing, the staging directory is
/// fresh.
pub proof fn clearing_first_makes_staging_fresh<T>(
    run: Run<T>,
    project: Project,
    setup: Setup,
    fetched: Fetched<T>,
)
    requires
        run.is_run(project, setup, fetched),
        run.disks[0].staging is None || forall|i: int|
            #![trigger run.outcomes[i]]
            0 <= i < run.outcomes.len() && run.steps[i] is ClearBefore ==> run.outcomes[i]
                == Outcome::Done,
    ensures
        run.staged_afresh(),
{
    assert forall|i: int|
        #![trigger run.steps[i]]
        0 <= i < run.steps.len() && run.steps[i] is MakeStaging implies run.disks[i].staging
        is None by {
        lemma_before_staging(run, project, setup, fetched, i);
    }
}

proof fn lemma_before_staging<T>(
    run: Run<T>,
    project: Project,
    setup: Setup,
    fetched: Fetched<T>,
    i: int,
)
    requires
        run.is_run(project, setup, fetched),
        run.disks[0].staging is None || forall|i: int|
            #![trigger run.outcomes[i]]
            0 <= i < run.outcomes.len() && run.steps[i] is ClearBefore ==> run.outcomes[i]
                == Outcome::Done,
        0 <= i < run.steps.len(),
    ensures
        run.steps[i] is Lock || run.steps[i] is ClearBefore ==> run.disks[i].staging
            == run.disks[0].staging,
        run.steps[i] is MakeStaging ==> run.disks[i].staging is None,
    decreases i,
{
    if i > 0 {
        lemma_before_staging(run, project, setup, fetched, i - 1);
        let outcome = run.outcomes[i - 1];
        assert(run.steps[i] == apply::next_step(setup, run.steps[i - 1], outcome));
    }
}

/// Whether the steps that end at place `e` fetched the archive: its file was
/// created, it was downloaded and it was extracted, one behind the other and each
/// of them done.
pub open spec fn fetched_at<T>(run: Run<T>, e: int) -> bool {
    &&& 2 <= e < run.outcomes.len()
    &&& run.steps[e - 2] is CreateArchive
    &&& run.steps[e - 1] is Download
    &&& run.steps[e] is Extract
    &&& run.outcomes[e - 2] == Outcome::Done
    &&& run.outcomes[e - 1] == Outcome::Done
    &&& run.outcomes[e] == Outcome::Done
}

/// Whether a step works on what was extracted.
pub open spec fn uses_archive(step: Step) -> bool {
    match step {
        Step::FindPrimary | Step::FindBinary(_) | Step::Replace(_) | Step::MakeRunnable(_) => true,
        Step::RefreshAliases | Step::FindPayload(_) | Step::InstallFrontend(_) => true,
        Step::ClearAfter { ok } => ok,
        Step::Record => true,
        Step::Finished { ok } => ok,
        _ => false,
    }
}

/// An archive is whole before anything in it is used: nothing of it is looked at,
/// moved or installed, and no job succeeds, but behind a download and an
/// extraction that were done. So what fails to arrive replaces nothing.
pub proof fn an_archive_is_whole_before_it_is_used<T>(
    run: Run<T>,
    project: Project,
    setup: Setup,
    fetched: Fetched<T>,
    i: int,
)
    requires
        run.is_run(project, setup, fetched),
        0 <= i < run.steps.len(),
        uses_archive(run.steps[i]),
    ensures
        exists|e: int| e < i && #[trigger] fetched_at(run, e),
{
    lemma_whole(run, project, setup, fetched, i);
}

proof fn lemma_whole<T>(
    run: Run<T>,
    project: Project,
    setup: Setup,
    fetched: Fetched<T>,
    i: int,
)
    requires
        run.is_run(project, setup, fetched),
        0 <= i < run.steps.len(),
    ensures
        uses_archive(run.steps[i]) ==> exists|e: int| e < i && #[trigger] fetched_at(run, e),
        run.steps[i] is Download ==> i >= 1 && run.steps[i - 1] is CreateArchive
            && run.outcomes[i - 1] == Outcome::Done,
        run.steps[i] is Extract ==> {
            &&& i >= 2
            &&& run.steps[i - 1] is Download
            &&& run.outcomes[i - 1] == Outcome::Done
            &&& run.steps[i - 2] is CreateArchive
            &&& run.outcomes[i - 2] == Outcome::Done
        },
    decreases i,
{
    if i > 0 {
        lemma_whole(run, project, setup, fetched, i - 1);
        let outcome = run.outcomes[i - 1];
        let step = run.steps[i - 1];
        assert(run.steps[i] == apply::next_step(setup, step, outcome));
        if uses_archive(run.steps[i]) {
            if step is Extract {
                assert(fetched_at(run, i - 1));
            } else {
                assert(uses_archive(step));
            }
        }
    }
}

/// A job has something to clear away only once it began to fetch: one that could
/// not take its lock or make its staging directory is over at once.
pub proof fn a_job_that_fetched_nothing_is_over_at_once<T>(
    run: Run<T>,
    project: Project,
    setup: Setup,
    fetched: Fetched<T>,
    i: int,
)
    requires
        run.is_run(project, setup, fetched),
        0 <= i < run.outcomes.len(),
        run.steps[i] is Lock || run.steps[i] is MakeStaging,
        run.outcomes[i] != Outcome::Done,
    ensures
        run.steps[i + 1] == (Step::Finished { ok: false }),
{
    assert(run.steps[i + 1] == apply::next_step(setup, run.steps[i], run.outcomes[i]));
}

/// Every binary is looked for, from the first to the last, wherever an update gets
/// to refreshing the aliases, and each that is found is replaced.
pub proof fn every_binary_has_its_turn<T>(
    run: Run<T>,
    project: Project,
    setup: Setup,
    fetched: Fetched<T>,
    i: int,
    k: int,
)
    requires
        run.is_run(project, setup, fetched),
        0 <= i < run.steps.len(),
        run.steps[i] is RefreshAliases,
        0 <= k < project.binaries@.len(),
    ensures
        exists|j: int|
            #![trigger run.outcomes[j]]
            0 <= j < i && run.steps[j] == Step::FindBinary(k as usize) && (run.outcomes[j]
                == Outcome::Done ==> run.steps[j + 1] == Step::Replace(k as usize)),
{
    lemma_turns(run, project, setup, fetched, i, k);
}

spec fn had_turn<T>(run: Run<T>, i: int, k: int) -> bool {
    exists|j: int|
        #![trigger run.outcomes[j]]
        0 <= j < i && run.steps[j] == Step::FindBinary(k as usize) && (run.outcomes[j]
            == Outcome::Done ==> run.steps[j + 1] == Step::Replace(k as usize))
}

proof fn lemma_turns<T>(
    run: Run<T>,
    project: Project,
    setup: Setup,
    fetched: Fetched<T>,
    i: int,
    k: int,
)
    requires
        run.is_run(project, setup, fetched),
        0 <= i < run.steps.len(),
        0 <= k < project.binaries@.len(),
    ensures
        match run.steps[i] {
            Step::FindBinary(n) => n < setup.binaries && (k < n ==> had_turn(run, i, k)),
            Step::Replace(n) | Step::MakeRunnable(n) => n < setup.binaries && (k <= n ==> had_turn(
                run,
                i,
                k,
            )),
            Step::RefreshAliases => had_turn(run, i, k),
            _ => true,
        },
    decreases i,
{
    if i > 0 {
        lemma_turns(run, project, setup, fetched, i - 1, k);
        let outcome = run.outcomes[i - 1];
        let step = run.steps[i - 1];
        assert(run.steps[i] == apply::next_step(setup, step, outcome));
        if had_turn(run, i - 1, k) {
            let j = choose|j: int|
                #![trigger run.outcomes[j]]
                0 <= j < i - 1 && run.steps[j] == Step::FindBinary(k as usize) && (run.outcomes[j]
                    == Outcome::Done ==> run.steps[j + 1] == Step::Replace(k as usize));
            assert(run.outcomes[j] == run.outcomes[j]);
            assert(had_turn(run, i, k));
        }
        if step == Step::FindBinary(k as usize) {
            assert(run.outcomes[i - 1] == outcome);
            assert(had_turn(run, i, k));
        }
    }
}

/// What a job says of its failure names what went wrong: the reason that was
/// given, and where that was; the binary that the archive lacks; or the version
/// whose release has no payloads.
pub proof fn a_job_says_what_went_wrong(
    project: Project,
    setup: Setup,
    version: Seq<char>,
    step: Step,
    outcome: Outcome,
    place: Seq<char>,
    cause: Seq<char>,
)
    requires
        outcome != Outcome::Done,
    ensures
        is_vital(step) && !(step is Lock && outcome == Outcome::Busy) ==> text::ends_with(
            apply::failure(project, setup, version, step, outcome, place, cause)->0,
            cause,
        ),
        step is Lock && outcome == Outcome::Busy ==> apply::failure(
            project,
            setup,
            version,
            step,
            outcome,
            place,
            cause,
        ) == Some("an update is already running"@),
        step is MakeStaging || step is CreateArchive || step is Replace || (step is Lock && outcome
            == Outcome::Failed) ==> text::contains(
            apply::failure(project, setup, version, step, outcome, place, cause)->0,
            place,
        ),
        step is FindPrimary ==> text::contains(
            apply::failure(project, setup, version, step, outcome, place, cause)->0,
            project.binaries@[0]@,
        ),
{
    let said = apply::failure(project, setup, version, step, outcome, place, cause);
    match said {
        Some(e) => {
            text_laws::starting_and_ending(e, cause);
            match step {
                Step::Lock => {
                    let a = "cannot open the update lock "@;
                    if outcome == Outcome::Failed {
                        assert(e =~= a + place + (": "@ + cause));
                        text_laws::what_is_put_in_is_contained(a, place, ": "@ + cause);
                    }
                },
                Step::MakeStaging => {
                    let a = "cannot create staging dir "@;
                    assert(e =~= a + place + (": "@ + cause));
                    text_laws::what_is_put_in_is_contained(a, place, ": "@ + cause);
                },
                Step::CreateArchive => {
                    let a = "cannot create "@;
                    assert(e =~= a + place + (": "@ + cause));
                    text_laws::what_is_put_in_is_contained(a, place, ": "@ + cause);
                },
                Step::Replace(_) => {
                    let a = "failed to replace "@;
                    assert(e =~= a + place + (": "@ + cause));
                    text_laws::what_is_put_in_is_contained(a, place, ": "@ + cause);
                },
                Step::FindPrimary => {
                    text_laws::what_is_put_in_is_contained(
                        "release archive has no "@,
                        project.primary_name(),
                        " - refusing a partial update"@,
                    );
                },
                _ => {},
            }
        },
        None => {},
    }
}

} // verus!
