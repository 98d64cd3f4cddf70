//! The binary and its frontends are never a release apart: what an update that
//! succeeds leaves behind comes from one archive, and it left nothing undone.

use vstd::prelude::*;

use crate::aliases;
use crate::apply::{self, Mode, Outcome, Setup, Step};
use crate::apply_laws::{self, Disk, Fetched, Run};
use crate::install;
use crate::install_laws;
use crate::project::Project;
use crate::release::Os;

verus! {

/// Whether the archive carries a payload for any of the frontends the job is
/// about.
pub open spec fn carries_payloads<T>(setup: Setup, fetched: Fetched<T>) -> bool {
    exists|k: int| 0 <= k < setup.frontends && #[trigger] fetched.payloads.contains_key(k)
}

/// Whether the frontend at place `k` is what its install was to make of it: the
/// archive's payload where it was done, and else as it was, or moved aside.
pub open spec fn is_settled<T>(
    outcome: Outcome,
    payloads: Map<int, T>,
    old: Map<int, T>,
    now: Map<int, T>,
    k: int,
) -> bool {
    if outcome == Outcome::Done {
        payloads.contains_key(k) && now.contains_key(k) && now[k] == payloads[k]
    } else {
        apply_laws::agree(now, old, k) || !now.contains_key(k)
    }
}

/// Whether the steps from place `p` on install the first `n` frontends, each in
/// turn, and no other step up to the one at place `i` installs any.
pub open spec fn installs_in_turn<T>(run: Run<T>, p: int, n: int, i: int) -> bool {
    &&& 0 <= p
    &&& p + n <= run.steps.len()
    &&& forall|k: int|
        0 <= k < n ==> #[trigger] run.steps[p + k] == Step::InstallFrontend(k as usize)
    &&& forall|j: int|
        0 <= j <= i && j < run.steps.len() && #[trigger] run.steps[j] is InstallFrontend ==> p <= j
            < p + n
}

/// Whether the first `n` frontends are settled by the installs from place `p` on,
/// and the others are as they were.
spec fn settled<T>(run: Run<T>, fetched: Fetched<T>, now: Map<int, T>, p: int, n: int) -> bool {
    let old = run.disks[0].frontends;
    &&& forall|k: int|
        0 <= k < n ==> #[trigger] is_settled(
            run.outcomes[p + k],
            fetched.payloads,
            old,
            now,
            k,
        )
    &&& forall|k: int| !(0 <= k < n) ==> #[trigger] apply_laws::agree(now, old, k)
}

/// Whether no step up to the one at place `i` installs a frontend.
pub open spec fn installs_none<T>(run: Run<T>, i: int) -> bool {
    forall|j: int|
        0 <= j <= i && j < run.steps.len() ==> !(#[trigger] run.steps[j] is InstallFrontend)
}

/// What holds of the frontends at each step of a job whose staging directory was
/// fresh.
spec fn frontends_at<T>(run: Run<T>, setup: Setup, fetched: Fetched<T>, i: int) -> bool {
    let old = run.disks[0].frontends;
    let now = run.disks[i];
    let untouched = now.frontends == old && installs_none(run, i);
    match run.steps[i] {
        Step::Lock | Step::ClearBefore | Step::MakeStaging => untouched,
        Step::ListFrontends | Step::CreateArchive | Step::Download | Step::Extract => {
            &&& untouched
            &&& now.unpacked == Map::<int, T>::empty()
        },
        Step::FindPrimary
        | Step::FindBinary(_)
        | Step::Replace(_)
        | Step::MakeRunnable(_)
        | Step::RefreshAliases => {
            &&& untouched
            &&& now.unpacked == fetched.payloads
            &&& setup.mode == Mode::Update
        },
        Step::FindPayload(k) => {
            &&& untouched
            &&& now.unpacked == fetched.payloads
            &&& k < setup.frontends
            &&& forall|j: int| 0 <= j < k ==> !(#[trigger] fetched.payloads.contains_key(j))
        },
        Step::InstallFrontend(k) => {
            &&& now.unpacked == fetched.payloads
            &&& k < setup.frontends
            &&& carries_payloads(setup, fetched)
            &&& installs_in_turn(run, i - k, k + 1, i)
            &&& settled(run, fetched, now.frontends, i - k, k as int)
        },
        Step::ClearAfter { ok: true } | Step::Record | Step::Finished { ok: true } => {
            ||| {
                &&& !carries_payloads(setup, fetched)
                &&& setup.mode == Mode::Update
                &&& untouched
            }
            ||| {
                &&& carries_payloads(setup, fetched)
                &&& exists|p: int|
                    {
                        &&& p + setup.frontends <= i
                        &&& #[trigger] installs_in_turn(run, p, setup.frontends as int, i)
                        &&& settled(run, fetched, now.frontends, p, setup.frontends as int)
                    }
            }
        },
        Step::ClearAfter { ok: false } | Step::Finished { ok: false } => untouched,
    }
}

proof fn lemma_frontends<T>(
    run: Run<T>,
    project: Project,
    setup: Setup,
    fetched: Fetched<T>,
    i: int,
)
    requires
        run.is_run(project, setup, fetched),
        run.staged_afresh(),
        0 <= i < run.steps.len(),
    ensures
        frontends_at(run, setup, fetched, i),
    decreases i,
{
    if i > 0 {
        lemma_frontends(run, project, setup, fetched, i - 1);
        let outcome = run.outcomes[i - 1];
        let step = run.steps[i - 1];
        let before = run.disks[i - 1];
        let after = run.disks[i];
        let old = run.disks[0].frontends;
        assert(run.steps[i] == apply::next_step(setup, step, outcome));
        match step {
            Step::Extract => {
                assert(Map::<int, T>::empty().union_prefer_right(fetched.payloads)
                    =~= fetched.payloads);
            },
            Step::FindPayload(k) => {
                if outcome == Outcome::Done {
                    assert(fetched.payloads.contains_key(k as int));
                    assert(installs_in_turn(run, i - 0, 1, i));
                    assert(settled(run, fetched, after.frontends, i - 0, 0));
                }
            },
            Step::InstallFrontend(k) => {
                let p = i - 1 - k;
                assert(run.outcomes[p + k] == outcome);
                assert forall|j: int| 0 <= j < k + 1 implies #[trigger] is_settled(
                    run.outcomes[p + j],
                    fetched.payloads,
                    old,
                    after.frontends,
                    j,
                ) by {
                    if j < k {
                        assert(is_settled(
                            run.outcomes[p + j],
                            fetched.payloads,
                            old,
                            before.frontends,
                            j,
                        ));
                    } else {
                        assert(apply_laws::agree(before.frontends, old, j));
                    }
                }
                assert forall|j: int| !(0 <= j < k + 1) implies #[trigger] apply_laws::agree(
                    after.frontends,
                    old,
                    j,
                ) by {
                    assert(apply_laws::agree(before.frontends, old, j));
                }
                assert(settled(run, fetched, after.frontends, p, k + 1));
                if k + 1 < setup.frontends {
                    assert(run.steps[i] == Step::InstallFrontend((k + 1) as usize));
                    assert forall|j: int| 0 <= j < k + 2 implies #[trigger] run.steps[p + j]
                        == Step::InstallFrontend(j as usize) by {
                        if j == k + 1 {
                            assert(p + j == i);
                        }
                    }
                    assert(installs_in_turn(run, p, k + 2, i));
                } else {
                    assert(installs_in_turn(run, p, setup.frontends as int, i));
                }
            },
            Step::ClearAfter { ok: true } | Step::Record | Step::Finished { ok: true } => {
                if carries_payloads(setup, fetched) {
                    let p = choose|p: int|
                        {
                            &&& p + setup.frontends <= i - 1
                            &&& #[trigger] installs_in_turn(
                                run,
                                p,
                                setup.frontends as int,
                                i - 1,
                            )
                            &&& settled(
                                run,
                                fetched,
                                before.frontends,
                                p,
                                setup.frontends as int,
                            )
                        };
                    assert(installs_in_turn(run, p, setup.frontends as int, i));
                }
            },
            _ => {},
        }
    }
}

/// The frontends of a job that succeeds come from its archive. Where the archive
/// carries no payload for any of them - which only an update lets pass - none is
/// touched. Else each of them is installed, once and in their order, and is then
/// the archive's payload, or was not done and is as it was, at worst moved aside.
///
/// This is of a staging directory that was fresh, since a payload left in one
/// from before would pass for the archive's.
pub proof fn frontends_come_from_the_archive<T>(
    run: Run<T>,
    project: Project,
    setup: Setup,
    fetched: Fetched<T>,
)
    requires
        run.is_run(project, setup, fetched),
        run.staged_afresh(),
        run.steps.last() == (Step::Finished { ok: true }),
    ensures
        !carries_payloads(setup, fetched) ==> {
            &&& setup.mode == Mode::Update
            &&& run.disks.last().frontends == run.disks[0].frontends
            &&& installs_none(run, run.steps.len() - 1)
        },
        carries_payloads(setup, fetched) ==> exists|p: int|
            {
                &&& #[trigger] installs_in_turn(
                    run,
                    p,
                    setup.frontends as int,
                    run.steps.len() - 1,
                )
                &&& forall|k: int|
                    0 <= k < setup.frontends ==> #[trigger] is_settled(
                        run.outcomes[p + k],
                        fetched.payloads,
                        run.disks[0].frontends,
                        run.disks.last().frontends,
                        k,
                    )
            },
{
    lemma_frontends(run, project, setup, fetched, run.steps.len() - 1);
    if carries_payloads(setup, fetched) {
        let p = choose|p: int|
            {
                &&& p + setup.frontends <= run.steps.len() - 1
                &&& #[trigger] installs_in_turn(
                    run,
                    p,
                    setup.frontends as int,
                    run.steps.len() - 1,
                )
                &&& settled(
                    run,
                    fetched,
                    run.disks.last().frontends,
                    p,
                    setup.frontends as int,
                )
            };
        assert(installs_in_turn(run, p, setup.frontends as int, run.steps.len() - 1));
    }
}

/// A job that fails has touched no frontend.
pub proof fn failing_touches_no_frontend<T>(
    run: Run<T>,
    project: Project,
    setup: Setup,
    fetched: Fetched<T>,
)
    requires
        run.is_run(project, setup, fetched),
        run.staged_afresh(),
        run.steps.last() == (Step::Finished { ok: false }),
    ensures
        run.disks.last().frontends == run.disks[0].frontends,
        installs_none(run, run.steps.len() - 1),
{
    lemma_frontends(run, project, setup, fetched, run.steps.len() - 1);
}

/// The binary and its frontends are never a release apart. After an update that
/// succeeds every binary that the archive carries is the archive's, the primary
/// one among them, and so is every frontend whose install was done, each having
/// been tried where the archive carries any payload at all.
///
/// This is of a staging directory that was fresh, of names that do not collide in
/// it, and of binaries that are not also aliases or legacy names.
pub proof fn an_update_is_of_one_release<T>(
    run: Run<T>,
    project: Project,
    setup: Setup,
    fetched: Fetched<T>,
)
    requires
        run.is_run(project, setup, fetched),
        setup.mode == Mode::Update,
        run.staged_afresh(),
        apply_laws::names_are_apart(project, fetched.name),
        run.steps.last() == (Step::Finished { ok: true }),
    ensures
        fetched.files.contains_key(apply_laws::binary(project, 0)),
        forall|b: int|
            0 <= b < project.binaries@.len() && !aliases::is_dealt_with(
                project,
                apply_laws::binary(project, b),
            ) ==> apply_laws::is_replaced(
                run.disks.last().bins,
                run.disks[0].bins,
                fetched.files,
                #[trigger] apply_laws::binary(project, b),
            ),
        !carries_payloads(setup, fetched) ==> run.disks.last().frontends
            == run.disks[0].frontends,
        carries_payloads(setup, fetched) ==> exists|p: int|
            {
                &&& #[trigger] installs_in_turn(
                    run,
                    p,
                    setup.frontends as int,
                    run.steps.len() - 1,
                )
                &&& forall|k: int|
                    0 <= k < setup.frontends ==> #[trigger] is_settled(
                        run.outcomes[p + k],
                        fetched.payloads,
                        run.disks[0].frontends,
                        run.disks.last().frontends,
                        k,
                    )
            },
{
    frontends_come_from_the_archive(run, project, setup, fetched);
    if !fetched.files.contains_key(apply_laws::binary(project, 0)) {
        let last = run.steps.len() - 1;
        apply_laws::a_partial_archive_is_refused(run, project, setup, fetched, last);
    }
    assert forall|b: int|
        0 <= b < project.binaries@.len() && !aliases::is_dealt_with(
            project,
            apply_laws::binary(project, b),
        ) implies apply_laws::is_replaced(
        run.disks.last().bins,
        run.disks[0].bins,
        fetched.files,
        #[trigger] apply_laws::binary(project, b),
    ) by {
        apply_laws::success_replaces_every_binary(run, project, setup, fetched, b);
    }
}

/// A map with what a directory holds, if it is there, under a place.
pub open spec fn with_at<T>(m: Map<int, T>, k: int, held: Option<T>) -> Map<int, T> {
    match held {
        Some(v) => m.insert(k, v),
        None => m.remove(k),
    }
}

/// Installing a frontend does to the disk what a job takes it to do: an install
/// that ends is done or not, and leaves the frontend as [`apply_laws::effect`]
/// says of that. This is of an install whose own staging directory could be
/// cleared.
pub proof fn an_install_is_what_a_job_takes_it_for<T>(
    install: install_laws::Run<T>,
    setup: install::Setup,
    payload: T,
    compiled: spec_fn(T) -> T,
    project: Project,
    fetched: Fetched<T>,
    before: Disk<T>,
    k: usize,
    outcome: Outcome,
)
    requires
        install.is_run(setup, payload, compiled),
        install.staged_afresh(),
        install.steps.last() is Finished,
        outcome == Outcome::Done <==> install.steps.last() == (install::Step::Finished {
            installed: true,
        }),
        before.unpacked.contains_key(k as int),
        before.unpacked[k as int] == install_laws::finished(setup, payload, compiled),
        before.frontends == with_at(before.frontends, k as int, install.shelves[0].dest),
    ensures
        apply_laws::effect(
            project,
            Step::InstallFrontend(k),
            outcome,
            fetched,
            before,
            (Disk {
                frontends: with_at(before.frontends, k as int, install.shelves.last().dest),
                ..before
            }),
        ),
{
    if outcome == Outcome::Done {
        install_laws::success_replaces_whole(install, setup, payload, compiled);
    } else {
        install_laws::failure_keeps_the_old_install(install, setup, payload, compiled);
    }
}

/// Whether the step at place `a` lists the frontends, before any step up to the
/// one at place `i` replaces a binary, and none of those installs a frontend.
spec fn listed_at<T>(run: Run<T>, a: int, i: int) -> bool {
    &&& 0 <= a < i
    &&& run.steps[a] is ListFrontends
    &&& forall|j: int| 0 <= j <= i && #[trigger] run.steps[j] is Replace ==> a < j
    &&& forall|j: int| 0 <= j <= i ==> !(#[trigger] run.steps[j] is InstallFrontend)
}

/// Whether the step at place `a` lists the frontends and the one at place `b`
/// refreshes the aliases, and of those up to place `i` all that replace a binary
/// stand between the two and all that install a frontend behind them.
pub open spec fn is_ordered<T>(run: Run<T>, a: int, b: int, i: int) -> bool {
    &&& 0 <= a < b < i
    &&& run.steps[a] is ListFrontends
    &&& run.steps[b] is RefreshAliases
    &&& forall|j: int| 0 <= j <= i && #[trigger] run.steps[j] is Replace ==> a < j < b
    &&& forall|j: int| 0 <= j <= i && #[trigger] run.steps[j] is InstallFrontend ==> b < j
}

/// Whether the step at place `c` records the release, and where that is done it
/// is recorded at place `i`.
pub open spec fn is_recorded<T>(run: Run<T>, c: int, i: int) -> bool {
    &&& 0 <= c < i
    &&& run.steps[c] is Record
    &&& run.outcomes[c] == Outcome::Done ==> run.disks[i].recorded
}

/// What an update has behind it at each step.
spec fn behind<T>(run: Run<T>, i: int) -> bool {
    match run.steps[i] {
        Step::Lock | Step::ClearBefore | Step::MakeStaging | Step::ListFrontends => {
            forall|j: int|
                0 <= j <= i ==> !(#[trigger] run.steps[j] is Replace)
                    && !(run.steps[j] is InstallFrontend)
        },
        Step::FindPayload(_)
        | Step::InstallFrontend(_)
        | Step::ClearAfter { ok: true }
        | Step::Record => exists|a: int, b: int| #[trigger] is_ordered(run, a, b, i),
        Step::Finished { ok: true } => {
            &&& exists|a: int, b: int| #[trigger] is_ordered(run, a, b, i)
            &&& exists|c: int| #[trigger] is_recorded(run, c, i)
        },
        Step::ClearAfter { ok: false } | Step::Finished { ok: false } => true,
        _ => exists|a: int| #[trigger] listed_at(run, a, i),
    }
}

proof fn lemma_behind<T>(
    run: Run<T>,
    project: Project,
    setup: Setup,
    fetched: Fetched<T>,
    i: int,
)
    requires
        run.is_run(project, setup, fetched),
        setup.mode == Mode::Update,
        0 <= i < run.steps.len(),
    ensures
        behind(run, i),
    decreases i,
{
    if i > 0 {
        lemma_behind(run, project, setup, fetched, i - 1);
        let step = run.steps[i - 1];
        assert(run.steps[i] == apply::next_step(setup, step, run.outcomes[i - 1]));
        match step {
            Step::Lock | Step::ClearBefore | Step::MakeStaging => {},
            Step::ListFrontends => {
                assert(listed_at(run, i - 1, i));
            },
            Step::FindPayload(_)
            | Step::InstallFrontend(_)
            | Step::ClearAfter { ok: true }
            | Step::Record
            | Step::Finished { ok: true } => {
                let (a, b) = choose|a: int, b: int| #[trigger] is_ordered(run, a, b, i - 1);
                assert(is_ordered(run, a, b, i));
                if step is Record {
                    assert(is_recorded(run, i - 1, i));
                }
                if step is Finished {
                    let c = choose|c: int| #[trigger] is_recorded(run, c, i - 1);
                    assert(is_recorded(run, c, i));
                }
            },
            Step::ClearAfter { ok: false } | Step::Finished { ok: false } => {},
            Step::RefreshAliases => {
                let a = choose|a: int| #[trigger] listed_at(run, a, i - 1);
                assert(is_ordered(run, a, i - 1, i));
            },
            _ => {
                let a = choose|a: int| #[trigger] listed_at(run, a, i - 1);
                if !(run.steps[i] is ClearAfter) {
                    assert(listed_at(run, a, i));
                }
            },
        }
    }
}

/// An update that succeeds left nothing undone: it listed the frontends that were
/// installed before it replaced anything, it refreshed the aliases once every
/// binary was replaced, so they point at what was just written, and it recorded
/// the release behind all of that. What was recorded stays recorded.
pub proof fn success_leaves_nothing_undone<T>(
    run: Run<T>,
    project: Project,
    setup: Setup,
    fetched: Fetched<T>,
)
    requires
        run.is_run(project, setup, fetched),
        setup.mode == Mode::Update,
        run.steps.last() == (Step::Finished { ok: true }),
    ensures
        exists|a: int, b: int| #[trigger] is_ordered(run, a, b, run.steps.len() - 1),
        exists|c: int| #[trigger] is_recorded(run, c, run.steps.len() - 1),
{
    lemma_behind(run, project, setup, fetched, run.steps.len() - 1);
}

/// Whether every binary that was replaced could be given its mode.
pub open spec fn is_permitted<T>(run: Run<T>) -> bool {
    forall|i: int|
        #![trigger run.outcomes[i]]
        0 <= i < run.outcomes.len() && run.steps[i] is MakeRunnable ==> run.outcomes[i]
            == Outcome::Done
}

/// Whether the file of that name has the mode that everyone may run.
pub open spec fn is_runnable<T>(disk: Disk<T>, name: Seq<char>) -> bool {
    disk.modes.contains_key(name) && disk.modes[name] == apply::RUNNABLE_MODE
}

/// Whether the binaries below place `n` that the archive carries are runnable,
/// and those from place `m` on wait in the staging directory if it carries them.
spec fn runnable_below<T>(
    project: Project,
    fetched: Fetched<T>,
    disk: Disk<T>,
    n: int,
    m: int,
) -> bool {
    &&& disk.staging is Some
    &&& forall|j: int|
        0 <= j < n && j < project.binaries@.len() && fetched.files.contains_key(
            #[trigger] apply_laws::binary(project, j),
        ) ==> is_runnable(disk, apply_laws::binary(project, j))
    &&& forall|j: int|
        m <= j < project.binaries@.len() ==> apply_laws::agree(
            disk.staging->0,
            fetched.files,
            #[trigger] apply_laws::binary(project, j),
        )
}

/// What holds of the modes at each step of an update on a system that has them.
spec fn modes_at<T>(run: Run<T>, project: Project, fetched: Fetched<T>, i: int) -> bool {
    let now = run.disks[i];
    let n = project.binaries@.len() as int;
    match run.steps[i] {
        Step::Lock | Step::ClearBefore | Step::MakeStaging => true,
        Step::ListFrontends | Step::CreateArchive | Step::Download | Step::Extract => {
            &&& now.staging is Some
            &&& forall|name: Seq<char>|
                name != fetched.name ==> !#[trigger] now.staging->0.contains_key(name)
        },
        Step::FindPrimary => runnable_below(project, fetched, now, 0, 0),
        Step::FindBinary(k) => k < n && runnable_below(project, fetched, now, k as int, k as int),
        Step::Replace(k) => k < n && runnable_below(project, fetched, now, k as int, k as int),
        Step::MakeRunnable(k) => k < n && runnable_below(project, fetched, now, k as int, k + 1),
        Step::RefreshAliases => runnable_below(project, fetched, now, n, n),
        Step::ClearAfter { ok: false } | Step::Finished { ok: false } => true,
        _ => forall|j: int|
            0 <= j < n && fetched.files.contains_key(#[trigger] apply_laws::binary(project, j))
                && !aliases::is_dealt_with(project, apply_laws::binary(project, j)) ==> is_runnable(
                now,
                apply_laws::binary(project, j),
            ),
    }
}

#[verifier::rlimit(40)]
proof fn lemma_modes<T>(
    run: Run<T>,
    project: Project,
    setup: Setup,
    fetched: Fetched<T>,
    i: int,
)
    requires
        run.is_run(project, setup, fetched),
        setup.mode == Mode::Update,
        setup.os == Os::Unix,
        run.staged_afresh(),
        is_permitted(run),
        apply_laws::names_are_apart(project, fetched.name),
        0 <= i < run.steps.len(),
    ensures
        modes_at(run, project, fetched, i),
    decreases i,
{
    if i > 0 {
        lemma_modes(run, project, setup, fetched, i - 1);
        let outcome = run.outcomes[i - 1];
        let step = run.steps[i - 1];
        let before = run.disks[i - 1];
        let after = run.disks[i];
        assert(run.steps[i] == apply::next_step(setup, step, outcome));
        match step {
            Step::CreateArchive | Step::Download => {
                assert forall|name: Seq<char>| name != fetched.name implies !(
                #[trigger] after.staging->0.contains_key(name)) by {
                    assert(apply_laws::agree(after.staging->0, before.staging->0, name));
                }
            },
            Step::Extract => {
                if outcome == Outcome::Done {
                    assert forall|j: int|
                        0 <= j < project.binaries@.len() implies apply_laws::agree(
                        after.staging->0,
                        fetched.files,
                        #[trigger] apply_laws::binary(project, j),
                    ) by {
                        let name = apply_laws::binary(project, j);
                        let both = before.staging->0.union_prefer_right(fetched.files);
                        assert(apply_laws::agree(after.staging->0, both, name));
                        assert(!before.staging->0.contains_key(name));
                    }
                }
            },
            Step::FindBinary(k) => {
                assert(apply_laws::agree(
                    before.staging->0,
                    fetched.files,
                    apply_laws::binary(project, k as int),
                ));
            },
            Step::Replace(k) => {
                let name = apply_laws::binary(project, k as int);
                assert forall|j: int|
                    0 <= j < project.binaries@.len() && j != k implies apply_laws::agree(
                    after.modes,
                    before.modes,
                    #[trigger] apply_laws::binary(project, j),
                ) by {
                    assert(apply_laws::binary(project, j) != name);
                }
                if outcome == Outcome::Done {
                    assert forall|j: int|
                        0 <= j < project.binaries@.len() && j != k implies apply_laws::agree(
                        after.staging->0,
                        before.staging->0,
                        #[trigger] apply_laws::binary(project, j),
                    ) by {
                        assert(apply_laws::binary(project, j) != name);
                        assert(apply_laws::binary(project, j) != apply::aside_of(name));
                    }
                }
            },
            Step::RefreshAliases => {
                assert forall|j: int|
                    0 <= j < project.binaries@.len() && !aliases::is_dealt_with(
                        project,
                        #[trigger] apply_laws::binary(project, j),
                    ) implies apply_laws::agree(
                    after.modes,
                    before.modes,
                    apply_laws::binary(project, j),
                ) by {
                    assert(apply_laws::agree(
                        after.bins,
                        before.bins,
                        apply_laws::binary(project, j),
                    ));
                }
            },
            _ => {},
        }
    }
}

/// Where files have modes, everyone may run every binary that an update replaced,
/// if its mode could be set at all.
pub proof fn replaced_binaries_are_runnable<T>(
    run: Run<T>,
    project: Project,
    setup: Setup,
    fetched: Fetched<T>,
    k: int,
)
    requires
        run.is_run(project, setup, fetched),
        setup.mode == Mode::Update,
        setup.os == Os::Unix,
        run.staged_afresh(),
        is_permitted(run),
        apply_laws::names_are_apart(project, fetched.name),
        run.steps.last() == (Step::Finished { ok: true }),
        0 <= k < project.binaries@.len(),
        fetched.files.contains_key(apply_laws::binary(project, k)),
        !aliases::is_dealt_with(project, apply_laws::binary(project, k)),
    ensures
        is_runnable(run.disks.last(), apply_laws::binary(project, k)),
{
    lemma_modes(run, project, setup, fetched, run.steps.len() - 1);
}

/// Whether every payload was looked for in vain so far, or none had to be.
spec fn in_vain<T>(run: Run<T>, setup: Setup, fetched: Fetched<T>, i: int) -> bool {
    match run.steps[i] {
        Step::FindPayload(_) | Step::InstallFrontend(_) => apply_laws::vital_done(run, i),
        Step::ClearAfter { ok: false } | Step::Finished { ok: false } => {
            !apply_laws::vital_done(run, i) || !carries_payloads(setup, fetched)
        },
        _ => apply_laws::vital_done(run, i),
    }
}

proof fn lemma_frontends_cause<T>(
    run: Run<T>,
    project: Project,
    setup: Setup,
    fetched: Fetched<T>,
    i: int,
)
    requires
        run.is_run(project, setup, fetched),
        setup.mode == Mode::Frontends,
        run.staged_afresh(),
        0 <= i < run.steps.len(),
    ensures
        in_vain(run, setup, fetched, i),
    decreases i,
{
    if i > 0 {
        lemma_frontends_cause(run, project, setup, fetched, i - 1);
        lemma_frontends(run, project, setup, fetched, i - 1);
        let outcome = run.outcomes[i - 1];
        let step = run.steps[i - 1];
        assert(run.steps[i] == apply::next_step(setup, step, outcome));
        if apply_laws::vital_done(run, i) {
            assert(apply_laws::vital_done(run, i - 1));
        }
    }
}

/// A job to install frontends succeeds where nothing goes wrong: where everything
/// vital is done and the archive carries a payload for at least one of them, be
/// that the only one, and only there. This is of a staging directory that was
/// fresh.
pub proof fn frontends_are_installed_where_nothing_goes_wrong<T>(
    run: Run<T>,
    project: Project,
    setup: Setup,
    fetched: Fetched<T>,
)
    requires
        run.is_run(project, setup, fetched),
        setup.mode == Mode::Frontends,
        run.staged_afresh(),
        run.steps.last() is Finished,
    ensures
        run.steps.last() == (Step::Finished { ok: true }) <==> {
            &&& apply_laws::vital_done(run, run.outcomes.len() as int)
            &&& carries_payloads(setup, fetched)
        },
{
    let last = run.steps.len() - 1;
    lemma_frontends_cause(run, project, setup, fetched, last);
    lemma_frontends(run, project, setup, fetched, last);
}

/// Why a job to install frontends says that the release ships no payloads: the
/// archive was extracted and carries one for none of those asked for.
pub proof fn no_payloads_means_none_of_those_asked_for<T>(
    run: Run<T>,
    project: Project,
    setup: Setup,
    fetched: Fetched<T>,
    i: int,
)
    requires
        run.is_run(project, setup, fetched),
        setup.mode == Mode::Frontends,
        run.staged_afresh(),
        0 <= i < run.outcomes.len(),
        run.outcomes[i] == Outcome::Done || run.steps[i] is FindPayload,
        apply_laws::has_failed(run.steps[i + 1]),
        !apply_laws::has_failed(run.steps[i]),
    ensures
        !carries_payloads(setup, fetched),
        run.steps[i] is Extract || run.steps[i] is FindPayload,
{
    lemma_frontends(run, project, setup, fetched, i);
    lemma_frontends(run, project, setup, fetched, i + 1);
    lemma_frontends_cause(run, project, setup, fetched, i);
    lemma_frontends_cause(run, project, setup, fetched, i + 1);
    assert(run.steps[i + 1] == apply::next_step(setup, run.steps[i], run.outcomes[i]));
}

} // verus!
