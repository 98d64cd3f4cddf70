//! Pointing every old helper name at the binary, and taking away the names that
//! nothing writes any more.

use vstd::prelude::*;

use crate::project::Project;
use crate::release::Os;

verus! {

/// What refreshing is waiting for. The numbers are places among the aliases or
/// among the legacy names of the project.
#[derive(Debug, Clone, Copy, PartialEq, Eq, Structural)]
pub enum Step {
    FindPrimary,
    Look(usize),
    Remove(usize),
    Link(usize),
    Drop(usize),
    Finished,
}

/// What to do next, in the install directory.
#[derive(Debug, Clone, Copy, PartialEq, Eq)]
pub enum Action {
    /// Is the primary binary a file there?
    LookForPrimary,
    /// Is that name a symlink to the primary binary?
    LookAt(&'static str),
    /// Remove the file of that name.
    Remove(&'static str),
    /// Make that name a symlink to the primary binary.
    Link(&'static str),
    /// Nothing: refreshing is over.
    Stop,
}

/// The step at which the legacy name at place `j` is dealt with.
pub open spec fn drop_at(project: Project, j: int) -> Step {
    if 0 <= j < project.legacy@.len() {
        Step::Drop(j as usize)
    } else {
        Step::Finished
    }
}

/// The step at which the alias at place `i` is dealt with. An alias is a
/// symlink, so there are none to refresh where there are no symlinks: a Windows
/// project ships its extra names as real executables in the archive.
pub open spec fn look_at(project: Project, os: Os, i: int) -> Step {
    if os == Os::Unix && 0 <= i < project.aliases@.len() {
        Step::Look(i as usize)
    } else {
        drop_at(project, 0)
    }
}

/// The step that follows.
pub open spec fn next_step(project: Project, os: Os, step: Step, done: bool) -> Step {
    match step {
        // Never trade a working helper for a link to nothing.
        Step::FindPrimary => if done {
            look_at(project, os, 0)
        } else {
            Step::Finished
        },
        Step::Look(i) => if done {
            look_at(project, os, i + 1)
        } else {
            Step::Remove(i)
        },
        Step::Remove(i) => Step::Link(i),
        Step::Link(i) => look_at(project, os, i + 1),
        Step::Drop(j) => drop_at(project, j + 1),
        Step::Finished => Step::Finished,
    }
}

/// Whether a step is one that refreshing a project's names can be at.
pub open spec fn is_step_of(project: Project, step: Step) -> bool {
    match step {
        Step::Look(i) | Step::Remove(i) | Step::Link(i) => i < project.aliases@.len(),
        Step::Drop(j) => j < project.legacy@.len(),
        _ => true,
    }
}

/// Whether `r` is what refreshing asks for next.
pub open spec fn is_asked(refresh: Refresh, r: Action) -> bool {
    match refresh.step {
        Step::FindPrimary => r is LookForPrimary,
        Step::Look(i) => r == Action::LookAt(refresh.project.aliases@[i as int]),
        Step::Remove(i) => r == Action::Remove(refresh.project.aliases@[i as int]),
        Step::Link(i) => r == Action::Link(refresh.project.aliases@[i as int]),
        Step::Drop(j) => r == Action::Remove(refresh.project.legacy@[j as int]),
        Step::Finished => r is Stop,
    }
}

/// What answering an action of refreshing makes of it.
pub open spec fn answered(before: Refresh, done: bool, after: Refresh) -> bool {
    &&& after.project == before.project
    &&& after.os == before.os
    &&& after.step == next_step(before.project, before.os, before.step, done)
}

/// The names of a project being refreshed.
#[derive(Debug, Clone, Copy)]
pub struct Refresh {
    pub project: Project,
    pub os: Os,
    pub step: Step,
}

/// A project has no more names than a slice can hold.
proof fn lemma_counts(project: Project)
    ensures
        project.aliases@.len() <= usize::MAX,
        project.legacy@.len() <= usize::MAX,
{
    assert(project.aliases.len() == project.aliases@.len());
    assert(project.legacy.len() == project.legacy@.len());
}

/// Start pointing every old helper name at the binary, replacing whatever is
/// there - on an upgrade from shell helpers that is a real script, and leaving
/// it would let a stale copy answer for the name forever.
///
/// Names an older layout installed that this one does not write are taken away.
/// Left in place they answer for themselves forever: whatever a key binding or a
/// unit file points at is what runs, and the binary does not answer to these, so
/// the copy on disk is the only thing that can.
pub fn refresh_aliases(project: &Project, os: Os) -> (r: Refresh)
    requires
        project.ships(),
    ensures
        r.project == *project,
        r.os == os,
        r.step == Step::FindPrimary,
        r.wf(),
{
    Refresh { project: *project, os, step: Step::FindPrimary }
}

impl Refresh {
    /// Whether the step is one of the project's.
    pub open spec fn wf(self) -> bool {
        is_step_of(self.project, self.step)
    }

    /// What to do next.
    pub fn action(&self) -> (r: Action)
        requires
            self.wf(),
        ensures
            is_asked(*self, r),
    {
        match self.step {
            Step::FindPrimary => Action::LookForPrimary,
            Step::Look(i) => Action::LookAt(self.project.aliases[i]),
            Step::Remove(i) => Action::Remove(self.project.aliases[i]),
            Step::Link(i) => Action::Link(self.project.aliases[i]),
            Step::Drop(j) => Action::Remove(self.project.legacy[j]),
            Step::Finished => Action::Stop,
        }
    }

    /// The step at which the legacy name at place `j` is dealt with.
    fn dropping(&self, j: usize) -> (r: Step)
        ensures
            r == drop_at(self.project, j as int),
    {
        if j < self.project.legacy.len() {
            Step::Drop(j)
        } else {
            Step::Finished
        }
    }

    /// The step at which the alias at place `i` is dealt with.
    fn looking(&self, i: usize) -> (r: Step)
        ensures
            r == look_at(self.project, self.os, i as int),
    {
        if self.os == Os::Unix && i < self.project.aliases.len() {
            Step::Look(i)
        } else {
            self.dropping(0)
        }
    }

    /// Take the answer to [`action`](Refresh::action): whether it is so, or
    /// whether it could be done.
    pub fn answer(&mut self, done: bool)
        requires
            old(self).wf(),
        ensures
            final(self).wf(),
            answered(*old(self), done, *final(self)),
    {
        proof {
            lemma_counts(self.project);
        }
        self.step = match self.step {
            Step::FindPrimary => if done {
                self.looking(0)
            } else {
                Step::Finished
            },
            Step::Look(i) => if done {
                self.looking(i + 1)
            } else {
                Step::Remove(i)
            },
            Step::Remove(i) => Step::Link(i),
            Step::Link(i) => self.looking(i + 1),
            Step::Drop(j) => self.dropping(j + 1),
            Step::Finished => Step::Finished,
        };
    }
}

/// What stands under a name in the install directory.
pub enum Entry<T> {
    /// A file, or a link to something else.
    Other(T),
    /// A symlink to the file of that name beside it.
    LinkTo(Seq<char>),
}

/// What a disk may do at a step. Removing or linking either works or changes
/// nothing, and a link is never made over something that is there.
pub open spec fn effect<T>(
    project: Project,
    step: Step,
    done: bool,
    before: Map<Seq<char>, Entry<T>>,
    after: Map<Seq<char>, Entry<T>>,
) -> bool {
    match step {
        Step::FindPrimary | Step::Finished => after == before,
        Step::Look(i) => {
            let name = project.aliases@[i as int]@;
            &&& after == before
            &&& done <==> before.contains_key(name) && before[name] == Entry::<T>::LinkTo(
                project.primary_name(),
            )
        },
        Step::Remove(i) => after == if done {
            before.remove(project.aliases@[i as int]@)
        } else {
            before
        },
        Step::Link(i) => {
            let name = project.aliases@[i as int]@;
            &&& done ==> !before.contains_key(name)
            &&& after == if done {
                before.insert(name, Entry::<T>::LinkTo(project.primary_name()))
            } else {
                before
            }
        },
        Step::Drop(j) => after == if done {
            before.remove(project.legacy@[j as int]@)
        } else {
            before
        },
    }
}

/// Refreshing from its first step on: the steps it was at, the answers to each,
/// and what the install directory held at each step.
pub struct Run<T> {
    pub steps: Seq<Step>,
    pub answers: Seq<bool>,
    pub dirs: Seq<Map<Seq<char>, Entry<T>>>,
}

impl<T> Run<T> {
    /// Whether the steps follow one another and the disk did what it may do.
    pub open spec fn is_run(self, project: Project, os: Os) -> bool {
        &&& self.steps.len() == self.answers.len() + 1
        &&& self.dirs.len() == self.steps.len()
        &&& self.steps[0] == Step::FindPrimary
        &&& forall|i: int|
            #![trigger self.answers[i]]
            0 <= i < self.answers.len() ==> {
                &&& self.steps[i + 1] == next_step(project, os, self.steps[i], self.answers[i])
                &&& effect(
                    project,
                    self.steps[i],
                    self.answers[i],
                    self.dirs[i],
                    self.dirs[i + 1],
                )
            }
    }

    /// Whether everything that could be removed was, and every link that could
    /// be made was.
    pub open spec fn nothing_went_wrong(self, project: Project) -> bool {
        forall|i: int|
            #![trigger self.answers[i]]
            0 <= i < self.answers.len() ==> match self.steps[i] {
                Step::Remove(k) => !self.dirs[i + 1].contains_key(project.aliases@[k as int]@),
                Step::Drop(k) => !self.dirs[i + 1].contains_key(project.legacy@[k as int]@),
                Step::Link(k) => !self.dirs[i].contains_key(project.aliases@[k as int]@)
                    ==> self.answers[i],
                _ => true,
            }
    }

    /// Whether the primary binary was there.
    pub open spec fn found_primary(self) -> bool {
        self.answers.len() > 0 && self.answers[0]
    }
}

/// Whether a name is among the first `n` of some names.
pub open spec fn among(names: Seq<&'static str>, n: int, name: Seq<char>) -> bool {
    exists|k: int| 0 <= k < n && k < names.len() && (#[trigger] names[k])@ == name
}

/// Whether a name is one that refreshing deals with.
pub open spec fn is_dealt_with(project: Project, name: Seq<char>) -> bool {
    ||| among(project.aliases@, project.aliases@.len() as int, name)
    ||| among(project.legacy@, project.legacy@.len() as int, name)
}

/// Whether a name links to the primary binary.
pub open spec fn links<T>(
    project: Project,
    dir: Map<Seq<char>, Entry<T>>,
    name: Seq<char>,
) -> bool {
    dir.contains_key(name) && dir[name] == Entry::<T>::LinkTo(project.primary_name())
}

/// What holds at each step of a run in which nothing went wrong: the aliases
/// already dealt with link to the primary binary unless they are legacy names
/// already taken away, and the legacy names already dealt with are gone.
spec fn tidy_at<T>(run: Run<T>, project: Project, os: Os, i: int) -> bool {
    let dir = run.dirs[i];
    let n = project.aliases@.len() as int;
    match run.steps[i] {
        Step::FindPrimary => i == 0,
        Step::Look(k) => {
            &&& os == Os::Unix
            &&& k < n
            &&& forall|j: int| 0 <= j < k ==> links(project, dir, (#[trigger] project.aliases@[j])@)
        },
        Step::Remove(k) | Step::Link(k) => {
            &&& os == Os::Unix
            &&& k < n
            &&& forall|j: int|
                0 <= j < k ==> {
                    &&& links(project, dir, (#[trigger] project.aliases@[j])@)
                    &&& project.aliases@[j]@ != project.aliases@[k as int]@
                }
            &&& run.steps[i] is Link ==> !dir.contains_key(project.aliases@[k as int]@)
        },
        Step::Drop(k) => {
            &&& k < project.legacy@.len()
            &&& forall|j: int|
                0 <= j < k ==> !dir.contains_key((#[trigger] project.legacy@[j])@)
            &&& os == Os::Unix ==> forall|j: int|
                0 <= j < n ==> links(project, dir, (#[trigger] project.aliases@[j])@) || among(
                    project.legacy@,
                    k as int,
                    project.aliases@[j]@,
                )
        },
        Step::Finished => run.found_primary() ==> {
            &&& forall|j: int|
                0 <= j < project.legacy@.len() ==> !dir.contains_key(
                    (#[trigger] project.legacy@[j])@,
                )
            &&& os == Os::Unix ==> forall|j: int|
                0 <= j < n ==> links(project, dir, (#[trigger] project.aliases@[j])@) || among(
                    project.legacy@,
                    project.legacy@.len() as int,
                    project.aliases@[j]@,
                )
        },
    }
}

proof fn lemma_tidy<T>(run: Run<T>, project: Project, os: Os, i: int)
    requires
        run.is_run(project, os),
        run.nothing_went_wrong(project),
        0 <= i < run.steps.len(),
    ensures
        tidy_at(run, project, os, i),
    decreases i,
{
    if i > 0 {
        lemma_tidy(run, project, os, i - 1);
        lemma_counts(project);
        let answer = run.answers[i - 1];
        let step = run.steps[i - 1];
        let before = run.dirs[i - 1];
        let dir = run.dirs[i];
        assert(run.steps[i] == next_step(project, os, step, answer));
        match step {
            Step::Drop(k) => {
                let gone = project.legacy@[k as int]@;
                if os == Os::Unix {
                    assert forall|j: int| 0 <= j < project.aliases@.len() implies links(
                        project,
                        dir,
                        (#[trigger] project.aliases@[j])@,
                    ) || among(project.legacy@, k + 1, project.aliases@[j]@) by {
                        let name = project.aliases@[j]@;
                        if name == gone {
                            assert(project.legacy@[k as int]@ == name);
                        } else if among(project.legacy@, k as int, name) {
                            let m = choose|m: int|
                                0 <= m < k && m < project.legacy@.len()
                                    && (#[trigger] project.legacy@[m])@ == name;
                            assert(project.legacy@[m]@ == name);
                        }
                    }
                }
            },
            _ => {},
        }
    }
}

/// Where the primary binary is there and nothing goes wrong, every alias ends up
/// as a link to it, whatever stood under the name before, and every legacy name
/// is gone. A name that is both is gone.
pub proof fn every_name_is_dealt_with<T>(run: Run<T>, project: Project, os: Os, k: int)
    requires
        run.is_run(project, os),
        run.nothing_went_wrong(project),
        run.found_primary(),
        run.steps.last() == Step::Finished,
    ensures
        0 <= k < project.legacy@.len() ==> !run.dirs.last().contains_key(project.legacy@[k]@),
        os == Os::Unix && 0 <= k < project.aliases@.len() && !among(
            project.legacy@,
            project.legacy@.len() as int,
            project.aliases@[k]@,
        ) ==> links(project, run.dirs.last(), project.aliases@[k]@),
{
    lemma_tidy(run, project, os, run.steps.len() - 1);
}

/// Where the primary binary is not there, nothing is touched: half an install is
/// worse than the old one, and without the binary these names are all that
/// works.
pub proof fn nothing_is_touched_without_the_binary<T>(run: Run<T>, project: Project, os: Os, i: int)
    requires
        run.is_run(project, os),
        !run.found_primary(),
        0 <= i < run.steps.len(),
    ensures
        run.dirs[i] == run.dirs[0],
        i > 0 ==> run.steps[i] == Step::Finished,
    decreases i,
{
    if i > 0 {
        nothing_is_touched_without_the_binary(run, project, os, i - 1);
        let answer = run.answers[i - 1];
        assert(run.steps[i] == next_step(project, os, run.steps[i - 1], answer));
    }
}

proof fn lemma_steps_are_the_projects<T>(run: Run<T>, project: Project, os: Os, i: int)
    requires
        run.is_run(project, os),
        0 <= i < run.steps.len(),
    ensures
        is_step_of(project, run.steps[i]),
    decreases i,
{
    if i > 0 {
        lemma_steps_are_the_projects(run, project, os, i - 1);
        lemma_counts(project);
        let answer = run.answers[i - 1];
        assert(run.steps[i] == next_step(project, os, run.steps[i - 1], answer));
    }
}

/// A name that is neither an alias nor a legacy name is never touched, whatever
/// goes wrong.
pub proof fn other_names_are_left_alone<T>(
    run: Run<T>,
    project: Project,
    os: Os,
    name: Seq<char>,
    i: int,
)
    requires
        run.is_run(project, os),
        !is_dealt_with(project, name),
        0 <= i < run.steps.len(),
    ensures
        run.dirs[i].contains_key(name) == run.dirs[0].contains_key(name),
        run.dirs[0].contains_key(name) ==> run.dirs[i][name] == run.dirs[0][name],
    decreases i,
{
    if i > 0 {
        other_names_are_left_alone(run, project, os, name, i - 1);
        lemma_steps_are_the_projects(run, project, os, i - 1);
        let answer = run.answers[i - 1];
        assert(run.steps[i] == next_step(project, os, run.steps[i - 1], answer));
        match run.steps[i - 1] {
            Step::Remove(k) | Step::Link(k) => {
                assert(project.aliases@[k as int]@ != name);
            },
            Step::Drop(k) => {
                assert(project.legacy@[k as int]@ != name);
            },
            _ => {},
        }
    }
}

/// Refreshing a directory that is already refreshed changes nothing in it.
pub proof fn refreshing_again_is_a_no_op<T>(run: Run<T>, project: Project, os: Os, i: int)
    requires
        run.is_run(project, os),
        os == Os::Unix ==> forall|k: int|
            0 <= k < project.aliases@.len() ==> links(
                project,
                run.dirs[0],
                (#[trigger] project.aliases@[k])@,
            ),
        forall|k: int|
            0 <= k < project.legacy@.len() ==> !run.dirs[0].contains_key(
                (#[trigger] project.legacy@[k])@,
            ),
        0 <= i < run.steps.len(),
    ensures
        run.dirs[i] == run.dirs[0],
        !(run.steps[i] is Remove),
        !(run.steps[i] is Link),
        run.steps[i] is Look ==> os == Os::Unix,
    decreases i,
{
    if i > 0 {
        refreshing_again_is_a_no_op(run, project, os, i - 1);
        lemma_steps_are_the_projects(run, project, os, i - 1);
        let answer = run.answers[i - 1];
        assert(run.steps[i] == next_step(project, os, run.steps[i - 1], answer));
        match run.steps[i - 1] {
            Step::Look(k) => {
                assert(links(project, run.dirs[0], project.aliases@[k as int]@));
            },
            Step::Drop(k) => {
                assert(!run.dirs[0].contains_key(project.legacy@[k as int]@));
                assert(run.dirs[0].remove(project.legacy@[k as int]@) =~= run.dirs[0]);
            },
            _ => {},
        }
    }
}

/// How far a step is from the end.
pub open spec fn left(project: Project, step: Step) -> int {
    let aliases = project.aliases@.len() as int;
    let legacy = project.legacy@.len() as int;
    match step {
        Step::FindPrimary => 3 * aliases + legacy + 1,
        Step::Look(i) => 3 * (aliases - i) + legacy,
        Step::Remove(i) => 3 * (aliases - i) + legacy - 1,
        Step::Link(i) => 3 * (aliases - i) + legacy - 2,
        Step::Drop(j) => legacy - j,
        Step::Finished => 0,
    }
}

/// Every answer brings refreshing nearer its end, so it always ends.
pub proof fn every_answer_brings_the_end_nearer(project: Project, os: Os, step: Step, done: bool)
    requires
        is_step_of(project, step),
        !(step is Finished),
    ensures
        0 <= left(project, next_step(project, os, step, done)) < left(project, step),
        is_step_of(project, next_step(project, os, step, done)),
{
    lemma_counts(project);
}

/// Refreshing from its start on: what it was at each step, and how each of its
/// actions was answered.
pub struct History {
    pub refreshes: Seq<Refresh>,
    pub answers: Seq<bool>,
}

impl History {
    /// Whether it starts as refreshing does and each answer made of it what
    /// [`Refresh::answer`] makes of it.
    pub open spec fn is_history(self) -> bool {
        &&& self.refreshes.len() == self.answers.len() + 1
        &&& self.refreshes[0].step == Step::FindPrimary
        &&& forall|i: int|
            #![trigger self.answers[i]]
            0 <= i < self.answers.len() ==> answered(
                self.refreshes[i],
                self.answers[i],
                self.refreshes[i + 1],
            )
    }

    /// The run that it is, on an install directory that held `dirs`.
    pub open spec fn run<T>(self, dirs: Seq<Map<Seq<char>, Entry<T>>>) -> Run<T> {
        Run {
            steps: Seq::new(self.refreshes.len(), |i: int| self.refreshes[i].step),
            answers: self.answers,
            dirs,
        }
    }
}

proof fn lemma_same_names(h: History, i: int)
    requires
        h.is_history(),
        0 <= i < h.refreshes.len(),
    ensures
        h.refreshes[i].project == h.refreshes[0].project,
        h.refreshes[i].os == h.refreshes[0].os,
    decreases i,
{
    if i > 0 {
        lemma_same_names(h, i - 1);
        assert(answered(h.refreshes[i - 1], h.answers[i - 1], h.refreshes[i]));
    }
}

/// What is proved of runs is proved of refreshing: on a disk that does what it
/// may at each action, refreshing that is answered until some point takes the
/// steps of a run.
pub proof fn refreshing_is_a_run<T>(h: History, dirs: Seq<Map<Seq<char>, Entry<T>>>)
    requires
        h.is_history(),
        dirs.len() == h.refreshes.len(),
        forall|i: int|
            #![trigger h.answers[i]]
            0 <= i < h.answers.len() ==> effect(
                h.refreshes[0].project,
                h.refreshes[i].step,
                h.answers[i],
                dirs[i],
                dirs[i + 1],
            ),
    ensures
        h.run(dirs).is_run(h.refreshes[0].project, h.refreshes[0].os),
{
    let run = h.run(dirs);
    let project = h.refreshes[0].project;
    assert forall|i: int|
        #![trigger run.answers[i]]
        0 <= i < run.answers.len() implies {
        &&& run.steps[i + 1] == next_step(
            project,
            h.refreshes[0].os,
            run.steps[i],
            run.answers[i],
        )
        &&& effect(project, run.steps[i], run.answers[i], run.dirs[i], run.dirs[i + 1])
    } by {
        lemma_same_names(h, i);
        assert(answered(h.refreshes[i], h.answers[i], h.refreshes[i + 1]));
    }
}

/// Whether a step up to the one at place `i` is that one.
pub open spec fn was_at<T>(run: Run<T>, step: Step, i: int) -> bool {
    exists|j: int| 0 <= j <= i && j < run.steps.len() && #[trigger] run.steps[j] == step
}

/// Whether the legacy name at place `k` was to be taken away by place `i`.
pub open spec fn was_dropped<T>(run: Run<T>, k: usize, i: int) -> bool {
    was_at(run, Step::Drop(k), i)
}

/// Whether the alias at place `k` had its turn by place `i`: it was looked at, and
/// where it was not the link it is to be, what stood there was to be removed and
/// the link to be made.
pub open spec fn had_turn<T>(run: Run<T>, k: usize, i: int) -> bool {
    exists|j: int|
        {
            &&& 0 <= j < i
            &&& j < run.answers.len()
            &&& #[trigger] run.steps[j] == Step::Look(k)
            &&& run.answers[j] || {
                &&& j + 2 <= i
                &&& run.steps[j + 1] == Step::Remove(k)
                &&& run.steps[j + 2] == Step::Link(k)
            }
        }
}

proof fn lemma_turn_stays<T>(run: Run<T>, k: usize, i: int, n: int)
    requires
        had_turn(run, k, i),
        i <= n,
    ensures
        had_turn(run, k, n),
{
    let j = choose|j: int|
        {
            &&& 0 <= j < i
            &&& j < run.answers.len()
            &&& #[trigger] run.steps[j] == Step::Look(k)
            &&& run.answers[j] || {
                &&& j + 2 <= i
                &&& run.steps[j + 1] == Step::Remove(k)
                &&& run.steps[j + 2] == Step::Link(k)
            }
        };
    assert(run.steps[j] == Step::Look(k));
}

/// Which names had their turn by the time refreshing is at a step.
spec fn turns_by<T>(run: Run<T>, project: Project, os: Os, i: int) -> bool {
    let aliased = os == Os::Unix ==> forall|k: usize|
        k < project.aliases@.len() ==> #[trigger] had_turn(run, k, i);
    match run.steps[i] {
        Step::FindPrimary => i == 0,
        Step::Look(n) => {
            &&& os == Os::Unix
            &&& n < project.aliases@.len()
            &&& forall|k: usize| k < n ==> #[trigger] had_turn(run, k, i)
        },
        Step::Remove(n) => {
            &&& os == Os::Unix
            &&& n < project.aliases@.len()
            &&& i >= 1
            &&& run.steps[i - 1] == Step::Look(n)
            &&& forall|k: usize| k < n ==> #[trigger] had_turn(run, k, i)
        },
        Step::Link(n) => {
            &&& os == Os::Unix
            &&& n < project.aliases@.len()
            &&& i >= 2
            &&& run.steps[i - 2] == Step::Look(n)
            &&& run.steps[i - 1] == Step::Remove(n)
            &&& forall|k: usize| k < n ==> #[trigger] had_turn(run, k, i)
        },
        Step::Drop(n) => {
            &&& n < project.legacy@.len()
            &&& aliased
            &&& forall|k: usize| k <= n ==> #[trigger] was_dropped(run, k, i)
        },
        Step::Finished => run.found_primary() ==> {
            &&& aliased
            &&& forall|k: usize|
                k < project.legacy@.len() ==> #[trigger] was_dropped(run, k, i)
        },
    }
}

proof fn lemma_turns_by<T>(run: Run<T>, project: Project, os: Os, i: int)
    requires
        run.is_run(project, os),
        0 <= i < run.steps.len(),
    ensures
        turns_by(run, project, os, i),
    decreases i,
{
    if i > 0 {
        lemma_turns_by(run, project, os, i - 1);
        lemma_counts(project);
        let answer = run.answers[i - 1];
        let step = run.steps[i - 1];
        assert(run.steps[i] == next_step(project, os, step, answer));
        assert forall|k: usize| had_turn(run, k, i - 1) implies #[trigger] had_turn(run, k, i) by {
            lemma_turn_stays(run, k, i - 1, i);
        }
        assert forall|k: usize| was_dropped(run, k, i - 1) implies #[trigger] was_dropped(
            run,
            k,
            i,
        ) by {
            let j = choose|j: int|
                0 <= j <= i - 1 && j < run.steps.len() && #[trigger] run.steps[j] == Step::Drop(k);
            assert(run.steps[j] == Step::Drop(k));
        }
        assert(was_at(run, run.steps[i], i));
        match run.steps[i] {
            Step::Drop(n) => {
                assert(was_dropped(run, n, i));
            },
            _ => {},
        }
        match step {
            Step::Look(n) => {
                if answer {
                    assert(run.steps[i - 1] == Step::Look(n));
                    assert(had_turn(run, n, i));
                }
            },
            Step::Link(n) => {
                assert(run.steps[i - 3] == Step::Look(n));
                assert(had_turn(run, n, i));
            },
            _ => {},
        }
    }
}

/// One name that cannot be dealt with does not stop the rest: where the primary
/// binary is there, every alias has its turn on a system with links, and every
/// legacy name is taken away if it can be, whatever became of the others.
pub proof fn every_name_has_its_turn<T>(run: Run<T>, project: Project, os: Os, k: usize)
    requires
        run.is_run(project, os),
        run.found_primary(),
        run.steps.last() == Step::Finished,
    ensures
        os == Os::Unix && k < project.aliases@.len() ==> had_turn(run, k, run.steps.len() - 1),
        k < project.legacy@.len() ==> was_dropped(run, k, run.steps.len() - 1),
{
    lemma_turns_by(run, project, os, run.steps.len() - 1);
}

/// A system without links has none to refresh: no alias is looked at, removed or
/// made there.
pub proof fn without_links_aliases_are_left_alone<T>(run: Run<T>, project: Project, i: int)
    requires
        run.is_run(project, Os::Windows),
        0 <= i < run.steps.len(),
    ensures
        !(run.steps[i] is Look),
        !(run.steps[i] is Remove),
        !(run.steps[i] is Link),
{
    lemma_turns_by(run, project, Os::Windows, i);
}

/// What is looked at is what is removed and linked anew: the alias at its place.
/// What is taken away besides is the legacy name at its place.
pub proof fn what_is_looked_at_is_dealt_with(
    refresh: Refresh,
    i: usize,
    look: Action,
    remove: Action,
    link: Action,
    away: Action,
)
    requires
        is_asked(Refresh { step: Step::Look(i), ..refresh }, look),
        is_asked(Refresh { step: Step::Remove(i), ..refresh }, remove),
        is_asked(Refresh { step: Step::Link(i), ..refresh }, link),
        is_asked(Refresh { step: Step::Drop(i), ..refresh }, away),
    ensures
        look == Action::LookAt(refresh.project.aliases@[i as int]),
        remove == Action::Remove(refresh.project.aliases@[i as int]),
        link == Action::Link(refresh.project.aliases@[i as int]),
        away == Action::Remove(refresh.project.legacy@[i as int]),
{
}

} // verus!
