//! What an install keeps, whatever the disk does to it: the old copy survives a
//! failure, the new one replaces it whole, and nothing staged is left behind.

use vstd::prelude::*;

use crate::frontend::Frontend;
use crate::install::{
    self, Action, Install, Origin, Outcome, Reply, Setup, Slot, Step, Target,
};
use crate::text;
use crate::text_laws;

verus! {

/// What the directories of an install hold, if they are there.
pub struct Shelf<T> {
    pub dest: Option<T>,
    pub staged: Option<T>,
    pub retired: Option<T>,
}

/// What one of the directories holds.
pub open spec fn held<T>(w: Shelf<T>, slot: Slot) -> Option<T> {
    match slot {
        Slot::Staged => w.staged,
        Slot::Retired => w.retired,
        Slot::Dest => w.dest,
    }
}

/// The directories with one of them changed.
pub open spec fn with<T>(w: Shelf<T>, slot: Slot, v: Option<T>) -> Shelf<T> {
    match slot {
        Slot::Staged => Shelf { staged: v, ..w },
        Slot::Retired => Shelf { retired: v, ..w },
        Slot::Dest => Shelf { dest: v, ..w },
    }
}

/// What a disk may do when it is asked for an action: `payload` is what the
/// payload holds, and `compiled` what a copy becomes once its schemas are
/// compiled.
///
/// A removal or a copy that fails may have got part of the way, a rename that
/// fails changed nothing, and a copy onto what is there already merges the two.
pub open spec fn effect<T>(
    action: Action,
    outcome: Outcome,
    payload: T,
    compiled: spec_fn(T) -> T,
    before: Shelf<T>,
    after: Shelf<T>,
) -> bool {
    let done = outcome == Outcome::Done;
    match action {
        Action::LookFor(_) | Action::MakeParent | Action::LookForSchemas | Action::Stop => after
            == before,
        Action::LookForOld => after == before && (done ==> before.dest is Some),
        Action::Clear(slot) => {
            &&& after == with(before, slot, held(after, slot))
            &&& done ==> held(after, slot) is None
            &&& held(before, slot) is None ==> held(after, slot) is None
        },
        Action::Copy(_) => {
            &&& after == with(before, Slot::Staged, after.staged)
            &&& done ==> after.staged is Some
            &&& done && before.staged is None ==> after.staged == Some(payload)
        },
        Action::Compile => {
            &&& after == with(before, Slot::Staged, after.staged)
            &&& done && before.staged is Some ==> after.staged == Some(
                compiled(before.staged->0),
            )
        },
        Action::Rename(from, to) => if done {
            &&& held(before, from) is Some
            &&& after == with(with(before, to, held(before, from)), from, None)
        } else {
            after == before
        },
    }
}

/// An install from its first step on: the steps it was at, how each of their
/// actions went, and what the directories held at each step.
pub struct Run<T> {
    pub steps: Seq<Step>,
    pub outcomes: Seq<Outcome>,
    pub shelves: Seq<Shelf<T>>,
}

impl<T> Run<T> {
    /// Whether the steps follow one another and the disk did what it may do.
    pub open spec fn is_run(self, setup: Setup, payload: T, compiled: spec_fn(T) -> T) -> bool {
        &&& self.steps.len() == self.outcomes.len() + 1
        &&& self.shelves.len() == self.steps.len()
        &&& self.steps[0] == Step::FindArchived
        &&& forall|i: int|
            #![trigger self.outcomes[i]]
            0 <= i < self.outcomes.len() ==> {
                &&& self.steps[i + 1] == install::next_step(self.steps[i], self.outcomes[i], setup)
                &&& effect(
                    install::action_of(self.steps[i]),
                    self.outcomes[i],
                    payload,
                    compiled,
                    self.shelves[i],
                    self.shelves[i + 1],
                )
            }
    }

    /// Whether the staging directory was out of the way by the time the payload
    /// was copied into it.
    pub open spec fn staged_afresh(self) -> bool {
        forall|i: int|
            #![trigger self.steps[i]]
            0 <= i < self.steps.len() && self.steps[i] is Copy ==> self.shelves[i].staged is None
    }

    /// Whether an old install that was moved aside could be moved back wherever
    /// that was tried.
    pub open spec fn restored(self) -> bool {
        forall|i: int|
            #![trigger self.outcomes[i]]
            0 <= i < self.outcomes.len() && self.steps[i] is Restore ==> self.outcomes[i]
                == Outcome::Done
    }

    /// Whether the staged copy could be taken away wherever that was tried.
    pub open spec fn discarded(self) -> bool {
        forall|i: int|
            #![trigger self.outcomes[i]]
            0 <= i < self.outcomes.len() && self.steps[i] is Discard ==> self.outcomes[i]
                == Outcome::Done
    }
}

/// What the new copy is once it is ready to be moved into place.
pub open spec fn finished<T>(setup: Setup, payload: T, compiled: spec_fn(T) -> T) -> T {
    if setup.schemas {
        compiled(payload)
    } else {
        payload
    }
}

/// What holds at each step of a run.
spec fn holds_at<T>(
    run: Run<T>,
    setup: Setup,
    payload: T,
    compiled: spec_fn(T) -> T,
    i: int,
) -> bool {
    let old = run.shelves[0].dest;
    let now = run.shelves[i];
    let ready = finished(setup, payload, compiled);
    let afresh = run.staged_afresh();
    match run.steps[i] {
        Step::FindArchived | Step::FindCheckout | Step::MakeParent(_) | Step::ClearStaged(_) => now
            == run.shelves[0],
        Step::Copy(_) => now.dest == old,
        Step::FindSchemas | Step::Compile => {
            &&& now.dest == old
            &&& setup.schemas
            &&& now.staged is Some
            &&& afresh ==> now.staged == Some(payload)
        },
        Step::ClearRetired | Step::FindOld => {
            &&& now.dest == old
            &&& afresh ==> now.staged == Some(ready)
        },
        Step::Retire => {
            &&& now.dest == old
            &&& old is Some
            &&& afresh ==> now.staged == Some(ready)
        },
        Step::Promote { had_old } => {
            &&& if had_old {
                now.dest is None && now.retired == old && old is Some
            } else {
                now.dest == old
            }
            &&& afresh ==> now.staged == Some(ready)
        },
        Step::Restore => now.dest is None && now.retired == old && old is Some,
        Step::Discard => {
            &&& now.dest == old || (now.dest is None && now.retired == old && old is Some)
            &&& run.restored() ==> now.dest == old
        },
        Step::DropOld | Step::Finished { installed: true } => {
            &&& now.staged is None
            &&& afresh ==> now.dest == Some(ready)
        },
        Step::Finished { installed: false } => {
            &&& now.dest == old || (now.dest is None && now.retired == old && old is Some)
            &&& run.restored() ==> now.dest == old
            &&& run.discarded() ==> now.staged is None || now == run.shelves[0]
        },
    }
}

proof fn lemma_holds<T>(
    run: Run<T>,
    setup: Setup,
    payload: T,
    compiled: spec_fn(T) -> T,
    i: int,
)
    requires
        run.is_run(setup, payload, compiled),
        0 <= i < run.steps.len(),
    ensures
        holds_at(run, setup, payload, compiled, i),
    decreases i,
{
    if i > 0 {
        lemma_holds(run, setup, payload, compiled, i - 1);
        let outcome = run.outcomes[i - 1];
        let step = run.steps[i - 1];
        assert(run.steps[i] == install::next_step(step, outcome, setup));
    }
}

/// An install that succeeds replaces rather than merges: what stands at the
/// destination afterwards is the payload and nothing else, with its schemas
/// compiled if it ships any, whatever was there before. A staging directory that
/// could not be cleared first is the exception, since the copy then merges with
/// what is left in it.
pub proof fn success_replaces_whole<T>(
    run: Run<T>,
    setup: Setup,
    payload: T,
    compiled: spec_fn(T) -> T,
)
    requires
        run.is_run(setup, payload, compiled),
        run.steps.last() == (Step::Finished { installed: true }),
    ensures
        run.shelves.last().staged is None,
        run.staged_afresh() ==> run.shelves.last().dest == Some(
            finished(setup, payload, compiled),
        ),
{
    lemma_holds(run, setup, payload, compiled, run.steps.len() - 1);
}

/// An install that fails leaves the old one somewhere on disk: where it was,
/// or moved aside where moving it back failed too. It is where it was whenever
/// moving it back worked or was never needed.
pub proof fn failure_keeps_the_old_install<T>(
    run: Run<T>,
    setup: Setup,
    payload: T,
    compiled: spec_fn(T) -> T,
)
    requires
        run.is_run(setup, payload, compiled),
        run.steps.last() == (Step::Finished { installed: false }),
    ensures
        run.shelves.last().dest == run.shelves[0].dest || {
            &&& run.shelves.last().dest is None
            &&& run.shelves.last().retired == run.shelves[0].dest
        },
        run.restored() ==> run.shelves.last().dest == run.shelves[0].dest,
{
    lemma_holds(run, setup, payload, compiled, run.steps.len() - 1);
}

/// An install that fails leaves nothing staged: the staged copy is gone if it
/// could be removed at all, or the disk is as it was found.
pub proof fn failure_leaves_nothing_staged<T>(
    run: Run<T>,
    setup: Setup,
    payload: T,
    compiled: spec_fn(T) -> T,
)
    requires
        run.is_run(setup, payload, compiled),
        run.steps.last() == (Step::Finished { installed: false }),
        run.discarded(),
    ensures
        run.shelves.last().staged is None || run.shelves.last() == run.shelves[0],
{
    lemma_holds(run, setup, payload, compiled, run.steps.len() - 1);
}

/// Until the new copy is complete the destination is never touched: at every
/// step up to the one that moves the old install aside it holds what it held.
pub proof fn destination_untouched_until_ready<T>(
    run: Run<T>,
    setup: Setup,
    payload: T,
    compiled: spec_fn(T) -> T,
    i: int,
)
    requires
        run.is_run(setup, payload, compiled),
        0 <= i < run.steps.len(),
        match run.steps[i] {
            Step::Promote { had_old: _ } | Step::Restore | Step::Discard | Step::DropOld => false,
            Step::Finished { installed: _ } => false,
            _ => true,
        },
    ensures
        run.shelves[i].dest == run.shelves[0].dest,
{
    lemma_holds(run, setup, payload, compiled, i);
}

/// How far a step is from the end.
pub open spec fn left(step: Step) -> nat {
    match step {
        Step::FindArchived => 13,
        Step::FindCheckout => 12,
        Step::MakeParent(_) => 11,
        Step::ClearStaged(_) => 10,
        Step::Copy(_) => 9,
        Step::FindSchemas => 8,
        Step::Compile => 7,
        Step::ClearRetired => 6,
        Step::FindOld => 5,
        Step::Retire => 4,
        Step::Promote { had_old: _ } => 3,
        Step::Restore => 2,
        Step::Discard => 1,
        Step::DropOld => 1,
        Step::Finished { installed: _ } => 0,
    }
}

/// Every answer brings an install nearer its end, so it always ends.
pub proof fn every_answer_brings_the_end_nearer(step: Step, outcome: Outcome, setup: Setup)
    ensures
        left(step) == 0 <==> step is Finished,
        left(step) > 0 ==> left(install::next_step(step, outcome, setup)) < left(step),
{
}

/// Whether a step belongs to an install that has failed.
pub open spec fn has_failed(step: Step) -> bool {
    match step {
        Step::Restore | Step::Discard => true,
        Step::Finished { installed } => !installed,
        _ => false,
    }
}

/// An install gives its reason exactly when it turns to failing, and only then.
pub proof fn failing_says_why(
    step: Step,
    outcome: Outcome,
    cause: Seq<char>,
    frontend: Frontend,
    target: Target,
)
    ensures
        install::failure(step, outcome, cause, frontend, target) is Some <==> {
            &&& !has_failed(step)
            &&& has_failed(install::next_step(step, outcome, install::setup_of(frontend, target)))
        },
{
}

/// The three directories have three names, and the names of the other two tell
/// which destination they belong to.
pub proof fn names_are_apart(a: Seq<char>, b: Seq<char>)
    ensures
        install::staged_of(a) != a,
        install::retired_of(a) != a,
        install::staged_of(a) != install::retired_of(b),
        install::staged_of(a) == install::staged_of(b) ==> a == b,
        install::retired_of(a) == install::retired_of(b) ==> a == b,
{
    reveal_strlit(".");
    reveal_strlit(".tg-new");
    reveal_strlit(".tg-old");
    assert(install::staged_of(a).len() == a.len() + 8);
    assert(install::retired_of(a).len() == a.len() + 8);
    assert(install::staged_of(a).last() == 'w');
    assert(install::retired_of(b).last() == 'd');
    assert(install::staged_of(a).subrange(1, 1 + a.len() as int) =~= a);
    assert(install::staged_of(b).subrange(1, 1 + b.len() as int) =~= b);
    assert(install::retired_of(a).subrange(1, 1 + a.len() as int) =~= a);
    assert(install::retired_of(b).subrange(1, 1 + b.len() as int) =~= b);
}

/// The text of a file in a directory, if there is such a file.
pub open spec fn text_in(dir: Map<Seq<char>, Seq<char>>, name: Seq<char>) -> Option<Seq<char>> {
    if dir.contains_key(name) {
        Some(dir[name])
    } else {
        None
    }
}

/// Whether every copy that was done wrote all files of the payload, over whatever
/// was in the staging directory before.
pub open spec fn copies_over(
    run: Run<Map<Seq<char>, Seq<char>>>,
    payload: Map<Seq<char>, Seq<char>>,
) -> bool {
    forall|i: int|
        #![trigger run.outcomes[i]]
        0 <= i < run.outcomes.len() && run.steps[i] is Copy && run.outcomes[i] == Outcome::Done
            ==> {
            &&& run.shelves[i + 1].staged is Some
            &&& forall|name: Seq<char>|
                payload.contains_key(name) ==> #[trigger] text_in(
                    run.shelves[i + 1].staged->0,
                    name,
                ) == Some(payload[name])
        }
}

/// Whether a directory is there and has a file of that name with that text.
spec fn has_text(
    dir: Option<Map<Seq<char>, Seq<char>>>,
    name: Seq<char>,
    text: Seq<char>,
) -> bool {
    dir is Some && text_in(dir->0, name) == Some(text)
}

proof fn lemma_text_kept(
    run: Run<Map<Seq<char>, Seq<char>>>,
    setup: Setup,
    payload: Map<Seq<char>, Seq<char>>,
    compiled: spec_fn(Map<Seq<char>, Seq<char>>) -> Map<Seq<char>, Seq<char>>,
    name: Seq<char>,
    i: int,
)
    requires
        run.is_run(setup, payload, compiled),
        copies_over(run, payload),
        payload.contains_key(name),
        forall|dir: Map<Seq<char>, Seq<char>>|
            text_in(#[trigger] compiled(dir), name) == text_in(dir, name),
        0 <= i < run.steps.len(),
    ensures
        match run.steps[i] {
            Step::FindSchemas
            | Step::Compile
            | Step::ClearRetired
            | Step::FindOld
            | Step::Retire
            | Step::Promote { had_old: _ } => has_text(
                run.shelves[i].staged,
                name,
                payload[name],
            ),
            Step::DropOld | Step::Finished { installed: true } => has_text(
                run.shelves[i].dest,
                name,
                payload[name],
            ),
            _ => true,
        },
    decreases i,
{
    if i > 0 {
        lemma_text_kept(run, setup, payload, compiled, name, i - 1);
        let step = run.steps[i - 1];
        assert(run.steps[i] == install::next_step(step, run.outcomes[i - 1], setup));
        if step is Copy && run.outcomes[i - 1] == Outcome::Done {
            assert(text_in(run.shelves[i].staged->0, name) == Some(payload[name]));
        }
    }
}

/// The version read back after an install is the one that the payload records,
/// whatever was installed or staged before and whatever version is asking. Only
/// where the payload has no file that a version could be in, the staging
/// directory has to have been cleared, since one left in it would be read. This
/// is of a schema compiler that leaves that file alone.
pub proof fn the_version_read_back_is_the_payloads(
    run: Run<Map<Seq<char>, Seq<char>>>,
    frontend: Frontend,
    target: Target,
    payload: Map<Seq<char>, Seq<char>>,
    compiled: spec_fn(Map<Seq<char>, Seq<char>>) -> Map<Seq<char>, Seq<char>>,
)
    requires
        run.is_run(install::setup_of(frontend, target), payload, compiled),
        copies_over(run, payload),
        run.steps.last() == (Step::Finished { installed: true }),
        payload.contains_key(frontend.version_source.file_name()) || run.staged_afresh(),
        forall|dir: Map<Seq<char>, Seq<char>>|
            text_in(#[trigger] compiled(dir), frontend.version_source.file_name()) == text_in(
                dir,
                frontend.version_source.file_name(),
            ),
    ensures
        run.shelves.last().dest is Some,
        frontend.version_read(
            text_in(run.shelves.last().dest->0, frontend.version_source.file_name()),
        ) == frontend.version_read(text_in(payload, frontend.version_source.file_name())),
{
    let setup = install::setup_of(frontend, target);
    let name = frontend.version_source.file_name();
    success_replaces_whole(run, setup, payload, compiled);
    if payload.contains_key(name) {
        lemma_text_kept(run, setup, payload, compiled, name, run.steps.len() - 1);
    }
}

/// An install from its start on: what it was at each step, and how each of its
/// actions was answered.
pub struct History {
    pub installs: Seq<Install>,
    pub replies: Seq<Reply>,
}

impl History {
    /// Whether the install starts as a new one does and each answer made of it
    /// what [`Install::answer`] makes of it.
    pub open spec fn is_history(self) -> bool {
        &&& self.installs.len() == self.replies.len() + 1
        &&& self.installs[0].step == Step::FindArchived
        &&& forall|i: int|
            #![trigger self.replies[i]]
            0 <= i < self.replies.len() ==> install::answered(
                self.installs[i],
                self.replies[i],
                self.installs[i + 1],
            )
    }

    /// The run that the install is, on directories that held `shelves`.
    pub open spec fn run<T>(self, shelves: Seq<Shelf<T>>) -> Run<T> {
        Run {
            steps: Seq::new(self.installs.len(), |i: int| self.installs[i].step),
            outcomes: Seq::new(self.replies.len(), |i: int| self.replies[i].outcome()),
            shelves,
        }
    }
}

proof fn lemma_same_install(h: History, i: int)
    requires
        h.is_history(),
        0 <= i < h.installs.len(),
    ensures
        h.installs[i].frontend == h.installs[0].frontend,
        h.installs[i].target == h.installs[0].target,
    decreases i,
{
    if i > 0 {
        lemma_same_install(h, i - 1);
        assert(install::answered(h.installs[i - 1], h.replies[i - 1], h.installs[i]));
    }
}

/// What is proved of runs is proved of installs: on a disk that does what it may
/// at each action, an install that is answered until some point takes the steps
/// of a run.
pub proof fn an_install_is_a_run<T>(
    h: History,
    payload: T,
    compiled: spec_fn(T) -> T,
    shelves: Seq<Shelf<T>>,
)
    requires
        h.is_history(),
        shelves.len() == h.installs.len(),
        forall|i: int|
            #![trigger h.replies[i]]
            0 <= i < h.replies.len() ==> effect(
                install::action_of(h.installs[i].step),
                h.replies[i].outcome(),
                payload,
                compiled,
                shelves[i],
                shelves[i + 1],
            ),
    ensures
        h.run(shelves).is_run(h.installs[0].setup(), payload, compiled),
{
    let run = h.run(shelves);
    assert forall|i: int|
        #![trigger run.outcomes[i]]
        0 <= i < run.outcomes.len() implies {
        &&& run.steps[i + 1] == install::next_step(
            run.steps[i],
            run.outcomes[i],
            h.installs[0].setup(),
        )
        &&& effect(
            install::action_of(run.steps[i]),
            run.outcomes[i],
            payload,
            compiled,
            run.shelves[i],
            run.shelves[i + 1],
        )
    } by {
        lemma_same_install(h, i);
        assert(install::answered(h.installs[i], h.replies[i], h.installs[i + 1]));
    }
}

/// Whether a step is one that an install cannot do without. The first place that a
/// payload is looked for is not: there is a second.
pub open spec fn is_vital(step: Step) -> bool {
    match step {
        Step::FindCheckout | Step::MakeParent(_) | Step::Copy(_) => true,
        Step::FindSchemas | Step::Compile | Step::Promote { had_old: _ } => true,
        _ => false,
    }
}

/// Whether, before place `i`, everything vital was done.
pub open spec fn vital_done<T>(run: Run<T>, i: int) -> bool {
    forall|j: int|
        #![trigger run.outcomes[j]]
        0 <= j < i && j < run.outcomes.len() && is_vital(run.steps[j]) ==> run.outcomes[j]
            == Outcome::Done
}

/// Whether a step belongs to an install that has failed.
pub open spec fn is_failing(step: Step) -> bool {
    match step {
        Step::Restore | Step::Discard => true,
        Step::Finished { installed } => !installed,
        _ => false,
    }
}

proof fn lemma_install_cause<T>(
    run: Run<T>,
    setup: Setup,
    payload: T,
    compiled: spec_fn(T) -> T,
    i: int,
)
    requires
        run.is_run(setup, payload, compiled),
        0 <= i < run.steps.len(),
    ensures
        is_failing(run.steps[i]) ==> !vital_done(run, i) || !setup.named,
        !vital_done(run, i) ==> is_failing(run.steps[i]),
        !setup.named ==> match run.steps[i] {
            Step::FindArchived | Step::FindCheckout | Step::MakeParent(_) => true,
            step => is_failing(step),
        },
    decreases i,
{
    if i > 0 {
        lemma_install_cause(run, setup, payload, compiled, i - 1);
        let outcome = run.outcomes[i - 1];
        assert(run.steps[i] == install::next_step(run.steps[i - 1], outcome, setup));
        if vital_done(run, i) {
            assert(vital_done(run, i - 1));
        }
    }
}

/// An install that is over has succeeded exactly where everything vital was done
/// and its destination has a name. Nothing else makes it fail: not what could not
/// be cleared, not an old install that could not be moved aside or taken away, and
/// not that the payload is in the second place it is looked for.
pub proof fn an_install_fails_only_for_a_cause<T>(
    run: Run<T>,
    setup: Setup,
    payload: T,
    compiled: spec_fn(T) -> T,
)
    requires
        run.is_run(setup, payload, compiled),
        run.steps.last() is Finished,
    ensures
        run.steps.last() == (Step::Finished { installed: true }) <==> {
            &&& vital_done(run, run.outcomes.len() as int)
            &&& setup.named
        },
{
    lemma_install_cause(run, setup, payload, compiled, run.steps.len() - 1);
}

/// Whether every removal of that slot was done.
pub open spec fn clears<T>(run: Run<T>, slot: Slot) -> bool {
    forall|i: int|
        #![trigger run.outcomes[i]]
        0 <= i < run.outcomes.len() && install::action_of(run.steps[i]) == Action::Clear(slot)
            ==> run.outcomes[i] == Outcome::Done
}

/// What is left of an earlier install is cleared away before it could be in the
/// way: wherever that could be done, the payload is copied into a fresh directory
/// and the old install is moved aside to a free name, and once a new one is in
/// place nothing of the old is left.
pub proof fn leftovers_are_cleared_first<T>(
    run: Run<T>,
    setup: Setup,
    payload: T,
    compiled: spec_fn(T) -> T,
)
    requires
        run.is_run(setup, payload, compiled),
    ensures
        clears(run, Slot::Staged) ==> run.staged_afresh(),
        clears(run, Slot::Retired) ==> forall|i: int|
            #![trigger run.steps[i]]
            0 <= i < run.steps.len() && run.steps[i] is Retire ==> run.shelves[i].retired is None,
        clears(run, Slot::Retired) && run.steps.last() == (Step::Finished { installed: true })
            ==> run.shelves.last().retired is None,
{
    if clears(run, Slot::Staged) {
        assert forall|i: int|
            #![trigger run.steps[i]]
            0 <= i < run.steps.len() && run.steps[i] is Copy implies run.shelves[i].staged
            is None by {
            lemma_cleared(run, setup, payload, compiled, i);
        }
    }
    if clears(run, Slot::Retired) {
        assert forall|i: int|
            #![trigger run.steps[i]]
            0 <= i < run.steps.len() && run.steps[i] is Retire implies run.shelves[i].retired
            is None by {
            lemma_cleared(run, setup, payload, compiled, i);
        }
        lemma_cleared(run, setup, payload, compiled, run.steps.len() - 1);
    }
}

proof fn lemma_cleared<T>(
    run: Run<T>,
    setup: Setup,
    payload: T,
    compiled: spec_fn(T) -> T,
    i: int,
)
    requires
        run.is_run(setup, payload, compiled),
        0 <= i < run.steps.len(),
    ensures
        clears(run, Slot::Staged) && run.steps[i] is Copy ==> run.shelves[i].staged is None,
        clears(run, Slot::Retired) ==> match run.steps[i] {
            Step::FindOld | Step::Retire => run.shelves[i].retired is None,
            Step::Finished { installed: true } => run.shelves[i].retired is None,
            _ => true,
        },
    decreases i,
{
    if i > 0 {
        lemma_cleared(run, setup, payload, compiled, i - 1);
        let outcome = run.outcomes[i - 1];
        assert(run.steps[i] == install::next_step(run.steps[i - 1], outcome, setup));
    }
}

/// Whether, before place `i`, that was asked and so answered.
pub open spec fn was_told<T>(run: Run<T>, action: Action, done: bool, i: int) -> bool {
    exists|j: int|
        #![trigger run.outcomes[j]]
        0 <= j < i && j < run.outcomes.len() && install::action_of(run.steps[j]) == action && (
        run.outcomes[j] == Outcome::Done) == done
}

proof fn lemma_told_still<T>(run: Run<T>, action: Action, done: bool, i: int)
    requires
        was_told(run, action, done, i - 1),
    ensures
        was_told(run, action, done, i),
{
    let j = choose|j: int|
        #![trigger run.outcomes[j]]
        0 <= j < i - 1 && j < run.outcomes.len() && install::action_of(run.steps[j]) == action && (
        run.outcomes[j] == Outcome::Done) == done;
    assert((run.outcomes[j] == Outcome::Done) == done);
}

/// What an install has been told by the time it is at a step.
spec fn told_by<T>(run: Run<T>, setup: Setup, i: int) -> bool {
    let archived = was_told(run, Action::LookFor(Origin::Archived), true, i);
    let checkout = was_told(run, Action::LookFor(Origin::Archived), false, i) && was_told(
        run,
        Action::LookFor(Origin::Checkout),
        true,
        i,
    );
    let parented = setup.parent ==> was_told(run, Action::MakeParent, true, i);
    match run.steps[i] {
        Step::FindArchived => true,
        Step::FindCheckout => was_told(run, Action::LookFor(Origin::Archived), false, i),
        Step::MakeParent(o) => if o == Origin::Archived {
            archived
        } else {
            checkout
        },
        Step::ClearStaged(o) | Step::Copy(o) => {
            &&& if o == Origin::Archived {
                archived
            } else {
                checkout
            }
            &&& parented
        },
        Step::Compile => was_told(run, Action::LookForSchemas, true, i),
        _ => true,
    }
}

proof fn lemma_told<T>(
    run: Run<T>,
    setup: Setup,
    payload: T,
    compiled: spec_fn(T) -> T,
    i: int,
)
    requires
        run.is_run(setup, payload, compiled),
        0 <= i < run.steps.len(),
    ensures
        told_by(run, setup, i),
    decreases i,
{
    if i > 0 {
        lemma_told(run, setup, payload, compiled, i - 1);
        let outcome = run.outcomes[i - 1];
        let step = run.steps[i - 1];
        let done = outcome == Outcome::Done;
        assert(run.steps[i] == install::next_step(step, outcome, setup));
        assert(was_told(run, install::action_of(step), done, i)) by {
            assert((run.outcomes[i - 1] == Outcome::Done) == done);
        }
        let a = Action::LookFor(Origin::Archived);
        let c = Action::LookFor(Origin::Checkout);
        if was_told(run, a, true, i - 1) {
            lemma_told_still(run, a, true, i);
        }
        if was_told(run, a, false, i - 1) {
            lemma_told_still(run, a, false, i);
        }
        if was_told(run, c, true, i - 1) {
            lemma_told_still(run, c, true, i);
        }
        if was_told(run, Action::MakeParent, true, i - 1) {
            lemma_told_still(run, Action::MakeParent, true, i);
        }
    }
}

/// What is copied is what was found, and the archive's layout is preferred to a
/// checkout's: the payload is copied from where a directory was found, from a
/// checkout only where the archive had none, and only once the directory that it
/// goes to is there. Schemas are compiled only where there are some.
pub proof fn what_was_found_is_copied<T>(
    run: Run<T>,
    setup: Setup,
    payload: T,
    compiled: spec_fn(T) -> T,
    i: int,
    origin: Origin,
)
    requires
        run.is_run(setup, payload, compiled),
        0 <= i < run.steps.len(),
    ensures
        install::action_of(run.steps[i]) == Action::Copy(origin) ==> {
            &&& was_told(run, Action::LookFor(origin), true, i)
            &&& origin == Origin::Checkout ==> was_told(
                run,
                Action::LookFor(Origin::Archived),
                false,
                i,
            )
            &&& setup.parent ==> was_told(run, Action::MakeParent, true, i)
        },
        install::action_of(run.steps[i]) == Action::Compile ==> was_told(
            run,
            Action::LookForSchemas,
            true,
            i,
        ),
{
    lemma_told(run, setup, payload, compiled, i);
}

/// A frontend that ships schemas is installed with them compiled, and one that
/// ships none is installed as it is, whatever else either is.
pub proof fn schemas_are_compiled_where_they_are_shipped<T>(
    run: Run<T>,
    frontend: Frontend,
    target: Target,
    payload: T,
    compiled: spec_fn(T) -> T,
)
    requires
        run.is_run(install::setup_of(frontend, target), payload, compiled),
        run.steps.last() == (Step::Finished { installed: true }),
        run.staged_afresh(),
    ensures
        frontend.gsettings_schemas ==> run.shelves.last().dest == Some(compiled(payload)),
        !frontend.gsettings_schemas ==> run.shelves.last().dest == Some(payload),
        target.name is Some,
{
    let setup = install::setup_of(frontend, target);
    success_replaces_whole(run, setup, payload, compiled);
    an_install_fails_only_for_a_cause(run, setup, payload, compiled);
}

/// The old install is out of the way before the new one is moved into place,
/// unless moving it aside was tried and failed. This is where what stands at the
/// destination is told truly.
pub proof fn the_old_install_is_moved_aside_first<T>(
    run: Run<T>,
    setup: Setup,
    payload: T,
    compiled: spec_fn(T) -> T,
    i: int,
)
    requires
        run.is_run(setup, payload, compiled),
        forall|j: int|
            #![trigger run.outcomes[j]]
            0 <= j < run.outcomes.len() && run.steps[j] is FindOld ==> (run.outcomes[j]
                == Outcome::Done <==> run.shelves[j].dest is Some),
        0 <= i < run.steps.len(),
        install::action_of(run.steps[i]) == Action::Rename(Slot::Staged, Slot::Dest),
    ensures
        run.shelves[i].dest is None || was_told(
            run,
            Action::Rename(Slot::Dest, Slot::Retired),
            false,
            i,
        ),
{
    assert(run.steps[i] is Promote);
    let outcome = run.outcomes[i - 1];
    let step = run.steps[i - 1];
    assert(run.steps[i] == install::next_step(step, outcome, setup));
    if step is Retire && outcome != Outcome::Done {
        assert(was_told(run, Action::Rename(Slot::Dest, Slot::Retired), false, i)) by {
            assert((run.outcomes[i - 1] == Outcome::Done) == false);
        }
    }
}

proof fn lemma_says(a: Seq<char>, b: Seq<char>, c: Seq<char>, end: Seq<char>)
    ensures
        text::ends_with(a + b + c + end, end),
        text::contains(a + b + c + end, b),
{
    let e = a + b + c + end;
    text_laws::starting_and_ending(e, end);
    assert(e =~= (a + b + c) + end);
    text_laws::what_is_put_in_is_contained(a, b, c + end);
    assert(e =~= a + b + (c + end));
}

/// A step that fails for a reason says so: the install's error ends with the
/// reason, and names the frontend, or the directory that could not be made.
pub proof fn an_install_says_what_went_wrong(
    step: Step,
    cause: Seq<char>,
    frontend: Frontend,
    target: Target,
)
    requires
        step is Copy || step is Promote || (step is MakeParent && target.parent is Some),
    ensures
        text::ends_with(
            install::failure(step, Outcome::Failed, cause, frontend, target)->0,
            ": "@ + cause,
        ),
        text::contains(
            install::failure(step, Outcome::Failed, cause, frontend, target)->0,
            if step is MakeParent {
                target.parent->0@
            } else {
                frontend.label@
            },
        ),
{
    let label = frontend.label@;
    let end = ": "@ + cause;
    let e = install::failure(step, Outcome::Failed, cause, frontend, target)->0;
    match step {
        Step::MakeParent(_) => {
            let a = "cannot create "@;
            lemma_says(a, target.parent->0@, seq![], end);
            assert(e =~= a + target.parent->0@ + seq![] + end);
        },
        Step::Copy(_) => {
            let a = "cannot stage "@;
            let b = " into "@ + target.staged@;
            lemma_says(a, label, b, end);
            assert(e =~= a + label + b + end);
        },
        _ => {
            let a = "cannot move "@;
            lemma_colon_place();
            lemma_says(a, label, " into place"@, end);
            assert(e =~= a + label + " into place"@ + end);
        },
    }
}

proof fn lemma_colon_place()
    ensures
        " into place: "@ == " into place"@ + ": "@,
{
    reveal_strlit(" into place: ");
    reveal_strlit(" into place");
    reveal_strlit(": ");
    assert(" into place: "@ =~= " into place"@ + ": "@);
}

/// An install whose payload is nowhere says of which frontend and under what root
/// it was looked for; one whose schemas are missing or do not compile says of
/// which frontend or which directory, and why.
pub proof fn an_install_says_what_was_missing(
    cause: Seq<char>,
    frontend: Frontend,
    target: Target,
)
    ensures
        text::starts_with(
            install::failure(Step::FindCheckout, Outcome::Failed, cause, frontend, target)->0,
            frontend.label@,
        ),
        text::ends_with(
            install::failure(Step::FindCheckout, Outcome::Failed, cause, frontend, target)->0,
            target.source_root@,
        ),
        text::starts_with(
            install::failure(Step::FindSchemas, Outcome::Failed, cause, frontend, target)->0,
            frontend.label@,
        ),
        text::ends_with(
            install::failure(Step::Compile, Outcome::Refused, cause, frontend, target)->0,
            target.schemas@ + ": "@ + text::trim(cause),
        ),
        text::ends_with(
            install::failure(Step::Compile, Outcome::Failed, cause, frontend, target)->0,
            cause,
        ),
{
    let label = frontend.label@;
    let e = install::failure(Step::FindCheckout, Outcome::Failed, cause, frontend, target)->0;
    assert(e =~= label + (" payload not found under "@ + target.source_root@));
    text_laws::starting_and_ending(e, label);
    text_laws::starting_and_ending(e, target.source_root@);
    let e = install::failure(Step::FindSchemas, Outcome::Failed, cause, frontend, target)->0;
    assert(e =~= label + (" ships GSettings schemas but "@ + target.staged@ + " has none"@));
    text_laws::starting_and_ending(e, label);
    let e = install::failure(Step::Compile, Outcome::Refused, cause, frontend, target)->0;
    let end = target.schemas@ + ": "@ + text::trim(cause);
    assert(e =~= "glib-compile-schemas failed on "@ + end);
    text_laws::starting_and_ending(e, end);
    let e = install::failure(Step::Compile, Outcome::Failed, cause, frontend, target)->0;
    text_laws::starting_and_ending(e, cause);
}

/// What a reply says: an action went wrong exactly where it failed or was refused,
/// and the reason is passed on as it is.
pub proof fn replies_mean_what_they_say(cause: String)
    ensures
        Reply::Done.outcome() == Outcome::Done,
        Reply::Failed(cause).outcome() == Outcome::Failed,
        Reply::Refused(cause).outcome() == Outcome::Refused,
        Reply::Failed(cause).cause() == cause@,
        Reply::Refused(cause).cause() == cause@,
{
}

/// An answer leaves an install about the same frontend and the same places. Where
/// it makes the install fail, the error is the reason for that, and an error stays
/// what it is once it is there.
pub proof fn an_answer_keeps_what_the_install_is_about(
    before: Install,
    reply: Reply,
    after: Install,
)
    requires
        install::answered(before, reply, after),
    ensures
        after.frontend == before.frontend,
        after.target == before.target,
        is_failing(after.step) && !is_failing(before.step) ==> Some(after.error@)
            == install::failure(
            before.step,
            reply.outcome(),
            reply.cause(),
            before.frontend,
            before.target,
        ),
        is_failing(before.step) || !is_failing(after.step) ==> after.error@ == before.error@,
{
}

/// The directories beside an install are named after the whole of its own name,
/// and both are hidden.
pub proof fn neighbours_are_named_after_the_whole_name(a: Seq<char>)
    ensures
        text::contains(install::staged_of(a), a),
        text::contains(install::retired_of(a), a),
        install::staged_of(a)[0] == '.',
        install::retired_of(a)[0] == '.',
{
    reveal_strlit(".");
    text_laws::what_is_put_in_is_contained("."@, a, ".tg-new"@);
    text_laws::what_is_put_in_is_contained("."@, a, ".tg-old"@);
}

} // verus!
