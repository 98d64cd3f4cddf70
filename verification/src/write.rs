//! Writing the cached status. It is written through a neighbour and renamed: a
//! panel reading the file while it is rewritten must never see half of it.

use vstd::prelude::*;

use crate::text;
use crate::text_laws;
use crate::version;

verus! {

/// The digit that a number below ten is written as.
pub open spec fn digit(n: nat) -> char
    recommends
        n < 10,
{
    ('0' as nat + n) as char
}

/// A number in decimal.
pub open spec fn digits(n: nat) -> Seq<char>
    decreases n,
{
    if n < 10 {
        seq![digit(n)]
    } else {
        digits(n / 10).push(digit(n % 10))
    }
}

/// The extension of the neighbour that a process writes through.
pub open spec fn extension_of(pid: u32) -> Seq<char> {
    "tmp."@ + digits(pid as nat)
}

/// The digit that a number below ten is written as.
fn digit_text(n: u32) -> (r: &'static str)
    requires
        n < 10,
    ensures
        r@ == seq![digit(n as nat)],
{
    proof {
        reveal_strlit("0");
        reveal_strlit("1");
        reveal_strlit("2");
        reveal_strlit("3");
        reveal_strlit("4");
        reveal_strlit("5");
        reveal_strlit("6");
        reveal_strlit("7");
        reveal_strlit("8");
        reveal_strlit("9");
    }
    let r = match n {
        0 => "0",
        1 => "1",
        2 => "2",
        3 => "3",
        4 => "4",
        5 => "5",
        6 => "6",
        7 => "7",
        8 => "8",
        _ => "9",
    };
    assert(r@ =~= seq![digit(n as nat)]);
    r
}

/// A number in decimal.
fn number_text(n: u32) -> (r: String)
    ensures
        r@ == digits(n as nat),
    decreases n,
{
    if n < 10 {
        digit_text(n).to_owned()
    } else {
        let r = number_text(n / 10).concat(digit_text(n % 10));
        assert(r@ =~= digits((n / 10) as nat).push(digit((n % 10) as nat)));
        r
    }
}

/// The extension of the neighbour that a process writes through.
pub fn staged_extension(pid: u32) -> (r: String)
    ensures
        r@ == extension_of(pid),
{
    text::cat2("tmp.", number_text(pid).as_str())
}

pub(crate) proof fn lemma_digits_read_back(n: nat)
    ensures
        version::decimal(digits(n)) == n,
    decreases n,
{
    if n < 10 {
        reveal_with_fuel(version::decimal, 2);
        assert(digits(n).drop_last() =~= Seq::<char>::empty());
    } else {
        lemma_digits_read_back(n / 10);
        assert(digits(n).drop_last() =~= digits(n / 10));
    }
}

/// No two processes write through the same neighbour.
pub proof fn processes_stage_apart(a: u32, b: u32)
    requires
        a != b,
    ensures
        extension_of(a) != extension_of(b),
{
    lemma_digits_read_back(a as nat);
    lemma_digits_read_back(b as nat);
    assert(extension_of(a).skip("tmp."@.len() as int) =~= digits(a as nat));
    assert(extension_of(b).skip("tmp."@.len() as int) =~= digits(b as nat));
}

/// What a write is waiting for.
#[derive(Debug, Clone, Copy, PartialEq, Eq, Structural)]
pub enum Step {
    /// Create the directory that the file is in, and those above it.
    MakeParent,
    /// Write the whole status to the neighbour.
    Stage,
    /// Rename the neighbour to the file.
    Replace,
    Finished { written: bool },
}

/// The step that follows.
pub open spec fn next_step(step: Step, done: bool) -> Step {
    match step {
        Step::MakeParent if done => Step::Stage,
        Step::Stage if done => Step::Replace,
        Step::Replace => Step::Finished { written: done },
        Step::Finished { written } => Step::Finished { written },
        _ => Step::Finished { written: false },
    }
}

/// The places a write works on, as they are shown to a user.
#[derive(Debug, Clone, PartialEq, Eq)]
pub struct Target {
    /// The directory the file is in, if it is in one.
    pub parent: Option<String>,
    pub staged: String,
    pub path: String,
}

/// The directory the file is in, as it is shown.
pub open spec fn parent_text(target: Target) -> Seq<char> {
    match target.parent {
        Some(p) => p@,
        None => seq![],
    }
}

/// Why a write fails at `step`.
pub open spec fn failure(step: Step, cause: Seq<char>, target: Target) -> Seq<char> {
    match step {
        Step::MakeParent => "cannot create "@ + parent_text(target) + ": "@ + cause,
        Step::Stage => "cannot write "@ + target.staged@ + ": "@ + cause,
        _ => "cannot replace "@ + target.path@ + ": "@ + cause,
    }
}

/// One write of the cached status.
#[derive(Debug, Clone)]
pub struct Write {
    pub target: Target,
    pub step: Step,
    /// Why it failed, once it has.
    pub error: String,
}

/// The step that a write starts with.
pub open spec fn first_step(target: Target) -> Step {
    if target.parent is Some {
        Step::MakeParent
    } else {
        Step::Stage
    }
}

/// Start writing a status.
pub fn write_update_status(target: Target) -> (r: Write)
    ensures
        r.target == target,
        r.step == first_step(target),
        r.error@ == Seq::<char>::empty(),
{
    let step = if target.parent.is_some() {
        Step::MakeParent
    } else {
        Step::Stage
    };
    Write { target, step, error: String::new() }
}

/// What answering a write's step with `reply` makes of it.
pub open spec fn answered(before: Write, reply: Result<(), String>, after: Write) -> bool {
    &&& after.target == before.target
    &&& after.step == next_step(before.step, reply is Ok)
    &&& after.error@ == match (before.step, reply) {
        (Step::Finished { written: _ }, _) => before.error@,
        (_, Ok(_)) => before.error@,
        (step, Err(cause)) => failure(step, cause@, before.target),
    }
}

impl Write {
    /// Take how the step went.
    pub fn answer(&mut self, reply: Result<(), String>)
        ensures
            answered(*old(self), reply, *final(self)),
    {
        let cause = match reply {
            Ok(_) => {
                self.step = match self.step {
                    Step::MakeParent => Step::Stage,
                    Step::Stage => Step::Replace,
                    Step::Replace => Step::Finished { written: true },
                    Step::Finished { written } => Step::Finished { written },
                };
                return ;
            },
            Err(cause) => cause,
        };
        match self.step {
            Step::MakeParent => {
                let parent = match &self.target.parent {
                    Some(p) => p.as_str(),
                    None => "",
                };
                proof {
                    reveal_strlit("");
                    assert(parent@ =~= parent_text(self.target));
                }
                self.error = text::cat3("cannot create ", parent, ": ").concat(cause.as_str());
                self.step = Step::Finished { written: false };
            },
            Step::Stage => {
                self.error = text::cat3("cannot write ", self.target.staged.as_str(), ": ").concat(
                    cause.as_str(),
                );
                self.step = Step::Finished { written: false };
            },
            Step::Replace => {
                self.error = text::cat3("cannot replace ", self.target.path.as_str(), ": ").concat(
                    cause.as_str(),
                );
                self.step = Step::Finished { written: false };
            },
            Step::Finished { written: _ } => {},
        }
    }

    /// Once it is over, whether it succeeded, and if not why.
    pub fn result(&self) -> (r: Option<Result<(), String>>)
        ensures
            match self.step {
                Step::Finished { written: true } => r == Some(Ok::<(), String>(())),
                Step::Finished { written: false } => r matches Some(Err(e)) && e@ == self.error@,
                _ => r is None,
            },
    {
        match self.step {
            Step::Finished { written } => if written {
                Some(Ok(()))
            } else {
                Some(Err(self.error.clone()))
            },
            _ => None,
        }
    }
}

/// What the file and its neighbour hold, if they are there.
pub struct Files<T> {
    pub path: Option<T>,
    pub staged: Option<T>,
}

/// What a disk may do at a step, with `new` to be written. A write that fails
/// may have got part of the way; a rename replaces the file at once or not at
/// all.
pub open spec fn effect<T>(
    step: Step,
    done: bool,
    new: T,
    before: Files<T>,
    after: Files<T>,
) -> bool {
    match step {
        Step::Stage => after.path == before.path && (done ==> after.staged == Some(new)),
        Step::Replace if done => after == (Files { path: before.staged, staged: None }),
        _ => after == before,
    }
}

/// A write from its first step on.
pub struct Run<T> {
    pub steps: Seq<Step>,
    pub outcomes: Seq<bool>,
    pub files: Seq<Files<T>>,
}

impl<T> Run<T> {
    /// Whether the steps follow one another and the disk did what it may do.
    pub open spec fn is_run(self, new: T) -> bool {
        &&& self.steps.len() == self.outcomes.len() + 1
        &&& self.files.len() == self.steps.len()
        &&& self.steps[0] is MakeParent || self.steps[0] is Stage
        &&& forall|i: int|
            #![trigger self.outcomes[i]]
            0 <= i < self.outcomes.len() ==> {
                &&& self.steps[i + 1] == next_step(self.steps[i], self.outcomes[i])
                &&& effect(
                    self.steps[i],
                    self.outcomes[i],
                    new,
                    self.files[i],
                    self.files[i + 1],
                )
            }
    }
}

/// A reader never sees half a status: at every moment of a write the file holds
/// what it held before, or all of the new status. It holds the new one exactly
/// where the write succeeds, and then nothing is left beside it.
pub proof fn a_reader_never_sees_half<T>(run: Run<T>, new: T, i: int)
    requires
        run.is_run(new),
        0 <= i < run.steps.len(),
    ensures
        run.steps[i] == (Step::Finished { written: true }) ==> run.files[i] == (Files {
            path: Some(new),
            staged: None,
        }),
        run.steps[i] != (Step::Finished { written: true }) ==> run.files[i].path
            == run.files[0].path,
        run.steps[i] is Replace ==> run.files[i].staged == Some(new),
    decreases i,
{
    if i > 0 {
        a_reader_never_sees_half(run, new, i - 1);
        let outcome = run.outcomes[i - 1];
        assert(run.steps[i] == next_step(run.steps[i - 1], outcome));
    }
}

/// A write from its start on: what it was at each step, and how each of them was
/// answered.
pub struct History {
    pub writes: Seq<Write>,
    pub replies: Seq<Result<(), String>>,
}

impl History {
    /// Whether the write starts as a new one does and each answer made of it what
    /// [`Write::answer`] makes of it.
    pub open spec fn is_history(self) -> bool {
        &&& self.writes.len() == self.replies.len() + 1
        &&& self.writes[0].step is MakeParent || self.writes[0].step is Stage
        &&& forall|i: int|
            #![trigger self.replies[i]]
            0 <= i < self.replies.len() ==> answered(
                self.writes[i],
                self.replies[i],
                self.writes[i + 1],
            )
    }

    /// The run that the write is, on files that held `files`.
    pub open spec fn run<T>(self, files: Seq<Files<T>>) -> Run<T> {
        Run {
            steps: Seq::new(self.writes.len(), |i: int| self.writes[i].step),
            outcomes: Seq::new(self.replies.len(), |i: int| self.replies[i] is Ok),
            files,
        }
    }
}

/// What is proved of runs is proved of writes: on a disk that does what it may at
/// each step, a write that is answered until some point takes the steps of a run.
pub proof fn a_write_is_a_run<T>(h: History, new: T, files: Seq<Files<T>>)
    requires
        h.is_history(),
        files.len() == h.writes.len(),
        forall|i: int|
            #![trigger h.replies[i]]
            0 <= i < h.replies.len() ==> effect(
                h.writes[i].step,
                h.replies[i] is Ok,
                new,
                files[i],
                files[i + 1],
            ),
    ensures
        h.run(files).is_run(new),
{
    let run = h.run(files);
    assert forall|i: int|
        #![trigger run.outcomes[i]]
        0 <= i < run.outcomes.len() implies {
        &&& run.steps[i + 1] == next_step(run.steps[i], run.outcomes[i])
        &&& effect(run.steps[i], run.outcomes[i], new, run.files[i], run.files[i + 1])
    } by {
        assert(answered(h.writes[i], h.replies[i], h.writes[i + 1]));
    }
}

/// A write that is over has succeeded exactly where every step of it was done.
pub proof fn a_write_fails_only_for_a_cause<T>(run: Run<T>, new: T)
    requires
        run.is_run(new),
        run.steps.last() is Finished,
    ensures
        run.steps.last() == (Step::Finished { written: true }) <==> forall|j: int|
            #![trigger run.outcomes[j]]
            0 <= j < run.outcomes.len() && !(run.steps[j] is Finished) ==> run.outcomes[j],
{
    lemma_write_cause(run, new, run.steps.len() - 1);
}

proof fn lemma_write_cause<T>(run: Run<T>, new: T, i: int)
    requires
        run.is_run(new),
        0 <= i < run.steps.len(),
    ensures
        (forall|j: int|
            #![trigger run.outcomes[j]]
            0 <= j < i && !(run.steps[j] is Finished) ==> run.outcomes[j]) <==> run.steps[i] != (
        Step::Finished { written: false }),
    decreases i,
{
    if i > 0 {
        lemma_write_cause(run, new, i - 1);
        assert(run.steps[i] == next_step(run.steps[i - 1], run.outcomes[i - 1]));
    }
}

/// The directory is there before anything is written into it, and the file is
/// replaced only by what was written whole.
pub proof fn each_step_waits_for_the_one_before<T>(run: Run<T>, new: T, i: int)
    requires
        run.is_run(new),
        0 <= i < run.steps.len(),
    ensures
        run.steps[i] is MakeParent ==> i == 0,
        run.steps[i] is Stage && i > 0 ==> run.steps[i - 1] is MakeParent && run.outcomes[i - 1],
        run.steps[i] is Replace ==> i > 0 && run.steps[i - 1] is Stage && run.outcomes[i - 1],
        run.steps[i] == (Step::Finished { written: true }) && i > 0 && !(run.steps[i
            - 1] is Finished) ==> run.steps[i - 1] is Replace && run.outcomes[i - 1],
    decreases i,
{
    if i > 0 {
        each_step_waits_for_the_one_before(run, new, i - 1);
        assert(run.steps[i] == next_step(run.steps[i - 1], run.outcomes[i - 1]));
    }
}

/// What a write says of its failure ends with the reason that was given, and names
/// the file or directory that it could not be done to.
pub proof fn a_write_says_what_went_wrong(step: Step, cause: Seq<char>, target: Target)
    ensures
        text::ends_with(failure(step, cause, target), ": "@ + cause),
        step is Stage ==> text::contains(failure(step, cause, target), target.staged@),
        step is Replace ==> text::contains(failure(step, cause, target), target.path@),
        step is MakeParent && target.parent is Some ==> text::contains(
            failure(step, cause, target),
            target.parent->0@,
        ),
{
    let e = failure(step, cause, target);
    let end = ": "@ + cause;
    let (a, b) = match step {
        Step::MakeParent => ("cannot create "@, parent_text(target)),
        Step::Stage => ("cannot write "@, target.staged@),
        _ => ("cannot replace "@, target.path@),
    };
    assert(e =~= (a + b) + end);
    assert(e =~= a + b + end);
    text_laws::starting_and_ending(e, end);
    text_laws::what_is_put_in_is_contained(a, b, end);
}

/// The neighbour of a process is told by its number, in decimal: that is the
/// number again once it is read.
pub proof fn a_neighbour_is_named_by_its_process(pid: u32)
    ensures
        text::starts_with(extension_of(pid), "tmp."@),
        version::decimal(extension_of(pid).skip("tmp."@.len() as int)) == pid,
{
    lemma_digits_read_back(pid as nat);
    assert(extension_of(pid).skip("tmp."@.len() as int) =~= digits(pid as nat));
    text_laws::starting_and_ending(extension_of(pid), "tmp."@);
}

/// A write into a directory makes that directory first, and one that is in none
/// starts with the file.
pub proof fn a_directory_is_made_first(target: Target)
    ensures
        target.parent is Some ==> first_step(target) is MakeParent,
        target.parent is None ==> first_step(target) is Stage,
{
}

/// An answer leaves a write about the same places. Where it makes the write fail,
/// the error is the reason for that, and else it stays.
pub proof fn an_answer_keeps_what_the_write_is_about(
    before: Write,
    reply: Result<(), String>,
    after: Write,
)
    requires
        answered(before, reply, after),
    ensures
        after.target == before.target,
        reply is Ok || before.step is Finished ==> after.error@ == before.error@,
        !(before.step is Finished) ==> (reply matches Err(cause) ==> after.error@ == failure(
            before.step,
            cause@,
            before.target,
        )),
{
}

/// How far a step is from the end.
pub open spec fn left(step: Step) -> int {
    match step {
        Step::MakeParent => 3,
        Step::Stage => 2,
        Step::Replace => 1,
        Step::Finished { written: _ } => 0,
    }
}

/// Every answer brings a write nearer its end, and what ended stays as it is.
pub proof fn every_answer_brings_the_end_nearer(step: Step, done: bool)
    ensures
        !(step is Finished) ==> 0 <= left(next_step(step, done)) < left(step),
        step is Finished ==> next_step(step, done) == step,
{
}

} // verus!
