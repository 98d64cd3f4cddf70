//! A job, answered until it is over, takes the steps that the laws speak of and
//! reports every frontend it dealt with.

use vstd::prelude::*;

use crate::apply::{
    self, Action, Applied, FrontendOutcome, Job, Mode, Outcome, Reply, Setup, Step,
};
use crate::apply_laws::{self, Disk, Fetched, Run};
use crate::frontend::{self, Frontend};
use crate::release::{ArchiveKind, Os};
use crate::text;

verus! {

/// A job from its start on: what it was at each step, and how each of its actions
/// was answered.
pub struct History {
    pub jobs: Seq<Job>,
    pub replies: Seq<Reply>,
}

impl History {
    /// Whether the job starts as a new one does and each answer made of it what
    /// [`apply::Job::answer`] makes of it.
    pub open spec fn is_history(self) -> bool {
        &&& self.jobs.len() == self.replies.len() + 1
        &&& self.jobs[0].step == Step::Lock
        &&& self.jobs[0].project.ships()
        &&& self.jobs[0].outcomes@.len() == 0
        &&& forall|i: int|
            #![trigger self.replies[i]]
            0 <= i < self.replies.len() ==> {
                &&& apply::answered(self.jobs[i], self.replies[i], self.jobs[i + 1])
                &&& self.jobs[i + 1].wf()
            }
        // No list is longer than a machine can count.
        &&& forall|i: int|
            0 <= i < self.jobs.len() ==> (#[trigger] self.jobs[i]).targets@.len() <= usize::MAX
                && self.jobs[i].project.binaries@.len() <= usize::MAX
    }

    /// The steps it was at.
    pub open spec fn steps(self) -> Seq<Step> {
        Seq::new(self.jobs.len(), |i: int| self.jobs[i].step)
    }

    /// How each of its actions went.
    pub open spec fn outcomes(self) -> Seq<Outcome> {
        Seq::new(self.replies.len(), |i: int| self.replies[i].outcome())
    }

    /// The setup as it turns out to be, once the frontends are listed.
    pub open spec fn setup(self) -> Setup {
        self.jobs.last().setup()
    }
}

/// Whether the frontends of a job at that step are still to be listed.
spec fn before_listed(step: Step) -> bool {
    step is Lock || step is ClearBefore || step is MakeStaging || step is ListFrontends
}

/// From one place of a history to a later one, the job stays the same, and so do
/// its frontends once they are listed.
proof fn lemma_kept(h: History, i: int, j: int)
    requires
        h.is_history(),
        0 <= i <= j < h.jobs.len(),
    ensures
        h.jobs[i].project == h.jobs[j].project,
        h.jobs[i].mode == h.jobs[j].mode,
        h.jobs[i].os == h.jobs[j].os,
        h.jobs[i].env == h.jobs[j].env,
        !before_listed(h.jobs[i].step) ==> {
            &&& !before_listed(h.jobs[j].step)
            &&& h.jobs[i].targets@ == h.jobs[j].targets@
        },
    decreases j - i,
{
    if i < j {
        lemma_kept(h, i, j - 1);
        assert(apply::answered(h.jobs[j - 1], h.replies[j - 1], h.jobs[j]));
    }
}

/// The step behind each place of a history follows by the setup as it turns out
/// to be.
proof fn lemma_step(h: History, i: int)
    requires
        h.is_history(),
        0 <= i < h.replies.len(),
    ensures
        h.jobs[i + 1].step == apply::next_step(
            h.setup(),
            h.jobs[i].step,
            h.replies[i].outcome(),
        ),
{
    assert(apply::answered(h.jobs[i], h.replies[i], h.jobs[i + 1]));
    lemma_kept(h, i, h.jobs.len() - 1);
}

/// What is proved of runs is proved of jobs: on a disk and a network that do what
/// they may at each step, the steps of a job that is answered until some point
/// are those of a run, for the frontends that the job turns out to be about.
pub proof fn a_job_is_a_run<T>(h: History, fetched: Fetched<T>, disks: Seq<Disk<T>>)
    requires
        h.is_history(),
        disks.len() == h.jobs.len(),
        !disks[0].locked,
        forall|i: int|
            #![trigger h.replies[i]]
            0 <= i < h.replies.len() ==> apply_laws::effect(
                h.jobs[0].project,
                h.jobs[i].step,
                h.replies[i].outcome(),
                fetched,
                disks[i],
                disks[i + 1],
            ),
    ensures
        (Run { steps: h.steps(), outcomes: h.outcomes(), disks }).is_run(
            h.jobs[0].project,
            h.setup(),
            fetched,
        ),
        h.setup().mode == h.jobs[0].mode,
        h.setup().os == h.jobs[0].os,
{
    let run = Run { steps: h.steps(), outcomes: h.outcomes(), disks };
    lemma_kept(h, 0, h.jobs.len() - 1);
    assert(h.jobs.last().project.binaries@.len() <= usize::MAX);
    assert forall|i: int|
        #![trigger run.outcomes[i]]
        0 <= i < run.outcomes.len() implies {
        &&& run.steps[i + 1] == apply::next_step(h.setup(), run.steps[i], run.outcomes[i])
        &&& apply_laws::effect(
            h.jobs[0].project,
            run.steps[i],
            run.outcomes[i],
            fetched,
            run.disks[i],
            run.disks[i + 1],
        )
    } by {
        lemma_step(h, i);
        assert(h.replies[i].outcome() == run.outcomes[i]);
    }
}

/// Whether the outcome at place `k` reports how the install of the frontend at
/// that place was answered, at place `i` of the history.
pub open spec fn reports_at(h: History, k: int, i: int) -> bool {
    &&& 0 <= i < h.replies.len()
    &&& h.jobs[i].step == Step::InstallFrontend(k as usize)
    &&& apply::reports(
        h.jobs.last().outcomes@[k],
        *h.jobs.last().targets@[k],
        h.replies[i].version(),
        h.replies[i].error(),
    )
}

/// An outcome that was reported stays.
proof fn lemma_outcomes_stay(h: History, i: int, j: int, k: int)
    requires
        h.is_history(),
        0 <= i <= j < h.jobs.len(),
        0 <= k < h.jobs[i].outcomes@.len(),
    ensures
        k < h.jobs[j].outcomes@.len(),
        h.jobs[j].outcomes@[k] == h.jobs[i].outcomes@[k],
    decreases j - i,
{
    if i < j {
        lemma_outcomes_stay(h, i, j - 1, k);
        let before = h.jobs[j - 1];
        let after = h.jobs[j];
        assert(apply::answered(before, h.replies[j - 1], after));
        if before.step is InstallFrontend {
            assert(after.outcomes@.drop_last()[k] == before.outcomes@[k]);
        }
    }
}

/// Every outcome was reported by the install of its frontend.
proof fn lemma_reported(h: History, j: int, k: int) -> (i: int)
    requires
        h.is_history(),
        0 <= j < h.jobs.len(),
        0 <= k < h.jobs[j].outcomes@.len(),
    ensures
        reports_at(h, k, i),
    decreases j,
{
    assert(j > 0);
    let before = h.jobs[j - 1];
    let after = h.jobs[j];
    assert(apply::answered(before, h.replies[j - 1], after));
    if k < before.outcomes@.len() {
        lemma_reported(h, j - 1, k)
    } else {
        if j > 1 {
            assert(apply::answered(h.jobs[j - 2], h.replies[j - 2], before));
        }
        assert(before.wf());
        lemma_outcomes_stay(h, j, h.jobs.len() - 1, k);
        lemma_kept(h, j - 1, h.jobs.len() - 1);
        j - 1
    }
}

/// A job that is over has an outcome for every frontend it was about, in their
/// order, or for none. Each is about its frontend, and reports how that was
/// installed: the version that was read back, or the error.
pub proof fn every_frontend_is_reported(h: History)
    requires
        h.is_history(),
        h.jobs.last().step is Finished,
    ensures
        h.jobs.last().outcomes@.len() == 0 || h.jobs.last().outcomes@.len()
            == h.jobs.last().targets@.len(),
        forall|k: int|
            0 <= k < h.jobs.last().outcomes@.len() ==> {
                &&& apply::is_about(
                    #[trigger] h.jobs.last().outcomes@[k],
                    *h.jobs.last().targets@[k],
                )
                &&& exists|i: int| #[trigger] reports_at(h, k, i)
            },
{
    let last = h.jobs.len() - 1;
    assert(apply::answered(h.jobs[last - 1], h.replies[last - 1], h.jobs[last]));
    assert forall|k: int| 0 <= k < h.jobs.last().outcomes@.len() implies {
        &&& apply::is_about(#[trigger] h.jobs.last().outcomes@[k], *h.jobs.last().targets@[k])
        &&& exists|i: int| #[trigger] reports_at(h, k, i)
    } by {
        let i = lemma_reported(h, last, k);
        assert(reports_at(h, k, i));
    }
}

/// The frontends of an update are those that are installed when it asks, and they
/// stay the ones it is about.
pub proof fn an_update_is_about_what_is_installed(h: History, i: int, dirs: Vec<bool>)
    requires
        h.is_history(),
        0 <= i < h.replies.len(),
        h.jobs[i].step is ListFrontends,
        h.replies[i] == Reply::Present(dirs),
    ensures
        frontend::targets(h.jobs.last().targets@) == frontend::present(
            h.jobs[0].project.frontends@,
            h.jobs[0].env,
            dirs@,
        ),
{
    assert(apply::answered(h.jobs[i], h.replies[i], h.jobs[i + 1]));
    lemma_kept(h, 0, i);
    lemma_kept(h, i + 1, h.jobs.len() - 1);
}

/// A job to install some frontends stays about those that were asked for.
pub proof fn what_was_asked_for_stays(h: History, i: int)
    requires
        h.is_history(),
        h.jobs[0].mode == Mode::Frontends,
        0 <= i < h.jobs.len(),
    ensures
        h.jobs[i].targets@ == h.jobs[0].targets@,
        !(h.jobs[i].step is ListFrontends),
    decreases i,
{
    if i > 0 {
        what_was_asked_for_stays(h, i - 1);
        lemma_kept(h, 0, i - 1);
        assert(apply::answered(h.jobs[i - 1], h.replies[i - 1], h.jobs[i]));
    }
}

/// What a reply says: an action went wrong exactly where it was refused, failed or
/// found someone else at work, and what was read back or given as a reason is
/// passed on as it is.
pub proof fn replies_mean_what_they_say(
    place: String,
    cause: String,
    dirs: Vec<bool>,
    version: Option<String>,
)
    ensures
        Reply::Done.outcome() == Outcome::Done,
        Reply::Present(dirs).outcome() == Outcome::Done,
        Reply::Installed(version).outcome() == Outcome::Done,
        (Reply::Failed { place, cause }).outcome() == Outcome::Failed,
        (Reply::Refused { cause }).outcome() == Outcome::Refused,
        Reply::Busy.outcome() == Outcome::Busy,
        (Reply::Failed { place, cause }).place() == place@,
        (Reply::Failed { place, cause }).cause() == cause@,
        (Reply::Refused { cause }).cause() == cause@,
        Reply::Installed(version).version() == text::text_of(version),
{
}

/// What is reported of a frontend is what became of it: an install that was done
/// is reported with the version read back and no error, and one that failed with
/// its reason and no version. How its desktop picks it up is reported either way.
pub proof fn a_report_is_of_what_became(
    o: FrontendOutcome,
    f: Frontend,
    place: String,
    cause: String,
    version: Option<String>,
)
    ensures
        ({
            let reply = Reply::Installed(version);
            apply::reports(o, f, reply.version(), reply.error()) ==> {
                &&& text::text_of(o.version) == text::text_of(version)
                &&& o.error is None
            }
        }),
        ({
            let reply = Reply::Failed { place, cause };
            apply::reports(o, f, reply.version(), reply.error()) ==> {
                &&& o.version is None
                &&& o.error matches Some(e) && e@ == cause@
            }
        }),
        apply::is_about(o, f) ==> {
            &&& o.id@ == f.id@
            &&& o.label@ == f.label@
            &&& f.restart matches frontend::Restart::Session(h) ==> o.needs_session_restart
                && o.restart_hint@ == h@
            &&& f.restart matches frontend::Restart::Cheap(h) ==> !o.needs_session_restart
                && o.restart_hint@ == h@
        },
{
}

/// Whether a step up to the one at place `i` installs a frontend.
spec fn installs_by(h: History, i: int) -> bool {
    exists|j: int| 0 <= j <= i && (#[trigger] h.jobs[j]).step is InstallFrontend
}

proof fn lemma_each_reported(h: History, i: int)
    requires
        h.is_history(),
        0 <= i < h.jobs.len(),
    ensures
        match h.jobs[i].step {
            Step::FindPayload(_) => !installs_by(h, i),
            Step::InstallFrontend(k) => true,
            Step::ClearAfter { ok: true } | Step::Record | Step::Finished { ok: true } => {
                &&& installs_by(h, i) ==> h.jobs[i].outcomes@.len() == h.jobs[i].targets@.len()
                &&& h.jobs[i].mode == Mode::Frontends ==> installs_by(h, i)
            },
            Step::ClearAfter { ok: false } | Step::Finished { ok: false } => !installs_by(h, i),
            _ => !installs_by(h, i),
        },
        h.jobs[i].mode == Mode::Frontends ==> !(h.jobs[i].step is FindPrimary)
            && !(h.jobs[i].step is FindBinary) && !(h.jobs[i].step is Replace)
            && !(h.jobs[i].step is MakeRunnable) && !(h.jobs[i].step is RefreshAliases),
    decreases i,
{
    if i > 0 {
        lemma_each_reported(h, i - 1);
        let before = h.jobs[i - 1];
        let after = h.jobs[i];
        assert(apply::answered(before, h.replies[i - 1], after));
        assert(h.jobs[i - 1].targets@.len() <= usize::MAX);
        if i > 1 {
            assert(apply::answered(h.jobs[i - 2], h.replies[i - 2], before));
        }
        assert(before.wf());
        if installs_by(h, i - 1) {
            let j = choose|j: int|
                0 <= j <= i - 1 && (#[trigger] h.jobs[j]).step is InstallFrontend;
            assert(h.jobs[j].step is InstallFrontend);
            assert(installs_by(h, i));
        }
        if before.step is InstallFrontend {
            assert(installs_by(h, i));
        }
        if installs_by(h, i) && !(after.step is InstallFrontend) {
            let j = choose|j: int| 0 <= j <= i && (#[trigger] h.jobs[j]).step is InstallFrontend;
            assert(j <= i - 1);
            assert(installs_by(h, i - 1));
        }
    }
}

/// A job that succeeds has an outcome for each frontend it was about, if it
/// installed any, which one to install frontends always does.
pub proof fn success_reports_each_frontend(h: History)
    requires
        h.is_history(),
        h.jobs.last().step == (Step::Finished { ok: true }),
        h.jobs.last().mode == Mode::Frontends || exists|j: int|
            0 <= j < h.jobs.len() && (#[trigger] h.jobs[j]).step is InstallFrontend,
    ensures
        h.jobs.last().outcomes@.len() == h.jobs.last().targets@.len(),
{
    let last = h.jobs.len() - 1;
    lemma_each_reported(h, last);
    if h.jobs.last().mode != Mode::Frontends {
        let j = choose|j: int|
            0 <= j < h.jobs.len() && (#[trigger] h.jobs[j]).step is InstallFrontend;
        assert(installs_by(h, last));
    }
}

/// A job is set up as its project and its frontends are.
pub proof fn a_job_is_set_up_as_it_is(job: Job)
    requires
        job.project.binaries@.len() <= usize::MAX,
        job.targets@.len() <= usize::MAX,
    ensures
        job.setup().binaries == job.project.binaries@.len(),
        job.setup().frontends == job.targets@.len(),
        job.setup().mode == job.mode,
        job.setup().os == job.os,
{
}

/// What is looked for is what is replaced and made runnable: the binary at its
/// place, the primary one first. What is looked for a payload is what is
/// installed: the frontend at its place.
pub proof fn what_is_looked_for_is_dealt_with(
    job: Job,
    i: usize,
    now_ms: i64,
    look: Action,
    deal: Action,
    run: Action,
)
    ensures
        apply::is_asked(Job { step: Step::FindPrimary, ..job }, now_ms, look) ==> look
            == Action::LookFor(job.project.binaries@[0]),
        apply::is_asked(Job { step: Step::FindBinary(i), ..job }, now_ms, look)
            && apply::is_asked(Job { step: Step::Replace(i), ..job }, now_ms, deal)
            && apply::is_asked(Job { step: Step::MakeRunnable(i), ..job }, now_ms, run) ==> {
            let name = job.project.binaries@[i as int];
            look == Action::LookFor(name) && deal == Action::Replace(name) && run
                == Action::MakeRunnable(name)
        },
        apply::is_asked(Job { step: Step::FindPayload(i), ..job }, now_ms, look)
            && apply::is_asked(Job { step: Step::InstallFrontend(i), ..job }, now_ms, deal) ==> {
            let f = job.targets@[i as int];
            look == Action::LookForPayload(f) && deal == Action::Install(f)
        },
{
}

/// The archive that is downloaded is the asset of the job, into the file that was
/// created for it, which is the one that is extracted, as archives of the system
/// are packed.
pub proof fn what_is_downloaded_is_extracted(
    job: Job,
    now_ms: i64,
    create: Action,
    download: Action,
    extract: Action,
)
    requires
        apply::is_asked(Job { step: Step::CreateArchive, ..job }, now_ms, create),
        apply::is_asked(Job { step: Step::Download, ..job }, now_ms, download),
        apply::is_asked(Job { step: Step::Extract, ..job }, now_ms, extract),
    ensures
        create matches Action::CreateArchive(name) && name@ == job.asset.name@,
        download matches Action::Download(asset) && asset.name@ == job.asset.name@
            && asset.download_url@ == job.asset.download_url@,
        extract matches Action::Extract(name, kind) && name@ == job.asset.name@ && (kind
            == ArchiveKind::Zip <==> job.os == Os::Windows),
{
}

/// What is recorded is that the version of the job is installed, as of now, and
/// that nothing is on offer.
pub proof fn what_is_recorded_is_the_version(job: Job, now_ms: i64, record: Action)
    requires
        apply::is_asked(Job { step: Step::Record, ..job }, now_ms, record),
    ensures
        record matches Action::Record(status) && {
            &&& status.current@ == job.version@
            &&& status.latest matches Some(v) && v@ == job.version@
            &&& !status.available
            &&& status.checked_ms == now_ms
            &&& status.notified is None
        },
{
    match record {
        Action::Record(status) => {
            assert(status@.latest == Some(job.version@));
            assert(status@.notified is None);
        },
        _ => {},
    }
}

/// Each step asks for its own kind of work, and a job that is over asks for none.
pub proof fn each_step_asks_for_its_work(job: Job, now_ms: i64, r: Action)
    requires
        apply::is_asked(job, now_ms, r),
    ensures
        job.step is Lock <==> r is Lock,
        job.step is MakeStaging <==> r is MakeStaging,
        job.step is ClearBefore || job.step is ClearAfter <==> r is ClearStaging,
        job.step is ListFrontends <==> r is ListFrontends,
        job.step is RefreshAliases <==> r is RefreshAliases,
        job.step is Replace <==> r is Replace,
        job.step is Record <==> r is Record,
        job.step is Finished <==> r is Stop,
{
}

/// A job has a result once it is over and not before. It is the version and what
/// became of the frontends where it succeeded, with no installer launched, and the
/// reason where it failed.
pub proof fn a_job_ends_as_it_went(job: Job, r: Option<Result<Applied, String>>)
    requires
        apply::is_ended(job, r),
    ensures
        r is Some <==> job.step is Finished,
        job.step == (Step::Finished { ok: true }) ==> (r matches Some(Ok(a)) && {
            &&& a.version@ == job.version@
            &&& a.frontends@ == job.outcomes@
            &&& !a.installer_launched
        }),
        job.step == (Step::Finished { ok: false }) ==> (r matches Some(Err(e)) && e@
            == job.error@),
{
}

/// An answer leaves a job about the same project, release and asset. Where it makes
/// the job fail, the error is the reason for that, and an error stays what it is
/// once it is there.
pub proof fn an_answer_keeps_what_the_job_is_about(before: Job, reply: Reply, after: Job)
    requires
        apply::answered(before, reply, after),
        before.wf(),
        before.targets@.len() <= usize::MAX,
        before.project.binaries@.len() <= usize::MAX,
        before.step is RefreshAliases ==> before.mode == Mode::Update,
    ensures
        after.project == before.project,
        after.mode == before.mode,
        after.os == before.os,
        after.version == before.version,
        after.asset == before.asset,
        apply_laws::has_failed(after.step) && !apply_laws::has_failed(before.step) ==> Some(
            after.error@,
        ) == apply::failure(
            before.project,
            before.setup(),
            before.version@,
            before.step,
            reply.outcome(),
            reply.place(),
            reply.cause(),
        ),
        apply_laws::has_failed(before.step) || !apply_laws::has_failed(after.step)
            ==> after.error@ == before.error@,
{
    apply_laws::failing_says_why(
        before.project,
        before.setup(),
        before.version@,
        before.step,
        reply.outcome(),
        reply.place(),
        reply.cause(),
    );
}

} // verus!
