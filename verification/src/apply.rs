//! Applying a release: fetching its archive, replacing the binaries it carries,
//! and reinstalling the frontends from the same archive.
//!
//! This module decides what to do next and what the outcome means; whoever
//! drives it owns the disk and the network.

use vstd::prelude::*;

use crate::frontend::{self, Frontend};
use crate::place::Environment;
use crate::project::Project;
use crate::release::{self, ArchiveKind, Os, ReleaseAsset};
use crate::state::UpdateStatus;
use crate::text::{self, Class};
use crate::update;

verus! {

/// The mode of a binary that was replaced, where files have one: its owner
/// writes it and everyone runs it.
pub const RUNNABLE_MODE: u32 = 0o755;

/// What a release is fetched for.
#[derive(Debug, Clone, Copy, PartialEq, Eq, Structural)]
pub enum Mode {
    /// To replace the binaries, and refresh the frontends that are installed.
    Update,
    /// To install some frontends, whether or not they are installed.
    Frontends,
}

/// What a job is waiting for. The numbers are places among the binaries of the
/// project, or among the frontends the job is about.
#[derive(Debug, Clone, Copy, PartialEq, Eq, Structural)]
pub enum Step {
    Lock,
    ClearBefore,
    MakeStaging,
    ListFrontends,
    CreateArchive,
    Download,
    Extract,
    FindPrimary,
    FindBinary(usize),
    Replace(usize),
    MakeRunnable(usize),
    RefreshAliases,
    FindPayload(usize),
    InstallFrontend(usize),
    ClearAfter { ok: bool },
    Record,
    Finished { ok: bool },
}

/// What to do next.
#[derive(Debug, Clone)]
pub enum Action {
    /// Take the project's lock in the install directory, without waiting for it.
    /// It is held until the job is over.
    Lock,
    /// Remove the staging directory and all in it.
    ClearStaging,
    /// Create the staging directory.
    MakeStaging,
    /// Which of the project's frontends are installed?
    ListFrontends,
    /// Create the file of that name, in the staging directory, which the archive
    /// is downloaded to.
    CreateArchive(String),
    /// Download that asset into that file.
    Download(ReleaseAsset),
    /// Extract the file of that name into the staging directory.
    Extract(String, ArchiveKind),
    /// Is there a file of that name in the staging directory?
    LookFor(&'static str),
    /// Move that file from the staging directory into the install directory,
    /// setting aside what it replaces until it is in place.
    Replace(&'static str),
    /// Give that file of the install directory the mode [`RUNNABLE_MODE`].
    MakeRunnable(&'static str),
    /// Refresh the names in the install directory, as [`crate::aliases`] says.
    RefreshAliases,
    /// Is there a payload for that frontend in the staging directory?
    LookForPayload(&'static Frontend),
    /// Install that frontend from the staging directory, as [`crate::install`]
    /// says, and read back the version that is then installed.
    Install(&'static Frontend),
    /// Write that status, which says that the release is installed, to the cache
    /// and count the update, both under the cache's lock.
    Record(UpdateStatus),
    /// Nothing: the job is over, and its lock can be let go.
    Stop,
}

/// How an action went.
#[derive(Debug, Clone, Copy, PartialEq, Eq, Structural)]
pub enum Outcome {
    /// It succeeded, or the answer is yes.
    Done,
    /// It failed, or the answer is no.
    Failed,
    /// The lock could be opened but not taken, for a reason other than that
    /// someone holds it.
    Refused,
    /// Someone holds the lock.
    Busy,
}

/// How an action went, with what there is to say about it.
#[derive(Debug, Clone, PartialEq, Eq)]
pub enum Reply {
    Done,
    /// It failed at that path, as it is shown to a user, for that reason.
    Failed { place: String, cause: String },
    Refused { cause: String },
    Busy,
    /// For each declared frontend, whether a directory stands where it belongs.
    Present(Vec<bool>),
    /// The frontend is installed, and the copy on disk records that version.
    Installed(Option<String>),
}

impl Reply {
    /// The outcome that is replied.
    pub open spec fn outcome(self) -> Outcome {
        match self {
            Reply::Failed { place: _, cause: _ } => Outcome::Failed,
            Reply::Refused { cause: _ } => Outcome::Refused,
            Reply::Busy => Outcome::Busy,
            _ => Outcome::Done,
        }
    }

    /// The path that it failed at.
    pub open spec fn place(self) -> Seq<char> {
        match self {
            Reply::Failed { place, cause: _ } => place@,
            _ => seq![],
        }
    }

    /// The reason that it failed for.
    pub open spec fn cause(self) -> Seq<char> {
        match self {
            Reply::Failed { place: _, cause } => cause@,
            Reply::Refused { cause } => cause@,
            _ => seq![],
        }
    }

    /// The version that is now installed.
    pub open spec fn version(self) -> Option<Seq<char>> {
        match self {
            Reply::Installed(v) => text::text_of(v),
            _ => None,
        }
    }

    /// The error that a frontend's install ended with.
    pub open spec fn error(self) -> Option<Seq<char>> {
        if self.outcome() == Outcome::Done {
            None
        } else {
            Some(self.cause())
        }
    }
}

/// What an update did to a non-binary frontend, for the caller to report.
#[derive(Debug, Clone, PartialEq, Eq)]
pub struct FrontendOutcome {
    pub id: &'static str,
    pub label: &'static str,
    /// The version now on disk, read back from the installed copy rather than
    /// assumed from the release.
    pub version: Option<String>,
    pub restart_hint: &'static str,
    pub needs_session_restart: bool,
    /// Set when the install failed; the binary is already replaced by then, so
    /// this is reported rather than propagated.
    pub error: Option<String>,
}

/// Result of a successful update: the version installed, plus what happened to
/// each non-binary frontend that was already present.
#[derive(Debug, Clone, PartialEq, Eq)]
pub struct Applied {
    pub version: String,
    pub frontends: Vec<FrontendOutcome>,
    /// Windows, MSI installs only: the upgrade was handed to `msiexec` and is
    /// running now. Nothing has been replaced yet, and the caller must exit
    /// promptly, because one of the files the installer is about to replace is
    /// the executable running this code.
    pub installer_launched: bool,
}

/// Whether `o` is about `f`: it names it and says how its desktop picks it up.
pub open spec fn is_about(o: FrontendOutcome, f: Frontend) -> bool {
    &&& o.id@ == f.id@
    &&& o.label@ == f.label@
    &&& o.restart_hint@ == match f.restart {
        frontend::Restart::Cheap(h) => h@,
        frontend::Restart::Session(h) => h@,
    }
    &&& o.needs_session_restart == (f.restart is Session)
}

/// Whether `o` reports that installing `f` ended with that version or that
/// error.
pub open spec fn reports(
    o: FrontendOutcome,
    f: Frontend,
    version: Option<Seq<char>>,
    error: Option<Seq<char>>,
) -> bool {
    &&& is_about(o, f)
    &&& text::text_of(o.version) == version
    &&& text::text_of(o.error) == error
}

/// What is reported of installing one frontend.
fn report(f: &Frontend, reply: Reply) -> (r: FrontendOutcome)
    ensures
        reports(r, *f, reply.version(), reply.error()),
{
    let (version, error) = match reply {
        Reply::Installed(v) => (v, None),
        Reply::Failed { place: _, cause } => (None, Some(cause)),
        Reply::Refused { cause } => (None, Some(cause)),
        Reply::Busy => (None, Some(String::new())),
        _ => (None, None),
    };
    FrontendOutcome {
        id: f.id,
        label: f.label,
        version,
        restart_hint: f.restart.hint(),
        needs_session_restart: f.restart.needs_session_restart(),
        error,
    }
}

/// The name of the lock. It is per project: two of these can share an install
/// directory, and one updating must not refuse the other.
pub open spec fn lock_of(project: Project) -> Seq<char> {
    "."@ + project.primary_name() + "-update.lock"@
}

/// The name of the staging directory. It is inside the install directory, so
/// the final move is a rename on the same file system.
pub open spec fn staging_of(project: Project, mode: Mode) -> Seq<char> {
    "."@ + project.primary_name() + match mode {
        Mode::Update => "-update.tmp"@,
        Mode::Frontends => "-frontend.tmp"@,
    }
}

/// The name that a binary is set aside under, in the staging directory, while
/// its replacement moves into place.
pub open spec fn aside_of(binary: Seq<char>) -> Seq<char> {
    binary + ".old"@
}

/// The name of the lock.
pub fn lock_name(project: &Project) -> (r: String)
    requires
        project.ships(),
    ensures
        r@ == lock_of(*project),
{
    text::cat3(".", project.primary(), "-update.lock")
}

/// The name of the staging directory.
pub fn staging_name(project: &Project, mode: Mode) -> (r: String)
    requires
        project.ships(),
    ensures
        r@ == staging_of(*project, mode),
{
    text::cat3(
        ".",
        project.primary(),
        match mode {
            Mode::Update => "-update.tmp",
            Mode::Frontends => "-frontend.tmp",
        },
    )
}

/// The name that a binary is set aside under.
pub fn aside_name(binary: &str) -> (r: String)
    ensures
        r@ == aside_of(binary@),
{
    text::cat2(binary, ".old")
}

/// What decides which steps a job takes.
#[derive(Debug, Clone, Copy, PartialEq, Eq, Structural)]
pub struct Setup {
    pub mode: Mode,
    pub os: Os,
    /// How many binaries the project ships.
    pub binaries: usize,
    /// How many frontends the job is about.
    pub frontends: usize,
}

/// The step at which the binary at place `i` is dealt with.
pub open spec fn binary_at(setup: Setup, i: int) -> Step {
    if 0 <= i < setup.binaries {
        Step::FindBinary(i as usize)
    } else {
        Step::RefreshAliases
    }
}

/// The step at which the payload of the frontend at place `k` is looked for. An
/// archive predating the frontend payloads carries none, and an update says
/// nothing of that rather than reporting a failure per frontend.
pub open spec fn payload_at(setup: Setup, k: int) -> Step {
    if 0 <= k < setup.frontends {
        Step::FindPayload(k as usize)
    } else {
        Step::ClearAfter { ok: setup.mode == Mode::Update }
    }
}

/// The step at which the frontend at place `k` is installed.
pub open spec fn install_at(setup: Setup, k: int) -> Step {
    if 0 <= k < setup.frontends {
        Step::InstallFrontend(k as usize)
    } else {
        Step::ClearAfter { ok: true }
    }
}

/// The step that follows.
pub open spec fn next_step(setup: Setup, step: Step, outcome: Outcome) -> Step {
    let done = outcome == Outcome::Done;
    match step {
        Step::Lock => if done {
            Step::ClearBefore
        } else {
            Step::Finished { ok: false }
        },
        Step::ClearBefore => Step::MakeStaging,
        Step::MakeStaging => if !done {
            Step::Finished { ok: false }
        } else if setup.mode == Mode::Update {
            Step::ListFrontends
        } else {
            Step::CreateArchive
        },
        Step::ListFrontends => Step::CreateArchive,
        Step::CreateArchive => if done {
            Step::Download
        } else {
            Step::ClearAfter { ok: false }
        },
        Step::Download => if done {
            Step::Extract
        } else {
            Step::ClearAfter { ok: false }
        },
        Step::Extract => if !done {
            Step::ClearAfter { ok: false }
        } else if setup.mode == Mode::Update {
            Step::FindPrimary
        } else {
            payload_at(setup, 0)
        },
        Step::FindPrimary => if done {
            binary_at(setup, 0)
        } else {
            Step::ClearAfter { ok: false }
        },
        // An archive from before a binary existed carries none of it.
        Step::FindBinary(i) => if done {
            Step::Replace(i)
        } else {
            binary_at(setup, i + 1)
        },
        Step::Replace(i) => if !done {
            Step::ClearAfter { ok: false }
        } else if setup.os == Os::Unix {
            Step::MakeRunnable(i)
        } else {
            binary_at(setup, i + 1)
        },
        Step::MakeRunnable(i) => binary_at(setup, i + 1),
        Step::RefreshAliases => payload_at(setup, 0),
        Step::FindPayload(k) => if done {
            install_at(setup, 0)
        } else {
            payload_at(setup, k + 1)
        },
        // One frontend that cannot be installed does not skip the rest.
        Step::InstallFrontend(k) => install_at(setup, k + 1),
        Step::ClearAfter { ok } => if ok && setup.mode == Mode::Update {
            Step::Record
        } else {
            Step::Finished { ok }
        },
        Step::Record => Step::Finished { ok: true },
        Step::Finished { ok } => Step::Finished { ok },
    }
}

/// Why the job fails where `outcome` at `step` makes it fail, and nothing where
/// it does not.
pub open spec fn failure(
    project: Project,
    setup: Setup,
    version: Seq<char>,
    step: Step,
    outcome: Outcome,
    place: Seq<char>,
    cause: Seq<char>,
) -> Option<Seq<char>> {
    let done = outcome == Outcome::Done;
    match step {
        Step::Lock => match outcome {
            Outcome::Done => None,
            Outcome::Busy => Some("an update is already running"@),
            Outcome::Failed => Some("cannot open the update lock "@ + place + ": "@ + cause),
            Outcome::Refused => Some("failed to acquire the update lock: "@ + cause),
        },
        Step::MakeStaging if !done => Some("cannot create staging dir "@ + place + ": "@ + cause),
        Step::CreateArchive if !done => Some("cannot create "@ + place + ": "@ + cause),
        Step::Download if !done => Some("download failed: "@ + cause),
        Step::Extract if !done => Some("extract failed: "@ + cause),
        Step::FindPrimary if !done => Some(
            "release archive has no "@ + project.primary_name() + " - refusing a partial update"@,
        ),
        Step::Replace(_) if !done => Some("failed to replace "@ + place + ": "@ + cause),
        _ => if ships_no_payload(setup, step, done) {
            Some("release v"@ + release::untagged(version) + " ships no frontend payloads"@)
        } else {
            None
        },
    }
}

/// Whether the answer at `step` shows that the archive carries a payload for
/// none of the frontends that were asked for.
pub open spec fn ships_no_payload(setup: Setup, step: Step, done: bool) -> bool {
    setup.mode == Mode::Frontends && match step {
        Step::Extract => done && setup.frontends == 0,
        Step::FindPayload(k) => !done && k + 1 >= setup.frontends,
        _ => false,
    }
}

/// Whether `r` is what a job asks for next, at the time `now_ms`.
pub open spec fn is_asked(job: Job, now_ms: i64, r: Action) -> bool {
    match job.step {
        Step::Lock => r is Lock,
        Step::ClearBefore => r is ClearStaging,
        Step::MakeStaging => r is MakeStaging,
        Step::ListFrontends => r is ListFrontends,
        Step::CreateArchive => r matches Action::CreateArchive(name) && name@
            == job.asset.name@,
        Step::Download => r matches Action::Download(asset) && release::same_asset(
            asset,
            job.asset,
        ),
        Step::Extract => r matches Action::Extract(name, kind) && name@ == job.asset.name@
            && kind == release::kind_of(job.os),
        Step::FindPrimary => r == Action::LookFor(job.project.binaries@[0]),
        Step::FindBinary(i) => r == Action::LookFor(job.project.binaries@[i as int]),
        Step::Replace(i) => r == Action::Replace(job.project.binaries@[i as int]),
        Step::MakeRunnable(i) => r == Action::MakeRunnable(
            job.project.binaries@[i as int],
        ),
        Step::RefreshAliases => r is RefreshAliases,
        Step::FindPayload(k) => r == Action::LookForPayload(job.targets@[k as int]),
        Step::InstallFrontend(k) => r == Action::Install(job.targets@[k as int]),
        Step::ClearAfter { ok: _ } => r is ClearStaging,
        Step::Record => r matches Action::Record(status) && status@ == update::applied(
            job.version@,
            now_ms,
        ),
        Step::Finished { ok: _ } => r is Stop,
    }
}

/// Whether `r` is how a job ended, if it did.
pub open spec fn is_ended(job: Job, r: Option<Result<Applied, String>>) -> bool {
    match job.step {
        Step::Finished { ok: true } => {
            &&& r matches Some(Ok(a))
            &&& a.version == job.version
            &&& a.frontends == job.outcomes
            &&& !a.installer_launched
        },
        Step::Finished { ok: false } => r matches Some(Err(e)) && e@ == job.error@,
        _ => r is None,
    }
}

/// What answering a job's action with `reply` makes of it.
pub open spec fn answered(before: Job, reply: Reply, after: Job) -> bool {
    &&& after.project == before.project
    &&& after.mode == before.mode
    &&& after.os == before.os
    &&& after.env == before.env
    &&& after.version == before.version
    &&& after.asset == before.asset
    &&& after.step == next_step(before.setup(), before.step, reply.outcome())
    &&& match (before.step, reply) {
        (Step::ListFrontends, Reply::Present(dirs)) => frontend::targets(after.targets@)
            == frontend::present(before.project.frontends@, before.env, dirs@),
        _ => after.targets@ == before.targets@,
    }
    &&& match before.step {
        Step::InstallFrontend(k) => {
            &&& after.outcomes@.len() == before.outcomes@.len() + 1
            &&& after.outcomes@.drop_last() == before.outcomes@
            &&& reports(
                after.outcomes@.last(),
                *before.targets@[k as int],
                reply.version(),
                reply.error(),
            )
        },
        _ => after.outcomes@ == before.outcomes@,
    }
    &&& after.error@ == match failure(
        before.project,
        before.setup(),
        before.version@,
        before.step,
        reply.outcome(),
        reply.place(),
        reply.cause(),
    ) {
        Some(e) => e,
        None => before.error@,
    }
}

/// One release being applied.
#[derive(Debug, Clone)]
pub struct Job {
    pub project: Project,
    pub mode: Mode,
    pub os: Os,
    pub env: Environment,
    /// The version of the release, or the one that was asked for.
    pub version: String,
    /// The archive of the release.
    pub asset: ReleaseAsset,
    /// The frontends the job is about.
    pub targets: Vec<&'static Frontend>,
    pub step: Step,
    /// What happened to each frontend so far.
    pub outcomes: Vec<FrontendOutcome>,
    /// Why it failed, once it has.
    pub error: String,
}

/// Start replacing the installed binaries with those of the release `version`,
/// which is newer than what is installed, from the archive `asset`.
pub fn apply(
    project: &Project,
    os: Os,
    env: &Environment,
    version: &str,
    asset: ReleaseAsset,
) -> (r: Job)
    requires
        project.ships(),
    ensures
        r.project == *project,
        r.mode == Mode::Update,
        r.os == os,
        r.env == *env,
        r.version@ == version@,
        r.asset == asset,
        r.targets@.len() == 0,
        r.step == Step::Lock,
        r.outcomes@.len() == 0,
        r.error@ == Seq::<char>::empty(),
        r.wf(),
{
    Job {
        project: *project,
        mode: Mode::Update,
        os,
        env: *env,
        version: version.to_owned(),
        asset,
        targets: Vec::new(),
        step: Step::Lock,
        outcomes: Vec::new(),
        error: String::new(),
    }
}

/// Start installing some frontends from the release of `version`, whether or not
/// they are already present. This is the "switched desktops" path: the payload
/// always comes from the release the running binary belongs to, so the frontend
/// cannot land out of step with it.
///
/// One lock, one download, one extraction for the whole set: installing three
/// frontends must not fetch the archive three times.
pub fn install_frontends(
    project: &Project,
    os: Os,
    env: &Environment,
    targets: Vec<&'static Frontend>,
    version: &str,
    asset: ReleaseAsset,
) -> (r: Job)
    requires
        project.ships(),
    ensures
        r.project == *project,
        r.mode == Mode::Frontends,
        r.os == os,
        r.env == *env,
        r.version@ == version@,
        r.asset == asset,
        r.targets@ == targets@,
        r.step == Step::Lock,
        r.outcomes@.len() == 0,
        r.error@ == Seq::<char>::empty(),
        r.wf(),
{
    Job {
        project: *project,
        mode: Mode::Frontends,
        os,
        env: *env,
        version: version.to_owned(),
        asset,
        targets,
        step: Step::Lock,
        outcomes: Vec::new(),
        error: String::new(),
    }
}

impl Job {
    /// The setup the steps go by.
    pub open spec fn setup(self) -> Setup {
        Setup {
            mode: self.mode,
            os: self.os,
            binaries: self.project.binaries@.len() as usize,
            frontends: self.targets@.len() as usize,
        }
    }

    /// Whether the job is one that can be under way: its step is one of the
    /// project's, and there is an outcome for each frontend already dealt with,
    /// in their order. Once it is over there is one for each or for none.
    pub open spec fn wf(self) -> bool {
        &&& self.project.ships()
        &&& forall|k: int|
            0 <= k < self.outcomes@.len() && k < self.targets@.len() ==> is_about(
                #[trigger] self.outcomes@[k],
                *self.targets@[k],
            )
        &&& match self.step {
            Step::FindBinary(i) | Step::Replace(i) | Step::MakeRunnable(i) => {
                &&& i < self.project.binaries@.len()
                &&& self.outcomes@.len() == 0
            },
            Step::FindPayload(k) => k < self.targets@.len() && self.outcomes@.len() == 0,
            Step::InstallFrontend(k) => k < self.targets@.len() && self.outcomes@.len() == k,
            Step::ClearAfter { ok: _ } | Step::Record | Step::Finished { ok: _ } => {
                self.outcomes@.len() == 0 || self.outcomes@.len() == self.targets@.len()
            },
            _ => self.outcomes@.len() == 0,
        }
    }

    /// What to do next, at the time `now_ms`.
    pub fn action(&self, now_ms: i64) -> (r: Action)
        requires
            self.wf(),
        ensures
            is_asked(*self, now_ms, r),
    {
        match self.step {
            Step::Lock => Action::Lock,
            Step::ClearBefore => Action::ClearStaging,
            Step::MakeStaging => Action::MakeStaging,
            Step::ListFrontends => Action::ListFrontends,
            Step::CreateArchive => Action::CreateArchive(self.asset.name.clone()),
            Step::Download => Action::Download(self.asset.again()),
            Step::Extract => Action::Extract(
                self.asset.name.clone(),
                release::archive_kind(self.os),
            ),
            Step::FindPrimary => Action::LookFor(self.project.binaries[0]),
            Step::FindBinary(i) => Action::LookFor(self.project.binaries[i]),
            Step::Replace(i) => Action::Replace(self.project.binaries[i]),
            Step::MakeRunnable(i) => Action::MakeRunnable(self.project.binaries[i]),
            Step::RefreshAliases => Action::RefreshAliases,
            Step::FindPayload(k) => Action::LookForPayload(self.targets[k]),
            Step::InstallFrontend(k) => Action::Install(self.targets[k]),
            Step::ClearAfter { ok: _ } => Action::ClearStaging,
            Step::Record => Action::Record(
                update::applied_status(self.version.as_str(), now_ms),
            ),
            Step::Finished { ok: _ } => Action::Stop,
        }
    }

    /// The step at which the binary at place `i` is dealt with.
    fn to_binary(&self, i: usize) -> (r: Step)
        ensures
            r == binary_at(self.setup(), i as int),
    {
        if i < self.project.binaries.len() {
            Step::FindBinary(i)
        } else {
            Step::RefreshAliases
        }
    }

    /// The step at which the frontend at place `k` is installed.
    fn to_install(&self, k: usize) -> (r: Step)
        ensures
            r == install_at(self.setup(), k as int),
    {
        if k < self.targets.len() {
            Step::InstallFrontend(k)
        } else {
            Step::ClearAfter { ok: true }
        }
    }

    /// The step at which the payload of the frontend at place `k` is looked for,
    /// and why the job fails if there is none left to look for.
    fn to_payload(&self, k: usize) -> (r: (Step, Option<String>))
        ensures
            r.0 == payload_at(self.setup(), k as int),
            text::text_of(r.1) == if self.mode == Mode::Frontends && k >= self.targets@.len() {
                Some("release v"@ + release::untagged(self.version@) + " ships no frontend payloads"@)
            } else {
                None
            },
    {
        if k < self.targets.len() {
            (Step::FindPayload(k), None)
        } else if self.mode == Mode::Update {
            (Step::ClearAfter { ok: true }, None)
        } else {
            let e = text::cat3(
                "release v",
                text::stripped_start(self.version.as_str(), Class::SmallV),
                " ships no frontend payloads",
            );
            (Step::ClearAfter { ok: false }, Some(e))
        }
    }

    /// The step that follows, and why the job fails if it now does.
    fn follow(&self, outcome: Outcome, place: &str, cause: &str) -> (r: (Step, Option<String>))
        requires
            self.wf(),
        ensures
            r.0 == next_step(self.setup(), self.step, outcome),
            text::text_of(r.1) == failure(
                self.project,
                self.setup(),
                self.version@,
                self.step,
                outcome,
                place@,
                cause@,
            ),
    {
        let done = outcome == Outcome::Done;
        assert(self.project.binaries.len() == self.project.binaries@.len());
        assert(self.targets.len() == self.targets@.len());
        match self.step {
            Step::Lock => match outcome {
                Outcome::Done => (Step::ClearBefore, None),
                Outcome::Busy => {
                    let e = "an update is already running".to_owned();
                    (Step::Finished { ok: false }, Some(e))
                },
                Outcome::Failed => {
                    let e = text::cat3("cannot open the update lock ", place, ": ").concat(cause);
                    (Step::Finished { ok: false }, Some(e))
                },
                Outcome::Refused => {
                    let e = text::cat2("failed to acquire the update lock: ", cause);
                    (Step::Finished { ok: false }, Some(e))
                },
            },
            Step::ClearBefore => (Step::MakeStaging, None),
            Step::MakeStaging => if !done {
                let e = text::cat3("cannot create staging dir ", place, ": ").concat(cause);
                (Step::Finished { ok: false }, Some(e))
            } else if self.mode == Mode::Update {
                (Step::ListFrontends, None)
            } else {
                (Step::CreateArchive, None)
            },
            Step::ListFrontends => (Step::CreateArchive, None),
            Step::CreateArchive => if done {
                (Step::Download, None)
            } else {
                let e = text::cat3("cannot create ", place, ": ").concat(cause);
                (Step::ClearAfter { ok: false }, Some(e))
            },
            Step::Download => if done {
                (Step::Extract, None)
            } else {
                (Step::ClearAfter { ok: false }, Some(text::cat2("download failed: ", cause)))
            },
            Step::Extract => if !done {
                (Step::ClearAfter { ok: false }, Some(text::cat2("extract failed: ", cause)))
            } else if self.mode == Mode::Update {
                (Step::FindPrimary, None)
            } else {
                self.to_payload(0)
            },
            Step::FindPrimary => if done {
                (self.to_binary(0), None)
            } else {
                let e = text::cat3(
                    "release archive has no ",
                    self.project.primary(),
                    " - refusing a partial update",
                );
                (Step::ClearAfter { ok: false }, Some(e))
            },
            Step::FindBinary(i) => if done {
                (Step::Replace(i), None)
            } else {
                (self.to_binary(i + 1), None)
            },
            Step::Replace(i) => if !done {
                let e = text::cat3("failed to replace ", place, ": ").concat(cause);
                (Step::ClearAfter { ok: false }, Some(e))
            } else if self.os == Os::Unix {
                (Step::MakeRunnable(i), None)
            } else {
                (self.to_binary(i + 1), None)
            },
            Step::MakeRunnable(i) => (self.to_binary(i + 1), None),
            Step::RefreshAliases => {
                let (step, _) = self.to_payload(0);
                (step, None)
            },
            Step::FindPayload(k) => if done {
                (self.to_install(0), None)
            } else {
                self.to_payload(k + 1)
            },
            Step::InstallFrontend(k) => (self.to_install(k + 1), None),
            Step::ClearAfter { ok } => if ok && self.mode == Mode::Update {
                (Step::Record, None)
            } else {
                (Step::Finished { ok }, None)
            },
            Step::Record => (Step::Finished { ok: true }, None),
            Step::Finished { ok } => (Step::Finished { ok }, None),
        }
    }

    /// Take the answer to [`action`](Job::action).
    pub fn answer(&mut self, reply: Reply)
        requires
            old(self).wf(),
        ensures
            final(self).wf(),
            answered(*old(self), reply, *final(self)),
    {
        let (outcome, place, cause) = match &reply {
            Reply::Failed { place, cause } => (Outcome::Failed, place.as_str(), cause.as_str()),
            Reply::Refused { cause } => (Outcome::Refused, "", cause.as_str()),
            Reply::Busy => (Outcome::Busy, "", ""),
            _ => (Outcome::Done, "", ""),
        };
        proof {
            reveal_strlit("");
            assert(place@ =~= reply.place());
            assert(cause@ =~= reply.cause());
        }
        let (step, error) = self.follow(outcome, place, cause);
        assert(self.project.binaries.len() == self.project.binaries@.len());
        assert(self.targets.len() == self.targets@.len());
        match error {
            Some(e) => {
                self.error = e;
            },
            None => {},
        }
        match self.step {
            Step::ListFrontends => match &reply {
                Reply::Present(dirs) => {
                    self.targets = frontend::installed(&self.project, &self.env, dirs);
                },
                _ => {},
            },
            Step::InstallFrontend(k) => {
                let ghost before = self.outcomes@;
                self.outcomes.push(report(self.targets[k], reply));
                assert(self.outcomes@.drop_last() =~= before);
                assert forall|j: int|
                    0 <= j < self.outcomes@.len() && j < self.targets@.len() implies is_about(
                    #[trigger] self.outcomes@[j],
                    *self.targets@[j],
                ) by {
                    if j < k {
                        assert(self.outcomes@[j] == before[j]);
                    }
                }
            },
            _ => {},
        }
        self.step = step;
    }

    /// Once the job is over, what it did, or why it failed.
    pub fn finish(self) -> (r: Option<Result<Applied, String>>)
        ensures
            is_ended(self, r),
    {
        match self.step {
            Step::Finished { ok } => if ok {
                Some(
                    Ok(
                        Applied {
                            version: self.version,
                            frontends: self.outcomes,
                            installer_launched: false,
                        },
                    ),
                )
            } else {
                Some(Err(self.error))
            },
            _ => None,
        }
    }
}

} // verus!
