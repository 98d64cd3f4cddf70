//! Replacing an installed frontend with the payload of an archive.
//!
//! The copy is staged beside its destination, so the final move is a rename on
//! the same file system, and the old install is moved aside rather than deleted,
//! so a rename that fails leaves something on disk. This module decides what to
//! do next and what the outcome means; whoever drives it owns the disk.

use vstd::prelude::*;

use crate::frontend::Frontend;
use crate::text;

verus! {

/// The directories an install works on, side by side.
#[derive(Debug, Clone, Copy, PartialEq, Eq, Structural)]
pub enum Slot {
    /// The new copy, until it is moved into place.
    Staged,
    /// The old install, once it is moved aside.
    Retired,
    /// Where the desktop looks.
    Dest,
}

/// Where the payload comes from.
#[derive(Debug, Clone, Copy, PartialEq, Eq, Structural)]
pub enum Origin {
    Archived,
    Checkout,
}

/// What an install is waiting for.
#[derive(Debug, Clone, Copy, PartialEq, Eq, Structural)]
pub enum Step {
    FindArchived,
    FindCheckout,
    MakeParent(Origin),
    ClearStaged(Origin),
    Copy(Origin),
    FindSchemas,
    Compile,
    ClearRetired,
    FindOld,
    Retire,
    Promote { had_old: bool },
    Restore,
    /// The staged copy of an install that failed is taken away.
    Discard,
    /// The old install of one that succeeded is taken away.
    DropOld,
    Finished { installed: bool },
}

/// What to do next.
#[derive(Debug, Clone, Copy, PartialEq, Eq, Structural)]
pub enum Action {
    /// Is the payload a directory there?
    LookFor(Origin),
    /// Create the directory that the destination is in, and those above it.
    MakeParent,
    /// Remove a directory and all in it.
    Clear(Slot),
    /// Copy the payload into [`Slot::Staged`], as [`crate::copy`] says.
    Copy(Origin),
    /// Does the staged copy have a `schemas` directory?
    LookForSchemas,
    /// Run `glib-compile-schemas` on that directory.
    Compile,
    /// Is there anything at the destination?
    LookForOld,
    /// Rename the first to the second.
    Rename(Slot, Slot),
    /// Nothing: the install is over.
    Stop,
}

/// How an action went.
#[derive(Debug, Clone, Copy, PartialEq, Eq, Structural)]
pub enum Outcome {
    /// It succeeded, or the answer is yes.
    Done,
    /// It failed, or the answer is no.
    Failed,
    /// The schema compiler ran and reported failure.
    Refused,
}

/// How an action went, with what there is to say about a failure.
#[derive(Debug, Clone, PartialEq, Eq)]
pub enum Reply {
    Done,
    Failed(String),
    Refused(String),
}

impl Reply {
    /// The outcome that is replied.
    pub open spec fn outcome(self) -> Outcome {
        match self {
            Reply::Done => Outcome::Done,
            Reply::Failed(_) => Outcome::Failed,
            Reply::Refused(_) => Outcome::Refused,
        }
    }

    /// What there is to say about it.
    pub open spec fn cause(self) -> Seq<char> {
        match self {
            Reply::Done => seq![],
            Reply::Failed(c) => c@,
            Reply::Refused(c) => c@,
        }
    }

    /// The outcome and what there is to say about it.
    fn split(self) -> (r: (Outcome, String))
        ensures
            r.0 == self.outcome(),
            r.1@ == self.cause(),
    {
        match self {
            Reply::Done => (Outcome::Done, String::new()),
            Reply::Failed(c) => (Outcome::Failed, c),
            Reply::Refused(c) => (Outcome::Refused, c),
        }
    }
}

/// The places an install works on, as they are shown to a user, and the name
/// its other directories are built from.
#[derive(Debug, Clone, PartialEq, Eq)]
pub struct Target {
    /// The archive root or checkout.
    pub source_root: String,
    /// The directory the destination is in, if it is in one.
    pub parent: Option<String>,
    pub dest: String,
    /// The destination's own name, if it has one that is text.
    pub name: Option<String>,
    pub staged: String,
    /// The `schemas` directory of the staged copy.
    pub schemas: String,
}

/// What decides which steps an install takes.
#[derive(Debug, Clone, Copy, PartialEq, Eq, Structural)]
pub struct Setup {
    /// The frontend ships GSettings schemas.
    pub schemas: bool,
    /// The destination is in a directory.
    pub parent: bool,
    /// The destination has a name to build others from.
    pub named: bool,
}

/// The setup of installing `frontend` at `target`.
pub open spec fn setup_of(frontend: Frontend, target: Target) -> Setup {
    Setup {
        schemas: frontend.gsettings_schemas,
        parent: target.parent is Some,
        named: target.name is Some,
    }
}

/// The name a copy is staged under: hidden, so a half-written copy is not picked
/// up by what scans these directories, and built from the whole directory name,
/// since every artifact id contains dots.
pub open spec fn staged_of(name: Seq<char>) -> Seq<char> {
    "."@ + name + ".tg-new"@
}

/// The name an old install is moved aside to.
pub open spec fn retired_of(name: Seq<char>) -> Seq<char> {
    "."@ + name + ".tg-old"@
}

/// The name a copy is staged under.
pub fn staged_name(name: &str) -> (r: String)
    ensures
        r@ == staged_of(name@),
{
    text::cat3(".", name, ".tg-new")
}

/// The name an old install is moved aside to.
pub fn retired_name(name: &str) -> (r: String)
    ensures
        r@ == retired_of(name@),
{
    text::cat3(".", name, ".tg-old")
}

/// The first step once the parent directory is there: an unnamed destination is
/// given up.
pub open spec fn once_parented(origin: Origin, setup: Setup) -> Step {
    if setup.named {
        Step::ClearStaged(origin)
    } else {
        Step::Finished { installed: false }
    }
}

/// The first step once the payload is found.
pub open spec fn once_found(origin: Origin, setup: Setup) -> Step {
    if setup.parent {
        Step::MakeParent(origin)
    } else {
        once_parented(origin, setup)
    }
}

/// The step that follows.
pub open spec fn next_step(step: Step, outcome: Outcome, setup: Setup) -> Step {
    let done = outcome == Outcome::Done;
    match step {
        Step::FindArchived => if done {
            once_found(Origin::Archived, setup)
        } else {
            Step::FindCheckout
        },
        Step::FindCheckout => if done {
            once_found(Origin::Checkout, setup)
        } else {
            Step::Finished { installed: false }
        },
        Step::MakeParent(origin) => if done {
            once_parented(origin, setup)
        } else {
            Step::Finished { installed: false }
        },
        Step::ClearStaged(origin) => Step::Copy(origin),
        Step::Copy(_) => if !done {
            Step::Discard
        } else if setup.schemas {
            Step::FindSchemas
        } else {
            Step::ClearRetired
        },
        Step::FindSchemas => if done {
            Step::Compile
        } else {
            Step::Discard
        },
        Step::Compile => if done {
            Step::ClearRetired
        } else {
            Step::Discard
        },
        Step::ClearRetired => Step::FindOld,
        Step::FindOld => if done {
            Step::Retire
        } else {
            Step::Promote { had_old: false }
        },
        Step::Retire => Step::Promote { had_old: done },
        Step::Promote { had_old } => if done {
            Step::DropOld
        } else if had_old {
            Step::Restore
        } else {
            Step::Discard
        },
        Step::Restore => Step::Discard,
        Step::Discard => Step::Finished { installed: false },
        Step::DropOld => Step::Finished { installed: true },
        Step::Finished { installed } => Step::Finished { installed },
    }
}

/// The action that a step waits for.
pub open spec fn action_of(step: Step) -> Action {
    match step {
        Step::FindArchived => Action::LookFor(Origin::Archived),
        Step::FindCheckout => Action::LookFor(Origin::Checkout),
        Step::MakeParent(_) => Action::MakeParent,
        Step::ClearStaged(_) => Action::Clear(Slot::Staged),
        Step::Copy(origin) => Action::Copy(origin),
        Step::FindSchemas => Action::LookForSchemas,
        Step::Compile => Action::Compile,
        Step::ClearRetired => Action::Clear(Slot::Retired),
        Step::FindOld => Action::LookForOld,
        Step::Retire => Action::Rename(Slot::Dest, Slot::Retired),
        Step::Promote { had_old: _ } => Action::Rename(Slot::Staged, Slot::Dest),
        Step::Restore => Action::Rename(Slot::Retired, Slot::Dest),
        Step::Discard => Action::Clear(Slot::Staged),
        Step::DropOld => Action::Clear(Slot::Retired),
        Step::Finished { installed: _ } => Action::Stop,
    }
}

/// Why the install fails where `outcome` at `step` makes it fail, and nothing
/// where it does not.
pub open spec fn failure(
    step: Step,
    outcome: Outcome,
    cause: Seq<char>,
    frontend: Frontend,
    target: Target,
) -> Option<Seq<char>> {
    let done = outcome == Outcome::Done;
    let unnamed = "cannot name a staging dir for "@ + target.dest@;
    match step {
        Step::FindArchived if done && target.parent is None && target.name is None => Some(unnamed),
        Step::FindCheckout => if !done {
            Some(frontend.label@ + " payload not found under "@ + target.source_root@)
        } else if target.parent is None && target.name is None {
            Some(unnamed)
        } else {
            None
        },
        Step::MakeParent(_) => if !done {
            Some("cannot create "@ + parent_text(target) + ": "@ + cause)
        } else if target.name is None {
            Some(unnamed)
        } else {
            None
        },
        Step::Copy(_) if !done => Some(
            "cannot stage "@ + frontend.label@ + " into "@ + target.staged@ + ": "@ + cause,
        ),
        Step::FindSchemas if !done => Some(
            frontend.label@ + " ships GSettings schemas but "@ + target.staged@ + " has none"@,
        ),
        Step::Compile => match outcome {
            Outcome::Done => None,
            Outcome::Failed => Some(
                "cannot run glib-compile-schemas, which "@ + frontend.label@
                    + " needs - install the glib2 tools (Debian/Ubuntu: libglib2.0-bin): "@ + cause,
            ),
            Outcome::Refused => Some(
                "glib-compile-schemas failed on "@ + target.schemas@ + ": "@ + text::trim(cause),
            ),
        },
        Step::Promote { had_old: _ } if !done => Some(
            "cannot move "@ + frontend.label@ + " into place: "@ + cause,
        ),
        _ => None,
    }
}

/// The directory the destination is in, as it is shown.
pub open spec fn parent_text(target: Target) -> Seq<char> {
    match target.parent {
        Some(p) => p@,
        None => seq![],
    }
}

/// What answering an install's action with `reply` makes of it.
pub open spec fn answered(before: Install, reply: Reply, after: Install) -> bool {
    &&& after.frontend == before.frontend
    &&& after.target == before.target
    &&& after.step == next_step(before.step, reply.outcome(), before.setup())
    &&& after.error@ == match failure(
        before.step,
        reply.outcome(),
        reply.cause(),
        before.frontend,
        before.target,
    ) {
        Some(e) => e,
        None => before.error@,
    }
}

/// One frontend being installed.
#[derive(Debug, Clone)]
pub struct Install {
    pub frontend: Frontend,
    pub target: Target,
    pub step: Step,
    /// Why it failed, once it has.
    pub error: String,
}

impl Frontend {
    /// Start replacing whatever is at the destination with this frontend's
    /// payload.
    pub fn install_into(&self, target: Target) -> (r: Install)
        ensures
            r.frontend == *self,
            r.target == target,
            r.step == Step::FindArchived,
            r.error@ == Seq::<char>::empty(),
    {
        Install { frontend: *self, target, step: Step::FindArchived, error: String::new() }
    }
}

impl Install {
    /// The setup the steps go by.
    pub open spec fn setup(self) -> Setup {
        setup_of(self.frontend, self.target)
    }

    /// What to do next.
    pub fn action(&self) -> (r: Action)
        ensures
            r == action_of(self.step),
    {
        match self.step {
            Step::FindArchived => Action::LookFor(Origin::Archived),
            Step::FindCheckout => Action::LookFor(Origin::Checkout),
            Step::MakeParent(_) => Action::MakeParent,
            Step::ClearStaged(_) => Action::Clear(Slot::Staged),
            Step::Copy(origin) => Action::Copy(origin),
            Step::FindSchemas => Action::LookForSchemas,
            Step::Compile => Action::Compile,
            Step::ClearRetired => Action::Clear(Slot::Retired),
            Step::FindOld => Action::LookForOld,
            Step::Retire => Action::Rename(Slot::Dest, Slot::Retired),
            Step::Promote { had_old: _ } => Action::Rename(Slot::Staged, Slot::Dest),
            Step::Restore => Action::Rename(Slot::Retired, Slot::Dest),
            Step::Discard => Action::Clear(Slot::Staged),
            Step::DropOld => Action::Clear(Slot::Retired),
            Step::Finished { installed: _ } => Action::Stop,
        }
    }

    /// Once it is over, whether it succeeded, and if not why.
    pub fn result(&self) -> (r: Option<Result<(), String>>)
        ensures
            match self.step {
                Step::Finished { installed: true } => r == Some(Ok::<(), String>(())),
                Step::Finished { installed: false } => r matches Some(Err(e)) && e@ == self.error@,
                _ => r is None,
            },
    {
        match self.step {
            Step::Finished { installed } => if installed {
                Some(Ok(()))
            } else {
                Some(Err(self.error.clone()))
            },
            _ => None,
        }
    }

    /// The first step once the parent directory is there.
    fn parented(&self, origin: Origin) -> (r: (Step, Option<String>))
        ensures
            r.0 == once_parented(origin, self.setup()),
            r.1 is Some == (self.target.name is None),
            r.1 matches Some(e) ==> e@ == "cannot name a staging dir for "@ + self.target.dest@,
    {
        if self.target.name.is_some() {
            (Step::ClearStaged(origin), None)
        } else {
            let e = text::cat2("cannot name a staging dir for ", self.target.dest.as_str());
            (Step::Finished { installed: false }, Some(e))
        }
    }

    /// The first step once the payload is found.
    fn found(&self, origin: Origin) -> (r: (Step, Option<String>))
        ensures
            r.0 == once_found(origin, self.setup()),
            r.1 is Some == (self.target.parent is None && self.target.name is None),
            r.1 matches Some(e) ==> e@ == "cannot name a staging dir for "@ + self.target.dest@,
    {
        if self.target.parent.is_some() {
            (Step::MakeParent(origin), None)
        } else {
            self.parented(origin)
        }
    }

    /// The step that follows, and why the install fails if it now does.
    fn follow(&self, outcome: Outcome, cause: &str) -> (r: (Step, Option<String>))
        ensures
            r.0 == next_step(self.step, outcome, self.setup()),
            text::text_of(r.1) == failure(
                self.step,
                outcome,
                cause@,
                self.frontend,
                self.target,
            ),
    {
        let done = outcome == Outcome::Done;
        let label = self.frontend.label;
        match self.step {
            Step::FindArchived => if done {
                self.found(Origin::Archived)
            } else {
                (Step::FindCheckout, None)
            },
            Step::FindCheckout => if done {
                self.found(Origin::Checkout)
            } else {
                let e = text::cat3(
                    label,
                    " payload not found under ",
                    self.target.source_root.as_str(),
                );
                (Step::Finished { installed: false }, Some(e))
            },
            Step::MakeParent(origin) => if done {
                self.parented(origin)
            } else {
                let parent = match &self.target.parent {
                    Some(p) => p.as_str(),
                    None => "",
                };
                proof {
                    reveal_strlit("");
                    assert(parent@ =~= parent_text(self.target));
                }
                let e = text::cat3("cannot create ", parent, ": ").concat(cause);
                (Step::Finished { installed: false }, Some(e))
            },
            Step::ClearStaged(origin) => (Step::Copy(origin), None),
            Step::Copy(_) => if !done {
                let e = text::cat3("cannot stage ", label, " into ").concat(
                    self.target.staged.as_str(),
                ).concat(": ").concat(cause);
                (Step::Discard, Some(e))
            } else if self.frontend.gsettings_schemas {
                (Step::FindSchemas, None)
            } else {
                (Step::ClearRetired, None)
            },
            Step::FindSchemas => if done {
                (Step::Compile, None)
            } else {
                let e = text::cat3(
                    label,
                    " ships GSettings schemas but ",
                    self.target.staged.as_str(),
                ).concat(" has none");
                (Step::Discard, Some(e))
            },
            Step::Compile => match outcome {
                Outcome::Done => (Step::ClearRetired, None),
                Outcome::Failed => {
                    let e = text::cat3(
                        "cannot run glib-compile-schemas, which ",
                        label,
                        " needs - install the glib2 tools (Debian/Ubuntu: libglib2.0-bin): ",
                    ).concat(cause);
                    (Step::Discard, Some(e))
                },
                Outcome::Refused => {
                    let e = text::cat3(
                        "glib-compile-schemas failed on ",
                        self.target.schemas.as_str(),
                        ": ",
                    ).concat(text::trimmed(cause));
                    (Step::Discard, Some(e))
                },
            },
            Step::ClearRetired => (Step::FindOld, None),
            Step::FindOld => if done {
                (Step::Retire, None)
            } else {
                (Step::Promote { had_old: false }, None)
            },
            Step::Retire => (Step::Promote { had_old: done }, None),
            Step::Promote { had_old } => if done {
                (Step::DropOld, None)
            } else {
                let e = text::cat3("cannot move ", label, " into place: ").concat(cause);
                if had_old {
                    (Step::Restore, Some(e))
                } else {
                    (Step::Discard, Some(e))
                }
            },
            Step::Restore => (Step::Discard, None),
            Step::Discard => (Step::Finished { installed: false }, None),
            Step::DropOld => (Step::Finished { installed: true }, None),
            Step::Finished { installed } => (Step::Finished { installed }, None),
        }
    }

    /// Take the answer to [`action`](Install::action).
    pub fn answer(&mut self, reply: Reply)
        ensures
            answered(*old(self), reply, *final(self)),
    {
        let (outcome, cause) = reply.split();
        let (step, error) = self.follow(outcome, cause.as_str());
        self.step = step;
        match error {
            Some(e) => {
                self.error = e;
            },
            None => {},
        }
    }
}

} // verus!
