//! The one file a project writes for itself: what the last update check
//! found, so a panel drawing itself never waits on GitHub.

use vstd::prelude::*;

use crate::place::{Base, Environment, Location, Path, Variable};
use crate::project::Project;
use crate::text;

verus! {

/// What the last update check found, so a panel opened a minute later does not
/// pay for another round trip to GitHub.
#[derive(Debug, Clone, PartialEq, Eq)]
pub struct UpdateStatus {
    /// Currently-installed version (no leading `v`).
    pub current: String,
    /// Latest release seen on GitHub, if a check succeeded.
    pub latest: Option<String>,
    /// True when `latest` is newer than `current`.
    pub available: bool,
    /// Unix ms of the last successful check.
    pub checked_ms: i64,
    /// Version a desktop notification was last fired for, so an available
    /// update is announced once rather than on every check.
    pub notified: Option<String>,
}

/// A status in contracts.
pub struct Record {
    pub current: Seq<char>,
    pub latest: Option<Seq<char>>,
    pub available: bool,
    pub checked_ms: i64,
    pub notified: Option<Seq<char>>,
}

impl View for UpdateStatus {
    type V = Record;

    open spec fn view(&self) -> Record {
        Record {
            current: self.current@,
            latest: text::text_of(self.latest),
            available: self.available,
            checked_ms: self.checked_ms,
            notified: text::text_of(self.notified),
        }
    }
}

/// The status of a project that was never checked.
pub open spec fn unchecked() -> Record {
    Record { current: seq![], latest: None, available: false, checked_ms: 0, notified: None }
}

/// What a cache says: what it holds, and that nothing was checked where there is
/// none or it cannot be read.
pub open spec fn says(cached: Option<UpdateStatus>) -> Record {
    match cached {
        Some(s) => s@,
        None => unchecked(),
    }
}

impl Default for UpdateStatus {
    fn default() -> (r: Self)
        ensures
            r@ == unchecked(),
    {
        UpdateStatus {
            current: String::new(),
            latest: None,
            available: false,
            checked_ms: 0,
            notified: None,
        }
    }
}

/// What a cache says.
pub(crate) fn or_default(cached: Option<UpdateStatus>) -> (r: UpdateStatus)
    ensures
        r@ == says(cached),
{
    match cached {
        Some(s) => s,
        None => UpdateStatus::default(),
    }
}

/// Where a project caches: in a directory of its own name, below
/// `XDG_CACHE_HOME` where that is set and not empty, else below `.cache` in
/// whatever `HOME` holds.
pub open spec fn cache_path(project: Project, env: Environment) -> Path {
    if env.cache_home == Variable::Filled {
        (Base::CacheHome, seq![project.primary_name()])
    } else {
        let base = if env.home == Variable::Unset {
            Base::Nothing
        } else {
            Base::Home
        };
        (base, seq![".cache"@, project.primary_name()])
    }
}

/// The file that the last check is kept in.
pub open spec fn cache_file_path(project: Project, env: Environment) -> Path {
    let (base, parts) = cache_path(project, env);
    (base, parts.push("update.json"@))
}

/// Where a project caches.
pub fn cache_dir(project: &Project, env: &Environment) -> (r: Location)
    requires
        project.ships(),
    ensures
        r@ == cache_path(*project, *env),
{
    let r = if env.cache_home == Variable::Filled {
        Location::at(Base::CacheHome).join(project.primary())
    } else {
        let base = if env.home == Variable::Unset {
            Base::Nothing
        } else {
            Base::Home
        };
        Location::at(base).join(".cache").join(project.primary())
    };
    assert(r@.1 =~= cache_path(*project, *env).1);
    r
}

/// The file that the last check is kept in.
pub fn update_cache_file(project: &Project, env: &Environment) -> (r: Location)
    requires
        project.ships(),
    ensures
        r@ == cache_file_path(*project, *env),
{
    cache_dir(project, env).join("update.json")
}

/// The extension of the cache's lock, which stands beside the cache under the
/// same name. It is held across each read-modify-write of the cache, and across
/// nothing else, so none of them undoes another: see [`crate::cache_laws`].
pub const LOCK_EXTENSION: &'static str = "lock";

/// Projects with different primary binaries cache in different files, or one's
/// check would answer for the other.
pub proof fn projects_cache_apart(a: Project, b: Project, env: Environment)
    requires
        a.ships(),
        b.ships(),
        a.primary_name() != b.primary_name(),
    ensures
        cache_file_path(a, env) != cache_file_path(b, env),
{
    let x = cache_file_path(a, env).1;
    let y = cache_file_path(b, env).1;
    assert(x[x.len() - 2] == a.primary_name());
    assert(y[y.len() - 2] == b.primary_name());
}

/// The clock in Unix milliseconds: `since_epoch` is how many have passed since
/// 1970 began, or nothing where the clock is set before that.
pub fn now_ms(since_epoch: Option<u128>) -> (r: i64)
    ensures
        match since_epoch {
            Some(ms) => r == ms as i64,
            None => r == 0,
        },
        since_epoch matches Some(ms) ==> ms <= i64::MAX ==> r == ms,
{
    match since_epoch {
        Some(ms) => #[verifier::truncate] (ms as i64),
        None => 0,
    }
}

/// Whether there is a version to announce: one is on offer, and it is not the
/// one that was announced last.
pub open spec fn is_news(r: Record) -> bool {
    match r.latest {
        Some(latest) => latest.len() > 0 && r.available && r.notified != Some(latest),
        None => false,
    }
}

/// The status once its latest version is claimed for announcing.
pub open spec fn claimed(r: Record) -> Record {
    Record { notified: r.latest, ..r }
}

/// The status once an announcement of `latest` is given back. One that has moved
/// on to another version meanwhile is left as it is.
pub open spec fn released(r: Record, latest: Seq<char>) -> Record {
    if r.notified == Some(latest) {
        Record { notified: None, ..r }
    } else {
        r
    }
}

/// An announcement that is ours to make.
#[derive(Debug, Clone, PartialEq, Eq)]
pub struct Claim {
    pub latest: String,
    pub current: String,
    /// What the cache has to be rewritten with before it is made.
    pub status: UpdateStatus,
}

/// Whether `r` is the announcement that is there to make.
pub open spec fn is_claim(cached: Record, r: Option<Claim>) -> bool {
    match r {
        Some(claim) => {
            &&& is_news(cached)
            &&& cached.latest == Some(claim.latest@)
            &&& claim.current@ == cached.current
            &&& claim.status@ == claimed(cached)
        },
        None => !is_news(cached),
    }
}

/// Take the announcement, so two processes checking at once cannot both decide
/// it is theirs to make. The caller holds the cache's lock from reading `cached`
/// to writing back the status of the claim.
pub fn claim_announcement(cached: Option<UpdateStatus>) -> (r: Option<Claim>)
    ensures
        is_claim(says(cached), r),
{
    let status = or_default(cached);
    if !status.available {
        return None;
    }
    match &status.latest {
        Some(latest) => {
            if latest.as_str().is_empty() {
                return None;
            }
            match &status.notified {
                Some(notified) => if *notified == *latest {
                    return None;
                },
                None => {},
            }
            let latest = latest.clone();
            let current = status.current.clone();
            let status = UpdateStatus { notified: Some(latest.clone()), ..status };
            Some(Claim { latest, current, status })
        },
        None => None,
    }
}

/// Whether `r` is what the cache is to be rewritten with so that an announcement of
/// `latest` is given back.
pub open spec fn is_given_back(
    cached: Record,
    latest: Seq<char>,
    r: Option<UpdateStatus>,
) -> bool {
    match r {
        Some(status) => {
            &&& cached.notified == Some(latest)
            &&& status@ == released(cached, latest)
        },
        None => {
            &&& cached.notified != Some(latest)
            &&& released(cached, latest) == cached
        },
    }
}

/// Give an announcement back that was not made, so the next check tries again.
/// What comes back is what the cache has to be rewritten with, or nothing where
/// it is to be left alone. The caller holds the cache's lock meanwhile.
pub fn release_announcement(cached: Option<UpdateStatus>, latest: &str) -> (r: Option<UpdateStatus>)
    ensures
        is_given_back(says(cached), latest@, r),
{
    let status = or_default(cached);
    let ours = match &status.notified {
        Some(notified) => text::same(notified.as_str(), latest),
        None => false,
    };
    if ours {
        Some(UpdateStatus { notified: None, ..status })
    } else {
        None
    }
}

/// What announcing a version is waiting for.
#[derive(Debug, Clone, PartialEq, Eq)]
pub enum Announcing {
    /// The cache, read under its lock.
    Claim,
    /// The cache rewritten, under the lock it was read under. Until that has
    /// worked the announcement is nobody's to make.
    WriteClaim { latest: String, current: String },
    /// The announcement itself, outside the lock: a caller may draw something
    /// that waits on a person, and the file should not be held for that.
    Announce { latest: String, current: String },
    /// The cache again, read under its lock.
    Release { latest: String },
    /// The cache rewritten, under the lock it was read under.
    WriteRelease,
    /// Nothing. `announced` is whether the announcement happened.
    Over { announced: bool },
    /// Nothing: the cache could not be rewritten, for that reason.
    Failed { error: String },
}

/// What reading the cache makes of announcing, and what is to be written back.
pub open spec fn is_read(
    before: Announcing,
    cached: Record,
    r: Option<UpdateStatus>,
    after: Announcing,
) -> bool {
    match before {
        Announcing::Claim => if is_news(cached) {
            &&& r matches Some(s) && s@ == claimed(cached)
            &&& after matches Announcing::WriteClaim { latest, current }
            &&& Some(latest@) == cached.latest
            &&& current@ == cached.current
        } else {
            &&& r is None
            &&& after == (Announcing::Over { announced: false })
        },
        Announcing::Release { latest } => if cached.notified == Some(latest@) {
            &&& r matches Some(s) && s@ == released(cached, latest@)
            &&& after == Announcing::WriteRelease
        } else {
            &&& r is None
            &&& after == (Announcing::Over { announced: false })
        },
        _ => r is None && after == before,
    }
}

/// What having written the cache back, or not, makes of announcing.
pub open spec fn is_written(
    before: Announcing,
    reply: Result<(), String>,
    after: Announcing,
) -> bool {
    match (before, reply) {
        (Announcing::WriteClaim { latest, current }, Ok(_)) => {
            &&& after matches Announcing::Announce { latest: l, current: c }
            &&& l@ == latest@
            &&& c@ == current@
        },
        (Announcing::WriteRelease, Ok(_)) => after == (Announcing::Over {
            announced: false,
        }),
        (Announcing::WriteClaim { latest: _, current: _ }, Err(e)) => after == (
        Announcing::Failed { error: e }),
        (Announcing::WriteRelease, Err(e)) => after == (Announcing::Failed {
            error: e,
        }),
        _ => after == before,
    }
}

/// What having made the announcement, or not, makes of announcing.
pub open spec fn is_drawn(before: Announcing, happened: bool, after: Announcing) -> bool {
    match before {
        Announcing::Announce { latest, current: _ } => if happened {
            after == (Announcing::Over { announced: true })
        } else {
            after matches Announcing::Release { latest: given_back }
                && given_back@ == latest@
        },
        _ => after == before,
    }
}

impl Announcing {
    /// Take what the cache holds. What comes back is what to rewrite it with, if
    /// anything, before its lock is let go.
    pub fn cache_read(&mut self, cached: Option<UpdateStatus>) -> (r: Option<UpdateStatus>)
        ensures
            is_read(*old(self), says(cached), r, *final(self)),
    {
        match self {
            Announcing::Claim => match claim_announcement(cached) {
                Some(claim) => {
                    *self = Announcing::WriteClaim { latest: claim.latest, current: claim.current };
                    Some(claim.status)
                },
                None => {
                    *self = Announcing::Over { announced: false };
                    None
                },
            },
            Announcing::Release { latest } => {
                let r = release_announcement(cached, latest.as_str());
                *self = if r.is_some() {
                    Announcing::WriteRelease
                } else {
                    Announcing::Over { announced: false }
                };
                r
            },
            _ => None,
        }
    }

    /// Take whether the cache could be rewritten, and if not why. A claim that
    /// could not be written is not made, so nothing is announced.
    pub fn written(&mut self, reply: Result<(), String>)
        ensures
            is_written(*old(self), reply, *final(self)),
    {
        match self {
            Announcing::WriteClaim { latest, current } => {
                *self = match reply {
                    Ok(_) => Announcing::Announce {
                        latest: latest.clone(),
                        current: current.clone(),
                    },
                    Err(error) => Announcing::Failed { error },
                };
            },
            Announcing::WriteRelease => {
                *self = match reply {
                    Ok(_) => Announcing::Over { announced: false },
                    Err(error) => Announcing::Failed { error },
                };
            },
            _ => {},
        }
    }

    /// Once it is over, whether the announcement happened, or why the cache could
    /// not be rewritten.
    pub fn result(&self) -> (r: Option<Result<bool, String>>)
        ensures
            match *self {
                Announcing::Over { announced } => r == Some(Ok::<bool, String>(announced)),
                Announcing::Failed { error } => r matches Some(Err(e)) && e@ == error@,
                _ => r is None,
            },
    {
        match self {
            Announcing::Over { announced } => Some(Ok(*announced)),
            Announcing::Failed { error } => Some(Err(error.clone())),
            _ => None,
        }
    }

    /// Take whether the announcement actually happened.
    pub fn drawn(&mut self, happened: bool)
        ensures
            is_drawn(*old(self), happened, *final(self)),
    {
        match self {
            Announcing::Announce { latest, current: _ } => if happened {
                *self = Announcing::Over { announced: true };
            } else {
                *self = Announcing::Release { latest: latest.clone() };
            },
            _ => {},
        }
    }
}

/// Announce a version that has not been announced yet, once.
///
/// The announcement is made only when the cache says there is something new to
/// say, and one that did not happen puts the version back on offer, so the next
/// check tries again rather than marking it announced forever.
///
/// The reads and the write-backs are decided here because the file is this
/// crate's. A caller doing it for itself would be a third writer of a file a
/// check and an update already coordinate over: its write-back would carry the
/// `current` it was handed, so an update finishing in between would be undone on
/// paper and the panel would go on offering an update to the version already
/// installed.
pub fn announce_if_new() -> (r: Announcing)
    ensures
        r is Claim,
{
    Announcing::Claim
}

/// A version is announced once: what is claimed is no news to the next who
/// looks, and stays none for as long as the same version is the latest.
pub proof fn a_claim_is_made_once(r: Record, later: Record)
    requires
        is_news(r),
        later.latest == r.latest,
        later.notified == claimed(r).notified,
    ensures
        !is_news(claimed(r)),
        !is_news(later),
{
}

/// Claiming and giving back touch the `notified` field alone, so an update that
/// finishes while an announcement is drawn is not undone.
pub proof fn announcing_leaves_every_other_field(r: Record, latest: Seq<char>)
    ensures
        claimed(r) == (Record { notified: claimed(r).notified, ..r }),
        released(r, latest) == (Record { notified: released(r, latest).notified, ..r }),
{
}

/// An announcement that did not happen is offered again: a claim that is given
/// back is news once more.
pub proof fn a_refused_announcement_is_news_again(r: Record)
    requires
        is_news(r),
    ensures
        is_news(released(claimed(r), r.latest->0)),
        released(claimed(r), r.latest->0) == (Record { notified: None, ..r }),
{
}

/// Giving one version back does not clear the claim on another.
pub proof fn a_refusal_keeps_a_newer_claim(r: Record, refused: Seq<char>)
    requires
        r.notified != Some(refused),
    ensures
        released(r, refused) == r,
{
}

/// A version that was not announced is news, whatever was announced before it: it
/// is on offer and it is not the one that was announced last. Announced is what it
/// is, and nothing else of what the cache says decides.
pub proof fn what_was_not_announced_is_news(r: Record, v: Seq<char>, other: Seq<char>)
    requires
        r.available,
        r.latest == Some(v),
        v.len() > 0,
        other != v,
    ensures
        is_news(Record { notified: None, ..r }),
        is_news(Record { notified: Some(other), ..r }),
        !is_news(Record { notified: Some(v), ..r }),
        claimed(r).notified == Some(v),
{
}

/// There is no news where nothing is on offer: no version is known, or it is none
/// to speak of, or what is installed is as new.
pub proof fn nothing_on_offer_is_no_news(r: Record)
    ensures
        !is_news(Record { available: false, ..r }),
        !is_news(Record { latest: None, ..r }),
        !is_news(Record { latest: Some(seq![]), ..r }),
        !is_news(unchecked()),
{
}

/// Whether there is news depends on the version on offer and the one announced,
/// and not on what is installed or on when that was found out.
pub proof fn news_is_of_the_offer(r: Record, current: Seq<char>, ms: i64)
    ensures
        is_news(Record { current, checked_ms: ms, ..r }) == is_news(r),
{
}

/// Each version is announced in its turn: once one was claimed, a newer one that
/// comes to be on offer is news again, and is claimed in its place.
pub proof fn each_version_is_announced_in_its_turn(r: Record, next: Seq<char>)
    requires
        is_news(r),
        next.len() > 0,
        r.latest != Some(next),
    ensures
        is_news(Record { latest: Some(next), ..claimed(r) }),
        claimed(Record { latest: Some(next), ..claimed(r) }).notified == Some(next),
{
}

/// Giving a version back takes its announcement off the cache and leaves that of
/// any other.
pub proof fn only_what_was_announced_is_given_back(r: Record, v: Seq<char>, other: Seq<char>)
    requires
        v != other,
    ensures
        released(Record { notified: Some(v), ..r }, v).notified is None,
        released(Record { notified: Some(other), ..r }, v).notified == Some(other),
        released(Record { notified: None, ..r }, v).notified is None,
{
}

/// Wherever `XDG_CACHE_HOME` is set and not empty a project caches below it, in a
/// directory of its own name, whatever `HOME` is. Elsewhere it caches in `.cache`,
/// with an empty variable as good as none.
pub proof fn the_cache_home_is_where_caches_go(
    project: Project,
    env: Environment,
    other: Environment,
)
    requires
        project.ships(),
    ensures
        env.cache_home == Variable::Filled ==> cache_path(project, env) == (
            Base::CacheHome,
            seq![project.binaries@[0]@],
        ),
        env.cache_home != Variable::Filled ==> cache_path(project, env) == (
            if env.home == Variable::Unset {
                Base::Nothing
            } else {
                Base::Home
            },
            seq![".cache"@, project.binaries@[0]@],
        ),
        env.cache_home == other.cache_home && env.home == other.home ==> cache_path(project, env)
            == cache_path(project, other),
        cache_file_path(project, env).0 == cache_path(project, env).0,
        cache_file_path(project, env).1 == cache_path(project, env).1 + seq!["update.json"@],
{
    assert(cache_file_path(project, env).1 =~= cache_path(project, env).1 + seq!["update.json"@]);
}

/// A cache that holds a status says that status, and one that holds none says
/// that nothing was ever checked and nothing is on offer.
pub proof fn a_cache_says_what_it_holds(cached: UpdateStatus)
    ensures
        says(Some(cached)).current == cached.current@,
        says(Some(cached)).latest == text::text_of(cached.latest),
        says(Some(cached)).available == cached.available,
        says(Some(cached)).checked_ms == cached.checked_ms,
        says(Some(cached)).notified == text::text_of(cached.notified),
        says(None).latest is None,
        says(None).notified is None,
        !says(None).available,
        says(None).checked_ms == 0,
        says(None).current.len() == 0,
{
}

} // verus!
