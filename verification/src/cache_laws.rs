//! The cached status has several writers: checks, updates and announcements, of
//! any number of processes. None undoes what another wrote, since each reads and
//! rewrites the file under its lock.

use vstd::prelude::*;

use crate::state::{self, Record};
use crate::update;
use crate::version;

verus! {

/// One rewrite of the cache.
pub enum Edit {
    /// An announcement is claimed, if there is one to make.
    Claim,
    /// An announcement of that version that did not happen is given back.
    GiveBack { latest: Seq<char> },
    /// A check finds `latest`, having begun to ask when `since` edits had been
    /// made. `updated` is whether it counts an update recorded while it asked.
    Check { since: int, updated: bool, running: Seq<char>, latest: Seq<char>, now_ms: i64 },
    /// An update to that version is recorded.
    Apply { version: Seq<char>, now_ms: i64 },
}

/// What an edit makes of what the cache says: what
/// [`state::claim_announcement`], [`state::release_announcement`],
/// [`update::check`] and [`update::applied_status`] give to write, and what it
/// said where they give nothing.
pub open spec fn edited(r: Record, edit: Edit) -> Record {
    match edit {
        Edit::Claim => if state::is_news(r) {
            state::claimed(r)
        } else {
            r
        },
        Edit::GiveBack { latest } => state::released(r, latest),
        Edit::Check { since: _, updated, running, latest, now_ms } => update::checked(
            r,
            updated,
            running,
            latest,
            now_ms,
        ),
        Edit::Apply { version, now_ms } => update::applied(version, now_ms),
    }
}

/// What a process does to the cache.
pub enum Event {
    /// It takes the lock of the cache.
    Lock,
    /// It reads the cache.
    Read,
    /// It writes what an edit makes of what it read.
    Write(Edit),
    /// It lets the lock go.
    Unlock,
}

/// The cache, who holds its lock, and what each process has read of it and not
/// yet written back.
pub struct Cache {
    pub file: Record,
    pub holder: Option<int>,
    pub read: Map<int, Record>,
}

/// What the event of a process makes of the cache. The lock is taken only while
/// nobody holds it, and the cache is read and written only by who does: each
/// read-modify-write is one holding of the lock.
pub open spec fn happens(before: Cache, process: int, event: Event, after: Cache) -> bool {
    match event {
        Event::Lock => {
            &&& before.holder is None
            &&& after == (Cache { holder: Some(process), ..before })
        },
        Event::Read => {
            &&& before.holder == Some(process)
            &&& after == (Cache { read: before.read.insert(process, before.file), ..before })
        },
        Event::Write(edit) => {
            &&& before.holder == Some(process)
            &&& before.read.contains_key(process)
            &&& after == (Cache {
                file: edited(before.read[process], edit),
                read: before.read.remove(process),
                ..before
            })
        },
        Event::Unlock => {
            &&& before.holder == Some(process)
            &&& after == (Cache { holder: None, read: before.read.remove(process), ..before })
        },
    }
}

/// What happens to the cache over time, at the hands of any number of processes.
pub struct History {
    pub caches: Seq<Cache>,
    pub events: Seq<(int, Event)>,
}

impl History {
    /// Whether it starts with nobody at the cache and each event made of it what
    /// it makes of it.
    pub open spec fn is_history(self) -> bool {
        &&& self.caches.len() == self.events.len() + 1
        &&& self.caches[0].holder is None
        &&& self.caches[0].read == Map::<int, Record>::empty()
        &&& forall|i: int|
            #![trigger self.events[i]]
            0 <= i < self.events.len() ==> happens(
                self.caches[i],
                self.events[i].0,
                self.events[i].1,
                self.caches[i + 1],
            )
    }

    /// The edits among the first `n` events, in their order.
    pub open spec fn edits(self, n: int) -> Seq<Edit>
        decreases n,
    {
        if n <= 0 {
            seq![]
        } else {
            match self.events[n - 1].1 {
                Event::Write(edit) => self.edits(n - 1).push(edit),
                _ => self.edits(n - 1),
            }
        }
    }
}

/// What edits make of what the cache says, one after the other.
pub open spec fn edited_by(r: Record, edits: Seq<Edit>) -> Record
    decreases edits.len(),
{
    if edits.len() == 0 {
        r
    } else {
        edited(edited_by(r, edits.drop_last()), edits.last())
    }
}

/// Edits never interleave: what a process has read and not yet written back is
/// what the cache says, so the cache is at every moment what the edits made so
/// far make of it one after the other, none undone by what another had read
/// before it.
pub proof fn edits_never_interleave(h: History, i: int)
    requires
        h.is_history(),
        0 <= i < h.caches.len(),
    ensures
        forall|p: int| #[trigger]
            h.caches[i].read.contains_key(p) ==> {
                &&& h.caches[i].holder == Some(p)
                &&& h.caches[i].read[p] == h.caches[i].file
            },
        h.caches[i].file == edited_by(h.caches[0].file, h.edits(i)),
    decreases i,
{
    if i > 0 {
        edits_never_interleave(h, i - 1);
        let (process, event) = h.events[i - 1];
        assert(happens(h.caches[i - 1], process, event, h.caches[i]));
        match event {
            Event::Write(edit) => {
                assert(h.caches[i - 1].read.contains_key(process));
                assert(h.edits(i).drop_last() =~= h.edits(i - 1));
            },
            _ => {},
        }
    }
}

/// Whether an edit is part of announcing.
pub open spec fn is_announcing(edit: Edit) -> bool {
    edit is Claim || edit is GiveBack
}

/// An update and announcements of the same cache, in whatever order and from
/// whatever processes, do not undo one another: once all are through, the version
/// that the update installed is current and nothing is on offer.
pub proof fn an_update_survives_announcements(
    start: Record,
    edits: Seq<Edit>,
    k: int,
    version: Seq<char>,
    now_ms: i64,
)
    requires
        0 <= k < edits.len(),
        edits[k] == (Edit::Apply { version, now_ms }),
        forall|j: int|
            0 <= j < edits.len() && j != k ==> is_announcing(#[trigger] edits[j]),
    ensures
        edited_by(start, edits).current == version,
        !edited_by(start, edits).available,
        edited_by(start, edits).latest == Some(version),
    decreases edits.len(),
{
    if k < edits.len() - 1 {
        an_update_survives_announcements(start, edits.drop_last(), k, version, now_ms);
        assert(is_announcing(edits[edits.len() - 1]));
    }
}

/// Whether an update is recorded by the edits from place `since` on and before
/// place `i`.
pub open spec fn is_updated(edits: Seq<Edit>, since: int, i: int) -> bool {
    exists|j: int| since <= j < i && 0 <= j < edits.len() && #[trigger] edits[j] is Apply
}

/// Whether every check counts an update exactly where one was recorded while it
/// asked.
pub open spec fn is_counted(edits: Seq<Edit>) -> bool {
    forall|i: int|
        0 <= i < edits.len() ==> match #[trigger] edits[i] {
            Edit::Check { since, updated, running: _, latest: _, now_ms: _ } => {
                updated <==> is_updated(edits, since, i)
            },
            _ => true,
        }
}

/// An update survives the checks during which it was recorded, of processes that
/// run an older version: whatever they and any announcements write behind it, the
/// version that it installed stays current, and only something newer is on offer.
pub proof fn an_update_survives_the_checks_it_overtook(
    start: Record,
    edits: Seq<Edit>,
    k: int,
    version: Seq<char>,
    now_ms: i64,
)
    requires
        is_counted(edits),
        0 <= k < edits.len(),
        edits[k] == (Edit::Apply { version, now_ms }),
        forall|j: int|
            k < j < edits.len() ==> match #[trigger] edits[j] {
                Edit::Check { since, updated: _, running, latest: _, now_ms: _ } => {
                    since <= k && version::newer(version, running)
                },
                edit => is_announcing(edit),
            },
    ensures
        edited_by(start, edits).current == version,
        edited_by(start, edits).latest is Some,
        edited_by(start, edits).available <==> version::newer(
            edited_by(start, edits).latest->0,
            version,
        ),
    decreases edits.len(),
{
    let n = edits.len() - 1;
    if k < n {
        let rest = edits.drop_last();
        assert forall|i: int| 0 <= i < rest.len() implies match #[trigger] rest[i] {
            Edit::Check { since, updated, running: _, latest: _, now_ms: _ } => {
                updated <==> is_updated(rest, since, i)
            },
            _ => true,
        } by {
            assert(rest[i] == edits[i]);
            match rest[i] {
                Edit::Check { since, updated, running: _, latest: _, now_ms: _ } => {
                    if is_updated(edits, since, i) {
                        let j = choose|j: int|
                            since <= j < i && 0 <= j < edits.len() && #[trigger] edits[j] is Apply;
                        assert(rest[j] is Apply);
                    }
                    if is_updated(rest, since, i) {
                        let j = choose|j: int|
                            since <= j < i && 0 <= j < rest.len() && #[trigger] rest[j] is Apply;
                        assert(edits[j] is Apply);
                    }
                },
                _ => {},
            }
        }
        an_update_survives_the_checks_it_overtook(start, rest, k, version, now_ms);
        assert(edits[n] == edits.last());
        assert(edits[k] is Apply);
    } else {
        version::newer_is_a_strict_order(version, version, version);
    }
}

/// A check during which no update was recorded says of the running version what a
/// check alone would, whatever was written before it and by whom.
pub proof fn a_check_alone_goes_by_the_running_version(start: Record, edits: Seq<Edit>)
    requires
        is_counted(edits),
        edits.len() > 0,
        edits.last() matches Edit::Check { since, updated: _, running: _, latest: _, now_ms: _ }
            && !is_updated(edits, since, edits.len() - 1),
    ensures
        edits.last() matches Edit::Check { since: _, updated: _, running, latest, now_ms } && {
            let r = edited_by(start, edits);
            &&& r.current == running
            &&& r.latest == Some(latest)
            &&& r.available <==> version::newer(latest, running)
            &&& r.checked_ms == now_ms
            &&& r.notified == edited_by(start, edits.drop_last()).notified
        },
{
    assert(edits[edits.len() - 1] == edits.last());
}

/// Of any number of claims with nothing else written between them, at most the
/// first is made. After it the cache says that its version was announced, and
/// everything else as before; the others leave the cache as it is.
pub proof fn at_most_one_claim_is_made(start: Record, edits: Seq<Edit>)
    requires
        forall|j: int| 0 <= j < edits.len() ==> (#[trigger] edits[j]) is Claim,
    ensures
        edits.len() > 0 ==> edited_by(start, edits) == edited(start, Edit::Claim),
        edits.len() > 0 ==> !state::is_news(edited_by(start, edits)),
        state::is_news(start) ==> edited(start, Edit::Claim) == (Record {
            notified: start.latest,
            ..start
        }),
        !state::is_news(start) ==> edited(start, Edit::Claim) == start,
    decreases edits.len(),
{
    if edits.len() > 0 {
        at_most_one_claim_is_made(start, edits.drop_last());
        assert(edits[edits.len() - 1] is Claim);
    }
}

/// Of any number of processes that claim an announcement at the same time, with
/// nothing else written, at most one makes it: whoever finds it claimed writes
/// nothing.
pub proof fn at_most_one_process_claims(h: History, i: int)
    requires
        h.is_history(),
        forall|j: int|
            #![trigger h.events[j]]
            0 <= j < h.events.len() ==> match h.events[j].1 {
                Event::Write(edit) => edit is Claim && state::is_news(
                    h.caches[j].read[h.events[j].0],
                ),
                _ => true,
            },
        0 <= i < h.caches.len(),
    ensures
        h.edits(i).len() <= 1,
        h.edits(i).len() == 0 ==> h.caches[i].file == h.caches[0].file,
        h.edits(i).len() == 1 ==> {
            &&& !state::is_news(h.caches[i].file)
            &&& h.caches[i].file == (Record {
                notified: h.caches[0].file.latest,
                ..h.caches[0].file
            })
        },
    decreases i,
{
    if i > 0 {
        at_most_one_process_claims(h, i - 1);
        edits_never_interleave(h, i - 1);
        let (process, event) = h.events[i - 1];
        assert(happens(h.caches[i - 1], process, event, h.caches[i]));
        if event is Write {
            assert(h.caches[i - 1].read.contains_key(process));
        }
    }
}

} // verus!
