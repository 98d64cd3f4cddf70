//! How announcing a version goes from its start to its end.

use vstd::prelude::*;

use crate::state::{self, Announcing, Claim, Record, UpdateStatus};

verus! {

/// Where a version is on offer that was not announced, announcing it is claimed
/// with that version, and with the installed one; the cache is to say that it was
/// announced, and all else as before.
pub proof fn an_offer_is_claimed(
    cached: Record,
    v: Seq<char>,
    claim: Option<Claim>,
    r: Option<UpdateStatus>,
    after: Announcing,
)
    requires
        cached.available,
        cached.latest == Some(v),
        v.len() > 0,
        cached.notified != Some(v),
        state::is_claim(cached, claim),
        state::is_read(Announcing::Claim, cached, r, after),
    ensures
        claim matches Some(c) && {
            &&& c.latest@ == v
            &&& c.current@ == cached.current
            &&& c.status@ == (Record { notified: Some(v), ..cached })
        },
        r matches Some(s) && s@ == (Record { notified: Some(v), ..cached }),
        after matches Announcing::WriteClaim { latest, current } && latest@ == v && current@
            == cached.current,
{
}

/// Where there is nothing to announce, the cache is left alone and announcing is
/// over without an announcement.
pub proof fn nothing_to_announce_is_over_at_once(
    cached: Record,
    claim: Option<Claim>,
    r: Option<UpdateStatus>,
    after: Announcing,
)
    requires
        !cached.available || cached.latest is None || cached.latest == Some(Seq::<char>::empty())
            || (cached.notified is Some && cached.notified == cached.latest),
        state::is_claim(cached, claim),
        state::is_read(Announcing::Claim, cached, r, after),
    ensures
        claim is None,
        r is None,
        after == (Announcing::Over { announced: false }),
{
}

/// A version is announced only once its claim is written, with what was claimed,
/// and one that could not be written is an error and no announcement.
pub proof fn a_claim_is_written_before_it_is_announced(
    before: Announcing,
    cached: Record,
    r: Option<UpdateStatus>,
    reply: Result<(), String>,
    happened: bool,
    after: Announcing,
)
    ensures
        state::is_read(before, cached, r, after) && after is Announce ==> before is Announce,
        state::is_drawn(before, happened, after) ==> !(after is Announce),
        state::is_written(before, reply, after) && after is Announce && !(before is Announce) ==> {
            &&& before is WriteClaim
            &&& reply is Ok
            &&& after->Announce_latest@ == before->WriteClaim_latest@
            &&& after->Announce_current@ == before->WriteClaim_current@
        },
        state::is_written(before, reply, after) && before is WriteClaim && reply is Ok ==> after
            is Announce,
        state::is_written(before, reply, after) && (before is WriteClaim || before is WriteRelease)
            && reply is Err ==> after == (Announcing::Failed { error: reply->Err_0 }),
        state::is_written(before, reply, after) && before is WriteRelease && reply is Ok ==> after
            == (Announcing::Over { announced: false }),
{
}

/// Announcing ends with an announcement exactly where one was to be made and
/// happened. One that did not happen has its version given back, if the cache
/// still says that it was announced, and the cache is left alone if not.
pub proof fn an_announcement_happened_or_is_given_back(
    before: Announcing,
    happened: bool,
    after: Announcing,
    cached: Record,
    r: Option<UpdateStatus>,
    end: Announcing,
)
    requires
        before is Announce,
        state::is_drawn(before, happened, after),
        state::is_read(after, cached, r, end),
    ensures
        happened ==> after == (Announcing::Over { announced: true }) && r is None && end == after,
        !happened ==> {
            &&& after is Release
            &&& after->Release_latest@ == before->Announce_latest@
            &&& end != (Announcing::Over { announced: true })
        },
        !happened && cached.notified == Some(before->Announce_latest@) ==> {
            &&& r matches Some(s) && s@ == (Record { notified: None, ..cached })
            &&& end is WriteRelease
        },
        !happened && cached.notified != Some(before->Announce_latest@) ==> r is None && end == (
        Announcing::Over { announced: false }),
{
}

/// Each event moves announcing only where it is waited for: reading the cache where
/// a claim is to be made or given back, writing it where something is to be
/// written, and the announcement where it is to be made. So what is over stays
/// over, whatever comes.
pub proof fn each_event_is_waited_for(
    before: Announcing,
    cached: Record,
    r: Option<UpdateStatus>,
    reply: Result<(), String>,
    happened: bool,
    after: Announcing,
)
    ensures
        state::is_read(before, cached, r, after) && !(before is Claim || before is Release)
            ==> after == before && r is None,
        state::is_written(before, reply, after) && !(before is WriteClaim || before is WriteRelease)
            ==> after == before,
        state::is_drawn(before, happened, after) && !(before is Announce) ==> after == before,
{
}

/// What is given back of a cache that says the version was announced is that
/// announcement and nothing else, and any other cache is left alone.
pub proof fn giving_back_touches_one_announcement(
    cached: Record,
    latest: Seq<char>,
    r: Option<UpdateStatus>,
)
    requires
        state::is_given_back(cached, latest, r),
    ensures
        cached.notified == Some(latest) ==> (r matches Some(s) && s@ == (Record {
            notified: None,
            ..cached
        })),
        cached.notified != Some(latest) ==> r is None,
{
}

} // verus!
