//! Broadcast fan-out and acknowledgement collection. A broadcast from a
//! sender targets every current member of a room except the sender; each
//! targeted recipient later yields one acknowledgement outcome, observed
//! independently of the others and of the caller.

use vstd::prelude::*;
use crate::registry::RoomRegistry;
use crate::registry::without;

verus! {

/// The recipients a broadcast from `sender` addresses within a room whose
/// member set is `members`: everyone but the sender.
pub open spec fn target_set(members: Set<u64>, sender: u64) -> Set<u64> {
    members.remove(sender)
}

/// One recipient's outcome for a delivered broadcast: a recipient-supplied
/// reply, or a delivery failure.
pub enum AckOutcome {
    Reply(String),
    Failure(AckFailure),
}

/// Why a delivery did not produce a reply.
pub enum AckFailure {
    RecipientGone,
    Transport,
    Protocol,
}

/// How many of `acks` are replies.
pub open spec fn count_replies(acks: Seq<AckOutcome>) -> int
    decreases acks.len(),
{
    if acks.len() == 0 {
        0
    } else {
        count_replies(acks.drop_last()) + if acks.last() is Reply {
            1int
        } else {
            0int
        }
    }
}

/// The recipients of a broadcast from `sender` into `room`: a snapshot of
/// the room's current members with the sender left out, each exactly once.
/// A room with no other member yields no recipients, and that is success,
/// not an error.
pub fn broadcast_targets(reg: &RoomRegistry, sender: u64, room: &String) -> (targets: Vec<u64>)
    requires
        reg.wf(),
    ensures
        targets@.no_duplicates(),
        targets@.to_set() == target_set(reg.members(room@), sender),
        !targets@.contains(sender),
        targets@.len() == target_set(reg.members(room@), sender).len(),
{
    let members = reg.members_of(room);
    let targets = without(&members, sender);
    proof {
        targets@.unique_seq_to_set();
    }
    targets
}

/// Once a connection has been removed from a room (a voluntary leave, a
/// forced room disconnect, or a transport-level disconnect), it is not a
/// member of that room and no broadcast into the room targets it any more,
/// whoever the sender is. The hypothesis is exactly what
/// `RoomRegistry::leave`, `RoomRegistry::remove_all` and
/// `on_disconnect_request` ensure of the room's member set.
pub proof fn lemma_removed_never_targeted(
    before: RoomRegistry,
    after: RoomRegistry,
    c: u64,
    r: Seq<char>,
    sender: u64,
)
    requires
        after.members(r) == before.members(r).remove(c),
    ensures
        !after.members(r).contains(c),
        !target_set(after.members(r), sender).contains(c),
{
}

/// Per-recipient results of one broadcast, observed as they resolve.
pub struct AckSummary {
    /// Recipients whose reply arrived.
    pub replies: usize,
    /// Recipients whose delivery failed.
    pub failures: usize,
}

/// Observe every acknowledgement outcome of one broadcast and account for
/// each exactly once: every outcome is either a reply or a failure. Zero
/// outcomes (a broadcast that targeted nobody) is a valid, successful run.
pub fn collect_acks(acks: &Vec<(u64, AckOutcome)>) -> (summary: AckSummary)
    ensures
        summary.replies == count_replies(acks@.map_values(|a: (u64, AckOutcome)| a.1)),
        summary.replies + summary.failures == acks@.len(),
{
    let n = acks.len();
    let mut replies: usize = 0;
    let mut failures: usize = 0;
    let mut k: usize = 0;
    let ghost outcomes = acks@.map_values(|a: (u64, AckOutcome)| a.1);
    proof {
        assert(outcomes.subrange(0, 0) =~= Seq::<AckOutcome>::empty());
    }
    while k < n
        invariant
            k <= n,
            n == acks@.len(),
            outcomes == acks@.map_values(|a: (u64, AckOutcome)| a.1),
            replies == count_replies(outcomes.subrange(0, k as int)),
            replies + failures == k,
        decreases n - k,
    {
        let ghost prefix = outcomes.subrange(0, k as int);
        proof {
            assert(outcomes.subrange(0, k as int + 1).drop_last() =~= prefix);
            assert(outcomes.subrange(0, k as int + 1).last() == outcomes[k as int]);
            assert(outcomes[k as int] == acks@[k as int].1);
        }
        match &acks[k].1 {
            AckOutcome::Reply(_) => {
                replies += 1;
            },
            AckOutcome::Failure(_) => {
                failures += 1;
            },
        }
        k += 1;
    }
    proof {
        assert(outcomes.subrange(0, n as int) =~= outcomes);
    }
    AckSummary { replies, failures }
}

} // verus!
