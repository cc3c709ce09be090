//! The per-message work of one consumer group: decode, filter, count,
//! commit.
//!
//! The receive loop itself blocks on the broker and lives in the
//! application shell; every decision it takes for a delivered message is
//! made here.  A message that does not decode is reported and skipped; a
//! message the group's filter rejects is neither counted nor committed;
//! only a counted message has its offset committed (asynchronously, fire
//! and forget).

use vstd::prelude::*;
use vstd::string::StringExecFns;

use crate::aggregator::Aggregator;
use crate::aggregator::bump;
use crate::aggregator::count_of;
use crate::codec::decode;
use crate::codec::decode_spec;
use crate::event::EventModel;

verus! {

/// The per-group filter: the analytics group accepts every event, the
/// purchase group only purchases.
#[derive(Clone, Copy, Debug, PartialEq, Eq, Structural)]
pub enum GroupFilter {
    AcceptAll,
    PurchaseOnly,
}

/// Whether `f` accepts an event.
pub open spec fn accepts_spec(f: GroupFilter, m: EventModel) -> bool {
    match f {
        GroupFilter::AcceptAll => true,
        GroupFilter::PurchaseOnly => m.action == "purchase"@,
    }
}

impl GroupFilter {
    /// Applies the filter to one decoded event.
    pub fn accepts(&self, e: &crate::event::UserAction) -> (r: bool)
        ensures
            r == accepts_spec(*self, e@),
    {
        match self {
            GroupFilter::AcceptAll => true,
            GroupFilter::PurchaseOnly => e.action == String::from_str("purchase"),
        }
    }

    /// The consumer-group identifier this filter belongs to.
    pub fn group_id(&self) -> (s: &'static str)
        ensures
            *self is AcceptAll ==> s@ == "analytics-group"@,
            *self is PurchaseOnly ==> s@ == "purchase-group"@,
    {
        match self {
            GroupFilter::AcceptAll => "analytics-group",
            GroupFilter::PurchaseOnly => "purchase-group",
        }
    }
}

/// Filter correctness: the purchase group's filter accepts an event if
/// and only if its action is `"purchase"`, and the analytics group's
/// filter accepts every event.
pub proof fn lemma_filter_correct(m: EventModel)
    ensures
        accepts_spec(GroupFilter::PurchaseOnly, m) <==> m.action == "purchase"@,
        accepts_spec(GroupFilter::AcceptAll, m),
{
}

/// The topic every producer and consumer group of the pipeline uses.
pub fn topic_name() -> (s: &'static str)
    ensures
        s@ == "user-actions"@,
{
    "user-actions"
}

/// The initial offset position of a partition with no prior commit: a
/// fresh group sees full history, not only future events.
pub fn offset_reset_policy() -> (s: &'static str)
    ensures
        s@ == "earliest"@,
{
    "earliest"
}

/// What processing one delivered message came to.
#[derive(Clone, Copy, Debug, PartialEq, Eq, Structural)]
pub enum ConsumeOutcome {
    /// The payload is not a frame any event encodes to: reported and
    /// skipped.
    DecodeFailed,
    /// The event decoded but the group's filter rejected it.
    FilteredOut,
    /// The event was counted for its user.
    Counted { user_id: u32 },
}

/// Whether the message's offset is committed for the group: exactly the
/// counted messages are.
pub open spec fn commits_spec(o: ConsumeOutcome) -> bool {
    o is Counted
}

/// The outcome processing a payload has for a group with filter `f`.
pub open spec fn outcome_spec(f: GroupFilter, payload: Seq<char>) -> ConsumeOutcome {
    match decode_spec(payload) {
        None => ConsumeOutcome::DecodeFailed,
        Some(m) => if accepts_spec(f, m) {
            ConsumeOutcome::Counted { user_id: m.user_id }
        } else {
            ConsumeOutcome::FilteredOut
        },
    }
}

/// The group's counts after processing a payload: only a decoded and
/// accepted event raises its user's count.
pub open spec fn counts_after_spec(counts: Map<u32, u64>, f: GroupFilter, payload: Seq<char>) -> Map<
    u32,
    u64,
> {
    match decode_spec(payload) {
        None => counts,
        Some(m) => if accepts_spec(f, m) {
            counts.insert(m.user_id, bump(count_of(counts, m.user_id)))
        } else {
            counts
        },
    }
}

/// Processes one delivered message for one consumer group: decodes the
/// payload, applies the group's filter, counts an accepted event.  The
/// returned outcome decides the commit (see `should_commit`).
pub fn process_message(agg: &mut Aggregator, filter: &GroupFilter, payload: &str) -> (o:
    ConsumeOutcome)
    requires
        old(agg).wf(),
    ensures
        final(agg).wf(),
        o == outcome_spec(*filter, payload@),
        final(agg)@ == counts_after_spec(old(agg)@, *filter, payload@),
{
    match decode(payload) {
        None => ConsumeOutcome::DecodeFailed,
        Some(e) => {
            if filter.accepts(&e) {
                agg.increment(e.user_id);
                ConsumeOutcome::Counted { user_id: e.user_id }
            } else {
                ConsumeOutcome::FilteredOut
            }
        },
    }
}

/// Whether the receive loop commits the message's offset after this
/// outcome.
pub fn should_commit(o: &ConsumeOutcome) -> (r: bool)
    ensures
        r == commits_spec(*o),
{
    match o {
        ConsumeOutcome::Counted { .. } => true,
        _ => false,
    }
}

/// The group's counts after a whole run of delivered payloads, processed
/// in delivery order.
pub open spec fn counts_after_all_spec(
    counts: Map<u32, u64>,
    f: GroupFilter,
    payloads: Seq<Seq<char>>,
) -> Map<u32, u64>
    decreases payloads.len(),
{
    if payloads.len() == 0 {
        counts
    } else {
        counts_after_spec(
            counts_after_all_spec(counts, f, payloads.drop_last()),
            f,
            payloads.last(),
        )
    }
}

/// How many of the payloads the group counts for user `u`.
pub open spec fn counted_for_spec(f: GroupFilter, payloads: Seq<Seq<char>>, u: u32) -> nat
    decreases payloads.len(),
{
    if payloads.len() == 0 {
        0
    } else {
        counted_for_spec(f, payloads.drop_last(), u) + (if outcome_spec(f, payloads.last())
            == (ConsumeOutcome::Counted { user_id: u }) {
            1nat
        } else {
            0nat
        })
    }
}

/// Aggregation correctness: a consumer group that processes every
/// delivered payload in order — each step serialized, as the contract of
/// `process_message` states of each single call — ends with each user's
/// count raised by exactly the number of that user's counted messages: no
/// update is lost and none is double counted.  The one proviso keeps the
/// run below the counter's saturation point.
pub proof fn lemma_aggregation_exact(
    counts: Map<u32, u64>,
    f: GroupFilter,
    payloads: Seq<Seq<char>>,
    u: u32,
)
    requires
        count_of(counts, u) + counted_for_spec(f, payloads, u) <= u64::MAX,
    ensures
        count_of(counts_after_all_spec(counts, f, payloads), u) == count_of(counts, u)
            + counted_for_spec(f, payloads, u),
    decreases payloads.len(),
{
    if payloads.len() > 0 {
        lemma_aggregation_exact(counts, f, payloads.drop_last(), u);
    }
}

/// Commit/count coupling: a message that is not counted — because it did
/// not decode or because the group's filter rejected it — leaves the
/// group's counts exactly as they were and does not have its offset
/// committed.
pub proof fn lemma_commit_count_coupling(counts: Map<u32, u64>, f: GroupFilter, payload: Seq<char>)
    requires
        !(outcome_spec(f, payload) is Counted),
    ensures
        counts_after_spec(counts, f, payload) == counts,
        !commits_spec(outcome_spec(f, payload)),
{
}

} // verus!
