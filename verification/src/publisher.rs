//! The publisher's bounded retry policy.
//!
//! One publish makes at most `MAX_ATTEMPTS` send attempts, with a fixed
//! `RETRY_DELAY_MS` pause decided between consecutive attempts; after the
//! budget is spent the event is abandoned and the terminal failure is
//! reported to the caller (at-most-once delivery).  The send itself is
//! broker I/O and happens outside the library: the decision which step
//! follows each attempt's outcome is made here and is verified for every
//! possible outcome.

use vstd::prelude::*;

verus! {

/// Total attempts one publish may make: one initial send plus two retries.
pub const MAX_ATTEMPTS: u32 = 3;

/// Fixed pause between two consecutive attempts, in milliseconds.
pub const RETRY_DELAY_MS: u64 = 1000;

/// Allowed in-flight time of a single send attempt, in milliseconds.
pub const ATTEMPT_TIMEOUT_MS: u64 = 5000;

/// Pause of the synthetic generator between events, in milliseconds.
pub const GENERATOR_PAUSE_MS: u64 = 1000;

/// What one send attempt came back with: the partition the broker stored
/// the event on, or a transient failure.
#[derive(Clone, Copy, Debug, PartialEq, Eq, Structural)]
pub enum SendOutcome {
    Delivered { partition: u32 },
    Failed,
}

/// Terminal failure of a publish.
#[derive(Clone, Copy, Debug, PartialEq, Eq, Structural)]
pub enum PublishError {
    RetriesExhausted,
}

/// The step the publisher takes after one attempt's outcome.
#[derive(Clone, Copy, Debug, PartialEq, Eq, Structural)]
pub enum PublishStep {
    Done { partition: u32 },
    Retry { wait_ms: u64 },
    GiveUp,
}

/// The decision after attempt number `attempts_made` (counting from one)
/// came back with `outcome`.
pub open spec fn publish_decision_spec(attempts_made: u32, outcome: SendOutcome) -> PublishStep {
    match outcome {
        SendOutcome::Delivered { partition } => PublishStep::Done { partition },
        SendOutcome::Failed => if attempts_made < MAX_ATTEMPTS {
            PublishStep::Retry { wait_ms: RETRY_DELAY_MS }
        } else {
            PublishStep::GiveUp
        },
    }
}

/// Decides the publisher's next step after one send attempt.
pub fn publish_decision(attempts_made: u32, outcome: &SendOutcome) -> (step: PublishStep)
    requires
        1 <= attempts_made <= MAX_ATTEMPTS,
    ensures
        step == publish_decision_spec(attempts_made, *outcome),
{
    match outcome {
        SendOutcome::Delivered { partition } => PublishStep::Done { partition: *partition },
        SendOutcome::Failed => {
            if attempts_made < MAX_ATTEMPTS {
                PublishStep::Retry { wait_ms: RETRY_DELAY_MS }
            } else {
                PublishStep::GiveUp
            }
        },
    }
}

/// What a whole publish returns, and how many attempts it makes, when the
/// successive attempts would come back as `outcomes` and `budget` attempts
/// are allowed: the first delivery ends the publish, and a spent budget
/// ends it with a terminal error.
pub open spec fn publish_run_spec(outcomes: Seq<SendOutcome>, budget: nat) -> (Result<
    u32,
    PublishError,
>, nat)
    decreases budget,
{
    if budget == 0 || outcomes.len() == 0 {
        (Err(PublishError::RetriesExhausted), 0)
    } else {
        match outcomes[0] {
            SendOutcome::Delivered { partition } => (Ok(partition), 1),
            SendOutcome::Failed => {
                if budget == 1 {
                    (Err(PublishError::RetriesExhausted), 1)
                } else {
                    let rest = publish_run_spec(outcomes.skip(1), (budget - 1) as nat);
                    (rest.0, rest.1 + 1)
                }
            },
        }
    }
}

/// Runs one publish against a fixed table of attempt outcomes, driving
/// every step through `publish_decision`; the model of the retry loop the
/// application shell runs against the broker.
pub fn publish_run(outcomes: &Vec<SendOutcome>) -> (r: (Result<u32, PublishError>, u32))
    requires
        outcomes@.len() >= MAX_ATTEMPTS,
    ensures
        r.0 == publish_run_spec(outcomes@, MAX_ATTEMPTS as nat).0,
        r.1 as nat == publish_run_spec(outcomes@, MAX_ATTEMPTS as nat).1,
{
    proof {
        assert(outcomes@.skip(0) =~= outcomes@);
    }
    let mut i: usize = 0;
    while i < 3
        invariant
            0 <= i <= 3,
            outcomes@.len() >= 3,
            forall|j: int| 0 <= j < i ==> outcomes@[j] is Failed,
            publish_run_spec(outcomes@, 3).0 == publish_run_spec(
                outcomes@.skip(i as int),
                (3 - i) as nat,
            ).0,
            publish_run_spec(outcomes@, 3).1 == publish_run_spec(
                outcomes@.skip(i as int),
                (3 - i) as nat,
            ).1 + i,
        decreases 3 - i,
    {
        let attempts: u32 = (i as u32) + 1;
        let outcome = outcomes[i];
        let step = publish_decision(attempts, &outcome);
        proof {
            assert(outcomes@.skip(i as int)[0] == outcomes@[i as int]);
        }
        match step {
            PublishStep::Done { partition } => {
                return (Ok(partition), attempts);
            },
            PublishStep::GiveUp => {
                return (Err(PublishError::RetriesExhausted), attempts);
            },
            PublishStep::Retry { wait_ms: _ } => {
                proof {
                    assert(outcomes@.skip(i as int).skip(1) =~= outcomes@.skip(i as int + 1));
                }
            },
        }
        i = i + 1;
    }
    (Err(PublishError::RetriesExhausted), 3)
}

/// Bounded retry under total failure: when every attempt would fail, a
/// publish makes exactly `MAX_ATTEMPTS` attempts, decides the fixed
/// `RETRY_DELAY_MS` pause between consecutive attempts, and then reports
/// the terminal error.
pub proof fn lemma_retry_exhaustion(outcomes: Seq<SendOutcome>)
    requires
        outcomes.len() >= MAX_ATTEMPTS,
        forall|i: int| 0 <= i < MAX_ATTEMPTS ==> outcomes[i] is Failed,
    ensures
        publish_run_spec(outcomes, MAX_ATTEMPTS as nat).0 == Err::<u32, PublishError>(
            PublishError::RetriesExhausted,
        ),
        publish_run_spec(outcomes, MAX_ATTEMPTS as nat).1 == MAX_ATTEMPTS,
        forall|a: u32|
            1 <= a < MAX_ATTEMPTS ==> publish_decision_spec(a, SendOutcome::Failed)
                == (PublishStep::Retry { wait_ms: RETRY_DELAY_MS }),
        publish_decision_spec(MAX_ATTEMPTS, SendOutcome::Failed) == PublishStep::GiveUp,
{
    reveal_with_fuel(publish_run_spec, 4);
    assert(outcomes.skip(1)[0] == outcomes[1]);
    assert(outcomes.skip(1).skip(1) =~= outcomes.skip(2));
    assert(outcomes.skip(2)[0] == outcomes[2]);
    assert(publish_run_spec(outcomes.skip(2), 1) == (
        Err::<u32, PublishError>(PublishError::RetriesExhausted),
        1nat,
    ));
    assert(publish_run_spec(outcomes.skip(1), 2) == (
        Err::<u32, PublishError>(PublishError::RetriesExhausted),
        2nat,
    ));
}

/// First delivery ends the publish: if some attempt within the budget
/// would be delivered, the publish succeeds, returns the partition of the
/// earliest delivered attempt, and makes no attempt beyond it.
pub proof fn lemma_publish_stops_at_first_delivery(outcomes: Seq<SendOutcome>, k: int)
    requires
        outcomes.len() >= MAX_ATTEMPTS,
        0 <= k < MAX_ATTEMPTS,
        outcomes[k] matches SendOutcome::Delivered { .. },
        forall|i: int| 0 <= i < k ==> outcomes[i] is Failed,
    ensures
        publish_run_spec(outcomes, MAX_ATTEMPTS as nat).0 == Ok::<u32, PublishError>(
            outcomes[k]->partition,
        ),
        publish_run_spec(outcomes, MAX_ATTEMPTS as nat).1 == k + 1,
{
    lemma_publish_stops_at_first_delivery_aux(outcomes, k, MAX_ATTEMPTS as nat);
}

proof fn lemma_publish_stops_at_first_delivery_aux(outcomes: Seq<SendOutcome>, k: int, budget: nat)
    requires
        outcomes.len() >= budget,
        0 <= k < budget,
        outcomes[k] matches SendOutcome::Delivered { .. },
        forall|i: int| 0 <= i < k ==> outcomes[i] is Failed,
    ensures
        publish_run_spec(outcomes, budget).0 == Ok::<u32, PublishError>(outcomes[k]->partition),
        publish_run_spec(outcomes, budget).1 == k + 1,
    decreases k,
{
    if k == 0 {
    } else {
        assert(outcomes.skip(1)[k - 1] == outcomes[k]);
        assert(forall|i: int| 0 <= i < k - 1 ==> outcomes.skip(1)[i] == outcomes[i + 1]);
        lemma_publish_stops_at_first_delivery_aux(outcomes.skip(1), k - 1, (budget - 1) as nat);
    }
}

/// The response the ingestion endpoint owes its caller for a publish
/// result: an acknowledgment carrying the partition on success, a server
/// error after exhausted retries.
#[derive(Clone, Copy, Debug, PartialEq, Eq, Structural)]
pub enum IngestResponse {
    Accepted { partition: u32 },
    ServerError,
}

pub open spec fn ingest_response_spec(r: Result<u32, PublishError>) -> IngestResponse {
    match r {
        Ok(partition) => IngestResponse::Accepted { partition },
        Err(_) => IngestResponse::ServerError,
    }
}

/// Maps a publish result to the ingestion endpoint's response.
pub fn ingest_response(r: &Result<u32, PublishError>) -> (resp: IngestResponse)
    ensures
        resp == ingest_response_spec(*r),
{
    match r {
        Ok(partition) => IngestResponse::Accepted { partition: *partition },
        Err(_) => IngestResponse::ServerError,
    }
}

} // verus!
