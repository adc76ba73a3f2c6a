//! The decisions of the per-resource scheduler: failure classification,
//! the bounded exponential-backoff retry policy, what one loop does
//! after each attempt, and which resources get a loop at all.
//!
//! The surrounding application owns the timers and the network; it asks
//! the library what to do after every attempt and carries the answer
//! out. Each resource's attempts are sequential; distinct resources run
//! independently.

use vstd::prelude::*;

use crate::numeric::{all_digits, dec_val, parse_u64};

verus! {

/// The first retry delay, in milliseconds.
pub const RETRY_BASE_MS: u64 = 30000;

/// No retry waits longer than this, in milliseconds.
pub const RETRY_MAX_MS: u64 = 300000;

/// The largest number of attempts one run makes.
pub const MAX_RETRIES: u64 = 5;

/// How a failed sync attempt is classified: a transient failure is
/// retried, a permanent one ends the resource's loop.
#[derive(PartialEq, Eq, Structural, Clone, Copy, Debug)]
pub enum FailureKind {
    Transient,
    Permanent,
}

/// A classified sync failure.
pub struct SyncError {
    pub kind: FailureKind,
    pub message: String,
}

impl SyncError {
    /// Wraps a failure that a later attempt may get past: network,
    /// protocol, parse and storage errors.
    pub fn transient(message: String) -> (r: SyncError)
        ensures
            r.kind == FailureKind::Transient,
            r.message == message,
    {
        SyncError { kind: FailureKind::Transient, message }
    }

    /// Wraps a failure no retry can mend, such as a resource deleted
    /// from the store: the loop ends.
    pub fn permanent(message: String) -> (r: SyncError)
        ensures
            r.kind == FailureKind::Permanent,
            r.message == message,
    {
        SyncError { kind: FailureKind::Permanent, message }
    }

    /// True when the error ends the loop.
    pub fn is_permanent(&self) -> (r: bool)
        ensures
            r == (self.kind == FailureKind::Permanent),
    {
        match self.kind {
            FailureKind::Permanent => true,
            FailureKind::Transient => false,
        }
    }

    /// The error's text.
    pub fn message(&self) -> (r: &str)
        ensures
            r@ == self.message@,
    {
        self.message.as_str()
    }
}

/// The backoff before the retry that follows attempt `attempt`, before
/// the cap: the base delay, multiplied by the base again for every
/// further attempt.
pub open spec fn raw_backoff(attempt: nat) -> nat
    decreases attempt,
{
    if attempt <= 1 {
        RETRY_BASE_MS as nat
    } else {
        raw_backoff((attempt - 1) as nat) * (RETRY_BASE_MS as nat)
    }
}

/// The delay before the retry that follows attempt `attempt`, capped at
/// the maximum.
pub open spec fn spec_retry_delay(attempt: nat) -> nat {
    if raw_backoff(attempt) > RETRY_MAX_MS as nat {
        RETRY_MAX_MS as nat
    } else {
        raw_backoff(attempt)
    }
}

proof fn lemma_raw_backoff_step_ge(a: nat)
    requires
        a >= 1,
    ensures
        raw_backoff(a) <= raw_backoff(a + 1),
        raw_backoff(a) >= RETRY_BASE_MS as nat,
    decreases a,
{
    if a > 1 {
        lemma_raw_backoff_step_ge((a - 1) as nat);
    }
    assert(raw_backoff(a + 1) == raw_backoff(a) * RETRY_BASE_MS);
    assert(raw_backoff(a) * RETRY_BASE_MS >= raw_backoff(a)) by (nonlinear_arith)
        requires
            raw_backoff(a) >= 0,
    ;
}

/// The retry delays never decrease from one attempt to the next, and
/// never exceed the configured maximum.
pub proof fn lemma_backoff_monotone_capped(a: nat, b: nat)
    requires
        1 <= a <= b,
    ensures
        spec_retry_delay(a) <= spec_retry_delay(b),
        spec_retry_delay(b) <= RETRY_MAX_MS as nat,
    decreases b - a,
{
    if a < b {
        lemma_raw_backoff_step_ge((b - 1) as nat);
        lemma_backoff_monotone_capped(a, (b - 1) as nat);
    }
}

/// Computes the delay before the retry that follows attempt `attempt`.
pub fn retry_delay_ms(attempt: u64) -> (r: u64)
    requires
        1 <= attempt,
    ensures
        r as nat == spec_retry_delay(attempt as nat),
{
    let mut k: u64 = 1;
    let mut cur: u64 = RETRY_BASE_MS;
    while k < attempt
        invariant
            1 <= k <= attempt,
            cur as nat == spec_retry_delay(k as nat),
            cur <= RETRY_MAX_MS,
        decreases attempt - k,
    {
        proof {
            lemma_raw_backoff_step_ge(k as nat);
        }
        if cur >= RETRY_MAX_MS {
            assert(raw_backoff((k + 1) as nat) > RETRY_MAX_MS as nat);
        } else {
            assert(cur as nat == raw_backoff(k as nat));
            assert(cur * RETRY_BASE_MS == raw_backoff((k + 1) as nat));
        }
        let next = if cur >= RETRY_MAX_MS {
            RETRY_MAX_MS
        } else {
            let wide = cur * RETRY_BASE_MS;
            if wide > RETRY_MAX_MS {
                RETRY_MAX_MS
            } else {
                wide
            }
        };
        cur = next;
        k += 1;
    }
    cur
}

/// What one attempt came to.
#[derive(PartialEq, Eq, Structural, Clone, Copy, Debug)]
pub enum AttemptOutcome {
    Success,
    TransientError,
    PermanentError,
}

/// What the loop does next after an attempt.
#[derive(PartialEq, Eq, Structural, Clone, Copy, Debug)]
pub enum LoopAction {
    /// Try the run again after this many milliseconds.
    RetryAfter(u64),
    /// Record success in the store and wait for the next tick.
    RecordSuccess,
    /// Retries are exhausted: record the failure in the store and wait
    /// for the next tick; the loop goes on.
    RecordErrorAndContinue,
    /// A permanent failure: the loop ends; only a restart resumes it.
    StopLoop,
}

/// The loop's decision after attempt number `attempts_made` of one run
/// ended with `outcome`.
pub open spec fn spec_next_action(attempts_made: nat, outcome: AttemptOutcome) -> LoopAction {
    match outcome {
        AttemptOutcome::Success => LoopAction::RecordSuccess,
        AttemptOutcome::PermanentError => LoopAction::StopLoop,
        AttemptOutcome::TransientError => if attempts_made < MAX_RETRIES as nat {
            LoopAction::RetryAfter(spec_retry_delay(attempts_made) as u64)
        } else {
            LoopAction::RecordErrorAndContinue
        },
    }
}

/// Decides what the loop does after an attempt: success is recorded; a
/// permanent failure stops the loop with no retry; a transient failure
/// is retried with the backoff delay until the attempt bound is reached,
/// then recorded as an error while the loop keeps ticking.
pub fn next_action(attempts_made: u64, outcome: AttemptOutcome) -> (r: LoopAction)
    requires
        1 <= attempts_made <= MAX_RETRIES,
    ensures
        r == spec_next_action(attempts_made as nat, outcome),
{
    match outcome {
        AttemptOutcome::Success => LoopAction::RecordSuccess,
        AttemptOutcome::PermanentError => LoopAction::StopLoop,
        AttemptOutcome::TransientError => {
            if attempts_made < MAX_RETRIES {
                proof {
                    lemma_backoff_monotone_capped(attempts_made as nat, attempts_made as nat);
                }
                LoopAction::RetryAfter(retry_delay_ms(attempts_made))
            } else {
                LoopAction::RecordErrorAndContinue
            }
        },
    }
}

/// How one run — one tick's attempt and its retries — ends.
#[derive(PartialEq, Eq, Structural, Clone, Copy, Debug)]
pub enum RunDisposition {
    /// The run succeeded on some attempt.
    Succeeded,
    /// A permanent failure ended the loop.
    Stopped,
    /// Every attempt failed transiently; the failure is recorded and the
    /// loop ticks on.
    Exhausted,
    /// The outcome sequence ended before the run did.
    Incomplete,
}

/// How a run ends, given the outcomes of its attempts in order;
/// `attempts_made` attempts came before `outcomes[0]`'s.
pub open spec fn run_disposition(outcomes: Seq<AttemptOutcome>, attempts_made: nat) -> RunDisposition
    decreases outcomes.len(),
{
    if outcomes.len() == 0 {
        RunDisposition::Incomplete
    } else {
        match outcomes[0] {
            AttemptOutcome::Success => RunDisposition::Succeeded,
            AttemptOutcome::PermanentError => RunDisposition::Stopped,
            AttemptOutcome::TransientError => if attempts_made < MAX_RETRIES as nat {
                run_disposition(outcomes.skip(1), attempts_made + 1)
            } else {
                RunDisposition::Exhausted
            },
        }
    }
}

/// How many attempts a run makes before it ends.
pub open spec fn attempts_used(outcomes: Seq<AttemptOutcome>, attempts_made: nat) -> nat
    decreases outcomes.len(),
{
    if outcomes.len() == 0 {
        0
    } else {
        match outcomes[0] {
            AttemptOutcome::Success => 1,
            AttemptOutcome::PermanentError => 1,
            AttemptOutcome::TransientError => if attempts_made < MAX_RETRIES as nat {
                1 + attempts_used(outcomes.skip(1), attempts_made + 1)
            } else {
                1
            },
        }
    }
}

/// A permanent classification on the first attempt stops the loop after
/// exactly one attempt: no retry is issued, and the loop never ticks
/// again.
pub proof fn lemma_permanent_stops_first_attempt(outcomes: Seq<AttemptOutcome>)
    requires
        outcomes.len() > 0,
        outcomes[0] == AttemptOutcome::PermanentError,
    ensures
        run_disposition(outcomes, 1) == RunDisposition::Stopped,
        attempts_used(outcomes, 1) == 1,
        spec_next_action(1, outcomes[0]) == LoopAction::StopLoop,
{
}

proof fn lemma_all_transient_exhausts_from(outcomes: Seq<AttemptOutcome>, attempts_made: nat)
    requires
        1 <= attempts_made <= MAX_RETRIES as nat,
        outcomes.len() >= MAX_RETRIES as nat + 1 - attempts_made,
        forall|i: int| 0 <= i < outcomes.len() ==> outcomes[i] == AttemptOutcome::TransientError,
    ensures
        run_disposition(outcomes, attempts_made) == RunDisposition::Exhausted,
        attempts_used(outcomes, attempts_made) == MAX_RETRIES as nat + 1 - attempts_made,
    decreases outcomes.len(),
{
    if attempts_made < MAX_RETRIES as nat {
        assert(forall|i: int|
            0 <= i < outcomes.skip(1).len() ==> outcomes.skip(1)[i]
                == AttemptOutcome::TransientError);
        lemma_all_transient_exhausts_from(outcomes.skip(1), attempts_made + 1);
    }
}

/// A run whose every attempt fails transiently makes exactly the maximum
/// number of attempts, each retry waiting a non-decreasing delay that
/// never exceeds the cap, and ends recorded as an error with the loop
/// still ticking.
pub proof fn lemma_transient_run_exhausts(outcomes: Seq<AttemptOutcome>)
    requires
        outcomes.len() >= MAX_RETRIES as nat,
        forall|i: int| 0 <= i < outcomes.len() ==> outcomes[i] == AttemptOutcome::TransientError,
    ensures
        run_disposition(outcomes, 1) == RunDisposition::Exhausted,
        attempts_used(outcomes, 1) == MAX_RETRIES as nat,
        forall|a: nat, b: nat|
            1 <= a <= b < MAX_RETRIES as nat ==> #[trigger] spec_retry_delay(a)
                <= #[trigger] spec_retry_delay(b) && spec_retry_delay(b) <= RETRY_MAX_MS as nat,
{
    lemma_all_transient_exhausts_from(outcomes, 1);
    assert forall|a: nat, b: nat| 1 <= a <= b < MAX_RETRIES as nat implies #[trigger] spec_retry_delay(
        a,
    ) <= #[trigger] spec_retry_delay(b) && spec_retry_delay(b) <= RETRY_MAX_MS as nat by {
        lemma_backoff_monotone_capped(a, b);
    }
}

/// One configured resource, as scheduling sees it: its identity and its
/// sync interval in seconds. An interval of zero means manual sync only.
#[derive(PartialEq, Eq, Structural, Clone, Copy, Debug)]
pub struct ResourceSpec {
    pub id: i64,
    pub is_destination: bool,
    pub interval_secs: u64,
}

/// The resources that get a scheduler loop: those with a positive
/// interval, in configuration order.
pub open spec fn spec_scheduled(rs: Seq<ResourceSpec>) -> Seq<ResourceSpec>
    decreases rs.len(),
{
    if rs.len() == 0 {
        seq![]
    } else {
        spec_scheduled(rs.drop_last()) + if rs.last().interval_secs > 0 {
            seq![rs.last()]
        } else {
            seq![]
        }
    }
}

/// Every scheduled resource has a positive interval: a resource
/// configured with interval zero never has a loop created.
pub proof fn lemma_zero_interval_never_scheduled(rs: Seq<ResourceSpec>, r: ResourceSpec)
    requires
        spec_scheduled(rs).contains(r),
    ensures
        r.interval_secs > 0,
    decreases rs.len(),
{
    if rs.len() > 0 {
        if rs.last().interval_secs > 0 {
            if spec_scheduled(rs.drop_last()).contains(r) {
                lemma_zero_interval_never_scheduled(rs.drop_last(), r);
            }
        } else {
            assert(spec_scheduled(rs) =~= spec_scheduled(rs.drop_last()));
            lemma_zero_interval_never_scheduled(rs.drop_last(), r);
        }
    }
}

/// Picks the resources that get a loop: exactly those whose interval is
/// positive, in order.
pub fn plan_loops(resources: &Vec<ResourceSpec>) -> (r: Vec<ResourceSpec>)
    ensures
        r@ == spec_scheduled(resources@),
{
    let mut r: Vec<ResourceSpec> = Vec::new();
    let mut i: usize = 0;
    proof {
        assert(resources@.subrange(0, 0) =~= Seq::<ResourceSpec>::empty());
        assert(r@ =~= spec_scheduled(resources@.subrange(0, 0)));
    }
    while i < resources.len()
        invariant
            i <= resources@.len(),
            r@ == spec_scheduled(resources@.subrange(0, i as int)),
        decreases resources@.len() - i,
    {
        let ghost prev = r@;
        proof {
            let t = resources@.subrange(0, i + 1);
            assert(t.drop_last() =~= resources@.subrange(0, i as int));
            assert(t.last() == resources@[i as int]);
        }
        if resources[i].interval_secs > 0 {
            r.push(resources[i]);
            proof {
                assert(r@ =~= prev + seq![resources@[i as int]]);
            }
        } else {
            proof {
                assert(r@ =~= prev + Seq::<ResourceSpec>::empty());
            }
        }
        i += 1;
    }
    proof {
        assert(resources@.subrange(0, resources@.len() as int) =~= resources@);
    }
    r
}

/// A resource's status after a completed run: synced on success, failed
/// otherwise — never pending again.
#[derive(PartialEq, Eq, Structural, Clone, Copy, Debug)]
pub enum SyncStatus {
    Pending,
    Synced,
    Failed,
}

impl SyncStatus {
    /// The status name the store records.
    pub fn name(self) -> (r: &'static str)
        ensures
            self == SyncStatus::Pending ==> r@ == "pending"@,
            self == SyncStatus::Synced ==> r@ == "ok"@,
            self == SyncStatus::Failed ==> r@ == "error"@,
    {
        match self {
            SyncStatus::Pending => "pending",
            SyncStatus::Synced => "ok",
            SyncStatus::Failed => "error",
        }
    }
}

/// The status written after a run: `Synced` iff the run succeeded, and
/// never `Pending` — pending exists only before the first run.
pub fn status_after_run(success: bool) -> (r: SyncStatus)
    ensures
        r == (if success {
            SyncStatus::Synced
        } else {
            SyncStatus::Failed
        }),
        r != SyncStatus::Pending,
{
    if success {
        SyncStatus::Synced
    } else {
        SyncStatus::Failed
    }
}

/// Which pipeline a scheduled resource drives.
#[derive(PartialEq, Eq, Structural, Clone, Copy, Debug)]
pub enum SyncKind {
    Source(i64),
    Destination(i64),
}

/// One status write the store is asked to make.
pub struct StatusWrite {
    pub destination: bool,
    pub id: i64,
    pub status: SyncStatus,
    pub message: Option<String>,
}

impl SyncKind {
    /// The store write recording a failed run: status `error` with the
    /// run's last message, against the source or destination the loop
    /// belongs to.
    pub fn write_error_status(&self, message: String) -> (r: StatusWrite)
        ensures
            r.destination == (self is Destination),
            r.id == (match *self {
                SyncKind::Source(id) => id,
                SyncKind::Destination(id) => id,
            }),
            r.status == SyncStatus::Failed,
            r.message == Option::Some(message),
    {
        match self {
            SyncKind::Source(id) => StatusWrite {
                destination: false,
                id: *id,
                status: SyncStatus::Failed,
                message: Option::Some(message),
            },
            SyncKind::Destination(id) => StatusWrite {
                destination: true,
                id: *id,
                status: SyncStatus::Failed,
                message: Option::Some(message),
            },
        }
    }
}

/// Reads the configured auto-sync interval: the number of minutes as a
/// decimal string, converted to seconds. `None` — scheduling disabled —
/// when the value is not a number, is zero, or would overflow in
/// seconds.
pub fn auto_sync_interval_secs(config_value: &str) -> (r: Option<u64>)
    ensures
        r is Some <==> config_value@.len() > 0 && all_digits(config_value@) && 0 < dec_val(
            config_value@,
        ) && dec_val(config_value@) * 60 <= u64::MAX,
        r matches Some(v) ==> v == dec_val(config_value@) * 60,
{
    match parse_u64(config_value) {
        Option::Some(minutes) => {
            if minutes == 0 {
                Option::None
            } else if minutes <= u64::MAX / 60 {
                proof {
                    assert(minutes * 60 <= (u64::MAX / 60) * 60 <= u64::MAX) by (nonlinear_arith)
                        requires
                            minutes <= u64::MAX / 60,
                    ;
                }
                Option::Some(minutes * 60)
            } else {
                proof {
                    assert(minutes * 60 > u64::MAX) by (nonlinear_arith)
                        requires
                            minutes > u64::MAX / 60,
                    ;
                }
                Option::None
            }
        },
        Option::None => Option::None,
    }
}

} // verus!
