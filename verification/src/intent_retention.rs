use vstd::prelude::*;

use crate::artifact::{ArtifactId, InputHash};
use crate::job_runtime::{
    covers_key, idempotency_text, JobRuntime, JobRuntimeError, PrepareOutcome, ProviderKey,
    RuntimeIntent,
};
use crate::jobs::{
    idempotency_extra, is_portable_text, IdempotencyKey, IntentState, JobId, MAX_EXTERNAL_ID_LEN,
};

verus! {

/// Reconciled intents retained per provider unless configured otherwise.
pub const DEFAULT_RETAINED_INTENTS: u16 = 256;

/// How many reconciled intents, kept as diagnostic history, each provider
/// retains.
#[derive(Debug, Clone, Copy, PartialEq, Eq, Structural)]
pub struct IntentRetentionPolicy {
    pub max_reconciled: u16,
}

impl Default for IntentRetentionPolicy {
    fn default() -> (r: Self)
        ensures
            r.max_reconciled == DEFAULT_RETAINED_INTENTS,
    {
        IntentRetentionPolicy { max_reconciled: DEFAULT_RETAINED_INTENTS }
    }
}

/// What remains of a pruned intent: its provider and idempotency key, so
/// that the work it paid for cannot become payable again.
#[derive(Debug, PartialEq, Eq)]
pub struct IdempotencyTombstone {
    pub provider: ProviderKey,
    pub key: IdempotencyKey,
}

/// A record that pruning may remove: this provider's, and reconciled.
/// Prepared and invoked intents are recovery evidence and never prunable.
pub open spec fn prunable(runtime: JobRuntime, r: RuntimeIntent) -> bool {
    r.spec_provider()@ == runtime.spec_provider()@ && r.spec_state() == IntentState::Reconciled
}

/// Number of prunable records among the first `n`.
pub open spec fn count_prunable(runtime: JobRuntime, s: Seq<RuntimeIntent>, n: int) -> nat
    decreases n,
{
    if n <= 0 {
        0
    } else {
        count_prunable(runtime, s, n - 1) + if prunable(runtime, s[n - 1]) {
            1nat
        } else {
            0nat
        }
    }
}

/// How many prunable records exceed the retention bound.
pub open spec fn excess(runtime: JobRuntime, s: Seq<RuntimeIntent>, max: u16) -> nat {
    let total = count_prunable(runtime, s, s.len() as int);
    if total > max {
        (total - max) as nat
    } else {
        0
    }
}

/// Record `i` is pruned: it is among the first prunable records, in the
/// given order, beyond the number retained.
pub open spec fn pruned(runtime: JobRuntime, s: Seq<RuntimeIntent>, max: u16, i: int) -> bool {
    prunable(runtime, s[i]) && count_prunable(runtime, s, i + 1) <= excess(runtime, s, max)
}

/// Some tombstone covers `key` for `provider`.
pub open spec fn tombstoned(ts: Seq<IdempotencyTombstone>, provider: Seq<char>, key: Seq<char>) -> bool {
    exists|k: int| 0 <= k < ts.len() && #[trigger] ts[k].provider@ == provider && ts[k].key@ == key
}

proof fn lemma_count_prunable_bounded(runtime: JobRuntime, s: Seq<RuntimeIntent>, n: int)
    requires
        0 <= n <= s.len(),
    ensures
        count_prunable(runtime, s, n) <= n,
    decreases n,
{
    if n > 0 {
        lemma_count_prunable_bounded(runtime, s, n - 1);
    }
}

/// The tombstone a pruned intent leaves.
pub fn tombstone_of(record: &RuntimeIntent) -> (t: IdempotencyTombstone)
    ensures
        t.provider == record.spec_provider(),
        t.key == record.spec_intent().spec_idempotency_key(),
{
    IdempotencyTombstone {
        provider: record.provider().clone(),
        key: record.intent().idempotency_key().clone(),
    }
}

/// Whether some tombstone covers `key` for `provider`.
pub fn is_tombstoned(tombstones: &[IdempotencyTombstone], provider: &ProviderKey, key: &IdempotencyKey) -> (r: bool)
    ensures
        r == tombstoned(tombstones@, provider@, key@),
{
    let mut i: usize = 0;
    while i < tombstones.len()
        invariant
            0 <= i <= tombstones@.len(),
            forall|k: int| 0 <= k < i ==> !(#[trigger] tombstones@[k].provider@ == provider@
                && tombstones@[k].key@ == key@),
        decreases tombstones.len() - i,
    {
        if tombstones[i].provider.same_as(provider) && tombstones[i].key.same_as(key) {
            return true;
        }
        i = i + 1;
    }
    false
}

/// Where the write-ahead reservation of an idempotency key stands: written
/// before its intent, promoted once the intent is published.
#[derive(Debug, Clone, Copy, PartialEq, Eq, Structural)]
pub enum ReservationState {
    Reserved,
    Active,
}

/// An interrupted reservation may be cleared: one still `Reserved` whose
/// intent was never published, so no provider call could have happened.
pub fn reservation_may_be_cleared(state: ReservationState, intent_published: bool) -> (r: bool)
    ensures
        r == (state == ReservationState::Reserved && !intent_published),
{
    state == ReservationState::Reserved && !intent_published
}

/// A reservation read back belongs to the work looked up: it carries the
/// same provider and key, whatever file it was found under.
pub fn reservation_covers(
    reserved_provider: &ProviderKey,
    reserved_key: &IdempotencyKey,
    provider: &ProviderKey,
    key: &IdempotencyKey,
) -> (r: bool)
    ensures
        r == (reserved_provider@ == provider@ && reserved_key@ == key@),
{
    reserved_provider.same_as(provider) && reserved_key.same_as(key)
}

/// The tombstone a pruned intent leaves keeps its work covered: a later
/// `prepare_unless_paid` of the same key for the same provider is refused.
pub proof fn lemma_tombstones_keep_work_paid(ts: Seq<IdempotencyTombstone>, k: int, record: RuntimeIntent)
    requires
        0 <= k < ts.len(),
        ts[k].provider == record.spec_provider(),
        ts[k].key == record.spec_intent().spec_idempotency_key(),
    ensures
        tombstoned(ts, record.spec_provider()@, record.spec_intent().spec_idempotency_key()@),
{
    assert(ts[k].provider@ == record.spec_provider()@);
}

impl JobRuntime {
    /// The records that pruning removes after an acknowledgement, by index
    /// in ascending order: the earliest of this provider's reconciled
    /// intents, in the given order, beyond `policy.max_reconciled`. Prepared
    /// and invoked intents are never pruned, and exactly
    /// `policy.max_reconciled` reconciled ones stay when there are more.
    pub fn prune_plan(&self, records: &[RuntimeIntent], policy: IntentRetentionPolicy) -> (r: Vec<
        usize,
    >)
        ensures
            r@.len() == excess(*self, records@, policy.max_reconciled),
            forall|k: int| 0 <= k < r@.len() ==> (#[trigger] r@[k]) < records@.len(),
            forall|k: int, l: int| 0 <= k < l < r@.len() ==> r@[k] < r@[l],
            forall|i: int|
                0 <= i < records@.len() ==> (r@.contains(i as usize) <==> pruned(
                    *self,
                    records@,
                    policy.max_reconciled,
                    i,
                )),
    {
        let ghost s = records@;
        let mut total: usize = 0;
        let mut i: usize = 0;
        while i < records.len()
            invariant
                0 <= i <= s.len(),
                records@ == s,
                total == count_prunable(*self, s, i as int),
            decreases records.len() - i,
        {
            proof {
                lemma_count_prunable_bounded(*self, s, i as int);
            }
            if records[i].provider().same_as(self.provider()) && records[i].intent().state()
                == IntentState::Reconciled {
                total = total + 1;
            }
            i = i + 1;
        }
        let max = policy.max_reconciled as usize;
        let over: usize = if total > max {
            total - max
        } else {
            0
        };
        let mut plan: Vec<usize> = Vec::new();
        let mut seen: usize = 0;
        let mut j: usize = 0;
        while j < records.len()
            invariant
                0 <= j <= s.len(),
                records@ == s,
                over == excess(*self, s, policy.max_reconciled),
                seen == count_prunable(*self, s, j as int),
                plan@.len() == if seen <= over { seen } else { over },
                forall|k: int| 0 <= k < plan@.len() ==> (#[trigger] plan@[k]) < j,
                forall|k: int, l: int| 0 <= k < l < plan@.len() ==> plan@[k] < plan@[l],
                forall|x: int|
                    0 <= x < j ==> (plan@.contains(x as usize) <==> pruned(
                        *self,
                        s,
                        policy.max_reconciled,
                        x,
                    )),
            decreases records.len() - j,
        {
            proof {
                lemma_count_prunable_bounded(*self, s, j as int);
            }
            let ghost before = plan@;
            if records[j].provider().same_as(self.provider()) && records[j].intent().state()
                == IntentState::Reconciled {
                seen = seen + 1;
                if seen <= over {
                    plan.push(j);
                }
            }
            proof {
                assert forall|x: int| 0 <= x < j + 1 implies (plan@.contains(x as usize) <==> pruned(
                    *self,
                    s,
                    policy.max_reconciled,
                    x,
                )) by {
                    if x < j {
                        if plan@.contains(x as usize) && !before.contains(x as usize) {
                            assert(plan@.last() == j);
                        }
                        if before.contains(x as usize) {
                            let w = choose|w: int| 0 <= w < before.len() && before[w] == x as usize;
                            assert(plan@[w] == before[w]);
                        }
                    } else {
                        if plan@.contains(j) && plan@ == before {
                            let w = choose|w: int| 0 <= w < before.len() && before[w] == j;
                            assert(before[w] < j);
                        }
                        if pruned(*self, s, policy.max_reconciled, x) {
                            assert(plan@.last() == j);
                        }
                    }
                }
            }
            j = j + 1;
        }
        proof {
            lemma_count_prunable_bounded(*self, s, s.len() as int);
        }
        plan
    }

    /// Prepares paid work unless a pruned intent already paid for it: a key
    /// that a tombstone of this provider covers is refused as
    /// `AlreadyReconciled`; otherwise this is `prepare`.
    pub fn prepare_unless_paid(
        &self,
        tombstones: &[IdempotencyTombstone],
        stored: &[RuntimeIntent],
        job_id: JobId,
        operation: &str,
        input_hash: InputHash,
        artifact_id: Option<ArtifactId>,
    ) -> (r: Result<PrepareOutcome, JobRuntimeError>)
        ensures
            ({
                let key = idempotency_text(operation@, crate::job_runtime::opt_text(artifact_id), input_hash@);
                &&& !self.spec_read_only() && is_portable_text(key, MAX_EXTERNAL_ID_LEN, idempotency_extra())
                    && tombstoned(tombstones@, self.spec_provider()@, key) ==> r
                    == Err::<PrepareOutcome, JobRuntimeError>(JobRuntimeError::AlreadyReconciled)
                &&& !self.spec_read_only() && is_portable_text(key, MAX_EXTERNAL_ID_LEN, idempotency_extra())
                    && !tombstoned(tombstones@, self.spec_provider()@, key) && operation@.len() != 0
                    ==> r is Ok
                &&& r matches Ok(PrepareOutcome::Created(c)) ==> {
                    &&& !tombstoned(tombstones@, self.spec_provider()@, key)
                    &&& forall|j: int|
                        0 <= j < stored@.len() ==> !covers_key(
                            #[trigger] stored@[j],
                            self.spec_provider()@,
                            key,
                        )
                    &&& c.spec_provider() == self.spec_provider()
                    &&& c.spec_intent().spec_job_id() == job_id
                    &&& c.spec_intent().spec_idempotency_key()@ == key
                    &&& c.spec_intent().spec_input_hash() == input_hash
                    &&& c.spec_intent().spec_artifact_id() == artifact_id
                    &&& c.spec_state() == IntentState::Prepared
                    &&& c.spec_attempts() == 0
                }
                &&& r matches Ok(PrepareOutcome::Existing(e)) ==> exists|i: int|
                    0 <= i < stored@.len() && crate::job_runtime::same_record(stored@[i], e)
                        && covers_key(e, self.spec_provider()@, key)
                &&& self.spec_read_only() ==> r == Err::<PrepareOutcome, JobRuntimeError>(
                    JobRuntimeError::ReadOnlyProject,
                )
            }),
    {
        self.ensure_writable()?;
        let key = crate::job_runtime::derive_idempotency_key(operation, artifact_id.as_ref(), &input_hash)?;
        if is_tombstoned(tombstones, self.provider(), &key) {
            return Err(JobRuntimeError::AlreadyReconciled);
        }
        self.prepare(stored, job_id, operation, input_hash, artifact_id)
    }
}

} // verus!
