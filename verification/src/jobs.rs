use vstd::prelude::*;
use vstd::string::*;

use crate::artifact::{ArtifactId, InputHash};
use crate::text::{all_bytes_allowed, bytes_all_allowed, utf8_of, COLON, SLASH};

verus! {

/// Longest local job identifier, in bytes.
pub const MAX_LOCAL_ID_LEN: usize = 128;

/// Longest identifier that an outside system may hand us, in bytes.
pub const MAX_EXTERNAL_ID_LEN: usize = 256;

/// A job identifier is not bounded portable ASCII.
#[derive(Debug, Clone, Copy, PartialEq, Eq, Structural)]
pub struct JobValueError;

/// Non-empty, at most `max_len` UTF-8 bytes, each byte portable or in `extra`.
pub open spec fn is_portable_text(s: Seq<char>, max_len: usize, extra: Seq<u8>) -> bool {
    s.len() != 0 && utf8_of(s).len() <= max_len && all_bytes_allowed(utf8_of(s), extra)
}

/// `is_portable_text` of a string slice.
pub open spec fn is_portable_identifier(s: &str, max_len: usize, extra: Seq<u8>) -> bool {
    is_portable_text(s@, max_len, extra)
}

/// The extra bytes an idempotency key may hold.
pub open spec fn idempotency_extra() -> Seq<u8> {
    seq![COLON]
}

/// The extra bytes a provider job handle may hold.
pub open spec fn provider_job_extra() -> Seq<u8> {
    seq![COLON, SLASH]
}

fn portable_identifier(value: &str, max_len: usize, extra: &[u8]) -> (r: Result<String, JobValueError>)
    ensures
        r is Ok <==> is_portable_identifier(value, max_len, extra@),
        r matches Ok(s) ==> s@ == value@,
{
    let bytes = value.as_bytes();
    if value.is_empty() || bytes.len() > max_len || !bytes_all_allowed(bytes, extra) {
        Err(JobValueError)
    } else {
        Ok(value.to_owned())
    }
}

/// Local identifier of a paid job.
#[derive(Debug, PartialEq, Eq, PartialOrd, Ord, Hash)]
pub struct JobId(String);

impl View for JobId {
    type V = Seq<char>;

    closed spec fn view(&self) -> Seq<char> {
        self.0@
    }
}

impl Clone for JobId {
    fn clone(&self) -> (r: Self)
        ensures
            r == *self,
    {
        proof {
            use_type_invariant(self);
        }
        JobId(self.0.clone())
    }
}

impl JobId {
    #[verifier::type_invariant]
    spec fn valid(self) -> bool {
        is_portable_text(self.0@, MAX_LOCAL_ID_LEN, Seq::empty())
    }

    /// Every value that exists passed validation.
    pub fn assert_valid(&self)
        ensures
            is_portable_text(self@, MAX_LOCAL_ID_LEN, Seq::empty()),
    {
        proof {
            use_type_invariant(self);
        }
    }

    pub fn new(value: &str) -> (r: Result<JobId, JobValueError>)
        ensures
            r is Ok <==> is_portable_identifier(value, MAX_LOCAL_ID_LEN, Seq::empty()),
            r matches Ok(id) ==> id@ == value@,
    {
        let no_extra: Vec<u8> = Vec::new();
        match portable_identifier(value, MAX_LOCAL_ID_LEN, no_extra.as_slice()) {
            Ok(s) => Ok(JobId(s)),
            Err(e) => Err(e),
        }
    }

    pub fn as_str(&self) -> (s: &str)
        ensures
            s@ == self@,
    {
        self.0.as_str()
    }

    pub fn same_as(&self, other: &JobId) -> (r: bool)
        ensures
            r == (self@ == other@),
    {
        self.0 == other.0
    }
}

/// Deterministic key under which a provider deduplicates paid work.
#[derive(Debug, PartialEq, Eq, PartialOrd, Ord, Hash)]
pub struct IdempotencyKey(String);

impl View for IdempotencyKey {
    type V = Seq<char>;

    closed spec fn view(&self) -> Seq<char> {
        self.0@
    }
}

impl Clone for IdempotencyKey {
    fn clone(&self) -> (r: Self)
        ensures
            r == *self,
    {
        proof {
            use_type_invariant(self);
        }
        IdempotencyKey(self.0.clone())
    }
}

impl IdempotencyKey {
    #[verifier::type_invariant]
    spec fn valid(self) -> bool {
        is_portable_text(self.0@, MAX_EXTERNAL_ID_LEN, idempotency_extra())
    }

    /// Every value that exists passed validation.
    pub fn assert_valid(&self)
        ensures
            is_portable_text(self@, MAX_EXTERNAL_ID_LEN, idempotency_extra()),
    {
        proof {
            use_type_invariant(self);
        }
    }

    pub fn new(value: &str) -> (r: Result<IdempotencyKey, JobValueError>)
        ensures
            r is Ok <==> is_portable_identifier(value, MAX_EXTERNAL_ID_LEN, idempotency_extra()),
            r matches Ok(k) ==> k@ == value@,
    {
        let extra: Vec<u8> = vec![COLON];
        assert(extra@ =~= idempotency_extra());
        match portable_identifier(value, MAX_EXTERNAL_ID_LEN, extra.as_slice()) {
            Ok(s) => Ok(IdempotencyKey(s)),
            Err(e) => Err(e),
        }
    }

    pub fn as_str(&self) -> (s: &str)
        ensures
            s@ == self@,
    {
        self.0.as_str()
    }

    pub fn same_as(&self, other: &IdempotencyKey) -> (r: bool)
        ensures
            r == (self@ == other@),
    {
        self.0 == other.0
    }
}

/// A provider's own handle for remote work.
#[derive(Debug, PartialEq, Eq, PartialOrd, Ord, Hash)]
pub struct ProviderJobId(String);

impl View for ProviderJobId {
    type V = Seq<char>;

    closed spec fn view(&self) -> Seq<char> {
        self.0@
    }
}

impl Clone for ProviderJobId {
    fn clone(&self) -> (r: Self)
        ensures
            r == *self,
    {
        proof {
            use_type_invariant(self);
        }
        ProviderJobId(self.0.clone())
    }
}

impl ProviderJobId {
    #[verifier::type_invariant]
    spec fn valid(self) -> bool {
        is_portable_text(self.0@, MAX_EXTERNAL_ID_LEN, provider_job_extra())
    }

    /// Every value that exists passed validation.
    pub fn assert_valid(&self)
        ensures
            is_portable_text(self@, MAX_EXTERNAL_ID_LEN, provider_job_extra()),
    {
        proof {
            use_type_invariant(self);
        }
    }

    pub fn new(value: &str) -> (r: Result<ProviderJobId, JobValueError>)
        ensures
            r is Ok <==> is_portable_identifier(value, MAX_EXTERNAL_ID_LEN, provider_job_extra()),
            r matches Ok(k) ==> k@ == value@,
    {
        let extra: Vec<u8> = vec![COLON, SLASH];
        assert(extra@ =~= provider_job_extra());
        match portable_identifier(value, MAX_EXTERNAL_ID_LEN, extra.as_slice()) {
            Ok(s) => Ok(ProviderJobId(s)),
            Err(e) => Err(e),
        }
    }

    pub fn as_str(&self) -> (s: &str)
        ensures
            s@ == self@,
    {
        self.0.as_str()
    }
}

/// Coarse state of a job as shown to the user.
#[derive(Debug, Clone, Copy, PartialEq, Eq, Structural)]
pub enum JobStatus {
    Queued,
    Running,
    WaitingForUser,
    Succeeded,
    Failed,
    Canceled,
}

/// Write-ahead state of a paid job intent.
#[derive(Debug, Clone, Copy, PartialEq, Eq, Structural)]
pub enum IntentState {
    Prepared,
    Invoked,
    Reconciled,
}

/// The only moves of the write-ahead lifecycle: prepared → invoked → reconciled.
pub open spec fn intent_step(from: IntentState, to: IntentState) -> bool {
    (from == IntentState::Prepared && to == IntentState::Invoked) || (from == IntentState::Invoked
        && to == IntentState::Reconciled)
}

/// Copy of an optional artifact identifier.
pub fn clone_artifact_id(id: &Option<ArtifactId>) -> (r: Option<ArtifactId>)
    ensures
        r == *id,
{
    match id {
        Some(a) => Some(a.clone()),
        None => None,
    }
}

/// Copy of an optional provider handle.
pub fn clone_provider_job_id(id: &Option<ProviderJobId>) -> (r: Option<ProviderJobId>)
    ensures
        r == *id,
{
    match id {
        Some(a) => Some(a.clone()),
        None => None,
    }
}

/// A paid job intent persisted before any provider call.
#[derive(Debug, PartialEq, Eq)]
pub struct JobIntent {
    job_id: JobId,
    operation: String,
    idempotency_key: IdempotencyKey,
    input_hash: InputHash,
    artifact_id: Option<ArtifactId>,
    provider_job_id: Option<ProviderJobId>,
    state: IntentState,
}

/// Refused intent construction or transition.
#[derive(Debug, Clone, Copy, PartialEq, Eq, Structural)]
pub enum JobIntentError {
    MissingOperation,
    InvalidTransition,
}

impl Clone for JobIntent {
    fn clone(&self) -> (r: Self)
        ensures
            r == *self,
    {
        proof {
            use_type_invariant(self);
        }
        JobIntent {
            job_id: self.job_id.clone(),
            operation: self.operation.clone(),
            idempotency_key: self.idempotency_key.clone(),
            input_hash: self.input_hash.clone(),
            artifact_id: clone_artifact_id(&self.artifact_id),
            provider_job_id: clone_provider_job_id(&self.provider_job_id),
            state: self.state,
        }
    }
}

impl JobIntent {
    #[verifier::type_invariant]
    spec fn valid(self) -> bool {
        self.operation@.len() != 0 && (self.state == IntentState::Prepared
            ==> self.provider_job_id is None)
    }

    /// Every intent names an operation, and a prepared one has no remote handle.
    pub fn assert_valid(&self)
        ensures
            self.spec_operation().len() != 0,
            self.spec_state() == IntentState::Prepared ==> self.spec_provider_job_id() is None,
    {
        proof {
            use_type_invariant(self);
        }
    }

    pub closed spec fn spec_job_id(&self) -> JobId {
        self.job_id
    }

    pub closed spec fn spec_operation(&self) -> Seq<char> {
        self.operation@
    }

    pub closed spec fn spec_idempotency_key(&self) -> IdempotencyKey {
        self.idempotency_key
    }

    pub closed spec fn spec_input_hash(&self) -> InputHash {
        self.input_hash
    }

    pub closed spec fn spec_artifact_id(&self) -> Option<ArtifactId> {
        self.artifact_id
    }

    pub closed spec fn spec_provider_job_id(&self) -> Option<ProviderJobId> {
        self.provider_job_id
    }

    pub closed spec fn spec_state(&self) -> IntentState {
        self.state
    }

    /// A fresh intent is prepared and carries no provider handle.
    pub fn new(
        job_id: JobId,
        operation: &str,
        idempotency_key: IdempotencyKey,
        input_hash: InputHash,
        artifact_id: Option<ArtifactId>,
    ) -> (r: Result<Self, JobIntentError>)
        ensures
            r is Err <==> operation@.len() == 0,
            r matches Err(e) ==> e == JobIntentError::MissingOperation,
            r matches Ok(i) ==> i.spec_job_id() == job_id && i.spec_operation() == operation@
                && i.spec_idempotency_key() == idempotency_key && i.spec_input_hash()
                == input_hash && i.spec_artifact_id() == artifact_id && i.spec_provider_job_id()
                is None && i.spec_state() == IntentState::Prepared,
    {
        if operation.is_empty() {
            return Err(JobIntentError::MissingOperation);
        }
        Ok(
            JobIntent {
                job_id,
                operation: operation.to_owned(),
                idempotency_key,
                input_hash,
                artifact_id,
                provider_job_id: None,
                state: IntentState::Prepared,
            },
        )
    }

    pub fn job_id(&self) -> (r: &JobId)
        ensures
            *r == self.spec_job_id(),
    {
        &self.job_id
    }

    pub fn operation(&self) -> (r: &str)
        ensures
            r@ == self.spec_operation(),
    {
        self.operation.as_str()
    }

    pub fn idempotency_key(&self) -> (r: &IdempotencyKey)
        ensures
            *r == self.spec_idempotency_key(),
    {
        &self.idempotency_key
    }

    pub fn input_hash(&self) -> (r: &InputHash)
        ensures
            *r == self.spec_input_hash(),
    {
        &self.input_hash
    }

    pub fn artifact_id(&self) -> (r: Option<&ArtifactId>)
        ensures
            match r {
                Some(a) => self.spec_artifact_id() == Some(*a),
                None => self.spec_artifact_id() is None,
            },
    {
        match &self.artifact_id {
            Some(a) => Some(a),
            None => None,
        }
    }

    pub fn provider_job_id(&self) -> (r: Option<&ProviderJobId>)
        ensures
            match r {
                Some(a) => self.spec_provider_job_id() == Some(*a),
                None => self.spec_provider_job_id() is None,
            },
    {
        match &self.provider_job_id {
            Some(a) => Some(a),
            None => None,
        }
    }

    pub fn state(&self) -> (r: IntentState)
        ensures
            r == self.spec_state(),
    {
        self.state
    }

    /// Records that a provider call may have happened; only a prepared intent
    /// may move, and it records the remote handle if the provider gave one.
    pub fn mark_invoked(&mut self, provider_job_id: Option<ProviderJobId>) -> (r: Result<
        (),
        JobIntentError,
    >)
        ensures
            r is Ok <==> old(self).spec_state() == IntentState::Prepared,
            r is Ok ==> final(self).spec_state() == IntentState::Invoked
                && final(self).spec_provider_job_id() == provider_job_id,
            r matches Err(e) ==> e == JobIntentError::InvalidTransition && *final(self)
                == *old(self),
            final(self).spec_job_id() == old(self).spec_job_id(),
            final(self).spec_operation() == old(self).spec_operation(),
            final(self).spec_idempotency_key() == old(self).spec_idempotency_key(),
            final(self).spec_input_hash() == old(self).spec_input_hash(),
            final(self).spec_artifact_id() == old(self).spec_artifact_id(),
        no_unwind
    {
        proof {
            use_type_invariant(&*self);
        }
        if self.state != IntentState::Prepared {
            return Err(JobIntentError::InvalidTransition);
        }
        self.state = IntentState::Invoked;
        self.provider_job_id = provider_job_id;
        Ok(())
    }

    /// Records that the result is durably attached to canonical state.
    pub fn mark_reconciled(&mut self) -> (r: Result<(), JobIntentError>)
        ensures
            r is Ok <==> old(self).spec_state() == IntentState::Invoked,
            r is Ok ==> final(self).spec_state() == IntentState::Reconciled,
            r matches Err(e) ==> e == JobIntentError::InvalidTransition,
            r is Ok ==> final(self).spec_provider_job_id() == old(self).spec_provider_job_id(),
            r is Err ==> *final(self) == *old(self),
            final(self).spec_job_id() == old(self).spec_job_id(),
            final(self).spec_operation() == old(self).spec_operation(),
            final(self).spec_idempotency_key() == old(self).spec_idempotency_key(),
            final(self).spec_input_hash() == old(self).spec_input_hash(),
            final(self).spec_artifact_id() == old(self).spec_artifact_id(),
        no_unwind
    {
        proof {
            use_type_invariant(&*self);
        }
        if self.state != IntentState::Invoked {
            return Err(JobIntentError::InvalidTransition);
        }
        self.state = IntentState::Reconciled;
        Ok(())
    }
}

/// The intent lifecycle never skips a step and never moves backwards: every
/// successful `mark_invoked` or `mark_reconciled` follows `intent_step`, and
/// no step leaves `Reconciled` or enters `Prepared`.
pub proof fn lemma_intent_lifecycle_is_linear(from: IntentState, to: IntentState)
    ensures
        intent_step(from, to) ==> from != to,
        from == IntentState::Reconciled ==> !intent_step(from, to),
        to == IntentState::Prepared ==> !intent_step(from, to),
        from == IntentState::Prepared && to == IntentState::Reconciled ==> !intent_step(from, to),
{
}

/// ISO-style currency code: three uppercase ASCII letters.
#[derive(Debug, Clone, Copy, PartialEq, Eq)]
pub struct CurrencyCode([u8; 3]);

/// A currency code with a byte that is not an uppercase ASCII letter.
#[derive(Debug, Clone, Copy, PartialEq, Eq, Structural)]
pub struct CurrencyCodeError;

pub open spec fn is_ascii_uppercase(b: u8) -> bool {
    65 <= b && b <= 90
}

impl CurrencyCode {
    pub closed spec fn spec_bytes(&self) -> Seq<u8> {
        self.0@
    }

    pub fn new(code: [u8; 3]) -> (r: Result<Self, CurrencyCodeError>)
        ensures
            r is Ok <==> forall|i: int| 0 <= i < 3 ==> is_ascii_uppercase(#[trigger] code@[i]),
            r matches Ok(c) ==> c.spec_bytes() == code@,
    {
        let mut i: usize = 0;
        while i < 3
            invariant
                0 <= i <= 3,
                forall|j: int| 0 <= j < i ==> is_ascii_uppercase(#[trigger] code@[j]),
            decreases 3 - i,
        {
            let b = code[i];
            if !(65 <= b && b <= 90) {
                return Err(CurrencyCodeError);
            }
            i = i + 1;
        }
        Ok(CurrencyCode(code))
    }

    pub fn bytes(self) -> (r: [u8; 3])
        ensures
            r@ == self.spec_bytes(),
    {
        self.0
    }

    /// Byte-wise equality of two codes.
    pub fn same_as(self, other: CurrencyCode) -> (r: bool)
        ensures
            r == (self.spec_bytes() == other.spec_bytes()),
    {
        let r = self.0[0] == other.0[0] && self.0[1] == other.0[1] && self.0[2] == other.0[2];
        proof {
            if r {
                assert(self.0@ =~= other.0@);
            }
        }
        r
    }
}

/// Integer money estimate of a provider request.
#[derive(Debug, Clone, Copy, PartialEq, Eq)]
pub struct CostEstimate {
    pub call_count: u32,
    pub amount_micros: u64,
    pub currency: CurrencyCode,
    pub estimated_duration_ms: Option<u64>,
}

/// How a provider error may be handled.
#[derive(Debug, Clone, Copy, PartialEq, Eq, Structural)]
pub enum ErrorClass {
    Retryable,
    Terminal,
}

/// Validated exponential backoff: at least one attempt, base ≤ max delay.
#[derive(Debug, Clone, Copy, PartialEq, Eq, Structural)]
pub struct BackoffPolicy {
    base_delay_ms: u64,
    max_delay_ms: u64,
    max_attempts: u16,
}

/// Refused backoff configuration.
#[derive(Debug, Clone, Copy, PartialEq, Eq, Structural)]
pub struct BackoffPolicyError;

impl BackoffPolicy {
    #[verifier::type_invariant]
    spec fn valid(self) -> bool {
        self.max_attempts > 0 && self.base_delay_ms <= self.max_delay_ms
    }

    pub closed spec fn spec_base_delay_ms(self) -> u64 {
        self.base_delay_ms
    }

    pub closed spec fn spec_max_delay_ms(self) -> u64 {
        self.max_delay_ms
    }

    pub closed spec fn spec_max_attempts(self) -> u16 {
        self.max_attempts
    }

    pub fn new(base_delay_ms: u64, max_delay_ms: u64, max_attempts: u16) -> (r: Result<
        Self,
        BackoffPolicyError,
    >)
        ensures
            r is Ok <==> max_attempts != 0 && base_delay_ms <= max_delay_ms,
            r matches Ok(p) ==> p.spec_base_delay_ms() == base_delay_ms && p.spec_max_delay_ms()
                == max_delay_ms && p.spec_max_attempts() == max_attempts,
    {
        if max_attempts == 0 || base_delay_ms > max_delay_ms {
            Err(BackoffPolicyError)
        } else {
            Ok(BackoffPolicy { base_delay_ms, max_delay_ms, max_attempts })
        }
    }

    pub fn base_delay_ms(self) -> (r: u64)
        ensures
            r == self.spec_base_delay_ms(),
            r <= self.spec_max_delay_ms(),
    {
        proof {
            use_type_invariant(&self);
        }
        self.base_delay_ms
    }

    pub fn max_delay_ms(self) -> (r: u64)
        ensures
            r == self.spec_max_delay_ms(),
    {
        self.max_delay_ms
    }

    pub fn max_attempts(self) -> (r: u16)
        ensures
            r == self.spec_max_attempts(),
            r >= 1,
    {
        proof {
            use_type_invariant(&self);
        }
        self.max_attempts
    }
}

/// Whether an expensive fallback provider may be used at all.
#[derive(Debug, Clone, Copy, PartialEq, Eq, Structural)]
pub enum PaidFallback {
    Forbidden,
    Allowed,
}

/// Explicit paid-fallback configuration with a spend ceiling.
#[derive(Debug, Clone, Copy, PartialEq, Eq, Structural)]
pub struct FallbackPolicy {
    pub paid_fallback: PaidFallback,
    pub max_paid_amount_micros: Option<u64>,
    pub require_user_approval: bool,
}

impl FallbackPolicy {
    /// Allowed fallback within the ceiling, if any.
    pub open spec fn spec_allows_paid_amount(self, amount_micros: u64) -> bool {
        self.paid_fallback == PaidFallback::Allowed && match self.max_paid_amount_micros {
            Some(limit) => amount_micros <= limit,
            None => true,
        }
    }

    pub fn allows_paid_amount(self, amount_micros: u64) -> (r: bool)
        ensures
            r == self.spec_allows_paid_amount(amount_micros),
    {
        if matches!(self.paid_fallback, PaidFallback::Forbidden) {
            return false;
        }
        match self.max_paid_amount_micros {
            Some(limit) => amount_micros <= limit,
            None => true,
        }
    }
}

/// A spend ceiling is monotone: an amount allowed under it keeps every
/// smaller amount allowed, and a forbidden fallback allows nothing.
pub proof fn lemma_paid_ceiling_is_monotone(policy: FallbackPolicy, amount: u64, smaller: u64)
    requires
        smaller <= amount,
    ensures
        policy.spec_allows_paid_amount(amount) ==> policy.spec_allows_paid_amount(smaller),
        policy.paid_fallback == PaidFallback::Forbidden ==> !policy.spec_allows_paid_amount(
            amount,
        ),
{
}

} // verus!

verus! {

/// Per-provider execution policy: a non-zero concurrency ceiling and a
/// backoff policy.
#[derive(Debug, Clone, Copy, PartialEq, Eq, Structural)]
pub struct ProviderExecutionPolicy {
    max_concurrency: u16,
    backoff: BackoffPolicy,
}

impl ProviderExecutionPolicy {
    #[verifier::type_invariant]
    spec fn valid(self) -> bool {
        self.max_concurrency >= 1
    }

    pub closed spec fn spec_max_concurrency(self) -> u16 {
        self.max_concurrency
    }

    pub closed spec fn spec_backoff(self) -> BackoffPolicy {
        self.backoff
    }

    /// The ceiling is a non-zero count of concurrent provider calls.
    pub fn new(max_concurrency: u16, backoff: BackoffPolicy) -> (p: Self)
        requires
            max_concurrency >= 1,
        ensures
            p.spec_max_concurrency() == max_concurrency,
            p.spec_backoff() == backoff,
    {
        ProviderExecutionPolicy { max_concurrency, backoff }
    }

    pub fn max_concurrency(self) -> (r: u16)
        ensures
            r == self.spec_max_concurrency(),
            r >= 1,
    {
        proof {
            use_type_invariant(&self);
        }
        self.max_concurrency
    }

    pub fn backoff(self) -> (r: BackoffPolicy)
        ensures
            r == self.spec_backoff(),
    {
        self.backoff
    }
}

} // verus!
