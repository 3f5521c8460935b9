use vstd::prelude::*;
use vstd::string::*;

use crate::artifact::{ArtifactId, ArtifactIdError, HashValueError, InputHash};
use crate::jobs::{
    idempotency_extra, is_portable_text, provider_job_extra, BackoffPolicy, CostEstimate,
    CurrencyCode, ErrorClass, FallbackPolicy, IdempotencyKey, IntentState, JobId, JobIntent,
    JobIntentError, JobValueError, MAX_EXTERNAL_ID_LEN, MAX_LOCAL_ID_LEN,
    ProviderExecutionPolicy, ProviderJobId,
};
use crate::shot_records::{clone_fields, fields_view, JsonField};
use crate::text::bytes_all_allowed;

verus! {

/// Longest provider key, in bytes.
pub const MAX_PROVIDER_KEY_LEN: usize = 128;

/// Bounded portable key naming one provider.
#[derive(Debug, PartialEq, Eq, PartialOrd, Ord, Hash)]
pub struct ProviderKey(String);

/// A provider key that is not bounded portable ASCII.
#[derive(Debug, Clone, Copy, PartialEq, Eq, Structural)]
pub struct ProviderKeyError;

impl View for ProviderKey {
    type V = Seq<char>;

    closed spec fn view(&self) -> Seq<char> {
        self.0@
    }
}

impl Clone for ProviderKey {
    fn clone(&self) -> (r: Self)
        ensures
            r == *self,
    {
        proof {
            use_type_invariant(self);
        }
        ProviderKey(self.0.clone())
    }
}

/// Non-empty, at most 128 bytes of ASCII letters, digits, `_`, `-`, `.`.
pub open spec fn is_provider_key_text(s: Seq<char>) -> bool {
    is_portable_text(s, MAX_PROVIDER_KEY_LEN, Seq::empty())
}

impl ProviderKey {
    #[verifier::type_invariant]
    spec fn valid(self) -> bool {
        is_provider_key_text(self.0@)
    }

    /// Every provider key that exists passed validation.
    pub fn assert_valid(&self)
        ensures
            is_provider_key_text(self@),
    {
        proof {
            use_type_invariant(self);
        }
    }

    pub fn new(value: &str) -> (r: Result<ProviderKey, ProviderKeyError>)
        ensures
            r is Ok <==> is_provider_key_text(value@),
            r matches Ok(k) ==> k@ == value@,
    {
        let bytes = value.as_bytes();
        let no_extra: Vec<u8> = Vec::new();
        if value.is_empty() || bytes.len() > MAX_PROVIDER_KEY_LEN || !bytes_all_allowed(
            bytes,
            no_extra.as_slice(),
        ) {
            Err(ProviderKeyError)
        } else {
            Ok(ProviderKey(value.to_owned()))
        }
    }

    pub fn as_str(&self) -> (s: &str)
        ensures
            s@ == self@,
    {
        self.0.as_str()
    }

    pub fn same_as(&self, other: &ProviderKey) -> (r: bool)
        ensures
            r == (self@ == other@),
    {
        self.0 == other.0
    }
}

/// A persisted paid-job intent together with its provider and retry evidence.
#[derive(Debug, PartialEq, Eq)]
pub struct RuntimeIntent {
    provider: ProviderKey,
    intent: JobIntent,
    attempts: u16,
    last_error_class: Option<ErrorClass>,
    extra: Vec<JsonField>,
}

/// Two runtime intents hold the same values: the same provider, intent,
/// retry evidence, and unknown stored fields.
pub open spec fn same_record(a: RuntimeIntent, b: RuntimeIntent) -> bool {
    &&& a.spec_provider() == b.spec_provider()
    &&& a.spec_intent() == b.spec_intent()
    &&& a.spec_attempts() == b.spec_attempts()
    &&& a.spec_last_error_class() == b.spec_last_error_class()
    &&& a.spec_extra() == b.spec_extra()
}

impl Clone for RuntimeIntent {
    fn clone(&self) -> (r: Self)
        ensures
            same_record(r, *self),
    {
        proof {
            use_type_invariant(self);
        }
        RuntimeIntent {
            provider: self.provider.clone(),
            intent: self.intent.clone(),
            attempts: self.attempts,
            last_error_class: self.last_error_class,
            extra: clone_fields(&self.extra),
        }
    }
}

impl RuntimeIntent {
    #[verifier::type_invariant]
    spec fn valid(self) -> bool {
        self.last_error_class is Some ==> self.intent.spec_state() == IntentState::Prepared
    }

    pub closed spec fn spec_provider(&self) -> ProviderKey {
        self.provider
    }

    pub closed spec fn spec_intent(&self) -> JobIntent {
        self.intent
    }

    pub closed spec fn spec_attempts(&self) -> u16 {
        self.attempts
    }

    pub closed spec fn spec_last_error_class(&self) -> Option<ErrorClass> {
        self.last_error_class
    }

    /// Fields of the stored record that this version does not interpret,
    /// kept so that saving the intent again preserves them.
    pub closed spec fn spec_extra(&self) -> Seq<(Seq<char>, Seq<char>)> {
        fields_view(self.extra@)
    }

    /// Shorthand for the intent's lifecycle state.
    pub open spec fn spec_state(&self) -> IntentState {
        self.spec_intent().spec_state()
    }

    pub fn provider(&self) -> (r: &ProviderKey)
        ensures
            *r == self.spec_provider(),
    {
        &self.provider
    }

    pub fn intent(&self) -> (r: &JobIntent)
        ensures
            *r == self.spec_intent(),
    {
        &self.intent
    }

    pub fn attempts(&self) -> (r: u16)
        ensures
            r == self.spec_attempts(),
    {
        self.attempts
    }

    pub fn last_error_class(&self) -> (r: Option<ErrorClass>)
        ensures
            r == self.spec_last_error_class(),
    {
        self.last_error_class
    }
}

/// Outcome of preparing paid work: a new intent or the one already covering
/// the same idempotency key.
#[derive(Debug, PartialEq, Eq)]
pub enum PrepareOutcome {
    Created(RuntimeIntent),
    Existing(RuntimeIntent),
}

/// What a provider call returned.
#[derive(Debug, Clone, PartialEq, Eq)]
pub enum Invocation<T> {
    Completed(T),
    Pending(ProviderJobId),
}

/// What reconciling remote work found.
#[derive(Debug, Clone, PartialEq, Eq)]
pub enum Reconciliation<T> {
    Completed { output: T, provider_job_id: Option<ProviderJobId> },
    Pending { provider_job_id: Option<ProviderJobId> },
    NotFound,
}

/// A provider adapter, implemented by each paid provider integration.
pub trait PaidJobAdapter {
    type Request;

    type Output;

    type Error;

    /// Side-effect-free cost estimate of one request.
    fn estimate_cost(&self, request: &Self::Request) -> Result<CostEstimate, Self::Error>;

    /// Issues the request under the deterministic idempotency key.
    fn invoke(&mut self, request: &Self::Request, idempotency_key: &IdempotencyKey) -> Result<
        Invocation<Self::Output>,
        Self::Error,
    >;

    /// Looks up remote work by the provider's handle.
    fn reconcile(&mut self, provider_job_id: &ProviderJobId) -> Result<
        Reconciliation<Self::Output>,
        Self::Error,
    >;

    /// Looks up remote work by idempotency key.
    fn reconcile_by_idempotency_key(&mut self, idempotency_key: &IdempotencyKey) -> Result<
        Reconciliation<Self::Output>,
        Self::Error,
    >;

    /// Classifies a provider error as retryable or terminal.
    fn classify_error(&self, error: &Self::Error) -> ErrorClass;
}

/// Execution and paid-fallback policy of one runtime.
#[derive(Debug, Clone, Copy, PartialEq, Eq, Structural)]
pub struct JobRuntimePolicy {
    pub execution: ProviderExecutionPolicy,
    pub fallback_policy: FallbackPolicy,
}

/// When, if ever, a failed provider call may be retried.
#[derive(Debug, Clone, Copy, PartialEq, Eq, Structural)]
pub enum RetryDisposition {
    AfterMs(u64),
    Exhausted,
    Never,
}

/// 2 to the power `n`.
pub open spec fn pow2(n: nat) -> nat
    decreases n,
{
    if n == 0 {
        1
    } else {
        2 * pow2((n - 1) as nat)
    }
}

/// Exponent of the backoff after `attempts` calls: attempts − 1, at least
/// 0 and at most 63.
pub open spec fn backoff_exponent(attempts: u16) -> nat {
    if attempts == 0 {
        0
    } else if attempts - 1 > 63 {
        63
    } else {
        (attempts - 1) as nat
    }
}

/// Exponential delay `base · 2^exponent`, capped at the policy maximum.
pub open spec fn backoff_delay(policy: BackoffPolicy, attempts: u16) -> int {
    let raw = policy.spec_base_delay_ms() * pow2(backoff_exponent(attempts));
    if raw < policy.spec_max_delay_ms() {
        raw
    } else {
        policy.spec_max_delay_ms() as int
    }
}

/// Terminal errors never retry; retryable ones wait out the backoff until the
/// attempt ceiling is reached.
pub open spec fn spec_retry_disposition(class: ErrorClass, attempts: u16, policy: BackoffPolicy) -> RetryDisposition {
    if class == ErrorClass::Terminal {
        RetryDisposition::Never
    } else if attempts >= policy.spec_max_attempts() {
        RetryDisposition::Exhausted
    } else {
        RetryDisposition::AfterMs(backoff_delay(policy, attempts) as u64)
    }
}

proof fn lemma_pow2_monotone(a: nat, b: nat)
    requires
        a <= b,
    ensures
        pow2(a) <= pow2(b),
    decreases b,
{
    if a < b {
        lemma_pow2_monotone(a, (b - 1) as nat);
    }
}

/// The retry decision of the paid-job runtime.
pub fn retry_disposition(class: ErrorClass, attempts: u16, policy: BackoffPolicy) -> (r: RetryDisposition)
    ensures
        r == spec_retry_disposition(class, attempts, policy),
{
    if class == ErrorClass::Terminal {
        return RetryDisposition::Never;
    }
    if attempts >= policy.max_attempts() {
        return RetryDisposition::Exhausted;
    }
    let exponent: u32 = if attempts == 0 {
        0
    } else if attempts - 1 > 63 {
        63
    } else {
        (attempts - 1) as u32
    };
    assert(pow2(63) == 0x8000_0000_0000_0000) by {
        reveal_with_fuel(pow2, 64);
    }
    let mut multiplier: u64 = 1;
    let mut i: u32 = 0;
    while i < exponent
        invariant
            0 <= i <= exponent <= 63,
            multiplier == pow2(i as nat),
            pow2(63) == 0x8000_0000_0000_0000,
        decreases exponent - i,
    {
        proof {
            lemma_pow2_monotone((i + 1) as nat, 63);
            assert(pow2((i + 1) as nat) == 2 * pow2(i as nat));
        }
        multiplier = multiplier * 2;
        i = i + 1;
    }
    let base = policy.base_delay_ms();
    let max_delay = policy.max_delay_ms();
    let scaled: u64 = match base.checked_mul(multiplier) {
        Some(product) => product,
        None => u64::MAX,
    };
    let delay = if scaled < max_delay {
        scaled
    } else {
        max_delay
    };
    RetryDisposition::AfterMs(delay)
}

/// The backoff delay never exceeds the configured maximum and never shrinks
/// as attempts accumulate; the first retry waits exactly the base delay.
pub proof fn lemma_backoff_is_bounded_and_monotone(policy: BackoffPolicy, a: u16, b: u16)
    requires
        a <= b,
        policy.spec_base_delay_ms() <= policy.spec_max_delay_ms(),
    ensures
        backoff_delay(policy, a) <= policy.spec_max_delay_ms(),
        backoff_delay(policy, a) <= backoff_delay(policy, b),
        backoff_delay(policy, 1) == policy.spec_base_delay_ms(),
        backoff_delay(policy, 0) == policy.spec_base_delay_ms(),
{
    assert(pow2(0) == 1);
    assert(policy.spec_base_delay_ms() * 1 == policy.spec_base_delay_ms());
    lemma_pow2_monotone(backoff_exponent(a), backoff_exponent(b));
    let x = policy.spec_base_delay_ms() as int;
    let pa = pow2(backoff_exponent(a)) as int;
    let pb = pow2(backoff_exponent(b)) as int;
    assert(x * pa <= x * pb) by (nonlinear_arith)
        requires
            0 <= x,
            pa <= pb,
    ;
}

/// Version of the persisted intent format.
pub const RUNTIME_INTENT_SCHEMA_VERSION: u32 = 1;

/// Why a persisted intent record was refused.
#[derive(Debug, Clone, Copy, PartialEq, Eq, Structural)]
pub enum RecordDefect {
    /// A prepared intent cannot contain a provider job handle.
    PreparedWithProviderJobId,
    /// Only a prepared intent may record a last error class.
    ErrorClassAfterPrepared,
    /// The record's location names another job.
    JobIdMismatch,
    /// The record's file name does not match its job.
    FileNameMismatch,
    /// A record's file name is not UTF-8.
    NonUtf8FileName,
}

/// Errors of the paid-job runtime's decisions.
#[derive(Debug, PartialEq, Eq)]
pub enum JobRuntimeError {
    ReadOnlyProject,
    ConcurrencyLimitReached,
    AttemptsExhausted,
    PreviousTerminalFailure,
    IntentNotPrepared,
    ProviderMismatch,
    /// A pruned intent already paid for this work.
    AlreadyReconciled,
    Overflow,
    UnsupportedIntentSchema(u32),
    InvalidRecord(RecordDefect),
    ProviderKey(ProviderKeyError),
    JobValue(JobValueError),
    JobIntent(JobIntentError),
    ArtifactId(ArtifactIdError),
    Hash(HashValueError),
}

/// The persisted form of a runtime intent, with every identifier as text.
#[derive(Debug, PartialEq, Eq)]
pub struct StoredIntent {
    pub schema_version: u32,
    pub provider: String,
    pub job_id: String,
    pub operation: String,
    pub idempotency_key: String,
    pub input_hash: String,
    pub artifact_id: Option<String>,
    pub provider_job_id: Option<String>,
    pub state: IntentState,
    pub attempts: u16,
    pub last_error_class: Option<ErrorClass>,
    pub extra: Vec<JsonField>,
}

/// Text of an optional identifier view.
pub open spec fn opt_text<A: View<V = Seq<char>>>(o: Option<A>) -> Option<Seq<char>> {
    match o {
        Some(a) => Some(a@),
        None => None,
    }
}

/// Text of an optional string.
pub open spec fn opt_string(o: Option<String>) -> Option<Seq<char>> {
    match o {
        Some(a) => Some(a@),
        None => None,
    }
}

/// What loading a stored intent decides, in the order the fields are checked.
pub open spec fn stored_intent_verdict(s: StoredIntent) -> Result<(), JobRuntimeError> {
    if s.schema_version != RUNTIME_INTENT_SCHEMA_VERSION {
        Err(JobRuntimeError::UnsupportedIntentSchema(s.schema_version))
    } else if !is_provider_key_text(s.provider@) {
        Err(JobRuntimeError::ProviderKey(ProviderKeyError))
    } else if s.provider_job_id is Some && !is_portable_text(
        s.provider_job_id->0@,
        MAX_EXTERNAL_ID_LEN,
        provider_job_extra(),
    ) {
        Err(JobRuntimeError::JobValue(JobValueError))
    } else if s.state == IntentState::Prepared && s.provider_job_id is Some {
        Err(JobRuntimeError::InvalidRecord(RecordDefect::PreparedWithProviderJobId))
    } else if s.state != IntentState::Prepared && s.last_error_class is Some {
        Err(JobRuntimeError::InvalidRecord(RecordDefect::ErrorClassAfterPrepared))
    } else if !is_portable_text(s.job_id@, MAX_LOCAL_ID_LEN, Seq::empty()) {
        Err(JobRuntimeError::JobValue(JobValueError))
    } else if !is_portable_text(
        s.idempotency_key@,
        MAX_EXTERNAL_ID_LEN,
        idempotency_extra(),
    ) {
        Err(JobRuntimeError::JobValue(JobValueError))
    } else if !crate::artifact::is_hash_text(s.input_hash@) {
        Err(JobRuntimeError::Hash(HashValueError))
    } else if s.artifact_id is Some && crate::artifact::artifact_id_verdict(s.artifact_id->0@) is Err {
        Err(JobRuntimeError::ArtifactId(crate::artifact::artifact_id_verdict(s.artifact_id->0@)->Err_0))
    } else if s.operation@.len() == 0 {
        Err(JobRuntimeError::JobIntent(JobIntentError::MissingOperation))
    } else {
        Ok(())
    }
}

/// A runtime intent agrees, field by field, with a stored record.
pub open spec fn intent_matches_stored(r: RuntimeIntent, s: StoredIntent) -> bool {
    let i = r.spec_intent();
    &&& r.spec_provider()@ == s.provider@
    &&& i.spec_job_id()@ == s.job_id@
    &&& i.spec_operation() == s.operation@
    &&& i.spec_idempotency_key()@ == s.idempotency_key@
    &&& i.spec_input_hash()@ == s.input_hash@
    &&& opt_text(i.spec_artifact_id()) == opt_string(s.artifact_id)
    &&& opt_text(i.spec_provider_job_id()) == opt_string(s.provider_job_id)
    &&& i.spec_state() == s.state
    &&& r.spec_attempts() == s.attempts
    &&& r.spec_last_error_class() == s.last_error_class
    &&& r.spec_extra() == fields_view(s.extra@)
    &&& s.schema_version == RUNTIME_INTENT_SCHEMA_VERSION
}

/// Two runtime intents agree on every field's text.
pub open spec fn same_intent(a: RuntimeIntent, b: RuntimeIntent) -> bool {
    let x = a.spec_intent();
    let y = b.spec_intent();
    &&& a.spec_provider()@ == b.spec_provider()@
    &&& x.spec_job_id()@ == y.spec_job_id()@
    &&& x.spec_operation() == y.spec_operation()
    &&& x.spec_idempotency_key()@ == y.spec_idempotency_key()@
    &&& x.spec_input_hash()@ == y.spec_input_hash()@
    &&& opt_text(x.spec_artifact_id()) == opt_text(y.spec_artifact_id())
    &&& opt_text(x.spec_provider_job_id()) == opt_text(y.spec_provider_job_id())
    &&& x.spec_state() == y.spec_state()
    &&& a.spec_attempts() == b.spec_attempts()
    &&& a.spec_last_error_class() == b.spec_last_error_class()
    &&& a.spec_extra() == b.spec_extra()
}

impl RuntimeIntent {
    /// Validates a stored record and rebuilds the runtime intent it describes.
    pub fn from_stored(stored: &StoredIntent) -> (r: Result<RuntimeIntent, JobRuntimeError>)
        ensures
            r is Ok <==> stored_intent_verdict(*stored) is Ok,
            r matches Err(e) ==> stored_intent_verdict(*stored) == Err::<(), JobRuntimeError>(e),
            r matches Ok(ri) ==> intent_matches_stored(ri, *stored),
    {
        if stored.schema_version != RUNTIME_INTENT_SCHEMA_VERSION {
            return Err(JobRuntimeError::UnsupportedIntentSchema(stored.schema_version));
        }
        let provider = match ProviderKey::new(stored.provider.as_str()) {
            Ok(p) => p,
            Err(e) => return Err(JobRuntimeError::ProviderKey(e)),
        };
        let provider_job_id = match &stored.provider_job_id {
            Some(text) => match ProviderJobId::new(text.as_str()) {
                Ok(p) => Some(p),
                Err(e) => return Err(JobRuntimeError::JobValue(e)),
            },
            None => None,
        };
        if stored.state == IntentState::Prepared && provider_job_id.is_some() {
            return Err(JobRuntimeError::InvalidRecord(RecordDefect::PreparedWithProviderJobId));
        }
        if stored.state != IntentState::Prepared && stored.last_error_class.is_some() {
            return Err(JobRuntimeError::InvalidRecord(RecordDefect::ErrorClassAfterPrepared));
        }
        let job_id = match JobId::new(stored.job_id.as_str()) {
            Ok(j) => j,
            Err(e) => return Err(JobRuntimeError::JobValue(e)),
        };
        let idempotency_key = match IdempotencyKey::new(stored.idempotency_key.as_str()) {
            Ok(k) => k,
            Err(e) => return Err(JobRuntimeError::JobValue(e)),
        };
        let input_hash = match InputHash::new(stored.input_hash.as_str()) {
            Ok(h) => h,
            Err(e) => return Err(JobRuntimeError::Hash(e)),
        };
        let artifact_id = match &stored.artifact_id {
            Some(text) => match ArtifactId::new(text.as_str()) {
                Ok(a) => Some(a),
                Err(e) => return Err(JobRuntimeError::ArtifactId(e)),
            },
            None => None,
        };
        let mut intent = match JobIntent::new(
            job_id,
            stored.operation.as_str(),
            idempotency_key,
            input_hash,
            artifact_id,
        ) {
            Ok(i) => i,
            Err(e) => return Err(JobRuntimeError::JobIntent(e)),
        };
        match stored.state {
            IntentState::Prepared => {},
            IntentState::Invoked => {
                if let Err(e) = intent.mark_invoked(provider_job_id) {
                    return Err(JobRuntimeError::JobIntent(e));
                }
            },
            IntentState::Reconciled => {
                if let Err(e) = intent.mark_invoked(provider_job_id) {
                    return Err(JobRuntimeError::JobIntent(e));
                }
                if let Err(e) = intent.mark_reconciled() {
                    return Err(JobRuntimeError::JobIntent(e));
                }
            },
        }
        Ok(
            RuntimeIntent {
                provider,
                intent,
                attempts: stored.attempts,
                last_error_class: stored.last_error_class,
                extra: clone_fields(&stored.extra),
            },
        )
    }

    /// The persisted form of this intent; it always passes validation again.
    pub fn to_stored(&self) -> (s: StoredIntent)
        ensures
            intent_matches_stored(*self, s),
            stored_intent_verdict(s) is Ok,
    {
        proof {
            use_type_invariant(self);
        }
        self.provider.assert_valid();
        self.intent.assert_valid();
        self.intent.job_id().assert_valid();
        self.intent.idempotency_key().assert_valid();
        self.intent.input_hash().assert_valid();
        let artifact_id = match self.intent.artifact_id() {
            Some(a) => {
                a.assert_valid();
                Some(a.to_string())
            },
            None => None,
        };
        let provider_job_id = match self.intent.provider_job_id() {
            Some(p) => {
                p.assert_valid();
                Some(p.as_str().to_owned())
            },
            None => None,
        };
        StoredIntent {
            schema_version: RUNTIME_INTENT_SCHEMA_VERSION,
            provider: self.provider.as_str().to_owned(),
            job_id: self.intent.job_id().as_str().to_owned(),
            operation: self.intent.operation().to_owned(),
            idempotency_key: self.intent.idempotency_key().as_str().to_owned(),
            input_hash: self.intent.input_hash().as_str().to_owned(),
            artifact_id,
            provider_job_id,
            state: self.intent.state(),
            attempts: self.attempts,
            last_error_class: self.last_error_class,
            extra: clone_fields(&self.extra),
        }
    }

    /// Loads the record stored for `job_id`; a record naming another job is refused.
    pub fn from_stored_for_job(stored: &StoredIntent, job_id: &JobId) -> (r: Result<
        RuntimeIntent,
        JobRuntimeError,
    >)
        ensures
            stored_intent_verdict(*stored) matches Err(e) ==> r == Err::<RuntimeIntent, JobRuntimeError>(e),
            stored_intent_verdict(*stored) is Ok && stored.job_id@ != job_id@ ==> r == Err::<
                RuntimeIntent,
                JobRuntimeError,
            >(JobRuntimeError::InvalidRecord(RecordDefect::JobIdMismatch)),
            stored_intent_verdict(*stored) is Ok && stored.job_id@ == job_id@ ==> r is Ok,
            r matches Ok(ri) ==> intent_matches_stored(ri, *stored) && stored.job_id@ == job_id@,
    {
        let record = RuntimeIntent::from_stored(stored)?;
        if !record.intent.job_id().same_as(job_id) {
            return Err(JobRuntimeError::InvalidRecord(RecordDefect::JobIdMismatch));
        }
        Ok(record)
    }
}

/// Persisting a runtime intent and loading it back gives the same intent.
pub proof fn lemma_stored_round_trip(r: RuntimeIntent, s: StoredIntent, reloaded: RuntimeIntent)
    requires
        intent_matches_stored(r, s),
        intent_matches_stored(reloaded, s),
    ensures
        same_intent(r, reloaded),
{
}

/// Outcome of a provider call that was dispatched.
#[derive(Debug, Clone, PartialEq, Eq)]
pub enum DispatchOutcome<T> {
    Completed { job_id: JobId, output: T },
    Pending { job_id: JobId, provider_job_id: ProviderJobId },
}

/// Failure of a dispatch: the runtime refused, or the provider failed.
#[derive(Debug)]
pub enum InvokePreparedError<E> {
    Runtime(JobRuntimeError),
    Provider { source: E, class: ErrorClass, retry: RetryDisposition },
}

/// What startup reconciliation found for one unfinished intent.
#[derive(Debug)]
pub enum StartupOutcome<T, E> {
    ResultReady { job_id: JobId, output: T },
    StillPending { job_id: JobId },
    RetryPrepared { job_id: JobId, retry: RetryDisposition },
    NeedsAttention { job_id: JobId },
    ProviderError { job_id: JobId, source: E, class: ErrorClass, retry: RetryDisposition },
}

/// How an unfinished intent is looked up remotely at startup.
#[derive(Debug, PartialEq, Eq)]
pub enum StartupQuery {
    ByIdempotencyKey(IdempotencyKey),
    ByProviderJobId(ProviderJobId),
}

/// Aggregate of a batch cost estimate.
#[derive(Debug, Clone, Copy, PartialEq, Eq)]
pub struct DryRunSummary {
    pub request_count: u32,
    pub call_count: u32,
    pub amount_micros: u64,
    pub currency: Option<CurrencyCode>,
    pub estimated_duration_ms: Option<u64>,
}

/// Failure of a batch cost estimate.
#[derive(Debug)]
pub enum DryRunError<E> {
    Provider(E),
    CurrencyMismatch,
    Overflow,
}

/// Paid-job runtime of one provider: write-ahead decisions over intent
/// records; the records themselves are read and written by the caller.
#[derive(Debug)]
pub struct JobRuntime {
    read_only: bool,
    provider: ProviderKey,
    policy: JobRuntimePolicy,
}

/// The idempotency key text: `{operation}:{artifact_id}:{input_hash}` for
/// work on a concrete artifact, `{operation}:{input_hash}` otherwise.
pub open spec fn idempotency_text(
    operation: Seq<char>,
    artifact_id: Option<Seq<char>>,
    input_hash: Seq<char>,
) -> Seq<char> {
    match artifact_id {
        Some(a) => operation + seq![':'] + a + seq![':'] + input_hash,
        None => operation + seq![':'] + input_hash,
    }
}

/// Keys are deterministic, and two different artifacts under the same
/// operation and input hash never share a key.
pub proof fn lemma_artifacts_get_their_own_keys(
    operation: Seq<char>,
    a: Seq<char>,
    b: Seq<char>,
    input_hash: Seq<char>,
)
    requires
        a != b,
    ensures
        idempotency_text(operation, Some(a), input_hash) != idempotency_text(
            operation,
            Some(b),
            input_hash,
        ),
{
    let x = idempotency_text(operation, Some(a), input_hash);
    let y = idempotency_text(operation, Some(b), input_hash);
    if x == y {
        let start: int = operation.len() as int + 1;
        assert(x.len() == y.len());
        assert(a.len() == b.len());
        assert(x.subrange(start, start + a.len()) =~= a);
        assert(y.subrange(start, start + b.len()) =~= b);
    }
}

/// Whether a stored record belongs to `provider` and carries `key`.
pub open spec fn covers_key(r: RuntimeIntent, provider: Seq<char>, key: Seq<char>) -> bool {
    r.spec_provider()@ == provider && r.spec_intent().spec_idempotency_key()@ == key
}

/// Derives the deterministic idempotency key of an operation on an input,
/// for one artifact when the work targets one: retrying the same candidate
/// reuses its key, another candidate gets another key.
pub fn derive_idempotency_key(
    operation: &str,
    artifact_id: Option<&ArtifactId>,
    input_hash: &InputHash,
) -> (r: Result<IdempotencyKey, JobRuntimeError>)
    ensures
        r is Ok <==> is_portable_text(
            idempotency_text(operation@, opt_text(artifact_id), input_hash@),
            MAX_EXTERNAL_ID_LEN,
            idempotency_extra(),
        ),
        r matches Ok(k) ==> k@ == idempotency_text(operation@, opt_text(artifact_id), input_hash@),
        r matches Err(e) ==> e == JobRuntimeError::JobValue(JobValueError),
{
    let mut text = String::from_str(operation);
    let separator = ":";
    proof {
        reveal_strlit(":");
    }
    text.append(separator);
    match artifact_id {
        Some(a) => {
            text.append(a.as_str());
            text.append(separator);
        },
        None => {},
    }
    text.append(input_hash.as_str());
    assert(text@ =~= idempotency_text(operation@, opt_text(artifact_id), input_hash@));
    match IdempotencyKey::new(text.as_str()) {
        Ok(k) => Ok(k),
        Err(e) => Err(JobRuntimeError::JobValue(e)),
    }
}

/// Index of the first record that covers the key, if any.
pub fn find_by_idempotency(records: &[RuntimeIntent], provider: &ProviderKey, key: &IdempotencyKey) -> (r: Option<usize>)
    ensures
        match r {
            Some(i) => i < records@.len() && covers_key(records@[i as int], provider@, key@)
                && forall|j: int| 0 <= j < i ==> !covers_key(#[trigger] records@[j], provider@, key@),
            None => forall|j: int| 0 <= j < records@.len() ==> !covers_key(#[trigger] records@[j], provider@, key@),
        },
{
    let mut i: usize = 0;
    while i < records.len()
        invariant
            0 <= i <= records@.len(),
            forall|j: int| 0 <= j < i ==> !covers_key(#[trigger] records@[j], provider@, key@),
        decreases records.len() - i,
    {
        let record = &records[i];
        if record.provider.same_as(provider) && record.intent.idempotency_key().same_as(key) {
            return Some(i);
        }
        i = i + 1;
    }
    None
}

impl JobRuntime {
    pub closed spec fn spec_read_only(&self) -> bool {
        self.read_only
    }

    pub closed spec fn spec_provider(&self) -> ProviderKey {
        self.provider
    }

    pub closed spec fn spec_policy(&self) -> JobRuntimePolicy {
        self.policy
    }

    /// A runtime for one provider over a project that may be read-only.
    pub fn new(read_only: bool, provider: ProviderKey, policy: JobRuntimePolicy) -> (r: Self)
        ensures
            r.spec_read_only() == read_only,
            r.spec_provider() == provider,
            r.spec_policy() == policy,
    {
        JobRuntime { read_only, provider, policy }
    }

    pub fn provider(&self) -> (r: &ProviderKey)
        ensures
            *r == self.spec_provider(),
    {
        &self.provider
    }

    pub fn policy(&self) -> (r: JobRuntimePolicy)
        ensures
            r == self.spec_policy(),
    {
        self.policy
    }

    /// A read-only project refuses every paid-job write.
    pub fn ensure_writable(&self) -> (r: Result<(), JobRuntimeError>)
        ensures
            r is Err <==> self.spec_read_only(),
            r matches Err(e) ==> e == JobRuntimeError::ReadOnlyProject,
    {
        if self.read_only {
            Err(JobRuntimeError::ReadOnlyProject)
        } else {
            Ok(())
        }
    }

    /// An intent of another provider is refused.
    pub fn ensure_provider(&self, record: &RuntimeIntent) -> (r: Result<(), JobRuntimeError>)
        ensures
            r is Ok <==> record.spec_provider()@ == self.spec_provider()@,
            r matches Err(e) ==> e == JobRuntimeError::ProviderMismatch,
    {
        if record.provider.same_as(&self.provider) {
            Ok(())
        } else {
            Err(JobRuntimeError::ProviderMismatch)
        }
    }

    /// Prepares paid work against the intents already stored: an intent of
    /// this provider with the same idempotency key is reused; otherwise a new
    /// prepared intent with no attempts is returned for the caller to persist
    /// before any provider call.
    pub fn prepare(
        &self,
        stored: &[RuntimeIntent],
        job_id: JobId,
        operation: &str,
        input_hash: InputHash,
        artifact_id: Option<ArtifactId>,
    ) -> (r: Result<PrepareOutcome, JobRuntimeError>)
        ensures
            self.spec_read_only() ==> r == Err::<PrepareOutcome, JobRuntimeError>(
                JobRuntimeError::ReadOnlyProject,
            ),
            !self.spec_read_only() && !is_portable_text(
                idempotency_text(operation@, opt_text(artifact_id), input_hash@),
                MAX_EXTERNAL_ID_LEN,
                idempotency_extra(),
            ) ==> r == Err::<PrepareOutcome, JobRuntimeError>(JobRuntimeError::JobValue(JobValueError)),
            r matches Ok(PrepareOutcome::Existing(e)) ==> exists|i: int|
                0 <= i < stored@.len() && same_record(stored@[i], e) && covers_key(
                    e,
                    self.spec_provider()@,
                    idempotency_text(operation@, opt_text(artifact_id), input_hash@),
                ) && forall|j: int|
                    0 <= j < i ==> !covers_key(
                        #[trigger] stored@[j],
                        self.spec_provider()@,
                        idempotency_text(operation@, opt_text(artifact_id), input_hash@),
                    ),
            r matches Ok(PrepareOutcome::Created(c)) ==> {
                &&& forall|j: int|
                    0 <= j < stored@.len() ==> !covers_key(
                        #[trigger] stored@[j],
                        self.spec_provider()@,
                        idempotency_text(operation@, opt_text(artifact_id), input_hash@),
                    )
                &&& c.spec_provider() == self.spec_provider()
                &&& c.spec_intent().spec_job_id() == job_id
                &&& c.spec_intent().spec_operation() == operation@
                &&& c.spec_intent().spec_idempotency_key()@ == idempotency_text(operation@, opt_text(artifact_id), input_hash@)
                &&& c.spec_intent().spec_input_hash() == input_hash
                &&& c.spec_intent().spec_artifact_id() == artifact_id
                &&& c.spec_intent().spec_provider_job_id() is None
                &&& c.spec_state() == IntentState::Prepared
                &&& c.spec_attempts() == 0
                &&& c.spec_last_error_class() is None
                &&& c.spec_extra().len() == 0
            },
            r is Err && !self.spec_read_only() && is_portable_text(
                idempotency_text(operation@, opt_text(artifact_id), input_hash@),
                MAX_EXTERNAL_ID_LEN,
                idempotency_extra(),
            ) ==> r == Err::<PrepareOutcome, JobRuntimeError>(
                JobRuntimeError::JobIntent(JobIntentError::MissingOperation),
            ) && operation@.len() == 0 && forall|j: int|
                0 <= j < stored@.len() ==> !covers_key(
                    #[trigger] stored@[j],
                    self.spec_provider()@,
                    idempotency_text(operation@, opt_text(artifact_id), input_hash@),
                ),
            !self.spec_read_only() && is_portable_text(
                idempotency_text(operation@, opt_text(artifact_id), input_hash@),
                MAX_EXTERNAL_ID_LEN,
                idempotency_extra(),
            ) && operation@.len() != 0 ==> r is Ok,
    {
        self.ensure_writable()?;
        let idempotency_key = derive_idempotency_key(operation, artifact_id.as_ref(), &input_hash)?;
        if let Some(i) = find_by_idempotency(stored, &self.provider, &idempotency_key) {
            return Ok(PrepareOutcome::Existing(stored[i].clone()));
        }
        let intent = match JobIntent::new(job_id, operation, idempotency_key, input_hash, artifact_id) {
            Ok(i) => i,
            Err(e) => return Err(JobRuntimeError::JobIntent(e)),
        };
        Ok(
            PrepareOutcome::Created(
                RuntimeIntent {
                    provider: self.provider.clone(),
                    intent,
                    attempts: 0,
                    last_error_class: None,
                    extra: Vec::new(),
                },
            ),
        )
    }
}

/// What `begin_attempt` decides for a loaded intent.
pub open spec fn attempt_verdict(runtime: JobRuntime, record: RuntimeIntent) -> Result<(), JobRuntimeError> {
    if record.spec_provider()@ != runtime.spec_provider()@ {
        Err(JobRuntimeError::ProviderMismatch)
    } else if record.spec_state() != IntentState::Prepared {
        Err(JobRuntimeError::IntentNotPrepared)
    } else if record.spec_last_error_class() == Some(ErrorClass::Terminal) {
        Err(JobRuntimeError::PreviousTerminalFailure)
    } else if record.spec_attempts() >= runtime.spec_policy().execution.spec_backoff().spec_max_attempts() {
        Err(JobRuntimeError::AttemptsExhausted)
    } else {
        Ok(())
    }
}

/// A provider call window opens only for a prepared intent of this provider
/// with no terminal failure and attempts left: an invoked or reconciled
/// intent is never paid for again, and the counted attempts never pass the
/// policy's ceiling.
pub proof fn lemma_attempts_stay_within_policy(runtime: JobRuntime, record: RuntimeIntent)
    requires
        attempt_verdict(runtime, record) is Ok,
    ensures
        record.spec_state() == IntentState::Prepared,
        record.spec_provider()@ == runtime.spec_provider()@,
        record.spec_last_error_class() != Some(ErrorClass::Terminal),
        record.spec_attempts() + 1 <= runtime.spec_policy().execution.spec_backoff().spec_max_attempts(),
{
}

/// The retry disposition a runtime gives a failure after `attempts` calls.
pub open spec fn runtime_retry(runtime: JobRuntime, class: ErrorClass, attempts: u16) -> RetryDisposition {
    spec_retry_disposition(class, attempts, runtime.spec_policy().execution.spec_backoff())
}

/// Retry offered at startup for a prepared intent the provider never saw.
pub open spec fn startup_retry(runtime: JobRuntime, record: RuntimeIntent) -> RetryDisposition {
    if record.spec_last_error_class() == Some(ErrorClass::Terminal) {
        RetryDisposition::Never
    } else if record.spec_attempts() == 0 {
        RetryDisposition::AfterMs(0)
    } else {
        runtime_retry(runtime, ErrorClass::Retryable, record.spec_attempts())
    }
}

/// A prepared intent that startup finds missing remotely is offered exactly
/// the retry a retryable provider failure after as many attempts gets: none
/// after a terminal failure, an immediate first call when no attempt was
/// made, the policy's backoff while attempts remain, and `Exhausted` once
/// the attempts reach the policy's ceiling.
pub proof fn lemma_startup_retry_follows_policy(runtime: JobRuntime, record: RuntimeIntent)
    ensures
        ({
            let policy = runtime.spec_policy().execution.spec_backoff();
            let attempts = record.spec_attempts();
            let retry = startup_retry(runtime, record);
            &&& record.spec_last_error_class() == Some(ErrorClass::Terminal) ==> retry
                == RetryDisposition::Never
            &&& record.spec_last_error_class() != Some(ErrorClass::Terminal) ==> {
                &&& attempts == 0 ==> retry == RetryDisposition::AfterMs(0)
                &&& attempts > 0 ==> retry == runtime_retry(runtime, ErrorClass::Retryable, attempts)
                &&& attempts > 0 && attempts >= policy.spec_max_attempts() ==> retry
                    == RetryDisposition::Exhausted
                &&& 0 < attempts < policy.spec_max_attempts() ==> retry == RetryDisposition::AfterMs(
                    backoff_delay(policy, attempts) as u64,
                )
            }
        }),
{
}

/// A retry offered at startup is one that the next attempt accepts: a
/// prepared intent of this runtime's provider that is offered a delay
/// passes `begin_attempt`'s checks, so no call is offered past the ceiling
/// or after a terminal failure.
pub proof fn lemma_offered_startup_retry_is_attemptable(runtime: JobRuntime, record: RuntimeIntent)
    requires
        record.spec_provider()@ == runtime.spec_provider()@,
        record.spec_state() == IntentState::Prepared,
        runtime.spec_policy().execution.spec_backoff().spec_max_attempts() >= 1,
    ensures
        startup_retry(runtime, record) is AfterMs ==> attempt_verdict(runtime, record) is Ok,
{
}

impl JobRuntime {
    /// Opens one provider-call window: checks the loaded intent and counts the
    /// attempt. The caller persists the counted attempt before calling the
    /// provider, so a crash leaves evidence that a paid request may exist.
    pub fn begin_attempt(&self, record: &mut RuntimeIntent) -> (r: Result<(), JobRuntimeError>)
        ensures
            r == attempt_verdict(*self, *old(record)),
            r is Ok ==> final(record).spec_attempts() == old(record).spec_attempts() + 1
                && final(record).spec_last_error_class() is None
                && final(record).spec_extra() == old(record).spec_extra()
                && final(record).spec_intent() == old(record).spec_intent()
                && final(record).spec_provider() == old(record).spec_provider(),
            r is Err ==> *final(record) == *old(record),
    {
        proof {
            use_type_invariant(&*record);
        }
        self.ensure_provider(record)?;
        if record.intent.state() != IntentState::Prepared {
            return Err(JobRuntimeError::IntentNotPrepared);
        }
        if record.last_error_class == Some(ErrorClass::Terminal) {
            return Err(JobRuntimeError::PreviousTerminalFailure);
        }
        let max_attempts = self.policy.execution.backoff().max_attempts();
        if record.attempts >= max_attempts {
            return Err(JobRuntimeError::AttemptsExhausted);
        }
        record.attempts = record.attempts + 1;
        record.last_error_class = None;
        Ok(())
    }

    /// Records what the provider call of an open attempt returned: a failure
    /// keeps the intent prepared with its error class and a retry decision; a
    /// result moves it to invoked, keeping a remote handle when one was given.
    pub fn settle_attempt<T, E>(&self, record: &mut RuntimeIntent, result: Result<Invocation<T>, (E, ErrorClass)>) -> (r: Result<
        DispatchOutcome<T>,
        InvokePreparedError<E>,
    >)
        requires
            old(record).spec_state() == IntentState::Prepared,
        ensures
            final(record).spec_provider() == old(record).spec_provider(),
            final(record).spec_attempts() == old(record).spec_attempts(),
            final(record).spec_extra() == old(record).spec_extra(),
            final(record).spec_intent().spec_job_id() == old(record).spec_intent().spec_job_id(),
            final(record).spec_intent().spec_idempotency_key() == old(record).spec_intent().spec_idempotency_key(),
            final(record).spec_intent().spec_input_hash() == old(record).spec_intent().spec_input_hash(),
            final(record).spec_intent().spec_operation() == old(record).spec_intent().spec_operation(),
            final(record).spec_intent().spec_artifact_id() == old(record).spec_intent().spec_artifact_id(),
            match result {
                Err((source, class)) => {
                    &&& final(record).spec_state() == IntentState::Prepared
                    &&& final(record).spec_last_error_class() == Some(class)
                    &&& final(record).spec_intent() == old(record).spec_intent()
                    &&& r matches Err(InvokePreparedError::Provider { source: s, class: c, retry })
                    &&& s == source && c == class
                    &&& retry == runtime_retry(*self, class, old(record).spec_attempts())
                },
                Ok(Invocation::Completed(output)) => {
                    &&& final(record).spec_state() == IntentState::Invoked
                    &&& final(record).spec_intent().spec_provider_job_id() is None
                    &&& final(record).spec_last_error_class() is None
                    &&& r matches Ok(DispatchOutcome::Completed { job_id, output: o })
                    &&& job_id == old(record).spec_intent().spec_job_id() && o == output
                },
                Ok(Invocation::Pending(handle)) => {
                    &&& final(record).spec_state() == IntentState::Invoked
                    &&& final(record).spec_intent().spec_provider_job_id() == Some(handle)
                    &&& final(record).spec_last_error_class() is None
                    &&& r matches Ok(DispatchOutcome::Pending { job_id, provider_job_id })
                    &&& job_id == old(record).spec_intent().spec_job_id() && provider_job_id == handle
                },
            },
    {
        match result {
            Err((source, class)) => {
                record.last_error_class = Some(class);
                let retry = retry_disposition(class, record.attempts, self.policy.execution.backoff());
                Err(InvokePreparedError::Provider { source, class, retry })
            },
            Ok(invocation) => {
                record.last_error_class = None;
                match invocation {
                    Invocation::Completed(output) => {
                        let marked = record.intent.mark_invoked(None);
                        assert(marked is Ok);
                        Ok(DispatchOutcome::Completed { job_id: record.intent.job_id().clone(), output })
                    },
                    Invocation::Pending(provider_job_id) => {
                        let marked = record.intent.mark_invoked(Some(provider_job_id.clone()));
                        assert(marked is Ok);
                        Ok(
                            DispatchOutcome::Pending {
                                job_id: record.intent.job_id().clone(),
                                provider_job_id,
                            },
                        )
                    },
                }
            },
        }
    }

    /// Marks an invoked intent reconciled once its result is durably part of
    /// canonical project state; the caller persists the returned intent.
    pub fn acknowledge_result(&self, record: RuntimeIntent) -> (r: Result<RuntimeIntent, JobRuntimeError>)
        ensures
            self.spec_read_only() ==> r == Err::<RuntimeIntent, JobRuntimeError>(JobRuntimeError::ReadOnlyProject),
            !self.spec_read_only() && record.spec_provider()@ != self.spec_provider()@ ==> r
                == Err::<RuntimeIntent, JobRuntimeError>(JobRuntimeError::ProviderMismatch),
            !self.spec_read_only() && record.spec_provider()@ == self.spec_provider()@
                && record.spec_state() != IntentState::Invoked ==> r == Err::<RuntimeIntent, JobRuntimeError>(
                JobRuntimeError::JobIntent(JobIntentError::InvalidTransition),
            ),
            r is Ok <==> !self.spec_read_only() && record.spec_provider()@ == self.spec_provider()@
                && record.spec_state() == IntentState::Invoked,
            r matches Ok(a) ==> a.spec_state() == IntentState::Reconciled && a.spec_provider()
                == record.spec_provider() && a.spec_attempts() == record.spec_attempts()
                && a.spec_last_error_class() == record.spec_last_error_class()
                && a.spec_intent().spec_job_id() == record.spec_intent().spec_job_id()
                && a.spec_intent().spec_provider_job_id() == record.spec_intent().spec_provider_job_id()
                && a.spec_intent().spec_operation() == record.spec_intent().spec_operation()
                && a.spec_intent().spec_idempotency_key() == record.spec_intent().spec_idempotency_key()
                && a.spec_intent().spec_input_hash() == record.spec_intent().spec_input_hash()
                && a.spec_intent().spec_artifact_id() == record.spec_intent().spec_artifact_id()
                && a.spec_extra() == record.spec_extra(),
    {
        self.ensure_writable()?;
        self.ensure_provider(&record)?;
        let mut record = record;
        proof {
            use_type_invariant(&record);
        }
        match record.intent.mark_reconciled() {
            Ok(()) => Ok(record),
            Err(e) => Err(JobRuntimeError::JobIntent(e)),
        }
    }

    /// Unfinished intents of this provider are reconciled at startup.
    pub fn awaits_startup_reconciliation(&self, record: &RuntimeIntent) -> (r: bool)
        ensures
            r == (record.spec_provider()@ == self.spec_provider()@ && record.spec_state()
                != IntentState::Reconciled),
    {
        record.provider.same_as(&self.provider) && record.intent.state() != IntentState::Reconciled
    }

    /// A prepared intent, or an invoked one without a remote handle, is looked
    /// up by idempotency key; an invoked one with a handle by that handle.
    pub fn startup_query(record: &RuntimeIntent) -> (q: Option<StartupQuery>)
        ensures
            record.spec_state() == IntentState::Reconciled <==> q is None,
            record.spec_state() == IntentState::Prepared ==> q == Some(
                StartupQuery::ByIdempotencyKey(record.spec_intent().spec_idempotency_key()),
            ),
            record.spec_state() == IntentState::Invoked ==> q == Some(
                match record.spec_intent().spec_provider_job_id() {
                    Some(handle) => StartupQuery::ByProviderJobId(handle),
                    None => StartupQuery::ByIdempotencyKey(record.spec_intent().spec_idempotency_key()),
                },
            ),
    {
        match record.intent.state() {
            IntentState::Prepared => Some(StartupQuery::ByIdempotencyKey(record.intent.idempotency_key().clone())),
            IntentState::Invoked => match record.intent.provider_job_id() {
                Some(handle) => Some(StartupQuery::ByProviderJobId(handle.clone())),
                None => Some(StartupQuery::ByIdempotencyKey(record.intent.idempotency_key().clone())),
            },
            IntentState::Reconciled => None,
        }
    }

    /// Decides what a startup lookup means. Remote work found for a prepared
    /// intent moves it to invoked without a new provider call (the flag asks
    /// the caller to persist it); an unknown prepared intent may be retried
    /// by its recorded evidence; an invoked handle that vanished needs
    /// attention and is never silently paid for again.
    pub fn resolve_startup<T, E>(&self, record: &mut RuntimeIntent, result: Result<Reconciliation<T>, (E, ErrorClass)>) -> (r: (
        StartupOutcome<T, E>,
        bool,
    ))
        requires
            old(record).spec_state() != IntentState::Reconciled,
        ensures
            final(record).spec_provider() == old(record).spec_provider(),
            final(record).spec_attempts() == old(record).spec_attempts(),
            final(record).spec_extra() == old(record).spec_extra(),
            final(record).spec_intent().spec_job_id() == old(record).spec_intent().spec_job_id(),
            final(record).spec_intent().spec_idempotency_key() == old(record).spec_intent().spec_idempotency_key(),
            r.1 ==> old(record).spec_state() == IntentState::Prepared && final(record).spec_state()
                == IntentState::Invoked && final(record).spec_last_error_class() is None,
            !r.1 ==> *final(record) == *old(record),
            match result {
                Err((source, class)) => {
                    &&& !r.1
                    &&& r.0 matches StartupOutcome::ProviderError { job_id, source: s, class: c, retry }
                    &&& job_id == old(record).spec_intent().spec_job_id() && s == source && c == class
                    &&& retry == runtime_retry(*self, class, old(record).spec_attempts())
                },
                Ok(Reconciliation::Completed { output, provider_job_id }) => {
                    &&& r.1 == (old(record).spec_state() == IntentState::Prepared)
                    &&& r.1 ==> final(record).spec_intent().spec_provider_job_id() == provider_job_id
                    &&& r.0 matches StartupOutcome::ResultReady { job_id, output: o }
                    &&& job_id == old(record).spec_intent().spec_job_id() && o == output
                },
                Ok(Reconciliation::Pending { provider_job_id }) => {
                    &&& r.1 == (old(record).spec_state() == IntentState::Prepared)
                    &&& r.1 ==> final(record).spec_intent().spec_provider_job_id() == provider_job_id
                    &&& r.0 matches StartupOutcome::StillPending { job_id }
                    &&& job_id == old(record).spec_intent().spec_job_id()
                },
                Ok(Reconciliation::NotFound) => {
                    &&& !r.1
                    &&& old(record).spec_state() == IntentState::Prepared ==> (r.0 matches StartupOutcome::RetryPrepared { job_id, retry }
                        && job_id == old(record).spec_intent().spec_job_id()
                        && retry == startup_retry(*self, *old(record)))
                    &&& old(record).spec_state() == IntentState::Invoked ==> (r.0 matches StartupOutcome::NeedsAttention { job_id }
                        && job_id == old(record).spec_intent().spec_job_id())
                },
            },
    {
        let job_id = record.intent.job_id().clone();
        let prepared = record.intent.state() == IntentState::Prepared;
        match result {
            Err((source, class)) => {
                let retry = retry_disposition(class, record.attempts, self.policy.execution.backoff());
                (StartupOutcome::ProviderError { job_id, source, class, retry }, false)
            },
            Ok(Reconciliation::Completed { output, provider_job_id }) => {
                if prepared {
                    record.last_error_class = None;
                    let marked = record.intent.mark_invoked(provider_job_id);
                    assert(marked is Ok);
                }
                (StartupOutcome::ResultReady { job_id, output }, prepared)
            },
            Ok(Reconciliation::Pending { provider_job_id }) => {
                if prepared {
                    record.last_error_class = None;
                    let marked = record.intent.mark_invoked(provider_job_id);
                    assert(marked is Ok);
                }
                (StartupOutcome::StillPending { job_id }, prepared)
            },
            Ok(Reconciliation::NotFound) => {
                if prepared {
                    let retry = match record.last_error_class {
                        Some(ErrorClass::Terminal) => RetryDisposition::Never,
                        _ => if record.attempts == 0 {
                            RetryDisposition::AfterMs(0)
                        } else {
                            retry_disposition(
                                ErrorClass::Retryable,
                                record.attempts,
                                self.policy.execution.backoff(),
                            )
                        },
                    };
                    (StartupOutcome::RetryPrepared { job_id, retry }, false)
                } else {
                    (StartupOutcome::NeedsAttention { job_id }, false)
                }
            },
        }
    }

    /// A paid fallback needs both the spend ceiling and, when the policy
    /// asks for it, explicit user approval.
    pub fn allows_paid_fallback(&self, estimate: &CostEstimate, user_approved: bool) -> (r: bool)
        ensures
            r == (self.spec_policy().fallback_policy.spec_allows_paid_amount(estimate.amount_micros)
                && (!self.spec_policy().fallback_policy.require_user_approval || user_approved)),
    {
        self.policy.fallback_policy.allows_paid_amount(estimate.amount_micros) && (
        !self.policy.fallback_policy.require_user_approval || user_approved)
    }
}

/// The aggregate before any estimate: nothing counted, zero duration.
pub open spec fn empty_dry_run() -> DryRunSummary {
    DryRunSummary {
        request_count: 0,
        call_count: 0,
        amount_micros: 0,
        currency: None,
        estimated_duration_ms: Some(0),
    }
}

/// Adds one estimate: counters must not overflow, all estimates must share a
/// currency, and the serial duration is known only while every estimate
/// gives one.
pub open spec fn dry_run_step<E>(acc: DryRunSummary, e: CostEstimate) -> Result<DryRunSummary, DryRunError<E>> {
    if acc.request_count + 1 > u32::MAX {
        Err(DryRunError::Overflow)
    } else if acc.call_count + e.call_count > u32::MAX {
        Err(DryRunError::Overflow)
    } else if acc.amount_micros + e.amount_micros > u64::MAX {
        Err(DryRunError::Overflow)
    } else if acc.currency is Some && acc.currency->0.spec_bytes() != e.currency.spec_bytes() {
        Err(DryRunError::CurrencyMismatch)
    } else {
        let duration = match (acc.estimated_duration_ms, e.estimated_duration_ms) {
            (Some(total), Some(next)) => {
                if total + next > u64::MAX {
                    None
                } else {
                    Some((total + next) as u64)
                }
            },
            _ => None,
        };
        let overflowed = match (acc.estimated_duration_ms, e.estimated_duration_ms) {
            (Some(total), Some(next)) => total + next > u64::MAX,
            _ => false,
        };
        if overflowed {
            Err(DryRunError::Overflow)
        } else {
            Ok(
                DryRunSummary {
                    request_count: (acc.request_count + 1) as u32,
                    call_count: (acc.call_count + e.call_count) as u32,
                    amount_micros: (acc.amount_micros + e.amount_micros) as u64,
                    currency: if acc.currency is Some {
                        acc.currency
                    } else {
                        Some(e.currency)
                    },
                    estimated_duration_ms: duration,
                },
            )
        }
    }
}

/// Folds `dry_run_step` over estimates, stopping at the first failure.
pub open spec fn dry_run_fold<E>(es: Seq<CostEstimate>) -> Result<DryRunSummary, DryRunError<E>>
    decreases es.len(),
{
    if es.len() == 0 {
        Ok(empty_dry_run())
    } else {
        match dry_run_fold::<E>(es.drop_last()) {
            Ok(acc) => dry_run_step::<E>(acc, es.last()),
            Err(x) => Err(x),
        }
    }
}

/// The summary of a batch: an empty batch reports no duration at all.
pub open spec fn dry_run_result<E>(es: Seq<CostEstimate>) -> Result<DryRunSummary, DryRunError<E>> {
    match dry_run_fold::<E>(es) {
        Ok(acc) => Ok(
            DryRunSummary {
                estimated_duration_ms: if es.len() == 0 {
                    None
                } else {
                    acc.estimated_duration_ms
                },
                ..acc
            },
        ),
        Err(x) => Err(x),
    }
}

/// Sum of the provider calls of a batch.
pub open spec fn total_calls(es: Seq<CostEstimate>) -> int
    decreases es.len(),
{
    if es.len() == 0 {
        0
    } else {
        total_calls(es.drop_last()) + es.last().call_count
    }
}

/// Sum of the amounts of a batch.
pub open spec fn total_amount(es: Seq<CostEstimate>) -> int
    decreases es.len(),
{
    if es.len() == 0 {
        0
    } else {
        total_amount(es.drop_last()) + es.last().amount_micros
    }
}

/// Serial duration of a batch: the sum, known only if every estimate has one.
pub open spec fn total_duration(es: Seq<CostEstimate>) -> Option<int>
    decreases es.len(),
{
    if es.len() == 0 {
        Some(0)
    } else {
        match (total_duration(es.drop_last()), es.last().estimated_duration_ms) {
            (Some(t), Some(d)) => Some(t + d),
            _ => None,
        }
    }
}

/// Every estimate of a batch is in the currency of the first.
pub open spec fn one_currency(es: Seq<CostEstimate>) -> bool {
    forall|k: int| 0 <= k < es.len() ==> (#[trigger] es[k]).currency.spec_bytes() == es[0].currency.spec_bytes()
}

proof fn lemma_fold_totals<E>(es: Seq<CostEstimate>)
    ensures
        dry_run_fold::<E>(es) matches Ok(s) ==> {
            &&& s.request_count == es.len()
            &&& s.call_count == total_calls(es)
            &&& s.amount_micros == total_amount(es)
            &&& es.len() == 0 ==> s.currency is None
            &&& es.len() > 0 ==> s.currency == Some(es[0].currency) && one_currency(es)
            &&& s.estimated_duration_ms == match total_duration(es) {
                Some(t) => Some(t as u64),
                None => None::<u64>,
            }
            &&& total_duration(es) matches Some(t) ==> 0 <= t <= u64::MAX
        },
    decreases es.len(),
{
    if es.len() > 0 {
        let prefix = es.drop_last();
        lemma_fold_totals::<E>(prefix);
        if dry_run_fold::<E>(es) is Ok {
            assert(dry_run_fold::<E>(prefix) is Ok);
            let prev = dry_run_fold::<E>(prefix)->Ok_0;
            let e = es.last();
            let next = dry_run_fold::<E>(es)->Ok_0;
            assert(dry_run_step::<E>(prev, e) == Ok::<DryRunSummary, DryRunError<E>>(next));
            assert(next.request_count == prev.request_count + 1);
            assert(next.call_count == prev.call_count + e.call_count);
            assert(next.amount_micros == prev.amount_micros + e.amount_micros);
            match (prev.estimated_duration_ms, e.estimated_duration_ms) {
                (Some(total), Some(d)) => {
                    assert(total_duration(prefix) is Some);
                    let t = total_duration(prefix)->Some_0;
                    assert(t as u64 == total && 0 <= t <= u64::MAX);
                    assert(t == total);
                    assert(total + d <= u64::MAX);
                    assert(total_duration(es) == Some(total + d));
                    assert(next.estimated_duration_ms == Some((total + d) as u64));
                },
                (None, _) => {
                    assert(total_duration(prefix) is None);
                    assert(total_duration(es) is None);
                    assert(next.estimated_duration_ms is None);
                },
                (_, None) => {
                    assert(total_duration(es) is None);
                    assert(next.estimated_duration_ms is None);
                },
            }
            if prefix.len() > 0 {
                assert(prefix[0] == es[0]);
                assert forall|k: int| 0 <= k < es.len() implies (#[trigger] es[k]).currency.spec_bytes()
                    == es[0].currency.spec_bytes() by {
                    if k < prefix.len() {
                        assert(es[k] == prefix[k]);
                    }
                }
            }
        }
    }
}

/// What a successful dry run reports: one request per estimate, the sums of
/// their calls and amounts, their common currency (none for an empty
/// batch), and the serial sum of their durations while every estimate gives
/// one (none for an empty batch). A batch whose estimates disagree on the
/// currency never succeeds.
pub proof fn lemma_dry_run_totals<E>(es: Seq<CostEstimate>)
    ensures
        dry_run_result::<E>(es) matches Ok(s) ==> {
            &&& s.request_count == es.len()
            &&& s.call_count == total_calls(es)
            &&& s.amount_micros == total_amount(es)
            &&& es.len() == 0 ==> s.currency is None && s.estimated_duration_ms is None
            &&& es.len() > 0 ==> {
                &&& s.currency == Some(es[0].currency)
                &&& one_currency(es)
                &&& s.estimated_duration_ms == match total_duration(es) {
                    Some(t) => Some(t as u64),
                    None => None::<u64>,
                }
            }
        },
        !one_currency(es) ==> dry_run_result::<E>(es) is Err,
{
    lemma_fold_totals::<E>(es);
}

/// One step adds exactly one request and the estimate's calls and amount.
pub proof fn lemma_step_adds_the_estimate<E>(acc: DryRunSummary, e: CostEstimate)
    ensures
        dry_run_step::<E>(acc, e) matches Ok(next) ==> next.request_count == acc.request_count + 1
            && next.call_count == acc.call_count + e.call_count && next.amount_micros
            == acc.amount_micros + e.amount_micros,
{
}

fn clone_currency(c: Option<CurrencyCode>) -> (r: Option<CurrencyCode>)
    ensures
        r == c,
{
    c
}

/// One step of the batch aggregate.
pub fn add_estimate<E>(acc: DryRunSummary, estimate: &CostEstimate) -> (r: Result<DryRunSummary, DryRunError<E>>)
    ensures
        r == dry_run_step::<E>(acc, *estimate),
{
    let request_count = match acc.request_count.checked_add(1) {
        Some(v) => v,
        None => return Err(DryRunError::Overflow),
    };
    let call_count = match acc.call_count.checked_add(estimate.call_count) {
        Some(v) => v,
        None => return Err(DryRunError::Overflow),
    };
    let amount_micros = match acc.amount_micros.checked_add(estimate.amount_micros) {
        Some(v) => v,
        None => return Err(DryRunError::Overflow),
    };
    let currency = match acc.currency {
        None => Some(estimate.currency),
        Some(current) => {
            if current.same_as(estimate.currency) {
                Some(current)
            } else {
                return Err(DryRunError::CurrencyMismatch);
            }
        },
    };
    let duration = match (acc.estimated_duration_ms, estimate.estimated_duration_ms) {
        (Some(total), Some(next)) => match total.checked_add(next) {
            Some(v) => Some(v),
            None => return Err(DryRunError::Overflow),
        },
        _ => None,
    };
    Ok(
        DryRunSummary {
            request_count,
            call_count,
            amount_micros,
            currency: clone_currency(currency),
            estimated_duration_ms: duration,
        },
    )
}

/// Aggregates already obtained estimates exactly as a dry run does.
pub fn summarize_estimates<E>(estimates: &[CostEstimate]) -> (r: Result<DryRunSummary, DryRunError<E>>)
    ensures
        r == dry_run_result::<E>(estimates@),
{
    let mut acc = DryRunSummary {
        request_count: 0,
        call_count: 0,
        amount_micros: 0,
        currency: None,
        estimated_duration_ms: Some(0),
    };
    let mut i: usize = 0;
    while i < estimates.len()
        invariant
            0 <= i <= estimates@.len(),
            dry_run_fold::<E>(estimates@.take(i as int)) == Ok::<DryRunSummary, DryRunError<E>>(acc),
        decreases estimates.len() - i,
    {
        proof {
            assert(estimates@.take(i + 1).drop_last() =~= estimates@.take(i as int));
        }
        acc = match add_estimate::<E>(acc, &estimates[i]) {
            Ok(next) => next,
            Err(x) => {
                proof {
                    lemma_fold_failure_persists::<E>(estimates@, i + 1);
                }
                return Err(x);
            },
        };
        i = i + 1;
    }
    assert(estimates@.take(estimates@.len() as int) =~= estimates@);
    if estimates.len() == 0 {
        acc.estimated_duration_ms = None;
    }
    Ok(acc)
}

/// Once a prefix of the batch fails, the whole batch fails the same way.
pub proof fn lemma_fold_failure_persists<E>(es: Seq<CostEstimate>, n: int)
    requires
        0 <= n <= es.len(),
        dry_run_fold::<E>(es.take(n)) is Err,
    ensures
        dry_run_fold::<E>(es) == dry_run_fold::<E>(es.take(n)),
    decreases es.len() - n,
{
    if n < es.len() {
        assert(es.take(n + 1).drop_last() =~= es.take(n));
        lemma_fold_failure_persists::<E>(es, n + 1);
    } else {
        assert(es.take(n) =~= es);
    }
}

/// `es` are, in order, estimates the adapter gave for the first requests.
pub open spec fn adapter_estimated<A: PaidJobAdapter>(
    adapter: &A,
    requests: Seq<A::Request>,
    es: Seq<CostEstimate>,
) -> bool {
    &&& es.len() <= requests.len()
    &&& forall|k: int|
        0 <= k < es.len() ==> call_ensures(
            A::estimate_cost,
            (adapter, &requests[k]),
            Ok::<CostEstimate, A::Error>(#[trigger] es[k]),
        )
}

impl JobRuntime {
    /// Estimates a batch without invoking the provider or writing intents:
    /// one estimate per request, aggregated by `dry_run_result`; the first
    /// estimate error stops the batch.
    pub fn dry_run<A: PaidJobAdapter>(&self, adapter: &A, requests: &[A::Request]) -> (r: Result<
        DryRunSummary,
        DryRunError<A::Error>,
    >)
        ensures
            requests@.len() == 0 ==> r == dry_run_result::<A::Error>(Seq::empty()),
            r is Ok ==> exists|es: Seq<CostEstimate>|
                es.len() == requests@.len() && adapter_estimated(adapter, requests@, es)
                    && dry_run_result::<A::Error>(es) == r,
            (r matches Err(DryRunError::Overflow)) || (r matches Err(DryRunError::CurrencyMismatch))
                ==> exists|es: Seq<CostEstimate>|
                adapter_estimated(adapter, requests@, es) && dry_run_fold::<A::Error>(es) == r,
            r matches Err(DryRunError::Provider(e)) ==> exists|es: Seq<CostEstimate>|
                es.len() < requests@.len() && adapter_estimated(adapter, requests@, es)
                    && dry_run_fold::<A::Error>(es) is Ok && call_ensures(
                    A::estimate_cost,
                    (adapter, &requests@[es.len() as int]),
                    Err::<CostEstimate, A::Error>(e),
                ),
    {
        let mut acc = DryRunSummary {
            request_count: 0,
            call_count: 0,
            amount_micros: 0,
            currency: None,
            estimated_duration_ms: Some(0),
        };
        let ghost mut seen: Seq<CostEstimate> = Seq::empty();
        let mut i: usize = 0;
        while i < requests.len()
            invariant
                0 <= i <= requests@.len(),
                seen.len() == i,
                adapter_estimated(adapter, requests@, seen),
                dry_run_fold::<A::Error>(seen) == Ok::<DryRunSummary, DryRunError<A::Error>>(acc),
            decreases requests.len() - i,
        {
            let estimate = match adapter.estimate_cost(&requests[i]) {
                Ok(estimate) => estimate,
                Err(error) => {
                    assert(call_ensures(
                        A::estimate_cost,
                        (adapter, &requests@[seen.len() as int]),
                        Err::<CostEstimate, A::Error>(error),
                    ));
                    return Err(DryRunError::Provider(error));
                },
            };
            let ghost before = seen;
            proof {
                seen = seen.push(estimate);
                assert(seen.drop_last() =~= before);
                assert forall|k: int| 0 <= k < seen.len() implies call_ensures(
                    A::estimate_cost,
                    (adapter, &requests@[k]),
                    Ok::<CostEstimate, A::Error>(#[trigger] seen[k]),
                ) by {
                    if k < before.len() {
                        assert(seen[k] == before[k]);
                    }
                }
            }
            acc = match add_estimate::<A::Error>(acc, &estimate) {
                Ok(next) => next,
                Err(x) => {
                    assert(dry_run_fold::<A::Error>(seen) == Err::<DryRunSummary, DryRunError<A::Error>>(x));
                    return Err(x);
                },
            };
            i = i + 1;
        }
        if requests.len() == 0 {
            acc.estimated_duration_ms = None;
        }
        assert(dry_run_result::<A::Error>(seen) == Ok::<DryRunSummary, DryRunError<A::Error>>(acc));
        Ok(acc)
    }
}

} // verus!
