use kineto::artifact::InputHash;
use kineto::artifact::ArtifactId;
use kineto::intent_order::order_by_job_id;
use kineto::intent_retention::{
    is_tombstoned, reservation_covers, reservation_may_be_cleared, tombstone_of,
    IntentRetentionPolicy, ReservationState,
};
use kineto::job_runtime::{
    derive_idempotency_key, DryRunError, PaidJobAdapter, StoredIntent,
};
use kineto::jobs::IdempotencyKey;
use kineto::shot_records::JsonField;
use kineto::job_runtime::{
    retry_disposition, DispatchOutcome, Invocation, InvokePreparedError, JobRuntime,
    JobRuntimeError, JobRuntimePolicy, PrepareOutcome, ProviderKey, Reconciliation,
    RetryDisposition, RuntimeIntent, StartupOutcome, StartupQuery,
};
use kineto::jobs::{
    BackoffPolicy, CostEstimate, CurrencyCode, ErrorClass, FallbackPolicy, IntentState, JobId,
    PaidFallback, ProviderExecutionPolicy, ProviderJobId,
};
use kineto::intent_files::{
    intent_entry_path, intent_file_name, intent_path, is_listed_intent_file, names_intent_of,
};
use kineto::limiter::ProviderLimiterState;

fn policy(max_concurrency: u16, max_attempts: u16) -> JobRuntimePolicy {
    JobRuntimePolicy {
        execution: ProviderExecutionPolicy::new(
            max_concurrency,
            BackoffPolicy::new(100, 1_000, max_attempts).unwrap(),
        ),
        fallback_policy: FallbackPolicy {
            paid_fallback: PaidFallback::Allowed,
            max_paid_amount_micros: Some(5_000_000),
            require_user_approval: true,
        },
    }
}

fn input_hash(fill: char) -> InputHash {
    InputHash::new(&format!("sha256:{}", fill.to_string().repeat(64))).unwrap()
}

fn created(outcome: PrepareOutcome) -> RuntimeIntent {
    match outcome {
        PrepareOutcome::Created(record) => record,
        PrepareOutcome::Existing(_) => panic!("expected a new intent"),
    }
}

#[derive(Debug, Clone, Copy, PartialEq, Eq)]
enum FakeError {
    Retryable,
    Terminal,
}

fn classify(error: FakeError) -> ErrorClass {
    match error {
        FakeError::Retryable => ErrorClass::Retryable,
        FakeError::Terminal => ErrorClass::Terminal,
    }
}

fn runtime(provider: &str, policy: JobRuntimePolicy) -> JobRuntime {
    JobRuntime::new(false, ProviderKey::new(provider).unwrap(), policy)
}

#[test]
fn prepared_intent_is_persisted_before_provider_invocation() {
    let runtime = runtime("fake-video-persist", policy(1, 3));
    let job_id = JobId::new("job_001").unwrap();
    let mut record = created(
        runtime
            .prepare(&[], job_id.clone(), "video.generate", input_hash('a'), None)
            .unwrap(),
    );
    assert_eq!(record.intent().state(), IntentState::Prepared);

    runtime.begin_attempt(&mut record).unwrap();
    // This is the record persisted before the provider is called.
    assert_eq!(record.intent().state(), IntentState::Prepared);
    assert_eq!(record.attempts(), 1);

    let outcome = runtime.settle_attempt::<&str, FakeError>(
        &mut record,
        Ok(Invocation::Completed("result")),
    );
    assert!(matches!(outcome, Ok(DispatchOutcome::Completed { .. })));
    assert_eq!(record.intent().state(), IntentState::Invoked);
    assert_eq!(record.attempts(), 1);
}

#[test]
fn prepared_crash_window_reconciles_by_idempotency_key_before_retry() {
    let runtime = runtime("fake-image-crash", policy(1, 3));
    let job_id = JobId::new("job_003").unwrap();
    let mut record = created(
        runtime
            .prepare(&[], job_id.clone(), "image.generate", input_hash('c'), None)
            .unwrap(),
    );
    assert!(runtime.awaits_startup_reconciliation(&record));
    assert_eq!(
        JobRuntime::startup_query(&record),
        Some(StartupQuery::ByIdempotencyKey(
            record.intent().idempotency_key().clone()
        ))
    );
    let (outcome, save) = runtime.resolve_startup::<&str, FakeError>(
        &mut record,
        Ok(Reconciliation::Completed {
            output: "found-by-key",
            provider_job_id: Some(ProviderJobId::new("remote-003").unwrap()),
        }),
    );
    assert!(save);
    assert!(matches!(
        outcome,
        StartupOutcome::ResultReady {
            output: "found-by-key",
            ..
        }
    ));
    assert_eq!(record.intent().state(), IntentState::Invoked);
}

#[test]
fn startup_reattaches_remote_job_without_reinvoking() {
    let runtime = runtime("fake-video-reconcile", policy(1, 3));
    let job_id = JobId::new("job_002").unwrap();
    let mut record = created(
        runtime
            .prepare(&[], job_id.clone(), "video.generate", input_hash('b'), None)
            .unwrap(),
    );
    let remote = ProviderJobId::new("provider/jobs:42").unwrap();
    runtime.begin_attempt(&mut record).unwrap();
    runtime
        .settle_attempt::<&str, FakeError>(&mut record, Ok(Invocation::Pending(remote.clone())))
        .unwrap();

    assert_eq!(
        JobRuntime::startup_query(&record),
        Some(StartupQuery::ByProviderJobId(remote.clone()))
    );
    let (outcome, save) = runtime.resolve_startup::<&str, FakeError>(
        &mut record,
        Ok(Reconciliation::Completed {
            output: "reattached",
            provider_job_id: Some(remote),
        }),
    );
    assert!(!save);
    assert!(matches!(
        outcome,
        StartupOutcome::ResultReady {
            output: "reattached",
            ..
        }
    ));
}

#[test]
fn result_is_reconciled_only_after_canonical_acknowledgement() {
    let runtime = runtime("fake-image-ack", policy(1, 3));
    let job_id = JobId::new("job_004").unwrap();
    let mut record = created(
        runtime
            .prepare(&[], job_id.clone(), "image.generate", input_hash('d'), None)
            .unwrap(),
    );
    runtime.begin_attempt(&mut record).unwrap();
    runtime
        .settle_attempt::<&str, FakeError>(&mut record, Ok(Invocation::Completed("result")))
        .unwrap();
    assert_eq!(record.intent().state(), IntentState::Invoked);

    let acknowledged = runtime.acknowledge_result(record).unwrap();
    assert_eq!(acknowledged.intent().state(), IntentState::Reconciled);
    assert!(!runtime.awaits_startup_reconciliation(&acknowledged));
    assert_eq!(JobRuntime::startup_query(&acknowledged), None);
}

#[test]
fn retryable_and_terminal_failures_follow_backoff_policy() {
    let runtime = runtime("fake-image-retry", policy(1, 2));
    let retry_job = JobId::new("job_005").unwrap();
    let mut retry_record = created(
        runtime
            .prepare(&[], retry_job.clone(), "image.generate", input_hash('e'), None)
            .unwrap(),
    );
    runtime.begin_attempt(&mut retry_record).unwrap();
    match runtime.settle_attempt::<&str, FakeError>(
        &mut retry_record,
        Err((FakeError::Retryable, classify(FakeError::Retryable))),
    ) {
        Err(InvokePreparedError::Provider {
            class: ErrorClass::Retryable,
            retry: RetryDisposition::AfterMs(100),
            ..
        }) => {}
        other => panic!("unexpected retry result: {other:?}"),
    }
    runtime.begin_attempt(&mut retry_record).unwrap();
    match runtime.settle_attempt::<&str, FakeError>(
        &mut retry_record,
        Err((FakeError::Retryable, classify(FakeError::Retryable))),
    ) {
        Err(InvokePreparedError::Provider {
            retry: RetryDisposition::Exhausted,
            ..
        }) => {}
        other => panic!("unexpected exhausted result: {other:?}"),
    }

    let terminal_job = JobId::new("job_006").unwrap();
    let mut terminal_record = created(
        runtime
            .prepare(
                &[],
                terminal_job.clone(),
                "image.generate",
                input_hash('f'),
                None,
            )
            .unwrap(),
    );
    runtime.begin_attempt(&mut terminal_record).unwrap();
    match runtime.settle_attempt::<&str, FakeError>(
        &mut terminal_record,
        Err((FakeError::Terminal, classify(FakeError::Terminal))),
    ) {
        Err(InvokePreparedError::Provider {
            class: ErrorClass::Terminal,
            retry: RetryDisposition::Never,
            ..
        }) => {}
        other => panic!("unexpected terminal result: {other:?}"),
    }
    assert_eq!(terminal_record.last_error_class(), Some(ErrorClass::Terminal));
    assert!(matches!(
        runtime.begin_attempt(&mut terminal_record),
        Err(JobRuntimeError::PreviousTerminalFailure)
    ));
}

#[test]
fn terminal_failure_remains_non_retryable_after_restart() {
    let runtime = runtime("fake-image-terminal-restart", policy(1, 3));
    let job_id = JobId::new("job_terminal_restart").unwrap();
    let mut record = created(
        runtime
            .prepare(&[], job_id.clone(), "image.generate", input_hash('9'), None)
            .unwrap(),
    );
    runtime.begin_attempt(&mut record).unwrap();
    let _ = runtime.settle_attempt::<&str, FakeError>(
        &mut record,
        Err((FakeError::Terminal, classify(FakeError::Terminal))),
    );
    let (outcome, save) =
        runtime.resolve_startup::<&str, FakeError>(&mut record, Ok(Reconciliation::NotFound));
    assert!(!save);
    assert!(matches!(
        outcome,
        StartupOutcome::RetryPrepared {
            retry: RetryDisposition::Never,
            ..
        }
    ));
}

#[test]
fn duplicate_semantic_work_reuses_existing_intent() {
    let runtime = runtime("fake-video-duplicate", policy(1, 3));
    let first = created(
        runtime
            .prepare(
                &[],
                JobId::new("job_007").unwrap(),
                "video.generate",
                input_hash('7'),
                None,
            )
            .unwrap(),
    );
    let stored = vec![first.clone()];
    let second = runtime
        .prepare(
            &stored,
            JobId::new("job_008").unwrap(),
            "video.generate",
            input_hash('7'),
            None,
        )
        .unwrap();

    match second {
        PrepareOutcome::Existing(existing) => {
            assert_eq!(existing.intent().job_id(), first.intent().job_id());
            assert_eq!(
                existing.intent().idempotency_key(),
                first.intent().idempotency_key()
            );
        }
        PrepareOutcome::Created(_) => panic!("duplicate work must not create another intent"),
    }
}

#[test]
fn read_only_runtime_refuses_to_prepare_or_acknowledge() {
    let runtime = JobRuntime::new(
        true,
        ProviderKey::new("fake-read-only").unwrap(),
        policy(1, 3),
    );
    assert!(matches!(
        runtime.prepare(
            &[],
            JobId::new("job_009").unwrap(),
            "video.generate",
            input_hash('1'),
            None
        ),
        Err(JobRuntimeError::ReadOnlyProject)
    ));
}

#[test]
fn paid_fallback_requires_both_budget_and_explicit_approval() {
    let runtime = runtime("fake-video-fallback", policy(1, 3));
    let usd = CurrencyCode::new(*b"USD").unwrap();
    let cheap = CostEstimate {
        call_count: 1,
        amount_micros: 4_000_000,
        currency: usd,
        estimated_duration_ms: None,
    };
    let expensive = CostEstimate {
        amount_micros: 6_000_000,
        ..cheap
    };

    assert!(!runtime.allows_paid_fallback(&cheap, false));
    assert!(runtime.allows_paid_fallback(&cheap, true));
    assert!(!runtime.allows_paid_fallback(&expensive, true));
}

#[test]
fn backoff_doubles_up_to_the_ceiling() {
    let backoff = BackoffPolicy::new(100, 1_000, 10).unwrap();
    assert_eq!(
        retry_disposition(ErrorClass::Retryable, 1, backoff),
        RetryDisposition::AfterMs(100)
    );
    assert_eq!(
        retry_disposition(ErrorClass::Retryable, 3, backoff),
        RetryDisposition::AfterMs(400)
    );
    assert_eq!(
        retry_disposition(ErrorClass::Retryable, 5, backoff),
        RetryDisposition::AfterMs(1_000)
    );
    assert_eq!(
        retry_disposition(ErrorClass::Retryable, 10, backoff),
        RetryDisposition::Exhausted
    );
    assert_eq!(
        retry_disposition(ErrorClass::Terminal, 1, backoff),
        RetryDisposition::Never
    );
}

#[test]
fn provider_permit_releases_after_success_error_and_drop() {
    let mut limiter = ProviderLimiterState::new();
    limiter.register(1);
    limiter.register(1);

    // A successful call holds the permit only while it runs.
    assert!(limiter.try_acquire());
    limiter.release();
    assert!(limiter.try_acquire());
    limiter.release();

    // So does a failed one.
    assert!(limiter.try_acquire());
    limiter.release();
    assert!(limiter.try_acquire());
    limiter.release();

    assert!(limiter.try_acquire());
    assert!(!limiter.try_acquire());
    limiter.release();
    assert!(limiter.try_acquire());
}

#[test]
fn conflicting_provider_ceilings_use_strictest_live_policy() {
    let mut limiter = ProviderLimiterState::new();
    limiter.register(4);
    limiter.register(1);
    assert_eq!(limiter.effective_max(), Some(1));
    assert!(limiter.try_acquire());
    assert!(!limiter.try_acquire());
    limiter.release();

    limiter.unregister(1);
    assert_eq!(limiter.effective_max(), Some(4));
    assert!(limiter.try_acquire());
    assert!(limiter.try_acquire());
    assert!(limiter.try_acquire());
    assert!(limiter.try_acquire());
    assert!(!limiter.try_acquire());
}

#[test]
fn intents_are_stored_under_their_job_identifier() {
    let job = JobId::new("job_001").unwrap();
    assert_eq!(intent_file_name(&job), "job_001.json");
    assert_eq!(
        intent_path(&job).unwrap().as_str(),
        ".kineto/jobs/intents/job_001.json"
    );
    assert!(names_intent_of("job_001.json", &job));
    assert!(!names_intent_of("job_002.json", &job));
    assert!(is_listed_intent_file(&intent_file_name(&job)));
}

#[test]
fn intent_listing_skips_staged_writes_and_other_files() {
    assert!(is_listed_intent_file("job_001.json"));
    assert!(!is_listed_intent_file(".kineto-write-12-3.tmp"));
    assert!(!is_listed_intent_file(".kineto-write-12-3.json"));
    assert!(!is_listed_intent_file("job_001.json.bak"));
    assert!(!is_listed_intent_file("notes.txt"));
    assert!(intent_entry_path("job_001.json").is_ok());
    assert!(intent_entry_path("../escape.json").is_err());
}

struct Estimator {
    currencies: Vec<[u8; 3]>,
    fail_at: Option<usize>,
    asked: std::cell::Cell<usize>,
}

impl PaidJobAdapter for Estimator {
    type Request = (usize, u64);
    type Output = ();
    type Error = FakeError;

    fn estimate_cost(&self, request: &Self::Request) -> Result<CostEstimate, Self::Error> {
        self.asked.set(self.asked.get() + 1);
        if self.fail_at == Some(request.0) {
            return Err(FakeError::Terminal);
        }
        Ok(CostEstimate {
            call_count: 1,
            amount_micros: request.1,
            currency: CurrencyCode::new(self.currencies[request.0]).unwrap(),
            estimated_duration_ms: Some(1_000),
        })
    }

    fn invoke(
        &mut self,
        _request: &Self::Request,
        _idempotency_key: &IdempotencyKey,
    ) -> Result<Invocation<()>, Self::Error> {
        panic!("a dry run never invokes")
    }

    fn reconcile(
        &mut self,
        _provider_job_id: &ProviderJobId,
    ) -> Result<Reconciliation<()>, Self::Error> {
        panic!("a dry run never reconciles")
    }

    fn reconcile_by_idempotency_key(
        &mut self,
        _idempotency_key: &IdempotencyKey,
    ) -> Result<Reconciliation<()>, Self::Error> {
        panic!("a dry run never reconciles")
    }

    fn classify_error(&self, error: &Self::Error) -> ErrorClass {
        classify(*error)
    }
}

fn estimator(currencies: Vec<[u8; 3]>, fail_at: Option<usize>) -> Estimator {
    Estimator { currencies, fail_at, asked: std::cell::Cell::new(0) }
}

#[test]
fn dry_run_aggregates_cost_without_invoking_or_persisting() {
    let runtime = runtime("fake-image-dry-run", policy(1, 3));
    let adapter = estimator(vec![*b"USD", *b"USD"], None);
    let summary = runtime
        .dry_run(&adapter, &[(0, 1_000_000), (1, 2_000_000)])
        .unwrap();
    assert_eq!(summary.request_count, 2);
    assert_eq!(summary.call_count, 2);
    assert_eq!(summary.amount_micros, 3_000_000);
    assert_eq!(summary.currency.unwrap().bytes(), *b"USD");
    assert_eq!(summary.estimated_duration_ms, Some(2_000));
    assert_eq!(adapter.asked.get(), 2);
}

#[test]
fn dry_run_of_nothing_asks_nothing() {
    let runtime = runtime("fake-image-dry-run-empty", policy(1, 3));
    let adapter = estimator(Vec::new(), None);
    let summary = runtime.dry_run(&adapter, &[]).unwrap();
    assert_eq!(summary.request_count, 0);
    assert_eq!(summary.amount_micros, 0);
    assert!(summary.currency.is_none());
    assert_eq!(summary.estimated_duration_ms, None);
    assert_eq!(adapter.asked.get(), 0);
}

#[test]
fn dry_run_refuses_mixed_currencies_and_stops_at_provider_errors() {
    let runtime = runtime("fake-image-dry-run-mixed", policy(1, 3));
    let mixed = estimator(vec![*b"USD", *b"EUR", *b"USD"], None);
    assert!(matches!(
        runtime.dry_run(&mixed, &[(0, 1), (1, 1), (2, 1)]),
        Err(DryRunError::CurrencyMismatch)
    ));
    assert_eq!(mixed.asked.get(), 2);
    let failing = estimator(vec![*b"USD", *b"USD", *b"USD"], Some(1));
    assert!(matches!(
        runtime.dry_run(&failing, &[(0, 1), (1, 1), (2, 1)]),
        Err(DryRunError::Provider(FakeError::Terminal))
    ));
    assert_eq!(failing.asked.get(), 2);
    let overflowing = estimator(vec![*b"USD", *b"USD"], None);
    assert!(matches!(
        runtime.dry_run(&overflowing, &[(0, u64::MAX), (1, 1)]),
        Err(DryRunError::Overflow)
    ));
}

#[test]
fn idempotency_keys_name_the_targeted_artifact() {
    let hash = input_hash('a');
    let a = ArtifactId::new("shot_001_g0001_candidate_a").unwrap();
    let b = ArtifactId::new("shot_001_g0001_candidate_b").unwrap();
    let key_a = derive_idempotency_key("video.generate", Some(&a), &hash).unwrap();
    let key_b = derive_idempotency_key("video.generate", Some(&b), &hash).unwrap();
    let untargeted = derive_idempotency_key("video.generate", None, &hash).unwrap();
    assert_eq!(
        key_a.as_str(),
        format!("video.generate:shot_001_g0001_candidate_a:{}", hash.as_str())
    );
    assert_ne!(key_a, key_b);
    assert_eq!(untargeted.as_str(), format!("video.generate:{}", hash.as_str()));
}

#[test]
fn another_candidate_gets_a_new_intent_and_a_retry_reuses_its_own() {
    let runtime = runtime("fake-video-candidates", policy(1, 3));
    let a = ArtifactId::new("shot_001_g0001_candidate_a").unwrap();
    let b = ArtifactId::new("shot_001_g0001_candidate_b").unwrap();
    let first = created(
        runtime
            .prepare(
                &[],
                JobId::new("job_101").unwrap(),
                "video.generate",
                input_hash('7'),
                Some(a.clone()),
            )
            .unwrap(),
    );
    let stored = vec![first];
    let other = runtime
        .prepare(
            &stored,
            JobId::new("job_102").unwrap(),
            "video.generate",
            input_hash('7'),
            Some(b),
        )
        .unwrap();
    assert!(matches!(other, PrepareOutcome::Created(_)));
    let retry = runtime
        .prepare(
            &stored,
            JobId::new("job_103").unwrap(),
            "video.generate",
            input_hash('7'),
            Some(a),
        )
        .unwrap();
    match retry {
        PrepareOutcome::Existing(existing) => {
            assert_eq!(existing.intent().job_id().as_str(), "job_101")
        }
        PrepareOutcome::Created(_) => panic!("a retry of the same candidate must reuse its intent"),
    }
}

fn stored_intent(job: &str, provider: &str, state: IntentState) -> StoredIntent {
    StoredIntent {
        schema_version: 1,
        provider: provider.to_owned(),
        job_id: job.to_owned(),
        operation: "video.generate".to_owned(),
        idempotency_key: format!("video.generate:{}", input_hash('1').as_str()),
        input_hash: input_hash('1').as_str().to_owned(),
        artifact_id: None,
        provider_job_id: None,
        state,
        attempts: 0,
        last_error_class: None,
        extra: vec![JsonField { key: "x".to_owned(), json: "[1,2]".to_owned() }],
    }
}

#[test]
fn unknown_stored_fields_survive_load_and_save() {
    let runtime = runtime("fake-video-extra", policy(1, 3));
    let stored = stored_intent("job_201", "fake-video-extra", IntentState::Prepared);
    let mut record = RuntimeIntent::from_stored_for_job(&stored, &JobId::new("job_201").unwrap())
        .unwrap();
    runtime.begin_attempt(&mut record).unwrap();
    let saved = record.to_stored();
    assert_eq!(saved.extra, stored.extra);
    assert_eq!(saved.attempts, 1);
}

#[test]
fn a_valid_record_loads_for_its_job_and_not_for_another() {
    let stored = stored_intent("job_301", "fake-video-load", IntentState::Prepared);
    assert!(RuntimeIntent::from_stored_for_job(&stored, &JobId::new("job_301").unwrap()).is_ok());
    assert!(matches!(
        RuntimeIntent::from_stored_for_job(&stored, &JobId::new("job_302").unwrap()),
        Err(JobRuntimeError::InvalidRecord(_))
    ));
}

#[test]
fn startup_works_through_unfinished_intents_of_its_provider_in_job_order() {
    let runtime = runtime("fake-video-startup-order", policy(1, 3));
    let load = |job: &str, provider: &str, state: IntentState| {
        RuntimeIntent::from_stored(&stored_intent(job, provider, state)).unwrap()
    };
    let records = vec![
        load("job_c", "fake-video-startup-order", IntentState::Prepared),
        load("job_a", "fake-video-startup-order", IntentState::Prepared),
        load("job_d", "another-provider", IntentState::Prepared),
        load("job_b", "fake-video-startup-order", IntentState::Prepared),
        load("job_ab", "fake-video-startup-order", IntentState::Prepared),
    ];
    let order: Vec<String> = runtime
        .startup_order(records)
        .iter()
        .map(|r| r.intent().job_id().as_str().to_owned())
        .collect();
    assert_eq!(order, vec!["job_a", "job_ab", "job_b", "job_c"]);
}

#[test]
fn records_are_ordered_by_job_identifier() {
    let load = |job: &str| {
        RuntimeIntent::from_stored(&stored_intent(job, "p", IntentState::Prepared)).unwrap()
    };
    let ordered: Vec<String> = order_by_job_id(vec![load("job_2"), load("job_10"), load("job_1")])
        .iter()
        .map(|r| r.intent().job_id().as_str().to_owned())
        .collect();
    assert_eq!(ordered, vec!["job_1", "job_10", "job_2"]);
}

#[test]
fn pruning_removes_only_the_earliest_reconciled_intents_beyond_the_bound() {
    let runtime = runtime("fake-video-prune", policy(1, 3));
    let load = |job: &str, provider: &str, state: IntentState| {
        RuntimeIntent::from_stored(&stored_intent(job, provider, state)).unwrap()
    };
    let records = vec![
        load("job_1", "fake-video-prune", IntentState::Reconciled),
        load("job_2", "fake-video-prune", IntentState::Prepared),
        load("job_3", "other-provider", IntentState::Reconciled),
        load("job_4", "fake-video-prune", IntentState::Reconciled),
        load("job_5", "fake-video-prune", IntentState::Invoked),
        load("job_6", "fake-video-prune", IntentState::Reconciled),
    ];
    let plan = runtime.prune_plan(&records, IntentRetentionPolicy { max_reconciled: 1 });
    assert_eq!(plan, vec![0, 3]);
    assert!(runtime
        .prune_plan(&records, IntentRetentionPolicy { max_reconciled: 3 })
        .is_empty());
    assert_eq!(IntentRetentionPolicy::default().max_reconciled, 256);
}

#[test]
fn pruned_work_cannot_become_payable_again() {
    let runtime = runtime("fake-video-tombstone", policy(1, 3));
    let a = ArtifactId::new("shot_001_g0001_candidate_a").unwrap();
    let first = created(
        runtime
            .prepare(&[], JobId::new("job_401").unwrap(), "video.generate", input_hash('4'), Some(a.clone()))
            .unwrap(),
    );
    let tombstones = vec![tombstone_of(&first)];
    assert!(is_tombstoned(&tombstones, first.provider(), first.intent().idempotency_key()));
    assert!(matches!(
        runtime.prepare_unless_paid(
            &tombstones,
            &[],
            JobId::new("job_402").unwrap(),
            "video.generate",
            input_hash('4'),
            Some(a),
        ),
        Err(JobRuntimeError::AlreadyReconciled)
    ));
    let b = ArtifactId::new("shot_001_g0001_candidate_b").unwrap();
    assert!(matches!(
        runtime.prepare_unless_paid(
            &tombstones,
            &[],
            JobId::new("job_403").unwrap(),
            "video.generate",
            input_hash('4'),
            Some(b),
        ),
        Ok(PrepareOutcome::Created(_))
    ));
}

#[test]
fn only_an_unpublished_reservation_may_be_cleared() {
    assert!(reservation_may_be_cleared(ReservationState::Reserved, false));
    assert!(!reservation_may_be_cleared(ReservationState::Reserved, true));
    assert!(!reservation_may_be_cleared(ReservationState::Active, false));
    let provider = ProviderKey::new("fake-video").unwrap();
    let key = IdempotencyKey::new("video.generate:abc").unwrap();
    let other = IdempotencyKey::new("video.generate:abd").unwrap();
    assert!(reservation_covers(&provider, &key, &provider, &key));
    assert!(!reservation_covers(&provider, &other, &provider, &key));
}
