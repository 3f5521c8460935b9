use std::num::NonZeroU16;

use kineto::artifact::InputHash;
use kineto::jobs::{
    BackoffPolicy, CostEstimate, CurrencyCode, FallbackPolicy, IdempotencyKey, IntentState, JobId,
    JobIntent, JobIntentError, PaidFallback, ProviderExecutionPolicy, ProviderJobId,
    MAX_LOCAL_ID_LEN,
};

fn input_hash(fill: char) -> InputHash {
    InputHash::new(&format!("sha256:{}", fill.to_string().repeat(64))).unwrap()
}

fn idempotency(operation: &str, fill: char) -> IdempotencyKey {
    IdempotencyKey::new(&format!(
        "{operation}:sha256:{}",
        fill.to_string().repeat(64)
    ))
    .unwrap()
}

#[test]
fn provider_handle_is_recorded_on_the_write_ahead_intent() {
    let mut intent = JobIntent::new(
        JobId::new("job_01J").unwrap(),
        "video.generate",
        idempotency("video.generate", 'a'),
        input_hash('a'),
        None,
    )
    .unwrap();

    let remote = ProviderJobId::new("remote-42").unwrap();
    intent.mark_invoked(Some(remote.clone())).unwrap();

    assert_eq!(intent.provider_job_id(), Some(&remote));
    assert_eq!(intent.state(), IntentState::Invoked);
    assert_eq!(intent.operation(), "video.generate");
    assert_eq!(intent.job_id().as_str(), "job_01J");
    assert!(intent.artifact_id().is_none());
    assert!(intent
        .idempotency_key()
        .as_str()
        .starts_with("video.generate:"));
    assert!(intent.input_hash().as_str().starts_with("sha256:"));
}

#[test]
fn intent_cannot_skip_directly_from_prepared_to_reconciled() {
    let mut intent = JobIntent::new(
        JobId::new("job_02J").unwrap(),
        "image.generate",
        idempotency("image.generate", 'b'),
        input_hash('b'),
        None,
    )
    .unwrap();

    assert_eq!(
        intent.mark_reconciled().unwrap_err(),
        JobIntentError::InvalidTransition
    );
}

#[test]
fn money_is_integer_and_paid_fallback_respects_the_ceiling() {
    let usd = CurrencyCode::new(*b"USD").unwrap();
    let estimate = CostEstimate {
        call_count: 42,
        amount_micros: 12_500_000,
        currency: usd,
        estimated_duration_ms: Some(18 * 60 * 1000),
    };
    let policy = FallbackPolicy {
        paid_fallback: PaidFallback::Allowed,
        max_paid_amount_micros: Some(10_000_000),
        require_user_approval: true,
    };

    assert_eq!(estimate.currency.bytes(), *b"USD");
    assert!(!policy.allows_paid_amount(estimate.amount_micros));
}

#[test]
fn invalid_backoff_configuration_is_rejected_at_construction() {
    assert!(BackoffPolicy::new(5_000, 1_000, 3).is_err());
    assert!(BackoffPolicy::new(1_000, 5_000, 0).is_err());
}

#[test]
fn provider_execution_policy_can_only_hold_valid_backoff() {
    let backoff = BackoffPolicy::new(500, 5_000, 4).unwrap();
    let concurrency = NonZeroU16::new(2).unwrap();
    let policy = ProviderExecutionPolicy::new(concurrency.get(), backoff);

    assert_eq!(policy.max_concurrency(), concurrency.get());
    assert_eq!(policy.backoff().base_delay_ms(), 500);
    assert_eq!(policy.backoff().max_delay_ms(), 5_000);
    assert_eq!(policy.backoff().max_attempts(), 4);
}

#[test]
fn job_identifiers_are_bounded_and_portable() {
    assert!(JobId::new("job_01J.test-2").is_ok());
    assert!(JobId::new("job with spaces").is_err());
    assert!(JobId::new(&"x".repeat(MAX_LOCAL_ID_LEN + 1)).is_err());
    assert!(IdempotencyKey::new("video.generate:sha256:abc").is_ok());
    assert!(ProviderJobId::new("provider/jobs:remote-42").is_ok());
    assert!(ProviderJobId::new("remote\n42").is_err());
}

#[test]
fn job_identifier_at_the_bound_is_accepted() {
    assert!(JobId::new(&"x".repeat(MAX_LOCAL_ID_LEN)).is_ok());
    assert!(JobId::new("").is_err());
}

#[test]
fn reconciled_intent_follows_invoked() {
    let mut intent = JobIntent::new(
        JobId::new("job_03J").unwrap(),
        "image.generate",
        idempotency("image.generate", 'c'),
        input_hash('c'),
        None,
    )
    .unwrap();
    intent.mark_invoked(None).unwrap();
    assert_eq!(intent.state(), IntentState::Invoked);
    assert!(intent.provider_job_id().is_none());
    intent.mark_reconciled().unwrap();
    assert_eq!(intent.state(), IntentState::Reconciled);
    assert_eq!(
        intent.mark_invoked(None).unwrap_err(),
        JobIntentError::InvalidTransition
    );
}

#[test]
fn intent_requires_an_operation() {
    let result = JobIntent::new(
        JobId::new("job_04J").unwrap(),
        "",
        idempotency("video.generate", 'd'),
        input_hash('d'),
        None,
    );
    assert_eq!(result.unwrap_err(), JobIntentError::MissingOperation);
}

#[test]
fn currency_codes_are_three_uppercase_letters() {
    assert!(CurrencyCode::new(*b"EUR").is_ok());
    assert!(CurrencyCode::new(*b"usd").is_err());
    assert!(CurrencyCode::new(*b"U$D").is_err());
}

#[test]
fn paid_fallback_ceiling_is_inclusive_and_can_be_forbidden() {
    let allowed = FallbackPolicy {
        paid_fallback: PaidFallback::Allowed,
        max_paid_amount_micros: Some(10_000_000),
        require_user_approval: false,
    };
    assert!(allowed.allows_paid_amount(10_000_000));
    assert!(!allowed.allows_paid_amount(10_000_001));
    let unbounded = FallbackPolicy {
        max_paid_amount_micros: None,
        ..allowed
    };
    assert!(unbounded.allows_paid_amount(u64::MAX));
    let forbidden = FallbackPolicy {
        paid_fallback: PaidFallback::Forbidden,
        ..allowed
    };
    assert!(!forbidden.allows_paid_amount(1));
}
