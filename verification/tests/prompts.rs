use kineto::prompts::{
    CompiledPrompt, CompiledPromptError, ConstraintId, DegradationLevel, DroppedConstraint,
    GenerationPolicy,
};

fn constraint(value: &str) -> ConstraintId {
    ConstraintId::new(value).unwrap()
}

#[test]
fn degradation_is_derived_from_dropped_constraints() {
    let compiled = CompiledPrompt::new(
        "portrait of Alice",
        vec![constraint("framing.medium_close_up")],
        vec![
            DroppedConstraint {
                constraint: constraint("negative_prompt.no_text"),
                reason: "provider has no negative-prompt channel".to_owned(),
                degradation: DegradationLevel::Cosmetic,
            },
            DroppedConstraint {
                constraint: constraint("identity.alice.reference_pack"),
                reason: "provider does not accept identity references".to_owned(),
                degradation: DegradationLevel::IdentityAffecting,
            },
        ],
        "image-prompt/1",
    )
    .unwrap();

    assert_eq!(compiled.degradation(), DegradationLevel::IdentityAffecting);
    assert_eq!(compiled.prompt(), "portrait of Alice");
    assert_eq!(compiled.applied_constraints().len(), 1);
    assert_eq!(compiled.dropped_constraints().len(), 2);
    assert_eq!(compiled.compiler_version(), "image-prompt/1");
    assert!(compiled.is_degraded());
}

#[test]
fn policy_can_block_identity_affecting_degradation() {
    let policy = GenerationPolicy {
        block_identity_affecting_degradation: true,
    };
    let cosmetic = CompiledPrompt::new(
        "prompt",
        Vec::new(),
        vec![DroppedConstraint {
            constraint: constraint("camera.slow_dolly"),
            reason: "provider lacks parametric camera control".to_owned(),
            degradation: DegradationLevel::Cosmetic,
        }],
        "video-prompt/1",
    )
    .unwrap();
    let identity_affecting = CompiledPrompt::new(
        "prompt",
        Vec::new(),
        vec![DroppedConstraint {
            constraint: constraint("identity.alice.reference_pack"),
            reason: "provider lacks identity references".to_owned(),
            degradation: DegradationLevel::IdentityAffecting,
        }],
        "video-prompt/1",
    )
    .unwrap();

    assert!(policy.allows(&cosmetic));
    assert!(!policy.allows(&identity_affecting));
}

#[test]
fn every_dropped_constraint_requires_a_reason() {
    let result = CompiledPrompt::new(
        "prompt",
        Vec::new(),
        vec![DroppedConstraint {
            constraint: constraint("camera.slow_dolly"),
            reason: String::new(),
            degradation: DegradationLevel::Cosmetic,
        }],
        "video-prompt/1",
    );

    assert_eq!(result.unwrap_err(), CompiledPromptError::MissingDropReason);
}

#[test]
fn constraint_ids_are_portable_and_bounded() {
    assert!(ConstraintId::new("identity.alice_reference-1").is_ok());
    assert!(ConstraintId::new("contains space").is_err());
    assert!(ConstraintId::new(&"x".repeat(129)).is_err());
}

#[test]
fn nothing_dropped_means_unaffected_and_any_policy_allows() {
    let compiled = CompiledPrompt::new("prompt", Vec::new(), Vec::new(), "v/1").unwrap();
    assert_eq!(compiled.degradation(), DegradationLevel::Unaffected);
    assert!(!compiled.is_degraded());
    let strict = GenerationPolicy {
        block_identity_affecting_degradation: true,
    };
    assert!(strict.allows(&compiled));
}

#[test]
fn a_compiler_version_is_required() {
    let result = CompiledPrompt::new("prompt", Vec::new(), Vec::new(), "");
    assert_eq!(result.unwrap_err(), CompiledPromptError::MissingCompilerVersion);
}

#[test]
fn lenient_policy_allows_identity_affecting_degradation() {
    let lenient = GenerationPolicy {
        block_identity_affecting_degradation: false,
    };
    let identity_affecting = CompiledPrompt::new(
        "prompt",
        Vec::new(),
        vec![DroppedConstraint {
            constraint: constraint("identity.alice.reference_pack"),
            reason: "provider lacks identity references".to_owned(),
            degradation: DegradationLevel::IdentityAffecting,
        }],
        "video-prompt/1",
    )
    .unwrap();
    assert!(lenient.allows(&identity_affecting));
}
