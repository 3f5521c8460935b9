use kineto::artifact::{ContentHash, InputHash};
use kineto::lifecycle::ArtifactStatus;
use kineto::shot::{encode_shot_snapshot, ShotApprovalSnapshot, ShotDirection};
use kineto::shot_error::{
    shot_error_code, shot_result_code, HashField, ShotWorkflowError, PROJECT_ERR_INVALID_CANDIDATE,
    PROJECT_ERR_INVALID_SHOT_STATE, PROJECT_ERR_LOCKED, PROJECT_ERR_STALE_SELECTION, PROJECT_OK,
};
use kineto::shot_hash::shot_id_for;
use kineto::shot_records::{
    JsonField, ShotProductionManifest, StoredArtifactRecord, StoredSelectionManifest,
};
use kineto::shot_workflow::{
    accept_shot, backup_write_needed, shot_files, ShotHashIssue, ShotPublication, ShotWorkflow,
};

/// What the three files of shot 1 hold.
#[derive(Clone, Default)]
struct Files {
    shot: Option<ShotProductionManifest>,
    artifacts: Option<Vec<StoredArtifactRecord>>,
    selection: Option<StoredSelectionManifest>,
}

fn load(files: &Files) -> ShotWorkflow {
    try_load(files).unwrap()
}

fn try_load(files: &Files) -> Result<ShotWorkflow, ShotWorkflowError> {
    ShotWorkflow::load(
        1,
        files.shot.clone(),
        files.artifacts.clone(),
        files.artifacts.as_ref().map(|_| b"stored artifacts".to_vec()),
        files.selection.clone(),
    )
}

fn publish(shot: &mut ShotWorkflow, files: &mut Files, publication: ShotPublication) {
    if let Some(s) = &publication.shot {
        files.shot = Some(s.clone());
    }
    if let Some(a) = &publication.artifacts {
        files.artifacts = Some(a.clone());
    }
    if let Some(s) = &publication.selection {
        files.selection = Some(s.clone());
    }
    shot.commit(publication);
}

fn set_direction(shot: &mut ShotWorkflow, files: &mut Files, direction: ShotDirection) {
    let p = shot.set_direction(true, direction).unwrap();
    publish(shot, files, p);
}

fn generate(shot: &mut ShotWorkflow, files: &mut Files) {
    let p = shot.generate(true).unwrap();
    publish(shot, files, p);
}

fn select(shot: &mut ShotWorkflow, files: &mut Files, index: usize) {
    let p = shot.select(true, index).unwrap();
    publish(shot, files, p);
}

fn lock(shot: &mut ShotWorkflow, files: &mut Files) {
    let p = shot.lock(true).unwrap();
    publish(shot, files, p);
}

fn reset(shot: &mut ShotWorkflow, files: &mut Files) {
    let p = shot.reset(true).unwrap();
    publish(shot, files, p);
}

fn selected_id(shot: &ShotWorkflow) -> Option<String> {
    shot.selection().selected_artifact_id.clone()
}

#[test]
fn snapshot_packing_includes_stale_lineage_and_migration_fields() {
    let bits = encode_shot_snapshot(ShotApprovalSnapshot {
        generated: true,
        stale: true,
        selected_index: Some(2),
        locked: false,
        candidate_count: 3,
        direction: ShotDirection::Tension,
        generation_revision: 7,
        superseded_count: 18,
        migration_pending: true,
        invalid_hash_count: 2,
    });
    assert_eq!(bits & 1, 1);
    assert_eq!((bits >> 1) & 1, 0);
    assert_eq!((bits >> 2) & 1, 1);
    assert_eq!((bits >> 3) & 1, 1);
    assert_eq!((bits >> 4) & 1, 1);
    assert_eq!((bits >> 8) & 0xff, 3);
    assert_eq!((bits >> 16) & 0xff, 3);
    assert_eq!((bits >> 24) & 0xff, 4);
    assert_eq!((bits >> 32) & 0xffff, 7);
    assert_eq!((bits >> 48) & 0xffff, 18);
}

#[test]
fn empty_snapshot_packs_only_the_direction() {
    let bits = encode_shot_snapshot(ShotApprovalSnapshot {
        generated: false,
        stale: false,
        selected_index: None,
        locked: false,
        candidate_count: 0,
        direction: ShotDirection::Reaction,
        generation_revision: 0,
        superseded_count: 0,
        migration_pending: false,
        invalid_hash_count: 0,
    });
    assert_eq!(bits, 1 << 24);
}

#[test]
fn direction_codes_round_trip() {
    for code in 1..=4u8 {
        assert_eq!(ShotDirection::from_code(code).unwrap().code(), code);
    }
    assert!(ShotDirection::from_code(0).is_none());
    assert!(ShotDirection::from_code(5).is_none());
    assert_eq!(ShotDirection::default(), ShotDirection::Reaction);
}

#[test]
fn new_shot_loads_with_defaults() {
    let shot = load(&Files::default());
    let snapshot = shot.snapshot().unwrap();
    assert!(!snapshot.generated);
    assert!(!snapshot.stale);
    assert_eq!(snapshot.selected_index, None);
    assert_eq!(snapshot.direction, ShotDirection::Reaction);
    assert_eq!(snapshot.generation_revision, 0);
    assert_eq!(shot.shot().shot_id, "shot_001");
    assert_eq!(shot_id_for(12), "shot_012");
    assert_eq!(shot_id_for(1234), "shot_1234");
}

#[test]
fn shot_number_zero_is_refused() {
    assert!(matches!(
        shot_files(0),
        Err(ShotWorkflowError::InvalidShotNumber)
    ));
    assert!(matches!(
        ShotWorkflow::load(0, None, None, None, None),
        Err(ShotWorkflowError::InvalidShotNumber)
    ));
    let files = shot_files(7).unwrap();
    assert_eq!(files.shot.as_str(), "scenes/scene_001/shots/shot_007/shot.json");
    assert_eq!(
        files.artifacts.as_str(),
        "scenes/scene_001/shots/shot_007/artifacts.json"
    );
    assert_eq!(
        files.selection.as_str(),
        "scenes/scene_001/shots/shot_007/selection.json"
    );
}

#[test]
fn a_manifest_of_another_shot_is_refused() {
    let other = ShotProductionManifest {
        shot_id: "shot_002".to_owned(),
        schema_version: 1,
        direction: ShotDirection::Reaction,
        generation_revision: 0,
        extra: Vec::new(),
    };
    assert!(matches!(
        accept_shot(1, Some(other)),
        Err(ShotWorkflowError::InvalidCanonicalState)
    ));
}

#[test]
fn approval_state_survives_reopen() {
    let mut files = Files::default();
    let mut shot = load(&files);
    set_direction(&mut shot, &mut files, ShotDirection::Tension);
    generate(&mut shot, &mut files);
    select(&mut shot, &mut files, 2);
    lock(&mut shot, &mut files);
    let before = shot.snapshot().unwrap();

    let reopened = load(&files);
    assert_eq!(reopened.snapshot().unwrap(), before);
    assert_eq!(before.direction, ShotDirection::Tension);
    assert_eq!(before.selected_index, Some(2));
    assert!(before.locked);
}

#[test]
fn direction_change_preserves_candidates_as_stale_until_regeneration() {
    let mut files = Files::default();
    let mut shot = load(&files);
    generate(&mut shot, &mut files);
    select(&mut shot, &mut files, 1);
    let selected_before = selected_id(&shot);

    set_direction(&mut shot, &mut files, ShotDirection::Intimacy);
    let stale = shot.snapshot().unwrap();
    assert!(stale.generated);
    assert!(stale.stale);
    assert_eq!(stale.selected_index, Some(1));
    assert_eq!(selected_id(&shot), selected_before);
    assert!(matches!(
        shot.lock(true),
        Err(ShotWorkflowError::StaleSelection)
    ));

    generate(&mut shot, &mut files);
    let regenerated = shot.snapshot().unwrap();
    assert!(!regenerated.stale);
    assert_eq!(regenerated.generation_revision, 2);
    assert_eq!(regenerated.superseded_count, 3);
    assert_eq!(regenerated.selected_index, None);
}

#[test]
fn generation_crash_points_are_forward_recoverable() {
    let mut source_files = Files::default();
    let mut source_shot = load(&source_files);
    generate(&mut source_shot, &mut source_files);
    let generation_one = source_files.clone();
    generate(&mut source_shot, &mut source_files);
    let generation_two = source_files.clone();

    let cases = [
        (
            "after-shot",
            Files {
                shot: generation_two.shot.clone(),
                artifacts: generation_one.artifacts.clone(),
                selection: generation_one.selection.clone(),
            },
        ),
        (
            "after-artifacts",
            Files {
                shot: generation_two.shot.clone(),
                artifacts: generation_two.artifacts.clone(),
                selection: generation_one.selection.clone(),
            },
        ),
        ("after-selection", generation_two.clone()),
    ];

    for (name, state) in cases {
        let mut files = state;
        let mut recovered = load(&files);
        generate(&mut recovered, &mut files);
        let snapshot = recovered.snapshot().unwrap();
        assert_eq!(snapshot.generation_revision, 3, "case {name}");
        assert_eq!(snapshot.candidate_count, 3, "case {name}");
        assert_eq!(snapshot.selected_index, None, "case {name}");
    }
}

#[test]
fn select_crash_reconciles_artifact_status_to_selection_pointer() {
    let mut files = Files::default();
    let mut shot = load(&files);
    generate(&mut shot, &mut files);
    select(&mut shot, &mut files, 0);
    let selection_before = files.selection.clone();
    select(&mut shot, &mut files, 1);
    let mut crashed = files.clone();
    crashed.selection = selection_before;

    let mut recovered = load(&crashed);
    assert_eq!(recovered.snapshot().unwrap().selected_index, Some(0));
    assert_eq!(
        recovered
            .artifacts()
            .iter()
            .filter(|artifact| artifact.status == ArtifactStatus::Selected)
            .count(),
        1
    );
    select(&mut recovered, &mut crashed, 1);
    assert_eq!(recovered.snapshot().unwrap().selected_index, Some(1));
}

#[test]
fn reset_crash_after_artifact_publish_recovers_cleared_selection() {
    let mut files = Files::default();
    let mut shot = load(&files);
    generate(&mut shot, &mut files);
    select(&mut shot, &mut files, 1);
    let selection_before = files.selection.clone();
    reset(&mut shot, &mut files);
    let mut crashed = files.clone();
    crashed.selection = selection_before;

    let mut recovered = load(&crashed);
    let snapshot = recovered.snapshot().unwrap();
    assert_eq!(snapshot.candidate_count, 0);
    assert_eq!(snapshot.selected_index, None);
    generate(&mut recovered, &mut crashed);
    assert_eq!(recovered.snapshot().unwrap().candidate_count, 3);
}

#[test]
fn validate_rejects_orphaned_selected_and_locked_artifacts() {
    let mut files = Files::default();
    let mut shot = load(&files);
    generate(&mut shot, &mut files);
    select(&mut shot, &mut files, 0);

    let mut orphaned_selected = shot.clone();
    let mut selection = orphaned_selected.selection().clone();
    selection.selected_artifact_id = None;
    orphaned_selected.commit(ShotPublication {
        shot: None,
        artifacts: None,
        selection: Some(selection),
    });
    assert!(matches!(
        orphaned_selected.validate(),
        Err(ShotWorkflowError::InvalidCanonicalState)
    ));

    lock(&mut shot, &mut files);
    let mut orphaned_locked = shot.clone();
    let mut selection = orphaned_locked.selection().clone();
    selection.selected_artifact_id = None;
    orphaned_locked.commit(ShotPublication {
        shot: None,
        artifacts: None,
        selection: Some(selection),
    });
    assert!(matches!(
        orphaned_locked.validate(),
        Err(ShotWorkflowError::InvalidCanonicalState)
    ));
}

#[test]
fn generated_hashes_are_sha256_digests() {
    let mut files = Files::default();
    let mut shot = load(&files);
    generate(&mut shot, &mut files);

    for artifact in shot.artifacts() {
        if artifact.status == ArtifactStatus::Candidate {
            assert!(artifact.content_hash.starts_with("sha256:"));
            assert_eq!(artifact.content_hash.len(), 71);
            let input_hash = artifact.input_hash.as_ref().unwrap();
            assert!(input_hash.starts_with("sha256:"));
            assert_eq!(input_hash.len(), 71);
        }
    }
}

#[test]
fn reset_is_an_explicit_destructive_action_that_supersedes_a_lock() {
    let mut files = Files::default();
    let mut shot = load(&files);

    set_direction(&mut shot, &mut files, ShotDirection::Tension);
    generate(&mut shot, &mut files);
    select(&mut shot, &mut files, 2);
    lock(&mut shot, &mut files);
    assert!(shot.snapshot().unwrap().locked);

    reset(&mut shot, &mut files);
    let discarded = shot.snapshot().unwrap();
    assert!(!discarded.generated);
    assert!(!discarded.locked);
    assert_eq!(discarded.selected_index, None);
    assert_eq!(discarded.direction, ShotDirection::Reaction);
    assert_eq!(discarded.generation_revision, 1);
    assert_eq!(discarded.superseded_count, 3);

    assert_eq!(load(&files).snapshot().unwrap(), discarded);
}

#[test]
fn locked_shot_refuses_changes_but_reset() {
    let mut files = Files::default();
    let mut shot = load(&files);
    generate(&mut shot, &mut files);
    select(&mut shot, &mut files, 0);
    lock(&mut shot, &mut files);
    assert!(matches!(
        shot.set_direction(true, ShotDirection::Intimacy),
        Err(ShotWorkflowError::Locked)
    ));
    assert!(matches!(shot.generate(true), Err(ShotWorkflowError::Locked)));
    assert!(matches!(shot.select(true, 1), Err(ShotWorkflowError::Locked)));
    assert!(matches!(shot.lock(true), Err(ShotWorkflowError::AlreadyLocked)));
    assert!(shot.reset(true).is_ok());
}

#[test]
fn selecting_requires_generated_candidates_and_a_valid_index() {
    let mut files = Files::default();
    let mut shot = load(&files);
    assert!(matches!(
        shot.select(true, 0),
        Err(ShotWorkflowError::NotGenerated)
    ));
    assert!(matches!(shot.lock(true), Err(ShotWorkflowError::NoSelection)));
    generate(&mut shot, &mut files);
    assert!(matches!(
        shot.select(true, 3),
        Err(ShotWorkflowError::InvalidCandidate)
    ));
}

#[test]
fn read_only_manifest_refuses_every_write() {
    let mut files = Files::default();
    let mut shot = load(&files);
    assert!(matches!(
        shot.generate(false),
        Err(ShotWorkflowError::ManifestNotWritable)
    ));
    assert!(matches!(
        shot.set_direction(false, ShotDirection::Tension),
        Err(ShotWorkflowError::ManifestNotWritable)
    ));
    assert!(matches!(
        shot.reset(false),
        Err(ShotWorkflowError::ManifestNotWritable)
    ));
    generate(&mut shot, &mut files);
    assert!(matches!(
        shot.select(false, 0),
        Err(ShotWorkflowError::ManifestNotWritable)
    ));
}

#[test]
fn same_direction_publishes_nothing() {
    let shot = load(&Files::default());
    let publication = shot.set_direction(true, ShotDirection::Reaction).unwrap();
    assert!(publication.shot.is_none());
    assert!(publication.artifacts.is_none());
    assert!(publication.selection.is_none());
}

#[test]
fn selection_moves_between_candidates_and_keeps_their_identity() {
    let mut files = Files::default();
    let mut shot = load(&files);
    generate(&mut shot, &mut files);
    let candidates = shot.selection().candidate_artifact_ids.clone();
    assert_eq!(
        candidates,
        vec![
            "shot_001_g0001_candidate_a".to_owned(),
            "shot_001_g0001_candidate_b".to_owned(),
            "shot_001_g0001_candidate_c".to_owned(),
        ]
    );
    select(&mut shot, &mut files, 0);
    select(&mut shot, &mut files, 2);
    assert_eq!(shot.selection().candidate_artifact_ids, candidates);
    let statuses: Vec<ArtifactStatus> = shot.artifacts().iter().map(|a| a.status).collect();
    assert_eq!(
        statuses,
        vec![
            ArtifactStatus::Candidate,
            ArtifactStatus::Candidate,
            ArtifactStatus::Selected,
        ]
    );
}

#[test]
fn generation_revision_overflow_is_refused() {
    let files = Files {
        shot: Some(ShotProductionManifest {
            shot_id: "shot_001".to_owned(),
            schema_version: 1,
            direction: ShotDirection::Reaction,
            generation_revision: u16::MAX,
            extra: Vec::new(),
        }),
        artifacts: None,
        selection: None,
    };
    let shot = load(&files);
    assert!(matches!(
        shot.generate(true),
        Err(ShotWorkflowError::GenerationOverflow)
    ));
}

#[test]
fn canonical_round_trip_keeps_future_fields() {
    let mut files = Files {
        shot: Some(ShotProductionManifest {
            shot_id: "shot_001".to_owned(),
            schema_version: 1,
            direction: ShotDirection::Reaction,
            generation_revision: 1,
            extra: vec![JsonField {
                key: "future_shot".to_owned(),
                json: "\"keep\"".to_owned(),
            }],
        }),
        artifacts: Some(vec![StoredArtifactRecord {
            artifact_id: "shot_001_g0001_candidate_a".to_owned(),
            schema_version: 1,
            artifact_type: "shot_candidate".to_owned(),
            status: ArtifactStatus::Candidate,
            content_hash: format!("sha256:{}", "a".repeat(64)),
            input_hash: Some(format!("sha256:{}", "b".repeat(64))),
            dependencies: Vec::new(),
            extra: vec![JsonField {
                key: "future_artifact".to_owned(),
                json: "7".to_owned(),
            }],
        }]),
        selection: Some(StoredSelectionManifest {
            selected_artifact_id: None,
            candidate_artifact_ids: vec!["shot_001_g0001_candidate_a".to_owned()],
            extra: vec![JsonField {
                key: "future_selection".to_owned(),
                json: "true".to_owned(),
            }],
        }),
    };
    let mut shot = load(&files);
    set_direction(&mut shot, &mut files, ShotDirection::SpatialClarity);
    generate(&mut shot, &mut files);

    assert_eq!(files.shot.as_ref().unwrap().extra[0].json, "\"keep\"");
    assert_eq!(files.artifacts.as_ref().unwrap()[0].extra[0].key, "future_artifact");
    assert_eq!(
        files.selection.as_ref().unwrap().extra[0].key,
        "future_selection"
    );
}

fn legacy_files() -> (Files, ShotApprovalSnapshot) {
    let mut files = Files::default();
    let mut shot = load(&files);
    set_direction(&mut shot, &mut files, ShotDirection::Tension);
    generate(&mut shot, &mut files);
    select(&mut shot, &mut files, 2);
    lock(&mut shot, &mut files);
    let before = shot.snapshot().unwrap();
    let artifacts = files.artifacts.as_mut().unwrap();
    for artifact in artifacts.iter_mut() {
        artifact.content_hash = format!("demo:{}", artifact.artifact_id);
        artifact.input_hash = Some("kineto:shot-intent:v1:shot_001:tension".to_owned());
    }
    (files, before)
}

#[test]
fn legacy_demo_hashes_load_without_rewrite_and_migrate_with_backup() {
    let (files, before) = legacy_files();
    let mut normalized = load(&files);
    let mut expected_pending = before;
    expected_pending.migration_pending = true;
    assert_eq!(normalized.snapshot().unwrap(), expected_pending);
    assert_eq!(normalized.hash_issues(), &[]);
    assert!(matches!(
        normalized.reset(true),
        Err(ShotWorkflowError::MigrationRequired)
    ));

    let plan = normalized.migrate_legacy_hashes(true).unwrap().unwrap();
    assert_eq!(plan.original, b"stored artifacts".to_vec());
    assert_eq!(
        plan.backup_path.as_str(),
        "scenes/scene_001/shots/shot_001/artifacts.pre-sha256-migration.json"
    );
    assert_eq!(
        plan.artifacts_path.as_str(),
        "scenes/scene_001/shots/shot_001/artifacts.json"
    );
    for artifact in &plan.artifacts {
        assert!(ContentHash::new(&artifact.content_hash).is_ok());
        assert!(InputHash::new(artifact.input_hash.as_ref().unwrap()).is_ok());
    }
    assert_eq!(
        backup_write_needed(&None, &plan.original, &plan.backup_path).unwrap(),
        true
    );
    let report = normalized.complete_migration().unwrap();
    assert_eq!(report.rewritten.len(), 6);
    assert_eq!(
        report.backup_path.as_deref(),
        Some("scenes/scene_001/shots/shot_001/artifacts.pre-sha256-migration.json")
    );
    assert_eq!(normalized.snapshot().unwrap(), before);
    assert!(normalized.migrate_legacy_hashes(true).unwrap().is_none());
}

#[test]
fn migrated_hashes_equal_freshly_generated_ones() {
    let mut files = Files::default();
    let mut shot = load(&files);
    set_direction(&mut shot, &mut files, ShotDirection::Tension);
    generate(&mut shot, &mut files);
    let generated = files.artifacts.clone().unwrap();
    let mut legacy = files.clone();
    for artifact in legacy.artifacts.as_mut().unwrap().iter_mut() {
        artifact.content_hash = format!("demo:{}", artifact.artifact_id);
        artifact.input_hash = Some("kineto:shot-intent:v1:shot_001:tension".to_owned());
    }
    let migrated = load(&legacy);
    for (fresh, normalized) in generated.iter().zip(migrated.artifacts()) {
        assert_eq!(fresh.content_hash, normalized.content_hash);
        assert_eq!(fresh.input_hash, normalized.input_hash);
    }
}

#[test]
fn backup_conflict_is_refused() {
    let (files, _) = legacy_files();
    let normalized = load(&files);
    let plan = normalized.migrate_legacy_hashes(true).unwrap().unwrap();
    assert_eq!(
        backup_write_needed(&Some(plan.original.clone()), &plan.original, &plan.backup_path)
            .unwrap(),
        false
    );
    match backup_write_needed(&Some(b"other".to_vec()), &plan.original, &plan.backup_path) {
        Err(ShotWorkflowError::MigrationBackupConflict(path)) => {
            assert_eq!(path, plan.backup_path.as_str());
        }
        other => panic!("unexpected backup decision: {other:?}"),
    }
}

#[test]
fn unknown_noncanonical_hash_opens_degraded_and_reports_record() {
    let mut files = Files::default();
    let mut shot = load(&files);
    generate(&mut shot, &mut files);
    let artifacts = files.artifacts.as_mut().unwrap();
    let artifact_id = artifacts[0].artifact_id.clone();
    artifacts[0].content_hash = "banana".to_owned();

    let degraded = load(&files);
    let snapshot = degraded.snapshot().unwrap();
    assert_eq!(snapshot.invalid_hash_count, 1);
    assert!(!snapshot.migration_pending);
    assert_eq!(
        degraded.hash_issues(),
        &[ShotHashIssue {
            artifact_id: artifact_id.clone(),
            field: HashField::ContentHash,
            value: "banana".to_owned(),
        }]
    );
    assert_eq!(degraded.hash_issues()[0].field.name(), "content_hash");
    assert!(matches!(
        degraded.reset(true),
        Err(ShotWorkflowError::InvalidStoredHash {
            artifact_id: actual_id,
            field: HashField::ContentHash,
            value,
        }) if actual_id == artifact_id && value == "banana"
    ));
    assert!(matches!(
        degraded.migrate_legacy_hashes(true),
        Err(ShotWorkflowError::InvalidStoredHash {
            artifact_id: actual_id,
            field: HashField::ContentHash,
            value,
        }) if actual_id == artifact_id && value == "banana"
    ));
}

#[test]
fn duplicate_record_identifiers_are_refused_at_load() {
    let mut files = Files::default();
    let mut shot = load(&files);
    generate(&mut shot, &mut files);
    let artifacts = files.artifacts.as_mut().unwrap();
    let copy = artifacts[0].clone();
    artifacts.push(copy);
    assert!(matches!(
        try_load(&files),
        Err(ShotWorkflowError::InvalidCanonicalState)
    ));
}

#[test]
fn shot_error_codes_match_the_status_table() {
    assert_eq!(shot_result_code(Ok(())), PROJECT_OK);
    assert_eq!(shot_error_code(&ShotWorkflowError::Locked), PROJECT_ERR_LOCKED);
    assert_eq!(
        shot_error_code(&ShotWorkflowError::StaleSelection),
        PROJECT_ERR_STALE_SELECTION
    );
    assert_eq!(
        shot_error_code(&ShotWorkflowError::InvalidCandidate),
        PROJECT_ERR_INVALID_CANDIDATE
    );
    assert_eq!(
        shot_result_code(Err(ShotWorkflowError::MigrationRequired)),
        PROJECT_ERR_INVALID_SHOT_STATE
    );
}

type Summary = (Vec<(String, ArtifactStatus)>, Option<String>, Vec<String>, u16, ShotDirection);

fn summary(shot: &ShotWorkflow) -> Summary {
    (
        shot.artifacts()
            .iter()
            .map(|a| (a.artifact_id.clone(), a.status))
            .collect(),
        shot.selection().selected_artifact_id.clone(),
        shot.selection().candidate_artifact_ids.clone(),
        shot.shot().generation_revision,
        shot.shot().direction,
    )
}

#[test]
fn generation_interrupted_after_records_loads_as_finished() {
    let mut files = Files::default();
    let mut shot = load(&files);
    generate(&mut shot, &mut files);
    select(&mut shot, &mut files, 2);
    let before = files.clone();
    generate(&mut shot, &mut files);
    let crashed = Files {
        shot: files.shot.clone(),
        artifacts: files.artifacts.clone(),
        selection: before.selection.clone(),
    };
    let recovered = load(&crashed);
    assert_eq!(summary(&recovered), summary(&load(&files)));
    assert_eq!(recovered.selection().candidate_artifact_ids.len(), 3);
    assert_eq!(
        recovered.selection().candidate_artifact_ids[0],
        "shot_001_g0002_candidate_a"
    );
}

#[test]
fn generation_interrupted_after_shot_keeps_previous_records() {
    let mut files = Files::default();
    let mut shot = load(&files);
    generate(&mut shot, &mut files);
    select(&mut shot, &mut files, 0);
    let before = files.clone();
    generate(&mut shot, &mut files);
    let crashed = Files {
        shot: files.shot.clone(),
        artifacts: before.artifacts.clone(),
        selection: before.selection.clone(),
    };
    let recovered = load(&crashed);
    let mut expected = summary(&load(&before));
    expected.3 = 2;
    assert_eq!(summary(&recovered), expected);
    assert_eq!(recovered.snapshot().unwrap().selected_index, Some(0));
}

#[test]
fn selection_interrupted_after_records_loads_as_before() {
    let mut files = Files::default();
    let mut shot = load(&files);
    generate(&mut shot, &mut files);
    select(&mut shot, &mut files, 0);
    let before = files.clone();
    select(&mut shot, &mut files, 2);
    let crashed = Files {
        shot: files.shot.clone(),
        artifacts: files.artifacts.clone(),
        selection: before.selection.clone(),
    };
    assert_eq!(summary(&load(&crashed)), summary(&load(&before)));
}

#[test]
fn reset_interrupted_after_records_loads_as_finished_reset() {
    let mut files = Files::default();
    let mut shot = load(&files);
    generate(&mut shot, &mut files);
    select(&mut shot, &mut files, 1);
    let before = files.clone();
    reset(&mut shot, &mut files);
    let crashed = Files {
        shot: files.shot.clone(),
        artifacts: files.artifacts.clone(),
        selection: before.selection.clone(),
    };
    assert_eq!(summary(&load(&crashed)), summary(&load(&files)));
}

#[test]
fn reset_interrupted_after_shot_keeps_records_and_selection() {
    let mut files = Files::default();
    let mut shot = load(&files);
    set_direction(&mut shot, &mut files, ShotDirection::Tension);
    generate(&mut shot, &mut files);
    select(&mut shot, &mut files, 1);
    let before = files.clone();
    reset(&mut shot, &mut files);
    let crashed = Files {
        shot: files.shot.clone(),
        artifacts: before.artifacts.clone(),
        selection: before.selection.clone(),
    };
    let mut expected = summary(&load(&before));
    expected.4 = ShotDirection::Reaction;
    assert_eq!(summary(&load(&crashed)), expected);
}

#[test]
fn hash_field_names_match_the_stored_json() {
    assert_eq!(HashField::ContentHash.name(), "content_hash");
    assert_eq!(HashField::InputHash.name(), "input_hash");
    assert_eq!(
        HashField::DependencyContentHash.name(),
        "dependencies[].content_hash"
    );
}
