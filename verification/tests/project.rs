use kineto::artifact::{ArtifactId, ArtifactIdError, ContentHash, InputHash};
use kineto::currentness::{ArtifactIndex, Currentness, DependencyChange};
use kineto::lifecycle::{
    ArtifactDependency, ArtifactRecord, ArtifactStatus, DependencyImpact, LifecycleError,
    SelectionError, SelectionManifest,
};
use kineto::project_files::{is_skipped_by_snapshot, staging_file_name};
use kineto::project_path::{ProjectPathError, ProjectRelativePath};

fn id(value: &str) -> ArtifactId {
    ArtifactId::new(value).unwrap()
}

fn hash(value: &str) -> ContentHash {
    ContentHash::new(value).unwrap()
}

fn record(id_value: &str, content_hash: &str) -> ArtifactRecord {
    ArtifactRecord {
        artifact_id: id(id_value),
        status: ArtifactStatus::Candidate,
        content_hash: hash(content_hash),
        input_hash: None,
        dependencies: Vec::new(),
    }
}

#[test]
fn selection_is_metadata_and_keeps_candidate_identity_stable() {
    let first = id("cand_01J7X");
    let second = id("cand_01J7Y");
    let mut selection = SelectionManifest {
        selected_artifact_id: None,
        candidate_artifact_ids: vec![first.clone(), second.clone()],
    };

    selection.select(&second).unwrap();

    assert_eq!(selection.selected_artifact_id, Some(second));
    assert_eq!(
        selection.candidate_artifact_ids,
        vec![first, id("cand_01J7Y")]
    );
}

#[test]
fn selected_candidate_can_return_to_candidate_before_lock() {
    let mut artifact = record("cand_a", "sha256:a");
    artifact.transition(ArtifactStatus::Selected).unwrap();
    artifact.transition(ArtifactStatus::Candidate).unwrap();
    assert_eq!(artifact.status, ArtifactStatus::Candidate);
}

#[test]
fn unlocked_generated_artifacts_can_be_superseded() {
    let mut candidate = record("cand_a", "sha256:a");
    candidate.transition(ArtifactStatus::Superseded).unwrap();
    assert_eq!(candidate.status, ArtifactStatus::Superseded);

    let mut selected = record("cand_b", "sha256:b");
    selected.transition(ArtifactStatus::Selected).unwrap();
    selected.transition(ArtifactStatus::Superseded).unwrap();
    assert_eq!(selected.status, ArtifactStatus::Superseded);
}

#[test]
fn changing_one_scene_only_stales_artifacts_with_that_semantic_edge() {
    let scene_one_old = record("scene_001", "sha256:scene-1-old");
    let scene_one_new = record("scene_001", "sha256:scene-1-new");
    let scene_two = record("scene_002", "sha256:scene-2");
    let shot_one = ArtifactRecord {
        artifact_id: id("shot_001"),
        status: ArtifactStatus::Candidate,
        content_hash: hash("sha256:shot-1"),
        input_hash: InputHash::new("sha256:input-1").ok(),
        dependencies: vec![ArtifactDependency {
            artifact_id: scene_one_old.artifact_id.clone(),
            content_hash: scene_one_old.content_hash.clone(),
            impact: DependencyImpact::Semantic,
            field: Some("action".to_owned()),
        }],
    };
    let shot_two = ArtifactRecord {
        artifact_id: id("shot_002"),
        status: ArtifactStatus::Candidate,
        content_hash: hash("sha256:shot-2"),
        input_hash: InputHash::new("sha256:input-2").ok(),
        dependencies: vec![ArtifactDependency {
            artifact_id: scene_two.artifact_id.clone(),
            content_hash: scene_two.content_hash.clone(),
            impact: DependencyImpact::Semantic,
            field: Some("dialogue".to_owned()),
        }],
    };
    let index = ArtifactIndex::from_records(&[&scene_one_new, &scene_two]);
    assert!(matches!(
        index.currentness(&shot_one),
        Currentness::Stale(_)
    ));
    assert_eq!(index.currentness(&shot_two), Currentness::Current);
}

#[test]
fn cosmetic_dependency_changes_do_not_propagate_staleness() {
    let title_new = record("screenplay_title", "sha256:new-title");
    let shot = ArtifactRecord {
        artifact_id: id("shot_003"),
        status: ArtifactStatus::Candidate,
        content_hash: hash("sha256:shot-3"),
        input_hash: None,
        dependencies: vec![ArtifactDependency {
            artifact_id: title_new.artifact_id.clone(),
            content_hash: hash("sha256:old-title"),
            impact: DependencyImpact::Cosmetic,
            field: Some("display_title".to_owned()),
        }],
    };
    let index = ArtifactIndex::from_records(&[&title_new]);
    assert_eq!(index.currentness(&shot), Currentness::Current);
}

#[test]
fn locked_artifact_cannot_be_mutated_backwards() {
    let mut artifact = record("character_alice_v2", "sha256:alice");
    artifact.status = ArtifactStatus::Locked;
    assert!(artifact.transition(ArtifactStatus::Selected).is_err());
    artifact.transition(ArtifactStatus::Superseded).unwrap();
    assert_eq!(artifact.status, ArtifactStatus::Superseded);
}

#[test]
fn project_relative_path_is_cross_platform_and_traversal_free() {
    assert!(ProjectRelativePath::new("source/story.txt").is_ok());
    assert!(ProjectRelativePath::new("characters/爱丽丝/selection.json").is_ok());
    assert!(ProjectRelativePath::new("../secret").is_err());
    assert!(ProjectRelativePath::new("scene/../../secret").is_err());
    assert!(ProjectRelativePath::new("./source").is_err());
    assert!(ProjectRelativePath::new("source//story.txt").is_err());
    assert!(ProjectRelativePath::new("C:/secret.txt").is_err());
    assert!(ProjectRelativePath::new(r"..\secret").is_err());
    assert!(ProjectRelativePath::new("").is_err());
    assert!(ProjectRelativePath::new("/tmp").is_err());
}

#[test]
fn project_path_refusals_are_invalid_and_keep_the_text() {
    assert_eq!(
        ProjectRelativePath::new("a\u{7}b").unwrap_err(),
        ProjectPathError::Invalid
    );
    assert_eq!(
        ProjectRelativePath::new("source/").unwrap_err(),
        ProjectPathError::Invalid
    );
    let path = ProjectRelativePath::new("scenes/scene_001/shot.json").unwrap();
    assert_eq!(path.as_str(), "scenes/scene_001/shot.json");
}

#[test]
fn artifact_ids_report_the_rule_they_break() {
    assert_eq!(ArtifactId::new("").unwrap_err(), ArtifactIdError::Empty);
    assert_eq!(
        ArtifactId::new(&"a".repeat(129)).unwrap_err(),
        ArtifactIdError::TooLong
    );
    assert!(ArtifactId::new(&"a".repeat(128)).is_ok());
    assert_eq!(
        ArtifactId::new("has space").unwrap_err(),
        ArtifactIdError::InvalidCharacter
    );
    assert_eq!(id("cand.a-1_b").as_str(), "cand.a-1_b");
}

#[test]
fn hash_values_name_their_algorithm() {
    assert!(ContentHash::new("sha256:").is_err());
    assert!(ContentHash::new("md5:abc").is_err());
    assert!(InputHash::new("banana").is_err());
    assert_eq!(hash("sha256:abc").as_str(), "sha256:abc");
}

#[test]
fn draft_cannot_skip_to_selected_and_reports_the_refused_edge() {
    let mut artifact = record("draft_a", "sha256:d");
    artifact.status = ArtifactStatus::Draft;
    assert_eq!(
        artifact.transition(ArtifactStatus::Selected).unwrap_err(),
        LifecycleError {
            current: ArtifactStatus::Draft,
            requested: ArtifactStatus::Selected,
        }
    );
    assert_eq!(artifact.status, ArtifactStatus::Draft);
    artifact.transition(ArtifactStatus::Candidate).unwrap();
    assert!(artifact.status.can_transition_to(ArtifactStatus::Selected));
    assert!(!ArtifactStatus::Superseded.can_transition_to(ArtifactStatus::Candidate));
}

#[test]
fn selecting_an_unknown_candidate_is_refused_and_changes_nothing() {
    let first = id("cand_a");
    let stranger = id("cand_z");
    let mut selection = SelectionManifest {
        selected_artifact_id: Some(first.clone()),
        candidate_artifact_ids: vec![first.clone()],
    };
    assert_eq!(
        selection.select(&stranger).unwrap_err(),
        SelectionError::UnknownCandidate(stranger.clone())
    );
    assert_eq!(selection.selected_artifact_id, Some(first));
}

#[test]
fn missing_semantic_parent_makes_an_artifact_incompatible() {
    let shot = ArtifactRecord {
        artifact_id: id("shot_004"),
        status: ArtifactStatus::Candidate,
        content_hash: hash("sha256:shot-4"),
        input_hash: None,
        dependencies: vec![ArtifactDependency {
            artifact_id: id("scene_404"),
            content_hash: hash("sha256:gone"),
            impact: DependencyImpact::Semantic,
            field: None,
        }],
    };
    let index = ArtifactIndex::from_records(&[]);
    assert_eq!(
        index.currentness(&shot),
        Currentness::Incompatible(vec![DependencyChange::Missing {
            artifact_id: id("scene_404"),
            field: None,
        }])
    );
}

#[test]
fn later_record_of_the_same_artifact_wins_in_the_index() {
    let old = record("scene_001", "sha256:old");
    let new = record("scene_001", "sha256:new");
    let shot = ArtifactRecord {
        artifact_id: id("shot_005"),
        status: ArtifactStatus::Candidate,
        content_hash: hash("sha256:shot-5"),
        input_hash: None,
        dependencies: vec![ArtifactDependency {
            artifact_id: id("scene_001"),
            content_hash: hash("sha256:new"),
            impact: DependencyImpact::Semantic,
            field: None,
        }],
    };
    let index = ArtifactIndex::from_records(&[&old, &new]);
    assert_eq!(index.currentness(&shot), Currentness::Current);
}

#[test]
fn staged_write_files_are_named_by_process_and_nonce() {
    assert_eq!(staging_file_name(999, 1), ".kineto-write-999-1.tmp");
    assert_eq!(
        staging_file_name(0, u64::MAX),
        ".kineto-write-0-18446744073709551615.tmp"
    );
}

#[test]
fn snapshots_skip_runtime_state_and_staged_writes() {
    assert!(is_skipped_by_snapshot(".kineto"));
    assert!(is_skipped_by_snapshot(".kineto-write-999-1.tmp"));
    assert!(is_skipped_by_snapshot(&staging_file_name(42, 7)));
    assert!(!is_skipped_by_snapshot(".kineto-cache"));
    assert!(!is_skipped_by_snapshot("kineto.toml"));
    assert!(!is_skipped_by_snapshot("shots"));
    assert!(!is_skipped_by_snapshot(".kineto-write"));
}
