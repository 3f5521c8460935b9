use vstd::prelude::*;

use crate::artifact::{artifact_id_verdict, is_hash_text};
use crate::lifecycle::ArtifactStatus;
use crate::shot::{ShotApprovalSnapshot, ShotDirection};
use crate::shot_error::{HashField, ShotWorkflowError};
use crate::project_path::{is_project_relative_path, ProjectPathError};
use crate::shot_hash::{
    candidate_ids_error, candidate_texts, demo_hash_text, intent_hash_text, legacy_intent_text,
    shot_id_text, shot_path_text,
};
use crate::shot_records::{
    record_domain_verdict, record_structure_verdict, selection_verdict, DependencyView,
    RecordView, SelectionView, ShotView,
};

verus! {

/// A stored hash that is neither canonical nor a known legacy form.
pub struct IssueView {
    pub artifact_id: Seq<char>,
    pub field: HashField,
    pub value: Seq<char>,
}

/// A legacy hash and the canonical hash that replaces it.
pub struct MigrationView {
    pub artifact_id: Seq<char>,
    pub field: HashField,
    pub from: Seq<char>,
    pub to: Seq<char>,
}

/// The whole state of one shot's approval workflow.
pub struct WorkflowView {
    pub shot_number: u32,
    pub shot: ShotView,
    pub artifacts: Seq<RecordView>,
    pub selection: SelectionView,
    pub issues: Seq<IssueView>,
    pub migrations: Seq<MigrationView>,
    pub legacy_bytes: Option<Seq<u8>>,
}

/// What one operation publishes, in order: the shot manifest, the artifact
/// records, the selection pointer.
pub struct PublicationView {
    pub shot: Option<ShotView>,
    pub artifacts: Option<Seq<RecordView>>,
    pub selection: Option<SelectionView>,
}

/// The state once a publication has been written.
pub open spec fn apply_publication(w: WorkflowView, p: PublicationView) -> WorkflowView {
    WorkflowView {
        shot: match p.shot {
            Some(s) => s,
            None => w.shot,
        },
        artifacts: match p.artifacts {
            Some(a) => a,
            None => w.artifacts,
        },
        selection: match p.selection {
            Some(s) => s,
            None => w.selection,
        },
        ..w
    }
}

/// `shot_candidate`, the type of generated candidates.
pub open spec fn shot_candidate_type() -> Seq<char> {
    seq!['s', 'h', 'o', 't', '_', 'c', 'a', 'n', 'd', 'i', 'd', 'a', 't', 'e']
}

/// `demo:<artifact id>`, the legacy content hash of a demo candidate.
pub open spec fn legacy_demo_text(artifact_id: Seq<char>) -> Seq<char> {
    seq!['d', 'e', 'm', 'o', ':'] + artifact_id
}

/// A status that keeps a candidate in play.
pub open spec fn is_live(s: ArtifactStatus) -> bool {
    s == ArtifactStatus::Candidate || s == ArtifactStatus::Selected || s == ArtifactStatus::Locked
}

/// A status that a selection pointer must account for.
pub open spec fn is_chosen(s: ArtifactStatus) -> bool {
    s == ArtifactStatus::Selected || s == ArtifactStatus::Locked
}

/// Index of the first record with this identifier at or after `start`.
pub open spec fn first_index_from(arts: Seq<RecordView>, id: Seq<char>, start: int) -> Option<int>
    decreases arts.len() - start,
{
    if start < 0 || start >= arts.len() {
        None
    } else if arts[start].artifact_id == id {
        Some(start)
    } else {
        first_index_from(arts, id, start + 1)
    }
}

/// Index of the first record with this identifier.
pub open spec fn first_index(arts: Seq<RecordView>, id: Seq<char>) -> Option<int> {
    first_index_from(arts, id, 0)
}

/// The first record with this identifier.
pub open spec fn lookup(arts: Seq<RecordView>, id: Seq<char>) -> Option<RecordView> {
    match first_index(arts, id) {
        Some(i) => Some(arts[i]),
        None => None,
    }
}

pub proof fn lemma_first_index_from(arts: Seq<RecordView>, id: Seq<char>, start: int)
    requires
        0 <= start,
    ensures
        match first_index_from(arts, id, start) {
            Some(i) => start <= i < arts.len() && arts[i].artifact_id == id && forall|j: int|
                start <= j < i ==> arts[j].artifact_id != id,
            None => forall|j: int| start <= j < arts.len() ==> arts[j].artifact_id != id,
        },
    decreases arts.len() - start,
{
    if start < arts.len() && arts[start].artifact_id != id {
        lemma_first_index_from(arts, id, start + 1);
    }
}

/// What a lookup finds: the first record with the identifier, or none.
pub proof fn lemma_first_index(arts: Seq<RecordView>, id: Seq<char>)
    ensures
        match first_index(arts, id) {
            Some(i) => 0 <= i < arts.len() && arts[i].artifact_id == id && forall|j: int|
                0 <= j < i ==> arts[j].artifact_id != id,
            None => forall|j: int| 0 <= j < arts.len() ==> arts[j].artifact_id != id,
        },
{
    lemma_first_index_from(arts, id, 0);
}

/// The check of the `i`-th record: structure, a fresh identifier, and, when
/// no stored hash was diagnosed, its domain form.
pub open spec fn artifact_check_step(arts: Seq<RecordView>, i: int, check_domain: bool) -> Result<
    (),
    ShotWorkflowError,
> {
    match record_structure_verdict(arts[i]) {
        Err(e) => Err(e),
        Ok(_) => if exists|j: int| 0 <= j < i && arts[j].artifact_id == arts[i].artifact_id {
            Err(ShotWorkflowError::InvalidCanonicalState)
        } else if check_domain {
            record_domain_verdict(arts[i])
        } else {
            Ok(())
        },
    }
}

/// The checks of the first `n` records, the first failure deciding.
pub open spec fn artifacts_verdict(arts: Seq<RecordView>, n: int, check_domain: bool) -> Result<
    (),
    ShotWorkflowError,
>
    decreases n,
{
    if n <= 0 {
        Ok(())
    } else {
        match artifacts_verdict(arts, n - 1, check_domain) {
            Err(e) => Err(e),
            Ok(_) => artifact_check_step(arts, n - 1, check_domain),
        }
    }
}

/// Candidates, selection and record statuses agree: every candidate is a
/// record in play, the selection is a selected or locked record, and every
/// selected or locked record is the selection.
pub open spec fn selection_consistent(arts: Seq<RecordView>, sel: SelectionView) -> bool {
    &&& forall|k: int|
        0 <= k < sel.candidates.len() ==> match lookup(arts, #[trigger] sel.candidates[k]) {
            Some(a) => is_live(a.status),
            None => false,
        }
    &&& match sel.selected {
        Some(s) => match lookup(arts, s) {
            Some(a) => is_chosen(a.status),
            None => false,
        },
        None => true,
    }
    &&& forall|k: int|
        0 <= k < arts.len() && is_chosen(#[trigger] arts[k].status) ==> sel.selected == Some(
            arts[k].artifact_id,
        )
}

/// What validating a workflow state decides.
pub open spec fn validate_verdict(w: WorkflowView) -> Result<(), ShotWorkflowError> {
    match selection_verdict(w.selection) {
        Err(e) => Err(e),
        Ok(_) => match artifacts_verdict(w.artifacts, w.artifacts.len() as int, w.issues.len() == 0) {
            Err(e) => Err(e),
            Ok(_) => if selection_consistent(w.artifacts, w.selection) {
                Ok(())
            } else {
                Err(ShotWorkflowError::InvalidCanonicalState)
            },
        },
    }
}

/// Number of superseded records among the first `n`.
pub open spec fn count_superseded(arts: Seq<RecordView>, n: int) -> nat
    decreases n,
{
    if n <= 0 {
        0
    } else {
        count_superseded(arts, n - 1) + if arts[n - 1].status == ArtifactStatus::Superseded {
            1nat
        } else {
            0nat
        }
    }
}

/// Index of the first occurrence of a text at or after `start`.
pub open spec fn position_from(ids: Seq<Seq<char>>, id: Seq<char>, start: int) -> Option<int>
    decreases ids.len() - start,
{
    if start < 0 || start >= ids.len() {
        None
    } else if ids[start] == id {
        Some(start)
    } else {
        position_from(ids, id, start + 1)
    }
}

/// Index of the first occurrence of a text.
pub open spec fn position_of(ids: Seq<Seq<char>>, id: Seq<char>) -> Option<int> {
    position_from(ids, id, 0)
}

pub proof fn lemma_position_from(ids: Seq<Seq<char>>, id: Seq<char>, start: int)
    requires
        0 <= start,
    ensures
        match position_from(ids, id, start) {
            Some(i) => start <= i < ids.len() && ids[i] == id && forall|j: int|
                start <= j < i ==> ids[j] != id,
            None => forall|j: int| start <= j < ids.len() ==> ids[j] != id,
        },
    decreases ids.len() - start,
{
    if start < ids.len() && ids[start] != id {
        lemma_position_from(ids, id, start + 1);
    }
}

/// The input hash the shot's current intent gives its candidates.
pub open spec fn current_input_hash(w: WorkflowView) -> Seq<char> {
    intent_hash_text(w.shot.shot_id, w.shot.direction)
}

/// A candidate is stale when its record is missing or was generated from
/// another intent.
pub open spec fn candidate_is_stale(arts: Seq<RecordView>, id: Seq<char>, input: Seq<char>) -> bool {
    match lookup(arts, id) {
        None => true,
        Some(a) => a.input_hash != Some(input),
    }
}

/// Some current candidate is stale.
pub open spec fn is_stale(w: WorkflowView) -> bool {
    exists|k: int|
        0 <= k < w.selection.candidates.len() && candidate_is_stale(
            w.artifacts,
            #[trigger] w.selection.candidates[k],
            current_input_hash(w),
        )
}

/// The selection is locked: the selected record is locked.
pub open spec fn is_locked(w: WorkflowView) -> bool {
    match w.selection.selected {
        Some(s) => match lookup(w.artifacts, s) {
            Some(a) => a.status == ArtifactStatus::Locked,
            None => false,
        },
        None => false,
    }
}

/// The approval snapshot of a valid state.
#[verifier::opaque]
pub open spec fn snapshot_of(w: WorkflowView) -> ShotApprovalSnapshot {
    let cands = w.selection.candidates;
    ShotApprovalSnapshot {
        generated: cands.len() != 0,
        stale: is_stale(w),
        selected_index: match w.selection.selected {
            Some(s) => match position_of(cands, s) {
                Some(i) => Some(i as u8),
                None => None,
            },
            None => None,
        },
        locked: is_locked(w),
        candidate_count: cands.len() as u8,
        direction: w.shot.direction,
        generation_revision: w.shot.generation_revision,
        superseded_count: count_superseded(w.artifacts, w.artifacts.len() as int) as u16,
        migration_pending: w.migrations.len() != 0,
        invalid_hash_count: w.issues.len() as u16,
    }
}

/// What taking a snapshot decides: validation, then counts that must fit
/// the snapshot's fields.
pub open spec fn snapshot_verdict(w: WorkflowView) -> Result<ShotApprovalSnapshot, ShotWorkflowError> {
    match validate_verdict(w) {
        Err(e) => Err(e),
        Ok(_) => if w.selection.candidates.len() > 0xff || count_superseded(
            w.artifacts,
            w.artifacts.len() as int,
        ) > 0xffff || w.issues.len() > 0xffff {
            Err(ShotWorkflowError::InvalidCanonicalState)
        } else {
            Ok(snapshot_of(w))
        },
    }
}

/// A shot candidate in play becomes superseded; every other record stays.
pub open spec fn superseded_record(a: RecordView) -> RecordView {
    if a.artifact_type == shot_candidate_type() && is_live(a.status) {
        RecordView { status: ArtifactStatus::Superseded, ..a }
    } else {
        a
    }
}

/// A record that superseding touches.
pub open spec fn supersedes(a: RecordView) -> bool {
    a.artifact_type == shot_candidate_type() && is_live(a.status)
}

/// What superseding the first `n` records decides: the first touched record
/// that does not convert to its domain form fails.
pub open spec fn supersede_verdict(arts: Seq<RecordView>, n: int) -> Result<(), ShotWorkflowError>
    decreases n,
{
    if n <= 0 {
        Ok(())
    } else {
        match supersede_verdict(arts, n - 1) {
            Err(e) => Err(e),
            Ok(_) => if supersedes(arts[n - 1]) {
                record_domain_verdict(arts[n - 1])
            } else {
                Ok(())
            },
        }
    }
}

/// All records with the shot's candidates in play superseded.
pub open spec fn supersede_all(arts: Seq<RecordView>) -> Seq<RecordView> {
    arts.map_values(|a: RecordView| superseded_record(a))
}

/// The record of a freshly generated candidate.
pub open spec fn new_candidate(id: Seq<char>, input: Seq<char>) -> RecordView {
    RecordView {
        artifact_id: id,
        schema_version: 1,
        artifact_type: shot_candidate_type(),
        status: ArtifactStatus::Candidate,
        content_hash: demo_hash_text(id),
        input_hash: Some(input),
        dependencies: Seq::empty(),
        extra: Seq::empty(),
    }
}

/// Some record already has one of the generation's identifiers.
pub open spec fn collides(arts: Seq<RecordView>, ids: Seq<Seq<char>>) -> bool {
    exists|k: int, i: int|
        0 <= k < arts.len() && 0 <= i < ids.len() && #[trigger] arts[k].artifact_id
            == #[trigger] ids[i]
}

/// The refusal every write begins with: a diagnosed hash, or a pending
/// migration. (The diagnosed hash itself is reported by the caller.)
pub open spec fn pending_migration_error(w: WorkflowView) -> Option<ShotWorkflowError> {
    if w.migrations.len() != 0 {
        Some(ShotWorkflowError::MigrationRequired)
    } else {
        None
    }
}

/// What generating a new set of candidates decides, when no stored hash was
/// diagnosed.
pub open spec fn generate_verdict(w: WorkflowView, writable: bool) -> Result<
    PublicationView,
    ShotWorkflowError,
> {
    let next_revision = (w.shot.generation_revision + 1) as u16;
    let ids = candidate_texts(w.shot.shot_id, next_revision);
    if w.migrations.len() != 0 {
        Err(ShotWorkflowError::MigrationRequired)
    } else if snapshot_verdict(w) is Err {
        Err(snapshot_verdict(w)->Err_0)
    } else if is_locked(w) {
        Err(ShotWorkflowError::Locked)
    } else if !writable {
        Err(ShotWorkflowError::ManifestNotWritable)
    } else if w.shot.generation_revision == 0xffff {
        Err(ShotWorkflowError::GenerationOverflow)
    } else if supersede_verdict(w.artifacts, w.artifacts.len() as int) is Err {
        Err(supersede_verdict(w.artifacts, w.artifacts.len() as int)->Err_0)
    } else if candidate_ids_error(w.shot.shot_id, next_revision) is Some {
        Err(
            ShotWorkflowError::ArtifactId(
                candidate_ids_error(w.shot.shot_id, next_revision)->Some_0,
            ),
        )
    } else if collides(w.artifacts, ids) {
        Err(ShotWorkflowError::InvalidCanonicalState)
    } else {
        let input = intent_hash_text(w.shot.shot_id, w.shot.direction);
        Ok(
            PublicationView {
                shot: Some(ShotView { generation_revision: next_revision, ..w.shot }),
                artifacts: Some(
                    supersede_all(w.artifacts) + ids.map_values(|id: Seq<char>| new_candidate(id, input)),
                ),
                selection: Some(
                    SelectionView { selected: None, candidates: ids, extra: w.selection.extra },
                ),
            },
        )
    }
}

/// What resetting the shot decides, when no stored hash was diagnosed.
pub open spec fn reset_verdict(w: WorkflowView, writable: bool) -> Result<
    PublicationView,
    ShotWorkflowError,
> {
    if w.migrations.len() != 0 {
        Err(ShotWorkflowError::MigrationRequired)
    } else if !writable {
        Err(ShotWorkflowError::ManifestNotWritable)
    } else if supersede_verdict(w.artifacts, w.artifacts.len() as int) is Err {
        Err(supersede_verdict(w.artifacts, w.artifacts.len() as int)->Err_0)
    } else {
        Ok(
            PublicationView {
                shot: Some(ShotView { direction: ShotDirection::Reaction, ..w.shot }),
                artifacts: Some(supersede_all(w.artifacts)),
                selection: Some(
                    SelectionView {
                        selected: None,
                        candidates: Seq::empty(),
                        extra: w.selection.extra,
                    },
                ),
            },
        )
    }
}

/// What changing the creative direction decides, when no stored hash was
/// diagnosed.
pub open spec fn set_direction_verdict(
    w: WorkflowView,
    writable: bool,
    direction: ShotDirection,
) -> Result<PublicationView, ShotWorkflowError> {
    if w.migrations.len() != 0 {
        Err(ShotWorkflowError::MigrationRequired)
    } else if snapshot_verdict(w) is Err {
        Err(snapshot_verdict(w)->Err_0)
    } else if is_locked(w) {
        Err(ShotWorkflowError::Locked)
    } else if w.shot.direction == direction {
        Ok(PublicationView { shot: None, artifacts: None, selection: None })
    } else if !writable {
        Err(ShotWorkflowError::ManifestNotWritable)
    } else {
        Ok(
            PublicationView {
                shot: Some(ShotView { direction, ..w.shot }),
                artifacts: None,
                selection: None,
            },
        )
    }
}

/// The records with the one carrying `id` moved to `status`.
pub open spec fn set_status_of(arts: Seq<RecordView>, id: Seq<char>, status: ArtifactStatus) -> Seq<
    RecordView,
> {
    match first_index(arts, id) {
        Some(i) => arts.update(i, RecordView { status, ..arts[i] }),
        None => arts,
    }
}

/// What locking the selection decides, when no stored hash was diagnosed.
pub open spec fn lock_verdict(w: WorkflowView, writable: bool) -> Result<
    PublicationView,
    ShotWorkflowError,
> {
    if w.migrations.len() != 0 {
        Err(ShotWorkflowError::MigrationRequired)
    } else if snapshot_verdict(w) is Err {
        Err(snapshot_verdict(w)->Err_0)
    } else if is_locked(w) {
        Err(ShotWorkflowError::AlreadyLocked)
    } else if is_stale(w) {
        Err(ShotWorkflowError::StaleSelection)
    } else if !writable {
        Err(ShotWorkflowError::ManifestNotWritable)
    } else {
        match w.selection.selected {
            None => Err(ShotWorkflowError::NoSelection),
            Some(s) => match lookup(w.artifacts, s) {
                None => Err(ShotWorkflowError::InvalidCanonicalState),
                Some(a) => match crate::shot_records::record_transition_verdict(
                    a,
                    ArtifactStatus::Locked,
                ) {
                    Err(e) => Err(e),
                    Ok(_) => Ok(
                        PublicationView {
                            shot: None,
                            artifacts: Some(set_status_of(w.artifacts, s, ArtifactStatus::Locked)),
                            selection: None,
                        },
                    ),
                },
            },
        }
    }
}

/// The records once the previous selection is released, if it is another
/// candidate.
pub open spec fn release_previous(arts: Seq<RecordView>, previous: Option<Seq<char>>, chosen: Seq<
    char,
>) -> Result<Seq<RecordView>, ShotWorkflowError> {
    match previous {
        Some(p) => if p != chosen {
            match lookup(arts, p) {
                None => Err(ShotWorkflowError::InvalidCanonicalState),
                Some(a) => match crate::shot_records::record_transition_verdict(
                    a,
                    ArtifactStatus::Candidate,
                ) {
                    Err(e) => Err(e),
                    Ok(_) => Ok(set_status_of(arts, p, ArtifactStatus::Candidate)),
                },
            }
        } else {
            Ok(arts)
        },
        None => Ok(arts),
    }
}

/// The records once the chosen candidate is marked selected.
pub open spec fn mark_chosen(arts: Seq<RecordView>, chosen: Seq<char>) -> Result<
    Seq<RecordView>,
    ShotWorkflowError,
> {
    match lookup(arts, chosen) {
        None => Err(ShotWorkflowError::InvalidCanonicalState),
        Some(a) => if a.status == ArtifactStatus::Candidate {
            match crate::shot_records::record_transition_verdict(a, ArtifactStatus::Selected) {
                Err(e) => Err(e),
                Ok(_) => Ok(set_status_of(arts, chosen, ArtifactStatus::Selected)),
            }
        } else {
            Ok(arts)
        },
    }
}

/// What selecting the candidate at `index` decides, when no stored hash was
/// diagnosed.
pub open spec fn select_verdict(w: WorkflowView, writable: bool, index: int) -> Result<
    PublicationView,
    ShotWorkflowError,
> {
    let cands = w.selection.candidates;
    if w.migrations.len() != 0 {
        Err(ShotWorkflowError::MigrationRequired)
    } else if snapshot_verdict(w) is Err {
        Err(snapshot_verdict(w)->Err_0)
    } else if is_locked(w) {
        Err(ShotWorkflowError::Locked)
    } else if cands.len() == 0 {
        Err(ShotWorkflowError::NotGenerated)
    } else if !writable {
        Err(ShotWorkflowError::ManifestNotWritable)
    } else if index >= cands.len() {
        Err(ShotWorkflowError::InvalidCandidate)
    } else {
        let chosen = cands[index];
        match release_previous(w.artifacts, w.selection.selected, chosen) {
            Err(e) => Err(e),
            Ok(released) => match mark_chosen(released, chosen) {
                Err(e) => Err(e),
                Ok(marked) => Ok(
                    PublicationView {
                        shot: None,
                        artifacts: Some(marked),
                        selection: Some(SelectionView { selected: Some(chosen), ..w.selection }),
                    },
                ),
            },
        }
    }
}

/// A stored content hash in the legacy demo form, which migrates.
pub open spec fn content_migrates(a: RecordView) -> bool {
    &&& !is_hash_text(a.content_hash)
    &&& a.artifact_type == shot_candidate_type()
    &&& a.content_hash == legacy_demo_text(a.artifact_id)
}

/// The direction a legacy intent text of this shot names.
pub open spec fn legacy_direction(shot_id: Seq<char>, v: Seq<char>) -> Option<ShotDirection> {
    if v == legacy_intent_text(shot_id, ShotDirection::Reaction) {
        Some(ShotDirection::Reaction)
    } else if v == legacy_intent_text(shot_id, ShotDirection::SpatialClarity) {
        Some(ShotDirection::SpatialClarity)
    } else if v == legacy_intent_text(shot_id, ShotDirection::Intimacy) {
        Some(ShotDirection::Intimacy)
    } else if v == legacy_intent_text(shot_id, ShotDirection::Tension) {
        Some(ShotDirection::Tension)
    } else {
        None
    }
}

/// The direction of a legacy input hash of a shot candidate, which migrates.
pub open spec fn input_migration(a: RecordView, shot_id: Seq<char>) -> Option<ShotDirection> {
    match a.input_hash {
        Some(v) => if !is_hash_text(v) && a.artifact_type == shot_candidate_type() {
            legacy_direction(shot_id, v)
        } else {
            None
        },
        None => None,
    }
}

/// A record with its legacy hashes replaced by canonical ones.
pub open spec fn normalized_record(a: RecordView, shot_id: Seq<char>) -> RecordView {
    RecordView {
        content_hash: if content_migrates(a) {
            demo_hash_text(a.artifact_id)
        } else {
            a.content_hash
        },
        input_hash: match input_migration(a, shot_id) {
            Some(d) => Some(intent_hash_text(shot_id, d)),
            None => a.input_hash,
        },
        ..a
    }
}

/// The migrations one record needs: content hash first, then input hash.
pub open spec fn record_migrations(a: RecordView, shot_id: Seq<char>) -> Seq<MigrationView> {
    (if content_migrates(a) {
        seq![
            MigrationView {
                artifact_id: a.artifact_id,
                field: HashField::ContentHash,
                from: a.content_hash,
                to: demo_hash_text(a.artifact_id),
            },
        ]
    } else {
        Seq::empty()
    }) + match input_migration(a, shot_id) {
        Some(d) => seq![
            MigrationView {
                artifact_id: a.artifact_id,
                field: HashField::InputHash,
                from: a.input_hash->Some_0,
                to: intent_hash_text(shot_id, d),
            },
        ],
        None => Seq::empty(),
    }
}

/// Diagnoses of the non-canonical hashes among the first `n` dependencies.
pub open spec fn dependency_issues(id: Seq<char>, deps: Seq<DependencyView>, n: int) -> Seq<
    IssueView,
>
    decreases n,
{
    if n <= 0 {
        Seq::empty()
    } else {
        dependency_issues(id, deps, n - 1) + if !is_hash_text(deps[n - 1].content_hash) {
            seq![
                IssueView {
                    artifact_id: id,
                    field: HashField::DependencyContentHash,
                    value: deps[n - 1].content_hash,
                },
            ]
        } else {
            Seq::empty()
        }
    }
}

/// Diagnoses of the hashes of one record that are neither canonical nor a
/// known legacy form: content hash, input hash, then each dependency.
pub open spec fn record_issues(a: RecordView, shot_id: Seq<char>) -> Seq<IssueView> {
    (if !is_hash_text(a.content_hash) && !content_migrates(a) {
        seq![
            IssueView {
                artifact_id: a.artifact_id,
                field: HashField::ContentHash,
                value: a.content_hash,
            },
        ]
    } else {
        Seq::empty()
    }) + (match a.input_hash {
        Some(v) => if !is_hash_text(v) && input_migration(a, shot_id) is None {
            seq![IssueView { artifact_id: a.artifact_id, field: HashField::InputHash, value: v }]
        } else {
            Seq::empty()
        },
        None => Seq::empty(),
    }) + dependency_issues(a.artifact_id, a.dependencies, a.dependencies.len() as int)
}

/// Records, diagnoses and migrations of a normalization.
pub struct Normalized {
    pub records: Seq<RecordView>,
    pub issues: Seq<IssueView>,
    pub migrations: Seq<MigrationView>,
}

/// What normalizing the first `n` records decides: each must pass its
/// structural check; legacy hashes are replaced and recorded, unknown ones
/// diagnosed.
pub open spec fn normalize_upto(arts: Seq<RecordView>, shot_id: Seq<char>, n: int) -> Result<
    Normalized,
    ShotWorkflowError,
>
    decreases n,
{
    if n <= 0 {
        Ok(Normalized { records: Seq::empty(), issues: Seq::empty(), migrations: Seq::empty() })
    } else {
        match normalize_upto(arts, shot_id, n - 1) {
            Err(e) => Err(e),
            Ok(acc) => match record_structure_verdict(arts[n - 1]) {
                Err(e) => Err(e),
                Ok(_) => Ok(
                    Normalized {
                        records: acc.records.push(normalized_record(arts[n - 1], shot_id)),
                        issues: acc.issues + record_issues(arts[n - 1], shot_id),
                        migrations: acc.migrations + record_migrations(arts[n - 1], shot_id),
                    },
                ),
            },
        }
    }
}

/// Every expected candidate is recorded as a shot candidate in play.
pub open spec fn generation_published(arts: Seq<RecordView>, expected: Seq<Seq<char>>) -> bool {
    forall|i: int|
        0 <= i < expected.len() ==> match lookup(arts, #[trigger] expected[i]) {
            Some(a) => a.artifact_type == shot_candidate_type() && is_live(a.status),
            None => false,
        }
}

/// The selection once an interrupted generation is recovered: when the
/// shot's revision names a generation whose candidates are all recorded but
/// the selection still lists others, the selection moves to them.
pub open spec fn recover_generation_verdict(
    shot: ShotView,
    arts: Seq<RecordView>,
    sel: SelectionView,
) -> Result<SelectionView, ShotWorkflowError> {
    let rev = shot.generation_revision;
    if rev == 0 {
        Ok(sel)
    } else {
        match candidate_ids_error(shot.shot_id, rev) {
            Some(e) => Err(ShotWorkflowError::ArtifactId(e)),
            None => {
                let expected = candidate_texts(shot.shot_id, rev);
                if sel.candidates == expected {
                    Ok(sel)
                } else if generation_published(arts, expected) {
                    Ok(SelectionView { selected: None, candidates: expected, ..sel })
                } else {
                    Ok(sel)
                }
            },
        }
    }
}

/// Every listed candidate is a valid identifier of a superseded record.
pub open spec fn all_superseded(arts: Seq<RecordView>, ids: Seq<Seq<char>>) -> bool {
    forall|k: int|
        0 <= k < ids.len() ==> artifact_id_verdict(#[trigger] ids[k]) is Ok && match lookup(
            arts,
            ids[k],
        ) {
            Some(a) => a.status == ArtifactStatus::Superseded,
            None => false,
        }
}

/// The selection once an interrupted reset is recovered: a list of only
/// superseded candidates is cleared.
pub open spec fn recover_cleared(arts: Seq<RecordView>, sel: SelectionView) -> SelectionView {
    if sel.candidates.len() != 0 && all_superseded(arts, sel.candidates) {
        SelectionView { selected: None, candidates: Seq::empty(), ..sel }
    } else {
        sel
    }
}

/// One record's status brought in line with the selection pointer, which is
/// the authority for the human choice.
pub open spec fn reconcile_record(a: RecordView, sel: SelectionView) -> Result<
    RecordView,
    ShotWorkflowError,
> {
    let is_candidate = sel.candidates.contains(a.artifact_id);
    let is_selected = sel.selected == Some(a.artifact_id);
    if is_candidate && is_selected {
        if a.status == ArtifactStatus::Candidate {
            match crate::shot_records::record_transition_verdict(a, ArtifactStatus::Selected) {
                Err(e) => Err(e),
                Ok(_) => Ok(RecordView { status: ArtifactStatus::Selected, ..a }),
            }
        } else if is_chosen(a.status) {
            Ok(a)
        } else {
            Err(ShotWorkflowError::InvalidCanonicalState)
        }
    } else if is_candidate {
        if a.status == ArtifactStatus::Selected {
            match crate::shot_records::record_transition_verdict(a, ArtifactStatus::Candidate) {
                Err(e) => Err(e),
                Ok(_) => Ok(RecordView { status: ArtifactStatus::Candidate, ..a }),
            }
        } else if a.status == ArtifactStatus::Candidate {
            Ok(a)
        } else {
            Err(ShotWorkflowError::InvalidCanonicalState)
        }
    } else if is_chosen(a.status) {
        Err(ShotWorkflowError::InvalidCanonicalState)
    } else {
        Ok(a)
    }
}

/// The first `n` records reconciled, the first failure deciding.
pub open spec fn reconcile_upto(arts: Seq<RecordView>, sel: SelectionView, n: int) -> Result<
    Seq<RecordView>,
    ShotWorkflowError,
>
    decreases n,
{
    if n <= 0 {
        Ok(Seq::empty())
    } else {
        match reconcile_upto(arts, sel, n - 1) {
            Err(e) => Err(e),
            Ok(acc) => match reconcile_record(arts[n - 1], sel) {
                Err(e) => Err(e),
                Ok(r) => Ok(acc.push(r)),
            },
        }
    }
}

/// What reconciling record statuses with the selection decides.
pub open spec fn reconcile_verdict(arts: Seq<RecordView>, sel: SelectionView) -> Result<
    Seq<RecordView>,
    ShotWorkflowError,
> {
    match selection_verdict(sel) {
        Err(e) => Err(e),
        Ok(_) => reconcile_upto(arts, sel, arts.len() as int),
    }
}

/// The state after recovering whatever an interrupted publication left:
/// a generation, a reset, or a selection.
pub open spec fn recover_verdict(w: WorkflowView) -> Result<WorkflowView, ShotWorkflowError> {
    match recover_generation_verdict(w.shot, w.artifacts, w.selection) {
        Err(e) => Err(e),
        Ok(sel1) => {
            let sel2 = recover_cleared(w.artifacts, sel1);
            match reconcile_verdict(w.artifacts, sel2) {
                Err(e) => Err(e),
                Ok(arts) => Ok(WorkflowView { selection: sel2, artifacts: arts, ..w }),
            }
        },
    }
}

/// What loading a shot from its stored parts decides.
pub open spec fn assemble_verdict(
    shot_number: u32,
    shot: ShotView,
    arts: Seq<RecordView>,
    bytes: Option<Seq<u8>>,
    sel: SelectionView,
) -> Result<WorkflowView, ShotWorkflowError> {
    match normalize_upto(arts, shot.shot_id, arts.len() as int) {
        Err(e) => Err(e),
        Ok(n) => {
            let w1 = WorkflowView {
                shot_number,
                shot,
                artifacts: n.records,
                selection: sel,
                issues: n.issues,
                migrations: n.migrations,
                legacy_bytes: if n.migrations.len() == 0 {
                    None
                } else {
                    bytes
                },
            };
            let recovered = if n.issues.len() == 0 && n.migrations.len() == 0 {
                recover_verdict(w1)
            } else {
                Ok(w1)
            };
            match recovered {
                Err(e) => Err(e),
                Ok(w2) => match validate_verdict(w2) {
                    Err(e) => Err(e),
                    Ok(_) => Ok(w2),
                },
            }
        },
    }
}

/// `shot.json`.
pub open spec fn shot_file_text() -> Seq<char> {
    seq!['s', 'h', 'o', 't', '.', 'j', 's', 'o', 'n']
}

/// `artifacts.json`.
pub open spec fn artifacts_file_text() -> Seq<char> {
    seq!['a', 'r', 't', 'i', 'f', 'a', 'c', 't', 's', '.', 'j', 's', 'o', 'n']
}

/// `selection.json`.
pub open spec fn selection_file_text() -> Seq<char> {
    seq!['s', 'e', 'l', 'e', 'c', 't', 'i', 'o', 'n', '.', 'j', 's', 'o', 'n']
}

/// `artifacts.pre-sha256-migration.json`, where a migration keeps the
/// original artifact records.
pub open spec fn backup_file_text() -> Seq<char> {
    seq![
        'a', 'r', 't', 'i', 'f', 'a', 'c', 't', 's', '.', 'p', 'r', 'e', '-', 's', 'h', 'a', '2',
        '5', '6', '-', 'm', 'i', 'g', 'r', 'a', 't', 'i', 'o', 'n', '.', 'j', 's', 'o', 'n',
    ]
}

/// The manifest of a shot that has none on disk yet.
pub open spec fn default_shot(shot_number: u32) -> ShotView {
    ShotView {
        shot_id: shot_id_text(shot_number),
        schema_version: 1,
        direction: ShotDirection::Reaction,
        generation_revision: 0,
        extra: Seq::empty(),
    }
}

/// What accepting a stored shot manifest decides: the shot number must be
/// positive, and the manifest must carry this shot's identifier and a
/// version.
pub open spec fn accept_shot_verdict(shot_number: u32, stored: Option<ShotView>) -> Result<
    ShotView,
    ShotWorkflowError,
> {
    if shot_number == 0 {
        Err(ShotWorkflowError::InvalidShotNumber)
    } else {
        let s = match stored {
            Some(s) => s,
            None => default_shot(shot_number),
        };
        if s.shot_id != shot_id_text(shot_number) || s.schema_version == 0 {
            Err(ShotWorkflowError::InvalidCanonicalState)
        } else {
            Ok(s)
        }
    }
}

/// The selection of a shot that has none on disk yet.
pub open spec fn default_selection() -> SelectionView {
    SelectionView { selected: None, candidates: Seq::empty(), extra: Seq::empty() }
}

/// What loading a shot from what its files held decides.
pub open spec fn load_verdict(
    shot_number: u32,
    shot: Option<ShotView>,
    arts: Option<Seq<RecordView>>,
    bytes: Option<Seq<u8>>,
    sel: Option<SelectionView>,
) -> Result<WorkflowView, ShotWorkflowError> {
    match accept_shot_verdict(shot_number, shot) {
        Err(e) => Err(e),
        Ok(s) => assemble_verdict(
            shot_number,
            s,
            match arts {
                Some(a) => a,
                None => Seq::empty(),
            },
            bytes,
            match sel {
                Some(v) => v,
                None => default_selection(),
            },
        ),
    }
}

/// What finishing a migration decides, once the files are written: the
/// pending migrations are cleared, interrupted publications recovered, and
/// the state validated.
pub open spec fn complete_migration_verdict(w: WorkflowView) -> Result<
    WorkflowView,
    ShotWorkflowError,
> {
    if !is_project_relative_path(shot_path_text(w.shot_number, backup_file_text())) {
        Err(ShotWorkflowError::Path(ProjectPathError::Invalid))
    } else {
        let w1 = WorkflowView { migrations: Seq::empty(), legacy_bytes: None, ..w };
        match recover_verdict(w1) {
            Err(e) => Err(e),
            Ok(w2) => match validate_verdict(w2) {
                Err(e) => Err(e),
                Ok(_) => Ok(w2),
            },
        }
    }
}

} // verus!
