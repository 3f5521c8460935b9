use vstd::prelude::*;
use vstd::string::*;

use crate::artifact::{is_hash_text, ArtifactId, InputHash};
use crate::lifecycle::{id_views, ArtifactStatus};
use crate::shot::{ShotApprovalSnapshot, ShotDirection};
use crate::shot_error::{HashField, ShotWorkflowError};
use crate::project_path::{is_project_relative_path, ProjectPathError, ProjectRelativePath};
use crate::shot_hash::{
    candidate_id_text, candidate_ids, candidate_label, candidate_texts, demo_content_hash,
    demo_hash_text, input_hash_for, shot_id_for, shot_path, shot_path_text,
};
use crate::shot_laws::{
    generation_settled, lemma_generation_keeps_state_valid, lemma_generation_settles,
};
use crate::shot_load::{
    normalize_legacy_demo_hashes, reconcile_selection_statuses, recover_cleared_selection,
    recover_generation_selection,
};
use crate::shot_model::{
    accept_shot_verdict, apply_publication, artifact_check_step, artifacts_file_text,
    artifacts_verdict, backup_file_text, candidate_is_stale, collides,
    complete_migration_verdict, count_superseded, current_input_hash, first_index,
    first_index_from, generate_verdict, is_chosen, is_live, is_locked, is_stale,
    lemma_first_index, lemma_position_from, load_verdict, lock_verdict, lookup, new_candidate,
    pending_migration_error, position_from, position_of, recover_verdict, reset_verdict,
    select_verdict, selection_consistent, selection_file_text, set_direction_verdict,
    set_status_of, shot_candidate_type, shot_file_text, snapshot_of, snapshot_verdict,
    supersede_all, supersede_verdict, superseded_record, supersedes, validate_verdict,
    IssueView, MigrationView, PublicationView, WorkflowView,
};
use crate::shot_records::{
    clone_fields, clone_records, opt_view as opt_text_view, record_domain_verdict,
    record_structure_verdict, record_transition_verdict, records_view, selection_verdict,
    strings_view, RecordView, SelectionView, ShotProductionManifest, ShotView,
    StoredArtifactRecord, StoredSelectionManifest,
};
use crate::shot_text::text_equals;

verus! {

/// A stored hash that is neither canonical nor a known legacy form.
#[derive(Debug, PartialEq, Eq)]
pub struct ShotHashIssue {
    pub artifact_id: String,
    pub field: HashField,
    pub value: String,
}

impl View for ShotHashIssue {
    type V = IssueView;

    open spec fn view(&self) -> IssueView {
        IssueView { artifact_id: self.artifact_id@, field: self.field, value: self.value@ }
    }
}

impl Clone for ShotHashIssue {
    fn clone(&self) -> (r: Self)
        ensures
            r@ == self@,
    {
        ShotHashIssue {
            artifact_id: self.artifact_id.clone(),
            field: self.field,
            value: self.value.clone(),
        }
    }
}

/// A legacy hash that the migration rewrites, with its replacement.
#[derive(Debug, PartialEq, Eq)]
pub struct ShotHashMigrationRecord {
    pub artifact_id: String,
    pub field: HashField,
    pub from: String,
    pub to: String,
}

impl View for ShotHashMigrationRecord {
    type V = MigrationView;

    open spec fn view(&self) -> MigrationView {
        MigrationView {
            artifact_id: self.artifact_id@,
            field: self.field,
            from: self.from@,
            to: self.to@,
        }
    }
}

impl Clone for ShotHashMigrationRecord {
    fn clone(&self) -> (r: Self)
        ensures
            r@ == self@,
    {
        ShotHashMigrationRecord {
            artifact_id: self.artifact_id.clone(),
            field: self.field,
            from: self.from.clone(),
            to: self.to.clone(),
        }
    }
}

pub open spec fn issues_view(v: Seq<ShotHashIssue>) -> Seq<IssueView> {
    v.map_values(|i: ShotHashIssue| i@)
}

pub open spec fn migrations_view(v: Seq<ShotHashMigrationRecord>) -> Seq<MigrationView> {
    v.map_values(|m: ShotHashMigrationRecord| m@)
}

/// What one explicit migration rewrote, and where the original was kept.
#[derive(Debug, PartialEq, Eq, Default)]
pub struct ShotMigrationReport {
    pub backup_path: Option<String>,
    pub rewritten: Vec<ShotHashMigrationRecord>,
}

/// The files one operation must publish, in this order: `shot.json`,
/// `artifacts.json`, `selection.json`. A part that is `None` is not written.
pub struct ShotPublication {
    pub shot: Option<ShotProductionManifest>,
    pub artifacts: Option<Vec<StoredArtifactRecord>>,
    pub selection: Option<StoredSelectionManifest>,
}

impl View for ShotPublication {
    type V = PublicationView;

    open spec fn view(&self) -> PublicationView {
        PublicationView {
            shot: match self.shot {
                Some(s) => Some(s@),
                None => None,
            },
            artifacts: match self.artifacts {
                Some(a) => Some(records_view(a@)),
                None => None,
            },
            selection: match self.selection {
                Some(s) => Some(s@),
                None => None,
            },
        }
    }
}

/// The approval workflow of one shot: its production manifest, its artifact
/// records and its selection pointer, with the hash diagnoses made at load.
pub struct ShotWorkflow {
    shot_number: u32,
    shot: ShotProductionManifest,
    artifacts: Vec<StoredArtifactRecord>,
    selection: StoredSelectionManifest,
    hash_issues: Vec<ShotHashIssue>,
    hash_migration_records: Vec<ShotHashMigrationRecord>,
    legacy_artifacts_bytes: Option<Vec<u8>>,
}

impl View for ShotWorkflow {
    type V = WorkflowView;

    closed spec fn view(&self) -> WorkflowView {
        WorkflowView {
            shot_number: self.shot_number,
            shot: self.shot@,
            artifacts: records_view(self.artifacts@),
            selection: self.selection@,
            issues: issues_view(self.hash_issues@),
            migrations: migrations_view(self.hash_migration_records@),
            legacy_bytes: match self.legacy_artifacts_bytes {
                Some(b) => Some(b@),
                None => None,
            },
        }
    }
}

/// The refusal reported for a diagnosed hash.
pub open spec fn refuses_for_issue(e: ShotWorkflowError, issue: IssueView) -> bool {
    match e {
        ShotWorkflowError::InvalidStoredHash { artifact_id, field, value } => artifact_id@
            == issue.artifact_id && field == issue.field && value@ == issue.value,
        _ => false,
    }
}

/// Index of the first record with this identifier.
pub fn find_index(arts: &Vec<StoredArtifactRecord>, id: &str) -> (r: Option<usize>)
    ensures
        match r {
            Some(i) => first_index(records_view(arts@), id@) == Some(i as int) && i < arts@.len(),
            None => first_index(records_view(arts@), id@) is None,
        },
{
    let ghost v = records_view(arts@);
    let mut i: usize = 0;
    while i < arts.len()
        invariant
            0 <= i <= arts@.len(),
            v == records_view(arts@),
            first_index_from(v, id@, 0) == first_index_from(v, id@, i as int),
        decreases arts.len() - i,
    {
        assert(v[i as int] == arts@[i as int]@);
        if text_equals(arts[i].artifact_id.as_str(), id) {
            return Some(i);
        }
        i = i + 1;
    }
    None
}

/// Index of the first occurrence of an identifier in a list.
fn find_position(ids: &Vec<ArtifactId>, id: &ArtifactId) -> (r: Option<usize>)
    ensures
        match r {
            Some(i) => position_of(id_views(ids@), id@) == Some(i as int),
            None => position_of(id_views(ids@), id@) is None,
        },
{
    let ghost v = id_views(ids@);
    let mut i: usize = 0;
    while i < ids.len()
        invariant
            0 <= i <= ids@.len(),
            v == id_views(ids@),
            position_from(v, id@, 0) == position_from(v, id@, i as int),
        decreases ids.len() - i,
    {
        if ids[i].same_as(id) {
            return Some(i);
        }
        i = i + 1;
    }
    None
}

proof fn lemma_artifacts_first_error(arts: Seq<RecordView>, i: int, n: int, check: bool)
    requires
        0 <= i < n,
        artifacts_verdict(arts, i, check) is Ok,
        artifact_check_step(arts, i, check) is Err,
    ensures
        artifacts_verdict(arts, n, check) == artifact_check_step(arts, i, check),
    decreases n,
{
    if n > i + 1 {
        lemma_artifacts_first_error(arts, i, n - 1, check);
    }
}

proof fn lemma_supersede_first_error(arts: Seq<RecordView>, i: int, n: int)
    requires
        0 <= i < n,
        supersede_verdict(arts, i) is Ok,
        supersedes(arts[i]),
        record_domain_verdict(arts[i]) is Err,
    ensures
        supersede_verdict(arts, n) == record_domain_verdict(arts[i]),
    decreases n,
{
    if n > i + 1 {
        lemma_supersede_first_error(arts, i, n - 1);
    }
}

/// Whether a record is a generated shot candidate.
pub(crate) fn is_shot_candidate(a: &StoredArtifactRecord) -> (r: bool)
    ensures
        r == (a@.artifact_type == shot_candidate_type()),
{
    proof {
        reveal_strlit("shot_candidate");
        assert("shot_candidate"@ =~= shot_candidate_type());
    }
    text_equals(a.artifact_type.as_str(), "shot_candidate")
}

fn status_is_live(s: ArtifactStatus) -> (r: bool)
    ensures
        r == is_live(s),
{
    s == ArtifactStatus::Candidate || s == ArtifactStatus::Selected || s == ArtifactStatus::Locked
}

fn status_is_chosen(s: ArtifactStatus) -> (r: bool)
    ensures
        r == is_chosen(s),
{
    s == ArtifactStatus::Selected || s == ArtifactStatus::Locked
}

/// Supersedes every shot candidate in play; other records are unchanged.
pub fn supersede_active_shot_candidates(arts: &Vec<StoredArtifactRecord>) -> (r: Result<
    Vec<StoredArtifactRecord>,
    ShotWorkflowError,
>)
    ensures
        match r {
            Ok(v) => supersede_verdict(records_view(arts@), arts@.len() as int) is Ok
                && records_view(v@) == supersede_all(records_view(arts@)),
            Err(e) => supersede_verdict(records_view(arts@), arts@.len() as int) == Err::<
                (),
                ShotWorkflowError,
            >(e),
        },
{
    let ghost v = records_view(arts@);
    let mut out: Vec<StoredArtifactRecord> = Vec::new();
    let mut i: usize = 0;
    while i < arts.len()
        invariant
            0 <= i <= arts@.len(),
            v == records_view(arts@),
            supersede_verdict(v, i as int) is Ok,
            out@.len() == i,
            forall|j: int| 0 <= j < i ==> #[trigger] out@[j]@ == superseded_record(v[j]),
        decreases arts.len() - i,
    {
        let mut rec = arts[i].clone();
        assert(rec@ == v[i as int]);
        if is_shot_candidate(&rec) && status_is_live(rec.status) {
            match rec.transition(ArtifactStatus::Superseded) {
                Ok(()) => {},
                Err(e) => {
                    proof {
                        lemma_supersede_first_error(v, i as int, v.len() as int);
                    }
                    return Err(e);
                },
            }
        }
        out.push(rec);
        i = i + 1;
    }
    assert(records_view(out@) =~= supersede_all(v));
    Ok(out)
}

proof fn lemma_supersede_keeps_ids(arts: Seq<RecordView>)
    ensures
        supersede_all(arts).len() == arts.len(),
        forall|k: int|
            0 <= k < arts.len() ==> (#[trigger] supersede_all(arts)[k]).artifact_id
                == arts[k].artifact_id,
{
}

proof fn lemma_candidate_texts_distinct(shot_id: Seq<char>, revision: u16)
    ensures
        forall|i: int, j: int|
            0 <= i < 3 && 0 <= j < 3 && i != j ==> candidate_id_text(shot_id, revision, i)
                != candidate_id_text(shot_id, revision, j),
{
    assert forall|i: int, j: int|
        0 <= i < 3 && 0 <= j < 3 && i != j implies candidate_id_text(shot_id, revision, i)
            != candidate_id_text(shot_id, revision, j) by {
        let a = candidate_id_text(shot_id, revision, i);
        let b = candidate_id_text(shot_id, revision, j);
        assert(a.last() == candidate_label(i));
        assert(b.last() == candidate_label(j));
    }
}

/// Records the new candidates after `arts`, unless one of their identifiers
/// is taken; gives back their identifiers.
fn push_candidates(
    arts: &mut Vec<StoredArtifactRecord>,
    ids: &Vec<ArtifactId>,
    input_hash: &InputHash,
) -> (r: Option<Vec<String>>)
    requires
        forall|a: int, b: int|
            0 <= a < ids@.len() && 0 <= b < ids@.len() && a != b ==> ids@[a]@ != ids@[b]@,
    ensures
        match r {
            Some(names) => !collides(records_view(old(arts)@), id_views(ids@)) && records_view(
                final(arts)@,
            ) == records_view(old(arts)@) + id_views(ids@).map_values(
                |id: Seq<char>| new_candidate(id, input_hash@),
            ) && strings_view(names@) == id_views(ids@) && forall|m: int|
                0 <= m < ids@.len() ==> is_hash_text(demo_hash_text(#[trigger] id_views(ids@)[m])),
            None => collides(records_view(old(arts)@), id_views(ids@)),
        },
{
    let ghost start = records_view(arts@);
    let ghost texts = id_views(ids@);
    let ghost input = input_hash@;
    let ghost old_len = start.len();
    let mut names: Vec<String> = Vec::new();
    let mut i: usize = 0;
    while i < ids.len()
        invariant
            0 <= i <= ids@.len(),
            texts == id_views(ids@),
            input == input_hash@,
            old_len == start.len(),
            start == records_view(old(arts)@),
            forall|a: int, b: int|
                0 <= a < ids@.len() && 0 <= b < ids@.len() && a != b ==> ids@[a]@ != ids@[b]@,
            records_view(arts@) == start + texts.subrange(0, i as int).map_values(
                |id: Seq<char>| new_candidate(id, input),
            ),
            names@.len() == i,
            forall|m: int| 0 <= m < i ==> #[trigger] names@[m]@ == texts[m],
            forall|k: int, m: int|
                0 <= k < old_len && 0 <= m < i ==> start[k].artifact_id != texts[m],
            forall|m: int| 0 <= m < i ==> is_hash_text(demo_hash_text(#[trigger] texts[m])),
        decreases ids.len() - i,
    {
        let id = &ids[i];
        assert(id@ == texts[i as int]);
        let ghost current = records_view(arts@);
        match find_index(arts, id.as_str()) {
            Some(idx) => {
                proof {
                    lemma_first_index(current, id@);
                    if idx < old_len {
                        assert(start[idx as int].artifact_id == current[idx as int].artifact_id);
                        assert(start[idx as int].artifact_id == texts[i as int]);
                        assert(collides(start, texts));
                    } else {
                        let m = idx - old_len;
                        assert(current[idx as int] == new_candidate(texts[m], input));
                        assert(texts[m] == texts[i as int]);
                        assert(ids@[m]@ == ids@[i as int]@);
                        assert(false);
                    }
                }
                return None;
            },
            None => {
                proof {
                    lemma_first_index(current, id@);
                    assert forall|k: int| 0 <= k < old_len implies start[k].artifact_id
                        != texts[i as int] by {
                        assert(current[k] == start[k]);
                    }
                }
            },
        }
        let content_hash = demo_content_hash(id);
        content_hash.assert_valid();
        let record = StoredArtifactRecord {
            artifact_id: id.to_string(),
            schema_version: 1,
            artifact_type: String::from_str("shot_candidate"),
            status: ArtifactStatus::Candidate,
            content_hash: content_hash.as_str().to_owned(),
            input_hash: Some(input_hash.as_str().to_owned()),
            dependencies: Vec::new(),
            extra: Vec::new(),
        };
        proof {
            reveal_strlit("shot_candidate");
            assert(record@.artifact_type =~= shot_candidate_type());
            assert(record@.dependencies =~= Seq::<crate::shot_records::DependencyView>::empty());
            assert(record@.extra =~= Seq::<(Seq<char>, Seq<char>)>::empty());
            assert(record@ == new_candidate(texts[i as int], input));
        }
        arts.push(record);
        proof {
            assert(texts.subrange(0, (i + 1) as int).map_values(
                |id: Seq<char>| new_candidate(id, input),
            ) =~= texts.subrange(0, i as int).map_values(
                |id: Seq<char>| new_candidate(id, input),
            ).push(new_candidate(texts[i as int], input)));
            assert(records_view(arts@) =~= current.push(new_candidate(texts[i as int], input)));
        }
        names.push(id.to_string());
        i = i + 1;
    }
    proof {
        assert(texts.subrange(0, texts.len() as int) =~= texts);
        assert(strings_view(names@) =~= texts);
        assert(!collides(start, texts));
    }
    Some(names)
}

/// Moves the first record with this identifier along one lifecycle edge.
fn transition_record(
    arts: &mut Vec<StoredArtifactRecord>,
    id: &ArtifactId,
    next: ArtifactStatus,
) -> (r: Result<(), ShotWorkflowError>)
    ensures
        match lookup(records_view(old(arts)@), id@) {
            None => r == Err::<(), ShotWorkflowError>(ShotWorkflowError::InvalidCanonicalState)
                && records_view(final(arts)@) == records_view(old(arts)@),
            Some(a) => match record_transition_verdict(a, next) {
                Err(e) => r == Err::<(), ShotWorkflowError>(e) && records_view(final(arts)@)
                    == records_view(old(arts)@),
                Ok(_) => r is Ok && records_view(final(arts)@) == set_status_of(
                    records_view(old(arts)@),
                    id@,
                    next,
                ),
            },
        },
{
    let ghost start = records_view(arts@);
    match find_index(arts, id.as_str()) {
        None => Err(ShotWorkflowError::InvalidCanonicalState),
        Some(i) => {
            let mut rec = arts[i].clone();
            assert(rec@ == start[i as int]);
            rec.transition(next)?;
            arts.set(i, rec);
            assert(records_view(arts@) =~= set_status_of(start, id@, next));
            Ok(())
        },
    }
}

/// The paths of a shot's three files.
pub struct ShotFiles {
    pub shot: ProjectRelativePath,
    pub artifacts: ProjectRelativePath,
    pub selection: ProjectRelativePath,
}

/// The paths of the files of shot `shot_number`, which must be positive.
pub fn shot_files(shot_number: u32) -> (r: Result<ShotFiles, ShotWorkflowError>)
    ensures
        shot_number == 0 ==> (r matches Err(e) && e == ShotWorkflowError::InvalidShotNumber),
        shot_number != 0 ==> match r {
            Ok(f) => f.shot@ == shot_path_text(shot_number, shot_file_text()) && f.artifacts@
                == shot_path_text(shot_number, artifacts_file_text()) && f.selection@
                == shot_path_text(shot_number, selection_file_text()),
            Err(e) => e == ShotWorkflowError::Path(ProjectPathError::Invalid) && !(
            is_project_relative_path(shot_path_text(shot_number, shot_file_text()))
                && is_project_relative_path(shot_path_text(shot_number, artifacts_file_text()))
                && is_project_relative_path(shot_path_text(shot_number, selection_file_text()))),
        },
        r is Ok ==> is_project_relative_path(shot_path_text(shot_number, shot_file_text()))
            && is_project_relative_path(shot_path_text(shot_number, artifacts_file_text()))
            && is_project_relative_path(shot_path_text(shot_number, selection_file_text())),
{
    if shot_number == 0 {
        return Err(ShotWorkflowError::InvalidShotNumber);
    }
    proof {
        reveal_strlit("shot.json");
        reveal_strlit("artifacts.json");
        reveal_strlit("selection.json");
        assert("shot.json"@ =~= shot_file_text());
        assert("artifacts.json"@ =~= artifacts_file_text());
        assert("selection.json"@ =~= selection_file_text());
    }
    let shot = match shot_path(shot_number, "shot.json") {
        Ok(p) => p,
        Err(e) => {
            return Err(ShotWorkflowError::Path(e));
        },
    };
    let artifacts = match shot_path(shot_number, "artifacts.json") {
        Ok(p) => p,
        Err(e) => {
            return Err(ShotWorkflowError::Path(e));
        },
    };
    let selection = match shot_path(shot_number, "selection.json") {
        Ok(p) => p,
        Err(e) => {
            return Err(ShotWorkflowError::Path(e));
        },
    };
    Ok(ShotFiles { shot, artifacts, selection })
}

pub open spec fn opt_shot_view(s: Option<ShotProductionManifest>) -> Option<ShotView> {
    match s {
        Some(m) => Some(m@),
        None => None,
    }
}

/// Accepts what `shot.json` held, or the default manifest of a new shot.
pub fn accept_shot(shot_number: u32, stored: Option<ShotProductionManifest>) -> (r: Result<
    ShotProductionManifest,
    ShotWorkflowError,
>)
    ensures
        match r {
            Ok(s) => accept_shot_verdict(shot_number, opt_shot_view(stored)) == Ok::<
                ShotView,
                ShotWorkflowError,
            >(s@),
            Err(e) => accept_shot_verdict(shot_number, opt_shot_view(stored)) == Err::<
                ShotView,
                ShotWorkflowError,
            >(e),
        },
{
    if shot_number == 0 {
        return Err(ShotWorkflowError::InvalidShotNumber);
    }
    let shot = match stored {
        Some(s) => s,
        None => {
            let s = ShotProductionManifest {
                shot_id: shot_id_for(shot_number),
                schema_version: 1,
                direction: ShotDirection::Reaction,
                generation_revision: 0,
                extra: Vec::new(),
            };
            assert(s@.extra =~= Seq::<(Seq<char>, Seq<char>)>::empty());
            s
        },
    };
    let expected = shot_id_for(shot_number);
    if !(shot.shot_id == expected) || shot.schema_version == 0 {
        return Err(ShotWorkflowError::InvalidCanonicalState);
    }
    Ok(shot)
}

fn clone_issues(v: &Vec<ShotHashIssue>) -> (r: Vec<ShotHashIssue>)
    ensures
        issues_view(r@) == issues_view(v@),
{
    let mut r: Vec<ShotHashIssue> = Vec::new();
    let mut i: usize = 0;
    while i < v.len()
        invariant
            0 <= i <= v@.len(),
            r@.len() == i,
            forall|j: int| 0 <= j < i ==> #[trigger] r@[j]@ == v@[j]@,
        decreases v.len() - i,
    {
        r.push(v[i].clone());
        i = i + 1;
    }
    assert(issues_view(r@) =~= issues_view(v@));
    r
}

fn clone_migrations(v: &Vec<ShotHashMigrationRecord>) -> (r: Vec<ShotHashMigrationRecord>)
    ensures
        migrations_view(r@) == migrations_view(v@),
{
    let mut r: Vec<ShotHashMigrationRecord> = Vec::new();
    let mut i: usize = 0;
    while i < v.len()
        invariant
            0 <= i <= v@.len(),
            r@.len() == i,
            forall|j: int| 0 <= j < i ==> #[trigger] r@[j]@ == v@[j]@,
        decreases v.len() - i,
    {
        r.push(v[i].clone());
        i = i + 1;
    }
    assert(migrations_view(r@) =~= migrations_view(v@));
    r
}

fn bytes_equal(a: &Vec<u8>, b: &Vec<u8>) -> (r: bool)
    ensures
        r == (a@ == b@),
{
    if a.len() != b.len() {
        return false;
    }
    let mut i: usize = 0;
    while i < a.len()
        invariant
            0 <= i <= a@.len(),
            a@.len() == b@.len(),
            forall|j: int| 0 <= j < i ==> a@[j] == b@[j],
        decreases a.len() - i,
    {
        if a[i] != b[i] {
            return false;
        }
        i = i + 1;
    }
    assert(a@ =~= b@);
    true
}

/// What a legacy hash migration must write: the original artifact file
/// bytes to the backup path, then the normalized records to the artifact
/// file.
pub struct MigrationPlan {
    pub backup_path: ProjectRelativePath,
    pub original: Vec<u8>,
    pub artifacts_path: ProjectRelativePath,
    pub artifacts: Vec<StoredArtifactRecord>,
}

/// Why a migration with pending records cannot be planned, if it cannot.
pub open spec fn migration_plan_error(w: WorkflowView, writable: bool) -> Option<
    ShotWorkflowError,
> {
    if !writable {
        Some(ShotWorkflowError::ManifestNotWritable)
    } else if w.legacy_bytes is None {
        Some(ShotWorkflowError::InvalidCanonicalState)
    } else if !is_project_relative_path(shot_path_text(w.shot_number, backup_file_text()))
        || !is_project_relative_path(shot_path_text(w.shot_number, artifacts_file_text())) {
        Some(ShotWorkflowError::Path(ProjectPathError::Invalid))
    } else {
        None
    }
}

/// Whether the backup must still be written: an existing backup must hold
/// exactly the original bytes.
pub fn backup_write_needed(
    existing: &Option<Vec<u8>>,
    original: &Vec<u8>,
    backup_path: &ProjectRelativePath,
) -> (r: Result<bool, ShotWorkflowError>)
    ensures
        match existing {
            None => r == Ok::<bool, ShotWorkflowError>(true),
            Some(bytes) => if bytes@ == original@ {
                r == Ok::<bool, ShotWorkflowError>(false)
            } else {
                r matches Err(ShotWorkflowError::MigrationBackupConflict(p)) && p@ == backup_path@
            },
        },
{
    match existing {
        None => Ok(true),
        Some(bytes) => {
            if bytes_equal(bytes, original) {
                Ok(false)
            } else {
                Err(ShotWorkflowError::MigrationBackupConflict(backup_path.as_str().to_owned()))
            }
        },
    }
}

impl Clone for ShotWorkflow {
    fn clone(&self) -> (r: Self)
        ensures
            r@ == self@,
    {
        ShotWorkflow {
            shot_number: self.shot_number,
            shot: self.shot.clone(),
            artifacts: clone_records(&self.artifacts),
            selection: self.selection.clone(),
            hash_issues: clone_issues(&self.hash_issues),
            hash_migration_records: clone_migrations(&self.hash_migration_records),
            legacy_artifacts_bytes: match &self.legacy_artifacts_bytes {
                Some(b) => Some(b.clone()),
                None => None,
            },
        }
    }
}

impl ShotWorkflow {
    /// The shot's production manifest.
    pub fn shot(&self) -> (s: &ShotProductionManifest)
        ensures
            s@ == self@.shot,
    {
        &self.shot
    }

    /// The shot's artifact records.
    pub fn artifacts(&self) -> (a: &[StoredArtifactRecord])
        ensures
            records_view(a@) == self@.artifacts,
    {
        self.artifacts.as_slice()
    }

    /// The shot's selection pointer.
    pub fn selection(&self) -> (s: &StoredSelectionManifest)
        ensures
            s@ == self@.selection,
    {
        &self.selection
    }

    /// The number of this shot.
    pub fn shot_number(&self) -> (n: u32)
        ensures
            n == self@.shot_number,
    {
        self.shot_number
    }

    /// Stored hashes that are neither canonical nor a known legacy form.
    pub fn hash_issues(&self) -> (issues: &[ShotHashIssue])
        ensures
            issues_view(issues@) == self@.issues,
    {
        self.hash_issues.as_slice()
    }

    /// Checks that the state on disk is coherent: a valid selection, valid
    /// records with distinct identifiers (and canonical hashes unless some
    /// were diagnosed), and statuses that agree with the selection.
    pub fn validate(&self) -> (r: Result<(), ShotWorkflowError>)
        ensures
            r == validate_verdict(self@),
    {
        let selection = self.selection.domain()?;
        let check = self.hash_issues.len() == 0;
        let ghost w = self@;
        let ghost arts = w.artifacts;
        let n = self.artifacts.len();
        let mut i: usize = 0;
        while i < n
            invariant
                0 <= i <= n,
                n == self.artifacts@.len(),
                w == self@,
                arts == w.artifacts,
                arts.len() == n,
                check == (w.issues.len() == 0),
                artifacts_verdict(arts, i as int, check) is Ok,
                selection_verdict(w.selection) is Ok,
            decreases n - i,
        {
            let a = &self.artifacts[i];
            assert(a@ == arts[i as int]);
            match a.validate_structure() {
                Ok(()) => {},
                Err(e) => {
                    proof {
                        lemma_artifacts_first_error(arts, i as int, n as int, check);
                    }
                    return Err(e);
                },
            }
            let mut j: usize = 0;
            while j < i
                invariant
                    0 <= j <= i < n,
                    n == self.artifacts@.len(),
                    arts == records_view(self.artifacts@),
                    a@ == arts[i as int],
                    w == self@,
                    arts == w.artifacts,
                    check == (w.issues.len() == 0),
                    selection_verdict(w.selection) is Ok,
                    record_structure_verdict(arts[i as int]) is Ok,
                    artifacts_verdict(arts, i as int, check) is Ok,
                    forall|k: int| 0 <= k < j ==> arts[k].artifact_id != arts[i as int].artifact_id,
                decreases i - j,
            {
                assert(self.artifacts@[j as int]@ == arts[j as int]);
                if text_equals(self.artifacts[j].artifact_id.as_str(), a.artifact_id.as_str()) {
                    proof {
                        assert(artifact_check_step(arts, i as int, check) == Err::<
                            (),
                            ShotWorkflowError,
                        >(ShotWorkflowError::InvalidCanonicalState));
                        lemma_artifacts_first_error(arts, i as int, n as int, check);
                    }
                    return Err(ShotWorkflowError::InvalidCanonicalState);
                }
                j = j + 1;
            }
            if check {
                match a.domain() {
                    Ok(_) => {},
                    Err(e) => {
                        proof {
                            lemma_artifacts_first_error(arts, i as int, n as int, check);
                        }
                        return Err(e);
                    },
                }
            }
            i = i + 1;
        }
        let ghost sel = w.selection;
        let cands = &selection.candidate_artifact_ids;
        let mut k: usize = 0;
        while k < cands.len()
            invariant
                0 <= k <= cands@.len(),
                w == self@,
                arts == w.artifacts,
                sel == w.selection,
                id_views(cands@) == sel.candidates,
                arts == records_view(self.artifacts@),
                selection_verdict(w.selection) is Ok,
                artifacts_verdict(arts, arts.len() as int, w.issues.len() == 0) is Ok,
                forall|m: int|
                    0 <= m < k ==> match lookup(arts, #[trigger] sel.candidates[m]) {
                        Some(a) => is_live(a.status),
                        None => false,
                    },
            decreases cands.len() - k,
        {
            assert(cands@[k as int]@ == sel.candidates[k as int]);
            match find_index(&self.artifacts, cands[k].as_str()) {
                None => {
                    assert(lookup(arts, sel.candidates[k as int]) is None);
                    assert(!selection_consistent(arts, sel));
                    return Err(ShotWorkflowError::InvalidCanonicalState);
                },
                Some(idx) => {
                    assert(self.artifacts@[idx as int]@ == arts[idx as int]);
                    if !status_is_live(self.artifacts[idx].status) {
                        assert(lookup(arts, sel.candidates[k as int]) == Some(arts[idx as int]));
                        assert(!selection_consistent(arts, sel));
                        return Err(ShotWorkflowError::InvalidCanonicalState);
                    }
                },
            }
            k = k + 1;
        }
        match &selection.selected_artifact_id {
            Some(s) => match find_index(&self.artifacts, s.as_str()) {
                None => {
                    assert(!selection_consistent(arts, sel));
                    return Err(ShotWorkflowError::InvalidCanonicalState);
                },
                Some(idx) => {
                    assert(self.artifacts@[idx as int]@ == arts[idx as int]);
                    if !status_is_chosen(self.artifacts[idx].status) {
                        assert(!selection_consistent(arts, sel));
                        return Err(ShotWorkflowError::InvalidCanonicalState);
                    }
                },
            },
            None => {},
        }
        let mut i: usize = 0;
        while i < n
            invariant
                0 <= i <= n,
                n == self.artifacts@.len(),
                w == self@,
                arts == w.artifacts,
                sel == w.selection,
                arts == records_view(self.artifacts@),
                selection_verdict(w.selection) is Ok,
                artifacts_verdict(arts, arts.len() as int, w.issues.len() == 0) is Ok,
                forall|m: int|
                    0 <= m < sel.candidates.len() ==> match lookup(arts, #[trigger] sel.candidates[m]) {
                        Some(a) => is_live(a.status),
                        None => false,
                    },
                match sel.selected {
                    Some(s) => match lookup(arts, s) {
                        Some(a) => is_chosen(a.status),
                        None => false,
                    },
                    None => true,
                },
                match selection.selected_artifact_id {
                    Some(id) => sel.selected == Some(id@),
                    None => sel.selected is None,
                },
                forall|m: int|
                    0 <= m < i && is_chosen(#[trigger] arts[m].status) ==> sel.selected == Some(
                        arts[m].artifact_id,
                    ),
            decreases n - i,
        {
            let a = &self.artifacts[i];
            assert(a@ == arts[i as int]);
            if status_is_chosen(a.status) {
                let same = match &selection.selected_artifact_id {
                    Some(s) => text_equals(s.as_str(), a.artifact_id.as_str()),
                    None => false,
                };
                if !same {
                    assert(is_chosen(arts[i as int].status));
                    assert(sel.selected != Some(arts[i as int].artifact_id));
                    assert(!selection_consistent(arts, sel));
                    return Err(ShotWorkflowError::InvalidCanonicalState);
                }
            }
            i = i + 1;
        }
        Ok(())
    }

    /// Whether some current candidate was generated from another intent.
    pub fn is_stale(&self) -> (r: Result<bool, ShotWorkflowError>)
        ensures
            match r {
                Ok(b) => selection_verdict(self@.selection) is Ok && b == is_stale(self@),
                Err(e) => selection_verdict(self@.selection) == Err::<(), ShotWorkflowError>(e),
            },
    {
        let selection = self.selection.domain()?;
        let ghost w = self@;
        let cands = &selection.candidate_artifact_ids;
        if cands.len() == 0 {
            return Ok(false);
        }
        let current = input_hash_for(self.shot.shot_id.as_str(), self.shot.direction);
        let mut k: usize = 0;
        while k < cands.len()
            invariant
                0 <= k <= cands@.len(),
                w == self@,
                id_views(cands@) == w.selection.candidates,
                selection_verdict(w.selection) is Ok,
                current@ == current_input_hash(w),
                forall|m: int|
                    0 <= m < k ==> !candidate_is_stale(
                        w.artifacts,
                        #[trigger] w.selection.candidates[m],
                        current_input_hash(w),
                    ),
            decreases cands.len() - k,
        {
            assert(cands@[k as int]@ == w.selection.candidates[k as int]);
            let found = find_index(&self.artifacts, cands[k].as_str());
            proof {
                if let Some(idx) = found {
                    assert(self.artifacts@[idx as int]@ == w.artifacts[idx as int]);
                }
            }
            let stale = match found {
                None => true,
                Some(idx) => match &self.artifacts[idx].input_hash {
                    Some(h) => !text_equals(h.as_str(), current.as_str()),
                    None => true,
                },
            };
            if stale {
                assert(candidate_is_stale(
                    w.artifacts,
                    w.selection.candidates[k as int],
                    current_input_hash(w),
                ));
                return Ok(true);
            }
            k = k + 1;
        }
        Ok(false)
    }

    /// The typed approval state of the shot.
    pub fn snapshot(&self) -> (r: Result<ShotApprovalSnapshot, ShotWorkflowError>)
        ensures
            r == snapshot_verdict(self@),
            r matches Ok(s) ==> s.locked == is_locked(self@) && s.stale == is_stale(self@)
                && s.generated == (self@.selection.candidates.len() != 0),
    {
        self.validate()?;
        let ghost w = self@;
        let selection = self.selection.domain()?;
        let cands = &selection.candidate_artifact_ids;
        let count = cands.len();
        let n = self.artifacts.len();
        let mut superseded: usize = 0;
        let mut i: usize = 0;
        while i < n
            invariant
                0 <= i <= n,
                n == self.artifacts@.len(),
                w == self@,
                superseded <= i,
                superseded == count_superseded(w.artifacts, i as int),
            decreases n - i,
        {
            assert(self.artifacts@[i as int]@ == w.artifacts[i as int]);
            if self.artifacts[i].status == ArtifactStatus::Superseded {
                superseded = superseded + 1;
            }
            i = i + 1;
        }
        if count > 0xff || superseded > 0xffff || self.hash_issues.len() > 0xffff {
            return Err(ShotWorkflowError::InvalidCanonicalState);
        }
        let selected_index: Option<u8> = match &selection.selected_artifact_id {
            Some(s) => match find_position(cands, s) {
                Some(p) => {
                    proof {
                        lemma_position_from(w.selection.candidates, s@, 0);
                    }
                    Some(p as u8)
                },
                None => None,
            },
            None => None,
        };
        let locked = match &selection.selected_artifact_id {
            Some(s) => match find_index(&self.artifacts, s.as_str()) {
                Some(idx) => self.artifacts[idx].status == ArtifactStatus::Locked,
                None => false,
            },
            None => false,
        };
        let stale = match self.is_stale() {
            Ok(b) => b,
            Err(e) => {
                return Err(e);
            },
        };
        proof {
            reveal(snapshot_of);
        }
        Ok(
            ShotApprovalSnapshot {
                generated: count != 0,
                stale,
                selected_index,
                locked,
                candidate_count: count as u8,
                direction: self.shot.direction,
                generation_revision: self.shot.generation_revision,
                superseded_count: superseded as u16,
                migration_pending: self.hash_migration_records.len() != 0,
                invalid_hash_count: self.hash_issues.len() as u16,
            },
        )
    }

    /// Refuses writes while a stored hash is diagnosed or a legacy hash
    /// migration is pending.
    pub fn ensure_mutation_allowed(&self) -> (r: Result<(), ShotWorkflowError>)
        ensures
            self@.issues.len() > 0 ==> (r matches Err(e) && refuses_for_issue(e, self@.issues[0])),
            self@.issues.len() == 0 ==> r == match pending_migration_error(self@) {
                Some(e) => Err::<(), ShotWorkflowError>(e),
                None => Ok(()),
            },
    {
        if self.hash_issues.len() > 0 {
            let issue = &self.hash_issues[0];
            assert(issue@ == self@.issues[0]);
            return Err(
                ShotWorkflowError::InvalidStoredHash {
                    artifact_id: issue.artifact_id.clone(),
                    field: issue.field,
                    value: issue.value.clone(),
                },
            );
        }
        if self.hash_migration_records.len() != 0 {
            return Err(ShotWorkflowError::MigrationRequired);
        }
        Ok(())
    }

    /// Makes a publication the current state, once it has been written.
    pub fn commit(&mut self, publication: ShotPublication)
        ensures
            final(self)@ == apply_publication(old(self)@, publication@),
    {
        let ShotPublication { shot, artifacts, selection } = publication;
        if let Some(s) = shot {
            self.shot = s;
        }
        if let Some(a) = artifacts {
            self.artifacts = a;
        }
        if let Some(s) = selection {
            self.selection = s;
        }
    }

    /// Plans a change of creative direction. Existing candidates stay, and
    /// become stale against the new intent.
    pub fn set_direction(&self, manifest_writable: bool, direction: ShotDirection) -> (r: Result<
        ShotPublication,
        ShotWorkflowError,
    >)
        ensures
            self@.issues.len() > 0 ==> (r matches Err(e) && refuses_for_issue(e, self@.issues[0])),
            self@.issues.len() == 0 ==> match r {
                Ok(p) => set_direction_verdict(self@, manifest_writable, direction) == Ok::<
                    PublicationView,
                    ShotWorkflowError,
                >(p@),
                Err(e) => set_direction_verdict(self@, manifest_writable, direction) == Err::<
                    PublicationView,
                    ShotWorkflowError,
                >(e),
            },
    {
        self.ensure_mutation_allowed()?;
        let snapshot = self.snapshot()?;
        if snapshot.locked {
            return Err(ShotWorkflowError::Locked);
        }
        if self.shot.direction == direction {
            return Ok(ShotPublication { shot: None, artifacts: None, selection: None });
        }
        if !manifest_writable {
            return Err(ShotWorkflowError::ManifestNotWritable);
        }
        let mut next = self.shot.clone();
        next.direction = direction;
        Ok(ShotPublication { shot: Some(next), artifacts: None, selection: None })
    }

    /// Plans a new generation: the revision advances, the shot's candidates
    /// in play are superseded, three new candidates are recorded for the
    /// current intent, and the selection points at none of them. What it
    /// publishes has no interrupted generation to recover, and validates
    /// whenever every selected or locked record is a shot candidate.
    pub fn generate(&self, manifest_writable: bool) -> (r: Result<ShotPublication, ShotWorkflowError>)
        ensures
            r matches Ok(p) ==> generation_settled(apply_publication(self@, p@)),
            r matches Ok(p) ==> ((forall|k: int|
                0 <= k < self@.artifacts.len() && is_chosen(#[trigger] self@.artifacts[k].status)
                    ==> self@.artifacts[k].artifact_type == shot_candidate_type())
                ==> validate_verdict(apply_publication(self@, p@)) is Ok),
            self@.issues.len() > 0 ==> (r matches Err(e) && refuses_for_issue(e, self@.issues[0])),
            self@.issues.len() == 0 ==> match r {
                Ok(p) => generate_verdict(self@, manifest_writable) == Ok::<
                    PublicationView,
                    ShotWorkflowError,
                >(p@),
                Err(e) => generate_verdict(self@, manifest_writable) == Err::<
                    PublicationView,
                    ShotWorkflowError,
                >(e),
            },
    {
        self.ensure_mutation_allowed()?;
        let snapshot = self.snapshot()?;
        if snapshot.locked {
            return Err(ShotWorkflowError::Locked);
        }
        if !manifest_writable {
            return Err(ShotWorkflowError::ManifestNotWritable);
        }
        let ghost w = self@;
        let mut next_shot = self.shot.clone();
        if next_shot.generation_revision == 0xffff {
            return Err(ShotWorkflowError::GenerationOverflow);
        }
        next_shot.generation_revision = next_shot.generation_revision + 1;
        let mut next_artifacts = supersede_active_shot_candidates(&self.artifacts)?;
        let input_hash = input_hash_for(next_shot.shot_id.as_str(), next_shot.direction);
        input_hash.assert_valid();
        let ids = match candidate_ids(next_shot.shot_id.as_str(), next_shot.generation_revision) {
            Ok(ids) => ids,
            Err(e) => {
                return Err(ShotWorkflowError::ArtifactId(e));
            },
        };
        let ghost rev = next_shot.generation_revision;
        proof {
            lemma_candidate_texts_distinct(w.shot.shot_id, rev);
            assert(id_views(ids@) =~= candidate_texts(w.shot.shot_id, rev));
        }
        let candidate_artifact_ids = match push_candidates(&mut next_artifacts, &ids, &input_hash) {
            Some(names) => names,
            None => {
                return Err(ShotWorkflowError::InvalidCanonicalState);
            },
        };
        let next_selection = StoredSelectionManifest {
            selected_artifact_id: None,
            candidate_artifact_ids,
            extra: clone_fields(&self.selection.extra),
        };
        let publication = ShotPublication {
            shot: Some(next_shot),
            artifacts: Some(next_artifacts),
            selection: Some(next_selection),
        };
        proof {
            let texts = candidate_texts(w.shot.shot_id, rev);
            assert(w.migrations.len() == 0);
            assert(snapshot_verdict(w) is Ok);
            assert(!is_locked(w));
            assert(supersede_verdict(w.artifacts, w.artifacts.len() as int) is Ok);
            assert(crate::shot_hash::candidate_ids_error(w.shot.shot_id, rev) is None);
            lemma_supersede_keeps_ids(w.artifacts);
            if collides(w.artifacts, texts) {
                let (k, m) = choose|k: int, m: int|
                    0 <= k < w.artifacts.len() && 0 <= m < texts.len() && #[trigger] w.artifacts[k].artifact_id
                        == #[trigger] texts[m];
                assert(supersede_all(w.artifacts)[k].artifact_id == texts[m]);
                assert(collides(supersede_all(w.artifacts), texts));
            }
            assert(!collides(w.artifacts, texts));
            assert(publication@.selection == Some(SelectionView { selected: None, candidates: texts, extra: w.selection.extra }));
            assert(publication@.shot == Some(ShotView { generation_revision: rev, ..w.shot }));
            assert(generate_verdict(w, manifest_writable) == Ok::<PublicationView, ShotWorkflowError>(
                publication@,
            ));
            assert forall|i: int| 0 <= i < 3 implies is_hash_text(
                demo_hash_text(#[trigger] candidate_id_text(w.shot.shot_id, rev, i)),
            ) by {
                assert(id_views(ids@)[i] == candidate_id_text(w.shot.shot_id, rev, i));
            }
            lemma_generation_settles(w, manifest_writable);
            if forall|k: int|
                0 <= k < w.artifacts.len() && is_chosen(#[trigger] w.artifacts[k].status)
                    ==> w.artifacts[k].artifact_type == shot_candidate_type() {
                lemma_generation_keeps_state_valid(w, manifest_writable);
            }
        }
        Ok(publication)
    }
    /// Plans pointing the selection at the candidate at `candidate_index`.
    /// The previously selected candidate, if another, returns to candidate;
    /// the chosen one becomes selected. Candidate identities never change.
    pub fn select(&self, manifest_writable: bool, candidate_index: usize) -> (r: Result<
        ShotPublication,
        ShotWorkflowError,
    >)
        ensures
            self@.issues.len() > 0 ==> (r matches Err(e) && refuses_for_issue(e, self@.issues[0])),
            self@.issues.len() == 0 ==> match r {
                Ok(p) => select_verdict(self@, manifest_writable, candidate_index as int) == Ok::<
                    PublicationView,
                    ShotWorkflowError,
                >(p@),
                Err(e) => select_verdict(self@, manifest_writable, candidate_index as int) == Err::<
                    PublicationView,
                    ShotWorkflowError,
                >(e),
            },
    {
        self.ensure_mutation_allowed()?;
        let snapshot = self.snapshot()?;
        if snapshot.locked {
            return Err(ShotWorkflowError::Locked);
        }
        if !snapshot.generated {
            return Err(ShotWorkflowError::NotGenerated);
        }
        if !manifest_writable {
            return Err(ShotWorkflowError::ManifestNotWritable);
        }
        let ghost w = self@;
        let selection = self.selection.domain()?;
        if candidate_index >= selection.candidate_artifact_ids.len() {
            return Err(ShotWorkflowError::InvalidCandidate);
        }
        let chosen = selection.candidate_artifact_ids[candidate_index].clone();
        assert(chosen@ == w.selection.candidates[candidate_index as int]);
        let mut next_artifacts = clone_records(&self.artifacts);
        match &selection.selected_artifact_id {
            Some(previous) => {
                if !previous.same_as(&chosen) {
                    transition_record(&mut next_artifacts, previous, ArtifactStatus::Candidate)?;
                }
            },
            None => {},
        }
        let ghost released = records_view(next_artifacts@);
        match find_index(&next_artifacts, chosen.as_str()) {
            None => {
                return Err(ShotWorkflowError::InvalidCanonicalState);
            },
            Some(i) => {
                assert(next_artifacts@[i as int]@ == released[i as int]);
                if next_artifacts[i].status == ArtifactStatus::Candidate {
                    transition_record(&mut next_artifacts, &chosen, ArtifactStatus::Selected)?;
                }
            },
        }
        let mut next_selection = self.selection.clone();
        proof {
            assert(w.selection.candidates.contains(chosen@));
        }
        next_selection.select(&chosen)?;
        Ok(
            ShotPublication {
                shot: None,
                artifacts: Some(next_artifacts),
                selection: Some(next_selection),
            },
        )
    }

    /// Plans locking the current selection; a stale selection must be
    /// regenerated first.
    pub fn lock(&self, manifest_writable: bool) -> (r: Result<ShotPublication, ShotWorkflowError>)
        ensures
            self@.issues.len() > 0 ==> (r matches Err(e) && refuses_for_issue(e, self@.issues[0])),
            self@.issues.len() == 0 ==> match r {
                Ok(p) => lock_verdict(self@, manifest_writable) == Ok::<
                    PublicationView,
                    ShotWorkflowError,
                >(p@),
                Err(e) => lock_verdict(self@, manifest_writable) == Err::<
                    PublicationView,
                    ShotWorkflowError,
                >(e),
            },
    {
        self.ensure_mutation_allowed()?;
        let snapshot = self.snapshot()?;
        if snapshot.locked {
            return Err(ShotWorkflowError::AlreadyLocked);
        }
        if snapshot.stale {
            return Err(ShotWorkflowError::StaleSelection);
        }
        if !manifest_writable {
            return Err(ShotWorkflowError::ManifestNotWritable);
        }
        let selection = self.selection.domain()?;
        match &selection.selected_artifact_id {
            None => Err(ShotWorkflowError::NoSelection),
            Some(selected) => {
                let mut next_artifacts = clone_records(&self.artifacts);
                transition_record(&mut next_artifacts, selected, ArtifactStatus::Locked)?;
                Ok(ShotPublication { shot: None, artifacts: Some(next_artifacts), selection: None })
            },
        }
    }

    /// Plans discarding the shot's active approval state: the direction
    /// returns to its default, the shot's candidates in play are superseded
    /// (their lineage stays), and the selection is emptied.
    pub fn reset(&self, manifest_writable: bool) -> (r: Result<ShotPublication, ShotWorkflowError>)
        ensures
            self@.issues.len() > 0 ==> (r matches Err(e) && refuses_for_issue(e, self@.issues[0])),
            self@.issues.len() == 0 ==> match r {
                Ok(p) => reset_verdict(self@, manifest_writable) == Ok::<
                    PublicationView,
                    ShotWorkflowError,
                >(p@),
                Err(e) => reset_verdict(self@, manifest_writable) == Err::<
                    PublicationView,
                    ShotWorkflowError,
                >(e),
            },
    {
        self.ensure_mutation_allowed()?;
        if !manifest_writable {
            return Err(ShotWorkflowError::ManifestNotWritable);
        }
        let mut next_shot = self.shot.clone();
        next_shot.direction = ShotDirection::Reaction;
        let next_artifacts = supersede_active_shot_candidates(&self.artifacts)?;
        let next_selection = StoredSelectionManifest {
            selected_artifact_id: None,
            candidate_artifact_ids: Vec::new(),
            extra: clone_fields(&self.selection.extra),
        };
        proof {
            assert(next_selection@.candidates =~= Seq::<Seq<char>>::empty());
        }
        Ok(
            ShotPublication {
                shot: Some(next_shot),
                artifacts: Some(next_artifacts),
                selection: Some(next_selection),
            },
        )
    }
    /// Loads a shot from what its files held (`None` for a missing file):
    /// legacy hashes are normalized in memory, unknown ones diagnosed, and,
    /// when neither was found, interrupted publications are recovered
    /// before the state is validated.
    pub fn load(
        shot_number: u32,
        shot: Option<ShotProductionManifest>,
        artifacts: Option<Vec<StoredArtifactRecord>>,
        artifacts_bytes: Option<Vec<u8>>,
        selection: Option<StoredSelectionManifest>,
    ) -> (r: Result<ShotWorkflow, ShotWorkflowError>)
        ensures
            match r {
                Ok(w) => load_verdict(
                    shot_number,
                    opt_shot_view(shot),
                    match artifacts {
                        Some(a) => Some(records_view(a@)),
                        None => None,
                    },
                    match artifacts_bytes {
                        Some(b) => Some(b@),
                        None => None,
                    },
                    match selection {
                        Some(s) => Some(s@),
                        None => None,
                    },
                ) == Ok::<WorkflowView, ShotWorkflowError>(w@),
                Err(e) => load_verdict(
                    shot_number,
                    opt_shot_view(shot),
                    match artifacts {
                        Some(a) => Some(records_view(a@)),
                        None => None,
                    },
                    match artifacts_bytes {
                        Some(b) => Some(b@),
                        None => None,
                    },
                    match selection {
                        Some(s) => Some(s@),
                        None => None,
                    },
                ) == Err::<WorkflowView, ShotWorkflowError>(e),
            },
    {
        let shot = accept_shot(shot_number, shot)?;
        let artifacts = match artifacts {
            Some(a) => a,
            None => {
                let a: Vec<StoredArtifactRecord> = Vec::new();
                assert(records_view(a@) =~= Seq::<RecordView>::empty());
                a
            },
        };
        let selection = match selection {
            Some(s) => s,
            None => {
                let s = StoredSelectionManifest::default();
                assert(s@.candidates =~= Seq::<Seq<char>>::empty());
                assert(s@.extra =~= Seq::<(Seq<char>, Seq<char>)>::empty());
                s
            },
        };
        let (records, issues, migrations) = normalize_legacy_demo_hashes(
            &artifacts,
            shot.shot_id.as_str(),
        )?;
        let legacy = if migrations.len() == 0 {
            None
        } else {
            artifacts_bytes
        };
        let mut w = ShotWorkflow {
            shot_number,
            shot,
            artifacts: records,
            selection,
            hash_issues: issues,
            hash_migration_records: migrations,
            legacy_artifacts_bytes: legacy,
        };
        if w.hash_issues.len() == 0 && w.hash_migration_records.len() == 0 {
            w.recover_partial_publication()?;
        }
        w.validate()?;
        Ok(w)
    }

    /// Recovers whatever an interrupted publication left; on failure the
    /// state is unchanged.
    pub fn recover_partial_publication(&mut self) -> (r: Result<(), ShotWorkflowError>)
        ensures
            match r {
                Ok(()) => recover_verdict(old(self)@) == Ok::<WorkflowView, ShotWorkflowError>(
                    final(self)@,
                ),
                Err(e) => recover_verdict(old(self)@) == Err::<WorkflowView, ShotWorkflowError>(e)
                    && final(self)@ == old(self)@,
            },
    {
        let generation = recover_generation_selection(&self.shot, &self.artifacts, &self.selection)?;
        let cleared = recover_cleared_selection(&self.artifacts, &generation);
        let reconciled = reconcile_selection_statuses(&self.artifacts, &cleared)?;
        self.selection = cleared;
        self.artifacts = reconciled;
        Ok(())
    }

    /// Plans the explicit migration of legacy hashes. `None` when nothing is
    /// pending; a diagnosed hash refuses it.
    pub fn migrate_legacy_hashes(&self, manifest_writable: bool) -> (r: Result<
        Option<MigrationPlan>,
        ShotWorkflowError,
    >)
        ensures
            self@.issues.len() > 0 ==> (r matches Err(e) && refuses_for_issue(e, self@.issues[0])),
            self@.issues.len() == 0 ==> match r {
                Ok(None) => self@.migrations.len() == 0,
                Ok(Some(p)) => self@.migrations.len() != 0 && migration_plan_error(
                    self@,
                    manifest_writable,
                ) is None && Some(p.original@) == self@.legacy_bytes && p.backup_path@
                    == shot_path_text(self@.shot_number, backup_file_text()) && p.artifacts_path@
                    == shot_path_text(self@.shot_number, artifacts_file_text()) && records_view(
                    p.artifacts@,
                ) == self@.artifacts,
                Err(e) => self@.migrations.len() != 0 && migration_plan_error(
                    self@,
                    manifest_writable,
                ) == Some(e),
            },
    {
        if self.hash_issues.len() > 0 {
            return match self.ensure_mutation_allowed() {
                Err(e) => Err(e),
                Ok(()) => Err(ShotWorkflowError::InvalidCanonicalState),
            };
        }
        if self.hash_migration_records.len() == 0 {
            return Ok(None);
        }
        if !manifest_writable {
            return Err(ShotWorkflowError::ManifestNotWritable);
        }
        let original = match &self.legacy_artifacts_bytes {
            Some(bytes) => bytes.clone(),
            None => {
                return Err(ShotWorkflowError::InvalidCanonicalState);
            },
        };
        proof {
            reveal_strlit("artifacts.pre-sha256-migration.json");
            reveal_strlit("artifacts.json");
            assert("artifacts.pre-sha256-migration.json"@ =~= backup_file_text());
            assert("artifacts.json"@ =~= artifacts_file_text());
        }
        let backup_path = match shot_path(self.shot_number, "artifacts.pre-sha256-migration.json") {
            Ok(p) => p,
            Err(e) => {
                return Err(ShotWorkflowError::Path(e));
            },
        };
        let artifacts_path = match shot_path(self.shot_number, "artifacts.json") {
            Ok(p) => p,
            Err(e) => {
                return Err(ShotWorkflowError::Path(e));
            },
        };
        Ok(
            Some(
                MigrationPlan {
                    backup_path,
                    original,
                    artifacts_path,
                    artifacts: clone_records(&self.artifacts),
                },
            ),
        )
    }

    /// Finishes a migration whose files were written: the report lists the
    /// rewritten hashes and the backup; the pending migrations are cleared,
    /// interrupted publications recovered and the state validated. On
    /// failure the state is unchanged.
    pub fn complete_migration(&mut self) -> (r: Result<ShotMigrationReport, ShotWorkflowError>)
        ensures
            match r {
                Ok(report) => complete_migration_verdict(old(self)@) == Ok::<
                    WorkflowView,
                    ShotWorkflowError,
                >(final(self)@) && opt_text_view(report.backup_path) == Some(
                    shot_path_text(old(self)@.shot_number, backup_file_text()),
                ) && migrations_view(report.rewritten@) == old(self)@.migrations,
                Err(e) => complete_migration_verdict(old(self)@) == Err::<
                    WorkflowView,
                    ShotWorkflowError,
                >(e) && final(self)@ == old(self)@,
            },
    {
        proof {
            reveal_strlit("artifacts.pre-sha256-migration.json");
            assert("artifacts.pre-sha256-migration.json"@ =~= backup_file_text());
        }
        let backup_path = match shot_path(self.shot_number, "artifacts.pre-sha256-migration.json") {
            Ok(p) => p,
            Err(e) => {
                return Err(ShotWorkflowError::Path(e));
            },
        };
        let report = ShotMigrationReport {
            backup_path: Some(backup_path.as_str().to_owned()),
            rewritten: clone_migrations(&self.hash_migration_records),
        };
        let mut next = ShotWorkflow {
            shot_number: self.shot_number,
            shot: self.shot.clone(),
            artifacts: clone_records(&self.artifacts),
            selection: self.selection.clone(),
            hash_issues: clone_issues(&self.hash_issues),
            hash_migration_records: Vec::new(),
            legacy_artifacts_bytes: None,
        };
        assert(next@.migrations =~= Seq::<MigrationView>::empty());
        next.recover_partial_publication()?;
        next.validate()?;
        *self = next;
        Ok(report)
    }
}

} // verus!
