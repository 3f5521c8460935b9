use vstd::prelude::*;
use vstd::string::*;

use crate::artifact::{ArtifactId, ContentHash, InputHash};
use crate::lifecycle::{id_views, ArtifactStatus};
use crate::shot::ShotDirection;
use crate::shot_error::{HashField, ShotWorkflowError};
use crate::shot_hash::{
    candidate_ids, candidate_texts, demo_content_hash, input_hash_for,
    legacy_input_hash_direction, legacy_intent_head, legacy_intent_text, legacy_key,
};
use crate::shot_model::{
    all_superseded, dependency_issues, generation_published, is_live, legacy_demo_text,
    legacy_direction, lookup, normalize_upto, normalized_record, reconcile_record,
    reconcile_upto, reconcile_verdict, record_issues, record_migrations, recover_cleared,
    recover_generation_verdict, shot_candidate_type, Normalized,
};
use crate::shot_records::{
    clone_fields, record_structure_verdict, records_view, selection_verdict, strings_view,
    RecordView, SelectionView, ShotProductionManifest, StoredArtifactRecord,
    StoredSelectionManifest,
};
use crate::shot_text::{push_str, text_equals};
use crate::shot_workflow::{
    find_index, is_shot_candidate, issues_view, migrations_view, ShotHashIssue,
    ShotHashMigrationRecord,
};

verus! {

proof fn lemma_legacy_texts_distinct(shot_id: Seq<char>, d1: ShotDirection, d2: ShotDirection)
    requires
        d1 != d2,
    ensures
        legacy_intent_text(shot_id, d1) != legacy_intent_text(shot_id, d2),
{
    let k = legacy_intent_head(shot_id).len() as int;
    assert(legacy_intent_text(shot_id, d1)[k] == legacy_key(d1)[0]);
    assert(legacy_intent_text(shot_id, d2)[k] == legacy_key(d2)[0]);
}

/// The direction a legacy intent text of this shot names, if it is one.
pub fn legacy_direction_of(shot_id: &str, value: &str) -> (d: Option<ShotDirection>)
    ensures
        d == legacy_direction(shot_id@, value@),
{
    let d = legacy_input_hash_direction(shot_id, value);
    proof {
        if let Some(x) = d {
            if x != ShotDirection::Reaction {
                lemma_legacy_texts_distinct(shot_id@, x, ShotDirection::Reaction);
            }
            if x != ShotDirection::SpatialClarity {
                lemma_legacy_texts_distinct(shot_id@, x, ShotDirection::SpatialClarity);
            }
            if x != ShotDirection::Intimacy {
                lemma_legacy_texts_distinct(shot_id@, x, ShotDirection::Intimacy);
            }
        } else {
            assert(value@ != legacy_intent_text(shot_id@, ShotDirection::Reaction));
            assert(value@ != legacy_intent_text(shot_id@, ShotDirection::SpatialClarity));
            assert(value@ != legacy_intent_text(shot_id@, ShotDirection::Intimacy));
            assert(value@ != legacy_intent_text(shot_id@, ShotDirection::Tension));
        }
    }
    d
}

/// The diagnoses and migrations of one record, with its legacy hashes
/// replaced.
fn normalize_record(a: &StoredArtifactRecord, shot_id: &str) -> (out: (
    StoredArtifactRecord,
    Vec<ShotHashIssue>,
    Vec<ShotHashMigrationRecord>,
))
    requires
        record_structure_verdict(a@) is Ok,
    ensures
        out.0@ == normalized_record(a@, shot_id@),
        issues_view(out.1@) == record_issues(a@, shot_id@),
        migrations_view(out.2@) == record_migrations(a@, shot_id@),
{
    let mut rec = a.clone();
    let mut issues: Vec<ShotHashIssue> = Vec::new();
    let mut migrations: Vec<ShotHashMigrationRecord> = Vec::new();
    let candidate = is_shot_candidate(a);
    if !ContentHash::new(a.content_hash.as_str()).is_ok() {
        let mut legacy = String::from_str("demo:");
        proof {
            reveal_strlit("demo:");
        }
        push_str(&mut legacy, a.artifact_id.as_str());
        assert(legacy@ =~= legacy_demo_text(a@.artifact_id));
        let migrates = candidate && text_equals(a.content_hash.as_str(), legacy.as_str());
        match ArtifactId::new(a.artifact_id.as_str()) {
            Ok(id) => {
                if migrates {
                    let to = demo_content_hash(&id).as_str().to_owned();
                    migrations.push(
                        ShotHashMigrationRecord {
                            artifact_id: a.artifact_id.clone(),
                            field: HashField::ContentHash,
                            from: a.content_hash.clone(),
                            to: to.clone(),
                        },
                    );
                    rec.content_hash = to;
                } else {
                    issues.push(
                        ShotHashIssue {
                            artifact_id: a.artifact_id.clone(),
                            field: HashField::ContentHash,
                            value: a.content_hash.clone(),
                        },
                    );
                }
            },
            Err(_) => {
                proof {
                    assert(false);
                }
            },
        }
    }
    let ghost after_content_issues = issues_view(issues@);
    let ghost after_content_migrations = migrations_view(migrations@);
    match &a.input_hash {
        Some(v) => {
            if !InputHash::new(v.as_str()).is_ok() {
                let direction = if candidate {
                    legacy_direction_of(shot_id, v.as_str())
                } else {
                    None
                };
                match direction {
                    Some(d) => {
                        let to = input_hash_for(shot_id, d).as_str().to_owned();
                        migrations.push(
                            ShotHashMigrationRecord {
                                artifact_id: a.artifact_id.clone(),
                                field: HashField::InputHash,
                                from: v.clone(),
                                to: to.clone(),
                            },
                        );
                        rec.input_hash = Some(to);
                    },
                    None => {
                        issues.push(
                            ShotHashIssue {
                                artifact_id: a.artifact_id.clone(),
                                field: HashField::InputHash,
                                value: v.clone(),
                            },
                        );
                    },
                }
            }
        },
        None => {},
    }
    proof {
        assert(migrations_view(migrations@) =~= record_migrations(a@, shot_id@));
        assert(rec@ =~= normalized_record(a@, shot_id@));
    }
    let ghost head_issues = issues_view(issues@);
    let ghost deps = a@.dependencies;
    let mut i: usize = 0;
    while i < a.dependencies.len()
        invariant
            0 <= i <= a.dependencies@.len(),
            deps == a@.dependencies,
            deps.len() == a.dependencies@.len(),
            issues_view(issues@) == head_issues + dependency_issues(a@.artifact_id, deps, i as int),
        decreases a.dependencies.len() - i,
    {
        let dep = &a.dependencies[i];
        assert(dep@ == deps[i as int]);
        let ghost before = issues_view(issues@);
        if !ContentHash::new(dep.content_hash.as_str()).is_ok() {
            let issue = ShotHashIssue {
                artifact_id: a.artifact_id.clone(),
                field: HashField::DependencyContentHash,
                value: dep.content_hash.clone(),
            };
            let ghost iv = issue@;
            issues.push(issue);
            assert(issues_view(issues@) =~= before.push(iv));
        } else {
            assert(issues_view(issues@) =~= before);
        }
        assert(issues_view(issues@) =~= head_issues + dependency_issues(
            a@.artifact_id,
            deps,
            i + 1,
        ));
        i = i + 1;
    }
    assert(issues_view(issues@) =~= record_issues(a@, shot_id@));
    (rec, issues, migrations)
}

proof fn lemma_normalize_error_stays(
    arts: Seq<RecordView>,
    shot_id: Seq<char>,
    i: int,
    n: int,
)
    requires
        0 <= i <= n,
        normalize_upto(arts, shot_id, i) is Err,
    ensures
        normalize_upto(arts, shot_id, n) == normalize_upto(arts, shot_id, i),
    decreases n,
{
    if n > i {
        lemma_normalize_error_stays(arts, shot_id, i, n - 1);
    }
}

/// Replaces the legacy demo hashes of shot candidates by canonical ones and
/// diagnoses every other non-canonical hash; each record must first pass
/// its structural check.
pub fn normalize_legacy_demo_hashes(arts: &Vec<StoredArtifactRecord>, shot_id: &str) -> (r: Result<
    (Vec<StoredArtifactRecord>, Vec<ShotHashIssue>, Vec<ShotHashMigrationRecord>),
    ShotWorkflowError,
>)
    ensures
        match r {
            Ok(out) => normalize_upto(records_view(arts@), shot_id@, arts@.len() as int) == Ok::<
                Normalized,
                ShotWorkflowError,
            >(
                Normalized {
                    records: records_view(out.0@),
                    issues: issues_view(out.1@),
                    migrations: migrations_view(out.2@),
                },
            ),
            Err(e) => normalize_upto(records_view(arts@), shot_id@, arts@.len() as int) == Err::<
                Normalized,
                ShotWorkflowError,
            >(e),
        },
{
    let ghost v = records_view(arts@);
    let mut records: Vec<StoredArtifactRecord> = Vec::new();
    let mut issues: Vec<ShotHashIssue> = Vec::new();
    let mut migrations: Vec<ShotHashMigrationRecord> = Vec::new();
    assert(records_view(records@) =~= Seq::<RecordView>::empty());
    assert(issues_view(issues@) =~= Seq::<crate::shot_model::IssueView>::empty());
    assert(migrations_view(migrations@) =~= Seq::<crate::shot_model::MigrationView>::empty());
    let mut i: usize = 0;
    while i < arts.len()
        invariant
            0 <= i <= arts@.len(),
            v == records_view(arts@),
            normalize_upto(v, shot_id@, i as int) == Ok::<Normalized, ShotWorkflowError>(
                Normalized {
                    records: records_view(records@),
                    issues: issues_view(issues@),
                    migrations: migrations_view(migrations@),
                },
            ),
        decreases arts.len() - i,
    {
        let a = &arts[i];
        assert(a@ == v[i as int]);
        match a.validate_structure() {
            Ok(()) => {},
            Err(e) => {
                proof {
                    lemma_normalize_error_stays(v, shot_id@, i + 1, v.len() as int);
                }
                return Err(e);
            },
        }
        let (rec, mut more_issues, mut more_migrations) = normalize_record(a, shot_id);
        let ghost before_records = records_view(records@);
        let ghost before_issues = issues_view(issues@);
        let ghost before_migrations = migrations_view(migrations@);
        let ghost add_issues = issues_view(more_issues@);
        let ghost add_migrations = migrations_view(more_migrations@);
        records.push(rec);
        issues.append(&mut more_issues);
        migrations.append(&mut more_migrations);
        proof {
            assert(records_view(records@) =~= before_records.push(
                normalized_record(v[i as int], shot_id@),
            ));
            assert(issues_view(issues@) =~= before_issues + add_issues);
            assert(migrations_view(migrations@) =~= before_migrations + add_migrations);
        }
        i = i + 1;
    }
    Ok((records, issues, migrations))
}

/// Whether two lists of texts are equal.
fn strings_equal(a: &Vec<String>, b: &Vec<String>) -> (r: bool)
    ensures
        r == (strings_view(a@) == strings_view(b@)),
{
    if a.len() != b.len() {
        proof {
            assert(strings_view(a@).len() != strings_view(b@).len());
        }
        return false;
    }
    let mut i: usize = 0;
    while i < a.len()
        invariant
            0 <= i <= a@.len(),
            a@.len() == b@.len(),
            forall|j: int| 0 <= j < i ==> a@[j]@ == b@[j]@,
        decreases a.len() - i,
    {
        if !(a[i] == b[i]) {
            proof {
                assert(strings_view(a@)[i as int] != strings_view(b@)[i as int]);
            }
            return false;
        }
        i = i + 1;
    }
    assert(strings_view(a@) =~= strings_view(b@));
    true
}

/// Recovers a generation whose shot revision was published but whose
/// selection pointer was not.
pub fn recover_generation_selection(
    shot: &ShotProductionManifest,
    arts: &Vec<StoredArtifactRecord>,
    sel: &StoredSelectionManifest,
) -> (r: Result<StoredSelectionManifest, ShotWorkflowError>)
    ensures
        match r {
            Ok(s) => recover_generation_verdict(shot@, records_view(arts@), sel@) == Ok::<
                SelectionView,
                ShotWorkflowError,
            >(s@),
            Err(e) => recover_generation_verdict(shot@, records_view(arts@), sel@) == Err::<
                SelectionView,
                ShotWorkflowError,
            >(e),
        },
{
    if shot.generation_revision == 0 {
        return Ok(sel.clone());
    }
    let expected = match candidate_ids(shot.shot_id.as_str(), shot.generation_revision) {
        Ok(ids) => ids,
        Err(e) => {
            return Err(ShotWorkflowError::ArtifactId(e));
        },
    };
    let ghost texts = candidate_texts(shot@.shot_id, shot.generation_revision);
    assert(id_views(expected@) =~= texts);
    let mut expected_strings: Vec<String> = Vec::new();
    let mut i: usize = 0;
    while i < expected.len()
        invariant
            0 <= i <= expected@.len(),
            expected_strings@.len() == i,
            forall|j: int| 0 <= j < i ==> #[trigger] expected_strings@[j]@ == expected@[j]@,
        decreases expected.len() - i,
    {
        expected_strings.push(expected[i].to_string());
        i = i + 1;
    }
    assert(strings_view(expected_strings@) =~= texts);
    if strings_equal(&sel.candidate_artifact_ids, &expected_strings) {
        return Ok(sel.clone());
    }
    let ghost v = records_view(arts@);
    let mut published = true;
    let mut k: usize = 0;
    while k < expected.len()
        invariant
            0 <= k <= expected@.len(),
            expected@.len() == 3,
            v == records_view(arts@),
            id_views(expected@) == texts,
            published ==> forall|m: int|
                0 <= m < k ==> match lookup(v, #[trigger] texts[m]) {
                    Some(a) => a.artifact_type == shot_candidate_type() && is_live(a.status),
                    None => false,
                },
            !published ==> !generation_published(v, texts),
        decreases expected.len() - k,
    {
        assert(expected@[k as int]@ == texts[k as int]);
        if published {
            let ok = match find_index(arts, expected[k].as_str()) {
                None => false,
                Some(idx) => {
                    assert(arts@[idx as int]@ == v[idx as int]);
                    let s = arts[idx].status;
                    is_shot_candidate(&arts[idx]) && (s == ArtifactStatus::Candidate || s
                        == ArtifactStatus::Selected || s == ArtifactStatus::Locked)
                },
            };
            if !ok {
                assert(!generation_published(v, texts)) by {
                    assert(!match lookup(v, texts[k as int]) {
                        Some(a) => a.artifact_type == shot_candidate_type() && is_live(a.status),
                        None => false,
                    });
                }
                published = false;
            }
        }
        k = k + 1;
    }
    if published {
        Ok(
            StoredSelectionManifest {
                selected_artifact_id: None,
                candidate_artifact_ids: expected_strings,
                extra: clone_fields(&sel.extra),
            },
        )
    } else {
        Ok(sel.clone())
    }
}

/// Clears a selection whose candidates were all superseded by a reset whose
/// selection pointer was not published.
pub fn recover_cleared_selection(
    arts: &Vec<StoredArtifactRecord>,
    sel: &StoredSelectionManifest,
) -> (s: StoredSelectionManifest)
    ensures
        s@ == recover_cleared(records_view(arts@), sel@),
{
    let ghost v = records_view(arts@);
    let ghost cands = sel@.candidates;
    let n = sel.candidate_artifact_ids.len();
    if n == 0 {
        return sel.clone();
    }
    let mut all = true;
    let mut k: usize = 0;
    while k < n
        invariant
            0 <= k <= n,
            n == sel.candidate_artifact_ids@.len(),
            cands == sel@.candidates,
            cands.len() == n,
            v == records_view(arts@),
            all ==> forall|m: int|
                0 <= m < k ==> crate::artifact::artifact_id_verdict(#[trigger] cands[m]) is Ok
                    && match lookup(v, cands[m]) {
                    Some(a) => a.status == ArtifactStatus::Superseded,
                    None => false,
                },
            !all ==> !all_superseded(v, cands),
        decreases n - k,
    {
        let c = &sel.candidate_artifact_ids[k];
        assert(c@ == cands[k as int]);
        if all {
            let ok = match ArtifactId::new(c.as_str()) {
                Err(_) => false,
                Ok(_) => match find_index(arts, c.as_str()) {
                    None => false,
                    Some(idx) => {
                        assert(arts@[idx as int]@ == v[idx as int]);
                        arts[idx].status == ArtifactStatus::Superseded
                    },
                },
            };
            if !ok {
                assert(!(crate::artifact::artifact_id_verdict(cands[k as int]) is Ok && match lookup(
                    v,
                    cands[k as int],
                ) {
                    Some(a) => a.status == ArtifactStatus::Superseded,
                    None => false,
                }));
                all = false;
            }
        }
        k = k + 1;
    }
    if all {
        let cleared = StoredSelectionManifest {
            selected_artifact_id: None,
            candidate_artifact_ids: Vec::new(),
            extra: clone_fields(&sel.extra),
        };
        assert(cleared@.candidates =~= Seq::<Seq<char>>::empty());
        cleared
    } else {
        sel.clone()
    }
}

/// Whether a list of identifiers holds this text.
fn contains_id(ids: &Vec<ArtifactId>, s: &str) -> (r: bool)
    ensures
        r == id_views(ids@).contains(s@),
{
    let mut i: usize = 0;
    while i < ids.len()
        invariant
            0 <= i <= ids@.len(),
            forall|j: int| 0 <= j < i ==> ids@[j]@ != s@,
        decreases ids.len() - i,
    {
        if text_equals(ids[i].as_str(), s) {
            assert(id_views(ids@)[i as int] == s@);
            return true;
        }
        i = i + 1;
    }
    proof {
        if id_views(ids@).contains(s@) {
            let j = choose|j: int| 0 <= j < id_views(ids@).len() && id_views(ids@)[j] == s@;
            assert(ids@[j]@ == s@);
        }
    }
    false
}

proof fn lemma_reconcile_error_stays(arts: Seq<RecordView>, sel: SelectionView, i: int, n: int)
    requires
        0 <= i <= n,
        reconcile_upto(arts, sel, i) is Err,
    ensures
        reconcile_upto(arts, sel, n) == reconcile_upto(arts, sel, i),
    decreases n,
{
    if n > i {
        lemma_reconcile_error_stays(arts, sel, i, n - 1);
    }
}

/// Brings every record's status in line with the selection pointer.
pub fn reconcile_selection_statuses(
    arts: &Vec<StoredArtifactRecord>,
    sel: &StoredSelectionManifest,
) -> (r: Result<Vec<StoredArtifactRecord>, ShotWorkflowError>)
    ensures
        match r {
            Ok(out) => reconcile_verdict(records_view(arts@), sel@) == Ok::<
                Seq<RecordView>,
                ShotWorkflowError,
            >(records_view(out@)),
            Err(e) => reconcile_verdict(records_view(arts@), sel@) == Err::<
                Seq<RecordView>,
                ShotWorkflowError,
            >(e),
        },
{
    let selection = sel.domain()?;
    let ghost v = records_view(arts@);
    let ghost s = sel@;
    let mut out: Vec<StoredArtifactRecord> = Vec::new();
    assert(records_view(out@) =~= Seq::<RecordView>::empty());
    let mut i: usize = 0;
    while i < arts.len()
        invariant
            0 <= i <= arts@.len(),
            v == records_view(arts@),
            s == sel@,
            selection_verdict(s) is Ok,
            id_views(selection.candidate_artifact_ids@) == s.candidates,
            match selection.selected_artifact_id {
                Some(id) => s.selected == Some(id@),
                None => s.selected is None,
            },
            reconcile_upto(v, s, i as int) == Ok::<Seq<RecordView>, ShotWorkflowError>(
                records_view(out@),
            ),
        decreases arts.len() - i,
    {
        let a = &arts[i];
        assert(a@ == v[i as int]);
        let is_candidate = contains_id(&selection.candidate_artifact_ids, a.artifact_id.as_str());
        let is_selected = match &selection.selected_artifact_id {
            Some(id) => text_equals(id.as_str(), a.artifact_id.as_str()),
            None => false,
        };
        let mut rec = a.clone();
        let step: Result<(), ShotWorkflowError> = if is_candidate && is_selected {
            if a.status == ArtifactStatus::Candidate {
                rec.transition(ArtifactStatus::Selected)
            } else if a.status == ArtifactStatus::Selected || a.status == ArtifactStatus::Locked {
                Ok(())
            } else {
                Err(ShotWorkflowError::InvalidCanonicalState)
            }
        } else if is_candidate {
            if a.status == ArtifactStatus::Selected {
                rec.transition(ArtifactStatus::Candidate)
            } else if a.status == ArtifactStatus::Candidate {
                Ok(())
            } else {
                Err(ShotWorkflowError::InvalidCanonicalState)
            }
        } else if a.status == ArtifactStatus::Selected || a.status == ArtifactStatus::Locked {
            Err(ShotWorkflowError::InvalidCanonicalState)
        } else {
            Ok(())
        };
        match step {
            Ok(()) => {},
            Err(e) => {
                proof {
                    assert(reconcile_record(v[i as int], s) == Err::<RecordView, ShotWorkflowError>(
                        e,
                    ));
                    lemma_reconcile_error_stays(v, s, i + 1, v.len() as int);
                }
                return Err(e);
            },
        }
        assert(reconcile_record(v[i as int], s) == Ok::<RecordView, ShotWorkflowError>(rec@));
        let ghost before = records_view(out@);
        out.push(rec);
        assert(records_view(out@) =~= before.push(rec@));
        i = i + 1;
    }
    Ok(out)
}

} // verus!
