use vstd::prelude::*;

use crate::lifecycle::ArtifactStatus;
use crate::shot::ShotDirection;
use crate::shot_error::ShotWorkflowError;
use crate::shot_hash::{candidate_id_text, candidate_label, candidate_texts};
use crate::shot_model::{
    apply_publication, collides, current_input_hash, first_index, generate_verdict, is_locked,
    is_stale, lemma_first_index, lock_verdict, lookup, mark_chosen, new_candidate,
    release_previous, reset_verdict, select_verdict, set_direction_verdict, set_status_of,
    snapshot_verdict, supersede_all, superseded_record, WorkflowView,
};
use crate::shot_records::RecordView;

verus! {

/// Moving one record to another status keeps every identifier, every other
/// record, and the length.
pub proof fn lemma_set_status_keeps_identity(
    arts: Seq<RecordView>,
    id: Seq<char>,
    status: ArtifactStatus,
)
    ensures
        set_status_of(arts, id, status).len() == arts.len(),
        forall|k: int|
            0 <= k < arts.len() ==> (#[trigger] set_status_of(arts, id, status)[k]).artifact_id
                == arts[k].artifact_id,
        forall|k: int|
            0 <= k < arts.len() && arts[k].artifact_id != id ==> #[trigger] set_status_of(
                arts,
                id,
                status,
            )[k] == arts[k],
{
    lemma_first_index(arts, id);
}

/// Selecting is a pointer change: the candidate list of the shot stays as it
/// was, the pointer names the chosen candidate, the shot manifest is not
/// touched, and every record keeps its identity.
pub proof fn lemma_selection_keeps_candidate_identity(w: WorkflowView, writable: bool, index: int)
    requires
        0 <= index,
        select_verdict(w, writable, index) is Ok,
    ensures
        ({
            let after = apply_publication(w, select_verdict(w, writable, index)->Ok_0);
            &&& after.selection.candidates == w.selection.candidates
            &&& after.selection.selected == Some(w.selection.candidates[index])
            &&& after.shot == w.shot
            &&& after.artifacts.len() == w.artifacts.len()
            &&& forall|k: int|
                0 <= k < w.artifacts.len() ==> (#[trigger] after.artifacts[k]).artifact_id
                    == w.artifacts[k].artifact_id
        }),
{
    let chosen = w.selection.candidates[index];
    let released = release_previous(w.artifacts, w.selection.selected, chosen)->Ok_0;
    match w.selection.selected {
        Some(p) => {
            lemma_set_status_keeps_identity(w.artifacts, p, ArtifactStatus::Candidate);
        },
        None => {},
    }
    lemma_set_status_keeps_identity(released, chosen, ArtifactStatus::Selected);
}

/// A change of direction changes only the direction: candidates, records
/// and the selection stay, so that they become stale rather than lost.
pub proof fn lemma_direction_change_keeps_candidates(
    w: WorkflowView,
    writable: bool,
    direction: ShotDirection,
)
    requires
        set_direction_verdict(w, writable, direction) is Ok,
    ensures
        apply_publication(w, set_direction_verdict(w, writable, direction)->Ok_0) == (WorkflowView {
            shot: crate::shot_records::ShotView { direction, ..w.shot },
            ..w
        }),
{
}

/// A locked shot refuses every change of its approval state but a reset:
/// direction, generation and selection report `Locked`, and locking again
/// reports `AlreadyLocked`.
pub proof fn lemma_locked_shot_refuses_changes(
    w: WorkflowView,
    writable: bool,
    direction: ShotDirection,
    index: int,
)
    requires
        w.migrations.len() == 0,
        snapshot_verdict(w) is Ok,
        is_locked(w),
    ensures
        set_direction_verdict(w, writable, direction) == Err::<
            crate::shot_model::PublicationView,
            ShotWorkflowError,
        >(ShotWorkflowError::Locked),
        generate_verdict(w, writable) == Err::<
            crate::shot_model::PublicationView,
            ShotWorkflowError,
        >(ShotWorkflowError::Locked),
        select_verdict(w, writable, index) == Err::<
            crate::shot_model::PublicationView,
            ShotWorkflowError,
        >(ShotWorkflowError::Locked),
        lock_verdict(w, writable) == Err::<crate::shot_model::PublicationView, ShotWorkflowError>(
            ShotWorkflowError::AlreadyLocked,
        ),
{
}

/// A reset keeps the lineage: every record stays, with its identity, and
/// only shot candidates in play change, to superseded; the selection is
/// emptied and the direction returns to its default.
pub proof fn lemma_reset_keeps_lineage(w: WorkflowView, writable: bool)
    requires
        reset_verdict(w, writable) is Ok,
    ensures
        ({
            let after = apply_publication(w, reset_verdict(w, writable)->Ok_0);
            &&& after.artifacts.len() == w.artifacts.len()
            &&& forall|k: int|
                0 <= k < w.artifacts.len() ==> #[trigger] after.artifacts[k] == superseded_record(
                    w.artifacts[k],
                )
            &&& after.selection.candidates.len() == 0
            &&& after.selection.selected is None
            &&& after.selection.extra == w.selection.extra
            &&& after.shot.direction == ShotDirection::Reaction
            &&& after.shot.generation_revision == w.shot.generation_revision
        }),
{
}

/// A generation advances the revision, supersedes the shot's candidates in
/// play, and leaves three fresh candidates that nothing has selected and
/// that are current against the shot's intent.
pub proof fn lemma_generation_is_fresh(w: WorkflowView, writable: bool)
    requires
        generate_verdict(w, writable) is Ok,
    ensures
        ({
            let after = apply_publication(w, generate_verdict(w, writable)->Ok_0);
            &&& after.shot.generation_revision == w.shot.generation_revision + 1
            &&& after.shot.direction == w.shot.direction
            &&& after.selection.selected is None
            &&& after.selection.candidates == candidate_texts(
                w.shot.shot_id,
                after.shot.generation_revision,
            )
            &&& after.artifacts.len() == w.artifacts.len() + 3
            &&& forall|k: int|
                0 <= k < w.artifacts.len() ==> #[trigger] after.artifacts[k] == superseded_record(
                    w.artifacts[k],
                )
            &&& !is_stale(after)
        }),
{
    let rev = (w.shot.generation_revision + 1) as u16;
    let texts = candidate_texts(w.shot.shot_id, rev);
    let input = crate::shot_hash::intent_hash_text(w.shot.shot_id, w.shot.direction);
    let after = apply_publication(w, generate_verdict(w, writable)->Ok_0);
    let arts = after.artifacts;
    let old_len = w.artifacts.len();
    let fresh = texts.map_values(|id: Seq<char>| new_candidate(id, input));
    assert(arts == supersede_all(w.artifacts) + fresh);
    assert(current_input_hash(after) == input);
    assert forall|a: int, b: int|
        0 <= a < 3 && 0 <= b < 3 && a != b implies texts[a] != texts[b] by {
        assert(texts[a].last() == candidate_label(a));
        assert(texts[b].last() == candidate_label(b));
    }
    assert forall|k: int| 0 <= k < after.selection.candidates.len() implies !crate::shot_model::candidate_is_stale(
        arts,
        #[trigger] after.selection.candidates[k],
        current_input_hash(after),
    ) by {
        let id = texts[k];
        lemma_first_index(arts, id);
        assert(arts[old_len + k] == new_candidate(texts[k], input));
        match first_index(arts, id) {
            Some(i) => {
                if i < old_len {
                    assert(supersede_all(w.artifacts)[i].artifact_id == w.artifacts[i].artifact_id);
                    assert(collides(w.artifacts, texts)) by {
                        assert(w.artifacts[i].artifact_id == texts[k]);
                    }
                } else {
                    let m = i - old_len;
                    assert(arts[i] == new_candidate(texts[m], input));
                    assert(texts[m] == texts[k]);
                    assert(m == k);
                }
            },
            None => {
                assert(arts[old_len + k].artifact_id == id);
            },
        }
    }
}

/// Records that differ at most in their statuses.
pub open spec fn same_but_status(a: Seq<RecordView>, b: Seq<RecordView>) -> bool {
    &&& a.len() == b.len()
    &&& forall|k: int|
        0 <= k < a.len() ==> #[trigger] b[k] == (RecordView { status: b[k].status, ..a[k] })
}

proof fn lemma_first_index_same_ids(
    a: Seq<RecordView>,
    b: Seq<RecordView>,
    id: Seq<char>,
    start: int,
)
    requires
        same_but_status(a, b),
        0 <= start,
    ensures
        crate::shot_model::first_index_from(a, id, start) == crate::shot_model::first_index_from(
            b,
            id,
            start,
        ),
    decreases a.len() - start,
{
    if start < a.len() {
        assert(b[start].artifact_id == a[start].artifact_id);
        lemma_first_index_same_ids(a, b, id, start + 1);
    }
}

proof fn lemma_verdict_same_ids(a: Seq<RecordView>, b: Seq<RecordView>, n: int, check: bool)
    requires
        same_but_status(a, b),
        n <= a.len(),
    ensures
        crate::shot_model::artifacts_verdict(a, n, check) == crate::shot_model::artifacts_verdict(
            b,
            n,
            check,
        ),
    decreases n,
{
    if n > 0 {
        lemma_verdict_same_ids(a, b, n - 1, check);
        let i = n - 1;
        assert(b[i] == (RecordView { status: b[i].status, ..a[i] }));
        assert(crate::shot_records::record_structure_verdict(a[i])
            == crate::shot_records::record_structure_verdict(b[i]));
        assert(crate::shot_records::record_domain_verdict(a[i])
            == crate::shot_records::record_domain_verdict(b[i]));
        assert((exists|j: int| 0 <= j < i && a[j].artifact_id == a[i].artifact_id) == (exists|
            j: int,
        |
            0 <= j < i && b[j].artifact_id == b[i].artifact_id)) by {
            if exists|j: int| 0 <= j < i && a[j].artifact_id == a[i].artifact_id {
                let j = choose|j: int| 0 <= j < i && a[j].artifact_id == a[i].artifact_id;
                assert(b[j] == (RecordView { status: b[j].status, ..a[j] }));
            }
            if exists|j: int| 0 <= j < i && b[j].artifact_id == b[i].artifact_id {
                let j = choose|j: int| 0 <= j < i && b[j].artifact_id == b[i].artifact_id;
                assert(b[j] == (RecordView { status: b[j].status, ..a[j] }));
            }
        }
    }
}

proof fn lemma_set_status_same_but_status(
    arts: Seq<RecordView>,
    id: Seq<char>,
    status: ArtifactStatus,
)
    ensures
        same_but_status(arts, set_status_of(arts, id, status)),
{
    lemma_first_index(arts, id);
    let b = set_status_of(arts, id, status);
    assert forall|k: int| 0 <= k < arts.len() implies #[trigger] b[k] == (RecordView {
        status: b[k].status,
        ..arts[k]
    }) by {}
}

/// Locking keeps the shot's state valid: once the lock is published, the
/// state still validates, and so loads again.
pub proof fn lemma_lock_keeps_state_valid(w: WorkflowView, writable: bool)
    requires
        lock_verdict(w, writable) is Ok,
    ensures
        crate::shot_model::validate_verdict(
            apply_publication(w, lock_verdict(w, writable)->Ok_0),
        ) is Ok,
{
    let after = apply_publication(w, lock_verdict(w, writable)->Ok_0);
    let s = w.selection.selected->Some_0;
    let arts = w.artifacts;
    let arts2 = after.artifacts;
    let sel = w.selection;
    assert(arts2 == set_status_of(arts, s, ArtifactStatus::Locked));
    lemma_set_status_same_but_status(arts, s, ArtifactStatus::Locked);
    lemma_verdict_same_ids(arts, arts2, arts.len() as int, w.issues.len() == 0);
    lemma_first_index(arts, s);
    let si = first_index(arts, s)->Some_0;
    assert(arts2[si].status == ArtifactStatus::Locked);
    assert forall|id: Seq<char>| true implies first_index(arts2, id) == first_index(arts, id) by {
        lemma_first_index_same_ids(arts, arts2, id, 0);
    }
    assert forall|k: int|
        0 <= k < sel.candidates.len() implies match lookup(arts2, #[trigger] sel.candidates[k]) {
        Some(a) => crate::shot_model::is_live(a.status),
        None => false,
    } by {
        let c = sel.candidates[k];
        assert(first_index(arts2, c) == first_index(arts, c));
        lemma_first_index(arts, c);
        assert(match lookup(arts, c) {
            Some(a) => crate::shot_model::is_live(a.status),
            None => false,
        });
        let ci = first_index(arts, c)->Some_0;
        if ci != si {
            assert(arts[ci].artifact_id != s);
            assert(arts2[ci] == arts[ci]);
        }
    }
    assert(first_index(arts2, s) == first_index(arts, s));
    assert forall|k: int|
        0 <= k < arts2.len() && crate::shot_model::is_chosen(
            #[trigger] arts2[k].status,
        ) implies sel.selected == Some(arts2[k].artifact_id) by {
        if arts[k].artifact_id != s {
            assert(arts2[k] == arts[k]);
        } else {
            assert(arts2[k].artifact_id == arts[k].artifact_id);
        }
    }
    assert(crate::shot_model::selection_consistent(arts2, after.selection));
}

/// The records of a state that validates have distinct identifiers.
pub proof fn lemma_valid_ids_distinct(arts: Seq<RecordView>, n: int, check: bool)
    requires
        crate::shot_model::artifacts_verdict(arts, n, check) is Ok,
        n <= arts.len(),
    ensures
        forall|i: int, j: int|
            0 <= i < j < n ==> arts[i].artifact_id != arts[j].artifact_id,
    decreases n,
{
    if n > 0 {
        lemma_valid_ids_distinct(arts, n - 1, check);
        assert forall|i: int| 0 <= i < n - 1 implies (#[trigger] arts[i]).artifact_id != arts[n - 1].artifact_id by {
            let m = n - 1;
            if arts[i].artifact_id == arts[m].artifact_id {
                assert(exists|j: int| 0 <= j < m && (#[trigger] arts[j]).artifact_id == arts[m].artifact_id);
                assert(crate::shot_model::artifact_check_step(arts, m, check) is Err);
            }
        }
    }
}

proof fn lemma_same_but_status_trans(a: Seq<RecordView>, b: Seq<RecordView>, c: Seq<RecordView>)
    requires
        same_but_status(a, b),
        same_but_status(b, c),
    ensures
        same_but_status(a, c),
{
    assert forall|k: int| 0 <= k < a.len() implies #[trigger] c[k] == (RecordView {
        status: c[k].status,
        ..a[k]
    }) by {
        assert(b[k] == (RecordView { status: b[k].status, ..a[k] }));
        assert(c[k] == (RecordView { status: c[k].status, ..b[k] }));
    }
}

/// With distinct identifiers, moving one record to a status changes exactly
/// the record with that identifier.
proof fn lemma_set_status_at(
    arts: Seq<RecordView>,
    id: Seq<char>,
    status: ArtifactStatus,
    k: int,
)
    requires
        forall|i: int, j: int|
            0 <= i < j < arts.len() ==> arts[i].artifact_id != arts[j].artifact_id,
        0 <= k < arts.len(),
        lookup(arts, id) is Some,
    ensures
        arts[k].artifact_id == id ==> set_status_of(arts, id, status)[k] == (RecordView {
            status,
            ..arts[k]
        }),
        arts[k].artifact_id != id ==> set_status_of(arts, id, status)[k] == arts[k],
{
    lemma_first_index(arts, id);
    let i = first_index(arts, id)->Some_0;
    if arts[k].artifact_id == id && k != i {
        if k < i {
        } else {
            assert(arts[i].artifact_id != arts[k].artifact_id);
        }
    }
}

/// Distinct identifiers, as a validated state has them.
pub open spec fn ids_distinct(arts: Seq<RecordView>) -> bool {
    forall|i: int, j: int| 0 <= i < j < arts.len() ==> arts[i].artifact_id != arts[j].artifact_id
}

proof fn lemma_same_but_status_distinct(a: Seq<RecordView>, b: Seq<RecordView>)
    requires
        same_but_status(a, b),
        ids_distinct(a),
    ensures
        ids_distinct(b),
{
    assert forall|i: int, j: int| 0 <= i < j < b.len() implies b[i].artifact_id
        != b[j].artifact_id by {
        assert(b[i] == (RecordView { status: b[i].status, ..a[i] }));
        assert(b[j] == (RecordView { status: b[j].status, ..a[j] }));
    }
}

/// The statuses a selection leaves, from the records alone.
proof fn lemma_select_statuses_core(
    arts: Seq<RecordView>,
    previous: Option<Seq<char>>,
    chosen: Seq<char>,
)
    requires
        ids_distinct(arts),
        release_previous(arts, previous, chosen) is Ok,
        mark_chosen(release_previous(arts, previous, chosen)->Ok_0, chosen) is Ok,
        lookup(arts, chosen) is Some,
        lookup(arts, chosen)->Some_0.status == ArtifactStatus::Candidate || lookup(
            arts,
            chosen,
        )->Some_0.status == ArtifactStatus::Selected,
    ensures
        ({
            let marked = mark_chosen(release_previous(arts, previous, chosen)->Ok_0, chosen)->Ok_0;
            &&& same_but_status(arts, marked)
            &&& forall|k: int|
                0 <= k < arts.len() ==> {
                    &&& (arts[k].artifact_id == chosen ==> (#[trigger] marked[k]).status
                        == ArtifactStatus::Selected)
                    &&& (arts[k].artifact_id != chosen && previous == Some(arts[k].artifact_id)
                        ==> marked[k].status == ArtifactStatus::Candidate)
                    &&& (arts[k].artifact_id != chosen && previous != Some(arts[k].artifact_id)
                        ==> marked[k].status == arts[k].status)
                }
        }),
{
    let released = release_previous(arts, previous, chosen)->Ok_0;
    let marked = mark_chosen(released, chosen)->Ok_0;
    let n = arts.len();
    match previous {
        Some(p) => {
            if p != chosen {
                lemma_set_status_same_but_status(arts, p, ArtifactStatus::Candidate);
            }
        },
        None => {},
    }
    assert(same_but_status(arts, released));
    lemma_same_but_status_distinct(arts, released);
    lemma_first_index_same_ids(arts, released, chosen, 0);
    lemma_first_index(arts, chosen);
    let ci = first_index(arts, chosen)->Some_0;
    match previous {
        Some(p) => {
            if p != chosen {
                lemma_set_status_at(arts, p, ArtifactStatus::Candidate, ci);
            }
        },
        None => {},
    }
    assert(released[ci] == arts[ci]);
    let chosen_status = lookup(released, chosen)->Some_0.status;
    assert(chosen_status == arts[ci].status);
    if chosen_status == ArtifactStatus::Candidate {
        lemma_set_status_same_but_status(released, chosen, ArtifactStatus::Selected);
    }
    assert(same_but_status(released, marked));
    lemma_same_but_status_trans(arts, released, marked);
    assert forall|k: int| 0 <= k < n implies {
        &&& (arts[k].artifact_id == chosen ==> (#[trigger] marked[k]).status
            == ArtifactStatus::Selected)
        &&& (arts[k].artifact_id != chosen && previous == Some(arts[k].artifact_id)
            ==> marked[k].status == ArtifactStatus::Candidate)
        &&& (arts[k].artifact_id != chosen && previous != Some(arts[k].artifact_id)
            ==> marked[k].status == arts[k].status)
    } by {
        match previous {
            Some(p) => {
                if p != chosen {
                    lemma_set_status_at(arts, p, ArtifactStatus::Candidate, k);
                }
            },
            None => {},
        }
        if chosen_status == ArtifactStatus::Candidate {
            lemma_set_status_at(released, chosen, ArtifactStatus::Selected, k);
        }
        if arts[k].artifact_id == chosen {
            assert(k == ci) by {
                if k > ci {
                    assert(arts[ci].artifact_id != arts[k].artifact_id);
                }
            }
        }
    }
}

proof fn lemma_select_unfold(w: WorkflowView, writable: bool, index: int)
    requires
        0 <= index,
        select_verdict(w, writable, index) is Ok,
    ensures
        crate::shot_model::validate_verdict(w) is Ok,
        !is_locked(w),
        0 <= index < w.selection.candidates.len(),
{
}

proof fn lemma_chosen_is_unlocked_candidate(
    arts: Seq<RecordView>,
    sel: crate::shot_records::SelectionView,
    index: int,
)
    requires
        crate::shot_model::selection_consistent(arts, sel),
        0 <= index < sel.candidates.len(),
        !(match sel.selected {
            Some(s) => match lookup(arts, s) {
                Some(a) => a.status == ArtifactStatus::Locked,
                None => false,
            },
            None => false,
        }),
    ensures
        lookup(arts, sel.candidates[index]) is Some,
        lookup(arts, sel.candidates[index])->Some_0.status == ArtifactStatus::Candidate || lookup(
            arts,
            sel.candidates[index],
        )->Some_0.status == ArtifactStatus::Selected,
{
    let chosen = sel.candidates[index];
    assert(match lookup(arts, sel.candidates[index]) {
        Some(a) => crate::shot_model::is_live(a.status),
        None => false,
    });
    lemma_first_index(arts, chosen);
    let ci = first_index(arts, chosen)->Some_0;
    if arts[ci].status == ArtifactStatus::Locked {
        assert(crate::shot_model::is_chosen(arts[ci].status));
        assert(sel.selected == Some(arts[ci].artifact_id));
    }
}

/// What a valid, unlocked state says of the candidate a selection chooses.
proof fn lemma_select_preconditions(w: WorkflowView, writable: bool, index: int)
    requires
        0 <= index,
        select_verdict(w, writable, index) is Ok,
    ensures
        crate::shot_model::validate_verdict(w) is Ok,
        ids_distinct(w.artifacts),
        0 <= index < w.selection.candidates.len(),
        lookup(w.artifacts, w.selection.candidates[index]) is Some,
        lookup(w.artifacts, w.selection.candidates[index])->Some_0.status
            == ArtifactStatus::Candidate || lookup(
            w.artifacts,
            w.selection.candidates[index],
        )->Some_0.status == ArtifactStatus::Selected,
{
    lemma_select_unfold(w, writable, index);
    lemma_valid_ids_distinct(w.artifacts, w.artifacts.len() as int, w.issues.len() == 0);
    lemma_chosen_is_unlocked_candidate(w.artifacts, w.selection, index);
}

/// Selecting keeps the shot's state valid: once the new statuses and the
/// pointer are published, the state still validates, and so loads again.
pub proof fn lemma_select_keeps_state_valid(w: WorkflowView, writable: bool, index: int)
    requires
        0 <= index,
        select_verdict(w, writable, index) is Ok,
    ensures
        crate::shot_model::validate_verdict(
            apply_publication(w, select_verdict(w, writable, index)->Ok_0),
        ) is Ok,
{
    lemma_select_preconditions(w, writable, index);
    let after = apply_publication(w, select_verdict(w, writable, index)->Ok_0);
    let arts = w.artifacts;
    let sel = w.selection;
    let n = arts.len();
    let check = w.issues.len() == 0;
    let chosen = sel.candidates[index];
    let marked = after.artifacts;
    assert(marked == mark_chosen(release_previous(arts, sel.selected, chosen)->Ok_0, chosen)->Ok_0);
    lemma_select_statuses_core(arts, sel.selected, chosen);
    lemma_verdict_same_ids(arts, marked, n as int, check);
    crate::shot_records::lemma_first_id_error_none(
        sel.candidates,
        sel.candidates.len() as int,
        index,
    );
    assert(after.selection.candidates.contains(chosen));
    assert(crate::shot_records::selection_verdict(after.selection) is Ok);
    assert(crate::shot_model::selection_consistent(arts, sel));
    assert forall|k: int|
        0 <= k < sel.candidates.len() implies match lookup(marked, #[trigger] sel.candidates[k]) {
        Some(a) => crate::shot_model::is_live(a.status),
        None => false,
    } by {
        let c = sel.candidates[k];
        lemma_first_index_same_ids(arts, marked, c, 0);
        lemma_first_index(arts, c);
        assert(match lookup(arts, sel.candidates[k]) {
            Some(a) => crate::shot_model::is_live(a.status),
            None => false,
        });
    }
    lemma_first_index_same_ids(arts, marked, chosen, 0);
    lemma_first_index(arts, chosen);
    assert forall|k: int|
        0 <= k < marked.len() && crate::shot_model::is_chosen(
            #[trigger] marked[k].status,
        ) implies after.selection.selected == Some(marked[k].artifact_id) by {
        assert(marked[k] == (RecordView { status: marked[k].status, ..arts[k] }));
        if arts[k].artifact_id != chosen {
            if sel.selected != Some(arts[k].artifact_id) {
                assert(crate::shot_model::is_chosen(arts[k].status));
            }
        }
    }
    assert(crate::shot_model::selection_consistent(marked, after.selection));
}

proof fn lemma_no_dependency_issues(id: Seq<char>, deps: Seq<crate::shot_records::DependencyView>, n: int)
    requires
        n <= deps.len(),
        forall|i: int| 0 <= i < deps.len() ==> crate::artifact::is_hash_text(#[trigger] deps[i].content_hash),
    ensures
        crate::shot_model::dependency_issues(id, deps, n) == Seq::<crate::shot_model::IssueView>::empty(),
    decreases n,
{
    if n > 0 {
        lemma_no_dependency_issues(id, deps, n - 1);
        assert(crate::artifact::is_hash_text(deps[n - 1].content_hash));
        assert(crate::shot_model::dependency_issues(id, deps, n) =~= Seq::<crate::shot_model::IssueView>::empty());
    }
}

proof fn lemma_canonical_record_is_normal(a: RecordView, shot_id: Seq<char>)
    requires
        crate::shot_records::record_hashes_ok(a),
    ensures
        crate::shot_model::normalized_record(a, shot_id) == a,
        crate::shot_model::record_issues(a, shot_id) == Seq::<crate::shot_model::IssueView>::empty(),
        crate::shot_model::record_migrations(a, shot_id) == Seq::<crate::shot_model::MigrationView>::empty(),
{
    lemma_no_dependency_issues(a.artifact_id, a.dependencies, a.dependencies.len() as int);
    assert(crate::shot_model::record_issues(a, shot_id) =~= Seq::<crate::shot_model::IssueView>::empty());
    assert(crate::shot_model::record_migrations(a, shot_id) =~= Seq::<crate::shot_model::MigrationView>::empty());
}

proof fn lemma_normalize_canonical(arts: Seq<RecordView>, shot_id: Seq<char>, n: int)
    requires
        0 <= n <= arts.len(),
        forall|k: int| 0 <= k < arts.len() ==> crate::shot_records::record_domain_verdict(#[trigger] arts[k]) is Ok,
    ensures
        crate::shot_model::normalize_upto(arts, shot_id, n) == Ok::<crate::shot_model::Normalized, ShotWorkflowError>(
            crate::shot_model::Normalized {
                records: arts.take(n),
                issues: Seq::empty(),
                migrations: Seq::empty(),
            },
        ),
    decreases n,
{
    if n == 0 {
        assert(arts.take(0) =~= Seq::<RecordView>::empty());
    } else {
        lemma_normalize_canonical(arts, shot_id, n - 1);
        let a = arts[n - 1];
        assert(crate::shot_records::record_domain_verdict(a) is Ok);
        assert(crate::shot_records::record_structure_verdict(a) is Ok);
        lemma_canonical_record_is_normal(a, shot_id);
        let e_i = Seq::<crate::shot_model::IssueView>::empty();
        let e_m = Seq::<crate::shot_model::MigrationView>::empty();
        assert(arts.take(n - 1).push(a) =~= arts.take(n));
        assert(e_i + e_i =~= e_i);
        assert(e_m + e_m =~= e_m);
        assert(crate::shot_model::normalize_upto(arts, shot_id, n) == Ok::<crate::shot_model::Normalized, ShotWorkflowError>(
            crate::shot_model::Normalized {
                records: arts.take(n - 1).push(crate::shot_model::normalized_record(a, shot_id)),
                issues: e_i + crate::shot_model::record_issues(a, shot_id),
                migrations: e_m + crate::shot_model::record_migrations(a, shot_id),
            },
        ));
    }
}

proof fn lemma_valid_records_each(arts: Seq<RecordView>, n: int)
    requires
        n <= arts.len(),
        crate::shot_model::artifacts_verdict(arts, n, true) is Ok,
    ensures
        forall|k: int| 0 <= k < n ==> crate::shot_records::record_domain_verdict(#[trigger] arts[k]) is Ok,
    decreases n,
{
    if n > 0 {
        lemma_valid_records_each(arts, n - 1, );
        assert(crate::shot_model::artifact_check_step(arts, n - 1, true) is Ok);
    }
}

/// The status of each record of a valid state already agrees with the
/// selection pointer, so reconciling changes nothing.
proof fn lemma_reconcile_valid_is_identity(arts: Seq<RecordView>, sel: crate::shot_records::SelectionView, n: int)
    requires
        0 <= n <= arts.len(),
        crate::shot_model::selection_consistent(arts, sel),
        sel.selected matches Some(s) ==> sel.candidates.contains(s),
        ids_distinct(arts),
    ensures
        crate::shot_model::reconcile_upto(arts, sel, n) == Ok::<Seq<RecordView>, ShotWorkflowError>(arts.take(n)),
    decreases n,
{
    if n == 0 {
        assert(arts.take(0) =~= Seq::<RecordView>::empty());
    } else {
        lemma_reconcile_valid_is_identity(arts, sel, n - 1);
        let k = n - 1;
        let a = arts[k];
        lemma_first_index(arts, a.artifact_id);
        let i = first_index(arts, a.artifact_id)->Some_0;
        assert(i == k) by {
            if i < k {
                assert(arts[i].artifact_id != arts[k].artifact_id);
            }
        }
        assert(lookup(arts, a.artifact_id) == Some(a));
        let is_candidate = sel.candidates.contains(a.artifact_id);
        let is_selected = sel.selected == Some(a.artifact_id);
        if is_candidate {
            let j = choose|j: int| 0 <= j < sel.candidates.len() && sel.candidates[j] == a.artifact_id;
            assert(match lookup(arts, sel.candidates[j]) {
                Some(b) => crate::shot_model::is_live(b.status),
                None => false,
            });
            assert(crate::shot_model::is_live(a.status));
        }
        if crate::shot_model::is_chosen(a.status) {
            assert(sel.selected == Some(arts[k].artifact_id));
        }
        if is_selected {
            assert(crate::shot_model::is_chosen(a.status));
        }
        assert(crate::shot_model::reconcile_record(a, sel) == Ok::<RecordView, ShotWorkflowError>(a));
        assert(arts.take(n - 1).push(a) =~= arts.take(n));
    }
}

/// The selection once any interrupted generation is recovered is the one
/// stored: the shot names no generation, or its candidates are the listed
/// ones, or they are not all recorded in play.
pub open spec fn generation_settled(w: WorkflowView) -> bool {
    crate::shot_model::recover_generation_verdict(w.shot, w.artifacts, w.selection) == Ok::<
        crate::shot_records::SelectionView,
        ShotWorkflowError,
    >(w.selection)
}

/// What is published reloads unchanged: a valid state with no diagnosed or
/// pending hashes, this shot's manifest, and no interrupted generation to
/// recover, loads back from its three files as exactly itself.
pub proof fn lemma_published_state_reloads(w: WorkflowView, bytes: Option<Seq<u8>>)
    requires
        crate::shot_model::validate_verdict(w) is Ok,
        w.issues.len() == 0,
        w.migrations.len() == 0,
        w.legacy_bytes is None,
        crate::shot_model::accept_shot_verdict(w.shot_number, Some(w.shot)) == Ok::<
            crate::shot_records::ShotView,
            ShotWorkflowError,
        >(w.shot),
        generation_settled(w),
    ensures
        crate::shot_model::load_verdict(w.shot_number, Some(w.shot), Some(w.artifacts), bytes, Some(w.selection))
            == Ok::<WorkflowView, ShotWorkflowError>(w),
{
    let arts = w.artifacts;
    let sel = w.selection;
    let n = arts.len() as int;
    lemma_valid_records_each(arts, n);
    lemma_valid_ids_distinct(arts, n, true);
    lemma_normalize_canonical(arts, w.shot.shot_id, n);
    assert(arts.take(n) =~= arts);
    let w1 = WorkflowView {
        shot_number: w.shot_number,
        shot: w.shot,
        artifacts: arts,
        selection: sel,
        issues: Seq::empty(),
        migrations: Seq::empty(),
        legacy_bytes: None,
    };
    assert(w1.issues =~= w.issues);
    assert(w1.migrations =~= w.migrations);
    assert(w1 == w);
    assert(crate::shot_model::selection_consistent(arts, sel));
    // no reset to recover: the listed candidates are in play
    if sel.candidates.len() != 0 {
        assert(match lookup(arts, sel.candidates[0]) {
            Some(a) => crate::shot_model::is_live(a.status),
            None => false,
        });
        assert(!crate::shot_model::all_superseded(arts, sel.candidates));
    }
    assert(crate::shot_model::recover_cleared(arts, sel) == sel);
    assert(sel.selected matches Some(x) ==> sel.candidates.contains(x));
    lemma_reconcile_valid_is_identity(arts, sel, n);
    assert(crate::shot_model::reconcile_verdict(arts, sel) == Ok::<Seq<RecordView>, ShotWorkflowError>(arts));
    assert(crate::shot_model::recover_verdict(w1) == Ok::<WorkflowView, ShotWorkflowError>(w1));
}

/// A reset keeps a valid state valid, provided every selected or locked
/// record is a shot candidate (which the reset supersedes).
pub proof fn lemma_reset_keeps_state_valid(w: WorkflowView, writable: bool)
    requires
        reset_verdict(w, writable) is Ok,
        crate::shot_model::validate_verdict(w) is Ok,
        forall|k: int|
            0 <= k < w.artifacts.len() && crate::shot_model::is_chosen(#[trigger] w.artifacts[k].status)
                ==> w.artifacts[k].artifact_type == crate::shot_model::shot_candidate_type(),
    ensures
        crate::shot_model::validate_verdict(apply_publication(w, reset_verdict(w, writable)->Ok_0)) is Ok,
{
    let after = apply_publication(w, reset_verdict(w, writable)->Ok_0);
    let arts = w.artifacts;
    let arts2 = after.artifacts;
    assert(arts2 == supersede_all(arts));
    assert(same_but_status(arts, arts2)) by {
        assert forall|k: int| 0 <= k < arts.len() implies #[trigger] arts2[k] == (RecordView {
            status: arts2[k].status,
            ..arts[k]
        }) by {}
    }
    lemma_verdict_same_ids(arts, arts2, arts.len() as int, w.issues.len() == 0);
    assert(after.selection.candidates.len() == 0);
    assert(crate::shot_records::first_id_error(after.selection.candidates, 0) is None);
    assert(crate::shot_records::selection_verdict(after.selection) is Ok);
    assert forall|k: int|
        0 <= k < arts2.len() && crate::shot_model::is_chosen(
            #[trigger] arts2[k].status,
        ) implies after.selection.selected == Some(arts2[k].artifact_id) by {
        if crate::shot_model::is_chosen(arts[k].status) {
            assert(arts[k].artifact_type == crate::shot_model::shot_candidate_type());
        }
    }
    assert(crate::shot_model::selection_consistent(arts2, after.selection));
}

proof fn lemma_verdict_prefix(a: Seq<RecordView>, b: Seq<RecordView>, n: int, check: bool)
    requires
        0 <= n <= a.len(),
        n <= b.len(),
        forall|k: int| 0 <= k < n ==> a[k] == b[k],
    ensures
        crate::shot_model::artifacts_verdict(a, n, check) == crate::shot_model::artifacts_verdict(
            b,
            n,
            check,
        ),
    decreases n,
{
    if n > 0 {
        lemma_verdict_prefix(a, b, n - 1, check);
        let i = n - 1;
        assert((exists|j: int| 0 <= j < i && a[j].artifact_id == a[i].artifact_id) == (exists|
            j: int,
        |
            0 <= j < i && b[j].artifact_id == b[i].artifact_id)) by {
            if exists|j: int| 0 <= j < i && a[j].artifact_id == a[i].artifact_id {
                let j = choose|j: int| 0 <= j < i && a[j].artifact_id == a[i].artifact_id;
                assert(a[j] == b[j]);
            }
            if exists|j: int| 0 <= j < i && b[j].artifact_id == b[i].artifact_id {
                let j = choose|j: int| 0 <= j < i && b[j].artifact_id == b[i].artifact_id;
                assert(a[j] == b[j]);
            }
        }
    }
}

proof fn lemma_verdict_step_ok(s: Seq<RecordView>, n: int, check: bool)
    requires
        0 < n <= s.len(),
        crate::shot_model::artifacts_verdict(s, n - 1, check) is Ok,
        crate::shot_model::artifact_check_step(s, n - 1, check) is Ok,
    ensures
        crate::shot_model::artifacts_verdict(s, n, check) is Ok,
{
}

proof fn lemma_generate_unfold(w: WorkflowView, writable: bool)
    requires
        generate_verdict(w, writable) is Ok,
    ensures
        ({
            let rev = (w.shot.generation_revision + 1) as u16;
            let texts = candidate_texts(w.shot.shot_id, rev);
            let input = crate::shot_hash::intent_hash_text(w.shot.shot_id, w.shot.direction);
            let after = apply_publication(w, generate_verdict(w, writable)->Ok_0);
            &&& crate::shot_model::validate_verdict(w) is Ok
            &&& crate::shot_hash::candidate_ids_error(w.shot.shot_id, rev) is None
            &&& !collides(w.artifacts, texts)
            &&& after.artifacts == supersede_all(w.artifacts) + texts.map_values(
                |id: Seq<char>| new_candidate(id, input),
            )
            &&& after.selection == crate::shot_records::SelectionView {
                selected: None,
                candidates: texts,
                extra: w.selection.extra,
            }
            &&& after.shot == crate::shot_records::ShotView { generation_revision: rev, ..w.shot }
            &&& after.issues == w.issues
        }),
{
}

proof fn lemma_generation_records_pass(
    arts: Seq<RecordView>,
    texts: Seq<Seq<char>>,
    input: Seq<char>,
    check: bool,
)
    requires
        crate::shot_model::artifacts_verdict(arts, arts.len() as int, check) is Ok,
        forall|k: int|
            0 <= k < arts.len() && crate::shot_model::is_chosen(#[trigger] arts[k].status)
                ==> arts[k].artifact_type == crate::shot_model::shot_candidate_type(),
        texts.len() == 3,
        forall|a: int, b: int| 0 <= a < 3 && 0 <= b < 3 && a != b ==> texts[a] != texts[b],
        forall|i: int| 0 <= i < 3 ==> crate::artifact::artifact_id_verdict(#[trigger] texts[i]) is Ok,
        forall|i: int| 0 <= i < 3 ==> crate::artifact::is_hash_text(crate::shot_hash::demo_hash_text(#[trigger] texts[i])),
        crate::artifact::is_hash_text(input),
        !collides(arts, texts),
    ensures
        ({
            let arts2 = supersede_all(arts) + texts.map_values(|id: Seq<char>| new_candidate(id, input));
            crate::shot_model::artifacts_verdict(arts2, arts2.len() as int, check) is Ok
        }),
{
    let n = arts.len() as int;
    let fresh = texts.map_values(|id: Seq<char>| new_candidate(id, input));
    let arts2 = supersede_all(arts) + fresh;
    assert(same_but_status(arts, supersede_all(arts))) by {
        assert forall|k: int| 0 <= k < n implies #[trigger] supersede_all(arts)[k] == (RecordView {
            status: supersede_all(arts)[k].status,
            ..arts[k]
        }) by {}
    }
    lemma_verdict_same_ids(arts, supersede_all(arts), n, check);
    lemma_verdict_prefix(supersede_all(arts), arts2, n, check);
    assert(!crate::shot_records::is_blank(crate::shot_model::shot_candidate_type())) by {
        assert(!crate::shot_records::is_whitespace(crate::shot_model::shot_candidate_type()[0]));
    }
    assert forall|j: int| n <= j < n + 3 implies #[trigger] crate::shot_model::artifact_check_step(
        arts2,
        j,
        check,
    ) is Ok by {
        let m = j - n;
        let r = arts2[j];
        assert(r == new_candidate(texts[m], input));
        assert(crate::artifact::artifact_id_verdict(texts[m]) is Ok);
        assert(crate::shot_records::dependency_ids_verdict(r.dependencies, 0) is Ok);
        assert(crate::shot_records::record_structure_verdict(r) is Ok);
        assert(crate::artifact::is_hash_text(crate::shot_hash::demo_hash_text(texts[m])));
        assert(crate::shot_records::record_hashes_ok(r));
        if exists|q: int| 0 <= q < j && arts2[q].artifact_id == r.artifact_id {
            let q = choose|q: int| 0 <= q < j && arts2[q].artifact_id == r.artifact_id;
            if q < n {
                assert(supersede_all(arts)[q].artifact_id == arts[q].artifact_id);
                assert(collides(arts, texts)) by {
                    assert(arts[q].artifact_id == texts[m]);
                }
            } else {
                assert(arts2[q] == new_candidate(texts[q - n], input));
                assert(texts[q - n] == texts[m]);
            }
        }
    }
    assert(crate::shot_model::artifact_check_step(arts2, n, check) is Ok);
    lemma_verdict_step_ok(arts2, n + 1, check);
    assert(crate::shot_model::artifact_check_step(arts2, n + 1, check) is Ok);
    lemma_verdict_step_ok(arts2, n + 2, check);
    assert(crate::shot_model::artifact_check_step(arts2, n + 2, check) is Ok);
    lemma_verdict_step_ok(arts2, n + 3, check);
    assert(arts2.len() == n + 3);
}

proof fn lemma_generation_selection_passes(
    texts: Seq<Seq<char>>,
    extra: Seq<(Seq<char>, Seq<char>)>,
)
    requires
        texts.len() == 3,
        forall|a: int, b: int| 0 <= a < 3 && 0 <= b < 3 && a != b ==> texts[a] != texts[b],
        forall|i: int| 0 <= i < 3 ==> crate::artifact::artifact_id_verdict(#[trigger] texts[i]) is Ok,
    ensures
        crate::shot_records::selection_verdict(
            crate::shot_records::SelectionView { selected: None, candidates: texts, extra },
        ) is Ok,
{
    assert(crate::artifact::artifact_id_verdict(texts[0]) is Ok);
    assert(crate::artifact::artifact_id_verdict(texts[1]) is Ok);
    assert(crate::artifact::artifact_id_verdict(texts[2]) is Ok);
    assert(crate::shot_records::first_id_error(texts, 0) is None);
    assert(crate::shot_records::first_id_error(texts, 1) is None);
    assert(crate::shot_records::first_id_error(texts, 2) is None);
    assert(crate::shot_records::first_id_error(texts, 3) is None);
    assert(crate::shot_records::all_distinct(texts));
}

proof fn lemma_generation_consistent(
    arts: Seq<RecordView>,
    texts: Seq<Seq<char>>,
    input: Seq<char>,
    extra: Seq<(Seq<char>, Seq<char>)>,
)
    requires
        forall|k: int|
            0 <= k < arts.len() && crate::shot_model::is_chosen(#[trigger] arts[k].status)
                ==> arts[k].artifact_type == crate::shot_model::shot_candidate_type(),
        texts.len() == 3,
        forall|a: int, b: int| 0 <= a < 3 && 0 <= b < 3 && a != b ==> texts[a] != texts[b],
        !collides(arts, texts),
    ensures
        ({
            let arts2 = supersede_all(arts) + texts.map_values(|id: Seq<char>| new_candidate(id, input));
            let sel = crate::shot_records::SelectionView { selected: None, candidates: texts, extra };
            crate::shot_model::selection_consistent(arts2, sel)
        }),
{
    let n = arts.len() as int;
    let fresh = texts.map_values(|id: Seq<char>| new_candidate(id, input));
    let arts2 = supersede_all(arts) + fresh;
    let sel = crate::shot_records::SelectionView { selected: None, candidates: texts, extra };
    assert forall|k: int|
        0 <= k < arts2.len() && crate::shot_model::is_chosen(
            #[trigger] arts2[k].status,
        ) implies sel.selected == Some(arts2[k].artifact_id) by {
        if k < n {
            assert(arts2[k] == crate::shot_model::superseded_record(arts[k]));
            if crate::shot_model::is_chosen(arts[k].status) {
                assert(arts[k].artifact_type == crate::shot_model::shot_candidate_type());
            }
        } else {
            assert(arts2[k] == new_candidate(texts[k - n], input));
        }
    }
    assert forall|k: int|
        0 <= k < sel.candidates.len() implies match lookup(arts2, #[trigger] sel.candidates[k]) {
        Some(a) => crate::shot_model::is_live(a.status),
        None => false,
    } by {
        let id = texts[k];
        lemma_first_index(arts2, id);
        assert(arts2[n + k].artifact_id == id);
        let i = first_index(arts2, id)->Some_0;
        if i < n {
            assert(supersede_all(arts)[i].artifact_id == arts[i].artifact_id);
            assert(collides(arts, texts)) by {
                assert(arts[i].artifact_id == texts[k]);
            }
        } else {
            assert(arts2[i] == new_candidate(texts[i - n], input));
        }
    }
}

/// The records and selection a generation publishes pass validation.
proof fn lemma_generation_parts_valid(
    arts: Seq<RecordView>,
    texts: Seq<Seq<char>>,
    input: Seq<char>,
    extra: Seq<(Seq<char>, Seq<char>)>,
    check: bool,
)
    requires
        crate::shot_model::artifacts_verdict(arts, arts.len() as int, check) is Ok,
        forall|k: int|
            0 <= k < arts.len() && crate::shot_model::is_chosen(#[trigger] arts[k].status)
                ==> arts[k].artifact_type == crate::shot_model::shot_candidate_type(),
        texts.len() == 3,
        forall|a: int, b: int| 0 <= a < 3 && 0 <= b < 3 && a != b ==> texts[a] != texts[b],
        forall|i: int| 0 <= i < 3 ==> crate::artifact::artifact_id_verdict(#[trigger] texts[i]) is Ok,
        forall|i: int| 0 <= i < 3 ==> crate::artifact::is_hash_text(crate::shot_hash::demo_hash_text(#[trigger] texts[i])),
        crate::artifact::is_hash_text(input),
        !collides(arts, texts),
    ensures
        ({
            let arts2 = supersede_all(arts) + texts.map_values(|id: Seq<char>| new_candidate(id, input));
            let sel = crate::shot_records::SelectionView { selected: None, candidates: texts, extra };
            &&& crate::shot_model::artifacts_verdict(arts2, arts2.len() as int, check) is Ok
            &&& crate::shot_records::selection_verdict(sel) is Ok
            &&& crate::shot_model::selection_consistent(arts2, sel)
        }),
{
    lemma_generation_records_pass(arts, texts, input, check);
    lemma_generation_selection_passes(texts, extra);
    lemma_generation_consistent(arts, texts, input, extra);
}

/// A generation publishes a state that validates and that has no
/// interrupted generation to recover, provided the state was valid, every
/// selected or locked record is a shot candidate, and the new hashes are
/// canonical (which the digests make them).
pub proof fn lemma_generation_keeps_state_valid(w: WorkflowView, writable: bool)
    requires
        generate_verdict(w, writable) is Ok,
        forall|k: int|
            0 <= k < w.artifacts.len() && crate::shot_model::is_chosen(#[trigger] w.artifacts[k].status)
                ==> w.artifacts[k].artifact_type == crate::shot_model::shot_candidate_type(),
        forall|i: int|
            0 <= i < 3 ==> crate::artifact::is_hash_text(
                crate::shot_hash::demo_hash_text(
                    #[trigger] candidate_id_text(
                        w.shot.shot_id,
                        (w.shot.generation_revision + 1) as u16,
                        i,
                    ),
                ),
            ),
        crate::artifact::is_hash_text(
            crate::shot_hash::intent_hash_text(w.shot.shot_id, w.shot.direction),
        ),
    ensures
        crate::shot_model::validate_verdict(apply_publication(w, generate_verdict(w, writable)->Ok_0))
            is Ok,
        generation_settled(apply_publication(w, generate_verdict(w, writable)->Ok_0)),
{
    lemma_generate_unfold(w, writable);
    let rev = (w.shot.generation_revision + 1) as u16;
    let texts = candidate_texts(w.shot.shot_id, rev);
    let input = crate::shot_hash::intent_hash_text(w.shot.shot_id, w.shot.direction);
    let after = apply_publication(w, generate_verdict(w, writable)->Ok_0);
    assert forall|a: int, b: int|
        0 <= a < 3 && 0 <= b < 3 && a != b implies texts[a] != texts[b] by {
        assert(texts[a].last() == candidate_label(a));
        assert(texts[b].last() == candidate_label(b));
    }
    assert forall|i: int| 0 <= i < 3 implies crate::artifact::artifact_id_verdict(#[trigger] texts[i]) is Ok by {
        assert(texts[i] == candidate_id_text(w.shot.shot_id, rev, i));
    }
    assert forall|i: int| 0 <= i < 3 implies crate::artifact::is_hash_text(crate::shot_hash::demo_hash_text(#[trigger] texts[i])) by {
        assert(texts[i] == candidate_id_text(w.shot.shot_id, rev, i));
    }
    assert(crate::shot_model::artifacts_verdict(w.artifacts, w.artifacts.len() as int, w.issues.len() == 0) is Ok);
    lemma_generation_parts_valid(w.artifacts, texts, input, w.selection.extra, w.issues.len() == 0);
    assert(after.shot.generation_revision == rev);
}

/// A generation leaves nothing to recover: the selection lists exactly the
/// candidates the shot's new revision names.
pub proof fn lemma_generation_settles(w: WorkflowView, writable: bool)
    requires
        generate_verdict(w, writable) is Ok,
    ensures
        generation_settled(apply_publication(w, generate_verdict(w, writable)->Ok_0)),
{
    lemma_generate_unfold(w, writable);
}

/// No record of the state carries an identifier of the new generation.
proof fn lemma_fresh_ids_absent(arts: Seq<RecordView>, texts: Seq<Seq<char>>, i: int)
    requires
        !collides(arts, texts),
        0 <= i < texts.len(),
    ensures
        lookup(arts, texts[i]) is None,
{
    lemma_first_index(arts, texts[i]);
    if first_index(arts, texts[i]) is Some {
        let k = first_index(arts, texts[i])->Some_0;
        assert(arts[k].artifact_id == texts[i]);
        assert(collides(arts, texts));
    }
}

/// A valid state does not list the candidates of a generation none of whose
/// identifiers it records.
proof fn lemma_fresh_ids_not_listed(w: WorkflowView, texts: Seq<Seq<char>>)
    requires
        crate::shot_model::validate_verdict(w) is Ok,
        !collides(w.artifacts, texts),
        texts.len() == 3,
    ensures
        w.selection.candidates != texts,
        !crate::shot_model::generation_published(w.artifacts, texts),
{
    lemma_fresh_ids_absent(w.artifacts, texts, 0);
    if w.selection.candidates == texts {
        assert(crate::shot_model::selection_consistent(w.artifacts, w.selection));
        assert(match lookup(w.artifacts, w.selection.candidates[0]) {
            Some(a) => crate::shot_model::is_live(a.status),
            None => false,
        });
    }
    assert(!(match lookup(w.artifacts, texts[0]) {
        Some(a) => a.artifact_type == crate::shot_model::shot_candidate_type()
            && crate::shot_model::is_live(a.status),
        None => false,
    }));
}

/// A generation interrupted once its shot manifest is published: the new
/// revision names candidates that nothing records yet, so the shot loads
/// as it was, with only the revision moved on.
pub proof fn lemma_generation_interrupted_after_shot(
    w: WorkflowView,
    writable: bool,
    bytes: Option<Seq<u8>>,
)
    requires
        generate_verdict(w, writable) is Ok,
        w.issues.len() == 0,
        w.legacy_bytes is None,
        crate::shot_model::accept_shot_verdict(w.shot_number, Some(w.shot)) == Ok::<
            crate::shot_records::ShotView,
            ShotWorkflowError,
        >(w.shot),
    ensures
        ({
            let after = apply_publication(w, generate_verdict(w, writable)->Ok_0);
            crate::shot_model::load_verdict(
                w.shot_number,
                Some(after.shot),
                Some(w.artifacts),
                bytes,
                Some(w.selection),
            ) == Ok::<WorkflowView, ShotWorkflowError>(WorkflowView { shot: after.shot, ..w })
        }),
{
    lemma_generate_unfold(w, writable);
    let rev = (w.shot.generation_revision + 1) as u16;
    let texts = candidate_texts(w.shot.shot_id, rev);
    let after = apply_publication(w, generate_verdict(w, writable)->Ok_0);
    let w2 = WorkflowView { shot: after.shot, ..w };
    lemma_fresh_ids_not_listed(w, texts);
    assert(rev != 0);
    assert(generation_settled(w2));
    lemma_published_state_reloads(w2, bytes);
}

/// The records a generation publishes list each new candidate as a shot
/// candidate in play.
proof fn lemma_generation_records_published(
    arts: Seq<RecordView>,
    texts: Seq<Seq<char>>,
    input: Seq<char>,
)
    requires
        !collides(arts, texts),
        texts.len() == 3,
    ensures
        crate::shot_model::generation_published(
            supersede_all(arts) + texts.map_values(|id: Seq<char>| new_candidate(id, input)),
            texts,
        ),
{
    let n = arts.len() as int;
    let arts2 = supersede_all(arts) + texts.map_values(|id: Seq<char>| new_candidate(id, input));
    assert forall|i: int| 0 <= i < texts.len() implies match lookup(arts2, #[trigger] texts[i]) {
        Some(a) => a.artifact_type == crate::shot_model::shot_candidate_type()
            && crate::shot_model::is_live(a.status),
        None => false,
    } by {
        let id = texts[i];
        lemma_first_index(arts2, id);
        assert(arts2[n + i].artifact_id == id);
        let j = first_index(arts2, id)->Some_0;
        if j < n {
            assert(supersede_all(arts)[j].artifact_id == arts[j].artifact_id);
            assert(collides(arts, texts)) by {
                assert(arts[j].artifact_id == texts[i]);
            }
        } else {
            assert(arts2[j] == new_candidate(texts[j - n], input));
        }
    }
}

/// A generation interrupted once its records are published: loading
/// recovers the selection of the new candidates, so the shot loads exactly
/// as the finished generation leaves it, which is also what loads once the
/// selection is written too. This holds where every selected or locked
/// record is a shot candidate and the new hashes are canonical.
pub proof fn lemma_generation_interrupted_after_records(
    w: WorkflowView,
    writable: bool,
    bytes: Option<Seq<u8>>,
)
    requires
        generate_verdict(w, writable) is Ok,
        w.issues.len() == 0,
        w.legacy_bytes is None,
        crate::shot_model::accept_shot_verdict(w.shot_number, Some(w.shot)) == Ok::<
            crate::shot_records::ShotView,
            ShotWorkflowError,
        >(w.shot),
        forall|k: int|
            0 <= k < w.artifacts.len() && crate::shot_model::is_chosen(#[trigger] w.artifacts[k].status)
                ==> w.artifacts[k].artifact_type == crate::shot_model::shot_candidate_type(),
        forall|i: int|
            0 <= i < 3 ==> crate::artifact::is_hash_text(
                crate::shot_hash::demo_hash_text(
                    #[trigger] candidate_id_text(
                        w.shot.shot_id,
                        (w.shot.generation_revision + 1) as u16,
                        i,
                    ),
                ),
            ),
        crate::artifact::is_hash_text(
            crate::shot_hash::intent_hash_text(w.shot.shot_id, w.shot.direction),
        ),
    ensures
        ({
            let after = apply_publication(w, generate_verdict(w, writable)->Ok_0);
            &&& crate::shot_model::load_verdict(
                w.shot_number,
                Some(after.shot),
                Some(after.artifacts),
                bytes,
                Some(w.selection),
            ) == Ok::<WorkflowView, ShotWorkflowError>(after)
            &&& crate::shot_model::load_verdict(
                w.shot_number,
                Some(after.shot),
                Some(after.artifacts),
                bytes,
                Some(after.selection),
            ) == Ok::<WorkflowView, ShotWorkflowError>(after)
        }),
{
    lemma_generate_unfold(w, writable);
    let rev = (w.shot.generation_revision + 1) as u16;
    let texts = candidate_texts(w.shot.shot_id, rev);
    let input = crate::shot_hash::intent_hash_text(w.shot.shot_id, w.shot.direction);
    let after = apply_publication(w, generate_verdict(w, writable)->Ok_0);
    lemma_generation_keeps_state_valid(w, writable);
    lemma_published_state_reloads(after, bytes);
    let arts = after.artifacts;
    let n = arts.len() as int;
    lemma_valid_records_each(arts, n);
    lemma_normalize_canonical(arts, after.shot.shot_id, n);
    assert(arts.take(n) =~= arts);
    lemma_fresh_ids_not_listed(w, texts);
    lemma_generation_records_published(w.artifacts, texts, input);
    assert(rev != 0);
    assert(crate::shot_model::recover_generation_verdict(after.shot, arts, w.selection) == Ok::<
        crate::shot_records::SelectionView,
        ShotWorkflowError,
    >(after.selection));
}

/// A reset interrupted once its shot manifest is published: the records
/// and the selection are untouched, so the shot loads as it was, with only
/// the direction reset.
pub proof fn lemma_reset_interrupted_after_shot(
    w: WorkflowView,
    writable: bool,
    bytes: Option<Seq<u8>>,
)
    requires
        reset_verdict(w, writable) is Ok,
        crate::shot_model::validate_verdict(w) is Ok,
        w.issues.len() == 0,
        w.legacy_bytes is None,
        crate::shot_model::accept_shot_verdict(w.shot_number, Some(w.shot)) == Ok::<
            crate::shot_records::ShotView,
            ShotWorkflowError,
        >(w.shot),
        generation_settled(w),
    ensures
        ({
            let after = apply_publication(w, reset_verdict(w, writable)->Ok_0);
            crate::shot_model::load_verdict(
                w.shot_number,
                Some(after.shot),
                Some(w.artifacts),
                bytes,
                Some(w.selection),
            ) == Ok::<WorkflowView, ShotWorkflowError>(WorkflowView { shot: after.shot, ..w })
        }),
{
    let after = apply_publication(w, reset_verdict(w, writable)->Ok_0);
    let w2 = WorkflowView { shot: after.shot, ..w };
    assert(after.shot == crate::shot_records::ShotView { direction: ShotDirection::Reaction, ..w.shot });
    assert(generation_settled(w2));
    lemma_published_state_reloads(w2, bytes);
}

/// Superseding leaves no shot candidate in play.
proof fn lemma_superseded_not_in_play(arts: Seq<RecordView>, k: int)
    requires
        0 <= k < arts.len(),
    ensures
        !(supersede_all(arts)[k].artifact_type == crate::shot_model::shot_candidate_type()
            && crate::shot_model::is_live(supersede_all(arts)[k].status)),
{
}

/// After superseding, no generation is recorded as in play.
proof fn lemma_superseded_publishes_nothing(arts: Seq<RecordView>, expected: Seq<Seq<char>>)
    requires
        expected.len() > 0,
    ensures
        !crate::shot_model::generation_published(supersede_all(arts), expected),
{
    let arts2 = supersede_all(arts);
    lemma_first_index(arts2, expected[0]);
    if first_index(arts2, expected[0]) is Some {
        lemma_superseded_not_in_play(arts, first_index(arts2, expected[0])->Some_0);
    }
    assert(!(match lookup(arts2, expected[0]) {
        Some(a) => a.artifact_type == crate::shot_model::shot_candidate_type()
            && crate::shot_model::is_live(a.status),
        None => false,
    }));
}

/// A reset interrupted once its records are published: every listed
/// candidate is now superseded, so loading clears the selection and the
/// shot loads exactly as the finished reset leaves it, which is also what
/// loads once the selection is written too. This holds where every listed
/// candidate is a shot candidate.
pub proof fn lemma_reset_interrupted_after_records(
    w: WorkflowView,
    writable: bool,
    bytes: Option<Seq<u8>>,
)
    requires
        reset_verdict(w, writable) is Ok,
        crate::shot_model::validate_verdict(w) is Ok,
        w.issues.len() == 0,
        w.legacy_bytes is None,
        crate::shot_model::accept_shot_verdict(w.shot_number, Some(w.shot)) == Ok::<
            crate::shot_records::ShotView,
            ShotWorkflowError,
        >(w.shot),
        generation_settled(w),
        forall|k: int|
            0 <= k < w.artifacts.len() && w.selection.candidates.contains(
                #[trigger] w.artifacts[k].artifact_id,
            ) ==> w.artifacts[k].artifact_type == crate::shot_model::shot_candidate_type(),
    ensures
        ({
            let after = apply_publication(w, reset_verdict(w, writable)->Ok_0);
            &&& crate::shot_model::load_verdict(
                w.shot_number,
                Some(after.shot),
                Some(after.artifacts),
                bytes,
                Some(w.selection),
            ) == Ok::<WorkflowView, ShotWorkflowError>(after)
            &&& crate::shot_model::load_verdict(
                w.shot_number,
                Some(after.shot),
                Some(after.artifacts),
                bytes,
                Some(after.selection),
            ) == Ok::<WorkflowView, ShotWorkflowError>(after)
        }),
{
    let after = apply_publication(w, reset_verdict(w, writable)->Ok_0);
    let arts = w.artifacts;
    let arts2 = after.artifacts;
    let sel = w.selection;
    let n = arts.len() as int;
    assert(arts2 == supersede_all(arts));
    assert(crate::shot_model::selection_consistent(arts, sel));
    assert(crate::shot_records::selection_verdict(sel) is Ok);
    // every selected or locked record is the selection, which is listed
    assert forall|k: int|
        0 <= k < arts.len() && crate::shot_model::is_chosen(#[trigger] arts[k].status)
            implies arts[k].artifact_type == crate::shot_model::shot_candidate_type() by {
        assert(sel.selected == Some(arts[k].artifact_id));
        assert(sel.candidates.contains(arts[k].artifact_id));
    }
    lemma_reset_keeps_state_valid(w, writable);
    assert(same_but_status(arts, arts2)) by {
        assert forall|k: int| 0 <= k < arts.len() implies #[trigger] arts2[k] == (RecordView {
            status: arts2[k].status,
            ..arts[k]
        }) by {}
    }
    // nothing to recover after a finished reset
    let rev = w.shot.generation_revision;
    if rev != 0 {
        assert(crate::shot_hash::candidate_ids_error(w.shot.shot_id, rev) is None);
        lemma_superseded_publishes_nothing(arts, candidate_texts(w.shot.shot_id, rev));
    }
    assert(after.selection.candidates.len() == 0);
    assert(generation_settled(after));
    lemma_published_state_reloads(after, bytes);
    // the stored selection recovers to the cleared one
    lemma_valid_records_each(arts2, n);
    lemma_normalize_canonical(arts2, after.shot.shot_id, n);
    assert(arts2.take(n) =~= arts2);
    assert(crate::shot_model::recover_generation_verdict(after.shot, arts2, sel) == Ok::<
        crate::shot_records::SelectionView,
        ShotWorkflowError,
    >(sel));
    if sel.candidates.len() != 0 {
        assert forall|k: int| 0 <= k < sel.candidates.len() implies crate::artifact::artifact_id_verdict(
            #[trigger] sel.candidates[k],
        ) is Ok && match lookup(arts2, sel.candidates[k]) {
            Some(a) => a.status == ArtifactStatus::Superseded,
            None => false,
        } by {
            let c = sel.candidates[k];
            crate::shot_records::lemma_first_id_error_none(sel.candidates, sel.candidates.len() as int, k);
            assert(match lookup(arts, c) {
                Some(a) => crate::shot_model::is_live(a.status),
                None => false,
            });
            lemma_first_index(arts, c);
            lemma_first_index_same_ids(arts, arts2, c, 0);
            let i = first_index(arts, c)->Some_0;
            assert(sel.candidates.contains(arts[i].artifact_id));
        }
        assert(crate::shot_model::all_superseded(arts2, sel.candidates));
    } else {
        assert(sel.selected is None);
        assert(sel.candidates =~= Seq::<Seq<char>>::empty());
    }
    assert(crate::shot_model::recover_cleared(arts2, sel) == after.selection);
    assert(crate::shot_model::recover_cleared(arts2, after.selection) == after.selection);
}

/// Records that differ only in statuses that keep each record in play or
/// out of it publish the same generations.
proof fn lemma_published_same_liveness(
    a: Seq<RecordView>,
    b: Seq<RecordView>,
    expected: Seq<Seq<char>>,
)
    requires
        same_but_status(a, b),
        forall|k: int|
            0 <= k < a.len() ==> crate::shot_model::is_live(#[trigger] a[k].status)
                == crate::shot_model::is_live(b[k].status),
    ensures
        crate::shot_model::generation_published(a, expected)
            == crate::shot_model::generation_published(b, expected),
{
    assert forall|i: int| 0 <= i < expected.len() implies (match lookup(a, #[trigger] expected[i]) {
        Some(r) => r.artifact_type == crate::shot_model::shot_candidate_type()
            && crate::shot_model::is_live(r.status),
        None => false,
    }) == (match lookup(b, expected[i]) {
        Some(r) => r.artifact_type == crate::shot_model::shot_candidate_type()
            && crate::shot_model::is_live(r.status),
        None => false,
    }) by {
        lemma_first_index_same_ids(a, b, expected[i], 0);
        lemma_first_index(a, expected[i]);
        if first_index(a, expected[i]) is Some {
            let j = first_index(a, expected[i])->Some_0;
            assert(b[j] == (RecordView { status: b[j].status, ..a[j] }));
        }
    }
}

/// Reconciling the records a selection published with the selection it
/// replaced gives back the records as they were before it.
proof fn lemma_reconcile_undoes_selection(
    arts: Seq<RecordView>,
    marked: Seq<RecordView>,
    sel: crate::shot_records::SelectionView,
    chosen: Seq<char>,
    n: int,
)
    requires
        0 <= n <= arts.len(),
        crate::shot_model::selection_consistent(arts, sel),
        crate::shot_records::selection_verdict(sel) is Ok,
        ids_distinct(arts),
        forall|k: int| 0 <= k < arts.len() ==> crate::shot_records::record_domain_verdict(#[trigger] arts[k]) is Ok,
        forall|k: int|
            0 <= k < arts.len() && crate::shot_model::is_chosen(#[trigger] arts[k].status)
                ==> arts[k].status == ArtifactStatus::Selected,
        sel.candidates.contains(chosen),
        same_but_status(arts, marked),
        forall|k: int|
            0 <= k < arts.len() ==> {
                &&& (arts[k].artifact_id == chosen ==> (#[trigger] marked[k]).status
                    == ArtifactStatus::Selected)
                &&& (arts[k].artifact_id != chosen && sel.selected == Some(arts[k].artifact_id)
                    ==> marked[k].status == ArtifactStatus::Candidate)
                &&& (arts[k].artifact_id != chosen && sel.selected != Some(arts[k].artifact_id)
                    ==> marked[k].status == arts[k].status)
            },
    ensures
        crate::shot_model::reconcile_upto(marked, sel, n) == Ok::<Seq<RecordView>, ShotWorkflowError>(
            arts.take(n),
        ),
    decreases n,
{
    if n == 0 {
        assert(arts.take(0) =~= Seq::<RecordView>::empty());
    } else {
        lemma_reconcile_undoes_selection(arts, marked, sel, chosen, n - 1);
        let k = n - 1;
        let a = arts[k];
        let m = marked[k];
        assert(m == (RecordView { status: m.status, ..a }));
        assert(crate::shot_records::record_domain_verdict(m)
            == crate::shot_records::record_domain_verdict(a));
        lemma_first_index(arts, a.artifact_id);
        let i = first_index(arts, a.artifact_id)->Some_0;
        assert(i == k) by {
            if i < k {
                assert(arts[i].artifact_id != arts[k].artifact_id);
            }
        }
        assert(lookup(arts, a.artifact_id) == Some(a));
        let is_candidate = sel.candidates.contains(a.artifact_id);
        let is_selected = sel.selected == Some(a.artifact_id);
        if is_candidate {
            let j = choose|j: int| 0 <= j < sel.candidates.len() && sel.candidates[j] == a.artifact_id;
            assert(match lookup(arts, sel.candidates[j]) {
                Some(b) => crate::shot_model::is_live(b.status),
                None => false,
            });
            assert(crate::shot_model::is_live(a.status));
        }
        if crate::shot_model::is_chosen(a.status) {
            assert(sel.selected == Some(arts[k].artifact_id));
        }
        if is_selected {
            assert(match lookup(arts, a.artifact_id) {
                Some(b) => crate::shot_model::is_chosen(b.status),
                None => false,
            });
            assert(sel.candidates.contains(a.artifact_id));
        }
        if a.artifact_id == chosen {
            if is_selected {
                assert(a.status == ArtifactStatus::Selected);
                assert(m == a);
            } else {
                assert(a.status == ArtifactStatus::Candidate);
                assert(crate::shot_records::record_transition_verdict(m, ArtifactStatus::Candidate) is Ok);
                assert((RecordView { status: ArtifactStatus::Candidate, ..m }) == a);
            }
        } else if is_selected {
            assert(a.status == ArtifactStatus::Selected);
            assert(crate::shot_records::record_transition_verdict(m, ArtifactStatus::Selected) is Ok);
            assert((RecordView { status: ArtifactStatus::Selected, ..m }) == a);
        } else {
            assert(m == a);
        }
        assert(crate::shot_model::reconcile_record(m, sel) == Ok::<RecordView, ShotWorkflowError>(a));
        assert(arts.take(n - 1).push(a) =~= arts.take(n));
    }
}

/// What a selection's published records keep: identities, whether each
/// record is in play, and a pointer that names no locked record.
proof fn lemma_selection_records(w: WorkflowView, writable: bool, index: int)
    requires
        0 <= index,
        select_verdict(w, writable, index) is Ok,
        w.issues.len() == 0,
    ensures
        ({
            let arts = w.artifacts;
            let sel = w.selection;
            let chosen = sel.candidates[index];
            let marked = apply_publication(w, select_verdict(w, writable, index)->Ok_0).artifacts;
            &&& 0 <= index < sel.candidates.len()
            &&& crate::shot_model::validate_verdict(w) is Ok
            &&& ids_distinct(arts)
            &&& crate::shot_model::selection_consistent(arts, sel)
            &&& crate::shot_records::selection_verdict(sel) is Ok
            &&& sel.candidates.contains(chosen)
            &&& forall|k: int| 0 <= k < arts.len() ==> crate::shot_records::record_domain_verdict(#[trigger] arts[k]) is Ok
            &&& forall|k: int|
                0 <= k < arts.len() && crate::shot_model::is_chosen(#[trigger] arts[k].status)
                    ==> arts[k].status == ArtifactStatus::Selected
            &&& same_but_status(arts, marked)
            &&& forall|k: int|
                0 <= k < arts.len() ==> {
                    &&& (arts[k].artifact_id == chosen ==> (#[trigger] marked[k]).status
                        == ArtifactStatus::Selected)
                    &&& (arts[k].artifact_id != chosen && sel.selected == Some(arts[k].artifact_id)
                        ==> marked[k].status == ArtifactStatus::Candidate)
                    &&& (arts[k].artifact_id != chosen && sel.selected != Some(arts[k].artifact_id)
                        ==> marked[k].status == arts[k].status)
                }
            &&& forall|k: int| 0 <= k < arts.len() ==> crate::shot_model::is_live(
                #[trigger] arts[k].status,
            ) == crate::shot_model::is_live(marked[k].status)
        }),
{
    lemma_select_preconditions(w, writable, index);
    lemma_select_unfold(w, writable, index);
    let arts = w.artifacts;
    let sel = w.selection;
    let n = arts.len() as int;
    let chosen = sel.candidates[index];
    let after = apply_publication(w, select_verdict(w, writable, index)->Ok_0);
    lemma_select_statuses_core(arts, sel.selected, chosen);
    let marked = after.artifacts;
    assert(marked == mark_chosen(release_previous(arts, sel.selected, chosen)->Ok_0, chosen)->Ok_0);
    assert(crate::shot_model::selection_consistent(arts, sel));
    assert(crate::shot_records::selection_verdict(sel) is Ok);
    lemma_valid_records_each(arts, n);
    // no record is locked
    assert forall|k: int|
        0 <= k < arts.len() && crate::shot_model::is_chosen(#[trigger] arts[k].status)
            implies arts[k].status == ArtifactStatus::Selected by {
        assert(sel.selected == Some(arts[k].artifact_id));
        lemma_first_index(arts, arts[k].artifact_id);
        let i = first_index(arts, arts[k].artifact_id)->Some_0;
        assert(i == k) by {
            if i < k {
                assert(arts[i].artifact_id != arts[k].artifact_id);
            }
            if i > k {
                assert(arts[k].artifact_id != arts[i].artifact_id);
            }
        }
    }
    assert(sel.candidates.contains(chosen));
    // every record stays in play or out of it
    assert forall|k: int| 0 <= k < arts.len() implies crate::shot_model::is_live(
        #[trigger] arts[k].status,
    ) == crate::shot_model::is_live(marked[k].status) by {
        if arts[k].artifact_id == chosen {
            lemma_first_index(arts, chosen);
            let ci = first_index(arts, chosen)->Some_0;
            assert(ci == k) by {
                if ci < k {
                    assert(arts[ci].artifact_id != arts[k].artifact_id);
                }
                if ci > k {
                    assert(arts[k].artifact_id != arts[ci].artifact_id);
                }
            }
        } else if sel.selected == Some(arts[k].artifact_id) {
            assert(match lookup(arts, arts[k].artifact_id) {
                Some(b) => crate::shot_model::is_chosen(b.status),
                None => false,
            });
            lemma_first_index(arts, arts[k].artifact_id);
            let i = first_index(arts, arts[k].artifact_id)->Some_0;
            assert(i == k) by {
                if i < k {
                    assert(arts[i].artifact_id != arts[k].artifact_id);
                }
                if i > k {
                    assert(arts[k].artifact_id != arts[i].artifact_id);
                }
            }
        }
    }
}

/// A selection interrupted once its statuses are published: the selection
/// pointer, which is the authority for the human choice, still names the
/// previous choice, so loading reconciles the statuses to it and the shot
/// loads exactly as it was before the selection.
pub proof fn lemma_selection_interrupted_after_records(
    w: WorkflowView,
    writable: bool,
    index: int,
    bytes: Option<Seq<u8>>,
)
    requires
        0 <= index,
        select_verdict(w, writable, index) is Ok,
        w.issues.len() == 0,
        w.legacy_bytes is None,
        crate::shot_model::accept_shot_verdict(w.shot_number, Some(w.shot)) == Ok::<
            crate::shot_records::ShotView,
            ShotWorkflowError,
        >(w.shot),
        generation_settled(w),
    ensures
        ({
            let after = apply_publication(w, select_verdict(w, writable, index)->Ok_0);
            crate::shot_model::load_verdict(
                w.shot_number,
                Some(w.shot),
                Some(after.artifacts),
                bytes,
                Some(w.selection),
            ) == Ok::<WorkflowView, ShotWorkflowError>(w)
        }),
{
    lemma_selection_records(w, writable, index);
    let arts = w.artifacts;
    let sel = w.selection;
    let n = arts.len() as int;
    let chosen = sel.candidates[index];
    let after = apply_publication(w, select_verdict(w, writable, index)->Ok_0);
    let marked = after.artifacts;
    // the stored records normalize to themselves
    assert forall|k: int| 0 <= k < marked.len() implies crate::shot_records::record_domain_verdict(
        #[trigger] marked[k],
    ) is Ok by {
        assert(marked[k] == (RecordView { status: marked[k].status, ..arts[k] }));
        assert(crate::shot_records::record_domain_verdict(marked[k])
            == crate::shot_records::record_domain_verdict(arts[k]));
    }
    lemma_normalize_canonical(marked, w.shot.shot_id, n);
    assert(marked.take(n) =~= marked);
    // nothing else to recover
    let rev = w.shot.generation_revision;
    if rev != 0 {
        lemma_published_same_liveness(arts, marked, candidate_texts(w.shot.shot_id, rev));
    }
    assert(crate::shot_model::recover_generation_verdict(w.shot, marked, sel) == Ok::<
        crate::shot_records::SelectionView,
        ShotWorkflowError,
    >(sel));
    if sel.candidates.len() != 0 {
        assert(match lookup(arts, sel.candidates[0]) {
            Some(a) => crate::shot_model::is_live(a.status),
            None => false,
        });
        lemma_first_index(arts, sel.candidates[0]);
        lemma_first_index_same_ids(arts, marked, sel.candidates[0], 0);
        assert(!crate::shot_model::all_superseded(marked, sel.candidates));
    }
    assert(crate::shot_model::recover_cleared(marked, sel) == sel);
    lemma_reconcile_undoes_selection(arts, marked, sel, chosen, n);
    assert(arts.take(n) =~= arts);
    let w1 = WorkflowView {
        shot_number: w.shot_number,
        shot: w.shot,
        artifacts: marked,
        selection: sel,
        issues: Seq::empty(),
        migrations: Seq::empty(),
        legacy_bytes: None,
    };
    assert(crate::shot_model::recover_verdict(w1) == Ok::<WorkflowView, ShotWorkflowError>(
        WorkflowView { artifacts: arts, ..w1 },
    ));
    assert(w1.issues =~= w.issues);
    assert(w1.migrations =~= w.migrations);
    assert((WorkflowView { artifacts: arts, ..w1 }) == w);
}

/// A migrated legacy candidate carries the hashes a fresh generation of the
/// same candidate under the same direction records: the demo digest of its
/// identifier, and the digest of the direction's intent.
pub proof fn lemma_migration_matches_generation(a: RecordView, shot_id: Seq<char>)
    requires
        crate::shot_model::content_migrates(a),
        crate::shot_model::input_migration(a, shot_id) is Some,
    ensures
        ({
            let d = crate::shot_model::input_migration(a, shot_id)->Some_0;
            let fresh = new_candidate(a.artifact_id, crate::shot_hash::intent_hash_text(shot_id, d));
            let migrated = crate::shot_model::normalized_record(a, shot_id);
            &&& migrated.content_hash == fresh.content_hash
            &&& migrated.input_hash == fresh.input_hash
            &&& migrated.artifact_id == a.artifact_id
            &&& migrated.status == a.status
        }),
{
}

/// A finished selection reloads as itself: its statuses and pointer, read
/// back from the files, give exactly the state the selection left.
pub proof fn lemma_selection_reloads(
    w: WorkflowView,
    writable: bool,
    index: int,
    bytes: Option<Seq<u8>>,
)
    requires
        0 <= index,
        select_verdict(w, writable, index) is Ok,
        w.issues.len() == 0,
        w.legacy_bytes is None,
        crate::shot_model::accept_shot_verdict(w.shot_number, Some(w.shot)) == Ok::<
            crate::shot_records::ShotView,
            ShotWorkflowError,
        >(w.shot),
        generation_settled(w),
    ensures
        ({
            let after = apply_publication(w, select_verdict(w, writable, index)->Ok_0);
            crate::shot_model::load_verdict(
                w.shot_number,
                Some(after.shot),
                Some(after.artifacts),
                bytes,
                Some(after.selection),
            ) == Ok::<WorkflowView, ShotWorkflowError>(after)
        }),
{
    lemma_selection_records(w, writable, index);
    lemma_select_keeps_state_valid(w, writable, index);
    let after = apply_publication(w, select_verdict(w, writable, index)->Ok_0);
    let rev = w.shot.generation_revision;
    if rev != 0 {
        lemma_published_same_liveness(
            w.artifacts,
            after.artifacts,
            candidate_texts(w.shot.shot_id, rev),
        );
    }
    assert(after.selection.candidates == w.selection.candidates);
    assert(generation_settled(after));
    lemma_published_state_reloads(after, bytes);
}

/// A finished lock reloads as itself: the locked status, read back from the
/// records file, gives exactly the state the lock left.
pub proof fn lemma_lock_reloads(w: WorkflowView, writable: bool, bytes: Option<Seq<u8>>)
    requires
        lock_verdict(w, writable) is Ok,
        w.issues.len() == 0,
        w.legacy_bytes is None,
        crate::shot_model::accept_shot_verdict(w.shot_number, Some(w.shot)) == Ok::<
            crate::shot_records::ShotView,
            ShotWorkflowError,
        >(w.shot),
        generation_settled(w),
    ensures
        ({
            let after = apply_publication(w, lock_verdict(w, writable)->Ok_0);
            crate::shot_model::load_verdict(
                w.shot_number,
                Some(after.shot),
                Some(after.artifacts),
                bytes,
                Some(after.selection),
            ) == Ok::<WorkflowView, ShotWorkflowError>(after)
        }),
{
    lemma_lock_keeps_state_valid(w, writable);
    let after = apply_publication(w, lock_verdict(w, writable)->Ok_0);
    let arts = w.artifacts;
    let s = w.selection.selected->Some_0;
    assert(after.artifacts == set_status_of(arts, s, ArtifactStatus::Locked));
    lemma_set_status_same_but_status(arts, s, ArtifactStatus::Locked);
    lemma_first_index(arts, s);
    let i = first_index(arts, s)->Some_0;
    assert(arts[i].status == ArtifactStatus::Selected);
    assert forall|k: int| 0 <= k < arts.len() implies crate::shot_model::is_live(
        #[trigger] arts[k].status,
    ) == crate::shot_model::is_live(after.artifacts[k].status) by {
        if k != i {
            assert(after.artifacts[k] == arts[k]);
        }
    }
    let rev = w.shot.generation_revision;
    if rev != 0 {
        lemma_published_same_liveness(arts, after.artifacts, candidate_texts(w.shot.shot_id, rev));
    }
    assert(generation_settled(after));
    lemma_published_state_reloads(after, bytes);
}

/// A finished change of direction reloads as itself.
pub proof fn lemma_direction_change_reloads(
    w: WorkflowView,
    writable: bool,
    direction: ShotDirection,
    bytes: Option<Seq<u8>>,
)
    requires
        set_direction_verdict(w, writable, direction) is Ok,
        w.issues.len() == 0,
        w.legacy_bytes is None,
        crate::shot_model::accept_shot_verdict(w.shot_number, Some(w.shot)) == Ok::<
            crate::shot_records::ShotView,
            ShotWorkflowError,
        >(w.shot),
        generation_settled(w),
    ensures
        ({
            let after = apply_publication(w, set_direction_verdict(w, writable, direction)->Ok_0);
            crate::shot_model::load_verdict(
                w.shot_number,
                Some(after.shot),
                Some(after.artifacts),
                bytes,
                Some(after.selection),
            ) == Ok::<WorkflowView, ShotWorkflowError>(after)
        }),
{
    lemma_direction_change_keeps_candidates(w, writable, direction);
    let after = apply_publication(w, set_direction_verdict(w, writable, direction)->Ok_0);
    assert(crate::shot_model::validate_verdict(w) is Ok);
    assert(generation_settled(after));
    lemma_published_state_reloads(after, bytes);
}

/// The first record carrying `id` is missing, or records an input hash
/// other than `input`.
#[verifier::opaque]
pub open spec fn first_record_differs(arts: Seq<RecordView>, id: Seq<char>, input: Seq<char>) -> bool {
    ||| forall|j: int| 0 <= j < arts.len() ==> (#[trigger] arts[j]).artifact_id != id
    ||| exists|i: int|
        0 <= i < arts.len() && (#[trigger] arts[i]).artifact_id == id && (forall|j: int|
            0 <= j < i ==> arts[j].artifact_id != id) && arts[i].input_hash != Some(input)
}

proof fn lemma_candidate_stale_iff_differs(arts: Seq<RecordView>, id: Seq<char>, input: Seq<char>)
    ensures
        crate::shot_model::candidate_is_stale(arts, id, input) <==> first_record_differs(arts, id, input),
{
    reveal(first_record_differs);
    lemma_first_index(arts, id);
    match first_index(arts, id) {
        Some(i) => {
            if first_record_differs(arts, id, input) {
                if exists|i2: int|
                    0 <= i2 < arts.len() && (#[trigger] arts[i2]).artifact_id == id && (forall|j: int|
                        0 <= j < i2 ==> arts[j].artifact_id != id) && arts[i2].input_hash != Some(input) {
                    let i2 = choose|i2: int|
                        0 <= i2 < arts.len() && (#[trigger] arts[i2]).artifact_id == id && (forall|j: int|
                            0 <= j < i2 ==> arts[j].artifact_id != id) && arts[i2].input_hash != Some(input);
                    assert(i2 == i) by {
                        if i2 < i {
                            assert(arts[i2].artifact_id != id);
                        }
                        if i < i2 {
                            assert(arts[i].artifact_id != id);
                        }
                    }
                } else {
                    assert(arts[i].artifact_id != id);
                }
            }
            if crate::shot_model::candidate_is_stale(arts, id, input) {
                assert(arts[i].input_hash != Some(input));
                assert(first_record_differs(arts, id, input));
            }
        },
        None => {},
    }
}

/// A shot is stale exactly when one of its listed candidates, selected or
/// not, has no record or was generated from an intent other than the shot's
/// current one: the first record carrying its identifier is missing or
/// records another input hash than the digest of the shot's current
/// direction.
pub proof fn lemma_stale_means_a_listed_candidate_is_outdated(w: WorkflowView)
    ensures
        is_stale(w) <==> exists|k: int|
            0 <= k < w.selection.candidates.len() && first_record_differs(
                w.artifacts,
                #[trigger] w.selection.candidates[k],
                crate::shot_hash::intent_hash_text(w.shot.shot_id, w.shot.direction),
            ),
{
    let input = crate::shot_hash::intent_hash_text(w.shot.shot_id, w.shot.direction);
    let cands = w.selection.candidates;
    assert(crate::shot_model::current_input_hash(w) == input);
    if is_stale(w) {
        let k = choose|k: int|
            0 <= k < cands.len() && crate::shot_model::candidate_is_stale(
                w.artifacts,
                #[trigger] cands[k],
                input,
            );
        lemma_candidate_stale_iff_differs(w.artifacts, cands[k], input);
        assert(first_record_differs(w.artifacts, cands[k], input));
    } else {
        assert forall|k: int| 0 <= k < cands.len() implies !first_record_differs(
            w.artifacts,
            #[trigger] cands[k],
            input,
        ) by {
            lemma_candidate_stale_iff_differs(w.artifacts, cands[k], input);
            assert(!crate::shot_model::candidate_is_stale(w.artifacts, cands[k], input));
        }
    }
}

/// Staleness does not depend on which candidate, if any, is selected.
pub proof fn lemma_stale_ignores_the_selection(w: WorkflowView, selected: Option<Seq<char>>)
    ensures
        is_stale(w) == is_stale(
            WorkflowView {
                selection: crate::shot_records::SelectionView { selected, ..w.selection },
                ..w
            },
        ),
{
    let v = WorkflowView {
        selection: crate::shot_records::SelectionView { selected, ..w.selection },
        ..w
    };
    lemma_stale_means_a_listed_candidate_is_outdated(w);
    lemma_stale_means_a_listed_candidate_is_outdated(v);
}

} // verus!
