use vstd::prelude::*;

use crate::artifact::{ArtifactId, ContentHash, InputHash};

verus! {

/// Review state of an artifact.
#[derive(Debug, Clone, Copy, PartialEq, Eq, Structural)]
pub enum ArtifactStatus {
    Draft,
    Candidate,
    Selected,
    Locked,
    Superseded,
}

/// The lifecycle graph: draft → candidate ⇄ selected → locked, and any
/// generated, selected or locked artifact may be superseded.
pub open spec fn transition_allowed(from: ArtifactStatus, to: ArtifactStatus) -> bool {
    match (from, to) {
        (ArtifactStatus::Draft, ArtifactStatus::Candidate) => true,
        (ArtifactStatus::Candidate, ArtifactStatus::Selected) => true,
        (ArtifactStatus::Candidate, ArtifactStatus::Superseded) => true,
        (ArtifactStatus::Selected, ArtifactStatus::Candidate) => true,
        (ArtifactStatus::Selected, ArtifactStatus::Locked) => true,
        (ArtifactStatus::Selected, ArtifactStatus::Superseded) => true,
        (ArtifactStatus::Locked, ArtifactStatus::Superseded) => true,
        _ => false,
    }
}

impl ArtifactStatus {
    pub fn can_transition_to(self, next: ArtifactStatus) -> (r: bool)
        ensures
            r == transition_allowed(self, next),
    {
        match (self, next) {
            (ArtifactStatus::Draft, ArtifactStatus::Candidate)
            | (ArtifactStatus::Candidate, ArtifactStatus::Selected)
            | (ArtifactStatus::Candidate, ArtifactStatus::Superseded)
            | (ArtifactStatus::Selected, ArtifactStatus::Candidate)
            | (ArtifactStatus::Selected, ArtifactStatus::Locked)
            | (ArtifactStatus::Selected, ArtifactStatus::Superseded)
            | (ArtifactStatus::Locked, ArtifactStatus::Superseded) => true,
            _ => false,
        }
    }
}

/// Whether a dependency edge can make its child stale.
#[derive(Debug, Clone, Copy, PartialEq, Eq, Structural)]
pub enum DependencyImpact {
    Semantic,
    Cosmetic,
}

/// A recorded parent of an artifact, with the parent hash seen at generation.
#[derive(Debug, PartialEq, Eq)]
pub struct ArtifactDependency {
    pub artifact_id: ArtifactId,
    pub content_hash: ContentHash,
    pub impact: DependencyImpact,
    pub field: Option<String>,
}

/// Canonical metadata of one artifact.
#[derive(Debug, PartialEq, Eq)]
pub struct ArtifactRecord {
    pub artifact_id: ArtifactId,
    pub status: ArtifactStatus,
    pub content_hash: ContentHash,
    pub input_hash: Option<InputHash>,
    pub dependencies: Vec<ArtifactDependency>,
}

/// A refused lifecycle transition.
#[derive(Debug, Clone, Copy, PartialEq, Eq, Structural)]
pub struct LifecycleError {
    pub current: ArtifactStatus,
    pub requested: ArtifactStatus,
}

impl ArtifactRecord {
    /// Moves the record along one lifecycle edge; other fields never change.
    pub fn transition(&mut self, next: ArtifactStatus) -> (r: Result<(), LifecycleError>)
        ensures
            r is Ok <==> transition_allowed(old(self).status, next),
            r is Ok ==> final(self).status == next,
            r matches Err(e) ==> e == (LifecycleError { current: old(self).status, requested: next })
                && final(self).status == old(self).status,
            final(self).artifact_id == old(self).artifact_id,
            final(self).content_hash == old(self).content_hash,
            final(self).input_hash == old(self).input_hash,
            final(self).dependencies == old(self).dependencies,
    {
        if !self.status.can_transition_to(next) {
            return Err(LifecycleError { current: self.status, requested: next });
        }
        self.status = next;
        Ok(())
    }
}

/// Locked artifacts only move forward: the one edge out of `Locked` leads to
/// `Superseded`, and nothing leaves `Superseded` or re-enters `Draft`.
pub proof fn lemma_lifecycle_is_forward_only(from: ArtifactStatus, to: ArtifactStatus)
    ensures
        from == ArtifactStatus::Locked && transition_allowed(from, to) ==> to
            == ArtifactStatus::Superseded,
        from == ArtifactStatus::Superseded ==> !transition_allowed(from, to),
        to == ArtifactStatus::Draft ==> !transition_allowed(from, to),
        !transition_allowed(from, from),
{
}

/// Every status but `Superseded` itself reaches `Superseded` in at most two
/// steps, except a draft, which must become a candidate first.
pub proof fn lemma_superseded_is_reachable(from: ArtifactStatus)
    ensures
        from == ArtifactStatus::Candidate || from == ArtifactStatus::Selected || from
            == ArtifactStatus::Locked ==> transition_allowed(from, ArtifactStatus::Superseded),
        from == ArtifactStatus::Draft ==> transition_allowed(from, ArtifactStatus::Candidate)
            && transition_allowed(ArtifactStatus::Candidate, ArtifactStatus::Superseded),
{
}

/// Approval happens in order: only a candidate can be selected, and only a
/// selected artifact can be locked, so locking always follows a selection.
pub proof fn lemma_locking_requires_selection(from: ArtifactStatus)
    ensures
        transition_allowed(from, ArtifactStatus::Locked) <==> from == ArtifactStatus::Selected,
        transition_allowed(from, ArtifactStatus::Selected) <==> from == ArtifactStatus::Candidate,
        transition_allowed(from, ArtifactStatus::Candidate) <==> (from == ArtifactStatus::Draft
            || from == ArtifactStatus::Selected),
{
}

/// The human choice among a shot's candidates: a pointer, never a rename.
#[derive(Debug, PartialEq, Eq, Default)]
pub struct SelectionManifest {
    pub selected_artifact_id: Option<ArtifactId>,
    pub candidate_artifact_ids: Vec<ArtifactId>,
}

/// Identifier texts of a list of artifact identifiers.
pub open spec fn id_views(ids: Seq<ArtifactId>) -> Seq<Seq<char>> {
    ids.map_values(|id: ArtifactId| id@)
}

/// Refused selection.
#[derive(Debug, PartialEq, Eq)]
pub enum SelectionError {
    UnknownCandidate(ArtifactId),
}

/// Position of the first identifier with the given text, if any.
pub fn position_of_id(ids: &Vec<ArtifactId>, id: &ArtifactId) -> (r: Option<usize>)
    ensures
        match r {
            Some(i) => i < ids@.len() && ids@[i as int]@ == id@ && forall|j: int|
                0 <= j < i ==> ids@[j]@ != id@,
            None => forall|j: int| 0 <= j < ids@.len() ==> ids@[j]@ != id@,
        },
        r is Some <==> id_views(ids@).contains(id@),
{
    let mut i: usize = 0;
    while i < ids.len()
        invariant
            0 <= i <= ids@.len(),
            forall|j: int| 0 <= j < i ==> ids@[j]@ != id@,
        decreases ids.len() - i,
    {
        if ids[i].same_as(id) {
            proof {
                assert(id_views(ids@)[i as int] == id@);
            }
            return Some(i);
        }
        i = i + 1;
    }
    proof {
        if id_views(ids@).contains(id@) {
            let k = choose|k: int| 0 <= k < id_views(ids@).len() && id_views(ids@)[k] == id@;
            assert(ids@[k]@ == id@);
        }
    }
    None
}

impl SelectionManifest {
    /// Points the selection at a known candidate; the candidate list is never
    /// touched.
    pub fn select(&mut self, artifact_id: &ArtifactId) -> (r: Result<(), SelectionError>)
        ensures
            r is Ok <==> id_views(old(self).candidate_artifact_ids@).contains(artifact_id@),
            r is Ok ==> final(self).selected_artifact_id == Some(*artifact_id),
            r matches Err(SelectionError::UnknownCandidate(id)) ==> id == *artifact_id
                && final(self).selected_artifact_id == old(self).selected_artifact_id,
            final(self).candidate_artifact_ids == old(self).candidate_artifact_ids,
    {
        if position_of_id(&self.candidate_artifact_ids, artifact_id).is_none() {
            return Err(SelectionError::UnknownCandidate(artifact_id.clone()));
        }
        self.selected_artifact_id = Some(artifact_id.clone());
        Ok(())
    }
}

} // verus!
