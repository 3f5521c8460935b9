use vstd::prelude::*;

use crate::artifact::{ArtifactId, ContentHash};
use crate::lifecycle::{ArtifactDependency, ArtifactRecord, DependencyImpact};

verus! {

/// One reason a recorded dependency no longer matches the project.
#[derive(Debug, PartialEq, Eq)]
pub enum DependencyChange {
    Missing { artifact_id: ArtifactId, field: Option<String> },
    ContentChanged {
        artifact_id: ArtifactId,
        field: Option<String>,
        recorded: ContentHash,
        current: ContentHash,
    },
}

/// Computed freshness of an artifact against its semantic parents.
#[derive(Debug, PartialEq, Eq)]
pub enum Currentness {
    Current,
    Stale(Vec<DependencyChange>),
    Incompatible(Vec<DependencyChange>),
}

/// `Currentness` with its change lists as sequences.
pub enum CurrentnessView {
    Current,
    Stale(Seq<DependencyChange>),
    Incompatible(Seq<DependencyChange>),
}

impl View for Currentness {
    type V = CurrentnessView;

    open spec fn view(&self) -> CurrentnessView {
        match self {
            Currentness::Current => CurrentnessView::Current,
            Currentness::Stale(v) => CurrentnessView::Stale(v@),
            Currentness::Incompatible(v) => CurrentnessView::Incompatible(v@),
        }
    }
}

/// Content hash of the last record with the given identifier.
pub open spec fn latest_record_hash(records: Seq<&ArtifactRecord>, id: Seq<char>) -> Option<
    ContentHash,
>
    decreases records.len(),
{
    if records.len() == 0 {
        None
    } else if records.last().artifact_id@ == id {
        Some(records.last().content_hash)
    } else {
        latest_record_hash(records.drop_last(), id)
    }
}

/// Content hash of the last entry with the given identifier.
pub open spec fn latest_entry_hash(entries: Seq<(ArtifactId, ContentHash)>, id: Seq<char>) -> Option<
    ContentHash,
>
    decreases entries.len(),
{
    if entries.len() == 0 {
        None
    } else if entries.last().0@ == id {
        Some(entries.last().1)
    } else {
        latest_entry_hash(entries.drop_last(), id)
    }
}

/// Semantic dependencies whose parent is absent from `hashes`, in order.
pub open spec fn missing_changes(
    hashes: spec_fn(Seq<char>) -> Option<ContentHash>,
    deps: Seq<ArtifactDependency>,
) -> Seq<DependencyChange>
    decreases deps.len(),
{
    if deps.len() == 0 {
        Seq::empty()
    } else {
        let prev = missing_changes(hashes, deps.drop_last());
        let d = deps.last();
        if d.impact == DependencyImpact::Semantic && hashes(d.artifact_id@) is None {
            prev.push(DependencyChange::Missing { artifact_id: d.artifact_id, field: d.field })
        } else {
            prev
        }
    }
}

/// Semantic dependencies whose parent hash differs from the recorded one, in order.
pub open spec fn changed_changes(
    hashes: spec_fn(Seq<char>) -> Option<ContentHash>,
    deps: Seq<ArtifactDependency>,
) -> Seq<DependencyChange>
    decreases deps.len(),
{
    if deps.len() == 0 {
        Seq::empty()
    } else {
        let prev = changed_changes(hashes, deps.drop_last());
        let d = deps.last();
        if d.impact == DependencyImpact::Semantic && hashes(d.artifact_id@) is Some
            && hashes(d.artifact_id@)->0@ != d.content_hash@ {
            prev.push(
                DependencyChange::ContentChanged {
                    artifact_id: d.artifact_id,
                    field: d.field,
                    recorded: d.content_hash,
                    current: hashes(d.artifact_id@)->0,
                },
            )
        } else {
            prev
        }
    }
}

/// Incompatible when a semantic parent is missing (missing first, then
/// changed), stale when only hashes changed, current otherwise.
pub open spec fn currentness_of(
    hashes: spec_fn(Seq<char>) -> Option<ContentHash>,
    deps: Seq<ArtifactDependency>,
) -> CurrentnessView {
    let missing = missing_changes(hashes, deps);
    let changed = changed_changes(hashes, deps);
    if missing.len() > 0 {
        CurrentnessView::Incompatible(missing + changed)
    } else if changed.len() == 0 {
        CurrentnessView::Current
    } else {
        CurrentnessView::Stale(changed)
    }
}

/// Every reported content change names a semantic dependency of the
/// artifact: `recorded` is the hash that dependency stored, `current` is the
/// hash the index holds for its parent now, and the two differ.
pub proof fn lemma_content_changes_report_recorded_then_current(
    hashes: spec_fn(Seq<char>) -> Option<ContentHash>,
    deps: Seq<ArtifactDependency>,
    i: int,
)
    requires
        0 <= i < changed_changes(hashes, deps).len(),
    ensures
        changed_changes(hashes, deps)[i] matches DependencyChange::ContentChanged {
            artifact_id,
            field,
            recorded,
            current,
        } && exists|k: int|
            #![trigger deps[k]]
            0 <= k < deps.len() && deps[k].impact == DependencyImpact::Semantic
                && deps[k].artifact_id == artifact_id && deps[k].field == field
                && deps[k].content_hash == recorded && hashes(artifact_id@) == Some(current)
                && recorded@ != current@,
    decreases deps.len(),
{
    let prev = changed_changes(hashes, deps.drop_last());
    if i < prev.len() {
        lemma_content_changes_report_recorded_then_current(hashes, deps.drop_last(), i);
        let c = prev[i];
        if let DependencyChange::ContentChanged { artifact_id, field, recorded, current } = c {
            let k = choose|k: int|
                #![trigger deps.drop_last()[k]]
                0 <= k < deps.drop_last().len() && deps.drop_last()[k].impact
                    == DependencyImpact::Semantic && deps.drop_last()[k].artifact_id == artifact_id
                    && deps.drop_last()[k].field == field && deps.drop_last()[k].content_hash
                    == recorded && hashes(artifact_id@) == Some(current) && recorded@ != current@;
            assert(deps[k] == deps.drop_last()[k]);
        }
    } else {
        let k = deps.len() - 1;
        assert(deps[k] == deps.last());
    }
}

/// A stale artifact lists only content changes of the kind above.
pub proof fn lemma_stale_lists_content_changes(
    hashes: spec_fn(Seq<char>) -> Option<ContentHash>,
    deps: Seq<ArtifactDependency>,
)
    ensures
        currentness_of(hashes, deps) matches CurrentnessView::Stale(v) ==> v == changed_changes(
            hashes,
            deps,
        ) && v.len() > 0 && missing_changes(hashes, deps).len() == 0,
{
}

/// Current content hash of every known artifact.
///
/// Its model is `lookup`, a map from identifier to at most one current hash.
/// The entries are kept in the order they were recorded and read from the
/// end, so where an identifier repeats, the later entry overrides the
/// earlier ones: `lookup` gives the hash of the last entry with that
/// identifier, and none for an identifier with no entry.
#[derive(Debug, Default)]
pub struct ArtifactIndex {
    entries: Vec<(ArtifactId, ContentHash)>,
}

impl ArtifactIndex {
    /// The hash recorded for an identifier, if the index knows it.
    pub closed spec fn lookup(&self) -> spec_fn(Seq<char>) -> Option<ContentHash> {
        |id: Seq<char>| latest_entry_hash(self.entries@, id)
    }

    /// Builds the index; when an identifier repeats, the later record wins.
    pub fn from_records(records: &[&ArtifactRecord]) -> (index: Self)
        ensures
            forall|id: Seq<char>| #[trigger] (index.lookup())(id) == latest_record_hash(records@, id),
    {
        let mut entries: Vec<(ArtifactId, ContentHash)> = Vec::new();
        let mut i: usize = 0;
        while i < records.len()
            invariant
                0 <= i <= records@.len(),
                entries@.len() == i,
                forall|id: Seq<char>|
                    #[trigger] latest_entry_hash(entries@, id) == latest_record_hash(
                        records@.take(i as int),
                        id,
                    ),
            decreases records.len() - i,
        {
            let record = records[i];
            let ghost before = entries@;
            entries.push((record.artifact_id.clone(), record.content_hash.clone()));
            proof {
                assert(records@.take(i + 1).drop_last() =~= records@.take(i as int));
                assert(entries@.drop_last() =~= before);
                assert forall|id: Seq<char>| #[trigger]
                    latest_entry_hash(entries@, id) == latest_record_hash(
                        records@.take(i + 1),
                        id,
                    ) by {
                    assert(latest_entry_hash(before, id) == latest_record_hash(
                        records@.take(i as int),
                        id,
                    ));
                }
            }
            i = i + 1;
        }
        assert(records@.take(records@.len() as int) =~= records@);
        let index = ArtifactIndex { entries };
        assert forall|id: Seq<char>| #[trigger]
            (index.lookup())(id) == latest_record_hash(records@, id) by {}
        index
    }

    fn get(&self, id: &ArtifactId) -> (r: Option<&ContentHash>)
        ensures
            match r {
                Some(h) => (self.lookup())(id@) == Some(*h),
                None => (self.lookup())(id@) is None,
            },
    {
        let mut i = self.entries.len();
        assert(self.entries@.take(i as int) =~= self.entries@);
        while i > 0
            invariant
                i <= self.entries@.len(),
                latest_entry_hash(self.entries@, id@) == latest_entry_hash(
                    self.entries@.take(i as int),
                    id@,
                ),
            decreases i,
        {
            let entry = &self.entries[i - 1];
            proof {
                assert(self.entries@.take(i as int).drop_last() =~= self.entries@.take(i - 1));
            }
            if entry.0.same_as(id) {
                return Some(&entry.1);
            }
            i = i - 1;
        }
        None
    }

    /// Computes freshness from the record's semantic dependencies only.
    pub fn currentness(&self, record: &ArtifactRecord) -> (r: Currentness)
        ensures
            r@ == currentness_of(self.lookup(), record.dependencies@),
    {
        let mut missing: Vec<DependencyChange> = Vec::new();
        let mut changed: Vec<DependencyChange> = Vec::new();
        let deps = &record.dependencies;
        let mut i: usize = 0;
        while i < deps.len()
            invariant
                0 <= i <= deps@.len(),
                missing@ == missing_changes(self.lookup(), deps@.take(i as int)),
                changed@ == changed_changes(self.lookup(), deps@.take(i as int)),
            decreases deps.len() - i,
        {
            let dependency = &deps[i];
            proof {
                assert(deps@.take(i + 1).drop_last() =~= deps@.take(i as int));
            }
            if dependency.impact == DependencyImpact::Semantic {
                match self.get(&dependency.artifact_id) {
                    None => {
                        missing.push(
                            DependencyChange::Missing {
                                artifact_id: dependency.artifact_id.clone(),
                                field: clone_field(&dependency.field),
                            },
                        );
                    },
                    Some(current) => {
                        if !current.same_as(&dependency.content_hash) {
                            changed.push(
                                DependencyChange::ContentChanged {
                                    artifact_id: dependency.artifact_id.clone(),
                                    field: clone_field(&dependency.field),
                                    recorded: dependency.content_hash.clone(),
                                    current: current.clone(),
                                },
                            );
                        }
                    },
                }
            }
            i = i + 1;
        }
        assert(deps@.take(deps@.len() as int) =~= deps@);
        if missing.len() > 0 {
            let mut all = missing;
            let mut rest = changed;
            all.append(&mut rest);
            Currentness::Incompatible(all)
        } else if changed.len() == 0 {
            Currentness::Current
        } else {
            Currentness::Stale(changed)
        }
    }
}

/// Whether a dependency edge is semantic.
pub open spec fn is_semantic(d: ArtifactDependency) -> bool {
    d.impact == DependencyImpact::Semantic
}

/// Every semantic parent is known to `hashes`.
pub open spec fn all_semantic_parents_present(
    hashes: spec_fn(Seq<char>) -> Option<ContentHash>,
    deps: Seq<ArtifactDependency>,
) -> bool {
    forall|i: int|
        0 <= i < deps.len() && is_semantic(#[trigger] deps[i]) ==> hashes(deps[i].artifact_id@) is Some
}

/// Every known semantic parent still has the recorded hash.
pub open spec fn all_present_parents_unchanged(
    hashes: spec_fn(Seq<char>) -> Option<ContentHash>,
    deps: Seq<ArtifactDependency>,
) -> bool {
    forall|i: int|
        0 <= i < deps.len() && is_semantic(#[trigger] deps[i]) && hashes(deps[i].artifact_id@) is Some
            ==> hashes(deps[i].artifact_id@)->0@ == deps[i].content_hash@
}

proof fn lemma_missing_empty(hashes: spec_fn(Seq<char>) -> Option<ContentHash>, deps: Seq<ArtifactDependency>)
    ensures
        missing_changes(hashes, deps).len() == 0 <==> all_semantic_parents_present(hashes, deps),
    decreases deps.len(),
{
    if deps.len() > 0 {
        let prefix = deps.drop_last();
        lemma_missing_empty(hashes, prefix);
        assert forall|i: int| 0 <= i < prefix.len() implies #[trigger] prefix[i] == deps[i] by {}
        if all_semantic_parents_present(hashes, deps) {
            assert(all_semantic_parents_present(hashes, prefix)) by {
                assert forall|i: int|
                    0 <= i < prefix.len() && is_semantic(#[trigger] prefix[i]) implies hashes(
                        prefix[i].artifact_id@,
                    ) is Some by {
                    assert(deps[i] == prefix[i]);
                }
            }
            assert(is_semantic(deps[deps.len() - 1]) ==> hashes(deps.last().artifact_id@) is Some);
        }
        if missing_changes(hashes, deps).len() == 0 {
            assert forall|i: int|
                0 <= i < deps.len() && is_semantic(#[trigger] deps[i]) implies hashes(
                    deps[i].artifact_id@,
                ) is Some by {
                if i < deps.len() - 1 {
                    assert(prefix[i] == deps[i]);
                }
            }
        }
    }
}

proof fn lemma_changed_empty(hashes: spec_fn(Seq<char>) -> Option<ContentHash>, deps: Seq<ArtifactDependency>)
    ensures
        changed_changes(hashes, deps).len() == 0 <==> all_present_parents_unchanged(hashes, deps),
    decreases deps.len(),
{
    if deps.len() > 0 {
        let prefix = deps.drop_last();
        lemma_changed_empty(hashes, prefix);
        if all_present_parents_unchanged(hashes, deps) {
            assert(all_present_parents_unchanged(hashes, prefix)) by {
                assert forall|i: int|
                    0 <= i < prefix.len() && is_semantic(#[trigger] prefix[i]) && hashes(
                        prefix[i].artifact_id@,
                    ) is Some implies hashes(prefix[i].artifact_id@)->0@
                    == prefix[i].content_hash@ by {
                    assert(deps[i] == prefix[i]);
                }
            }
            let j = deps.len() - 1;
            assert(is_semantic(deps[j]) && hashes(deps[j].artifact_id@) is Some ==> hashes(
                deps[j].artifact_id@,
            )->0@ == deps[j].content_hash@);
        }
        if changed_changes(hashes, deps).len() == 0 {
            assert forall|i: int|
                0 <= i < deps.len() && is_semantic(#[trigger] deps[i]) && hashes(
                    deps[i].artifact_id@,
                ) is Some implies hashes(deps[i].artifact_id@)->0@ == deps[i].content_hash@ by {
                if i < deps.len() - 1 {
                    assert(prefix[i] == deps[i]);
                }
            }
        }
    }
}

/// An artifact is current exactly when every semantic parent is still known
/// with the hash recorded at generation; it is incompatible exactly when some
/// semantic parent is gone.
pub proof fn lemma_currentness_characterized(
    hashes: spec_fn(Seq<char>) -> Option<ContentHash>,
    deps: Seq<ArtifactDependency>,
)
    ensures
        currentness_of(hashes, deps) is Current <==> all_semantic_parents_present(hashes, deps)
            && all_present_parents_unchanged(hashes, deps),
        currentness_of(hashes, deps) is Incompatible <==> !all_semantic_parents_present(
            hashes,
            deps,
        ),
        currentness_of(hashes, deps) is Stale <==> all_semantic_parents_present(hashes, deps)
            && !all_present_parents_unchanged(hashes, deps),
{
    lemma_missing_empty(hashes, deps);
    lemma_changed_empty(hashes, deps);
}

/// Cosmetic edges never influence currentness: dropping every cosmetic
/// dependency leaves the result, change lists included, unchanged.
pub proof fn lemma_cosmetic_dependencies_do_not_matter(
    hashes: spec_fn(Seq<char>) -> Option<ContentHash>,
    deps: Seq<ArtifactDependency>,
)
    ensures
        currentness_of(hashes, deps) == currentness_of(
            hashes,
            deps.filter(|d: ArtifactDependency| is_semantic(d)),
        ),
    decreases deps.len(),
{
    lemma_semantic_filter_changes(hashes, deps);
}

proof fn lemma_semantic_filter_changes(
    hashes: spec_fn(Seq<char>) -> Option<ContentHash>,
    deps: Seq<ArtifactDependency>,
)
    ensures
        missing_changes(hashes, deps) == missing_changes(
            hashes,
            deps.filter(|d: ArtifactDependency| is_semantic(d)),
        ),
        changed_changes(hashes, deps) == changed_changes(
            hashes,
            deps.filter(|d: ArtifactDependency| is_semantic(d)),
        ),
    decreases deps.len(),
{
    reveal(Seq::filter);
    let pred = |d: ArtifactDependency| is_semantic(d);
    if deps.len() > 0 {
        lemma_semantic_filter_changes(hashes, deps.drop_last());
        let f = deps.filter(pred);
        if pred(deps.last()) {
            assert(f == deps.drop_last().filter(pred).push(deps.last()));
            assert(f.drop_last() =~= deps.drop_last().filter(pred));
        } else {
            assert(f == deps.drop_last().filter(pred));
        }
    }
}

/// Copy of an optional field name.
pub fn clone_field(field: &Option<String>) -> (r: Option<String>)
    ensures
        r == *field,
{
    match field {
        Some(name) => Some(name.clone()),
        None => None,
    }
}

} // verus!
