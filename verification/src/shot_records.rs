use vstd::prelude::*;
use vstd::string::*;

use crate::artifact::{
    artifact_id_verdict, is_hash_text, ArtifactId, ArtifactIdError, ContentHash, HashValueError,
    InputHash,
};
use crate::lifecycle::{
    id_views, transition_allowed, ArtifactDependency, ArtifactRecord, ArtifactStatus,
    DependencyImpact, LifecycleError, SelectionError, SelectionManifest,
};
use crate::shot::ShotDirection;
use crate::shot_error::ShotWorkflowError;

verus! {

/// A field of a stored JSON object that this version does not interpret:
/// its key and its JSON text, kept so that a rewrite preserves it.
#[derive(Debug, PartialEq, Eq)]
pub struct JsonField {
    pub key: String,
    pub json: String,
}

impl View for JsonField {
    type V = (Seq<char>, Seq<char>);

    open spec fn view(&self) -> (Seq<char>, Seq<char>) {
        (self.key@, self.json@)
    }
}

impl Clone for JsonField {
    fn clone(&self) -> (r: Self)
        ensures
            r@ == self@,
    {
        JsonField { key: self.key.clone(), json: self.json.clone() }
    }
}

pub open spec fn fields_view(v: Seq<JsonField>) -> Seq<(Seq<char>, Seq<char>)> {
    v.map_values(|f: JsonField| f@)
}

pub fn clone_fields(v: &Vec<JsonField>) -> (r: Vec<JsonField>)
    ensures
        fields_view(r@) == fields_view(v@),
{
    let mut r: Vec<JsonField> = Vec::new();
    let mut i: usize = 0;
    while i < v.len()
        invariant
            0 <= i <= v@.len(),
            r@.len() == i,
            forall|j: int| 0 <= j < i ==> #[trigger] r@[j]@ == v@[j]@,
        decreases v.len() - i,
    {
        r.push(v[i].clone());
        i = i + 1;
    }
    assert(fields_view(r@) =~= fields_view(v@));
    r
}

/// View of an optional text.
pub open spec fn opt_view(o: Option<String>) -> Option<Seq<char>> {
    match o {
        Some(s) => Some(s@),
        None => None,
    }
}

pub fn clone_opt(o: &Option<String>) -> (r: Option<String>)
    ensures
        opt_view(r) == opt_view(*o),
{
    match o {
        Some(s) => Some(s.clone()),
        None => None,
    }
}

/// Views of a list of texts.
pub open spec fn strings_view(v: Seq<String>) -> Seq<Seq<char>> {
    v.map_values(|s: String| s@)
}

pub fn clone_strings(v: &Vec<String>) -> (r: Vec<String>)
    ensures
        strings_view(r@) == strings_view(v@),
{
    let mut r: Vec<String> = Vec::new();
    let mut i: usize = 0;
    while i < v.len()
        invariant
            0 <= i <= v@.len(),
            r@.len() == i,
            forall|j: int| 0 <= j < i ==> #[trigger] r@[j]@ == v@[j]@,
        decreases v.len() - i,
    {
        r.push(v[i].clone());
        i = i + 1;
    }
    assert(strings_view(r@) =~= strings_view(v@));
    r
}

/// A stored dependency edge of an artifact.
pub struct StoredArtifactDependency {
    pub artifact_id: String,
    pub content_hash: String,
    pub impact: DependencyImpact,
    pub field: Option<String>,
    pub extra: Vec<JsonField>,
}

pub struct DependencyView {
    pub artifact_id: Seq<char>,
    pub content_hash: Seq<char>,
    pub impact: DependencyImpact,
    pub field: Option<Seq<char>>,
    pub extra: Seq<(Seq<char>, Seq<char>)>,
}

impl View for StoredArtifactDependency {
    type V = DependencyView;

    open spec fn view(&self) -> DependencyView {
        DependencyView {
            artifact_id: self.artifact_id@,
            content_hash: self.content_hash@,
            impact: self.impact,
            field: opt_view(self.field),
            extra: fields_view(self.extra@),
        }
    }
}

impl Clone for StoredArtifactDependency {
    fn clone(&self) -> (r: Self)
        ensures
            r@ == self@,
    {
        StoredArtifactDependency {
            artifact_id: self.artifact_id.clone(),
            content_hash: self.content_hash.clone(),
            impact: self.impact,
            field: clone_opt(&self.field),
            extra: clone_fields(&self.extra),
        }
    }
}

pub open spec fn dependencies_view(v: Seq<StoredArtifactDependency>) -> Seq<DependencyView> {
    v.map_values(|d: StoredArtifactDependency| d@)
}

pub fn clone_dependencies(v: &Vec<StoredArtifactDependency>) -> (r: Vec<StoredArtifactDependency>)
    ensures
        dependencies_view(r@) == dependencies_view(v@),
{
    let mut r: Vec<StoredArtifactDependency> = Vec::new();
    let mut i: usize = 0;
    while i < v.len()
        invariant
            0 <= i <= v@.len(),
            r@.len() == i,
            forall|j: int| 0 <= j < i ==> #[trigger] r@[j]@ == v@[j]@,
        decreases v.len() - i,
    {
        r.push(v[i].clone());
        i = i + 1;
    }
    assert(dependencies_view(r@) =~= dependencies_view(v@));
    r
}

/// A stored artifact record, as the shot's `artifacts.json` holds it.
pub struct StoredArtifactRecord {
    pub artifact_id: String,
    pub schema_version: u32,
    pub artifact_type: String,
    pub status: ArtifactStatus,
    pub content_hash: String,
    pub input_hash: Option<String>,
    pub dependencies: Vec<StoredArtifactDependency>,
    pub extra: Vec<JsonField>,
}

pub struct RecordView {
    pub artifact_id: Seq<char>,
    pub schema_version: u32,
    pub artifact_type: Seq<char>,
    pub status: ArtifactStatus,
    pub content_hash: Seq<char>,
    pub input_hash: Option<Seq<char>>,
    pub dependencies: Seq<DependencyView>,
    pub extra: Seq<(Seq<char>, Seq<char>)>,
}

impl View for StoredArtifactRecord {
    type V = RecordView;

    open spec fn view(&self) -> RecordView {
        RecordView {
            artifact_id: self.artifact_id@,
            schema_version: self.schema_version,
            artifact_type: self.artifact_type@,
            status: self.status,
            content_hash: self.content_hash@,
            input_hash: opt_view(self.input_hash),
            dependencies: dependencies_view(self.dependencies@),
            extra: fields_view(self.extra@),
        }
    }
}

impl Clone for StoredArtifactRecord {
    fn clone(&self) -> (r: Self)
        ensures
            r@ == self@,
    {
        StoredArtifactRecord {
            artifact_id: self.artifact_id.clone(),
            schema_version: self.schema_version,
            artifact_type: self.artifact_type.clone(),
            status: self.status,
            content_hash: self.content_hash.clone(),
            input_hash: clone_opt(&self.input_hash),
            dependencies: clone_dependencies(&self.dependencies),
            extra: clone_fields(&self.extra),
        }
    }
}

pub open spec fn records_view(v: Seq<StoredArtifactRecord>) -> Seq<RecordView> {
    v.map_values(|r: StoredArtifactRecord| r@)
}

pub fn clone_records(v: &Vec<StoredArtifactRecord>) -> (r: Vec<StoredArtifactRecord>)
    ensures
        records_view(r@) == records_view(v@),
{
    let mut r: Vec<StoredArtifactRecord> = Vec::new();
    let mut i: usize = 0;
    while i < v.len()
        invariant
            0 <= i <= v@.len(),
            r@.len() == i,
            forall|j: int| 0 <= j < i ==> #[trigger] r@[j]@ == v@[j]@,
        decreases v.len() - i,
    {
        r.push(v[i].clone());
        i = i + 1;
    }
    assert(records_view(r@) =~= records_view(v@));
    r
}

/// The stored selection pointer of a shot.
pub struct StoredSelectionManifest {
    pub selected_artifact_id: Option<String>,
    pub candidate_artifact_ids: Vec<String>,
    pub extra: Vec<JsonField>,
}

pub struct SelectionView {
    pub selected: Option<Seq<char>>,
    pub candidates: Seq<Seq<char>>,
    pub extra: Seq<(Seq<char>, Seq<char>)>,
}

impl View for StoredSelectionManifest {
    type V = SelectionView;

    open spec fn view(&self) -> SelectionView {
        SelectionView {
            selected: opt_view(self.selected_artifact_id),
            candidates: strings_view(self.candidate_artifact_ids@),
            extra: fields_view(self.extra@),
        }
    }
}

impl Clone for StoredSelectionManifest {
    fn clone(&self) -> (r: Self)
        ensures
            r@ == self@,
    {
        StoredSelectionManifest {
            selected_artifact_id: clone_opt(&self.selected_artifact_id),
            candidate_artifact_ids: clone_strings(&self.candidate_artifact_ids),
            extra: clone_fields(&self.extra),
        }
    }
}

impl Default for StoredSelectionManifest {
    fn default() -> (r: Self)
        ensures
            r@.selected is None,
            r@.candidates.len() == 0,
            r@.extra.len() == 0,
    {
        StoredSelectionManifest {
            selected_artifact_id: None,
            candidate_artifact_ids: Vec::new(),
            extra: Vec::new(),
        }
    }
}

/// The stored production manifest of a shot, its `shot.json`.
pub struct ShotProductionManifest {
    pub shot_id: String,
    pub schema_version: u32,
    pub direction: ShotDirection,
    pub generation_revision: u16,
    pub extra: Vec<JsonField>,
}

pub struct ShotView {
    pub shot_id: Seq<char>,
    pub schema_version: u32,
    pub direction: ShotDirection,
    pub generation_revision: u16,
    pub extra: Seq<(Seq<char>, Seq<char>)>,
}

impl View for ShotProductionManifest {
    type V = ShotView;

    open spec fn view(&self) -> ShotView {
        ShotView {
            shot_id: self.shot_id@,
            schema_version: self.schema_version,
            direction: self.direction,
            generation_revision: self.generation_revision,
            extra: fields_view(self.extra@),
        }
    }
}

impl Clone for ShotProductionManifest {
    fn clone(&self) -> (r: Self)
        ensures
            r@ == self@,
    {
        ShotProductionManifest {
            shot_id: self.shot_id.clone(),
            schema_version: self.schema_version,
            direction: self.direction,
            generation_revision: self.generation_revision,
            extra: clone_fields(&self.extra),
        }
    }
}

/// Unicode `White_Space`, the characters `str::trim` removes.
pub open spec fn is_whitespace(c: char) -> bool {
    let u = c as u32;
    (9 <= u <= 13) || u == 32 || u == 0x85 || u == 0xa0 || u == 0x1680 || (0x2000 <= u <= 0x200a)
        || u == 0x2028 || u == 0x2029 || u == 0x202f || u == 0x205f || u == 0x3000
}

/// A text that is empty once trimmed.
pub open spec fn is_blank(s: Seq<char>) -> bool {
    forall|i: int| 0 <= i < s.len() ==> is_whitespace(#[trigger] s[i])
}

fn whitespace(c: char) -> (r: bool)
    ensures
        r == is_whitespace(c),
{
    let u = c as u32;
    (9 <= u && u <= 13) || u == 32 || u == 0x85 || u == 0xa0 || u == 0x1680 || (0x2000 <= u && u
        <= 0x200a) || u == 0x2028 || u == 0x2029 || u == 0x202f || u == 0x205f || u == 0x3000
}

pub fn text_is_blank(s: &str) -> (r: bool)
    ensures
        r == is_blank(s@),
{
    let n = s.unicode_len();
    let mut i: usize = 0;
    while i < n
        invariant
            0 <= i <= n,
            n == s@.len(),
            forall|j: int| 0 <= j < i ==> is_whitespace(#[trigger] s@[j]),
        decreases n - i,
    {
        if !whitespace(s.get_char(i)) {
            return false;
        }
        i = i + 1;
    }
    true
}

/// The verdict on the dependency identifiers, the first invalid one deciding.
pub open spec fn dependency_ids_verdict(deps: Seq<DependencyView>, n: int) -> Result<
    (),
    ArtifactIdError,
>
    decreases n,
{
    if n <= 0 {
        Ok(())
    } else {
        match dependency_ids_verdict(deps, n - 1) {
            Err(e) => Err(e),
            Ok(_) => artifact_id_verdict(deps[n - 1].artifact_id),
        }
    }
}

/// What a record's structural check decides: a version, a type that is not
/// blank, and valid identifiers for the record and each dependency.
pub open spec fn record_structure_verdict(r: RecordView) -> Result<(), ShotWorkflowError> {
    if r.schema_version == 0 || is_blank(r.artifact_type) {
        Err(ShotWorkflowError::InvalidCanonicalState)
    } else {
        match artifact_id_verdict(r.artifact_id) {
            Err(e) => Err(ShotWorkflowError::ArtifactId(e)),
            Ok(_) => match dependency_ids_verdict(r.dependencies, r.dependencies.len() as int) {
                Err(e) => Err(ShotWorkflowError::ArtifactId(e)),
                Ok(_) => Ok(()),
            },
        }
    }
}

/// Every hash a record stores is canonical.
pub open spec fn record_hashes_ok(r: RecordView) -> bool {
    &&& is_hash_text(r.content_hash)
    &&& (r.input_hash matches Some(h) ==> is_hash_text(h))
    &&& forall|i: int|
        0 <= i < r.dependencies.len() ==> is_hash_text(#[trigger] r.dependencies[i].content_hash)
}

/// What converting a stored record to its domain form decides.
pub open spec fn record_domain_verdict(r: RecordView) -> Result<(), ShotWorkflowError> {
    match record_structure_verdict(r) {
        Err(e) => Err(e),
        Ok(_) => if record_hashes_ok(r) {
            Ok(())
        } else {
            Err(ShotWorkflowError::Hash(HashValueError))
        },
    }
}

/// A domain dependency is the stored one, validated.
pub open spec fn dependency_matches(d: ArtifactDependency, v: DependencyView) -> bool {
    &&& d.artifact_id@ == v.artifact_id
    &&& d.content_hash@ == v.content_hash
    &&& d.impact == v.impact
    &&& opt_view(d.field) == v.field
}

/// A domain record is the stored one, validated.
pub open spec fn record_matches(d: ArtifactRecord, v: RecordView) -> bool {
    &&& d.artifact_id@ == v.artifact_id
    &&& d.status == v.status
    &&& d.content_hash@ == v.content_hash
    &&& match d.input_hash {
        Some(h) => v.input_hash == Some(h@),
        None => v.input_hash is None,
    }
    &&& d.dependencies@.len() == v.dependencies.len()
    &&& forall|i: int|
        0 <= i < v.dependencies.len() ==> dependency_matches(
            #[trigger] d.dependencies@[i],
            v.dependencies[i],
        )
}

/// The record with another status.
pub open spec fn with_status(r: RecordView, status: ArtifactStatus) -> RecordView {
    RecordView { status, ..r }
}

/// What a lifecycle transition of a stored record decides.
pub open spec fn record_transition_verdict(r: RecordView, next: ArtifactStatus) -> Result<
    (),
    ShotWorkflowError,
> {
    match record_domain_verdict(r) {
        Err(e) => Err(e),
        Ok(_) => if transition_allowed(r.status, next) {
            Ok(())
        } else {
            Err(
                ShotWorkflowError::Lifecycle(LifecycleError { current: r.status, requested: next }),
            )
        },
    }
}

fn to_artifact_id_error(r: Result<ArtifactId, ArtifactIdError>) -> (out: Result<
    ArtifactId,
    ShotWorkflowError,
>)
    ensures
        match r {
            Ok(id) => out == Ok::<ArtifactId, ShotWorkflowError>(id),
            Err(e) => out == Err::<ArtifactId, ShotWorkflowError>(ShotWorkflowError::ArtifactId(e)),
        },
{
    match r {
        Ok(id) => Ok(id),
        Err(e) => Err(ShotWorkflowError::ArtifactId(e)),
    }
}

impl StoredArtifactDependency {
    /// The dependency's identifier must be valid.
    pub fn validate_structure(&self) -> (r: Result<(), ShotWorkflowError>)
        ensures
            r == match artifact_id_verdict(self@.artifact_id) {
                Ok(_) => Ok::<(), ShotWorkflowError>(()),
                Err(e) => Err(ShotWorkflowError::ArtifactId(e)),
            },
    {
        match ArtifactId::new(self.artifact_id.as_str()) {
            Ok(_) => Ok(()),
            Err(e) => Err(ShotWorkflowError::ArtifactId(e)),
        }
    }

    /// The validated domain form of the dependency.
    pub fn domain(&self) -> (r: Result<ArtifactDependency, ShotWorkflowError>)
        ensures
            match r {
                Ok(d) => artifact_id_verdict(self@.artifact_id) is Ok && is_hash_text(
                    self@.content_hash,
                ) && dependency_matches(d, self@),
                Err(e) => match artifact_id_verdict(self@.artifact_id) {
                    Err(ie) => e == ShotWorkflowError::ArtifactId(ie),
                    Ok(_) => !is_hash_text(self@.content_hash) && e == ShotWorkflowError::Hash(
                        HashValueError,
                    ),
                },
            },
    {
        self.validate_structure()?;
        let artifact_id = to_artifact_id_error(ArtifactId::new(self.artifact_id.as_str()))?;
        let content_hash = match ContentHash::new(self.content_hash.as_str()) {
            Ok(h) => h,
            Err(e) => {
                return Err(ShotWorkflowError::Hash(e));
            },
        };
        Ok(
            ArtifactDependency {
                artifact_id,
                content_hash,
                impact: self.impact,
                field: clone_opt(&self.field),
            },
        )
    }
}

impl StoredArtifactRecord {
    /// The record's structural check.
    pub fn validate_structure(&self) -> (r: Result<(), ShotWorkflowError>)
        ensures
            r == record_structure_verdict(self@),
    {
        if self.schema_version == 0 || text_is_blank(self.artifact_type.as_str()) {
            return Err(ShotWorkflowError::InvalidCanonicalState);
        }
        to_artifact_id_error(ArtifactId::new(self.artifact_id.as_str()))?;
        let ghost deps = self@.dependencies;
        let mut i: usize = 0;
        while i < self.dependencies.len()
            invariant
                0 <= i <= self.dependencies@.len(),
                deps == self@.dependencies,
                deps.len() == self.dependencies@.len(),
                dependency_ids_verdict(deps, i as int) is Ok,
                self.schema_version != 0,
                !is_blank(self@.artifact_type),
                artifact_id_verdict(self@.artifact_id) is Ok,
            decreases self.dependencies.len() - i,
        {
            assert(deps[i as int] == self.dependencies@[i as int]@);
            match self.dependencies[i].validate_structure() {
                Ok(()) => {},
                Err(e) => {
                    proof {
                        lemma_dependency_ids_first_error(deps, i as int, deps.len() as int);
                    }
                    return Err(e);
                },
            }
            i = i + 1;
        }
        Ok(())
    }

    /// The validated domain form of the record.
    pub fn domain(&self) -> (r: Result<ArtifactRecord, ShotWorkflowError>)
        ensures
            match r {
                Ok(d) => record_domain_verdict(self@) is Ok && record_matches(d, self@),
                Err(e) => record_domain_verdict(self@) == Err::<(), ShotWorkflowError>(e),
            },
    {
        self.validate_structure()?;
        let artifact_id = to_artifact_id_error(ArtifactId::new(self.artifact_id.as_str()))?;
        let content_hash = match ContentHash::new(self.content_hash.as_str()) {
            Ok(h) => h,
            Err(e) => {
                return Err(ShotWorkflowError::Hash(e));
            },
        };
        let input_hash = match &self.input_hash {
            Some(value) => match InputHash::new(value.as_str()) {
                Ok(h) => Some(h),
                Err(e) => {
                    return Err(ShotWorkflowError::Hash(e));
                },
            },
            None => None,
        };
        let ghost deps = self@.dependencies;
        let mut dependencies: Vec<ArtifactDependency> = Vec::new();
        let mut i: usize = 0;
        while i < self.dependencies.len()
            invariant
                0 <= i <= self.dependencies@.len(),
                deps == self@.dependencies,
                deps.len() == self.dependencies@.len(),
                record_structure_verdict(self@) is Ok,
                dependency_ids_verdict(deps, deps.len() as int) is Ok,
                dependencies@.len() == i,
                forall|j: int| 0 <= j < i ==> dependency_matches(#[trigger] dependencies@[j], deps[j]),
                forall|j: int| 0 <= j < i ==> is_hash_text(#[trigger] deps[j].content_hash),
            decreases self.dependencies.len() - i,
        {
            assert(deps[i as int] == self.dependencies@[i as int]@);
            proof {
                lemma_dependency_ids_ok(deps, deps.len() as int, i as int);
            }
            let dependency = self.dependencies[i].domain()?;
            dependencies.push(dependency);
            i = i + 1;
        }
        Ok(
            ArtifactRecord {
                artifact_id,
                status: self.status,
                content_hash,
                input_hash,
                dependencies,
            },
        )
    }

    /// Moves the stored record along one lifecycle edge, after checking that
    /// it converts to its domain form.
    pub fn transition(&mut self, next: ArtifactStatus) -> (r: Result<(), ShotWorkflowError>)
        ensures
            r == record_transition_verdict(old(self)@, next),
            final(self)@ == if r is Ok {
                with_status(old(self)@, next)
            } else {
                old(self)@
            },
    {
        let mut domain = self.domain()?;
        match domain.transition(next) {
            Ok(()) => {},
            Err(e) => {
                return Err(ShotWorkflowError::Lifecycle(e));
            },
        }
        self.status = domain.status;
        Ok(())
    }
}

proof fn lemma_dependency_ids_first_error(deps: Seq<DependencyView>, i: int, n: int)
    requires
        0 <= i < n,
        dependency_ids_verdict(deps, i) is Ok,
        artifact_id_verdict(deps[i].artifact_id) is Err,
    ensures
        dependency_ids_verdict(deps, n) == artifact_id_verdict(deps[i].artifact_id),
    decreases n,
{
    if n > i + 1 {
        lemma_dependency_ids_first_error(deps, i, n - 1);
    }
}

proof fn lemma_dependency_ids_ok(deps: Seq<DependencyView>, n: int, i: int)
    requires
        dependency_ids_verdict(deps, n) is Ok,
        0 <= i < n,
    ensures
        artifact_id_verdict(deps[i].artifact_id) is Ok,
    decreases n,
{
    if i < n - 1 {
        lemma_dependency_ids_ok(deps, n - 1, i);
    }
}

/// The first invalid identifier among the first `n`, if any.
pub open spec fn first_id_error(ids: Seq<Seq<char>>, n: int) -> Option<ArtifactIdError>
    decreases n,
{
    if n <= 0 {
        None
    } else {
        match first_id_error(ids, n - 1) {
            Some(e) => Some(e),
            None => match artifact_id_verdict(ids[n - 1]) {
                Err(e) => Some(e),
                Ok(_) => None,
            },
        }
    }
}

/// No text occurs twice.
pub open spec fn all_distinct(ids: Seq<Seq<char>>) -> bool {
    forall|i: int, j: int| 0 <= i < j < ids.len() ==> ids[i] != ids[j]
}

/// What converting a stored selection to its domain form decides: valid
/// distinct candidates, and a selection, if any, that is one of them.
pub open spec fn selection_verdict(s: SelectionView) -> Result<(), ShotWorkflowError> {
    match first_id_error(s.candidates, s.candidates.len() as int) {
        Some(e) => Err(ShotWorkflowError::ArtifactId(e)),
        None => if !all_distinct(s.candidates) {
            Err(ShotWorkflowError::InvalidCanonicalState)
        } else {
            match s.selected {
                None => Ok(()),
                Some(selected) => match artifact_id_verdict(selected) {
                    Err(e) => Err(ShotWorkflowError::ArtifactId(e)),
                    Ok(_) => if s.candidates.contains(selected) {
                        Ok(())
                    } else {
                        Err(ShotWorkflowError::InvalidCanonicalState)
                    },
                },
            }
        },
    }
}

/// A domain selection is the stored one, validated.
pub open spec fn selection_matches(m: SelectionManifest, v: SelectionView) -> bool {
    &&& id_views(m.candidate_artifact_ids@) == v.candidates
    &&& match m.selected_artifact_id {
        Some(id) => v.selected == Some(id@),
        None => v.selected is None,
    }
}

proof fn lemma_first_id_error_stays(ids: Seq<Seq<char>>, k: int, n: int)
    requires
        0 <= k <= n,
        first_id_error(ids, k) is Some,
    ensures
        first_id_error(ids, n) == first_id_error(ids, k),
    decreases n,
{
    if n > k {
        lemma_first_id_error_stays(ids, k, n - 1);
    }
}

pub proof fn lemma_first_id_error_none(ids: Seq<Seq<char>>, n: int, i: int)
    requires
        first_id_error(ids, n) is None,
        0 <= i < n,
    ensures
        artifact_id_verdict(ids[i]) is Ok,
    decreases n,
{
    if i < n - 1 {
        lemma_first_id_error_none(ids, n - 1, i);
    }
}

impl StoredSelectionManifest {
    /// The validated domain form of the selection.
    pub fn domain(&self) -> (r: Result<SelectionManifest, ShotWorkflowError>)
        ensures
            match r {
                Ok(m) => selection_verdict(self@) is Ok && selection_matches(m, self@),
                Err(e) => selection_verdict(self@) == Err::<(), ShotWorkflowError>(e),
            },
    {
        let ghost ids = self@.candidates;
        let mut candidates: Vec<ArtifactId> = Vec::new();
        let mut i: usize = 0;
        while i < self.candidate_artifact_ids.len()
            invariant
                0 <= i <= self.candidate_artifact_ids@.len(),
                ids == self@.candidates,
                ids.len() == self.candidate_artifact_ids@.len(),
                first_id_error(ids, i as int) is None,
                candidates@.len() == i,
                forall|j: int| 0 <= j < i ==> #[trigger] candidates@[j]@ == ids[j],
            decreases self.candidate_artifact_ids.len() - i,
        {
            assert(ids[i as int] == self.candidate_artifact_ids@[i as int]@);
            let id = match ArtifactId::new(self.candidate_artifact_ids[i].as_str()) {
                Ok(id) => id,
                Err(e) => {
                    proof {
                        assert(first_id_error(ids, i + 1) == Some(e));
                        lemma_first_id_error_stays(ids, i + 1, ids.len() as int);
                    }
                    return Err(ShotWorkflowError::ArtifactId(e));
                },
            };
            candidates.push(id);
            i = i + 1;
        }
        assert(id_views(candidates@) =~= ids);
        let mut i: usize = 1;
        while i < candidates.len()
            invariant
                1 <= i <= candidates@.len() || candidates@.len() == 0,
                ids == self@.candidates,
                first_id_error(ids, ids.len() as int) is None,
                id_views(candidates@) == ids,
                forall|a: int, b: int| 0 <= a < b < i && b < ids.len() ==> ids[a] != ids[b],
            decreases candidates.len() - i,
        {
            let mut j: usize = 0;
            while j < i
                invariant
                    0 <= j <= i < candidates@.len(),
                    ids == self@.candidates,
                    first_id_error(ids, ids.len() as int) is None,
                    id_views(candidates@) == ids,
                    forall|a: int| 0 <= a < j ==> ids[a] != ids[i as int],
                decreases i - j,
            {
                if candidates[j].same_as(&candidates[i]) {
                    assert(ids[j as int] == ids[i as int]);
                    return Err(ShotWorkflowError::InvalidCanonicalState);
                }
                j = j + 1;
            }
            i = i + 1;
        }
        assert(all_distinct(ids));
        let selected = match &self.selected_artifact_id {
            None => None,
            Some(value) => {
                let id = to_artifact_id_error(ArtifactId::new(value.as_str()))?;
                if crate::lifecycle::position_of_id(&candidates, &id).is_none() {
                    return Err(ShotWorkflowError::InvalidCanonicalState);
                }
                Some(id)
            },
        };
        Ok(SelectionManifest { selected_artifact_id: selected, candidate_artifact_ids: candidates })
    }

    /// Points the stored selection at a known candidate.
    pub fn select(&mut self, artifact_id: &ArtifactId) -> (r: Result<(), ShotWorkflowError>)
        ensures
            match selection_verdict(old(self)@) {
                Err(e) => r == Err::<(), ShotWorkflowError>(e) && final(self)@ == old(self)@,
                Ok(_) => if old(self)@.candidates.contains(artifact_id@) {
                    r is Ok && final(self)@ == (SelectionView {
                        selected: Some(artifact_id@),
                        ..old(self)@
                    })
                } else {
                    r == Err::<(), ShotWorkflowError>(
                        ShotWorkflowError::Selection(SelectionError::UnknownCandidate(*artifact_id)),
                    ) && final(self)@ == old(self)@
                },
            },
    {
        let mut domain = self.domain()?;
        match domain.select(artifact_id) {
            Ok(()) => {},
            Err(e) => {
                return Err(ShotWorkflowError::Selection(e));
            },
        }
        self.selected_artifact_id = Some(artifact_id.to_string());
        Ok(())
    }
}

} // verus!
