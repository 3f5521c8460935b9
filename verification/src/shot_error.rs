use vstd::prelude::*;

use crate::artifact::{ArtifactIdError, HashValueError};
use crate::lifecycle::{LifecycleError, SelectionError};
use crate::project_path::ProjectPathError;

verus! {

/// Which stored hash of an artifact a diagnosis or a migration is about.
#[derive(Debug, Clone, Copy, PartialEq, Eq, Structural)]
pub enum HashField {
    ContentHash,
    InputHash,
    DependencyContentHash,
}

impl HashField {
    /// The field's name in the stored JSON.
    pub fn name(self) -> (r: &'static str)
        ensures
            r@ == match self {
                HashField::ContentHash => "content_hash"@,
                HashField::InputHash => "input_hash"@,
                HashField::DependencyContentHash => "dependencies[].content_hash"@,
            },
    {
        match self {
            HashField::ContentHash => "content_hash",
            HashField::InputHash => "input_hash",
            HashField::DependencyContentHash => "dependencies[].content_hash",
        }
    }
}

/// Why a shot workflow operation was refused.
///
/// File-system, JSON and manifest failures happen outside this library; the
/// caller reports them itself. `ManifestNotWritable` says that the caller's
/// manifest check refused writing, at the point where the workflow asks.
#[derive(Debug, PartialEq, Eq)]
pub enum ShotWorkflowError {
    InvalidShotNumber,
    InvalidCanonicalState,
    NotGenerated,
    InvalidCandidate,
    Locked,
    AlreadyLocked,
    NoSelection,
    StaleSelection,
    GenerationOverflow,
    MigrationRequired,
    InvalidStoredHash { artifact_id: String, field: HashField, value: String },
    MigrationBackupConflict(String),
    ManifestNotWritable,
    Path(ProjectPathError),
    ArtifactId(ArtifactIdError),
    Hash(HashValueError),
    Lifecycle(LifecycleError),
    Selection(SelectionError),
}

/// Status code of a successful project call.
pub const PROJECT_OK: i32 = 0;

pub const PROJECT_ERR_INVALID_ARGUMENT: i32 = 100;

pub const PROJECT_ERR_INVALID_UTF8: i32 = 101;

pub const PROJECT_ERR_IO: i32 = 102;

pub const PROJECT_ERR_ALREADY_EXISTS: i32 = 103;

pub const PROJECT_ERR_INVALID_MANIFEST: i32 = 104;

pub const PROJECT_ERR_UNSUPPORTED_FORMAT: i32 = 105;

pub const PROJECT_ERR_BUFFER_TOO_SMALL: i32 = 106;

pub const PROJECT_ERR_READ_ONLY: i32 = 107;

pub const PROJECT_ERR_INVALID_SHOT: i32 = 108;

pub const PROJECT_ERR_NOT_GENERATED: i32 = 109;

pub const PROJECT_ERR_INVALID_CANDIDATE: i32 = 110;

pub const PROJECT_ERR_LOCKED: i32 = 111;

pub const PROJECT_ERR_ALREADY_LOCKED: i32 = 112;

pub const PROJECT_ERR_NO_SELECTION: i32 = 113;

pub const PROJECT_ERR_STALE_SELECTION: i32 = 114;

pub const PROJECT_ERR_INVALID_SHOT_STATE: i32 = 115;

pub const PROJECT_ERR_GENERATION_OVERFLOW: i32 = 116;

pub const PROJECT_ERR_PANIC: i32 = 199;

/// The status code a shot workflow refusal is reported with. A refused
/// manifest is reported by the caller with the manifest's own code; here it
/// stands for a read-only project.
pub open spec fn shot_error_code_of(error: ShotWorkflowError) -> i32 {
    match error {
        ShotWorkflowError::InvalidShotNumber => PROJECT_ERR_INVALID_SHOT,
        ShotWorkflowError::NotGenerated => PROJECT_ERR_NOT_GENERATED,
        ShotWorkflowError::InvalidCandidate => PROJECT_ERR_INVALID_CANDIDATE,
        ShotWorkflowError::Locked => PROJECT_ERR_LOCKED,
        ShotWorkflowError::AlreadyLocked => PROJECT_ERR_ALREADY_LOCKED,
        ShotWorkflowError::NoSelection => PROJECT_ERR_NO_SELECTION,
        ShotWorkflowError::StaleSelection => PROJECT_ERR_STALE_SELECTION,
        ShotWorkflowError::GenerationOverflow => PROJECT_ERR_GENERATION_OVERFLOW,
        ShotWorkflowError::ManifestNotWritable => PROJECT_ERR_READ_ONLY,
        _ => PROJECT_ERR_INVALID_SHOT_STATE,
    }
}

pub fn shot_error_code(error: &ShotWorkflowError) -> (code: i32)
    ensures
        code == shot_error_code_of(*error),
{
    match error {
        ShotWorkflowError::InvalidShotNumber => PROJECT_ERR_INVALID_SHOT,
        ShotWorkflowError::NotGenerated => PROJECT_ERR_NOT_GENERATED,
        ShotWorkflowError::InvalidCandidate => PROJECT_ERR_INVALID_CANDIDATE,
        ShotWorkflowError::Locked => PROJECT_ERR_LOCKED,
        ShotWorkflowError::AlreadyLocked => PROJECT_ERR_ALREADY_LOCKED,
        ShotWorkflowError::NoSelection => PROJECT_ERR_NO_SELECTION,
        ShotWorkflowError::StaleSelection => PROJECT_ERR_STALE_SELECTION,
        ShotWorkflowError::GenerationOverflow => PROJECT_ERR_GENERATION_OVERFLOW,
        ShotWorkflowError::ManifestNotWritable => PROJECT_ERR_READ_ONLY,
        ShotWorkflowError::InvalidCanonicalState
        | ShotWorkflowError::MigrationRequired
        | ShotWorkflowError::InvalidStoredHash { .. }
        | ShotWorkflowError::MigrationBackupConflict(_)
        | ShotWorkflowError::Path(_)
        | ShotWorkflowError::ArtifactId(_)
        | ShotWorkflowError::Hash(_)
        | ShotWorkflowError::Lifecycle(_)
        | ShotWorkflowError::Selection(_) => PROJECT_ERR_INVALID_SHOT_STATE,
    }
}

/// The status code of a shot operation's outcome.
pub fn shot_result_code(result: Result<(), ShotWorkflowError>) -> (code: i32)
    ensures
        code == match result {
            Ok(()) => PROJECT_OK,
            Err(e) => shot_error_code_of(e),
        },
{
    match result {
        Ok(()) => PROJECT_OK,
        Err(error) => shot_error_code(&error),
    }
}

} // verus!
