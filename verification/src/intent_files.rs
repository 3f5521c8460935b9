use vstd::prelude::*;
use vstd::string::*;

use crate::jobs::JobId;
use crate::project_files::staging_prefix_text;
use crate::project_path::{is_project_relative_path, ProjectPathError, ProjectRelativePath};
use crate::shot_text::{push_str, text_ends_with, text_equals, text_starts_with};

verus! {

/// `.kineto/jobs/intents`, where paid-job intents live inside a project.
pub open spec fn intent_dir_text() -> Seq<char> {
    seq![
        '.', 'k', 'i', 'n', 'e', 't', 'o', '/', 'j', 'o', 'b', 's', '/', 'i', 'n', 't', 'e', 'n',
        't', 's',
    ]
}

/// `.json`.
pub open spec fn json_suffix_text() -> Seq<char> {
    seq!['.', 'j', 's', 'o', 'n']
}

/// `<job id>.json`, the file of one intent.
pub open spec fn intent_file_name_text(job_id: Seq<char>) -> Seq<char> {
    job_id + json_suffix_text()
}

/// The project path of the entry `name` of the intent directory.
pub open spec fn intent_entry_path_text(name: Seq<char>) -> Seq<char> {
    intent_dir_text() + seq!['/'] + name
}

/// `s` begins with `prefix`.
pub open spec fn has_prefix(s: Seq<char>, prefix: Seq<char>) -> bool {
    prefix.len() <= s.len() && s.subrange(0, prefix.len() as int) == prefix
}

/// `s` ends with `suffix`.
pub open spec fn has_suffix(s: Seq<char>, suffix: Seq<char>) -> bool {
    suffix.len() <= s.len() && s.subrange(s.len() - suffix.len(), s.len() as int) == suffix
}

/// An entry of the intent directory that is read as an intent: a `.json`
/// file that is not a staged, unpublished write.
pub open spec fn listed_intent_file(name: Seq<char>) -> bool {
    !has_prefix(name, staging_prefix_text()) && has_suffix(name, json_suffix_text())
}

/// The file name an intent is stored under.
pub fn intent_file_name(job_id: &JobId) -> (name: String)
    ensures
        name@ == intent_file_name_text(job_id@),
{
    let suffix = ".json";
    proof {
        reveal_strlit(".json");
    }
    let mut name = String::new();
    push_str(&mut name, job_id.as_str());
    push_str(&mut name, suffix);
    assert(name@ =~= intent_file_name_text(job_id@));
    name
}

/// The project path of the entry `name` of the intent directory.
pub fn intent_entry_path(name: &str) -> (r: Result<ProjectRelativePath, ProjectPathError>)
    ensures
        r is Ok <==> is_project_relative_path(intent_entry_path_text(name@)),
        r matches Ok(p) ==> p@ == intent_entry_path_text(name@),
        r matches Err(e) ==> e == ProjectPathError::Invalid,
{
    let dir = ".kineto/jobs/intents/";
    proof {
        reveal_strlit(".kineto/jobs/intents/");
    }
    let mut text = String::new();
    push_str(&mut text, dir);
    push_str(&mut text, name);
    assert(text@ =~= intent_entry_path_text(name@));
    ProjectRelativePath::new(text.as_str())
}

/// The project path an intent is stored at.
pub fn intent_path(job_id: &JobId) -> (r: Result<ProjectRelativePath, ProjectPathError>)
    ensures
        r is Ok <==> is_project_relative_path(intent_entry_path_text(intent_file_name_text(job_id@))),
        r matches Ok(p) ==> p@ == intent_entry_path_text(intent_file_name_text(job_id@)),
        r matches Err(e) ==> e == ProjectPathError::Invalid,
{
    let name = intent_file_name(job_id);
    intent_entry_path(name.as_str())
}

/// Whether an entry of the intent directory is read as an intent.
pub fn is_listed_intent_file(name: &str) -> (r: bool)
    ensures
        r == listed_intent_file(name@),
{
    let prefix = ".kineto-write-";
    let suffix = ".json";
    proof {
        reveal_strlit(".kineto-write-");
        reveal_strlit(".json");
        assert(prefix@ =~= staging_prefix_text());
        assert(suffix@ =~= json_suffix_text());
    }
    !text_starts_with(name, prefix) && text_ends_with(name, suffix)
}

/// Whether an entry of the intent directory is the file of `job_id`.
pub fn names_intent_of(name: &str, job_id: &JobId) -> (r: bool)
    ensures
        r == (name@ == intent_file_name_text(job_id@)),
{
    let expected = intent_file_name(job_id);
    text_equals(name, expected.as_str())
}

/// An intent saved under its job identifier is read back from the intent
/// directory, and as that job's file, unless the identifier itself begins
/// like a staged write.
pub proof fn lemma_saved_intents_are_listed(job_id: Seq<char>)
    requires
        job_id.len() != 0,
        !has_prefix(job_id, staging_prefix_text()),
    ensures
        listed_intent_file(intent_file_name_text(job_id)),
{
    let name = intent_file_name_text(job_id);
    let p = staging_prefix_text();
    assert(name.subrange(name.len() - 5, name.len() as int) =~= json_suffix_text());
    if has_prefix(name, p) {
        if job_id.len() >= p.len() {
            assert(job_id.subrange(0, p.len() as int) =~= name.subrange(0, p.len() as int));
        } else {
            let k = job_id.len() as int;
            assert(name[k] == '.');
            assert(name.subrange(0, p.len() as int)[k] == p[k]);
            assert(p[k] != '.');
        }
    }
}

} // verus!
