use vstd::prelude::*;
use vstd::string::*;

use crate::shot_text::{decimal_chars, push_decimal, push_str, text_equals, text_starts_with};

verus! {

/// `.kineto`, the directory of derived and runtime state.
pub open spec fn runtime_dir_text() -> Seq<char> {
    seq!['.', 'k', 'i', 'n', 'e', 't', 'o']
}

/// `.kineto-write-`, the prefix of every file an atomic write stages.
pub open spec fn staging_prefix_text() -> Seq<char> {
    seq!['.', 'k', 'i', 'n', 'e', 't', 'o', '-', 'w', 'r', 'i', 't', 'e', '-']
}

/// `.kineto-write-<process>-<nonce>.tmp`, the staging file of one write.
pub open spec fn staging_name_text(process: nat, nonce: nat) -> Seq<char> {
    staging_prefix_text() + decimal_chars(process) + seq!['-'] + decimal_chars(nonce) + seq![
        '.',
        't',
        'm',
        'p',
    ]
}

/// A directory entry that a canonical snapshot skips: the runtime
/// directory, or a file staged by an atomic write that is not yet published.
pub open spec fn skipped_by_snapshot(name: Seq<char>) -> bool {
    name == runtime_dir_text() || (staging_prefix_text().len() <= name.len() && name.subrange(
        0,
        staging_prefix_text().len() as int,
    ) == staging_prefix_text())
}

/// The name of the file an atomic write stages its bytes in.
pub fn staging_file_name(process: u32, nonce: u64) -> (name: String)
    ensures
        name@ == staging_name_text(process as nat, nonce as nat),
{
    let prefix = ".kineto-write-";
    let dash = "-";
    let suffix = ".tmp";
    proof {
        reveal_strlit(".kineto-write-");
        reveal_strlit("-");
        reveal_strlit(".tmp");
        assert(prefix@ =~= staging_prefix_text());
    }
    let mut name = String::new();
    push_str(&mut name, prefix);
    push_decimal(&mut name, process as u64);
    push_str(&mut name, dash);
    push_decimal(&mut name, nonce);
    push_str(&mut name, suffix);
    assert(name@ =~= staging_name_text(process as nat, nonce as nat));
    name
}

/// Whether a canonical snapshot skips the directory entry `name`.
pub fn is_skipped_by_snapshot(name: &str) -> (r: bool)
    ensures
        r == skipped_by_snapshot(name@),
{
    let runtime_dir = ".kineto";
    let prefix = ".kineto-write-";
    proof {
        reveal_strlit(".kineto");
        reveal_strlit(".kineto-write-");
        assert(runtime_dir@ =~= runtime_dir_text());
        assert(prefix@ =~= staging_prefix_text());
    }
    text_equals(name, runtime_dir) || text_starts_with(name, prefix)
}

/// What an atomic write stages never enters a canonical snapshot, whatever
/// the process and the nonce.
pub proof fn lemma_staged_files_stay_out_of_snapshots(process: nat, nonce: nat)
    ensures
        skipped_by_snapshot(staging_name_text(process, nonce)),
{
    let name = staging_name_text(process, nonce);
    let n = staging_prefix_text().len() as int;
    assert(name.subrange(0, n) =~= staging_prefix_text());
}

} // verus!
