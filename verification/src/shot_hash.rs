use vstd::prelude::*;
use vstd::string::*;

use crate::artifact::{
    artifact_id_verdict, is_hash_text, ArtifactId, ArtifactIdError, ContentHash, InputHash,
};
use crate::project_path::{is_project_relative_path, ProjectPathError, ProjectRelativePath};
use crate::shot::{direction_code, ShotDirection};
use crate::shot_text::{
    digest_hash_text, digest_text, hex_chars, push_str, push_zero_padded, text_equals,
    text_starts_with, zero_padded,
};
use crate::text::utf8_of;

verus! {

/// The SHA-256 digest of a byte string.
pub uninterp spec fn sha256_digest(data: Seq<u8>) -> Seq<u8>;

/// `sha2::Sha256::digest`: the SHA-256 digest of `data`, which is always
/// 32 bytes long.
#[verifier::external_body]
fn sha256(data: &[u8]) -> (digest: Vec<u8>)
    ensures
        digest@ == sha256_digest(data@),
        digest@.len() == 32,
{
    <sha2::Sha256 as sha2::Digest>::digest(data).to_vec()
}

/// Domain tag of a shot-intent hash.
pub open spec fn intent_tag() -> Seq<char> {
    seq![
        'k', 'i', 'n', 'e', 't', 'o', ':', 's', 'h', 'o', 't', '-', 'i', 'n', 't', 'e', 'n', 't',
        ':', 'v', '1',
    ]
}

/// Domain tag of a demo candidate content hash.
pub open spec fn demo_tag() -> Seq<char> {
    seq![
        'k', 'i', 'n', 'e', 't', 'o', ':', 'd', 'e', 'm', 'o', '-', 's', 'h', 'o', 't', '-', 'c',
        'a', 'n', 'd', 'i', 'd', 'a', 't', 'e', ':', 'v', '1',
    ]
}

/// Little-endian bytes of a 64-bit length.
pub open spec fn u64_le_bytes(n: u64) -> Seq<u8> {
    seq![
        (n % 0x100) as u8,
        ((n / 0x100) % 0x100) as u8,
        ((n / 0x1_0000) % 0x100) as u8,
        ((n / 0x100_0000) % 0x100) as u8,
        ((n / 0x1_0000_0000) % 0x100) as u8,
        ((n / 0x100_0000_0000) % 0x100) as u8,
        ((n / 0x1_0000_0000_0000) % 0x100) as u8,
        ((n / 0x100_0000_0000_0000) % 0x100) as u8,
    ]
}

/// What the intent hash of a shot digests: the tag, a zero byte, the byte
/// length of the shot identifier (little-endian, 64-bit), the identifier and
/// the direction code.
pub open spec fn intent_preimage(shot_id: Seq<char>, code: u8) -> Seq<u8> {
    utf8_of(intent_tag()) + seq![0u8] + u64_le_bytes(utf8_of(shot_id).len() as u64) + utf8_of(
        shot_id,
    ) + seq![code]
}

/// The input hash text of a shot's semantic intent.
pub open spec fn intent_hash_text(shot_id: Seq<char>, direction: ShotDirection) -> Seq<char> {
    digest_text(sha256_digest(intent_preimage(shot_id, direction_code(direction))))
}

/// What the demo content hash of a candidate digests.
pub open spec fn demo_preimage(artifact_id: Seq<char>) -> Seq<u8> {
    utf8_of(demo_tag()) + seq![0u8] + utf8_of(artifact_id)
}

/// The content hash text given to a generated demo candidate.
pub open spec fn demo_hash_text(artifact_id: Seq<char>) -> Seq<char> {
    digest_text(sha256_digest(demo_preimage(artifact_id)))
}

fn append_bytes(v: &mut Vec<u8>, bytes: &[u8])
    ensures
        final(v)@ == old(v)@ + bytes@,
{
    let ghost start = v@;
    let mut i: usize = 0;
    while i < bytes.len()
        invariant
            0 <= i <= bytes@.len(),
            v@ == start + bytes@.subrange(0, i as int),
        decreases bytes.len() - i,
    {
        v.push(bytes[i]);
        assert(v@ =~= start + bytes@.subrange(0, (i + 1) as int));
        i = i + 1;
    }
    assert(bytes@.subrange(0, bytes@.len() as int) =~= bytes@);
}

fn u64_le(n: u64) -> (bytes: Vec<u8>)
    ensures
        bytes@ == u64_le_bytes(n),
{
    let mut bytes: Vec<u8> = Vec::new();
    bytes.push((n % 0x100) as u8);
    bytes.push(((n / 0x100) % 0x100) as u8);
    bytes.push(((n / 0x1_0000) % 0x100) as u8);
    bytes.push(((n / 0x100_0000) % 0x100) as u8);
    bytes.push(((n / 0x1_0000_0000) % 0x100) as u8);
    bytes.push(((n / 0x100_0000_0000) % 0x100) as u8);
    bytes.push(((n / 0x1_0000_0000_0000) % 0x100) as u8);
    bytes.push(((n / 0x100_0000_0000_0000) % 0x100) as u8);
    assert(bytes@ =~= u64_le_bytes(n));
    bytes
}

/// The bytes an intent hash digests.
pub fn intent_preimage_bytes(shot_id: &str, code: u8) -> (bytes: Vec<u8>)
    ensures
        bytes@ == intent_preimage(shot_id@, code),
{
    let tag = "kineto:shot-intent:v1";
    proof {
        reveal_strlit("kineto:shot-intent:v1");
        assert(tag@ =~= intent_tag());
    }
    let mut bytes: Vec<u8> = Vec::new();
    append_bytes(&mut bytes, tag.as_bytes());
    bytes.push(0);
    let id_bytes = shot_id.as_bytes();
    let len_bytes = u64_le(id_bytes.len() as u64);
    append_bytes(&mut bytes, len_bytes.as_slice());
    append_bytes(&mut bytes, id_bytes);
    bytes.push(code);
    assert(bytes@ =~= intent_preimage(shot_id@, code));
    bytes
}

/// The input hash recorded on candidates generated for this shot intent.
pub fn input_hash_for(shot_id: &str, direction: ShotDirection) -> (h: InputHash)
    ensures
        h@ == intent_hash_text(shot_id@, direction),
{
    let preimage = intent_preimage_bytes(shot_id, direction.code());
    let digest = sha256(preimage.as_slice());
    let text = digest_hash_text(digest.as_slice());
    proof {
        lemma_digest_text_is_hash_text(digest@);
    }
    match InputHash::new(text.as_str()) {
        Ok(h) => h,
        Err(_) => {
            proof {
                assert(false);
            }
            InputHash::new(text.as_str()).unwrap()
        },
    }
}

/// The bytes a demo content hash digests.
pub fn demo_preimage_bytes(artifact_id: &ArtifactId) -> (bytes: Vec<u8>)
    ensures
        bytes@ == demo_preimage(artifact_id@),
{
    let tag = "kineto:demo-shot-candidate:v1";
    proof {
        reveal_strlit("kineto:demo-shot-candidate:v1");
        assert(tag@ =~= demo_tag());
    }
    let mut bytes: Vec<u8> = Vec::new();
    append_bytes(&mut bytes, tag.as_bytes());
    bytes.push(0);
    append_bytes(&mut bytes, artifact_id.as_str().as_bytes());
    assert(bytes@ =~= demo_preimage(artifact_id@));
    bytes
}

/// The content hash given to a generated demo candidate.
pub fn demo_content_hash(artifact_id: &ArtifactId) -> (h: ContentHash)
    ensures
        h@ == demo_hash_text(artifact_id@),
{
    let preimage = demo_preimage_bytes(artifact_id);
    let digest = sha256(preimage.as_slice());
    let text = digest_hash_text(digest.as_slice());
    proof {
        lemma_digest_text_is_hash_text(digest@);
    }
    match ContentHash::new(text.as_str()) {
        Ok(h) => h,
        Err(_) => {
            proof {
                assert(false);
            }
            ContentHash::new(text.as_str()).unwrap()
        },
    }
}

proof fn lemma_hex_len(bytes: Seq<u8>)
    ensures
        hex_chars(bytes).len() == 2 * bytes.len(),
    decreases bytes.len(),
{
    if bytes.len() > 0 {
        lemma_hex_len(bytes.drop_last());
    }
}

/// A digest's text is a canonical hash text whenever the digest is not empty.
pub proof fn lemma_digest_text_is_hash_text(digest: Seq<u8>)
    requires
        digest.len() > 0,
    ensures
        is_hash_text(digest_text(digest)),
        digest_text(digest).len() == 7 + 2 * digest.len(),
{
    lemma_hex_len(digest);
    let t = digest_text(digest);
    assert(t.subrange(0, 7) =~= crate::artifact::hash_prefix());
}

/// Old spelling of a direction inside a legacy intent text.
pub open spec fn legacy_key(d: ShotDirection) -> Seq<char> {
    match d {
        ShotDirection::Reaction => seq!['r', 'e', 'a', 'c', 't', 'i', 'o', 'n'],
        ShotDirection::SpatialClarity => seq![
            's', 'p', 'a', 't', 'i', 'a', 'l', '_', 'c', 'l', 'a', 'r', 'i', 't', 'y',
        ],
        ShotDirection::Intimacy => seq!['i', 'n', 't', 'i', 'm', 'a', 'c', 'y'],
        ShotDirection::Tension => seq!['t', 'e', 'n', 's', 'i', 'o', 'n'],
    }
}

/// `kineto:shot-intent:v1:<shot id>:`, the head of a legacy intent text.
pub open spec fn legacy_intent_head(shot_id: Seq<char>) -> Seq<char> {
    intent_tag() + seq![':'] + shot_id + seq![':']
}

/// The legacy, unhashed input value of a shot intent.
pub open spec fn legacy_intent_text(shot_id: Seq<char>, d: ShotDirection) -> Seq<char> {
    legacy_intent_head(shot_id) + legacy_key(d)
}

/// The direction a legacy key names.
pub fn direction_from_legacy_key(value: &str) -> (d: Option<ShotDirection>)
    ensures
        match d {
            Some(x) => value@ == legacy_key(x),
            None => forall|x: ShotDirection| value@ != legacy_key(x),
        },
{
    proof {
        reveal_strlit("reaction");
        reveal_strlit("spatial_clarity");
        reveal_strlit("intimacy");
        reveal_strlit("tension");
        assert("reaction"@ =~= legacy_key(ShotDirection::Reaction));
        assert("spatial_clarity"@ =~= legacy_key(ShotDirection::SpatialClarity));
        assert("intimacy"@ =~= legacy_key(ShotDirection::Intimacy));
        assert("tension"@ =~= legacy_key(ShotDirection::Tension));
    }
    if text_equals(value, "reaction") {
        Some(ShotDirection::Reaction)
    } else if text_equals(value, "spatial_clarity") {
        Some(ShotDirection::SpatialClarity)
    } else if text_equals(value, "intimacy") {
        Some(ShotDirection::Intimacy)
    } else if text_equals(value, "tension") {
        Some(ShotDirection::Tension)
    } else {
        proof {
            assert forall|x: ShotDirection| value@ != legacy_key(x) by {
                match x {
                    ShotDirection::Reaction => {},
                    ShotDirection::SpatialClarity => {},
                    ShotDirection::Intimacy => {},
                    ShotDirection::Tension => {},
                }
            }
        }
        None
    }
}

/// The direction a legacy intent text of this shot names, if it is one.
pub fn legacy_input_hash_direction(shot_id: &str, value: &str) -> (d: Option<ShotDirection>)
    ensures
        match d {
            Some(x) => value@ == legacy_intent_text(shot_id@, x),
            None => forall|x: ShotDirection| value@ != legacy_intent_text(shot_id@, x),
        },
{
    let tag = "kineto:shot-intent:v1:";
    proof {
        reveal_strlit("kineto:shot-intent:v1:");
        reveal_strlit(":");
        assert(tag@ =~= intent_tag() + seq![':']);
    }
    let mut head = String::from_str(tag);
    push_str(&mut head, shot_id);
    push_str(&mut head, ":");
    assert(head@ =~= legacy_intent_head(shot_id@));
    let h = head.as_str();
    if !text_starts_with(value, h) {
        proof {
            assert forall|x: ShotDirection| value@ != legacy_intent_text(shot_id@, x) by {
                if value@ == legacy_intent_text(shot_id@, x) {
                    assert(value@.subrange(0, h@.len() as int) =~= h@);
                }
            }
        }
        return None;
    }
    let n = value.unicode_len();
    let k = h.unicode_len();
    let rest = value.substring_char(k, n);
    assert(value@ =~= h@ + rest@);
    let d = direction_from_legacy_key(rest);
    proof {
        assert forall|x: ShotDirection| value@ == legacy_intent_text(shot_id@, x) implies rest@
            == legacy_key(x) by {
            assert(rest@ =~= value@.subrange(k as int, n as int));
            assert(legacy_intent_text(shot_id@, x).subrange(k as int, n as int) =~= legacy_key(x));
        }
    }
    d
}

/// `shot_` and the shot number padded to three digits.
pub open spec fn shot_id_text(shot_number: u32) -> Seq<char> {
    seq!['s', 'h', 'o', 't', '_'] + zero_padded(shot_number as nat, 3)
}

/// The identifier of a numbered shot.
pub fn shot_id_for(shot_number: u32) -> (s: String)
    ensures
        s@ == shot_id_text(shot_number),
{
    let head = "shot_";
    proof {
        reveal_strlit("shot_");
        assert(head@ =~= seq!['s', 'h', 'o', 't', '_']);
    }
    let mut s = String::from_str(head);
    push_zero_padded(&mut s, shot_number, 3);
    s
}

/// Letter that ends the identifier of the `i`-th candidate of a generation.
pub open spec fn candidate_label(i: int) -> char {
    if i == 0 {
        'a'
    } else if i == 1 {
        'b'
    } else {
        'c'
    }
}

/// `<shot id>_g<revision, 4 digits>_candidate_<label>`.
pub open spec fn candidate_id_text(shot_id: Seq<char>, revision: u16, i: int) -> Seq<char> {
    shot_id + seq!['_', 'g'] + zero_padded(revision as nat, 4) + seq![
        '_', 'c', 'a', 'n', 'd', 'i', 'd', 'a', 't', 'e', '_', candidate_label(i)]
}

/// The first invalid identifier among a generation's three candidates.
pub open spec fn candidate_ids_error(shot_id: Seq<char>, revision: u16) -> Option<ArtifactIdError> {
    match artifact_id_verdict(candidate_id_text(shot_id, revision, 0)) {
        Err(e) => Some(e),
        Ok(_) => match artifact_id_verdict(candidate_id_text(shot_id, revision, 1)) {
            Err(e) => Some(e),
            Ok(_) => match artifact_id_verdict(candidate_id_text(shot_id, revision, 2)) {
                Err(e) => Some(e),
                Ok(_) => None,
            },
        },
    }
}

/// The identifiers of a generation's candidates.
pub open spec fn candidate_texts(shot_id: Seq<char>, revision: u16) -> Seq<Seq<char>> {
    seq![
        candidate_id_text(shot_id, revision, 0),
        candidate_id_text(shot_id, revision, 1),
        candidate_id_text(shot_id, revision, 2),
    ]
}

/// Number of candidates one generation produces.
pub const GENERATED_CANDIDATE_COUNT: usize = 3;

fn candidate_id_string(shot_id: &str, revision: u16, i: usize) -> (s: String)
    requires
        i < 3,
    ensures
        s@ == candidate_id_text(shot_id@, revision, i as int),
{
    proof {
        reveal_strlit("_g");
        reveal_strlit("_candidate_a");
        reveal_strlit("_candidate_b");
        reveal_strlit("_candidate_c");
    }
    let mut s = String::from_str(shot_id);
    push_str(&mut s, "_g");
    push_zero_padded(&mut s, revision as u32, 4);
    if i == 0 {
        push_str(&mut s, "_candidate_a");
    } else if i == 1 {
        push_str(&mut s, "_candidate_b");
    } else {
        push_str(&mut s, "_candidate_c");
    }
    assert(s@ =~= candidate_id_text(shot_id@, revision, i as int));
    s
}

/// The identifiers of the three candidates of one generation, in order.
pub fn candidate_ids(shot_id: &str, revision: u16) -> (r: Result<Vec<ArtifactId>, ArtifactIdError>)
    ensures
        match r {
            Ok(ids) => ids@.len() == 3 && forall|i: int|
                0 <= i < 3 ==> #[trigger] ids@[i]@ == candidate_id_text(shot_id@, revision, i),
            Err(e) => candidate_ids_error(shot_id@, revision) == Some(e),
        },
        r is Ok <==> candidate_ids_error(shot_id@, revision) is None,
{
    let mut ids: Vec<ArtifactId> = Vec::new();
    let mut i: usize = 0;
    while i < GENERATED_CANDIDATE_COUNT
        invariant
            0 <= i <= 3,
            ids@.len() == i,
            forall|j: int| 0 <= j < i ==> #[trigger] ids@[j]@ == candidate_id_text(shot_id@, revision, j),
            forall|j: int| 0 <= j < i ==> artifact_id_verdict(candidate_id_text(shot_id@, revision, j)) is Ok,
        decreases 3 - i,
    {
        let text = candidate_id_string(shot_id, revision, i);
        match ArtifactId::new(text.as_str()) {
            Ok(id) => {
                ids.push(id);
            },
            Err(e) => {
                assert(artifact_id_verdict(candidate_id_text(shot_id@, revision, i as int))
                    == Err::<(), ArtifactIdError>(e));
                assert(i == 0 || artifact_id_verdict(candidate_id_text(shot_id@, revision, 0)) is Ok);
                assert(i <= 1 || artifact_id_verdict(candidate_id_text(shot_id@, revision, 1)) is Ok);
                return Err(e);
            },
        }
        i = i + 1;
    }
    Ok(ids)
}

/// `scenes/scene_001/shots/<shot id>/<file>`.
pub open spec fn shot_path_text(shot_number: u32, file: Seq<char>) -> Seq<char> {
    seq![
        's', 'c', 'e', 'n', 'e', 's', '/', 's', 'c', 'e', 'n', 'e', '_', '0', '0', '1', '/', 's',
        'h', 'o', 't', 's', '/',
    ] + shot_id_text(shot_number) + seq!['/'] + file
}

/// The project-relative path of one of a shot's files.
pub fn shot_path(shot_number: u32, file: &str) -> (r: Result<ProjectRelativePath, ProjectPathError>)
    ensures
        r is Ok <==> is_project_relative_path(shot_path_text(shot_number, file@)),
        r matches Ok(p) ==> p@ == shot_path_text(shot_number, file@),
        r matches Err(e) ==> e == ProjectPathError::Invalid,
{
    let head = "scenes/scene_001/shots/";
    proof {
        reveal_strlit("scenes/scene_001/shots/");
        reveal_strlit("/");
        assert(head@ =~= seq![
            's', 'c', 'e', 'n', 'e', 's', '/', 's', 'c', 'e', 'n', 'e', '_', '0', '0', '1', '/',
            's', 'h', 'o', 't', 's', '/',
        ]);
    }
    let mut s = String::from_str(head);
    let id = shot_id_for(shot_number);
    push_str(&mut s, id.as_str());
    push_str(&mut s, "/");
    push_str(&mut s, file);
    assert(s@ =~= shot_path_text(shot_number, file@));
    ProjectRelativePath::new(s.as_str())
}

} // verus!
