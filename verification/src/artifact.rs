use vstd::prelude::*;
use vstd::string::*;

use crate::text::{all_bytes_allowed, bytes_all_allowed, utf8_of};

verus! {

/// Longest accepted artifact identifier, in UTF-8 bytes.
pub const MAX_ARTIFACT_ID_LEN: usize = 128;

/// Every canonical hash value names its digest algorithm.
pub open spec fn hash_prefix() -> Seq<char> {
    seq!['s', 'h', 'a', '2', '5', '6', ':']
}

/// A stored hash value: `sha256:` followed by a non-empty digest text.
pub open spec fn is_hash_text(s: Seq<char>) -> bool {
    s.len() > hash_prefix().len() && s.subrange(0, hash_prefix().len() as int) == hash_prefix()
}

/// Why a text is not an artifact identifier.
#[derive(Debug, Clone, Copy, PartialEq, Eq, Structural)]
pub enum ArtifactIdError {
    Empty,
    TooLong,
    InvalidCharacter,
}

/// What `ArtifactId::new` decides for a text.
pub open spec fn artifact_id_verdict(s: Seq<char>) -> Result<(), ArtifactIdError> {
    if s.len() == 0 {
        Err(ArtifactIdError::Empty)
    } else if utf8_of(s).len() > MAX_ARTIFACT_ID_LEN {
        Err(ArtifactIdError::TooLong)
    } else if !all_bytes_allowed(utf8_of(s), Seq::empty()) {
        Err(ArtifactIdError::InvalidCharacter)
    } else {
        Ok(())
    }
}

/// Stable identifier of an artifact: 1..=128 bytes of portable ASCII.
#[derive(Debug, PartialEq, Eq, PartialOrd, Ord, Hash)]
pub struct ArtifactId(String);

impl View for ArtifactId {
    type V = Seq<char>;

    closed spec fn view(&self) -> Seq<char> {
        self.0@
    }
}

impl Clone for ArtifactId {
    fn clone(&self) -> (r: Self)
        ensures
            r == *self,
    {
        proof {
            use_type_invariant(self);
        }
        ArtifactId(self.0.clone())
    }
}

impl ArtifactId {
    #[verifier::type_invariant]
    spec fn valid(self) -> bool {
        artifact_id_verdict(self.0@) is Ok
    }

    /// Every identifier that exists passed validation.
    pub fn assert_valid(&self)
        ensures
            artifact_id_verdict(self@) is Ok,
    {
        proof {
            use_type_invariant(self);
        }
    }

    /// Validates an identifier; the error names the first rule broken.
    pub fn new(value: &str) -> (r: Result<ArtifactId, ArtifactIdError>)
        ensures
            match r {
                Ok(id) => artifact_id_verdict(value@) is Ok && id@ == value@,
                Err(e) => artifact_id_verdict(value@) == Err::<(), ArtifactIdError>(e),
            },
    {
        if value.is_empty() {
            return Err(ArtifactIdError::Empty);
        }
        let bytes = value.as_bytes();
        if bytes.len() > MAX_ARTIFACT_ID_LEN {
            return Err(ArtifactIdError::TooLong);
        }
        let no_extra: Vec<u8> = Vec::new();
        let extra = no_extra.as_slice();
        if !bytes_all_allowed(bytes, extra) {
            return Err(ArtifactIdError::InvalidCharacter);
        }
        Ok(ArtifactId(value.to_owned()))
    }

    pub fn as_str(&self) -> (s: &str)
        ensures
            s@ == self@,
    {
        self.0.as_str()
    }

    /// Equality of the identifier texts.
    pub fn same_as(&self, other: &ArtifactId) -> (r: bool)
        ensures
            r == (self@ == other@),
    {
        self.0 == other.0
    }

    /// The identifier as text; the stand-in for `Display`.
    pub fn to_string(&self) -> (s: String)
        ensures
            s@ == self@,
    {
        self.0.clone()
    }
}

/// A hash value that is not canonical.
#[derive(Debug, Clone, Copy, PartialEq, Eq, Structural)]
pub struct HashValueError;

/// Checks the `sha256:` prefix and a non-empty digest text.
fn check_hash_text(value: &str) -> (ok: bool)
    ensures
        ok == is_hash_text(value@),
{
    let n = value.unicode_len();
    if n <= 7 {
        return false;
    }
    let prefix = ['s', 'h', 'a', '2', '5', '6', ':'];
    let mut i: usize = 0;
    while i < 7
        invariant
            0 <= i <= 7,
            n == value@.len(),
            n > 7,
            prefix@ == hash_prefix(),
            forall|j: int| 0 <= j < i ==> value@[j] == hash_prefix()[j],
        decreases 7 - i,
    {
        if value.get_char(i) != prefix[i] {
            return false;
        }
        i = i + 1;
    }
    assert(value@.subrange(0, 7) =~= hash_prefix());
    true
}

/// Hash of an artifact's content.
#[derive(Debug, PartialEq, Eq, PartialOrd, Ord, Hash)]
pub struct ContentHash(String);

impl View for ContentHash {
    type V = Seq<char>;

    closed spec fn view(&self) -> Seq<char> {
        self.0@
    }
}

impl Clone for ContentHash {
    fn clone(&self) -> (r: Self)
        ensures
            r == *self,
    {
        proof {
            use_type_invariant(self);
        }
        ContentHash(self.0.clone())
    }
}

impl ContentHash {
    #[verifier::type_invariant]
    spec fn valid(self) -> bool {
        is_hash_text(self.0@)
    }

    /// Every hash that exists passed validation.
    pub fn assert_valid(&self)
        ensures
            is_hash_text(self@),
    {
        proof {
            use_type_invariant(self);
        }
    }

    pub fn new(value: &str) -> (r: Result<ContentHash, HashValueError>)
        ensures
            r is Ok <==> is_hash_text(value@),
            r matches Ok(h) ==> h@ == value@,
    {
        if check_hash_text(value) {
            Ok(ContentHash(value.to_owned()))
        } else {
            Err(HashValueError)
        }
    }

    pub fn as_str(&self) -> (s: &str)
        ensures
            s@ == self@,
    {
        self.0.as_str()
    }

    /// Equality of the hash texts.
    pub fn same_as(&self, other: &ContentHash) -> (r: bool)
        ensures
            r == (self@ == other@),
    {
        self.0 == other.0
    }
}

/// Hash of the semantic inputs an artifact was generated from.
#[derive(Debug, PartialEq, Eq, PartialOrd, Ord, Hash)]
pub struct InputHash(String);

impl View for InputHash {
    type V = Seq<char>;

    closed spec fn view(&self) -> Seq<char> {
        self.0@
    }
}

impl Clone for InputHash {
    fn clone(&self) -> (r: Self)
        ensures
            r == *self,
    {
        proof {
            use_type_invariant(self);
        }
        InputHash(self.0.clone())
    }
}

impl InputHash {
    #[verifier::type_invariant]
    spec fn valid(self) -> bool {
        is_hash_text(self.0@)
    }

    /// Every hash that exists passed validation.
    pub fn assert_valid(&self)
        ensures
            is_hash_text(self@),
    {
        proof {
            use_type_invariant(self);
        }
    }

    pub fn new(value: &str) -> (r: Result<InputHash, HashValueError>)
        ensures
            r is Ok <==> is_hash_text(value@),
            r matches Ok(h) ==> h@ == value@,
    {
        if check_hash_text(value) {
            Ok(InputHash(value.to_owned()))
        } else {
            Err(HashValueError)
        }
    }

    pub fn as_str(&self) -> (s: &str)
        ensures
            s@ == self@,
    {
        self.0.as_str()
    }
}

} // verus!
