use vstd::prelude::*;
use vstd::string::*;

verus! {

/// Creative direction of a shot.
#[derive(Debug, Clone, Copy, PartialEq, Eq, Structural)]
pub enum ShotDirection {
    Reaction,
    SpatialClarity,
    Intimacy,
    Tension,
}

/// Wire code of a direction: 1 through 4.
pub open spec fn direction_code(d: ShotDirection) -> u8 {
    match d {
        ShotDirection::Reaction => 1,
        ShotDirection::SpatialClarity => 2,
        ShotDirection::Intimacy => 3,
        ShotDirection::Tension => 4,
    }
}

impl Default for ShotDirection {
    fn default() -> (d: Self)
        ensures
            d == ShotDirection::Reaction,
    {
        ShotDirection::Reaction
    }
}

impl ShotDirection {
    pub fn code(self) -> (c: u8)
        ensures
            c == direction_code(self),
    {
        match self {
            ShotDirection::Reaction => 1,
            ShotDirection::SpatialClarity => 2,
            ShotDirection::Intimacy => 3,
            ShotDirection::Tension => 4,
        }
    }

    pub fn from_code(code: u8) -> (d: Option<Self>)
        ensures
            d is Some <==> 1 <= code <= 4,
            d matches Some(x) ==> direction_code(x) == code,
    {
        match code {
            1 => Some(ShotDirection::Reaction),
            2 => Some(ShotDirection::SpatialClarity),
            3 => Some(ShotDirection::Intimacy),
            4 => Some(ShotDirection::Tension),
            _ => None,
        }
    }
}

/// Decoding a code gives back the direction that produced it.
pub proof fn lemma_direction_code_round_trip(d: ShotDirection, code: u8)
    ensures
        1 <= direction_code(d) <= 4,
        (1 <= code <= 4) ==> exists|x: ShotDirection| direction_code(x) == code,
        forall|x: ShotDirection| direction_code(x) == direction_code(d) ==> x == d,
{
    if code == 1 {
        assert(direction_code(ShotDirection::Reaction) == code);
    } else if code == 2 {
        assert(direction_code(ShotDirection::SpatialClarity) == code);
    } else if code == 3 {
        assert(direction_code(ShotDirection::Intimacy) == code);
    } else if code == 4 {
        assert(direction_code(ShotDirection::Tension) == code);
    }
}

/// Typed approval state of one shot.
#[derive(Debug, Clone, Copy, PartialEq, Eq, Structural)]
pub struct ShotApprovalSnapshot {
    pub generated: bool,
    pub stale: bool,
    pub selected_index: Option<u8>,
    pub locked: bool,
    pub candidate_count: u8,
    pub direction: ShotDirection,
    pub generation_revision: u16,
    pub superseded_count: u16,
    pub migration_pending: bool,
    pub invalid_hash_count: u16,
}

pub open spec fn bit(b: bool) -> int {
    if b {
        1
    } else {
        0
    }
}

/// The fixed-width snapshot word: bit 0 generated, bit 1 locked, bit 2 stale,
/// bit 3 migration pending, bit 4 invalid hashes present, bits 8..15 the
/// candidate count, bits 16..23 the selected index plus one (0 for none),
/// bits 24..31 the direction code, bits 32..47 the generation revision and
/// bits 48..63 the superseded count.
pub open spec fn snapshot_word(s: ShotApprovalSnapshot) -> int {
    let selected = match s.selected_index {
        Some(i) => i + 1,
        None => 0,
    };
    bit(s.generated) + bit(s.locked) * 0x2 + bit(s.stale) * 0x4 + bit(s.migration_pending) * 0x8
        + bit(s.invalid_hash_count != 0) * 0x10 + s.candidate_count * 0x100 + selected * 0x1_0000
        + direction_code(s.direction) * 0x100_0000 + s.generation_revision * 0x1_0000_0000
        + s.superseded_count * 0x1_0000_0000_0000
}

fn flag(b: bool) -> (r: u64)
    ensures
        r == bit(b),
{
    if b {
        1
    } else {
        0
    }
}

/// Packs a snapshot into its fixed-width word.
pub fn encode_shot_snapshot(snapshot: ShotApprovalSnapshot) -> (word: u64)
    ensures
        word == snapshot_word(snapshot),
{
    let selected: u64 = match snapshot.selected_index {
        Some(i) => i as u64 + 1,
        None => 0,
    };
    let low = flag(snapshot.generated) + flag(snapshot.locked) * 0x2 + flag(snapshot.stale) * 0x4
        + flag(snapshot.migration_pending) * 0x8 + flag(snapshot.invalid_hash_count != 0) * 0x10;
    let count = snapshot.candidate_count as u64;
    let direction = snapshot.direction.code() as u64;
    let revision = snapshot.generation_revision as u64;
    let superseded = snapshot.superseded_count as u64;
    assert(selected <= 256);
    assert(count * 0x100 <= 0xff00) by (nonlinear_arith)
        requires
            count <= 0xff,
    ;
    assert(selected * 0x1_0000 <= 0x100_0000) by (nonlinear_arith)
        requires
            selected <= 256,
    ;
    assert(direction * 0x100_0000 <= 0x400_0000) by (nonlinear_arith)
        requires
            direction <= 4,
    ;
    assert(revision * 0x1_0000_0000 <= 0xffff_0000_0000) by (nonlinear_arith)
        requires
            revision <= 0xffff,
    ;
    assert(superseded * 0x1_0000_0000_0000 <= 0xffff_0000_0000_0000) by (nonlinear_arith)
        requires
            superseded <= 0xffff,
    ;
    low + count * 0x100 + selected * 0x1_0000 + direction * 0x100_0000 + revision * 0x1_0000_0000
        + superseded * 0x1_0000_0000_0000
}

} // verus!
