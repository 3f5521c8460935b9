use vstd::prelude::*;
use vstd::string::*;

use crate::text::{all_bytes_allowed, bytes_all_allowed, utf8_of};

verus! {

/// Longest constraint identifier, in bytes.
pub const MAX_CONSTRAINT_ID_LEN: usize = 128;

/// Identifier of one prompt constraint: 1..=128 bytes of portable ASCII.
#[derive(Debug, PartialEq, Eq, PartialOrd, Ord, Hash)]
pub struct ConstraintId(String);

/// A constraint identifier that is not bounded portable ASCII.
#[derive(Debug, Clone, Copy, PartialEq, Eq, Structural)]
pub struct ConstraintIdError;

/// Non-empty, at most 128 UTF-8 bytes, all of them portable ASCII.
pub open spec fn is_constraint_id_text(s: Seq<char>) -> bool {
    s.len() != 0 && utf8_of(s).len() <= MAX_CONSTRAINT_ID_LEN && all_bytes_allowed(
        utf8_of(s),
        Seq::empty(),
    )
}

impl View for ConstraintId {
    type V = Seq<char>;

    closed spec fn view(&self) -> Seq<char> {
        self.0@
    }
}

impl Clone for ConstraintId {
    fn clone(&self) -> (r: Self)
        ensures
            r == *self,
    {
        proof {
            use_type_invariant(self);
        }
        ConstraintId(self.0.clone())
    }
}

impl ConstraintId {
    #[verifier::type_invariant]
    spec fn valid(self) -> bool {
        is_constraint_id_text(self.0@)
    }

    pub fn new(value: &str) -> (r: Result<ConstraintId, ConstraintIdError>)
        ensures
            r is Ok <==> is_constraint_id_text(value@),
            r matches Ok(c) ==> c@ == value@,
    {
        let bytes = value.as_bytes();
        let no_extra: Vec<u8> = Vec::new();
        if value.is_empty() || bytes.len() > MAX_CONSTRAINT_ID_LEN || !bytes_all_allowed(
            bytes,
            no_extra.as_slice(),
        ) {
            return Err(ConstraintIdError);
        }
        Ok(ConstraintId(value.to_owned()))
    }

    pub fn as_str(&self) -> (s: &str)
        ensures
            s@ == self@,
    {
        self.0.as_str()
    }
}

/// How badly a dropped constraint degrades a generation.
#[derive(Debug, Clone, Copy, PartialEq, Eq, PartialOrd, Ord, Structural)]
pub enum DegradationLevel {
    Unaffected,
    Cosmetic,
    IdentityAffecting,
}

/// Severity order of degradation levels.
pub open spec fn severity(level: DegradationLevel) -> int {
    match level {
        DegradationLevel::Unaffected => 0,
        DegradationLevel::Cosmetic => 1,
        DegradationLevel::IdentityAffecting => 2,
    }
}

/// A constraint the compiler could not honour, and why.
#[derive(Debug, PartialEq, Eq)]
pub struct DroppedConstraint {
    pub constraint: ConstraintId,
    pub reason: String,
    pub degradation: DegradationLevel,
}

/// The most severe level among the dropped constraints, `Unaffected` if
/// none was dropped.
pub open spec fn worst_degradation(dropped: Seq<DroppedConstraint>) -> DegradationLevel
    decreases dropped.len(),
{
    if dropped.len() == 0 {
        DegradationLevel::Unaffected
    } else {
        let rest = worst_degradation(dropped.drop_last());
        if severity(dropped.last().degradation) > severity(rest) {
            dropped.last().degradation
        } else {
            rest
        }
    }
}

/// Refused compilation result.
#[derive(Debug, Clone, Copy, PartialEq, Eq, Structural)]
pub enum CompiledPromptError {
    MissingCompilerVersion,
    MissingDropReason,
}

/// A compilation result whose degradation is derived from its dropped
/// constraints, so it cannot disagree with them.
#[derive(Debug, PartialEq, Eq)]
pub struct CompiledPrompt {
    prompt: String,
    applied_constraints: Vec<ConstraintId>,
    dropped_constraints: Vec<DroppedConstraint>,
    compiler_version: String,
}

/// Every dropped constraint gives a reason.
pub open spec fn all_reasons_given(dropped: Seq<DroppedConstraint>) -> bool {
    forall|i: int| 0 <= i < dropped.len() ==> #[trigger] dropped[i].reason@.len() != 0
}

impl CompiledPrompt {
    #[verifier::type_invariant]
    spec fn valid(self) -> bool {
        self.compiler_version@.len() != 0 && all_reasons_given(self.dropped_constraints@)
    }

    pub closed spec fn spec_prompt(&self) -> Seq<char> {
        self.prompt@
    }

    pub closed spec fn spec_applied(&self) -> Seq<ConstraintId> {
        self.applied_constraints@
    }

    pub closed spec fn spec_dropped(&self) -> Seq<DroppedConstraint> {
        self.dropped_constraints@
    }

    pub closed spec fn spec_compiler_version(&self) -> Seq<char> {
        self.compiler_version@
    }

    /// A result needs a compiler version and a reason for every drop.
    pub fn new(
        prompt: &str,
        applied_constraints: Vec<ConstraintId>,
        dropped_constraints: Vec<DroppedConstraint>,
        compiler_version: &str,
    ) -> (r: Result<Self, CompiledPromptError>)
        ensures
            compiler_version@.len() == 0 ==> r == Err::<Self, CompiledPromptError>(
                CompiledPromptError::MissingCompilerVersion,
            ),
            compiler_version@.len() != 0 && !all_reasons_given(dropped_constraints@) ==> r == Err::<
                Self,
                CompiledPromptError,
            >(CompiledPromptError::MissingDropReason),
            r is Ok <==> compiler_version@.len() != 0 && all_reasons_given(dropped_constraints@),
            r matches Ok(c) ==> c.spec_prompt() == prompt@ && c.spec_applied() == applied_constraints@
                && c.spec_dropped() == dropped_constraints@ && c.spec_compiler_version()
                == compiler_version@,
    {
        if compiler_version.is_empty() {
            return Err(CompiledPromptError::MissingCompilerVersion);
        }
        let mut i: usize = 0;
        while i < dropped_constraints.len()
            invariant
                0 <= i <= dropped_constraints@.len(),
                compiler_version@.len() != 0,
                forall|j: int| 0 <= j < i ==> #[trigger] dropped_constraints@[j].reason@.len() != 0,
            decreases dropped_constraints.len() - i,
        {
            if dropped_constraints[i].reason.as_str().is_empty() {
                return Err(CompiledPromptError::MissingDropReason);
            }
            i = i + 1;
        }
        Ok(
            CompiledPrompt {
                prompt: prompt.to_owned(),
                applied_constraints,
                dropped_constraints,
                compiler_version: compiler_version.to_owned(),
            },
        )
    }

    pub fn prompt(&self) -> (r: &str)
        ensures
            r@ == self.spec_prompt(),
    {
        self.prompt.as_str()
    }

    pub fn applied_constraints(&self) -> (r: &[ConstraintId])
        ensures
            r@ == self.spec_applied(),
    {
        self.applied_constraints.as_slice()
    }

    pub fn dropped_constraints(&self) -> (r: &[DroppedConstraint])
        ensures
            r@ == self.spec_dropped(),
    {
        self.dropped_constraints.as_slice()
    }

    pub fn compiler_version(&self) -> (r: &str)
        ensures
            r@ == self.spec_compiler_version(),
            r@.len() != 0,
    {
        proof {
            use_type_invariant(self);
        }
        self.compiler_version.as_str()
    }

    /// The most severe degradation among the dropped constraints.
    pub fn degradation(&self) -> (r: DegradationLevel)
        ensures
            r == worst_degradation(self.spec_dropped()),
    {
        let dropped = &self.dropped_constraints;
        let mut worst = DegradationLevel::Unaffected;
        let mut i: usize = 0;
        while i < dropped.len()
            invariant
                0 <= i <= dropped@.len(),
                worst == worst_degradation(dropped@.take(i as int)),
            decreases dropped.len() - i,
        {
            proof {
                assert(dropped@.take(i + 1).drop_last() =~= dropped@.take(i as int));
            }
            let level = dropped[i].degradation;
            if rank(level) > rank(worst) {
                worst = level;
            }
            i = i + 1;
        }
        assert(dropped@.take(dropped@.len() as int) =~= dropped@);
        worst
    }

    pub fn is_degraded(&self) -> (r: bool)
        ensures
            r == (worst_degradation(self.spec_dropped()) != DegradationLevel::Unaffected),
    {
        self.degradation() != DegradationLevel::Unaffected
    }
}

fn rank(level: DegradationLevel) -> (r: u8)
    ensures
        r == severity(level),
{
    match level {
        DegradationLevel::Unaffected => 0,
        DegradationLevel::Cosmetic => 1,
        DegradationLevel::IdentityAffecting => 2,
    }
}

/// The derived degradation dominates every dropped constraint and is one of
/// them; with nothing dropped it is `None`.
pub proof fn lemma_degradation_is_the_maximum(dropped: Seq<DroppedConstraint>)
    ensures
        forall|i: int|
            0 <= i < dropped.len() ==> severity(#[trigger] dropped[i].degradation) <= severity(
                worst_degradation(dropped),
            ),
        dropped.len() == 0 ==> worst_degradation(dropped) == DegradationLevel::Unaffected,
        worst_degradation(dropped) == DegradationLevel::Unaffected || exists|i: int|
            0 <= i < dropped.len() && dropped[i].degradation == worst_degradation(dropped),
    decreases dropped.len(),
{
    if dropped.len() > 0 {
        let rest = dropped.drop_last();
        lemma_degradation_is_the_maximum(rest);
        assert forall|i: int| 0 <= i < dropped.len() implies severity(
            #[trigger] dropped[i].degradation,
        ) <= severity(worst_degradation(dropped)) by {
            if i < dropped.len() - 1 {
                assert(dropped[i] == rest[i]);
            }
        }
        if worst_degradation(dropped) != DegradationLevel::Unaffected && worst_degradation(dropped)
            == worst_degradation(rest) {
            let j = choose|j: int|
                0 <= j < rest.len() && rest[j].degradation == worst_degradation(rest);
            assert(dropped[j] == rest[j]);
        }
        if worst_degradation(dropped) != worst_degradation(rest) {
            assert(dropped[dropped.len() - 1].degradation == worst_degradation(dropped));
        }
    }
}

/// Whether identity-affecting degradation blocks generation.
#[derive(Debug, Clone, Copy, PartialEq, Eq, Structural)]
pub struct GenerationPolicy {
    pub block_identity_affecting_degradation: bool,
}

impl GenerationPolicy {
    pub fn allows(self, prompt: &CompiledPrompt) -> (r: bool)
        ensures
            r == !(self.block_identity_affecting_degradation && worst_degradation(
                prompt.spec_dropped(),
            ) == DegradationLevel::IdentityAffecting),
    {
        !(self.block_identity_affecting_degradation && prompt.degradation()
            == DegradationLevel::IdentityAffecting)
    }
}

/// A blocking policy refuses exactly the prompts that dropped an
/// identity-affecting constraint.
pub proof fn lemma_policy_blocks_identity_loss(dropped: Seq<DroppedConstraint>)
    ensures
        worst_degradation(dropped) == DegradationLevel::IdentityAffecting <==> exists|i: int|
            0 <= i < dropped.len() && #[trigger] dropped[i].degradation
                == DegradationLevel::IdentityAffecting,
{
    lemma_degradation_is_the_maximum(dropped);
    if exists|i: int|
        0 <= i < dropped.len() && #[trigger] dropped[i].degradation
            == DegradationLevel::IdentityAffecting {
        let i = choose|i: int|
            0 <= i < dropped.len() && #[trigger] dropped[i].degradation
                == DegradationLevel::IdentityAffecting;
        assert(severity(dropped[i].degradation) <= severity(worst_degradation(dropped)));
    }
}

/// A prompt compiler for some structured intent, implemented per provider.
pub trait PromptCompiler<Intent> {
    type Error;

    fn compile(&self, intent: &Intent) -> Result<CompiledPrompt, Self::Error>;
}

} // verus!
