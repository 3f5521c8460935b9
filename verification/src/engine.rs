use vstd::prelude::*;

verus! {

/// Process-local engine state shared by all machine-local Kineto work.
///
/// The engine is embedded in-process; it starts no background runtime.
#[derive(Debug)]
pub struct Engine {
    anchor: u8,
}

impl Engine {
    /// The bootstrap anchor; a fresh engine holds zero.
    pub closed spec fn spec_anchor(&self) -> u8 {
        self.anchor
    }

    /// Creates the engine without starting any scheduler or worker.
    pub fn new() -> (engine: Self)
        ensures
            engine.spec_anchor() == 0,
    {
        Engine { anchor: 0 }
    }
}

impl Default for Engine {
    fn default() -> (engine: Self)
        ensures
            engine.spec_anchor() == 0,
    {
        Engine::new()
    }
}

} // verus!
