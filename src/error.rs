use vstd::prelude::*;

verus! {

/// Why a grammar could not be expanded or its sequence not interpreted.
#[derive(Debug, Clone, Copy, PartialEq, Eq, Structural)]
pub enum LSystemError {
    /// The grammar cannot give the result asked for: its start sequence is
    /// empty where a non-empty result is required.
    InvalidGrammar,
    /// The symbol at `position` restores a saved turtle state while none is
    /// saved.
    UnbalancedBranch { position: usize },
}

} // verus!
