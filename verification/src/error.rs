//! Error taxonomy of the engine core.
//!
//! Every failure surfaces as one of these kinds and propagates as an
//! explicit `Result` up the processor and expression call chain; nothing
//! is swallowed or defaulted. Message formatting is deliberately not part
//! of the taxonomy.

use vstd::prelude::*;

verus! {

/// The closed set of failure kinds of the engine core.
#[derive(Clone, Copy, Debug, PartialEq, Eq, Structural)]
pub enum EngineError {
    /// An unknown database or table name was looked up during resolution.
    NotFound,
    /// An operation was invoked on an expression variant outside its
    /// supported capability set (e.g. stateless evaluation of an
    /// aggregator).
    Unsupported,
    /// Type inference or value construction failed: a referenced column is
    /// absent or operand types are incompatible.
    TypeMismatch,
    /// A processor does not support the requested operation in its current
    /// role (e.g. linking an upstream onto a source stage).
    Unimplemented,
}

impl EngineError {
    /// A short stable label for the error kind, for diagnostics.
    pub fn describe(&self) -> (r: &'static str)
        ensures
            r@ == self.spec_describe(),
    {
        match self {
            EngineError::NotFound => "not found",
            EngineError::Unsupported => "unsupported operation",
            EngineError::TypeMismatch => "type mismatch",
            EngineError::Unimplemented => "unimplemented",
        }
    }

    /// The label `describe` returns for each kind.
    pub open spec fn spec_describe(self) -> Seq<char> {
        match self {
            EngineError::NotFound => "not found"@,
            EngineError::Unsupported => "unsupported operation"@,
            EngineError::TypeMismatch => "type mismatch"@,
            EngineError::Unimplemented => "unimplemented"@,
        }
    }
}

} // verus!
