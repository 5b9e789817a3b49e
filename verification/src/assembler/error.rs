//! The failures the code generator can report. The first of them aborts the
//! whole compilation; no partial assembly output is valid.
use vstd::prelude::*;

verus! {

/// Why lowering a statement tree to assembly failed.
#[derive(Debug, Clone, Copy, PartialEq, Eq, Structural)]
pub enum AssemblerError {
    /// A statement kind the code generator does not lower.
    TokenNotSupported,
    /// A value was read through the term conversion from a node that is no
    /// term.
    ValueRetrievedIsNotATerm,
    /// Only integer and float literals convert directly to assembly values.
    IncorrectAssignmentAttemptedToConvert,
    /// A math evaluation that cannot be lowered; division between two
    /// integers is unsupported and fails here.
    CouldNotParseEvaluation,
    /// The expression translator was handed a node it cannot lower in that
    /// position.
    ImproperUseOfTypesTranslator,
    /// A statement names a variable that its scope table does not hold; this
    /// marks a broken tree handed in from outside, never a source error.
    IncorrectAssignmentFormatting,
    /// A call or a function header uses more arguments than there are
    /// argument registers.
    TooManyFunctionArguments,
    /// A conditional branch is headed by an expression that is no comparison.
    AssignmentInComparisonNotComparison,
}

} // verus!
