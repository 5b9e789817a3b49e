//! The failures the statement parser and the expression builder can report.
//! Compilation stops at the first of them; none is recoverable.
use vstd::prelude::*;

verus! {

/// Why parsing a token stream failed.
#[derive(Debug, Clone, Copy, PartialEq, Eq, Structural)]
pub enum TokenizerError {
    /// A scope table was exhausted without its trailing empty slot; this marks
    /// a broken table handed in from outside, never a source error.
    IncorrectStackDataFormatting,
    /// An equation was formed with symbols that are no operators.
    IncorrectEquationFormatting,
    /// A term of an equation is no literal, no variable and no known function.
    CouldNotParseTerm,
    /// A symbol stood where a math operator was expected but is none.
    CouldNotParseMathOperator,
    /// A symbol stood where a comparison operator was expected but is none.
    CouldNotParseComparisonOperator,
    /// A block was opened and never balanced by its end-of-body symbol.
    CouldNotFindEndOfBlock,
    /// A conditional branch was headed by an expression that is no comparison.
    IncorrectAssignmentForConditionalCondition,
    /// A branch condition reads a variable that its capture list does not name.
    VarNotUsedInComparison,
    /// A name was read where a declared variable was required, and no slot of
    /// the scope holds it.
    VariableNotFound,
    /// A statement lacks one of its required delimiter symbols.
    MissingDelimiter,
    /// A set-type group names no known data type.
    UnknownDataType,
    /// A conditional statement has an untagged (else) branch somewhere before
    /// its last branch.
    ElseBranchNotLast,
    /// A statement other than a function definition stood outside any
    /// function.
    StatementOutsideFunction,
}

} // verus!
