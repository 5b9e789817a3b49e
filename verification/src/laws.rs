//! Program-wide laws of the compiler, each proved from the contracts the
//! parser and the code generator carry.
use vstd::prelude::*;

verus! {

use crate::assembler::error::AssemblerError;
use crate::assembler::spec_generate_instructions;
use crate::optimizer::spec_optimize;
use crate::tokenizer::ParserStateM;
use crate::tokenizer::TokenM;
use crate::tokenizer::declaration::DataType;
use crate::tokenizer::enumerators::AssignmentM;
use crate::tokenizer::enumerators::MathOperator;
use crate::tokenizer::enumerators::spec_evaluate_type;
use crate::tokenizer::error::TokenizerError;
use crate::tokenizer::spec_gen_top;
use crate::tokenizer::structures::VariableHistoryM;

/// Determinism: compiling one token stream twice yields identical output.
/// Every stage's result is a mathematical function of the raw text and the
/// starting parser state, so two runs that both succeed agree on the parsed
/// tree and on every generated instruction line.
pub proof fn lemma_compilation_deterministic(
    text: Seq<char>,
    st: ParserStateM,
    out1: (ParserStateM, Seq<TokenM>),
    out2: (ParserStateM, Seq<TokenM>),
    lines1: Seq<Seq<char>>,
    lines2: Seq<Seq<char>>,
)
    requires
        spec_gen_top(st, spec_optimize(text), 0) == Ok::<_, TokenizerError>(out1),
        spec_gen_top(st, spec_optimize(text), 0) == Ok::<_, TokenizerError>(out2),
        spec_generate_instructions(out1.1) == Ok::<_, AssemblerError>(lines1),
        spec_generate_instructions(out2.1) == Ok::<_, AssemblerError>(lines2),
    ensures
        out1 == out2,
        lines1 == lines2,
{
}

/// Type propagation: a math operation is float exactly when either operand
/// is float, whatever the scope holds.
pub proof fn lemma_type_propagation(
    e: AssignmentM,
    op: MathOperator,
    f: AssignmentM,
    vh: VariableHistoryM,
)
    ensures
        (spec_evaluate_type(AssignmentM::Eval(Box::new(e), op, Box::new(f)), vh)
            == DataType::FLOAT) <==> (spec_evaluate_type(e, vh) == DataType::FLOAT
            || spec_evaluate_type(f, vh) == DataType::FLOAT),
        spec_evaluate_type(AssignmentM::Eval(Box::new(e), op, Box::new(f)), vh) == DataType::FLOAT
            || spec_evaluate_type(AssignmentM::Eval(Box::new(e), op, Box::new(f)), vh)
            == DataType::INTEGER,
{
}

} // verus!
