//! The code generator: walks the statement tree and emits an ordered list of
//! assembly instruction lines — the program entry point, the fixed
//! comparison-subroutine block, then one labeled block per function.
use vstd::prelude::*;

pub mod data;
pub mod error;
pub mod types_translator;

verus! {

use crate::assembler::data::spec_argument_register;
use crate::assembler::data::spec_cmp_lines;
use crate::assembler::error::AssemblerError;
use crate::assembler::types_translator::AssignmentToAssembly;
use crate::assembler::types_translator::spec_to_assembly_instructions;
use crate::tokenizer::ConditionalStatementM;
use crate::tokenizer::FunctionM;
use crate::tokenizer::Token;
use crate::tokenizer::TokenM;
use crate::tokenizer::conditional_statement::ConditionalStatement;
use crate::tokenizer::declaration::Declaration;
use crate::tokenizer::declaration::DeclarationM;
use crate::tokenizer::enumerators::Assignment;
use crate::tokenizer::enumerators::AssignmentM;
use crate::tokenizer::enumerators::ComparisonOperator;
use crate::tokenizer::enumerators::aview;
use crate::tokenizer::function::Function;
use crate::tokenizer::function::Return;
use crate::tokenizer::function::ReturnM;
use crate::tokenizer::lemma_tviews_index;
use crate::tokenizer::reassignment::Reassignment;
use crate::tokenizer::reassignment::ReassignmentM;
use crate::tokenizer::structures::VariableHistory;
use crate::tokenizer::structures::VariableHistoryM;
use crate::tokenizer::structures::VariableM;
use crate::tokenizer::structures::spec_find_variable;
use crate::tokenizer::structures::vars_view;
use crate::tokenizer::tview;
use crate::tokenizer::tviews;
use crate::util::concat2;
use crate::util::concat3;
use crate::util::lemma_mul_fits_u128;
use crate::util::spec_udec;
use crate::util::tok_views;
use crate::util::u128_to_string;
use vstd::string::StringExecFns;

/// The lines of the program entry point: call `main` and exit with its
/// return value as the process exit code.
pub open spec fn spec_entry_lines() -> Seq<Seq<char>> {
    seq![
        "global _start"@,
        "_start:"@,
        "  call main"@,
        ".exit:"@,
        "  mov rdi, rax"@,
        "  mov rax, 60"@,
        "  syscall"@,
        ""@,
    ]
}

/// The lines of one declaration: reserve the slot's stack space, lower the
/// initializer into `rdi`, store it to the slot's frame address.
pub open spec fn spec_assemble_declaration(vh: VariableHistoryM, d: DeclarationM) -> Result<
    Seq<Seq<char>>,
    AssemblerError,
> {
    match spec_to_assembly_instructions(d.value, "rdi"@, vh) {
        Err(e) => Err(e),
        Ok(vi) => Ok(
            seq!["  sub rsp, "@ + spec_udec(vh.step)] + vi + seq![
                "  mov rax, rdi"@,
                "  mov QWORD [rbp-"@ + spec_udec((d.location + 1) * vh.step) + "], rax"@,
            ],
        ),
    }
}

/// The lines of one reassignment: lower the new value into `rdi`, store it to
/// the slot the name resolves to; a name absent from the scope is rejected.
pub open spec fn spec_assemble_reassignment(vh: VariableHistoryM, r: ReassignmentM) -> Result<
    Seq<Seq<char>>,
    AssemblerError,
> {
    match spec_to_assembly_instructions(r.new_assignment, "rdi"@, vh) {
        Err(e) => Err(e),
        Ok(vi) => match spec_find_variable(vh.data, r.name, 0) {
            None => Err(AssemblerError::IncorrectAssignmentFormatting),
            Some(loc) => Ok(
                vi + seq![
                    "  mov rax, rdi"@,
                    "  mov QWORD [rbp-"@ + spec_udec((loc + 1) * vh.step) + "], rax"@,
                ],
            ),
        },
    }
}

/// The lines of one return statement: lower the expression into `rdi`, move
/// it to the accumulator; control falls through to the function's epilogue.
pub open spec fn spec_assemble_return(vh: VariableHistoryM, ret: ReturnM) -> Result<
    Seq<Seq<char>>,
    AssemblerError,
> {
    match spec_to_assembly_instructions(ret.assignment, "rdi"@, vh) {
        Err(e) => Err(e),
        Ok(vi) => Ok(vi + seq!["  mov rax, rdi"@]),
    }
}

/// The header lines of the branches from index `i` on: each condition is
/// lowered into `rdi`/`rsi`, compared, and jumped on; an untagged branch jumps
/// unconditionally; a condition that is no comparison is rejected.
pub open spec fn spec_cs_header(
    vh: VariableHistoryM,
    fields: Seq<(Option<AssignmentM>, Seq<TokenM>)>,
    i: int,
    branch: Seq<char>,
) -> Result<Seq<Seq<char>>, AssemblerError>
    decreases fields.len() - i,
{
    if i < 0 || i >= fields.len() {
        Ok(Seq::empty())
    } else {
        let head_r = match fields[i].0 {
            Some(cond) => match cond {
                AssignmentM::Cmp(l, op, rt) => {
                    match spec_to_assembly_instructions(*l, "rdi"@, vh) {
                        Err(e) => Err(e),
                        Ok(li) => match spec_to_assembly_instructions(*rt, "rsi"@, vh) {
                            Err(e) => Err(e),
                            Ok(ri) => {
                                let jump = match op {
                                    ComparisonOperator::EQ => "  je "@,
                                    ComparisonOperator::NEQ => "  jne "@,
                                    ComparisonOperator::GT => "  jg "@,
                                    ComparisonOperator::GEQ => "  jge "@,
                                    ComparisonOperator::LT => "  jl "@,
                                    ComparisonOperator::LEQ => "  jle "@,
                                };
                                Ok(
                                    li + ri + seq!["  cmp rdi, rsi"@] + seq![
                                        jump + branch + "_br"@ + spec_udec(i),
                                    ],
                                )
                            },
                        },
                    }
                },
                _ => Err(AssemblerError::AssignmentInComparisonNotComparison),
            },
            None => Ok(seq!["  jmp "@ + branch + "_br"@ + spec_udec(i)]),
        };
        match head_r {
            Err(e) => Err(e),
            Ok(head) => match spec_cs_header(vh, fields, i + 1, branch) {
                Err(e) => Err(e),
                Ok(rest) => Ok(head + rest),
            },
        }
    }
}

/// The lines of the statements a branch body lowers: declarations,
/// reassignments and returns; anything else is skipped.
pub open spec fn spec_branch_body_lines(
    vh: VariableHistoryM,
    body: Seq<TokenM>,
    i: int,
) -> Result<Seq<Seq<char>>, AssemblerError>
    decreases body.len() - i,
{
    if i < 0 || i >= body.len() {
        Ok(Seq::empty())
    } else {
        let head_r = match body[i] {
            TokenM::Declaration(d) => spec_assemble_declaration(vh, d),
            TokenM::Reassignment(r) => spec_assemble_reassignment(vh, r),
            TokenM::Return(ret) => spec_assemble_return(vh, ret),
            _ => Ok(Seq::empty()),
        };
        match head_r {
            Err(e) => Err(e),
            Ok(head) => match spec_branch_body_lines(vh, body, i + 1) {
                Err(e) => Err(e),
                Ok(rest) => Ok(head + rest),
            },
        }
    }
}

/// The labeled body blocks of the branches from index `i` on, each concluded
/// by a jump to the shared end label.
pub open spec fn spec_cs_bodies(
    vh: VariableHistoryM,
    fields: Seq<(Option<AssignmentM>, Seq<TokenM>)>,
    i: int,
    branch: Seq<char>,
) -> Result<Seq<Seq<char>>, AssemblerError>
    decreases fields.len() - i,
{
    if i < 0 || i >= fields.len() {
        Ok(Seq::empty())
    } else {
        match spec_branch_body_lines(vh, fields[i].1, 0) {
            Err(e) => Err(e),
            Ok(body) => match spec_cs_bodies(vh, fields, i + 1, branch) {
                Err(e) => Err(e),
                Ok(rest) => Ok(
                    seq![branch + "_br"@ + spec_udec(i) + ":"@] + body + seq![
                        "  jmp "@ + branch + "_end"@,
                    ] + rest,
                ),
            },
        }
    }
}

/// The lines of one conditional statement: the test chain, a safety-net jump
/// to the shared end label, the labeled bodies, and the end label.
pub open spec fn spec_assemble_conditional_statement(
    vh: VariableHistoryM,
    cs: ConditionalStatementM,
) -> Result<Seq<Seq<char>>, AssemblerError> {
    let branch = ".cmp"@ + spec_udec(cs.index);
    match spec_cs_header(vh, cs.condition_fields, 0, branch) {
        Err(e) => Err(e),
        Ok(header) => match spec_cs_bodies(vh, cs.condition_fields, 0, branch) {
            Err(e) => Err(e),
            Ok(bodies) => Ok(
                header + seq!["  jmp "@ + branch + "_end"@] + bodies + seq![
                    branch + "_end:"@,
                ],
            ),
        },
    }
}

/// The lines that store each incoming argument register into its parameter's
/// slot and save the register, from parameter `i` on.
pub open spec fn spec_fn_params(
    vh: VariableHistoryM,
    args: Seq<VariableM>,
    i: int,
) -> Result<Seq<Seq<char>>, AssemblerError>
    decreases args.len() - i,
{
    if i < 0 || i >= args.len() {
        Ok(Seq::empty())
    } else if i >= 6 {
        Err(AssemblerError::TooManyFunctionArguments)
    } else {
        match spec_find_variable(vh.data, args[i].name, 0) {
            None => Err(AssemblerError::IncorrectAssignmentFormatting),
            Some(loc) => {
                let reg = spec_argument_register(i);
                match spec_fn_params(vh, args, i + 1) {
                    Err(e) => Err(e),
                    Ok(rest) => Ok(
                        seq![
                            "  sub rsp, 8"@,
                            "  mov QWORD [rbp-"@ + spec_udec((loc + 1) * vh.step) + "], "@ + reg,
                            "  push "@ + reg,
                        ] + rest,
                    ),
                }
            },
        }
    }
}

/// The lines that restore the saved argument registers in reverse order:
/// parameters `i-1` down to `0`.
pub open spec fn spec_fn_pops(args: Seq<VariableM>, i: int) -> Seq<Seq<char>>
    decreases i,
{
    if i <= 0 {
        Seq::empty()
    } else {
        spec_fn_pops(args, i - 1) + seq!["  pop "@ + spec_argument_register(args.len() - i)]
    }
}

/// The lines of the statements a function body lowers: declarations,
/// reassignments, returns and conditional statements; anything else is
/// skipped.
pub open spec fn spec_fn_body_lines(vh: VariableHistoryM, body: Seq<TokenM>, i: int) -> Result<
    Seq<Seq<char>>,
    AssemblerError,
>
    decreases body.len() - i,
{
    if i < 0 || i >= body.len() {
        Ok(Seq::empty())
    } else {
        let head_r = match body[i] {
            TokenM::Declaration(d) => spec_assemble_declaration(vh, d),
            TokenM::Reassignment(r) => spec_assemble_reassignment(vh, r),
            TokenM::Return(ret) => spec_assemble_return(vh, ret),
            TokenM::ConditionalStatement(cs) => spec_assemble_conditional_statement(vh, cs),
            _ => Ok(Seq::empty()),
        };
        match head_r {
            Err(e) => Err(e),
            Ok(head) => match spec_fn_body_lines(vh, body, i + 1) {
                Err(e) => Err(e),
                Ok(rest) => Ok(head + rest),
            },
        }
    }
}

/// The lines of one function: label, frame prologue, argument spills, the
/// lowered body, the shared epilogue label, register restores, frame
/// teardown and return.
pub open spec fn spec_assemble_function(f: FunctionM) -> Result<Seq<Seq<char>>, AssemblerError> {
    match spec_fn_params(f.variable_history, f.arguments, 0) {
        Err(e) => Err(e),
        Ok(params) => match spec_fn_body_lines(f.variable_history, f.functionaliy, 0) {
            Err(e) => Err(e),
            Ok(body) => Ok(
                seq![f.name + ":"@, "  push rbp"@, "  mov rbp, rsp"@, ""@] + params + body + seq![
                    ".end:"@,
                ] + spec_fn_pops(f.arguments, f.arguments.len() as int) + seq![
                    "  mov rsp, rbp"@,
                    "  pop rbp"@,
                    "  ret"@,
                    ""@,
                ],
            ),
        },
    }
}

/// The lines of the functions of the tree from index `i` on; every other
/// top-level statement is skipped.
pub open spec fn spec_tree_lines(tree: Seq<TokenM>, i: int) -> Result<
    Seq<Seq<char>>,
    AssemblerError,
>
    decreases tree.len() - i,
{
    if i < 0 || i >= tree.len() {
        Ok(Seq::empty())
    } else {
        let head_r = match tree[i] {
            TokenM::Function(f) => spec_assemble_function(f),
            _ => Ok(Seq::empty()),
        };
        match head_r {
            Err(e) => Err(e),
            Ok(head) => match spec_tree_lines(tree, i + 1) {
                Err(e) => Err(e),
                Ok(rest) => Ok(head + rest),
            },
        }
    }
}

/// The whole program's lines: the entry point, the comparison-subroutine
/// block, then one labeled block per function in source order.
pub open spec fn spec_generate_instructions(tree: Seq<TokenM>) -> Result<
    Seq<Seq<char>>,
    AssemblerError,
> {
    match spec_tree_lines(tree, 0) {
        Err(e) => Err(e),
        Ok(fns) => Ok(spec_entry_lines() + spec_cmp_lines() + fns),
    }
}

/// The code generator; it holds the instruction lines of the last successful
/// run.
pub struct Assembler {
    pub instructions: Vec<String>,
}

impl Assembler {
    /// A fresh code generator with no instructions.
    pub fn init() -> (r: Self)
        ensures
            r.instructions@ =~= Seq::<String>::empty(),
    {
        Self { instructions: Vec::new() }
    }

    /// Generates the whole program's instructions from the statement tree and
    /// stores them; on failure the stored instructions stay unchanged.
    pub fn generate_instructions(&mut self, token_tree: &Vec<Token>) -> (r: Result<
        (),
        AssemblerError,
    >)
        ensures
            match r {
                Ok(()) => spec_generate_instructions(tviews(token_tree@)) == Ok::<
                    _,
                    AssemblerError,
                >(tok_views(final (self).instructions@)),
                Err(e) => spec_generate_instructions(tviews(token_tree@)) == Err::<
                    Seq<Seq<char>>,
                    _,
                >(e) && final (self).instructions == old(self).instructions,
            },
    {
        let mut program_instructions: Vec<String> = Vec::new();
        program_instructions.push(String::from_str("global _start"));
        program_instructions.push(String::from_str("_start:"));
        program_instructions.push(String::from_str("  call main"));
        program_instructions.push(String::from_str(".exit:"));
        program_instructions.push(String::from_str("  mov rdi, rax"));
        program_instructions.push(String::from_str("  mov rax, 60"));
        program_instructions.push(String::from_str("  syscall"));
        program_instructions.push(String::from_str(""));
        proof {
            assert(tok_views(program_instructions@) =~= spec_entry_lines());
        }
        let mut utils = crate::assembler::data::get_all();
        let ghost entry = tok_views(program_instructions@);
        let ghost cmps = tok_views(utils@);
        program_instructions.append(&mut utils);
        proof {
            assert(tok_views(program_instructions@) =~= entry + cmps);
        }
        let mut fns = match self.assemble_tree(token_tree, 0) {
            Ok(v) => v,
            Err(e) => {
                return Err(e);
            },
        };
        let ghost fl = tok_views(fns@);
        program_instructions.append(&mut fns);
        proof {
            assert(tok_views(program_instructions@) =~= entry + cmps + fl);
        }
        self.instructions = program_instructions;
        Ok(())
    }

    /// Lowers the functions of the tree from index `i` on.
    fn assemble_tree(&self, token_tree: &Vec<Token>, i: usize) -> (r: Result<
        Vec<String>,
        AssemblerError,
    >)
        ensures
            match r {
                Ok(v) => spec_tree_lines(tviews(token_tree@), i as int) == Ok::<
                    _,
                    AssemblerError,
                >(tok_views(v@)),
                Err(e) => spec_tree_lines(tviews(token_tree@), i as int) == Err::<
                    Seq<Seq<char>>,
                    _,
                >(e),
            },
        decreases token_tree@.len() - i,
    {
        let ghost treem = tviews(token_tree@);
        proof {
            lemma_tviews_index(token_tree@);
        }
        if i >= token_tree.len() {
            let v: Vec<String> = Vec::new();
            proof {
                assert(tok_views(v@) =~= Seq::<Seq<char>>::empty());
            }
            return Ok(v);
        }
        proof {
            assert(treem[i as int] == tview(token_tree@[i as int]));
        }
        let mut head: Vec<String>;
        match &token_tree[i] {
            Token::Function(function) => {
                head =
                match self.assemble_function(function) {
                    Ok(v) => v,
                    Err(e) => {
                        return Err(e);
                    },
                };
            },
            _ => {
                head = Vec::new();
                proof {
                    assert(tok_views(head@) =~= Seq::<Seq<char>>::empty());
                }
            },
        }
        let mut rest = match self.assemble_tree(token_tree, i + 1) {
            Ok(v) => v,
            Err(e) => {
                return Err(e);
            },
        };
        let ghost hl = tok_views(head@);
        let ghost rl = tok_views(rest@);
        head.append(&mut rest);
        proof {
            assert(tok_views(head@) =~= hl + rl);
        }
        Ok(head)
    }

    /// Lowers one function: label, prologue, argument spills, body, epilogue.
    #[verifier::rlimit(100)]
    fn assemble_function(&self, function: &Function) -> (r: Result<Vec<String>, AssemblerError>)
        ensures
            match r {
                Ok(v) => spec_assemble_function(function@) == Ok::<_, AssemblerError>(
                    tok_views(v@),
                ),
                Err(e) => spec_assemble_function(function@) == Err::<Seq<Seq<char>>, _>(e),
            },
    {
        let mut function_instructions: Vec<String> = Vec::new();
        function_instructions.push(concat2(function.name.as_str(), ":"));
        function_instructions.push(String::from_str("  push rbp"));
        function_instructions.push(String::from_str("  mov rbp, rsp"));
        function_instructions.push(String::from_str(""));
        proof {
            assert(tok_views(function_instructions@) =~= seq![
                function@.name + ":"@,
                "  push rbp"@,
                "  mov rbp, rsp"@,
                ""@,
            ]);
        }
        let mut params = match self.assemble_params(
            &function.variable_history,
            &function.arguments,
            0,
        ) {
            Ok(v) => v,
            Err(e) => {
                return Err(e);
            },
        };
        let ghost head = tok_views(function_instructions@);
        let ghost pl = tok_views(params@);
        function_instructions.append(&mut params);
        let mut body = match self.assemble_body(
            &function.variable_history,
            &function.functionaliy,
            0,
        ) {
            Ok(v) => v,
            Err(e) => {
                return Err(e);
            },
        };
        let ghost bl = tok_views(body@);
        function_instructions.append(&mut body);
        function_instructions.push(String::from_str(".end:"));
        let mut pops = self.assemble_pops(&function.arguments, function.arguments.len());
        let ghost popl = tok_views(pops@);
        function_instructions.append(&mut pops);
        function_instructions.push(String::from_str("  mov rsp, rbp"));
        function_instructions.push(String::from_str("  pop rbp"));
        function_instructions.push(String::from_str("  ret"));
        function_instructions.push(String::from_str(""));
        proof {
            assert(tok_views(function_instructions@) =~= head + pl + bl + seq![".end:"@] + popl
                + seq!["  mov rsp, rbp"@, "  pop rbp"@, "  ret"@, ""@]);
            assert(function@.arguments.len() == function.arguments@.len());
        }
        Ok(function_instructions)
    }

    /// Lowers the argument spills from parameter `i` on.
    fn assemble_params(
        &self,
        variable_history: &VariableHistory,
        arguments: &Vec<crate::tokenizer::structures::Variable>,
        i: usize,
    ) -> (r: Result<Vec<String>, AssemblerError>)
        ensures
            match r {
                Ok(v) => spec_fn_params(variable_history@, vars_view(arguments@), i as int)
                    == Ok::<_, AssemblerError>(tok_views(v@)),
                Err(e) => spec_fn_params(variable_history@, vars_view(arguments@), i as int)
                    == Err::<Seq<Seq<char>>, _>(e),
            },
        decreases arguments@.len() - i,
    {
        let ghost argsm = vars_view(arguments@);
        if i >= arguments.len() {
            let v: Vec<String> = Vec::new();
            proof {
                assert(tok_views(v@) =~= Seq::<Seq<char>>::empty());
            }
            return Ok(v);
        }
        if i >= 6 {
            return Err(AssemblerError::TooManyFunctionArguments);
        }
        proof {
            assert(argsm[i as int] == arguments@[i as int]@);
        }
        let loc = match variable_history.find_variable(arguments[i].name.as_str()) {
            Some(loc) => loc,
            None => {
                return Err(AssemblerError::IncorrectAssignmentFormatting);
            },
        };
        proof {
            crate::tokenizer::structures::lemma_find_variable_in_range(
                variable_history@.data,
                arguments@[i as int]@.name,
                0,
                loc as int,
            );
            lemma_mul_fits_u128(variable_history.step as int, loc as int + 1);
        }
        let offset: u128 = (loc as u128 + 1) * (variable_history.step as u128);
        let offset_text = u128_to_string(offset);
        let reg = crate::assembler::data::argument_register(i);
        let mut lines: Vec<String> = Vec::new();
        lines.push(String::from_str("  sub rsp, 8"));
        lines.push(
            crate::util::concat4("  mov QWORD [rbp-", offset_text.as_str(), "], ", reg),
        );
        lines.push(concat2("  push ", reg));
        let mut rest = match self.assemble_params(variable_history, arguments, i + 1) {
            Ok(v) => v,
            Err(e) => {
                return Err(e);
            },
        };
        let ghost hl = tok_views(lines@);
        let ghost rl = tok_views(rest@);
        lines.append(&mut rest);
        proof {
            assert(hl =~= seq![
                "  sub rsp, 8"@,
                "  mov QWORD [rbp-"@ + spec_udec((loc as int + 1) * variable_history@.step) + "], "@
                    + spec_argument_register(i as int),
                "  push "@ + spec_argument_register(i as int),
            ]);
            assert(tok_views(lines@) =~= hl + rl);
        }
        Ok(lines)
    }

    /// The register restores for the first `i` parameters, in reverse order.
    fn assemble_pops(
        &self,
        arguments: &Vec<crate::tokenizer::structures::Variable>,
        i: usize,
    ) -> (r: Vec<String>)
        requires
            i <= arguments@.len(),
        ensures
            tok_views(r@) == spec_fn_pops(vars_view(arguments@), i as int),
        decreases i,
    {
        if i == 0 {
            let v: Vec<String> = Vec::new();
            proof {
                assert(tok_views(v@) =~= Seq::<Seq<char>>::empty());
            }
            return v;
        }
        let mut lines = self.assemble_pops(arguments, i - 1);
        let idx = arguments.len() - i;
        let reg: &str = if idx < 6 {
            crate::assembler::data::argument_register(idx)
        } else {
            "r9"
        };
        let ghost prefix = tok_views(lines@);
        lines.push(concat2("  pop ", reg));
        proof {
            assert(tok_views(lines@) =~= prefix + seq![
                "  pop "@ + spec_argument_register(arguments@.len() - i),
            ]);
        }
        lines
    }

    /// Lowers a function body's statements from index `i` on.
    fn assemble_body(&self, variable_history: &VariableHistory, body: &Vec<Token>, i: usize) -> (r:
        Result<Vec<String>, AssemblerError>)
        ensures
            match r {
                Ok(v) => spec_fn_body_lines(variable_history@, tviews(body@), i as int) == Ok::<
                    _,
                    AssemblerError,
                >(tok_views(v@)),
                Err(e) => spec_fn_body_lines(variable_history@, tviews(body@), i as int) == Err::<
                    Seq<Seq<char>>,
                    _,
                >(e),
            },
        decreases body@.len() - i,
    {
        let ghost bodym = tviews(body@);
        proof {
            lemma_tviews_index(body@);
        }
        if i >= body.len() {
            let v: Vec<String> = Vec::new();
            proof {
                assert(tok_views(v@) =~= Seq::<Seq<char>>::empty());
            }
            return Ok(v);
        }
        proof {
            assert(bodym[i as int] == tview(body@[i as int]));
        }
        let head_r: Result<Vec<String>, AssemblerError> = match &body[i] {
            Token::Declaration(declaration) => self.assemble_declaration(
                variable_history,
                declaration,
            ),
            Token::Reassignment(reassignment) => self.assemble_reassignment(
                variable_history,
                reassignment,
            ),
            Token::Return(return_statement) => self.assemble_return(
                variable_history,
                return_statement,
            ),
            Token::ConditionalStatement(conditional_statement) => self
                .assemble_conditional_statement(variable_history, conditional_statement),
            _ => {
                let v: Vec<String> = Vec::new();
                proof {
                    assert(tok_views(v@) =~= Seq::<Seq<char>>::empty());
                }
                Ok(v)
            },
        };
        let mut head = match head_r {
            Ok(v) => v,
            Err(e) => {
                return Err(e);
            },
        };
        let mut rest = match self.assemble_body(variable_history, body, i + 1) {
            Ok(v) => v,
            Err(e) => {
                return Err(e);
            },
        };
        let ghost hl = tok_views(head@);
        let ghost rl = tok_views(rest@);
        head.append(&mut rest);
        proof {
            assert(tok_views(head@) =~= hl + rl);
        }
        Ok(head)
    }

    /// Lowers a branch body's statements from index `i` on; conditional
    /// statements and nested functions inside a branch are skipped.
    fn assemble_branch_body(
        &self,
        variable_history: &VariableHistory,
        body: &Vec<Token>,
        i: usize,
    ) -> (r: Result<Vec<String>, AssemblerError>)
        ensures
            match r {
                Ok(v) => spec_branch_body_lines(variable_history@, tviews(body@), i as int)
                    == Ok::<_, AssemblerError>(tok_views(v@)),
                Err(e) => spec_branch_body_lines(variable_history@, tviews(body@), i as int)
                    == Err::<Seq<Seq<char>>, _>(e),
            },
        decreases body@.len() - i,
    {
        let ghost bodym = tviews(body@);
        proof {
            lemma_tviews_index(body@);
        }
        if i >= body.len() {
            let v: Vec<String> = Vec::new();
            proof {
                assert(tok_views(v@) =~= Seq::<Seq<char>>::empty());
            }
            return Ok(v);
        }
        proof {
            assert(bodym[i as int] == tview(body@[i as int]));
        }
        let head_r: Result<Vec<String>, AssemblerError> = match &body[i] {
            Token::Declaration(declaration) => self.assemble_declaration(
                variable_history,
                declaration,
            ),
            Token::Reassignment(reassignment) => self.assemble_reassignment(
                variable_history,
                reassignment,
            ),
            Token::Return(return_statement) => self.assemble_return(
                variable_history,
                return_statement,
            ),
            _ => {
                let v: Vec<String> = Vec::new();
                proof {
                    assert(tok_views(v@) =~= Seq::<Seq<char>>::empty());
                }
                Ok(v)
            },
        };
        let mut head = match head_r {
            Ok(v) => v,
            Err(e) => {
                return Err(e);
            },
        };
        let mut rest = match self.assemble_branch_body(variable_history, body, i + 1) {
            Ok(v) => v,
            Err(e) => {
                return Err(e);
            },
        };
        let ghost hl = tok_views(head@);
        let ghost rl = tok_views(rest@);
        head.append(&mut rest);
        proof {
            assert(tok_views(head@) =~= hl + rl);
        }
        Ok(head)
    }

    /// Lowers one declaration statement.
    fn assemble_declaration(&self, stack_memory: &VariableHistory, declaration: &Declaration) -> (r:
        Result<Vec<String>, AssemblerError>)
        ensures
            match r {
                Ok(v) => spec_assemble_declaration(stack_memory@, declaration@) == Ok::<
                    _,
                    AssemblerError,
                >(tok_views(v@)),
                Err(e) => spec_assemble_declaration(stack_memory@, declaration@) == Err::<
                    Seq<Seq<char>>,
                    _,
                >(e),
            },
    {
        let mut assignment_instructions = match declaration.value.to_assembly_instructions(
            "rdi",
            stack_memory,
        ) {
            Ok(v) => v,
            Err(e) => {
                return Err(e);
            },
        };
        let step_text = u128_to_string(stack_memory.step as u128);
        let mut appended_instructions: Vec<String> = Vec::new();
        appended_instructions.push(concat2("  sub rsp, ", step_text.as_str()));
        let ghost first = tok_views(appended_instructions@);
        let ghost vi = tok_views(assignment_instructions@);
        appended_instructions.append(&mut assignment_instructions);
        appended_instructions.push(String::from_str("  mov rax, rdi"));
        proof {
            lemma_mul_fits_u128(stack_memory.step as int, declaration.location as int + 1);
        }
        let offset: u128 = (declaration.location as u128 + 1) * (stack_memory.step as u128);
        let offset_text = u128_to_string(offset);
        appended_instructions.push(
            concat3("  mov QWORD [rbp-", offset_text.as_str(), "], rax"),
        );
        proof {
            assert(tok_views(appended_instructions@) =~= first + vi + seq![
                "  mov rax, rdi"@,
                "  mov QWORD [rbp-"@ + spec_udec(
                    (declaration.location as int + 1) * stack_memory@.step,
                ) + "], rax"@,
            ]);
            assert(first =~= seq!["  sub rsp, "@ + spec_udec(stack_memory@.step)]);
        }
        Ok(appended_instructions)
    }

    /// Lowers one reassignment statement.
    fn assemble_reassignment(
        &self,
        variable_history: &VariableHistory,
        reassignment: &Reassignment,
    ) -> (r: Result<Vec<String>, AssemblerError>)
        ensures
            match r {
                Ok(v) => spec_assemble_reassignment(variable_history@, reassignment@) == Ok::<
                    _,
                    AssemblerError,
                >(tok_views(v@)),
                Err(e) => spec_assemble_reassignment(variable_history@, reassignment@) == Err::<
                    Seq<Seq<char>>,
                    _,
                >(e),
            },
    {
        let mut appended_instructions = match reassignment.new_assignment.to_assembly_instructions(
            "rdi",
            variable_history,
        ) {
            Ok(v) => v,
            Err(e) => {
                return Err(e);
            },
        };
        let variable_location = match variable_history.find_variable(reassignment.name.as_str()) {
            Some(loc) => loc,
            None => {
                return Err(AssemblerError::IncorrectAssignmentFormatting);
            },
        };
        let ghost vi = tok_views(appended_instructions@);
        appended_instructions.push(String::from_str("  mov rax, rdi"));
        proof {
            crate::tokenizer::structures::lemma_find_variable_in_range(
                variable_history@.data,
                reassignment@.name,
                0,
                variable_location as int,
            );
            lemma_mul_fits_u128(variable_history.step as int, variable_location as int + 1);
        }
        let offset: u128 = (variable_location as u128 + 1) * (variable_history.step as u128);
        let offset_text = u128_to_string(offset);
        appended_instructions.push(
            concat3("  mov QWORD [rbp-", offset_text.as_str(), "], rax"),
        );
        proof {
            assert(tok_views(appended_instructions@) =~= vi + seq![
                "  mov rax, rdi"@,
                "  mov QWORD [rbp-"@ + spec_udec(
                    (variable_location as int + 1) * variable_history@.step,
                ) + "], rax"@,
            ]);
        }
        Ok(appended_instructions)
    }

    /// Lowers one return statement.
    fn assemble_return(&self, variable_history: &VariableHistory, return_statement: &Return) -> (r:
        Result<Vec<String>, AssemblerError>)
        ensures
            match r {
                Ok(v) => spec_assemble_return(variable_history@, return_statement@) == Ok::<
                    _,
                    AssemblerError,
                >(tok_views(v@)),
                Err(e) => spec_assemble_return(variable_history@, return_statement@) == Err::<
                    Seq<Seq<char>>,
                    _,
                >(e),
            },
    {
        let mut assignment_instructions = match return_statement.assignment
            .to_assembly_instructions("rdi", variable_history) {
            Ok(v) => v,
            Err(e) => {
                return Err(e);
            },
        };
        let ghost vi = tok_views(assignment_instructions@);
        assignment_instructions.push(String::from_str("  mov rax, rdi"));
        proof {
            assert(tok_views(assignment_instructions@) =~= vi + seq!["  mov rax, rdi"@]);
        }
        Ok(assignment_instructions)
    }

    /// Lowers one conditional statement into a test chain, labeled bodies and
    /// a shared end label.
    fn assemble_conditional_statement(
        &self,
        variable_history: &VariableHistory,
        conditional_statement: &ConditionalStatement,
    ) -> (r: Result<Vec<String>, AssemblerError>)
        ensures
            match r {
                Ok(v) => spec_assemble_conditional_statement(
                    variable_history@,
                    conditional_statement@,
                ) == Ok::<_, AssemblerError>(tok_views(v@)),
                Err(e) => spec_assemble_conditional_statement(
                    variable_history@,
                    conditional_statement@,
                ) == Err::<Seq<Seq<char>>, _>(e),
            },
    {
        let index_text = u128_to_string(conditional_statement.index as u128);
        let branch_name = concat2(".cmp", index_text.as_str());
        let ghost branch = ".cmp"@ + spec_udec(conditional_statement.index as int);
        proof {
            assert(branch_name@ == branch);
        }
        let mut appended_instructions = match self.assemble_cs_header(
            variable_history,
            &conditional_statement.condition_fields,
            0,
            &branch_name,
        ) {
            Ok(v) => v,
            Err(e) => {
                return Err(e);
            },
        };
        let ghost header = tok_views(appended_instructions@);
        appended_instructions.push(concat3("  jmp ", branch_name.as_str(), "_end"));
        proof {
            assert(tok_views(appended_instructions@) =~= header + seq![
                "  jmp "@ + branch + "_end"@,
            ]);
        }
        let mut bodies = match self.assemble_cs_bodies(
            variable_history,
            &conditional_statement.condition_fields,
            0,
            &branch_name,
        ) {
            Ok(v) => v,
            Err(e) => {
                return Err(e);
            },
        };
        let ghost sofar = tok_views(appended_instructions@);
        let ghost bl = tok_views(bodies@);
        appended_instructions.append(&mut bodies);
        appended_instructions.push(concat2(branch_name.as_str(), "_end:"));
        proof {
            assert(tok_views(appended_instructions@) =~= sofar + bl + seq![branch + "_end:"@]);
        }
        Ok(appended_instructions)
    }

    /// Lowers the branch test chain from branch `i` on.
    #[verifier::rlimit(100)]
    fn assemble_cs_header(
        &self,
        variable_history: &VariableHistory,
        fields: &Vec<(Option<Assignment>, Vec<Token>)>,
        i: usize,
        branch_name: &String,
    ) -> (r: Result<Vec<String>, AssemblerError>)
        ensures
            match r {
                Ok(v) => spec_cs_header(
                    variable_history@,
                    crate::tokenizer::cfviews(fields@),
                    i as int,
                    branch_name@,
                ) == Ok::<_, AssemblerError>(tok_views(v@)),
                Err(e) => spec_cs_header(
                    variable_history@,
                    crate::tokenizer::cfviews(fields@),
                    i as int,
                    branch_name@,
                ) == Err::<Seq<Seq<char>>, _>(e),
            },
        decreases fields@.len() - i,
    {
        let ghost fieldsm = crate::tokenizer::cfviews(fields@);
        proof {
            crate::tokenizer::lemma_cfviews_index(fields@);
        }
        if i >= fields.len() {
            let v: Vec<String> = Vec::new();
            proof {
                assert(tok_views(v@) =~= Seq::<Seq<char>>::empty());
            }
            return Ok(v);
        }
        let i_text = u128_to_string(i as u128);
        let mut head: Vec<String> = Vec::new();
        match &fields[i].0 {
            Some(condition) => {
                match condition {
                    Assignment::CMP(first_assignment, operator, second_assignment) => {
                        let mut li = match (&**first_assignment).to_assembly_instructions(
                            "rdi",
                            variable_history,
                        ) {
                            Ok(v) => v,
                            Err(e) => {
                                return Err(e);
                            },
                        };
                        let mut ri = match (&**second_assignment).to_assembly_instructions(
                            "rsi",
                            variable_history,
                        ) {
                            Ok(v) => v,
                            Err(e) => {
                                return Err(e);
                            },
                        };
                        let ghost lv = tok_views(li@);
                        let ghost rv = tok_views(ri@);
                        head.append(&mut li);
                        head.append(&mut ri);
                        head.push(String::from_str("  cmp rdi, rsi"));
                        let jump: &str = match operator {
                            ComparisonOperator::EQ => "  je ",
                            ComparisonOperator::NEQ => "  jne ",
                            ComparisonOperator::GT => "  jg ",
                            ComparisonOperator::GEQ => "  jge ",
                            ComparisonOperator::LT => "  jl ",
                            ComparisonOperator::LEQ => "  jle ",
                        };
                        head.push(
                            crate::util::concat4(
                                jump,
                                branch_name.as_str(),
                                "_br",
                                i_text.as_str(),
                            ),
                        );
                        proof {
                            let jumpv = match *operator {
                                ComparisonOperator::EQ => "  je "@,
                                ComparisonOperator::NEQ => "  jne "@,
                                ComparisonOperator::GT => "  jg "@,
                                ComparisonOperator::GEQ => "  jge "@,
                                ComparisonOperator::LT => "  jl "@,
                                ComparisonOperator::LEQ => "  jle "@,
                            };
                            assert(tok_views(head@) =~= lv + rv + seq!["  cmp rdi, rsi"@] + seq![
                                jumpv + branch_name@ + "_br"@ + spec_udec(i as int),
                            ]);
                        }
                    },
                    _ => {
                        return Err(AssemblerError::AssignmentInComparisonNotComparison);
                    },
                }
            },
            None => {
                head.push(
                    crate::util::concat4("  jmp ", branch_name.as_str(), "_br", i_text.as_str()),
                );
                proof {
                    assert(tok_views(head@) =~= seq![
                        "  jmp "@ + branch_name@ + "_br"@ + spec_udec(i as int),
                    ]);
                }
            },
        }
        let mut rest = match self.assemble_cs_header(variable_history, fields, i + 1, branch_name) {
            Ok(v) => v,
            Err(e) => {
                return Err(e);
            },
        };
        let ghost hl = tok_views(head@);
        let ghost rl = tok_views(rest@);
        head.append(&mut rest);
        proof {
            assert(tok_views(head@) =~= hl + rl);
        }
        Ok(head)
    }

    /// Lowers the labeled branch bodies from branch `i` on.
    fn assemble_cs_bodies(
        &self,
        variable_history: &VariableHistory,
        fields: &Vec<(Option<Assignment>, Vec<Token>)>,
        i: usize,
        branch_name: &String,
    ) -> (r: Result<Vec<String>, AssemblerError>)
        ensures
            match r {
                Ok(v) => spec_cs_bodies(
                    variable_history@,
                    crate::tokenizer::cfviews(fields@),
                    i as int,
                    branch_name@,
                ) == Ok::<_, AssemblerError>(tok_views(v@)),
                Err(e) => spec_cs_bodies(
                    variable_history@,
                    crate::tokenizer::cfviews(fields@),
                    i as int,
                    branch_name@,
                ) == Err::<Seq<Seq<char>>, _>(e),
            },
        decreases fields@.len() - i,
    {
        let ghost fieldsm = crate::tokenizer::cfviews(fields@);
        proof {
            crate::tokenizer::lemma_cfviews_index(fields@);
        }
        if i >= fields.len() {
            let v: Vec<String> = Vec::new();
            proof {
                assert(tok_views(v@) =~= Seq::<Seq<char>>::empty());
            }
            return Ok(v);
        }
        let i_text = u128_to_string(i as u128);
        let mut lines: Vec<String> = Vec::new();
        lines.push(
            crate::util::concat4(branch_name.as_str(), "_br", i_text.as_str(), ":"),
        );
        let mut body = match self.assemble_branch_body(variable_history, &fields[i].1, 0) {
            Ok(v) => v,
            Err(e) => {
                return Err(e);
            },
        };
        let ghost label = tok_views(lines@);
        let ghost bl = tok_views(body@);
        lines.append(&mut body);
        lines.push(concat3("  jmp ", branch_name.as_str(), "_end"));
        let mut rest = match self.assemble_cs_bodies(variable_history, fields, i + 1, branch_name) {
            Ok(v) => v,
            Err(e) => {
                return Err(e);
            },
        };
        let ghost hl = tok_views(lines@);
        let ghost rl = tok_views(rest@);
        lines.append(&mut rest);
        proof {
            assert(label =~= seq![branch_name@ + "_br"@ + spec_udec(i as int) + ":"@]);
            assert(hl =~= label + bl + seq!["  jmp "@ + branch_name@ + "_end"@]);
            assert(tok_views(lines@) =~= hl + rl);
        }
        Ok(lines)
    }
}

} // verus!
