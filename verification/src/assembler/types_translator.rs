//! Lowering of expression trees to assembly instruction lines, including the
//! integer-versus-float instruction selection.
use vstd::prelude::*;

verus! {

use crate::assembler::data::argument_register;
use crate::assembler::data::spec_argument_register;
use crate::assembler::error::AssemblerError;
use crate::tokenizer::declaration::DataType;
use crate::tokenizer::enumerators::Assignment;
use crate::tokenizer::enumerators::AssignmentM;
use crate::tokenizer::enumerators::aview;
use crate::tokenizer::enumerators::aviews;
use crate::tokenizer::enumerators::lemma_aviews_index;
use crate::tokenizer::enumerators::spec_evaluate_type;
use crate::tokenizer::structures::VariableHistory;
use crate::tokenizer::structures::VariableHistoryM;
use crate::util::concat2;
use crate::util::concat3;
use crate::util::concat4;
use crate::util::i64_to_string;
use crate::util::lemma_mul_fits_u128;
use crate::util::parse_i64;
use crate::util::spec_idec;
use crate::util::spec_parse_i64;
use crate::util::spec_udec;
use crate::util::tok_views;
use crate::util::u128_to_string;
use vstd::pervasive::unreached;

/// The assembly spelling of a float literal's value: the literal's text
/// wrapped in a float marker, with `.0` appended when the text alone would
/// read as an integer.
pub open spec fn spec_float_value(text: Seq<char>) -> Seq<char> {
    if spec_parse_i64(text) is Some {
        "__float64__("@ + text + ".0)"@
    } else {
        "__float64__("@ + text + ")"@
    }
}

/// The assembly value of a literal node: integer and float literals only.
pub open spec fn spec_to_assembly_value(a: AssignmentM) -> Result<Seq<char>, AssemblerError> {
    match a {
        AssignmentM::Integer(n) => Ok(spec_idec(n)),
        AssignmentM::Float(text) => Ok(spec_float_value(text)),
        _ => Err(AssemblerError::IncorrectAssignmentAttemptedToConvert),
    }
}

/// The lines that move each argument's literal value into its argument
/// register, from index `i` on; more than six arguments, or an argument that
/// is no literal, is rejected.
pub open spec fn spec_func_arg_lines(args: Seq<AssignmentM>, i: int) -> Result<
    Seq<Seq<char>>,
    AssemblerError,
>
    decreases args.len() - i,
{
    if i < 0 || i >= args.len() {
        Ok(Seq::empty())
    } else if i >= 6 {
        Err(AssemblerError::TooManyFunctionArguments)
    } else {
        match spec_to_assembly_value(args[i]) {
            Err(e) => Err(e),
            Ok(v) => match spec_func_arg_lines(args, i + 1) {
                Err(e) => Err(e),
                Ok(rest) => Ok(
                    seq!["  mov "@ + spec_argument_register(i) + ", "@ + v] + rest,
                ),
            },
        }
    }
}

/// The instruction lines that leave the expression's value in the target
/// register: literals move immediates, variables load their frame slot,
/// integer math runs in `rax`/`rdi`, float math runs in `xmm0`/`xmm1`,
/// comparisons call the fixed comparison subroutines, and calls marshal
/// literal arguments into the argument registers.
pub open spec fn spec_to_assembly_instructions(
    a: AssignmentM,
    target: Seq<char>,
    vh: VariableHistoryM,
) -> Result<Seq<Seq<char>>, AssemblerError>
    decreases a,
{
    match a {
        AssignmentM::Eval(l, op, r) => {
            let t = spec_evaluate_type(a, vh);
            if t == DataType::INTEGER {
                match spec_to_assembly_instructions(*l, "rax"@, vh) {
                    Err(e) => Err(e),
                    Ok(li) => match spec_to_assembly_instructions(*r, "rdi"@, vh) {
                        Err(e) => Err(e),
                        Ok(ri) => {
                            let tail = if target != "rax"@ {
                                seq!["  mov "@ + target + ", rax"@]
                            } else {
                                Seq::empty()
                            };
                            match op {
                                crate::tokenizer::enumerators::MathOperator::ADD => Ok(
                                    li + ri + seq!["  add rax, rdi"@] + tail,
                                ),
                                crate::tokenizer::enumerators::MathOperator::SUB => Ok(
                                    li + ri + seq!["  sub rax, rdi"@] + tail,
                                ),
                                crate::tokenizer::enumerators::MathOperator::MUL => Ok(
                                    li + ri + seq!["  imul rax, rdi"@] + tail,
                                ),
                                crate::tokenizer::enumerators::MathOperator::DIV => Err(
                                    AssemblerError::CouldNotParseEvaluation,
                                ),
                            }
                        },
                    },
                }
            } else if t == DataType::FLOAT {
                match spec_to_assembly_instructions(*l, "rax"@, vh) {
                    Err(e) => Err(e),
                    Ok(li) => match spec_to_assembly_instructions(*r, "rax"@, vh) {
                        Err(e) => Err(e),
                        Ok(ri) => {
                            let opline = match op {
                                crate::tokenizer::enumerators::MathOperator::ADD => (
                                "  addsd xmm0, xmm1"@),
                                crate::tokenizer::enumerators::MathOperator::SUB => (
                                "  subsd xmm0, xmm1"@),
                                crate::tokenizer::enumerators::MathOperator::MUL => (
                                "  mulsd xmm0, xmm1"@),
                                crate::tokenizer::enumerators::MathOperator::DIV => (
                                "  divsd xmm0, xmm1"@),
                            };
                            Ok(
                                li + seq!["  movq xmm0, rax"@] + ri + seq!["  movq xmm1, rax"@]
                                    + seq![opline] + seq!["  movq "@ + target + ", xmm0"@],
                            )
                        },
                    },
                }
            } else {
                Err(AssemblerError::CouldNotParseEvaluation)
            }
        },
        AssignmentM::Cmp(l, op, r) => {
            match spec_to_assembly_instructions(*l, "rdi"@, vh) {
                Err(e) => Err(e),
                Ok(li) => match spec_to_assembly_instructions(*r, "rsi"@, vh) {
                    Err(e) => Err(e),
                    Ok(ri) => {
                        let callline = match op {
                            crate::tokenizer::enumerators::ComparisonOperator::EQ => (
                            "  call cmp_eq"@),
                            crate::tokenizer::enumerators::ComparisonOperator::NEQ => (
                            "  call cmp_neq"@),
                            crate::tokenizer::enumerators::ComparisonOperator::GT => (
                            "  call cmp_gt"@),
                            crate::tokenizer::enumerators::ComparisonOperator::GEQ => (
                            "  call cmp_geq"@),
                            crate::tokenizer::enumerators::ComparisonOperator::LT => (
                            "  call cmp_lt"@),
                            crate::tokenizer::enumerators::ComparisonOperator::LEQ => (
                            "  call cmp_leq"@),
                        };
                        let tail = if target != "rax"@ {
                            seq!["  mov "@ + target + ", rax"@]
                        } else {
                            Seq::empty()
                        };
                        Ok(li + ri + seq![callline] + tail)
                    },
                },
            }
        },
        AssignmentM::Integer(n) => Ok(seq!["  mov "@ + target + ", "@ + spec_idec(n)]),
        AssignmentM::Float(text) => Ok(seq!["  mov "@ + target + ", "@ + spec_float_value(text)]),
        AssignmentM::Func(name, _, args) => {
            match spec_func_arg_lines(args, 0) {
                Err(e) => Err(e),
                Ok(arg_lines) => {
                    let tail = if target != "rax"@ {
                        seq!["  mov "@ + target + ", rax"@]
                    } else {
                        Seq::empty()
                    };
                    Ok(arg_lines + seq!["  call "@ + name] + tail)
                },
            }
        },
        AssignmentM::Var(loc) => Ok(
            seq![
                "  mov "@ + target + ", QWORD [rbp-"@ + spec_udec(vh.step * (loc + 1)) + "]"@,
            ],
        ),
        AssignmentM::Bool(n) => Ok(seq!["  mov "@ + target + ", "@ + spec_idec(n)]),
    }
}

/// Converts expression trees to assembly: whole expressions to instruction
/// lines, literal terms to immediate values.
pub trait AssignmentToAssembly {
    /// The lines this expression lowers to, as mathematical text.
    spec fn spec_instructions(&self, target: Seq<char>, vh: VariableHistoryM) -> Result<
        Seq<Seq<char>>,
        AssemblerError,
    >;

    /// The immediate value this literal term stands for, as mathematical
    /// text.
    spec fn spec_value(&self) -> Result<Seq<char>, AssemblerError>;

    /// Converts this expression to the instructions that leave its value in
    /// `target_register`.
    fn to_assembly_instructions(
        &self,
        target_register: &str,
        variable_history: &VariableHistory,
    ) -> (r: Result<Vec<String>, AssemblerError>)
        ensures
            match r {
                Ok(v) => self.spec_instructions(target_register@, variable_history@) == Ok::<
                    _,
                    AssemblerError,
                >(tok_views(v@)),
                Err(e) => self.spec_instructions(target_register@, variable_history@) == Err::<
                    Seq<Seq<char>>,
                    _,
                >(e),
            },
    ;

    /// Converts an integer or float literal to its assembly value.
    fn to_assembly_value(&self) -> (r: Result<String, AssemblerError>)
        ensures
            match r {
                Ok(v) => self.spec_value() == Ok::<_, AssemblerError>(v@),
                Err(e) => self.spec_value() == Err::<Seq<char>, _>(e),
            },
    ;
}

/// The assembly value of a float literal's text.
fn float_value_string(text: &String) -> (r: String)
    ensures
        r@ == spec_float_value(text@),
{
    if parse_i64(text.as_str()).is_some() {
        concat3("__float64__(", text.as_str(), ".0)")
    } else {
        concat3("__float64__(", text.as_str(), ")")
    }
}

/// The lines that move each argument's literal value into its argument
/// register, from index `i` on.
fn func_arg_lines(args: &Vec<Assignment>, i: usize) -> (r: Result<Vec<String>, AssemblerError>)
    ensures
        match r {
            Ok(v) => spec_func_arg_lines(aviews(args@), i as int) == Ok::<_, AssemblerError>(
                tok_views(v@),
            ),
            Err(e) => spec_func_arg_lines(aviews(args@), i as int) == Err::<Seq<Seq<char>>, _>(e),
        },
    decreases args@.len() - i,
{
    let ghost argsm = aviews(args@);
    proof {
        lemma_aviews_index(args@);
    }
    if i >= args.len() {
        let v: Vec<String> = Vec::new();
        proof {
            assert(tok_views(v@) =~= Seq::<Seq<char>>::empty());
        }
        return Ok(v);
    }
    if i >= 6 {
        return Err(AssemblerError::TooManyFunctionArguments);
    }
    proof {
        assert(argsm[i as int] == aview(args@[i as int]));
    }
    let value = match args[i].to_assembly_value() {
        Ok(v) => v,
        Err(e) => {
            return Err(e);
        },
    };
    let mut rest = match func_arg_lines(args, i + 1) {
        Ok(v) => v,
        Err(e) => {
            return Err(e);
        },
    };
    let line = concat4("  mov ", argument_register(i), ", ", value.as_str());
    let ghost rest_snap = rest@;
    rest.insert(0, line);
    proof {
        assert(rest@ =~= seq![rest@[0]] + rest_snap);
        assert(tok_views(rest@) =~= seq![rest@[0]@] + tok_views(rest_snap));
    }
    Ok(rest)
}

impl AssignmentToAssembly for Assignment {
    open spec fn spec_instructions(&self, target: Seq<char>, vh: VariableHistoryM) -> Result<
        Seq<Seq<char>>,
        AssemblerError,
    > {
        spec_to_assembly_instructions(aview(*self), target, vh)
    }

    open spec fn spec_value(&self) -> Result<Seq<char>, AssemblerError> {
        spec_to_assembly_value(aview(*self))
    }

    /// Converts this expression to a sequence of assembly instructions that
    /// leave its value in `target_register`; `rax` serves as the accumulator.
    #[verifier::rlimit(100)]
    fn to_assembly_instructions(
        &self,
        target_register: &str,
        variable_history: &VariableHistory,
    ) -> (r: Result<Vec<String>, AssemblerError>)
        decreases *self,
    {
        let ghost am = aview(*self);
        let ghost vhm = variable_history@;
        match self {
            Self::EVAL(first_term_assignment, operation, second_term_assignment) => {
                proof {
                    assert(decreases_to!(*self => **first_term_assignment));
                    assert(decreases_to!(*self => **second_term_assignment));
                }
                let own_type = evaluate_type_total(self, variable_history);
                if own_type.is_integer() {
                    let mut returned_instructions = match (&**first_term_assignment)
                        .to_assembly_instructions("rax", variable_history) {
                        Ok(v) => v,
                        Err(e) => {
                            return Err(e);
                        },
                    };
                    let mut second_instructions = match (&**second_term_assignment)
                        .to_assembly_instructions("rdi", variable_history) {
                        Ok(v) => v,
                        Err(e) => {
                            return Err(e);
                        },
                    };
                    let ghost li = tok_views(returned_instructions@);
                    let ghost ri = tok_views(second_instructions@);
                    returned_instructions.append(&mut second_instructions);
                    proof {
                        assert(tok_views(returned_instructions@) =~= li + ri);
                    }
                    match operation {
                        crate::tokenizer::enumerators::MathOperator::ADD => {
                            returned_instructions.push(String::from_str("  add rax, rdi"));
                        },
                        crate::tokenizer::enumerators::MathOperator::SUB => {
                            returned_instructions.push(String::from_str("  sub rax, rdi"));
                        },
                        crate::tokenizer::enumerators::MathOperator::MUL => {
                            returned_instructions.push(String::from_str("  imul rax, rdi"));
                        },
                        crate::tokenizer::enumerators::MathOperator::DIV => {
                            return Err(AssemblerError::CouldNotParseEvaluation);
                        },
                    }
                    proof {
                        assert(tok_views(returned_instructions@) =~= li + ri + seq![
                            tok_views(returned_instructions@).last(),
                        ]);
                    }
                    if !crate::util::str_eq(target_register, "rax") {
                        let ghost sofar = tok_views(returned_instructions@);
                        returned_instructions.push(concat3("  mov ", target_register, ", rax"));
                        proof {
                            assert(tok_views(returned_instructions@) =~= sofar + seq![
                                "  mov "@ + target_register@ + ", rax"@,
                            ]);
                        }
                    }
                    Ok(returned_instructions)
                } else if own_type.is_float() {
                    let mut returned_instructions = match (&**first_term_assignment)
                        .to_assembly_instructions("rax", variable_history) {
                        Ok(v) => v,
                        Err(e) => {
                            return Err(e);
                        },
                    };
                    let ghost li = tok_views(returned_instructions@);
                    returned_instructions.push(String::from_str("  movq xmm0, rax"));
                    let mut second_instructions = match (&**second_term_assignment)
                        .to_assembly_instructions("rax", variable_history) {
                        Ok(v) => v,
                        Err(e) => {
                            return Err(e);
                        },
                    };
                    let ghost ri = tok_views(second_instructions@);
                    returned_instructions.append(&mut second_instructions);
                    returned_instructions.push(String::from_str("  movq xmm1, rax"));
                    match operation {
                        crate::tokenizer::enumerators::MathOperator::ADD => {
                            returned_instructions.push(String::from_str("  addsd xmm0, xmm1"));
                        },
                        crate::tokenizer::enumerators::MathOperator::SUB => {
                            returned_instructions.push(String::from_str("  subsd xmm0, xmm1"));
                        },
                        crate::tokenizer::enumerators::MathOperator::MUL => {
                            returned_instructions.push(String::from_str("  mulsd xmm0, xmm1"));
                        },
                        crate::tokenizer::enumerators::MathOperator::DIV => {
                            returned_instructions.push(String::from_str("  divsd xmm0, xmm1"));
                        },
                    }
                    returned_instructions.push(concat3("  movq ", target_register, ", xmm0"));
                    proof {
                        let opline = match *operation {
                            crate::tokenizer::enumerators::MathOperator::ADD => (
                            "  addsd xmm0, xmm1"@),
                            crate::tokenizer::enumerators::MathOperator::SUB => (
                            "  subsd xmm0, xmm1"@),
                            crate::tokenizer::enumerators::MathOperator::MUL => (
                            "  mulsd xmm0, xmm1"@),
                            crate::tokenizer::enumerators::MathOperator::DIV => (
                            "  divsd xmm0, xmm1"@),
                        };
                        assert(tok_views(returned_instructions@) =~= li + seq!["  movq xmm0, rax"@]
                            + ri + seq!["  movq xmm1, rax"@] + seq![opline] + seq![
                            "  movq "@ + target_register@ + ", xmm0"@,
                        ]);
                    }
                    Ok(returned_instructions)
                } else {
                    Err(AssemblerError::CouldNotParseEvaluation)
                }
            },
            Self::CMP(first_term_assignment, operator, second_term_assignment) => {
                proof {
                    assert(decreases_to!(*self => **first_term_assignment));
                    assert(decreases_to!(*self => **second_term_assignment));
                }
                let mut returned_instructions = match (&**first_term_assignment)
                    .to_assembly_instructions("rdi", variable_history) {
                    Ok(v) => v,
                    Err(e) => {
                        return Err(e);
                    },
                };
                let mut second_instructions = match (&**second_term_assignment)
                    .to_assembly_instructions("rsi", variable_history) {
                    Ok(v) => v,
                    Err(e) => {
                        return Err(e);
                    },
                };
                let ghost li = tok_views(returned_instructions@);
                let ghost ri = tok_views(second_instructions@);
                returned_instructions.append(&mut second_instructions);
                match operator {
                    crate::tokenizer::enumerators::ComparisonOperator::EQ => {
                        returned_instructions.push(String::from_str("  call cmp_eq"));
                    },
                    crate::tokenizer::enumerators::ComparisonOperator::NEQ => {
                        returned_instructions.push(String::from_str("  call cmp_neq"));
                    },
                    crate::tokenizer::enumerators::ComparisonOperator::GT => {
                        returned_instructions.push(String::from_str("  call cmp_gt"));
                    },
                    crate::tokenizer::enumerators::ComparisonOperator::GEQ => {
                        returned_instructions.push(String::from_str("  call cmp_geq"));
                    },
                    crate::tokenizer::enumerators::ComparisonOperator::LT => {
                        returned_instructions.push(String::from_str("  call cmp_lt"));
                    },
                    crate::tokenizer::enumerators::ComparisonOperator::LEQ => {
                        returned_instructions.push(String::from_str("  call cmp_leq"));
                    },
                }
                let ghost callline = match *operator {
                    crate::tokenizer::enumerators::ComparisonOperator::EQ => "  call cmp_eq"@,
                    crate::tokenizer::enumerators::ComparisonOperator::NEQ => "  call cmp_neq"@,
                    crate::tokenizer::enumerators::ComparisonOperator::GT => "  call cmp_gt"@,
                    crate::tokenizer::enumerators::ComparisonOperator::GEQ => "  call cmp_geq"@,
                    crate::tokenizer::enumerators::ComparisonOperator::LT => "  call cmp_lt"@,
                    crate::tokenizer::enumerators::ComparisonOperator::LEQ => "  call cmp_leq"@,
                };
                if !crate::util::str_eq(target_register, "rax") {
                    returned_instructions.push(concat3("  mov ", target_register, ", rax"));
                    proof {
                        assert(tok_views(returned_instructions@) =~= li + ri + seq![callline]
                            + seq!["  mov "@ + target_register@ + ", rax"@]);
                    }
                } else {
                    proof {
                        assert(tok_views(returned_instructions@) =~= li + ri + seq![callline]);
                    }
                }
                Ok(returned_instructions)
            },
            Self::INTEGER(returned_number) => {
                let value = i64_to_string(*returned_number);
                let mut returned_instructions: Vec<String> = Vec::new();
                returned_instructions.push(
                    concat4("  mov ", target_register, ", ", value.as_str()),
                );
                proof {
                    assert(tok_views(returned_instructions@) =~= seq![
                        "  mov "@ + target_register@ + ", "@ + spec_idec(*returned_number as int),
                    ]);
                }
                Ok(returned_instructions)
            },
            Self::FLOAT(text) => {
                let value = float_value_string(text);
                let mut returned_instructions: Vec<String> = Vec::new();
                returned_instructions.push(
                    concat4("  mov ", target_register, ", ", value.as_str()),
                );
                proof {
                    assert(tok_views(returned_instructions@) =~= seq![
                        "  mov "@ + target_register@ + ", "@ + spec_float_value(text@),
                    ]);
                }
                Ok(returned_instructions)
            },
            Self::FUNC(function_name, _, function_args) => {
                let mut returned_instructions = match func_arg_lines(function_args, 0) {
                    Ok(v) => v,
                    Err(e) => {
                        return Err(e);
                    },
                };
                let ghost arg_lines = tok_views(returned_instructions@);
                returned_instructions.push(concat2("  call ", function_name.as_str()));
                if !crate::util::str_eq(target_register, "rax") {
                    returned_instructions.push(concat3("  mov ", target_register, ", rax"));
                    proof {
                        assert(tok_views(returned_instructions@) =~= arg_lines + seq![
                            "  call "@ + function_name@,
                        ] + seq!["  mov "@ + target_register@ + ", rax"@]);
                    }
                } else {
                    proof {
                        assert(tok_views(returned_instructions@) =~= arg_lines + seq![
                            "  call "@ + function_name@,
                        ]);
                    }
                }
                Ok(returned_instructions)
            },
            Self::VAR(variable_index) => {
                proof {
                    lemma_mul_fits_u128(
                        variable_history.step as int,
                        *variable_index as int + 1,
                    );
                }
                let offset: u128 = (variable_history.step as u128) * (*variable_index as u128
                    + 1);
                let offset_text = u128_to_string(offset);
                let mut returned_instructions: Vec<String> = Vec::new();
                returned_instructions.push(
                    concat5_line(target_register, offset_text.as_str()),
                );
                proof {
                    assert(tok_views(returned_instructions@) =~= seq![
                        "  mov "@ + target_register@ + ", QWORD [rbp-"@ + spec_udec(
                            vhm.step * (*variable_index as int + 1),
                        ) + "]"@,
                    ]);
                }
                Ok(returned_instructions)
            },
            Self::BOOL(boolean_val) => {
                let value = i64_to_string(*boolean_val);
                let mut returned_instructions: Vec<String> = Vec::new();
                returned_instructions.push(
                    concat4("  mov ", target_register, ", ", value.as_str()),
                );
                proof {
                    assert(tok_views(returned_instructions@) =~= seq![
                        "  mov "@ + target_register@ + ", "@ + spec_idec(*boolean_val as int),
                    ]);
                }
                Ok(returned_instructions)
            },
        }
    }

    /// Converts an integer or float literal to its assembly value; any other
    /// node is rejected.
    fn to_assembly_value(&self) -> (r: Result<String, AssemblerError>) {
        match self {
            Assignment::INTEGER(returned_num) => Ok(i64_to_string(*returned_num)),
            Assignment::FLOAT(text) => Ok(float_value_string(text)),
            _ => Err(AssemblerError::IncorrectAssignmentAttemptedToConvert),
        }
    }
}

/// A variable load line.
fn concat5_line(target_register: &str, offset_text: &str) -> (r: String)
    ensures
        r@ == "  mov "@ + target_register@ + ", QWORD [rbp-"@ + offset_text@ + "]"@,
{
    crate::util::concat5("  mov ", target_register, ", QWORD [rbp-", offset_text, "]")
}

/// The statically derivable type of an expression, total: a variable whose
/// slot is out of range or empty counts as integer.
pub fn evaluate_type_total(a: &Assignment, variable_history: &VariableHistory) -> (r: DataType)
    ensures
        r == spec_evaluate_type(aview(*a), variable_history@),
    decreases *a,
{
    match a {
        Assignment::INTEGER(_) => DataType::INTEGER,
        Assignment::FLOAT(_) => DataType::FLOAT,
        Assignment::BOOL(_) => DataType::BOOL,
        Assignment::CMP(_, _, _) => DataType::BOOL,
        Assignment::VAR(variable_location) => {
            if *variable_location < variable_history.data.len() {
                proof {
                    assert(variable_history@.data[*variable_location as int] == (
                    match variable_history.data@[*variable_location as int] {
                        Some(v) => Some(v@),
                        None => None,
                    }));
                }
                match &variable_history.data[*variable_location] {
                    Some(variable) => variable.data_type,
                    None => DataType::INTEGER,
                }
            } else {
                DataType::INTEGER
            }
        },
        Assignment::FUNC(_, data_type, _) => *data_type,
        Assignment::EVAL(first_term, _, second_term) => {
            proof {
                assert(decreases_to!(*a => **first_term));
                assert(decreases_to!(*a => **second_term));
            }
            let first_term_type = evaluate_type_total(&**first_term, variable_history);
            let second_term_type = evaluate_type_total(&**second_term, variable_history);
            if first_term_type.is_float() || second_term_type.is_float() {
                DataType::FLOAT
            } else {
                DataType::INTEGER
            }
        },
    }
}

} // verus!
