//! The function definition node and the return statement node.
use vstd::prelude::*;

verus! {

use crate::tokenizer::Token;
use crate::tokenizer::declaration::DataType;
use crate::tokenizer::enumerators::Assignment;
use crate::tokenizer::enumerators::AssignmentM;
use crate::tokenizer::error::TokenizerError;
use crate::tokenizer::structures::Variable;
use crate::tokenizer::structures::VariableHistory;

/// A parsed function: its name, declared return type, ordered parameters, its
/// own scope table seeded with the parameters, and its body statements.
#[derive(Debug, PartialEq)]
pub struct Function {
    pub name: String,
    pub return_type: DataType,
    pub arguments: Vec<Variable>,
    pub variable_history: VariableHistory,
    pub functionaliy: Vec<Token>,
}

/// One declared parameter of a function header, read from a `type name`
/// group.
#[derive(Debug, PartialEq)]
pub struct Argument {
    pub name: String,
    pub data_type: DataType,
}

impl View for Argument {
    type V = crate::tokenizer::structures::VariableM;

    open spec fn view(&self) -> crate::tokenizer::structures::VariableM {
        crate::tokenizer::structures::VariableM { name: self.name@, data_type: self.data_type }
    }
}

impl Argument {
    /// Reads one parameter group of a function header: its declared type,
    /// then its name.
    pub fn from_string_vec(from: &Vec<String>) -> (r: Result<Self, TokenizerError>)
        ensures
            match r {
                Ok(v) => crate::tokenizer::structures::spec_from_function_arg(
                    crate::util::tok_views(from@),
                ) == Ok::<_, TokenizerError>(v@),
                Err(e) => crate::tokenizer::structures::spec_from_function_arg(
                    crate::util::tok_views(from@),
                ) == Err::<crate::tokenizer::structures::VariableM, _>(e),
            },
    {
        match Variable::from_function_arg(from) {
            Ok(v) => Ok(Self { name: v.name, data_type: v.data_type }),
            Err(e) => Err(e),
        }
    }
}

/// A return statement: the expression whose value the function yields.
#[derive(Debug, PartialEq)]
pub struct Return {
    pub assignment: Assignment,
}

/// The mathematical shape of a `Return`.
pub struct ReturnM {
    pub assignment: AssignmentM,
}

impl View for Return {
    type V = ReturnM;

    open spec fn view(&self) -> ReturnM {
        ReturnM { assignment: self.assignment@ }
    }
}

} // verus!
