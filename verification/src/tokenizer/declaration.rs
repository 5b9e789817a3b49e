//! The data types a variable can be declared with, and the declaration
//! statement node.
use vstd::prelude::*;

verus! {

use crate::data::SyntaxElements;
use crate::data::ty_float;
use crate::data::ty_integer;
use crate::tokenizer::enumerators::Assignment;
use crate::tokenizer::enumerators::AssignmentM;

/// The result type of an expression: integer, float or boolean.
#[derive(Debug, Clone, Copy, PartialEq, Eq, Structural)]
pub enum DataType {
    INTEGER,
    FLOAT,
    BOOL,
}

/// The declared type a set-type group names: `int` or `flt`, nothing else.
pub open spec fn spec_check_token_type(word: Seq<char>) -> Option<DataType> {
    if word == ty_integer() {
        Some(DataType::INTEGER)
    } else if word == ty_float() {
        Some(DataType::FLOAT)
    } else {
        None
    }
}

impl DataType {
    /// Reads a declared type name; only the integer and the float type can be
    /// declared.
    pub fn check_token_type(word_to_check: &str) -> (r: Option<Self>)
        ensures
            r == spec_check_token_type(word_to_check@),
    {
        let syntax_elements = SyntaxElements::init();
        if crate::util::str_eq(word_to_check, syntax_elements.type_names[0].1.as_str()) {
            Some(Self::INTEGER)
        } else if crate::util::str_eq(word_to_check, syntax_elements.type_names[1].1.as_str()) {
            Some(Self::FLOAT)
        } else {
            None
        }
    }

    pub fn is_integer(&self) -> (r: bool)
        ensures
            r == (*self == DataType::INTEGER),
    {
        if let Self::INTEGER = self {
            true
        } else {
            false
        }
    }

    pub fn is_float(&self) -> (r: bool)
        ensures
            r == (*self == DataType::FLOAT),
    {
        if let Self::FLOAT = self {
            true
        } else {
            false
        }
    }
}

/// A variable declaration: its name, the slot it was given, its declared type
/// and its initializer expression.
#[derive(Debug, PartialEq)]
pub struct Declaration {
    pub name: String,
    pub location: usize,
    pub data_type: DataType,
    pub value: Assignment,
}

/// The mathematical shape of a `Declaration`.
pub struct DeclarationM {
    pub name: Seq<char>,
    pub location: int,
    pub data_type: DataType,
    pub value: AssignmentM,
}

impl View for Declaration {
    type V = DeclarationM;

    open spec fn view(&self) -> DeclarationM {
        DeclarationM {
            name: self.name@,
            location: self.location as int,
            data_type: self.data_type,
            value: self.value@,
        }
    }
}

} // verus!
