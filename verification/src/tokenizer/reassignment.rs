//! The reassignment statement node: a new value for a declared variable.
use vstd::prelude::*;

verus! {

use crate::tokenizer::enumerators::Assignment;
use crate::tokenizer::enumerators::AssignmentM;

/// A reassignment: the target variable's name and its new value.
#[derive(Debug, PartialEq)]
pub struct Reassignment {
    pub name: String,
    pub new_assignment: Assignment,
}

/// The mathematical shape of a `Reassignment`.
pub struct ReassignmentM {
    pub name: Seq<char>,
    pub new_assignment: AssignmentM,
}

impl View for Reassignment {
    type V = ReassignmentM;

    open spec fn view(&self) -> ReassignmentM {
        ReassignmentM { name: self.name@, new_assignment: self.new_assignment@ }
    }
}

} // verus!
