//! The conditional statement node: an explicit capture list of variable
//! slots, then an ordered set of branches, each an optional condition (none
//! for the else branch) and a body.
use vstd::prelude::*;

verus! {

use crate::tokenizer::Token;
use crate::tokenizer::enumerators::Assignment;

/// A conditional statement: its program-wide index (for label uniqueness),
/// the slots its conditions may read, and its branches in source order.
#[derive(Debug, PartialEq)]
pub struct ConditionalStatement {
    pub index: usize,
    pub active_variables: Vec<usize>,
    pub condition_fields: Vec<(Option<Assignment>, Vec<Token>)>,
}

} // verus!
