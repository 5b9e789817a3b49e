//! The fixed table of the language's syntactic elements: type names, statement
//! keywords, operator symbols and delimiters. Every family is an ordered list
//! of (descriptor, element) pairs whose exact contents `SyntaxElements::wf`
//! pins down, so that the parser's contracts can speak of concrete symbols.
use vstd::prelude::*;

verus! {

use vstd::string::StringExecFns;
use crate::util::tok_views;

/// How many bytes of stack space one variable slot occupies.
pub const MEMORY_STEP: usize = 8;

// The statement keywords.
pub open spec fn kw_variable() -> Seq<char> {
    "decl"@
}

pub open spec fn kw_function() -> Seq<char> {
    "subroutine"@
}

pub open spec fn kw_return() -> Seq<char> {
    "expose"@
}

pub open spec fn kw_reassignment() -> Seq<char> {
    "chng"@
}

pub open spec fn kw_conditional() -> Seq<char> {
    "cmpr"@
}

pub open spec fn kw_else() -> Seq<char> {
    "else"@
}

// The type names.
pub open spec fn ty_integer() -> Seq<char> {
    "int"@
}

pub open spec fn ty_float() -> Seq<char> {
    "flt"@
}

pub open spec fn ty_character() -> Seq<char> {
    "chr"@
}

pub open spec fn ty_boolean() -> Seq<char> {
    "tof"@
}

// The math operator symbols.
pub open spec fn op_add() -> Seq<char> {
    "+"@
}

pub open spec fn op_sub() -> Seq<char> {
    "-"@
}

pub open spec fn op_mul() -> Seq<char> {
    "*"@
}

pub open spec fn op_div() -> Seq<char> {
    "/"@
}

// The assignment and delimiter symbols.
pub open spec fn sym_equals() -> Seq<char> {
    "="@
}

pub open spec fn sym_begin_body() -> Seq<char> {
    ":"@
}

pub open spec fn sym_end_body() -> Seq<char> {
    ";"@
}

pub open spec fn sym_begin_capture() -> Seq<char> {
    ":&["@
}

pub open spec fn sym_end_capture() -> Seq<char> {
    "]"@
}

pub open spec fn sym_associate() -> Seq<char> {
    "=>"@
}

pub open spec fn sym_begin_set_type() -> Seq<char> {
    ":-["@
}

pub open spec fn sym_end_set_type() -> Seq<char> {
    "]"@
}

pub open spec fn sym_end_assignment() -> Seq<char> {
    "\n"@
}

pub open spec fn sym_begin_conditions() -> Seq<char> {
    "::["@
}

pub open spec fn sym_comma() -> Seq<char> {
    ","@
}

pub open spec fn sym_end_conditions() -> Seq<char> {
    "]"@
}

pub open spec fn sym_return_this() -> Seq<char> {
    "->"@
}

pub open spec fn sym_begin_enclosure() -> Seq<char> {
    "["@
}

pub open spec fn sym_end_enclosure() -> Seq<char> {
    "]"@
}

// The comparison operator symbols.
pub open spec fn cmp_sym_eq() -> Seq<char> {
    "=="@
}

pub open spec fn cmp_sym_neq() -> Seq<char> {
    "!="@
}

pub open spec fn cmp_sym_gt() -> Seq<char> {
    ">"@
}

pub open spec fn cmp_sym_geq() -> Seq<char> {
    ">="@
}

pub open spec fn cmp_sym_lt() -> Seq<char> {
    "<"@
}

pub open spec fn cmp_sym_leq() -> Seq<char> {
    "<="@
}

// The boolean literal names.
pub open spec fn lit_true() -> Seq<char> {
    "true"@
}

pub open spec fn lit_false() -> Seq<char> {
    "false"@
}

/// Entry `i` of a symbol family maps descriptor `key` to element `val`.
pub open spec fn entry_is(
    m: Seq<(String, String)>,
    i: int,
    key: Seq<char>,
    val: Seq<char>,
) -> bool {
    0 <= i < m.len() && m[i].0@ == key && m[i].1@ == val
}

/// The elements of a symbol family, in order.
pub open spec fn family_values(m: Seq<(String, String)>) -> Seq<Seq<char>> {
    m.map_values(|p: (String, String)| p.1@)
}

/// Every value of `get_all_symbols`, in order: math operators, assignment
/// symbols, comparison operators.
pub open spec fn spec_all_symbols() -> Seq<Seq<char>> {
    seq![
        op_add(),
        op_sub(),
        op_mul(),
        op_div(),
        sym_equals(),
        sym_begin_body(),
        sym_end_body(),
        sym_begin_capture(),
        sym_end_capture(),
        sym_associate(),
        sym_begin_set_type(),
        sym_end_set_type(),
        sym_end_assignment(),
        sym_begin_conditions(),
        sym_comma(),
        sym_end_conditions(),
        sym_return_this(),
        sym_begin_enclosure(),
        sym_end_enclosure(),
        cmp_sym_eq(),
        cmp_sym_neq(),
        cmp_sym_gt(),
        cmp_sym_geq(),
        cmp_sym_lt(),
        cmp_sym_leq(),
    ]
}

/// Every value of `get_all_operator_symbols`, in order: math operators, then
/// comparison operators.
pub open spec fn spec_operator_symbols() -> Seq<Seq<char>> {
    seq![
        op_add(),
        op_sub(),
        op_mul(),
        op_div(),
        cmp_sym_eq(),
        cmp_sym_neq(),
        cmp_sym_gt(),
        cmp_sym_geq(),
        cmp_sym_lt(),
        cmp_sym_leq(),
    ]
}

/// Every value of `get_all_elements`, in order: type names, math operators,
/// assignment symbols, comparison operators, boolean literal names.
pub open spec fn spec_all_elements() -> Seq<Seq<char>> {
    seq![ty_integer(), ty_float(), ty_character(), ty_boolean()] + spec_all_symbols() + seq![
        lit_true(),
        lit_false(),
    ]
}

/// Holds every syntactic element of the language, one ordered family of
/// (descriptor, element) pairs per kind: type names, statement keywords,
/// math operators, assignment symbols, comparison operators and boolean
/// literal names.
pub struct SyntaxElements {
    pub type_names: Vec<(String, String)>,
    pub declaration_names: Vec<(String, String)>,
    pub math_symbols: Vec<(String, String)>,
    pub assignment_symbols: Vec<(String, String)>,
    pub comparision_symbols: Vec<(String, String)>,
    pub comparision_names: Vec<(String, String)>,
}

impl SyntaxElements {
    /// The exact contents of the table, entry by entry.
    pub open spec fn wf(&self) -> bool {
        &&& self.type_names@.len() == 4
        &&& entry_is(self.type_names@, 0, "integer"@, ty_integer())
        &&& entry_is(self.type_names@, 1, "float"@, ty_float())
        &&& entry_is(self.type_names@, 2, "character"@, ty_character())
        &&& entry_is(self.type_names@, 3, "boolean"@, ty_boolean())
        &&& self.declaration_names@.len() == 6
        &&& entry_is(self.declaration_names@, 0, "variable"@, kw_variable())
        &&& entry_is(self.declaration_names@, 1, "function"@, kw_function())
        &&& entry_is(self.declaration_names@, 2, "return"@, kw_return())
        &&& entry_is(self.declaration_names@, 3, "reassignment"@, kw_reassignment())
        &&& entry_is(self.declaration_names@, 4, "conditional statement"@, kw_conditional())
        &&& entry_is(self.declaration_names@, 5, "else conditional statement"@, kw_else())
        &&& self.math_symbols@.len() == 4
        &&& entry_is(self.math_symbols@, 0, "addition"@, op_add())
        &&& entry_is(self.math_symbols@, 1, "subtraction"@, op_sub())
        &&& entry_is(self.math_symbols@, 2, "multiplication"@, op_mul())
        &&& entry_is(self.math_symbols@, 3, "division"@, op_div())
        &&& self.assignment_symbols@.len() == 15
        &&& entry_is(self.assignment_symbols@, 0, "equals"@, sym_equals())
        &&& entry_is(self.assignment_symbols@, 1, "begin body"@, sym_begin_body())
        &&& entry_is(self.assignment_symbols@, 2, "end body"@, sym_end_body())
        &&& entry_is(self.assignment_symbols@, 3, "begin comparison"@, sym_begin_capture())
        &&& entry_is(self.assignment_symbols@, 4, "end comparison"@, sym_end_capture())
        &&& entry_is(self.assignment_symbols@, 5, "associate with"@, sym_associate())
        &&& entry_is(self.assignment_symbols@, 6, "begin set type"@, sym_begin_set_type())
        &&& entry_is(self.assignment_symbols@, 7, "end set type"@, sym_end_set_type())
        &&& entry_is(self.assignment_symbols@, 8, "end assignment"@, sym_end_assignment())
        &&& entry_is(self.assignment_symbols@, 9, "begin conditions"@, sym_begin_conditions())
        &&& entry_is(self.assignment_symbols@, 10, "condition seperator"@, sym_comma())
        &&& entry_is(self.assignment_symbols@, 11, "end conditions"@, sym_end_conditions())
        &&& entry_is(self.assignment_symbols@, 12, "return this"@, sym_return_this())
        &&& entry_is(self.assignment_symbols@, 13, "begin enclosure"@, sym_begin_enclosure())
        &&& entry_is(self.assignment_symbols@, 14, "end enclosure"@, sym_end_enclosure())
        &&& self.comparision_symbols@.len() == 6
        &&& entry_is(self.comparision_symbols@, 0, "equal to"@, cmp_sym_eq())
        &&& entry_is(self.comparision_symbols@, 1, "not equal to"@, cmp_sym_neq())
        &&& entry_is(self.comparision_symbols@, 2, "greater than"@, cmp_sym_gt())
        &&& entry_is(self.comparision_symbols@, 3, "greater than or equal to"@, cmp_sym_geq())
        &&& entry_is(self.comparision_symbols@, 4, "less than"@, cmp_sym_lt())
        &&& entry_is(self.comparision_symbols@, 5, "less than or equal to"@, cmp_sym_leq())
        &&& self.comparision_names@.len() == 2
        &&& entry_is(self.comparision_names@, 0, "true"@, lit_true())
        &&& entry_is(self.comparision_names@, 1, "false"@, lit_false())
    }

    /// Initialize the table with every family in its fixed order.
    pub fn init() -> (r: Self)
        ensures
            r.wf(),
    {
        let mut type_names: Vec<(String, String)> = Vec::new();
        type_names.push(pair("integer", "int"));
        type_names.push(pair("float", "flt"));
        type_names.push(pair("character", "chr"));
        type_names.push(pair("boolean", "tof"));

        let mut declaration_names: Vec<(String, String)> = Vec::new();
        declaration_names.push(pair("variable", "decl"));
        declaration_names.push(pair("function", "subroutine"));
        declaration_names.push(pair("return", "expose"));
        declaration_names.push(pair("reassignment", "chng"));
        declaration_names.push(pair("conditional statement", "cmpr"));
        declaration_names.push(pair("else conditional statement", "else"));

        let mut math_symbols: Vec<(String, String)> = Vec::new();
        math_symbols.push(pair("addition", "+"));
        math_symbols.push(pair("subtraction", "-"));
        math_symbols.push(pair("multiplication", "*"));
        math_symbols.push(pair("division", "/"));

        let mut assignment_symbols: Vec<(String, String)> = Vec::new();
        assignment_symbols.push(pair("equals", "="));
        assignment_symbols.push(pair("begin body", ":"));
        assignment_symbols.push(pair("end body", ";"));
        assignment_symbols.push(pair("begin comparison", ":&["));
        assignment_symbols.push(pair("end comparison", "]"));
        assignment_symbols.push(pair("associate with", "=>"));
        assignment_symbols.push(pair("begin set type", ":-["));
        assignment_symbols.push(pair("end set type", "]"));
        assignment_symbols.push(pair("end assignment", "\n"));
        assignment_symbols.push(pair("begin conditions", "::["));
        assignment_symbols.push(pair("condition seperator", ","));
        assignment_symbols.push(pair("end conditions", "]"));
        assignment_symbols.push(pair("return this", "->"));
        assignment_symbols.push(pair("begin enclosure", "["));
        assignment_symbols.push(pair("end enclosure", "]"));

        let mut comparision_symbols: Vec<(String, String)> = Vec::new();
        comparision_symbols.push(pair("equal to", "=="));
        comparision_symbols.push(pair("not equal to", "!="));
        comparision_symbols.push(pair("greater than", ">"));
        comparision_symbols.push(pair("greater than or equal to", ">="));
        comparision_symbols.push(pair("less than", "<"));
        comparision_symbols.push(pair("less than or equal to", "<="));

        let mut comparision_names: Vec<(String, String)> = Vec::new();
        comparision_names.push(pair("true", "true"));
        comparision_names.push(pair("false", "false"));

        SyntaxElements {
            type_names,
            declaration_names,
            math_symbols,
            assignment_symbols,
            comparision_symbols,
            comparision_names,
        }
    }

    /// Gets every element held in every family as one `Vec<String>`.
    pub fn get_all_elements(&self) -> (r: Vec<String>)
        requires
            self.wf(),
        ensures
            tok_views(r@) == spec_all_elements(),
    {
        let mut result: Vec<String> = Vec::new();
        push_family_values(&mut result, &self.type_names);
        push_family_values(&mut result, &self.math_symbols);
        push_family_values(&mut result, &self.assignment_symbols);
        push_family_values(&mut result, &self.comparision_symbols);
        push_family_values(&mut result, &self.comparision_names);
        proof {
            assert(tok_views(result@) =~= spec_all_elements());
        }
        result
    }

    /// Gets every operator and delimiter element: math operators, assignment
    /// symbols and comparison operators.
    pub fn get_all_symbols(&self) -> (r: Vec<String>)
        requires
            self.wf(),
        ensures
            tok_views(r@) == spec_all_symbols(),
    {
        let mut result: Vec<String> = Vec::new();
        push_family_values(&mut result, &self.math_symbols);
        push_family_values(&mut result, &self.assignment_symbols);
        push_family_values(&mut result, &self.comparision_symbols);
        proof {
            assert(tok_views(result@) =~= spec_all_symbols());
        }
        result
    }

    /// Gets every operator element that may split an expression: math
    /// operators, then comparison operators.
    pub fn get_all_operator_symbols(&self) -> (r: Vec<String>)
        requires
            self.wf(),
        ensures
            tok_views(r@) == spec_operator_symbols(),
    {
        let mut result: Vec<String> = Vec::new();
        push_family_values(&mut result, &self.math_symbols);
        push_family_values(&mut result, &self.comparision_symbols);
        proof {
            assert(tok_views(result@) =~= spec_operator_symbols());
        }
        result
    }
}

/// One table entry from two literals.
fn pair(key: &str, val: &str) -> (r: (String, String))
    ensures
        r.0@ == key@,
        r.1@ == val@,
{
    (key.to_owned(), val.to_owned())
}

/// Appends the element of every entry of `src` to `dst`, in order.
#[verifier::loop_isolation(false)]
fn push_family_values(dst: &mut Vec<String>, src: &Vec<(String, String)>)
    ensures
        tok_views(final(dst)@) == tok_views(old(dst)@) + family_values(src@),
{
    let mut i: usize = 0;
    while i < src.len()
        invariant
            0 <= i <= src@.len(),
            tok_views(dst@) =~= tok_views(old(dst)@) + family_values(src@).take(i as int),
        decreases src@.len() - i,
    {
        let ghost prev = dst@;
        dst.push(src[i].1.clone());
        proof {
            assert(dst@ == prev.push(src@[i as int].1));
            assert(forall|k: int| 0 <= k < prev.len() ==> #[trigger] dst@[k] == prev[k]);
            assert(tok_views(dst@).len() == prev.len() + 1);
            assert(tok_views(dst@)[prev.len() as int] == src@[i as int].1@);
            assert(forall|k: int|
                0 <= k < prev.len() ==> #[trigger] tok_views(dst@)[k] == tok_views(prev)[k]);
            assert(tok_views(dst@) =~= tok_views(old(dst)@) + family_values(src@).take(i + 1));
        }
        i = i + 1;
    }
    proof {
        assert(family_values(src@).take(src@.len() as int) =~= family_values(src@));
    }
}

} // verus!
