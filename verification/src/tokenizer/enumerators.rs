//! The expression tree (`Assignment`), its operators, and the expression
//! builder that turns a flat slice of tokens into such a tree.
use vstd::prelude::*;

verus! {

use crate::data::SyntaxElements;
use crate::data::cmp_sym_eq;
use crate::data::cmp_sym_geq;
use crate::data::cmp_sym_gt;
use crate::data::cmp_sym_leq;
use crate::data::cmp_sym_lt;
use crate::data::cmp_sym_neq;
use crate::data::lit_false;
use crate::data::lit_true;
use crate::data::op_add;
use crate::data::op_div;
use crate::data::op_mul;
use crate::data::op_sub;
use crate::data::spec_operator_symbols;
use crate::data::sym_begin_conditions;
use crate::data::sym_comma;
use crate::data::sym_end_conditions;
use crate::tokenizer::Tokenizer;
use crate::tokenizer::declaration::DataType;
use crate::tokenizer::error::TokenizerError;
use crate::tokenizer::structures::FunctionSignatureM;
use crate::tokenizer::structures::VariableHistory;
use crate::tokenizer::structures::VariableHistoryM;
use crate::tokenizer::structures::spec_find_function;
use crate::tokenizer::structures::spec_find_variable;
use crate::util::find_from_vec;
use crate::util::lemma_find_any_range;
use crate::util::lemma_find_from_range;
use crate::util::spec_find;
use crate::util::spec_find_any_from;
use crate::util::spec_is_float_text;
use crate::util::spec_parse_i64;
use crate::util::subvec;
use crate::util::tok_views;
use vstd::pervasive::unreached;

/// A math operator of the language.
#[derive(Debug, Clone, Copy, PartialEq, Eq, Structural)]
pub enum MathOperator {
    ADD,
    SUB,
    MUL,
    DIV,
}

/// The math operator a symbol stands for, if any.
pub open spec fn spec_math_op(sym: Seq<char>) -> Option<MathOperator> {
    if sym == op_add() {
        Some(MathOperator::ADD)
    } else if sym == op_sub() {
        Some(MathOperator::SUB)
    } else if sym == op_mul() {
        Some(MathOperator::MUL)
    } else if sym == op_div() {
        Some(MathOperator::DIV)
    } else {
        None
    }
}

impl MathOperator {
    /// Converts a source symbol to the math operator it stands for; any other
    /// symbol is rejected.
    pub fn from_string(from: &str) -> (r: Result<Self, TokenizerError>)
        ensures
            match r {
                Ok(op) => spec_math_op(from@) == Some(op),
                Err(e) => spec_math_op(from@) is None && e
                    == TokenizerError::CouldNotParseMathOperator,
            },
    {
        let syntax_elements = SyntaxElements::init();
        if crate::util::str_eq(from, syntax_elements.math_symbols[0].1.as_str()) {
            Ok(Self::ADD)
        } else if crate::util::str_eq(from, syntax_elements.math_symbols[1].1.as_str()) {
            Ok(Self::SUB)
        } else if crate::util::str_eq(from, syntax_elements.math_symbols[2].1.as_str()) {
            Ok(Self::MUL)
        } else if crate::util::str_eq(from, syntax_elements.math_symbols[3].1.as_str()) {
            Ok(Self::DIV)
        } else {
            Err(TokenizerError::CouldNotParseMathOperator)
        }
    }
}

/// A comparison operator of the language.
#[derive(Debug, Clone, Copy, PartialEq, Eq, Structural)]
pub enum ComparisonOperator {
    /// Equal to.
    EQ,
    /// Not equal to.
    NEQ,
    /// Greater than.
    GT,
    /// Less than.
    LT,
    /// Greater than or equal to.
    GEQ,
    /// Less than or equal to.
    LEQ,
}

/// The comparison operator a symbol stands for, if any.
pub open spec fn spec_cmp_op(sym: Seq<char>) -> Option<ComparisonOperator> {
    if sym == cmp_sym_eq() {
        Some(ComparisonOperator::EQ)
    } else if sym == cmp_sym_neq() {
        Some(ComparisonOperator::NEQ)
    } else if sym == cmp_sym_gt() {
        Some(ComparisonOperator::GT)
    } else if sym == cmp_sym_geq() {
        Some(ComparisonOperator::GEQ)
    } else if sym == cmp_sym_lt() {
        Some(ComparisonOperator::LT)
    } else if sym == cmp_sym_leq() {
        Some(ComparisonOperator::LEQ)
    } else {
        None
    }
}

impl ComparisonOperator {
    /// Converts a source symbol to the comparison operator it stands for; any
    /// other symbol is rejected.
    pub fn from_string(from: &str) -> (r: Result<Self, TokenizerError>)
        ensures
            match r {
                Ok(op) => spec_cmp_op(from@) == Some(op),
                Err(e) => spec_cmp_op(from@) is None && e
                    == TokenizerError::CouldNotParseComparisonOperator,
            },
    {
        let syntax_elements = SyntaxElements::init();
        if crate::util::str_eq(from, syntax_elements.comparision_symbols[0].1.as_str()) {
            Ok(Self::EQ)
        } else if crate::util::str_eq(from, syntax_elements.comparision_symbols[1].1.as_str()) {
            Ok(Self::NEQ)
        } else if crate::util::str_eq(from, syntax_elements.comparision_symbols[2].1.as_str()) {
            Ok(Self::GT)
        } else if crate::util::str_eq(from, syntax_elements.comparision_symbols[3].1.as_str()) {
            Ok(Self::GEQ)
        } else if crate::util::str_eq(from, syntax_elements.comparision_symbols[4].1.as_str()) {
            Ok(Self::LT)
        } else if crate::util::str_eq(from, syntax_elements.comparision_symbols[5].1.as_str()) {
            Ok(Self::LEQ)
        } else {
            Err(TokenizerError::CouldNotParseComparisonOperator)
        }
    }
}

/// An expression tree. Every node owns its children; a float literal carries
/// the text of its value, every other literal its value.
#[derive(Debug, PartialEq)]
pub enum Assignment {
    /// A math operation on two sub-expressions.
    EVAL(Box<Assignment>, MathOperator, Box<Assignment>),
    /// A comparison of two sub-expressions.
    CMP(Box<Assignment>, ComparisonOperator, Box<Assignment>),
    /// A call: the function's name, its declared return type, its arguments.
    FUNC(String, DataType, Vec<Assignment>),
    /// A boolean literal, held as 1 or 0.
    BOOL(i64),
    /// A reference to the variable held in the given slot of the enclosing
    /// scope.
    VAR(usize),
    /// An integer literal.
    INTEGER(i64),
    /// A float literal, held as the text of its value.
    FLOAT(String),
}

/// The mathematical shape of an `Assignment`.
pub enum AssignmentM {
    Eval(Box<AssignmentM>, MathOperator, Box<AssignmentM>),
    Cmp(Box<AssignmentM>, ComparisonOperator, Box<AssignmentM>),
    Func(Seq<char>, DataType, Seq<AssignmentM>),
    Bool(int),
    Var(int),
    Integer(int),
    Float(Seq<char>),
}

/// The mathematical shape of an expression tree.
pub open spec fn aview(a: Assignment) -> AssignmentM
    decreases a, 0int,
    via aview_decreases
{
    match a {
        Assignment::EVAL(l, op, r) => AssignmentM::Eval(
            Box::new(aview(*l)),
            op,
            Box::new(aview(*r)),
        ),
        Assignment::CMP(l, op, r) => AssignmentM::Cmp(Box::new(aview(*l)), op, Box::new(aview(*r))),
        Assignment::FUNC(name, dt, args) => AssignmentM::Func(name@, dt, aviews(args@)),
        Assignment::BOOL(n) => AssignmentM::Bool(n as int),
        Assignment::VAR(loc) => AssignmentM::Var(loc as int),
        Assignment::INTEGER(n) => AssignmentM::Integer(n as int),
        Assignment::FLOAT(text) => AssignmentM::Float(text@),
    }
}

/// The mathematical shapes of a sequence of expression trees.
pub open spec fn aviews(args: Seq<Assignment>) -> Seq<AssignmentM>
    decreases args, 1int,
    via aviews_decreases
{
    if args.len() <= 0 {
        Seq::empty()
    } else {
        aviews(args.subrange(0, args.len() - 1)).push(aview(args[args.len() - 1]))
    }
}

#[via_fn]
proof fn aview_decreases(a: Assignment) {
    match a {
        Assignment::FUNC(name, dt, args) => {
            assert(decreases_to!(a => args));
            assert(decreases_to!(args => args@));
        },
        _ => {},
    }
}

#[via_fn]
proof fn aviews_decreases(args: Seq<Assignment>) {
    if args.len() > 0 {
        assert(decreases_to!(args => args.subrange(0, args.len() - 1)));
        assert(decreases_to!(args => args[args.len() - 1]));
    }
}

/// `aviews` maps `aview` over the sequence, element for element.
pub proof fn lemma_aviews_index(args: Seq<Assignment>)
    ensures
        aviews(args).len() == args.len(),
        forall|i: int| 0 <= i < args.len() ==> aviews(args)[i] == aview(#[trigger] args[i]),
    decreases args.len(),
{
    if args.len() > 0 {
        lemma_aviews_index(args.subrange(0, args.len() - 1));
        assert(forall|i: int|
            0 <= i < args.len() - 1 ==> args.subrange(0, args.len() - 1)[i] == #[trigger] args[i]);
    }
}

impl View for Assignment {
    type V = AssignmentM;

    open spec fn view(&self) -> AssignmentM {
        aview(*self)
    }
}

/// Whether every variable reference of the expression names a filled slot of
/// the scope; only such trees have a derivable type.
pub open spec fn valid_in(a: AssignmentM, vh: VariableHistoryM) -> bool
    decreases a,
{
    match a {
        AssignmentM::Eval(l, _, r) => valid_in(*l, vh) && valid_in(*r, vh),
        AssignmentM::Cmp(l, _, r) => valid_in(*l, vh) && valid_in(*r, vh),
        AssignmentM::Func(_, _, args) => forall|i: int|
            0 <= i < args.len() ==> valid_in(#[trigger] args[i], vh),
        AssignmentM::Var(loc) => 0 <= loc < vh.data.len() && vh.data[loc] is Some,
        AssignmentM::Bool(_) => true,
        AssignmentM::Integer(_) => true,
        AssignmentM::Float(_) => true,
    }
}

/// The statically derivable result type of an expression: literals carry
/// their own type, a variable its slot's declared type, a comparison is
/// boolean, a math operation is float exactly when either operand is float,
/// and a call has the callee's declared return type.
pub open spec fn spec_evaluate_type(a: AssignmentM, vh: VariableHistoryM) -> DataType
    decreases a,
{
    match a {
        AssignmentM::Integer(_) => DataType::INTEGER,
        AssignmentM::Float(_) => DataType::FLOAT,
        AssignmentM::Bool(_) => DataType::BOOL,
        AssignmentM::Cmp(_, _, _) => DataType::BOOL,
        AssignmentM::Var(loc) => if 0 <= loc < vh.data.len() && vh.data[loc] is Some {
            vh.data[loc]->Some_0.data_type
        } else {
            DataType::INTEGER
        },
        AssignmentM::Func(_, dt, _) => dt,
        AssignmentM::Eval(l, _, r) => if spec_evaluate_type(*l, vh) == DataType::FLOAT
            || spec_evaluate_type(*r, vh) == DataType::FLOAT {
            DataType::FLOAT
        } else {
            DataType::INTEGER
        },
    }
}

impl Assignment {
    /// Returns the data type this expression evaluates to.
    pub fn evaluate_type(&self, variable_history: &VariableHistory) -> (r: DataType)
        requires
            valid_in(self@, variable_history@),
        ensures
            r == spec_evaluate_type(self@, variable_history@),
        decreases *self,
    {
        match self {
            Self::INTEGER(_) => DataType::INTEGER,
            Self::FLOAT(_) => DataType::FLOAT,
            Self::BOOL(_) => DataType::BOOL,
            Self::CMP(_, _, _) => DataType::BOOL,
            Self::VAR(variable_location) => {
                proof {
                    assert(variable_history@.data[*variable_location as int] == (
                    match variable_history.data@[*variable_location as int] {
                        Some(v) => Some(v@),
                        None => None,
                    }));
                }
                match &variable_history.data[*variable_location] {
                    Some(variable) => variable.data_type,
                    None => unreached(),
                }
            },
            Self::FUNC(_, data_type, _) => *data_type,
            Self::EVAL(first_term, _, second_term) => {
                let first_term_type = first_term.evaluate_type(variable_history);
                let second_term_type = second_term.evaluate_type(variable_history);
                if first_term_type.is_float() || second_term_type.is_float() {
                    DataType::FLOAT
                } else {
                    DataType::INTEGER
                }
            },
        }
    }
}

/// Whether every variable the expression reads is among the captured slots.
pub open spec fn spec_all_vars_in(a: AssignmentM, active: Seq<int>) -> bool
    decreases a, 0int, 0int,
{
    match a {
        AssignmentM::Eval(l, _, r) => spec_all_vars_in(*l, active) && spec_all_vars_in(*r, active),
        AssignmentM::Cmp(l, _, r) => spec_all_vars_in(*l, active) && spec_all_vars_in(*r, active),
        AssignmentM::Func(_, _, args) => spec_all_vars_in_from(args, 0, active),
        AssignmentM::Var(loc) => active.contains(loc),
        AssignmentM::Bool(_) => true,
        AssignmentM::Integer(_) => true,
        AssignmentM::Float(_) => true,
    }
}

/// Whether every variable read by the arguments from index `i` on is among
/// the captured slots.
pub open spec fn spec_all_vars_in_from(args: Seq<AssignmentM>, i: int, active: Seq<int>) -> bool
    decreases args, 1int, args.len() - i,
{
    if i < 0 || i >= args.len() {
        true
    } else {
        spec_all_vars_in(args[i], active) && spec_all_vars_in_from(args, i + 1, active)
    }
}

/// Checks that every variable the expression reads is among the captured
/// slots.
#[verifier::loop_isolation(false)]
pub fn all_vars_captured(a: &Assignment, active: &Vec<usize>) -> (r: bool)
    ensures
        r == spec_all_vars_in(aview(*a), crate::util::usizes_view(active@)),
    decreases *a,
{
    let ghost av = crate::util::usizes_view(active@);
    match a {
        Assignment::EVAL(l, _, r2) => {
            proof {
                assert(decreases_to!(*a => **l));
                assert(decreases_to!(*a => **r2));
            }
            let lv = all_vars_captured(&**l, active);
            let rv = all_vars_captured(&**r2, active);
            proof {
                assert(aview(*a) == AssignmentM::Eval(
                    Box::new(aview(**l)),
                    match *a {
                        Assignment::EVAL(_, op, _) => op,
                        _ => MathOperator::ADD,
                    },
                    Box::new(aview(**r2)),
                ));
                assert(lv == spec_all_vars_in(aview(**l), av));
                assert(rv == spec_all_vars_in(aview(**r2), av));
                assert((lv && rv) == spec_all_vars_in(aview(*a), av));
            }
            lv && rv
        },
        Assignment::CMP(l, _, r2) => {
            proof {
                assert(decreases_to!(*a => **l));
                assert(decreases_to!(*a => **r2));
            }
            let lv = all_vars_captured(&**l, active);
            let rv = all_vars_captured(&**r2, active);
            proof {
                assert(aview(*a) == AssignmentM::Cmp(
                    Box::new(aview(**l)),
                    match *a {
                        Assignment::CMP(_, op, _) => op,
                        _ => ComparisonOperator::EQ,
                    },
                    Box::new(aview(**r2)),
                ));
                assert((lv && rv) == spec_all_vars_in(aview(*a), av));
            }
            lv && rv
        },
        Assignment::FUNC(_, _, args) => {
            let ghost argsm = aviews(args@);
            proof {
                lemma_aviews_index(args@);
                assert(aview(*a) == AssignmentM::Func(
                    match *a {
                        Assignment::FUNC(nm, _, _) => nm@,
                        _ => Seq::empty(),
                    },
                    match *a {
                        Assignment::FUNC(_, dt, _) => dt,
                        _ => DataType::INTEGER,
                    },
                    argsm,
                ));
            }
            let mut k: usize = 0;
            while k < args.len()
                invariant
                    0 <= k <= args@.len(),
                    spec_all_vars_in_from(argsm, 0, av) == spec_all_vars_in_from(
                        argsm,
                        k as int,
                        av,
                    ),
                decreases args@.len() - k,
            {
                proof {
                    assert(decreases_to!(*a => *args));
                    assert(decreases_to!(*args => args@[k as int]));
                    assert(argsm[k as int] == aview(args@[k as int]));
                }
                if !all_vars_captured(&args[k], active) {
                    proof {
                        assert(!spec_all_vars_in_from(argsm, k as int, av));
                    }
                    return false;
                }
                k = k + 1;
            }
            true
        },
        Assignment::VAR(loc) => {
            let mut k: usize = 0;
            while k < active.len()
                invariant
                    0 <= k <= active@.len(),
                    forall|j: int| 0 <= j < k ==> av[j] != *loc as int,
                decreases active@.len() - k,
            {
                if active[k] == *loc {
                    proof {
                        assert(av[k as int] == *loc as int);
                    }
                    return true;
                }
                k = k + 1;
            }
            proof {
                assert(!av.contains(*loc as int));
            }
            false
        },
        Assignment::BOOL(_) => true,
        Assignment::INTEGER(_) => true,
        Assignment::FLOAT(_) => true,
    }
}

/// What the expression builder makes of a single term, in this order: an
/// integer literal, a float literal, a boolean literal, a declared variable of
/// the scope, a call of a registered function (its arguments, between the
/// begin/end-conditions delimiters, split on commas and resolved as terms);
/// anything else is rejected.
pub open spec fn spec_from_equation_term(
    fh: Seq<FunctionSignatureM>,
    vh: VariableHistoryM,
    term: Seq<Seq<char>>,
) -> Result<AssignmentM, TokenizerError>
    decreases term.len(), 0int,
    via spec_from_equation_term_decreases
{
    if term.len() == 0 {
        Err(TokenizerError::CouldNotParseTerm)
    } else if spec_parse_i64(term[0]) is Some {
        Ok(AssignmentM::Integer(spec_parse_i64(term[0])->Some_0))
    } else if spec_is_float_text(term[0]) {
        Ok(AssignmentM::Float(term[0]))
    } else if term[0] == lit_true() {
        Ok(AssignmentM::Bool(1))
    } else if term[0] == lit_false() {
        Ok(AssignmentM::Bool(0))
    } else if spec_find_variable(vh.data, term[0], 0) is Some {
        Ok(AssignmentM::Var(spec_find_variable(vh.data, term[0], 0)->Some_0))
    } else if spec_find_function(fh, term[0], 0) is Some {
        let fi = spec_find_function(fh, term[0], 0)->Some_0;
        match spec_find(term, sym_begin_conditions()) {
            None => Err(TokenizerError::MissingDelimiter),
            Some(b) => match spec_find(term, sym_end_conditions()) {
                None => Err(TokenizerError::MissingDelimiter),
                Some(e) => if b + 1 > e {
                    Err(TokenizerError::MissingDelimiter)
                } else if b + 1 == e {
                    Ok(AssignmentM::Func(fh[fi].name, fh[fi].return_type, Seq::empty()))
                } else {
                    match spec_parse_args(fh, vh, term.subrange(b + 1, e)) {
                        Ok(args) => Ok(AssignmentM::Func(fh[fi].name, fh[fi].return_type, args)),
                        Err(err) => Err(err),
                    }
                },
            },
        }
    } else {
        Err(TokenizerError::CouldNotParseTerm)
    }
}

/// What splitting an argument list on its commas and resolving each piece as
/// a term yields; an empty piece is rejected with the term error.
pub open spec fn spec_parse_args(
    fh: Seq<FunctionSignatureM>,
    vh: VariableHistoryM,
    toks: Seq<Seq<char>>,
) -> Result<Seq<AssignmentM>, TokenizerError>
    decreases toks.len(), 1int,
    via spec_parse_args_decreases
{
    match spec_find(toks, sym_comma()) {
        None => match spec_from_equation_term(fh, vh, toks) {
            Ok(a) => Ok(seq![a]),
            Err(e) => Err(e),
        },
        Some(c) => match spec_from_equation_term(fh, vh, toks.subrange(0, c)) {
            Err(e) => Err(e),
            Ok(a) => match spec_parse_args(fh, vh, toks.subrange(c + 1, toks.len() as int)) {
                Ok(rest) => Ok(seq![a] + rest),
                Err(e) => Err(e),
            },
        },
    }
}

/// What the expression builder makes of a flat token slice: a single term
/// when the slice has length one or holds no operator symbol; otherwise a
/// split at the first operator symbol, the left half a term, the right half a
/// sub-expression, combined with that operator.
pub open spec fn spec_from_string_vec(
    fh: Seq<FunctionSignatureM>,
    vh: VariableHistoryM,
    eq: Seq<Seq<char>>,
) -> Result<AssignmentM, TokenizerError>
    decreases eq.len(), 2int,
    via spec_from_string_vec_decreases
{
    if eq.len() == 1 || spec_find_any_from(eq, 0, spec_operator_symbols()) is None {
        spec_from_equation_term(fh, vh, eq)
    } else {
        let oi = spec_find_any_from(eq, 0, spec_operator_symbols())->Some_0;
        let sym = eq[oi];
        match spec_from_equation_term(fh, vh, eq.subrange(0, oi)) {
            Err(e) => Err(e),
            Ok(first) => match spec_from_string_vec(fh, vh, eq.subrange(oi + 1, eq.len() as int)) {
                Err(e) => Err(e),
                Ok(second) => if spec_math_op(sym) is Some {
                    Ok(AssignmentM::Eval(Box::new(first), spec_math_op(sym)->Some_0, Box::new(second)))
                } else if spec_cmp_op(sym) is Some {
                    Ok(AssignmentM::Cmp(Box::new(first), spec_cmp_op(sym)->Some_0, Box::new(second)))
                } else {
                    Err(TokenizerError::IncorrectEquationFormatting)
                },
            },
        }
    }
}

#[via_fn]
proof fn spec_from_equation_term_decreases(
    fh: Seq<FunctionSignatureM>,
    vh: VariableHistoryM,
    term: Seq<Seq<char>>,
) {
    if term.len() > 0 {
        if spec_find(term, sym_begin_conditions()) matches Some(b) {
            if spec_find(term, sym_end_conditions()) matches Some(e) {
                lemma_find_from_range(term, 0, sym_begin_conditions());
                lemma_find_from_range(term, 0, sym_end_conditions());
            }
        }
    }
}

#[via_fn]
proof fn spec_parse_args_decreases(
    fh: Seq<FunctionSignatureM>,
    vh: VariableHistoryM,
    toks: Seq<Seq<char>>,
) {
    if spec_find(toks, sym_comma()) matches Some(c) {
        lemma_find_from_range(toks, 0, sym_comma());
    }
}

#[via_fn]
proof fn spec_from_string_vec_decreases(
    fh: Seq<FunctionSignatureM>,
    vh: VariableHistoryM,
    eq: Seq<Seq<char>>,
) {
    if spec_find_any_from(eq, 0, spec_operator_symbols()) matches Some(oi) {
        lemma_find_any_range(eq, 0, spec_operator_symbols());
    }
}

/// `aviews` of a one-element sequence.
proof fn lemma_aviews_singleton(a: Assignment)
    ensures
        aviews(seq![a]) == seq![aview(a)],
{
    let s = seq![a];
    assert(s.subrange(0, 0) =~= Seq::<Assignment>::empty());
    assert(aviews(Seq::<Assignment>::empty()) =~= Seq::<AssignmentM>::empty());
    assert(aviews(s) == aviews(s.subrange(0, 0)).push(aview(a)));
    assert(aviews(s) =~= seq![aview(a)]);
}

/// `aviews` of a sequence with one element prepended is `aview` of that
/// element prepended to `aviews` of the rest.
proof fn lemma_aviews_cons(a: Assignment, rest: Seq<Assignment>)
    ensures
        aviews(seq![a] + rest) == seq![aview(a)] + aviews(rest),
    decreases rest.len(),
{
    let s = seq![a] + rest;
    if rest.len() == 0 {
        assert(s =~= seq![a]);
        lemma_aviews_singleton(a);
        assert(aviews(rest) =~= Seq::<AssignmentM>::empty());
        assert(aviews(s) =~= seq![aview(a)] + aviews(rest));
    } else {
        assert(s.subrange(0, s.len() - 1) =~= seq![a] + rest.subrange(0, rest.len() - 1));
        lemma_aviews_cons(a, rest.subrange(0, rest.len() - 1));
        assert(s[s.len() - 1] == rest[rest.len() - 1]);
        assert(seq![aview(a)] + aviews(rest) =~= (seq![aview(a)] + aviews(
            rest.subrange(0, rest.len() - 1),
        )).push(aview(rest[rest.len() - 1])));
    }
}

impl Assignment {
    /// Parses a flat token slice (an equation) into an expression tree: a
    /// single term, or a split at the first operator symbol into a left term
    /// and a right sub-expression.
    pub fn from_string_vec(
        tokenizer: &Tokenizer,
        variable_history: &VariableHistory,
        string_equation: Vec<String>,
    ) -> (r: Result<Self, TokenizerError>)
        ensures
            match r {
                Ok(a) => spec_from_string_vec(
                    tokenizer@.function_history,
                    variable_history@,
                    tok_views(string_equation@),
                ) == Ok::<_, TokenizerError>(aview(a)),
                Err(e) => spec_from_string_vec(
                    tokenizer@.function_history,
                    variable_history@,
                    tok_views(string_equation@),
                ) == Err::<AssignmentM, _>(e),
            },
        decreases string_equation@.len(), 2int,
    {
        let ghost fh = tokenizer@.function_history;
        let ghost vhm = variable_history@;
        let ghost eq = tok_views(string_equation@);
        let syntax_elements = SyntaxElements::init();
        let operator_symbols = syntax_elements.get_all_operator_symbols();
        let op_idx = find_from_vec(&string_equation, &operator_symbols);
        if string_equation.len() == 1 || op_idx.is_none() {
            return Self::from_equation_term(tokenizer, variable_history, string_equation);
        }
        let oi = match op_idx {
            Some(oi) => oi,
            None => unreached(),
        };
        proof {
            lemma_find_any_range(eq, 0, spec_operator_symbols());
        }
        let first_term_slice = subvec(&string_equation, 0, oi);
        let second_term_slice = subvec(&string_equation, oi + 1, string_equation.len());
        proof {
            crate::util::lemma_tok_views_subrange(string_equation@, 0, oi as int);
            crate::util::lemma_tok_views_subrange(
                string_equation@,
                oi + 1,
                string_equation@.len() as int,
            );
        }
        let first_term = match Self::from_equation_term(
            tokenizer,
            variable_history,
            first_term_slice,
        ) {
            Ok(a) => a,
            Err(e) => {
                return Err(e);
            },
        };
        let second_term = match Self::from_string_vec(
            tokenizer,
            variable_history,
            second_term_slice,
        ) {
            Ok(a) => a,
            Err(e) => {
                return Err(e);
            },
        };
        let operator_symbol = string_equation[oi].clone();
        match MathOperator::from_string(operator_symbol.as_str()) {
            Ok(mo) => Ok(Self::EVAL(Box::new(first_term), mo, Box::new(second_term))),
            Err(_) => match ComparisonOperator::from_string(operator_symbol.as_str()) {
                Ok(co) => Ok(Self::CMP(Box::new(first_term), co, Box::new(second_term))),
                Err(_) => Err(TokenizerError::IncorrectEquationFormatting),
            },
        }
    }

    /// Resolves a single term of an equation: a literal, a variable of the
    /// scope, or a call of a registered function.
    fn from_equation_term(
        tokenizer: &Tokenizer,
        variable_history: &VariableHistory,
        term: Vec<String>,
    ) -> (r: Result<Self, TokenizerError>)
        ensures
            match r {
                Ok(a) => spec_from_equation_term(
                    tokenizer@.function_history,
                    variable_history@,
                    tok_views(term@),
                ) == Ok::<_, TokenizerError>(aview(a)),
                Err(e) => spec_from_equation_term(
                    tokenizer@.function_history,
                    variable_history@,
                    tok_views(term@),
                ) == Err::<AssignmentM, _>(e),
            },
        decreases term@.len(), 0int,
    {
        let ghost fh = tokenizer@.function_history;
        let ghost vhm = variable_history@;
        let ghost tv = tok_views(term@);
        let syntax_elements = SyntaxElements::init();
        if term.len() == 0 {
            return Err(TokenizerError::CouldNotParseTerm);
        }
        if let Some(returned_number) = crate::util::parse_i64(term[0].as_str()) {
            return Ok(Assignment::INTEGER(returned_number));
        }
        if crate::util::is_float_text(term[0].as_str()) {
            return Ok(Assignment::FLOAT(term[0].clone()));
        }
        if crate::util::str_eq(term[0].as_str(), syntax_elements.comparision_names[0].1.as_str()) {
            return Ok(Assignment::BOOL(1));
        }
        if crate::util::str_eq(term[0].as_str(), syntax_elements.comparision_names[1].1.as_str()) {
            return Ok(Assignment::BOOL(0));
        }
        if let Some(variable_location_index) = variable_history.find_variable(term[0].as_str()) {
            return Ok(Assignment::VAR(variable_location_index));
        }
        let function = match tokenizer.function_history.find_by_name(term[0].as_str()) {
            Some(f) => f,
            None => {
                return Err(TokenizerError::CouldNotParseTerm);
            },
        };
        let begin_args_index = match crate::util::find(
            &term,
            syntax_elements.assignment_symbols[9].1.as_str(),
        ) {
            Some(i) => i,
            None => {
                return Err(TokenizerError::MissingDelimiter);
            },
        };
        let end_args_index = match crate::util::find(
            &term,
            syntax_elements.assignment_symbols[11].1.as_str(),
        ) {
            Some(i) => i,
            None => {
                return Err(TokenizerError::MissingDelimiter);
            },
        };
        proof {
            lemma_find_from_range(tv, 0, sym_begin_conditions());
            lemma_find_from_range(tv, 0, sym_end_conditions());
        }
        if begin_args_index + 1 > end_args_index {
            return Err(TokenizerError::MissingDelimiter);
        }
        let passed_args: Vec<Assignment>;
        if begin_args_index + 1 == end_args_index {
            passed_args = Vec::new();
            proof {
                assert(aviews(passed_args@) =~= Seq::<AssignmentM>::empty());
            }
        } else {
            let passed_args_slice = subvec(&term, begin_args_index + 1, end_args_index);
            proof {
                crate::util::lemma_tok_views_subrange(
                    term@,
                    begin_args_index + 1,
                    end_args_index as int,
                );
            }
            passed_args =
            match Self::parse_call_args(tokenizer, variable_history, passed_args_slice) {
                Ok(args) => args,
                Err(e) => {
                    return Err(e);
                },
            };
        }
        Ok(Assignment::FUNC(function.name.clone(), function.return_type, passed_args))
    }

    /// Splits an argument list on its commas and resolves each piece as a
    /// term.
    fn parse_call_args(
        tokenizer: &Tokenizer,
        variable_history: &VariableHistory,
        toks: Vec<String>,
    ) -> (r: Result<Vec<Assignment>, TokenizerError>)
        ensures
            match r {
                Ok(args) => spec_parse_args(
                    tokenizer@.function_history,
                    variable_history@,
                    tok_views(toks@),
                ) == Ok::<_, TokenizerError>(aviews(args@)),
                Err(e) => spec_parse_args(
                    tokenizer@.function_history,
                    variable_history@,
                    tok_views(toks@),
                ) == Err::<Seq<AssignmentM>, _>(e),
            },
        decreases toks@.len(), 1int,
    {
        let ghost tv = tok_views(toks@);
        let syntax_elements = SyntaxElements::init();
        let comma_index = crate::util::find(&toks, syntax_elements.assignment_symbols[10].1.as_str());
        match comma_index {
            None => {
                match Self::from_equation_term(tokenizer, variable_history, toks) {
                    Ok(a) => {
                        let ghost av = aview(a);
                        let mut args: Vec<Assignment> = Vec::new();
                        args.push(a);
                        proof {
                            assert(args@ =~= seq![args@[0]]);
                            lemma_aviews_singleton(args@[0]);
                            assert(aviews(args@) =~= seq![av]);
                        }
                        Ok(args)
                    },
                    Err(e) => Err(e),
                }
            },
            Some(c) => {
                proof {
                    lemma_find_from_range(tv, 0, sym_comma());
                }
                let piece = subvec(&toks, 0, c);
                let rest_toks = subvec(&toks, c + 1, toks.len());
                proof {
                    crate::util::lemma_tok_views_subrange(toks@, 0, c as int);
                    crate::util::lemma_tok_views_subrange(toks@, c + 1, toks@.len() as int);
                }
                let first = match Self::from_equation_term(tokenizer, variable_history, piece) {
                    Ok(a) => a,
                    Err(e) => {
                        return Err(e);
                    },
                };
                let mut rest = match Self::parse_call_args(tokenizer, variable_history, rest_toks) {
                    Ok(args) => args,
                    Err(e) => {
                        return Err(e);
                    },
                };
                let ghost rest_snap = rest@;
                rest.insert(0, first);
                proof {
                    assert(rest@ =~= seq![first] + rest_snap);
                    lemma_aviews_cons(first, rest_snap);
                }
                Ok(rest)
            },
        }
    }
}

} // verus!
