//! The statement parser: scans a flat token stream, recognizes statement
//! keywords, locates statement and block boundaries via balanced-delimiter
//! counting, and recursively builds a tree of statements.
use vstd::prelude::*;

pub mod conditional_statement;
pub mod declaration;
pub mod enumerators;
pub mod error;
pub mod function;
pub mod reassignment;
pub mod structures;

verus! {

use crate::data::MEMORY_STEP;
use crate::data::SyntaxElements;
use crate::data::kw_conditional;
use crate::data::kw_else;
use crate::data::kw_function;
use crate::data::kw_reassignment;
use crate::data::kw_return;
use crate::data::kw_variable;
use crate::data::sym_begin_body;
use crate::data::sym_begin_capture;
use crate::data::sym_begin_conditions;
use crate::data::sym_begin_enclosure;
use crate::data::sym_begin_set_type;
use crate::data::sym_comma;
use crate::data::sym_end_body;
use crate::data::sym_end_capture;
use crate::data::sym_end_conditions;
use crate::data::sym_end_enclosure;
use crate::data::sym_end_assignment;
use crate::data::sym_end_set_type;
use crate::data::sym_equals;
use crate::data::sym_return_this;
use crate::tokenizer::conditional_statement::ConditionalStatement;
use crate::tokenizer::declaration::spec_check_token_type;
use crate::tokenizer::enumerators::spec_from_string_vec;
use crate::tokenizer::enumerators::spec_all_vars_in;
use crate::tokenizer::structures::spec_add_variable;
use crate::tokenizer::structures::spec_find_variable;
use crate::tokenizer::structures::spec_from_function_arg;
use crate::tokenizer::error::TokenizerError;
use crate::util::spec_find;
use crate::util::spec_find_from;
use crate::util::lemma_find_from_range;
use crate::tokenizer::declaration::Declaration;
use crate::tokenizer::declaration::DeclarationM;
use crate::tokenizer::enumerators::AssignmentM;
use crate::tokenizer::enumerators::aview;
use crate::tokenizer::function::Function;
use crate::tokenizer::function::Return;
use crate::tokenizer::function::ReturnM;
use crate::tokenizer::reassignment::Reassignment;
use crate::tokenizer::reassignment::ReassignmentM;
use crate::tokenizer::structures::FunctionHistory;
use crate::tokenizer::structures::FunctionSignatureM;
use crate::tokenizer::structures::VariableHistory;
use crate::tokenizer::structures::VariableHistoryM;
use crate::tokenizer::declaration::DataType;
use crate::tokenizer::structures::VariableM;

/// One parsed statement.
#[derive(Debug, PartialEq)]
pub enum Token {
    Function(Function),
    ConditionalStatement(ConditionalStatement),
    Declaration(Declaration),
    Reassignment(Reassignment),
    Return(Return),
}

/// The mathematical shape of a `Function`.
pub struct FunctionM {
    pub name: Seq<char>,
    pub return_type: crate::tokenizer::declaration::DataType,
    pub arguments: Seq<VariableM>,
    pub variable_history: VariableHistoryM,
    pub functionaliy: Seq<TokenM>,
}

/// The mathematical shape of a `ConditionalStatement`.
pub struct ConditionalStatementM {
    pub index: int,
    pub active_variables: Seq<int>,
    pub condition_fields: Seq<(Option<AssignmentM>, Seq<TokenM>)>,
}

/// The mathematical shape of a `Token`.
pub enum TokenM {
    Function(FunctionM),
    ConditionalStatement(ConditionalStatementM),
    Declaration(DeclarationM),
    Reassignment(ReassignmentM),
    Return(ReturnM),
}

/// The mathematical shape of a statement.
pub open spec fn tview(t: Token) -> TokenM
    decreases t, 0int,
    via tview_decreases
{
    match t {
        Token::Function(f) => TokenM::Function(fview(f)),
        Token::ConditionalStatement(cs) => TokenM::ConditionalStatement(csview(cs)),
        Token::Declaration(d) => TokenM::Declaration(d@),
        Token::Reassignment(r) => TokenM::Reassignment(r@),
        Token::Return(r) => TokenM::Return(r@),
    }
}

/// The mathematical shape of a function definition.
pub open spec fn fview(f: Function) -> FunctionM
    decreases f, 2int,
    via fview_decreases
{
    FunctionM {
        name: f.name@,
        return_type: f.return_type,
        arguments: crate::tokenizer::structures::vars_view(f.arguments@),
        variable_history: f.variable_history@,
        functionaliy: tviews(f.functionaliy@),
    }
}

use crate::tokenizer::structures::Variable;

/// The mathematical shape of a conditional statement.
pub open spec fn csview(cs: ConditionalStatement) -> ConditionalStatementM
    decreases cs, 2int,
    via csview_decreases
{
    ConditionalStatementM {
        index: cs.index as int,
        active_variables: crate::util::usizes_view(cs.active_variables@),
        condition_fields: cfviews(cs.condition_fields@),
    }
}

/// The mathematical shapes of a sequence of statements.
pub open spec fn tviews(ts: Seq<Token>) -> Seq<TokenM>
    decreases ts, 1int,
    via tviews_decreases
{
    if ts.len() <= 0 {
        Seq::empty()
    } else {
        tviews(ts.subrange(0, ts.len() - 1)).push(tview(ts[ts.len() - 1]))
    }
}

/// The mathematical shapes of a sequence of conditional branches.
pub open spec fn cfviews(
    fields: Seq<(Option<crate::tokenizer::enumerators::Assignment>, Vec<Token>)>,
) -> Seq<(Option<AssignmentM>, Seq<TokenM>)>
    decreases fields, 1int,
    via cfviews_decreases
{
    if fields.len() <= 0 {
        Seq::empty()
    } else {
        let last = fields[fields.len() - 1];
        let cond = match last.0 {
            Some(a) => Some(aview(a)),
            None => None,
        };
        cfviews(fields.subrange(0, fields.len() - 1)).push((cond, tviews(last.1@)))
    }
}

#[via_fn]
proof fn tview_decreases(t: Token) {
    match t {
        Token::Function(f) => {
            assert(decreases_to!(t => f));
        },
        Token::ConditionalStatement(cs) => {
            assert(decreases_to!(t => cs));
        },
        _ => {},
    }
}

#[via_fn]
proof fn fview_decreases(f: Function) {
    assert(decreases_to!(f => f.functionaliy));
    assert(decreases_to!(f.functionaliy => f.functionaliy@));
}

#[via_fn]
proof fn csview_decreases(cs: ConditionalStatement) {
    assert(decreases_to!(cs => cs.condition_fields));
    assert(decreases_to!(cs.condition_fields => cs.condition_fields@));
}

#[via_fn]
proof fn tviews_decreases(ts: Seq<Token>) {
    if ts.len() > 0 {
        assert(decreases_to!(ts => ts.subrange(0, ts.len() - 1)));
        assert(decreases_to!(ts => ts[ts.len() - 1]));
    }
}

#[via_fn]
proof fn cfviews_decreases(
    fields: Seq<(Option<crate::tokenizer::enumerators::Assignment>, Vec<Token>)>,
) {
    if fields.len() > 0 {
        let last = fields[fields.len() - 1];
        assert(decreases_to!(fields => fields.subrange(0, fields.len() - 1)));
        assert(decreases_to!(fields => last));
        assert(decreases_to!(last => last.0));
        match last.0 {
            Some(a) => {
                assert(decreases_to!(last.0 => a));
            },
            None => {},
        }
        assert(decreases_to!(last => last.1));
        assert(decreases_to!(last.1 => last.1@));
    }
}

impl View for Token {
    type V = TokenM;

    open spec fn view(&self) -> TokenM {
        tview(*self)
    }
}

impl View for Function {
    type V = FunctionM;

    open spec fn view(&self) -> FunctionM {
        fview(*self)
    }
}

impl View for ConditionalStatement {
    type V = ConditionalStatementM;

    open spec fn view(&self) -> ConditionalStatementM {
        csview(*self)
    }
}

/// `tviews` maps `tview` over the sequence, element for element.
pub proof fn lemma_tviews_index(ts: Seq<Token>)
    ensures
        tviews(ts).len() == ts.len(),
        forall|i: int| 0 <= i < ts.len() ==> tviews(ts)[i] == tview(#[trigger] ts[i]),
    decreases ts.len(),
{
    if ts.len() > 0 {
        lemma_tviews_index(ts.subrange(0, ts.len() - 1));
        assert(forall|i: int|
            0 <= i < ts.len() - 1 ==> ts.subrange(0, ts.len() - 1)[i] == #[trigger] ts[i]);
    }
}

/// `cfviews` maps branch views over the sequence, element for element.
pub proof fn lemma_cfviews_index(
    fields: Seq<(Option<crate::tokenizer::enumerators::Assignment>, Vec<Token>)>,
)
    ensures
        cfviews(fields).len() == fields.len(),
        forall|i: int|
            0 <= i < fields.len() ==> #[trigger] cfviews(fields)[i] == (
                match fields[i].0 {
                    Some(a) => Some(aview(a)),
                    None => None,
                },
                tviews(fields[i].1@),
            ),
    decreases fields.len(),
{
    if fields.len() > 0 {
        lemma_cfviews_index(fields.subrange(0, fields.len() - 1));
        assert(forall|i: int|
            0 <= i < fields.len() - 1 ==> fields.subrange(0, fields.len() - 1)[i]
                == #[trigger] fields[i]);
    }
}

/// The state the statement parser threads through a parse: the finished
/// statement tree, the function table, the syntax table, and the counter that
/// keeps conditional-statement labels unique program-wide.
pub struct Tokenizer {
    pub token_tree: Vec<Token>,
    pub function_history: FunctionHistory,
    pub syntax_elements: SyntaxElements,
    pub conditional_count: usize,
}

/// The mathematical shape of the parser state.
pub struct TokenizerM {
    pub token_tree: Seq<TokenM>,
    pub function_history: Seq<FunctionSignatureM>,
    pub conditional_count: int,
}

impl View for Tokenizer {
    type V = TokenizerM;

    open spec fn view(&self) -> TokenizerM {
        TokenizerM {
            token_tree: tviews(self.token_tree@),
            function_history: self.function_history@,
            conditional_count: self.conditional_count as int,
        }
    }
}

/// The part of the parser state a parse reads and advances: the function
/// table and the conditional-statement counter.
pub struct ParserStateM {
    pub function_history: Seq<FunctionSignatureM>,
    pub conditional_count: int,
}

/// The parse-relevant part of a `Tokenizer`'s shape.
pub open spec fn st_of(t: TokenizerM) -> ParserStateM {
    ParserStateM {
        function_history: t.function_history,
        conditional_count: t.conditional_count,
    }
}

/// Where a block that opens at `i` with balance `counter` ends: the index at
/// which the count of begin-body symbols first balances the end-body symbols.
pub open spec fn spec_end_from(toks: Seq<Seq<char>>, i: int, counter: int) -> Result<
    int,
    TokenizerError,
>
    decreases toks.len() - i,
{
    if i < 0 || i >= toks.len() {
        Err(TokenizerError::CouldNotFindEndOfBlock)
    } else if toks[i] == sym_begin_body() {
        spec_end_from(toks, i + 1, counter + 1)
    } else if toks[i] == sym_end_body() {
        if counter <= 0 {
            Err(TokenizerError::CouldNotFindEndOfBlock)
        } else if counter == 1 {
            Ok(i)
        } else {
            spec_end_from(toks, i + 1, counter - 1)
        }
    } else if counter == 0 {
        Ok(i)
    } else {
        spec_end_from(toks, i + 1, counter)
    }
}

/// Where the block that starts at `start` ends.
pub open spec fn spec_end_of_block(toks: Seq<Seq<char>>, start: int) -> Result<
    int,
    TokenizerError,
> {
    spec_end_from(toks, start, 0)
}

/// A found block end lies between the start and the end of the tokens.
pub proof fn lemma_end_from_range(toks: Seq<Seq<char>>, i: int, counter: int)
    requires
        0 <= i,
        spec_end_from(toks, i, counter) is Ok,
    ensures
        i <= spec_end_from(toks, i, counter)->Ok_0 < toks.len(),
    decreases toks.len() - i,
{
    if i < toks.len() {
        if toks[i] == sym_begin_body() {
            lemma_end_from_range(toks, i + 1, counter + 1);
        } else if toks[i] == sym_end_body() {
            if counter > 1 {
                lemma_end_from_range(toks, i + 1, counter - 1);
            }
        } else if counter != 0 {
            lemma_end_from_range(toks, i + 1, counter);
        }
    }
}

/// What seeding a scope with the remaining parameters does, in order.
pub open spec fn spec_add_params(
    vh: VariableHistoryM,
    params: Seq<VariableM>,
    i: int,
) -> Result<VariableHistoryM, TokenizerError>
    decreases params.len() - i,
{
    if i < 0 || i >= params.len() {
        Ok(vh)
    } else {
        match spec_add_variable(vh, params[i]) {
            Err(e) => Err(e),
            Ok(vh2) => spec_add_params(vh2, params, i + 1),
        }
    }
}

/// What splitting a parameter list on its commas and reading each group as a
/// typed parameter yields.
pub open spec fn spec_parse_params(toks: Seq<Seq<char>>) -> Result<Seq<VariableM>, TokenizerError>
    decreases toks.len(),
    via spec_parse_params_decreases
{
    match spec_find(toks, sym_comma()) {
        None => match spec_from_function_arg(toks) {
            Ok(v) => Ok(seq![v]),
            Err(e) => Err(e),
        },
        Some(c) => match spec_from_function_arg(toks.subrange(0, c)) {
            Err(e) => Err(e),
            Ok(v) => match spec_parse_params(toks.subrange(c + 1, toks.len() as int)) {
                Ok(rest) => Ok(seq![v] + rest),
                Err(e) => Err(e),
            },
        },
    }
}

#[via_fn]
proof fn spec_parse_params_decreases(toks: Seq<Seq<char>>) {
    if spec_find(toks, sym_comma()) is Some {
        lemma_find_from_range(toks, 0, sym_comma());
    }
}

/// What resolving a comma-separated capture list against the scope yields:
/// the slot of the first name of every group; a missing name is rejected.
pub open spec fn spec_parse_capture(vh: VariableHistoryM, toks: Seq<Seq<char>>) -> Result<
    Seq<int>,
    TokenizerError,
>
    decreases toks.len(),
    via spec_parse_capture_decreases
{
    match spec_find(toks, sym_comma()) {
        None => if toks.len() == 0 {
            Err(TokenizerError::VariableNotFound)
        } else {
            match spec_find_variable(vh.data, toks[0], 0) {
                None => Err(TokenizerError::VariableNotFound),
                Some(loc) => Ok(seq![loc]),
            }
        },
        Some(c) => if c == 0 {
            Err(TokenizerError::VariableNotFound)
        } else {
            match spec_find_variable(vh.data, toks[0], 0) {
                None => Err(TokenizerError::VariableNotFound),
                Some(loc) => match spec_parse_capture(
                    vh,
                    toks.subrange(c + 1, toks.len() as int),
                ) {
                    Ok(rest) => Ok(seq![loc] + rest),
                    Err(e) => Err(e),
                },
            }
        },
    }
}

#[via_fn]
proof fn spec_parse_capture_decreases(vh: VariableHistoryM, toks: Seq<Seq<char>>) {
    if spec_find(toks, sym_comma()) is Some {
        lemma_find_from_range(toks, 0, sym_comma());
    }
}

/// What parsing one variable declaration does: read the set-type group and
/// the initializer (against the scope before the declaration), then allocate
/// the variable's slot; yields the grown scope and the declaration node.
pub open spec fn spec_parse_variable(
    fh: Seq<FunctionSignatureM>,
    vh: VariableHistoryM,
    decl: Seq<Seq<char>>,
) -> Result<(VariableHistoryM, TokenM), TokenizerError> {
    match spec_find(decl, sym_equals()) {
        None => Err(TokenizerError::MissingDelimiter),
        Some(eqi) => match spec_find(decl, sym_begin_set_type()) {
            None => Err(TokenizerError::MissingDelimiter),
            Some(bst) => match spec_find(decl, sym_end_set_type()) {
                None => Err(TokenizerError::MissingDelimiter),
                Some(est) => if est <= bst + 1 || decl.len() < 2 {
                    Err(TokenizerError::MissingDelimiter)
                } else {
                    match spec_check_token_type(decl[bst + 1]) {
                        None => Err(TokenizerError::UnknownDataType),
                        Some(dt) => match spec_from_string_vec(
                            fh,
                            vh,
                            decl.subrange(eqi + 1, decl.len() as int),
                        ) {
                            Err(e) => Err(e),
                            Ok(value) => match spec_add_variable(
                                vh,
                                VariableM { name: decl[1], data_type: dt },
                            ) {
                                Err(e) => Err(e),
                                Ok(vh2) => match spec_find_variable(vh2.data, decl[1], 0) {
                                    None => Err(TokenizerError::VariableNotFound),
                                    Some(loc) => Ok(
                                        (
                                            vh2,
                                            TokenM::Declaration(
                                                DeclarationM {
                                                    name: decl[1],
                                                    location: loc,
                                                    data_type: dt,
                                                    value,
                                                },
                                            ),
                                        ),
                                    ),
                                },
                            },
                        },
                    }
                },
            },
        },
    }
}

/// What parsing one reassignment does: read the new value against the scope,
/// then require the target variable to exist.
pub open spec fn spec_parse_reassignment(
    fh: Seq<FunctionSignatureM>,
    vh: VariableHistoryM,
    toks: Seq<Seq<char>>,
) -> Result<TokenM, TokenizerError> {
    match spec_find(toks, sym_equals()) {
        None => Err(TokenizerError::MissingDelimiter),
        Some(eqi) => if toks.len() < 2 {
            Err(TokenizerError::MissingDelimiter)
        } else {
            match spec_from_string_vec(fh, vh, toks.subrange(eqi + 1, toks.len() as int)) {
                Err(e) => Err(e),
                Ok(value) => match spec_find_variable(vh.data, toks[1], 0) {
                    None => Err(TokenizerError::VariableNotFound),
                    Some(_) => Ok(
                        TokenM::Reassignment(
                            ReassignmentM { name: toks[1], new_assignment: value },
                        ),
                    ),
                },
            }
        },
    }
}

/// What parsing one return statement does: everything after the keyword is
/// the returned expression.
pub open spec fn spec_parse_return(
    fh: Seq<FunctionSignatureM>,
    vh: VariableHistoryM,
    toks: Seq<Seq<char>>,
) -> Result<TokenM, TokenizerError> {
    if toks.len() < 1 {
        Err(TokenizerError::MissingDelimiter)
    } else {
        match spec_from_string_vec(fh, vh, toks.subrange(1, toks.len() as int)) {
            Err(e) => Err(e),
            Ok(value) => Ok(TokenM::Return(ReturnM { assignment: value })),
        }
    }
}

/// What parsing one function definition does: read the name, parameter list
/// and return type, seed a fresh scope with the parameters in order, then
/// parse the body against that scope; the finished function carries the
/// scope as the body left it.
pub open spec fn spec_parse_function(st: ParserStateM, decl: Seq<Seq<char>>) -> Result<
    (ParserStateM, FunctionM),
    TokenizerError,
>
    decreases decl.len(), 0int, 0int,
    via spec_parse_function_decreases
{
    match spec_find(decl, sym_begin_body()) {
        None => Err(TokenizerError::MissingDelimiter),
        Some(bs) => match spec_find(decl, sym_return_this()) {
            None => Err(TokenizerError::MissingDelimiter),
            Some(rt) => match spec_find(decl, sym_begin_conditions()) {
                None => Err(TokenizerError::MissingDelimiter),
                Some(bc) => match spec_find(decl, sym_end_conditions()) {
                    None => Err(TokenizerError::MissingDelimiter),
                    Some(ec) => if ec < bc + 1 || rt + 1 >= decl.len() || decl.len() < 2 {
                        Err(TokenizerError::MissingDelimiter)
                    } else {
                        let params_r = if bc + 1 == ec {
                            Ok(Seq::<VariableM>::empty())
                        } else {
                            spec_parse_params(decl.subrange(bc + 1, ec))
                        };
                        match params_r {
                            Err(e) => Err(e),
                            Ok(params) => match spec_check_token_type(decl[rt + 1]) {
                                None => Err(TokenizerError::UnknownDataType),
                                Some(return_type) => {
                                    let vh0 = VariableHistoryM {
                                        data: seq![None],
                                        step: MEMORY_STEP as int,
                                    };
                                    match spec_add_params(vh0, params, 0) {
                                        Err(e) => Err(e),
                                        Ok(vh1) => match spec_gen_block(
                                            st,
                                            vh1,
                                            decl.subrange(bs + 1, decl.len() as int),
                                            0,
                                        ) {
                                            Err(e) => Err(e),
                                            Ok((st2, vh2, body)) => Ok(
                                                (
                                                    st2,
                                                    FunctionM {
                                                        name: decl[1],
                                                        return_type,
                                                        arguments: params,
                                                        variable_history: vh2,
                                                        functionaliy: body,
                                                    },
                                                ),
                                            ),
                                        },
                                    }
                                },
                            },
                        }
                    },
                },
            },
        },
    }
}

#[via_fn]
proof fn spec_parse_function_decreases(st: ParserStateM, decl: Seq<Seq<char>>) {
    if spec_find(decl, sym_begin_body()) is Some {
        lemma_find_from_range(decl, 0, sym_begin_body());
    }
    if spec_find(decl, sym_begin_conditions()) is Some {
        lemma_find_from_range(decl, 0, sym_begin_conditions());
    }
    if spec_find(decl, sym_end_conditions()) is Some {
        lemma_find_from_range(decl, 0, sym_end_conditions());
    }
}

/// What parsing one conditional statement does: resolve the capture list,
/// then read enclosure-headed branches in order, each condition checked
/// against the capture list, each body parsed against the enclosing scope;
/// an untagged branch anywhere but last is rejected. The statement takes the
/// current conditional index and advances the counter.
pub open spec fn spec_parse_conditional_statement(
    st: ParserStateM,
    vh: VariableHistoryM,
    cs: Seq<Seq<char>>,
) -> Result<(ParserStateM, VariableHistoryM, TokenM), TokenizerError>
    decreases cs.len(), 0int, cs.len() + 1,
    via spec_parse_conditional_statement_decreases
{
    match spec_find(cs, sym_begin_capture()) {
        None => Err(TokenizerError::MissingDelimiter),
        Some(bcc) => match spec_find(cs, sym_end_capture()) {
            None => Err(TokenizerError::MissingDelimiter),
            Some(ecc) => if ecc < bcc + 1 {
                Err(TokenizerError::MissingDelimiter)
            } else {
                let active_r = if bcc + 1 == ecc {
                    Ok(Seq::<int>::empty())
                } else {
                    spec_parse_capture(vh, cs.subrange(bcc + 1, ecc))
                };
                match active_r {
                    Err(e) => Err(e),
                    Ok(active) => match spec_find(cs, sym_begin_enclosure()) {
                        None => Err(TokenizerError::MissingDelimiter),
                        Some(first_enc) => {
                            let st1 = ParserStateM {
                                function_history: st.function_history,
                                conditional_count: if st.conditional_count + 1 <= usize::MAX as int {
                                    st.conditional_count + 1
                                } else {
                                    st.conditional_count
                                },
                            };
                            match spec_parse_branches(st1, vh, cs, first_enc, active) {
                                Err(e) => Err(e),
                                Ok((st2, vh2, fields)) => Ok(
                                    (
                                        st2,
                                        vh2,
                                        TokenM::ConditionalStatement(
                                            ConditionalStatementM {
                                                index: st.conditional_count,
                                                active_variables: active,
                                                condition_fields: fields,
                                            },
                                        ),
                                    ),
                                ),
                            }
                        },
                    },
                }
            },
        },
    }
}

#[via_fn]
proof fn spec_parse_conditional_statement_decreases(
    st: ParserStateM,
    vh: VariableHistoryM,
    cs: Seq<Seq<char>>,
) {
    if spec_find(cs, sym_begin_capture()) is Some {
        lemma_find_from_range(cs, 0, sym_begin_capture());
    }
    if spec_find(cs, sym_end_capture()) is Some {
        lemma_find_from_range(cs, 0, sym_end_capture());
    }
    if spec_find(cs, sym_begin_enclosure()) is Some {
        lemma_find_from_range(cs, 0, sym_begin_enclosure());
    }
}

/// What parsing the branch chain from the enclosure at `i` yields: each
/// enclosure holds the else marker or a condition, a block follows, and the
/// chain continues at the next enclosure after the block.
pub open spec fn spec_parse_branches(
    st: ParserStateM,
    vh: VariableHistoryM,
    cs: Seq<Seq<char>>,
    i: int,
    active: Seq<int>,
) -> Result<
    (ParserStateM, VariableHistoryM, Seq<(Option<AssignmentM>, Seq<TokenM>)>),
    TokenizerError,
>
    decreases cs.len(), 0int, cs.len() - i,
    via spec_parse_branches_decreases
{
    match spec_find_from(cs, i + 1, sym_end_enclosure()) {
        None => Err(TokenizerError::MissingDelimiter),
        Some(ee) => {
            let enclosure = cs.subrange(i + 1, ee);
            let cond_r = if enclosure =~= seq![kw_else()] {
                Ok(None)
            } else {
                match spec_from_string_vec(st.function_history, vh, enclosure) {
                    Ok(a) => Ok(Some(a)),
                    Err(e) => Err(e),
                }
            };
            match cond_r {
                Err(e) => Err(e),
                Ok(cond) => match spec_find_from(cs, i + 1, sym_begin_body()) {
                    None => Err(TokenizerError::MissingDelimiter),
                    Some(bs) => match spec_end_of_block(cs, bs) {
                        Err(e) => Err(e),
                        Ok(be) => if be < bs + 1 {
                            Err(TokenizerError::MissingDelimiter)
                        } else {
                            match spec_gen_block(st, vh, cs.subrange(bs + 1, be), 0) {
                                Err(e) => Err(e),
                                Ok((st2, vh2, body)) => if cond matches Some(a)
                                    && !spec_all_vars_in(a, active) {
                                    Err(TokenizerError::VarNotUsedInComparison)
                                } else {
                                    match spec_find_from(cs, be + 1, sym_begin_enclosure()) {
                                        None => Ok((st2, vh2, seq![(cond, body)])),
                                        Some(next) => if cond is None {
                                            Err(TokenizerError::ElseBranchNotLast)
                                        } else {
                                            match spec_parse_branches(st2, vh2, cs, next, active) {
                                                Err(e) => Err(e),
                                                Ok((st3, vh3, rest)) => Ok(
                                                    (st3, vh3, seq![(cond, body)] + rest),
                                                ),
                                            }
                                        },
                                    }
                                },
                            }
                        },
                    },
                },
            }
        },
    }
}

#[via_fn]
proof fn spec_parse_branches_decreases(
    st: ParserStateM,
    vh: VariableHistoryM,
    cs: Seq<Seq<char>>,
    i: int,
    active: Seq<int>,
) {
    if i + 1 >= 0 {
        if spec_find_from(cs, i + 1, sym_end_enclosure()) is Some {
            lemma_find_from_range(cs, i + 1, sym_end_enclosure());
            if spec_find_from(cs, i + 1, sym_begin_body()) is Some {
                lemma_find_from_range(cs, i + 1, sym_begin_body());
                let bs = spec_find_from(cs, i + 1, sym_begin_body())->Some_0;
                if spec_end_of_block(cs, bs) is Ok {
                    lemma_end_from_range(cs, bs, 0);
                    let be = spec_end_of_block(cs, bs)->Ok_0;
                    if spec_find_from(cs, be + 1, sym_begin_enclosure()) is Some {
                        lemma_find_from_range(cs, be + 1, sym_begin_enclosure());
                    }
                }
            }
        }
    }
}

/// What scanning a statement block from index `i` yields: declarations,
/// reassignments, returns, nested functions and conditional statements, each
/// parsed at its keyword, everything else skipped.
pub open spec fn spec_gen_block(
    st: ParserStateM,
    vh: VariableHistoryM,
    content: Seq<Seq<char>>,
    i: int,
) -> Result<(ParserStateM, VariableHistoryM, Seq<TokenM>), TokenizerError>
    decreases content.len(), 1int, content.len() - i,
    via spec_gen_block_decreases
{
    if i < 0 {
        Err(TokenizerError::MissingDelimiter)
    } else if i >= content.len() {
        Ok((st, vh, Seq::empty()))
    } else if content[i] == kw_variable() {
        match spec_find_from(content, i + 1, sym_end_assignment()) {
            None => Err(TokenizerError::MissingDelimiter),
            Some(stop) => match spec_parse_variable(
                st.function_history,
                vh,
                content.subrange(i, stop),
            ) {
                Err(e) => Err(e),
                Ok((vh2, tok)) => match spec_gen_block(st, vh2, content, stop) {
                    Err(e) => Err(e),
                    Ok((st2, vh3, rest)) => Ok((st2, vh3, seq![tok] + rest)),
                },
            },
        }
    } else if content[i] == kw_reassignment() {
        match spec_find_from(content, i + 1, sym_end_assignment()) {
            None => Err(TokenizerError::MissingDelimiter),
            Some(stop) => match spec_parse_reassignment(
                st.function_history,
                vh,
                content.subrange(i, stop),
            ) {
                Err(e) => Err(e),
                Ok(tok) => match spec_gen_block(st, vh, content, stop) {
                    Err(e) => Err(e),
                    Ok((st2, vh3, rest)) => Ok((st2, vh3, seq![tok] + rest)),
                },
            },
        }
    } else if content[i] == kw_return() {
        match spec_find_from(content, i + 1, sym_end_assignment()) {
            None => Err(TokenizerError::MissingDelimiter),
            Some(stop) => match spec_parse_return(
                st.function_history,
                vh,
                content.subrange(i, stop),
            ) {
                Err(e) => Err(e),
                Ok(tok) => match spec_gen_block(st, vh, content, stop) {
                    Err(e) => Err(e),
                    Ok((st2, vh3, rest)) => Ok((st2, vh3, seq![tok] + rest)),
                },
            },
        }
    } else if content[i] == kw_function() {
        match spec_find_from(content, i + 1, sym_begin_body()) {
            None => Err(TokenizerError::MissingDelimiter),
            Some(bs) => match spec_end_of_block(content, bs) {
                Err(e) => Err(e),
                Ok(stop) => match spec_parse_function(st, content.subrange(i, stop + 1)) {
                    Err(e) => Err(e),
                    Ok((st2, fm)) => {
                        let st3 = ParserStateM {
                            function_history: st2.function_history.push(
                                FunctionSignatureM { name: fm.name, return_type: fm.return_type },
                            ),
                            conditional_count: st2.conditional_count,
                        };
                        match spec_gen_block(st3, vh, content, stop) {
                            Err(e) => Err(e),
                            Ok((st4, vh3, rest)) => Ok(
                                (st4, vh3, seq![TokenM::Function(fm)] + rest),
                            ),
                        }
                    },
                },
            },
        }
    } else if content[i] == kw_conditional() {
        match spec_find_from(content, i + 1, sym_begin_body()) {
            None => Err(TokenizerError::MissingDelimiter),
            Some(bs) => match spec_end_of_block(content, bs) {
                Err(e) => Err(e),
                Ok(stop) => match spec_parse_conditional_statement(
                    st,
                    vh,
                    content.subrange(i, stop + 1),
                ) {
                    Err(e) => Err(e),
                    Ok((st2, vh2, tok)) => match spec_gen_block(st2, vh2, content, stop) {
                        Err(e) => Err(e),
                        Ok((st3, vh3, rest)) => Ok((st3, vh3, seq![tok] + rest)),
                    },
                },
            },
        }
    } else {
        spec_gen_block(st, vh, content, i + 1)
    }
}

#[via_fn]
proof fn spec_gen_block_decreases(
    st: ParserStateM,
    vh: VariableHistoryM,
    content: Seq<Seq<char>>,
    i: int,
) {
    if 0 <= i < content.len() {
        if spec_find_from(content, i + 1, sym_end_assignment()) is Some {
            lemma_find_from_range(content, i + 1, sym_end_assignment());
        }
        if spec_find_from(content, i + 1, sym_begin_body()) is Some {
            lemma_find_from_range(content, i + 1, sym_begin_body());
            let bs = spec_find_from(content, i + 1, sym_begin_body())->Some_0;
            if spec_end_of_block(content, bs) is Ok {
                lemma_end_from_range(content, bs, 0);
            }
        }
    }
}

/// What scanning the top level from index `i` yields: function definitions
/// are parsed and registered; any other statement keyword is rejected;
/// anything else is skipped.
pub open spec fn spec_gen_top(st: ParserStateM, content: Seq<Seq<char>>, i: int) -> Result<
    (ParserStateM, Seq<TokenM>),
    TokenizerError,
>
    decreases content.len(), 1int, content.len() - i,
    via spec_gen_top_decreases
{
    if i < 0 {
        Err(TokenizerError::MissingDelimiter)
    } else if i >= content.len() {
        Ok((st, Seq::empty()))
    } else if content[i] == kw_function() {
        match spec_find_from(content, i + 1, sym_begin_body()) {
            None => Err(TokenizerError::MissingDelimiter),
            Some(bs) => match spec_end_of_block(content, bs) {
                Err(e) => Err(e),
                Ok(stop) => match spec_parse_function(st, content.subrange(i, stop + 1)) {
                    Err(e) => Err(e),
                    Ok((st2, fm)) => {
                        let st3 = ParserStateM {
                            function_history: st2.function_history.push(
                                FunctionSignatureM { name: fm.name, return_type: fm.return_type },
                            ),
                            conditional_count: st2.conditional_count,
                        };
                        match spec_gen_top(st3, content, stop) {
                            Err(e) => Err(e),
                            Ok((st4, rest)) => Ok((st4, seq![TokenM::Function(fm)] + rest)),
                        }
                    },
                },
            },
        }
    } else if content[i] == kw_variable() || content[i] == kw_reassignment() || content[i]
        == kw_return() || content[i] == kw_conditional() {
        Err(TokenizerError::StatementOutsideFunction)
    } else {
        spec_gen_top(st, content, i + 1)
    }
}

#[via_fn]
proof fn spec_gen_top_decreases(st: ParserStateM, content: Seq<Seq<char>>, i: int) {
    if 0 <= i < content.len() {
        if spec_find_from(content, i + 1, sym_begin_body()) is Some {
            lemma_find_from_range(content, i + 1, sym_begin_body());
            let bs = spec_find_from(content, i + 1, sym_begin_body())->Some_0;
            if spec_end_of_block(content, bs) is Ok {
                lemma_end_from_range(content, bs, 0);
            }
        }
    }
}

/// A parsed branch chain is well formed: only its last branch may be
/// untagged (the else branch), and every condition reads only variables from
/// the capture list. A source stream violating either is rejected before any
/// code is generated.
pub proof fn lemma_branches_well_formed(
    st: ParserStateM,
    vh: VariableHistoryM,
    cs: Seq<Seq<char>>,
    i: int,
    active: Seq<int>,
)
    requires
        spec_parse_branches(st, vh, cs, i, active) is Ok,
    ensures
        ({
            let fields = spec_parse_branches(st, vh, cs, i, active)->Ok_0.2;
            &&& forall|k: int| 0 <= k < fields.len() - 1 ==> fields[k].0 is Some
            &&& forall|k: int|
                0 <= k < fields.len() ==> (#[trigger] fields[k].0 matches Some(a)
                    ==> spec_all_vars_in(a, active))
        }),
    decreases cs.len() - i,
{
    let ee = spec_find_from(cs, i + 1, sym_end_enclosure())->Some_0;
    let enclosure = cs.subrange(i + 1, ee);
    let cond = if enclosure =~= seq![kw_else()] {
        None
    } else {
        Some(spec_from_string_vec(st.function_history, vh, enclosure)->Ok_0)
    };
    let bs = spec_find_from(cs, i + 1, sym_begin_body())->Some_0;
    let be = spec_end_of_block(cs, bs)->Ok_0;
    let inner = spec_gen_block(st, vh, cs.subrange(bs + 1, be), 0)->Ok_0;
    let fields = spec_parse_branches(st, vh, cs, i, active)->Ok_0.2;
    lemma_find_from_range(cs, i + 1, sym_end_enclosure());
    lemma_find_from_range(cs, i + 1, sym_begin_body());
    lemma_end_from_range(cs, bs, 0);
    match spec_find_from(cs, be + 1, sym_begin_enclosure()) {
        None => {
            assert(fields =~= seq![(cond, inner.2)]);
        },
        Some(next) => {
            lemma_find_from_range(cs, be + 1, sym_begin_enclosure());
            lemma_branches_well_formed(inner.0, inner.1, cs, next, active);
            let rest = spec_parse_branches(inner.0, inner.1, cs, next, active)->Ok_0.2;
            assert(fields =~= seq![(cond, inner.2)] + rest);
            assert(forall|k: int| 1 <= k < fields.len() ==> fields[k] == rest[k - 1]);
        },
    }
}

/// A parsed conditional statement is well formed: only its last branch may
/// be the else branch, and every condition reads only variables from its
/// capture list.
pub proof fn lemma_conditional_statement_well_formed(
    st: ParserStateM,
    vh: VariableHistoryM,
    cs: Seq<Seq<char>>,
)
    requires
        spec_parse_conditional_statement(st, vh, cs) is Ok,
    ensures
        ({
            let tok = spec_parse_conditional_statement(st, vh, cs)->Ok_0.2;
            &&& tok matches TokenM::ConditionalStatement(c)
            &&& forall|k: int|
                0 <= k < (tok->ConditionalStatement_0).condition_fields.len() - 1 ==> (
                tok->ConditionalStatement_0).condition_fields[k].0 is Some
            &&& forall|k: int|
                0 <= k < (tok->ConditionalStatement_0).condition_fields.len() ==> (#[trigger] (
                tok->ConditionalStatement_0).condition_fields[k].0 matches Some(a)
                    ==> spec_all_vars_in(a, (tok->ConditionalStatement_0).active_variables))
        }),
{
    let bcc = spec_find(cs, sym_begin_capture())->Some_0;
    let ecc = spec_find(cs, sym_end_capture())->Some_0;
    let active = if bcc + 1 == ecc {
        Seq::<int>::empty()
    } else {
        spec_parse_capture(vh, cs.subrange(bcc + 1, ecc))->Ok_0
    };
    let first_enc = spec_find(cs, sym_begin_enclosure())->Some_0;
    let st1 = ParserStateM {
        function_history: st.function_history,
        conditional_count: if st.conditional_count + 1 <= usize::MAX as int {
            st.conditional_count + 1
        } else {
            st.conditional_count
        },
    };
    lemma_branches_well_formed(st1, vh, cs, first_enc, active);
}

/// `tviews` of a one-element sequence.
proof fn lemma_tviews_singleton(t: Token)
    ensures
        tviews(seq![t]) == seq![tview(t)],
{
    let s = seq![t];
    assert(s.subrange(0, 0) =~= Seq::<Token>::empty());
    assert(tviews(Seq::<Token>::empty()) =~= Seq::<TokenM>::empty());
    assert(tviews(s) == tviews(s.subrange(0, 0)).push(tview(t)));
    assert(tviews(s) =~= seq![tview(t)]);
}

/// `tviews` of a sequence with one element prepended is `tview` of that
/// element prepended to `tviews` of the rest.
proof fn lemma_tviews_cons(t: Token, rest: Seq<Token>)
    ensures
        tviews(seq![t] + rest) == seq![tview(t)] + tviews(rest),
    decreases rest.len(),
{
    let s = seq![t] + rest;
    if rest.len() == 0 {
        assert(s =~= seq![t]);
        lemma_tviews_singleton(t);
        assert(tviews(rest) =~= Seq::<TokenM>::empty());
        assert(tviews(s) =~= seq![tview(t)] + tviews(rest));
    } else {
        assert(s.subrange(0, s.len() - 1) =~= seq![t] + rest.subrange(0, rest.len() - 1));
        lemma_tviews_cons(t, rest.subrange(0, rest.len() - 1));
        assert(s[s.len() - 1] == rest[rest.len() - 1]);
        assert(seq![tview(t)] + tviews(rest) =~= (seq![tview(t)] + tviews(
            rest.subrange(0, rest.len() - 1),
        )).push(tview(rest[rest.len() - 1])));
    }
}

/// `cfviews` of a one-element sequence.
proof fn lemma_cfviews_singleton(f: (Option<crate::tokenizer::enumerators::Assignment>, Vec<Token>))
    ensures
        cfviews(seq![f]) == seq![
            (
                match f.0 {
                    Some(a) => Some(aview(a)),
                    None => None,
                },
                tviews(f.1@),
            ),
        ],
{
    let s = seq![f];
    assert(s.subrange(0, 0) =~= Seq::<
        (Option<crate::tokenizer::enumerators::Assignment>, Vec<Token>),
    >::empty());
    assert(cfviews(
        Seq::<(Option<crate::tokenizer::enumerators::Assignment>, Vec<Token>)>::empty(),
    ) =~= Seq::<(Option<AssignmentM>, Seq<TokenM>)>::empty());
    assert(cfviews(s) =~= seq![
        (
            match f.0 {
                Some(a) => Some(aview(a)),
                None => None,
            },
            tviews(f.1@),
        ),
    ]);
}

/// `cfviews` of a sequence with one element prepended.
proof fn lemma_cfviews_cons(
    f: (Option<crate::tokenizer::enumerators::Assignment>, Vec<Token>),
    rest: Seq<(Option<crate::tokenizer::enumerators::Assignment>, Vec<Token>)>,
)
    ensures
        cfviews(seq![f] + rest) == seq![
            (
                match f.0 {
                    Some(a) => Some(aview(a)),
                    None => None,
                },
                tviews(f.1@),
            ),
        ] + cfviews(rest),
    decreases rest.len(),
{
    let s = seq![f] + rest;
    let fm = (
        match f.0 {
            Some(a) => Some(aview(a)),
            None => None,
        },
        tviews(f.1@),
    );
    if rest.len() == 0 {
        assert(s =~= seq![f]);
        lemma_cfviews_singleton(f);
        assert(cfviews(rest) =~= Seq::<(Option<AssignmentM>, Seq<TokenM>)>::empty());
        assert(cfviews(s) =~= seq![fm] + cfviews(rest));
    } else {
        assert(s.subrange(0, s.len() - 1) =~= seq![f] + rest.subrange(0, rest.len() - 1));
        lemma_cfviews_cons(f, rest.subrange(0, rest.len() - 1));
        assert(s[s.len() - 1] == rest[rest.len() - 1]);
        let lastm = (
            match rest[rest.len() - 1].0 {
                Some(a) => Some(aview(a)),
                None => None,
            },
            tviews(rest[rest.len() - 1].1@),
        );
        assert(seq![fm] + cfviews(rest) =~= (seq![fm] + cfviews(
            rest.subrange(0, rest.len() - 1),
        )).push(lastm));
    }
}

/// Splits a parameter list on its commas and reads each group as a typed
/// parameter.
fn parse_params_list(toks: Vec<String>) -> (r: Result<Vec<Variable>, TokenizerError>)
    ensures
        match r {
            Ok(v) => spec_parse_params(crate::util::tok_views(toks@)) == Ok::<_, TokenizerError>(
                crate::tokenizer::structures::vars_view(v@),
            ),
            Err(e) => spec_parse_params(crate::util::tok_views(toks@)) == Err::<Seq<VariableM>, _>(
                e,
            ),
        },
    decreases toks@.len(),
{
    let ghost tv = crate::util::tok_views(toks@);
    let syntax_elements = SyntaxElements::init();
    match crate::util::find(&toks, syntax_elements.assignment_symbols[10].1.as_str()) {
        None => match Variable::from_function_arg(&toks) {
            Ok(v) => {
                let mut params: Vec<Variable> = Vec::new();
                params.push(v);
                proof {
                    assert(crate::tokenizer::structures::vars_view(params@) =~= seq![
                        params@[0]@,
                    ]);
                }
                Ok(params)
            },
            Err(e) => Err(e),
        },
        Some(c) => {
            proof {
                lemma_find_from_range(tv, 0, sym_comma());
            }
            let n = toks.len();
            let group = crate::util::subvec(&toks, 0, c);
            let rest_toks = crate::util::subvec(&toks, c + 1, n);
            proof {
                crate::util::lemma_tok_views_subrange(toks@, 0, c as int);
                crate::util::lemma_tok_views_subrange(toks@, c + 1, toks@.len() as int);
            }
            let v = match Variable::from_function_arg(&group) {
                Ok(v) => v,
                Err(e) => {
                    return Err(e);
                },
            };
            let mut rest = match parse_params_list(rest_toks) {
                Ok(ps) => ps,
                Err(e) => {
                    return Err(e);
                },
            };
            let ghost rest_snap = rest@;
            let ghost vg = v@;
            rest.insert(0, v);
            proof {
                assert(rest@ =~= seq![rest@[0]] + rest_snap);
                assert(crate::tokenizer::structures::vars_view(rest@) =~= seq![vg]
                    + crate::tokenizer::structures::vars_view(rest_snap));
            }
            Ok(rest)
        },
    }
}

/// Resolves a comma-separated capture list against the scope: the slot of the
/// first name of every group.
fn parse_capture_list(scope: &VariableHistory, toks: Vec<String>) -> (r: Result<
    Vec<usize>,
    TokenizerError,
>)
    ensures
        match r {
            Ok(v) => spec_parse_capture(scope@, crate::util::tok_views(toks@)) == Ok::<
                _,
                TokenizerError,
            >(crate::util::usizes_view(v@)),
            Err(e) => spec_parse_capture(scope@, crate::util::tok_views(toks@)) == Err::<
                Seq<int>,
                _,
            >(e),
        },
    decreases toks@.len(),
{
    let ghost tv = crate::util::tok_views(toks@);
    let syntax_elements = SyntaxElements::init();
    match crate::util::find(&toks, syntax_elements.assignment_symbols[10].1.as_str()) {
        None => {
            if toks.len() == 0 {
                return Err(TokenizerError::VariableNotFound);
            }
            match scope.find_variable(toks[0].as_str()) {
                None => Err(TokenizerError::VariableNotFound),
                Some(loc) => {
                    let mut v: Vec<usize> = Vec::new();
                    v.push(loc);
                    proof {
                        assert(crate::util::usizes_view(v@) =~= seq![loc as int]);
                    }
                    Ok(v)
                },
            }
        },
        Some(c) => {
            proof {
                lemma_find_from_range(tv, 0, sym_comma());
            }
            if c == 0 {
                return Err(TokenizerError::VariableNotFound);
            }
            match scope.find_variable(toks[0].as_str()) {
                None => Err(TokenizerError::VariableNotFound),
                Some(loc) => {
                    let n = toks.len();
                    let rest_toks = crate::util::subvec(&toks, c + 1, n);
                    proof {
                        crate::util::lemma_tok_views_subrange(toks@, c + 1, toks@.len() as int);
                    }
                    let mut rest = match parse_capture_list(scope, rest_toks) {
                        Ok(v) => v,
                        Err(e) => {
                            return Err(e);
                        },
                    };
                    let ghost rest_snap = rest@;
                    rest.insert(0, loc);
                    proof {
                        assert(rest@ =~= seq![loc] + rest_snap);
                        assert(crate::util::usizes_view(rest@) =~= seq![loc as int]
                            + crate::util::usizes_view(rest_snap));
                    }
                    Ok(rest)
                },
            }
        },
    }
}

/// Seeds a fresh scope table with the parameters, in order.
#[verifier::loop_isolation(false)]
fn seed_params(params: &Vec<Variable>) -> (r: Result<VariableHistory, TokenizerError>)
    ensures
        match r {
            Ok(vh) => spec_add_params(
                VariableHistoryM { data: seq![None], step: MEMORY_STEP as int },
                crate::tokenizer::structures::vars_view(params@),
                0,
            ) == Ok::<_, TokenizerError>(vh@),
            Err(e) => spec_add_params(
                VariableHistoryM { data: seq![None], step: MEMORY_STEP as int },
                crate::tokenizer::structures::vars_view(params@),
                0,
            ) == Err::<VariableHistoryM, _>(e),
        },
{
    let ghost pv = crate::tokenizer::structures::vars_view(params@);
    let mut variable_history = VariableHistory::init(MEMORY_STEP);
    proof {
        assert(variable_history@ == (VariableHistoryM {
            data: seq![None],
            step: MEMORY_STEP as int,
        }));
    }
    let ghost vh0 = variable_history@;
    let mut k: usize = 0;
    while k < params.len()
        invariant
            0 <= k <= params@.len(),
            spec_add_params(vh0, pv, 0) == spec_add_params(variable_history@, pv, k as int),
        decreases params@.len() - k,
    {
        let v = Variable { name: params[k].name.clone(), data_type: params[k].data_type };
        proof {
            assert(v@ == pv[k as int]);
        }
        match variable_history.add_variable(v) {
            Ok(()) => {},
            Err(e) => {
                return Err(e);
            },
        }
        k = k + 1;
    }
    Ok(variable_history)
}

impl Tokenizer {
    /// A fresh parser: no statements, no functions, the counter at zero.
    pub fn init() -> (r: Self)
        ensures
            r@.token_tree =~= Seq::<TokenM>::empty(),
            r@.function_history =~= Seq::<FunctionSignatureM>::empty(),
            r@.conditional_count == 0,
            r.syntax_elements.wf(),
    {
        Tokenizer {
            token_tree: Vec::new(),
            function_history: FunctionHistory::init(),
            syntax_elements: SyntaxElements::init(),
            conditional_count: 0,
        }
    }

    /// Parses a whole token stream and stores the finished statement tree.
    pub fn create_token_tree(&mut self, optimized_file_content: &Vec<String>) -> (r: Result<
        (),
        TokenizerError,
    >)
        requires
            old(self).syntax_elements.wf(),
        ensures
            final (self).syntax_elements == old(self).syntax_elements,
            match r {
                Ok(()) => spec_gen_top(
                    st_of(old(self)@),
                    crate::util::tok_views(optimized_file_content@),
                    0,
                ) == Ok::<_, TokenizerError>(
                    (st_of(final (self)@), final (self)@.token_tree),
                ),
                Err(e) => spec_gen_top(
                    st_of(old(self)@),
                    crate::util::tok_views(optimized_file_content@),
                    0,
                ) == Err::<(ParserStateM, Seq<TokenM>), _>(e),
            },
    {
        let token_tree = match self.generate_token_tree(optimized_file_content) {
            Ok(tt) => tt,
            Err(e) => {
                return Err(e);
            },
        };
        self.token_tree = token_tree;
        Ok(())
    }

    /// Parses the top level of a token stream: function definitions, each
    /// registered in the function table once its body has finished parsing.
    pub fn generate_token_tree(&mut self, content_to_tokenize: &Vec<String>) -> (r: Result<
        Vec<Token>,
        TokenizerError,
    >)
        requires
            old(self).syntax_elements.wf(),
        ensures
            final (self).syntax_elements == old(self).syntax_elements,
            match r {
                Ok(tokens) => spec_gen_top(
                    st_of(old(self)@),
                    crate::util::tok_views(content_to_tokenize@),
                    0,
                ) == Ok::<_, TokenizerError>((st_of(final (self)@), tviews(tokens@))),
                Err(e) => spec_gen_top(
                    st_of(old(self)@),
                    crate::util::tok_views(content_to_tokenize@),
                    0,
                ) == Err::<(ParserStateM, Seq<TokenM>), _>(e),
            },
    {
        self.generate_top_from(content_to_tokenize, 0)
    }

    /// Scans the top level from index `i`.
    #[verifier::rlimit(100)]
    fn generate_top_from(&mut self, content: &Vec<String>, i: usize) -> (r: Result<
        Vec<Token>,
        TokenizerError,
    >)
        requires
            old(self).syntax_elements.wf(),
        ensures
            final (self).syntax_elements == old(self).syntax_elements,
            match r {
                Ok(tokens) => spec_gen_top(
                    st_of(old(self)@),
                    crate::util::tok_views(content@),
                    i as int,
                ) == Ok::<_, TokenizerError>((st_of(final (self)@), tviews(tokens@))),
                Err(e) => spec_gen_top(
                    st_of(old(self)@),
                    crate::util::tok_views(content@),
                    i as int,
                ) == Err::<(ParserStateM, Seq<TokenM>), _>(e),
            },
        decreases content@.len(), 1int, content@.len() - i,
    {
        let ghost toks = crate::util::tok_views(content@);
        if i >= content.len() {
            let tokens: Vec<Token> = Vec::new();
            proof {
                assert(tviews(tokens@) =~= Seq::<TokenM>::empty());
            }
            return Ok(tokens);
        }
        let current_word = &content[i];
        if crate::util::str_eq(
            current_word.as_str(),
            self.syntax_elements.declaration_names[1].1.as_str(),
        ) {
            // A function definition: its block runs from the first begin-body
            // symbol to the balancing end-body symbol.
            let block_start_index = match crate::util::find_after_index(
                content,
                i,
                self.syntax_elements.assignment_symbols[1].1.as_str(),
            ) {
                Some(x) => x,
                None => {
                    return Err(TokenizerError::MissingDelimiter);
                },
            };
            proof {
                lemma_find_from_range(toks, i + 1, sym_begin_body());
            }
            let declaration_stop_index = match self.find_end_of_block(content, block_start_index) {
                Ok(x) => x,
                Err(e) => {
                    return Err(e);
                },
            };
            proof {
                lemma_end_from_range(toks, block_start_index as int, 0);
            }
            let declaration_to_evaluate = crate::util::subvec(
                content,
                i,
                declaration_stop_index + 1,
            );
            proof {
                crate::util::lemma_tok_views_subrange(
                    content@,
                    i as int,
                    declaration_stop_index + 1,
                );
            }
            let function = match self.parse_function(declaration_to_evaluate) {
                Ok(f) => f,
                Err(e) => {
                    return Err(e);
                },
            };
            self.function_history.add_function(
                crate::tokenizer::structures::FunctionSignature {
                    name: function.name.clone(),
                    return_type: function.return_type,
                },
            );
            let mut rest = match self.generate_top_from(content, declaration_stop_index) {
                Ok(ts) => ts,
                Err(e) => {
                    return Err(e);
                },
            };
            let ghost ftok = Token::Function(function);
            let ghost rest_snap = rest@;
            rest.insert(0, Token::Function(function));
            proof {
                assert(rest@ =~= seq![rest@[0]] + rest_snap);
                lemma_tviews_cons(rest@[0], rest_snap);
            }
            return Ok(rest);
        }
        if crate::util::str_eq(
            current_word.as_str(),
            self.syntax_elements.declaration_names[0].1.as_str(),
        ) || crate::util::str_eq(
            current_word.as_str(),
            self.syntax_elements.declaration_names[3].1.as_str(),
        ) || crate::util::str_eq(
            current_word.as_str(),
            self.syntax_elements.declaration_names[2].1.as_str(),
        ) || crate::util::str_eq(
            current_word.as_str(),
            self.syntax_elements.declaration_names[4].1.as_str(),
        ) {
            return Err(TokenizerError::StatementOutsideFunction);
        }
        self.generate_top_from(content, i + 1)
    }

    /// Scans a statement block from index `i` against the enclosing scope.
    #[verifier::rlimit(100)]
    fn generate_block_tree(
        &mut self,
        scope: &mut VariableHistory,
        content: &Vec<String>,
        i: usize,
    ) -> (r: Result<Vec<Token>, TokenizerError>)
        requires
            old(self).syntax_elements.wf(),
        ensures
            final (self).syntax_elements == old(self).syntax_elements,
            match r {
                Ok(tokens) => spec_gen_block(
                    st_of(old(self)@),
                    old(scope)@,
                    crate::util::tok_views(content@),
                    i as int,
                ) == Ok::<_, TokenizerError>(
                    (st_of(final (self)@), final (scope)@, tviews(tokens@)),
                ),
                Err(e) => spec_gen_block(
                    st_of(old(self)@),
                    old(scope)@,
                    crate::util::tok_views(content@),
                    i as int,
                ) == Err::<(ParserStateM, VariableHistoryM, Seq<TokenM>), _>(e),
            },
        decreases content@.len(), 1int, content@.len() - i,
    {
        let ghost toks = crate::util::tok_views(content@);
        if i >= content.len() {
            let tokens: Vec<Token> = Vec::new();
            proof {
                assert(tviews(tokens@) =~= Seq::<TokenM>::empty());
            }
            return Ok(tokens);
        }
        let current_word = &content[i];
        if crate::util::str_eq(
            current_word.as_str(),
            self.syntax_elements.declaration_names[0].1.as_str(),
        ) {
            // A variable declaration runs to the next end-of-statement symbol.
            let declaration_stop_index = match crate::util::find_after_index(
                content,
                i,
                self.syntax_elements.assignment_symbols[8].1.as_str(),
            ) {
                Some(x) => x,
                None => {
                    return Err(TokenizerError::MissingDelimiter);
                },
            };
            proof {
                lemma_find_from_range(toks, i + 1, sym_end_assignment());
            }
            let declaration_to_evaluate = crate::util::subvec(content, i, declaration_stop_index);
            proof {
                crate::util::lemma_tok_views_subrange(
                    content@,
                    i as int,
                    declaration_stop_index as int,
                );
            }
            let created_token = match self.parse_variable(scope, declaration_to_evaluate) {
                Ok(t) => t,
                Err(e) => {
                    return Err(e);
                },
            };
            let mut rest = match self.generate_block_tree(scope, content, declaration_stop_index) {
                Ok(ts) => ts,
                Err(e) => {
                    return Err(e);
                },
            };
            let ghost rest_snap = rest@;
            rest.insert(0, created_token);
            proof {
                assert(rest@ =~= seq![rest@[0]] + rest_snap);
                lemma_tviews_cons(rest@[0], rest_snap);
            }
            return Ok(rest);
        }
        if crate::util::str_eq(
            current_word.as_str(),
            self.syntax_elements.declaration_names[3].1.as_str(),
        ) {
            // A reassignment runs to the next end-of-statement symbol.
            let declaration_stop_index = match crate::util::find_after_index(
                content,
                i,
                self.syntax_elements.assignment_symbols[8].1.as_str(),
            ) {
                Some(x) => x,
                None => {
                    return Err(TokenizerError::MissingDelimiter);
                },
            };
            proof {
                lemma_find_from_range(toks, i + 1, sym_end_assignment());
            }
            let declaration_to_evaluate = crate::util::subvec(content, i, declaration_stop_index);
            proof {
                crate::util::lemma_tok_views_subrange(
                    content@,
                    i as int,
                    declaration_stop_index as int,
                );
            }
            let created_token = match self.parse_reassignment(scope, declaration_to_evaluate) {
                Ok(t) => t,
                Err(e) => {
                    return Err(e);
                },
            };
            let mut rest = match self.generate_block_tree(scope, content, declaration_stop_index) {
                Ok(ts) => ts,
                Err(e) => {
                    return Err(e);
                },
            };
            let ghost rest_snap = rest@;
            rest.insert(0, created_token);
            proof {
                assert(rest@ =~= seq![rest@[0]] + rest_snap);
                lemma_tviews_cons(rest@[0], rest_snap);
            }
            return Ok(rest);
        }
        if crate::util::str_eq(
            current_word.as_str(),
            self.syntax_elements.declaration_names[2].1.as_str(),
        ) {
            // A return statement runs to the next end-of-statement symbol.
            let declaration_stop_index = match crate::util::find_after_index(
                content,
                i,
                self.syntax_elements.assignment_symbols[8].1.as_str(),
            ) {
                Some(x) => x,
                None => {
                    return Err(TokenizerError::MissingDelimiter);
                },
            };
            proof {
                lemma_find_from_range(toks, i + 1, sym_end_assignment());
            }
            let declaration_to_evaluate = crate::util::subvec(content, i, declaration_stop_index);
            proof {
                crate::util::lemma_tok_views_subrange(
                    content@,
                    i as int,
                    declaration_stop_index as int,
                );
            }
            let created_token = match self.parse_return(scope, declaration_to_evaluate) {
                Ok(t) => t,
                Err(e) => {
                    return Err(e);
                },
            };
            let mut rest = match self.generate_block_tree(scope, content, declaration_stop_index) {
                Ok(ts) => ts,
                Err(e) => {
                    return Err(e);
                },
            };
            let ghost rest_snap = rest@;
            rest.insert(0, created_token);
            proof {
                assert(rest@ =~= seq![rest@[0]] + rest_snap);
                lemma_tviews_cons(rest@[0], rest_snap);
            }
            return Ok(rest);
        }
        if crate::util::str_eq(
            current_word.as_str(),
            self.syntax_elements.declaration_names[1].1.as_str(),
        ) {
            // A nested function definition.
            let block_start_index = match crate::util::find_after_index(
                content,
                i,
                self.syntax_elements.assignment_symbols[1].1.as_str(),
            ) {
                Some(x) => x,
                None => {
                    return Err(TokenizerError::MissingDelimiter);
                },
            };
            proof {
                lemma_find_from_range(toks, i + 1, sym_begin_body());
            }
            let declaration_stop_index = match self.find_end_of_block(content, block_start_index) {
                Ok(x) => x,
                Err(e) => {
                    return Err(e);
                },
            };
            proof {
                lemma_end_from_range(toks, block_start_index as int, 0);
            }
            let declaration_to_evaluate = crate::util::subvec(
                content,
                i,
                declaration_stop_index + 1,
            );
            proof {
                crate::util::lemma_tok_views_subrange(
                    content@,
                    i as int,
                    declaration_stop_index + 1,
                );
            }
            let function = match self.parse_function(declaration_to_evaluate) {
                Ok(f) => f,
                Err(e) => {
                    return Err(e);
                },
            };
            self.function_history.add_function(
                crate::tokenizer::structures::FunctionSignature {
                    name: function.name.clone(),
                    return_type: function.return_type,
                },
            );
            let mut rest = match self.generate_block_tree(
                scope,
                content,
                declaration_stop_index,
            ) {
                Ok(ts) => ts,
                Err(e) => {
                    return Err(e);
                },
            };
            let ghost rest_snap = rest@;
            rest.insert(0, Token::Function(function));
            proof {
                assert(rest@ =~= seq![rest@[0]] + rest_snap);
                lemma_tviews_cons(rest@[0], rest_snap);
            }
            return Ok(rest);
        }
        if crate::util::str_eq(
            current_word.as_str(),
            self.syntax_elements.declaration_names[4].1.as_str(),
        ) {
            // A conditional statement: its block runs from the first
            // begin-body symbol to the balancing end-body symbol.
            let block_start_index = match crate::util::find_after_index(
                content,
                i,
                self.syntax_elements.assignment_symbols[1].1.as_str(),
            ) {
                Some(x) => x,
                None => {
                    return Err(TokenizerError::MissingDelimiter);
                },
            };
            proof {
                lemma_find_from_range(toks, i + 1, sym_begin_body());
            }
            let declaration_stop_index = match self.find_end_of_block(content, block_start_index) {
                Ok(x) => x,
                Err(e) => {
                    return Err(e);
                },
            };
            proof {
                lemma_end_from_range(toks, block_start_index as int, 0);
            }
            let declaration_to_evaluate = crate::util::subvec(
                content,
                i,
                declaration_stop_index + 1,
            );
            proof {
                crate::util::lemma_tok_views_subrange(
                    content@,
                    i as int,
                    declaration_stop_index + 1,
                );
            }
            let created_token = match self.parse_conditional_statement(
                scope,
                declaration_to_evaluate,
            ) {
                Ok(t) => t,
                Err(e) => {
                    return Err(e);
                },
            };
            let mut rest = match self.generate_block_tree(
                scope,
                content,
                declaration_stop_index,
            ) {
                Ok(ts) => ts,
                Err(e) => {
                    return Err(e);
                },
            };
            let ghost rest_snap = rest@;
            rest.insert(0, created_token);
            proof {
                assert(rest@ =~= seq![rest@[0]] + rest_snap);
                lemma_tviews_cons(rest@[0], rest_snap);
            }
            return Ok(rest);
        }
        self.generate_block_tree(scope, content, i + 1)
    }

    /// Finds the index of the end of a code block given the start of said
    /// block: the index where begin-body and end-body symbols balance.
    #[verifier::loop_isolation(false)]
    fn find_end_of_block(&self, content: &Vec<String>, start_index: usize) -> (r: Result<
        usize,
        TokenizerError,
    >)
        requires
            self.syntax_elements.wf(),
        ensures
            match r {
                Ok(j) => spec_end_of_block(crate::util::tok_views(content@), start_index as int)
                    == Ok::<int, TokenizerError>(j as int),
                Err(e) => spec_end_of_block(crate::util::tok_views(content@), start_index as int)
                    == Err::<int, _>(e),
            },
    {
        let ghost toks = crate::util::tok_views(content@);
        let mut current_block_counter: usize = 0;
        let mut i = start_index;
        while i < content.len()
            invariant
                start_index <= i,
                current_block_counter <= i - start_index,
                spec_end_from(toks, start_index as int, 0) == spec_end_from(
                    toks,
                    i as int,
                    current_block_counter as int,
                ),
            decreases content@.len() - i,
        {
            if crate::util::str_eq(
                content[i].as_str(),
                self.syntax_elements.assignment_symbols[1].1.as_str(),
            ) {
                current_block_counter = current_block_counter + 1;
            } else if crate::util::str_eq(
                content[i].as_str(),
                self.syntax_elements.assignment_symbols[2].1.as_str(),
            ) {
                if current_block_counter == 0 {
                    return Err(TokenizerError::CouldNotFindEndOfBlock);
                }
                if current_block_counter == 1 {
                    return Ok(i);
                }
                current_block_counter = current_block_counter - 1;
            } else {
                if current_block_counter == 0 {
                    return Ok(i);
                }
            }
            i = i + 1;
        }
        Err(TokenizerError::CouldNotFindEndOfBlock)
    }

    /// Parses one variable declaration: reads the set-type group and the
    /// initializer against the scope as it stands, then allocates the
    /// variable's slot.
    #[verifier::rlimit(100)]
    fn parse_variable(
        &self,
        variable_history: &mut VariableHistory,
        declaration: Vec<String>,
    ) -> (r: Result<Token, TokenizerError>)
        requires
            self.syntax_elements.wf(),
        ensures
            match r {
                Ok(t) => spec_parse_variable(
                    self@.function_history,
                    old(variable_history)@,
                    crate::util::tok_views(declaration@),
                ) == Ok::<_, TokenizerError>((final (variable_history)@, tview(t))),
                Err(e) => spec_parse_variable(
                    self@.function_history,
                    old(variable_history)@,
                    crate::util::tok_views(declaration@),
                ) == Err::<(VariableHistoryM, TokenM), _>(e),
            },
    {
        let ghost toks = crate::util::tok_views(declaration@);
        let equal_sign_index = match crate::util::find(
            &declaration,
            self.syntax_elements.assignment_symbols[0].1.as_str(),
        ) {
            Some(x) => x,
            None => {
                return Err(TokenizerError::MissingDelimiter);
            },
        };
        let begin_set_type_index = match crate::util::find(
            &declaration,
            self.syntax_elements.assignment_symbols[6].1.as_str(),
        ) {
            Some(x) => x,
            None => {
                return Err(TokenizerError::MissingDelimiter);
            },
        };
        let end_set_type_index = match crate::util::find(
            &declaration,
            self.syntax_elements.assignment_symbols[7].1.as_str(),
        ) {
            Some(x) => x,
            None => {
                return Err(TokenizerError::MissingDelimiter);
            },
        };
        proof {
            lemma_find_from_range(toks, 0, sym_equals());
            lemma_find_from_range(toks, 0, sym_begin_set_type());
            lemma_find_from_range(toks, 0, sym_end_set_type());
        }
        if end_set_type_index <= begin_set_type_index + 1 || declaration.len() < 2 {
            return Err(TokenizerError::MissingDelimiter);
        }
        let data_type = match DataType::check_token_type(
            declaration[begin_set_type_index + 1].as_str(),
        ) {
            Some(dt) => dt,
            None => {
                return Err(TokenizerError::UnknownDataType);
            },
        };
        let string_assignment = crate::util::subvec(
            &declaration,
            equal_sign_index + 1,
            declaration.len(),
        );
        proof {
            crate::util::lemma_tok_views_subrange(
                declaration@,
                equal_sign_index + 1,
                declaration@.len() as int,
            );
        }
        let assignment = match crate::tokenizer::enumerators::Assignment::from_string_vec(
            self,
            variable_history,
            string_assignment,
        ) {
            Ok(a) => a,
            Err(e) => {
                return Err(e);
            },
        };
        let name = declaration[1].clone();
        let variable_representation = Variable {
            name: name.clone(),
            data_type,
        };
        match variable_history.add_variable(variable_representation) {
            Ok(()) => {},
            Err(e) => {
                return Err(e);
            },
        }
        match variable_history.find_variable(name.as_str()) {
            None => Err(TokenizerError::VariableNotFound),
            Some(location) => Ok(
                Token::Declaration(
                    Declaration { name, location, data_type, value: assignment },
                ),
            ),
        }
    }

    /// Parses one reassignment: reads the new value against the scope, then
    /// requires the target variable to exist.
    fn parse_reassignment(
        &self,
        variable_history: &VariableHistory,
        reassignment: Vec<String>,
    ) -> (r: Result<Token, TokenizerError>)
        requires
            self.syntax_elements.wf(),
        ensures
            match r {
                Ok(t) => spec_parse_reassignment(
                    self@.function_history,
                    variable_history@,
                    crate::util::tok_views(reassignment@),
                ) == Ok::<_, TokenizerError>(tview(t)),
                Err(e) => spec_parse_reassignment(
                    self@.function_history,
                    variable_history@,
                    crate::util::tok_views(reassignment@),
                ) == Err::<TokenM, _>(e),
            },
    {
        let ghost toks = crate::util::tok_views(reassignment@);
        let equal_sign_index = match crate::util::find(
            &reassignment,
            self.syntax_elements.assignment_symbols[0].1.as_str(),
        ) {
            Some(x) => x,
            None => {
                return Err(TokenizerError::MissingDelimiter);
            },
        };
        proof {
            lemma_find_from_range(toks, 0, sym_equals());
        }
        if reassignment.len() < 2 {
            return Err(TokenizerError::MissingDelimiter);
        }
        let string_assignment = crate::util::subvec(
            &reassignment,
            equal_sign_index + 1,
            reassignment.len(),
        );
        proof {
            crate::util::lemma_tok_views_subrange(
                reassignment@,
                equal_sign_index + 1,
                reassignment@.len() as int,
            );
        }
        let new_assignment = match crate::tokenizer::enumerators::Assignment::from_string_vec(
            self,
            variable_history,
            string_assignment,
        ) {
            Ok(a) => a,
            Err(e) => {
                return Err(e);
            },
        };
        let name = reassignment[1].clone();
        match variable_history.find_variable(name.as_str()) {
            None => Err(TokenizerError::VariableNotFound),
            Some(_) => Ok(Token::Reassignment(Reassignment { name, new_assignment })),
        }
    }

    /// Parses one return statement: everything after the keyword is the
    /// returned expression.
    fn parse_return(&self, variable_history: &VariableHistory, return_statement: Vec<String>) -> (r:
        Result<Token, TokenizerError>)
        requires
            self.syntax_elements.wf(),
        ensures
            match r {
                Ok(t) => spec_parse_return(
                    self@.function_history,
                    variable_history@,
                    crate::util::tok_views(return_statement@),
                ) == Ok::<_, TokenizerError>(tview(t)),
                Err(e) => spec_parse_return(
                    self@.function_history,
                    variable_history@,
                    crate::util::tok_views(return_statement@),
                ) == Err::<TokenM, _>(e),
            },
    {
        if return_statement.len() < 1 {
            return Err(TokenizerError::MissingDelimiter);
        }
        let assignment_slice = crate::util::subvec(&return_statement, 1, return_statement.len());
        proof {
            crate::util::lemma_tok_views_subrange(
                return_statement@,
                1,
                return_statement@.len() as int,
            );
        }
        let assignment = match crate::tokenizer::enumerators::Assignment::from_string_vec(
            self,
            variable_history,
            assignment_slice,
        ) {
            Ok(a) => a,
            Err(e) => {
                return Err(e);
            },
        };
        Ok(Token::Return(Return { assignment }))
    }

    /// Parses one conditional statement: the capture list, then the branch
    /// chain; takes the current conditional index and advances the counter.
    #[verifier::rlimit(100)]
    fn parse_conditional_statement(
        &mut self,
        scope: &mut VariableHistory,
        conditional_statement: Vec<String>,
    ) -> (r: Result<Token, TokenizerError>)
        requires
            old(self).syntax_elements.wf(),
        ensures
            final (self).syntax_elements == old(self).syntax_elements,
            match r {
                Ok(t) => spec_parse_conditional_statement(
                    st_of(old(self)@),
                    old(scope)@,
                    crate::util::tok_views(conditional_statement@),
                ) == Ok::<_, TokenizerError>(
                    (st_of(final (self)@), final (scope)@, tview(t)),
                ),
                Err(e) => spec_parse_conditional_statement(
                    st_of(old(self)@),
                    old(scope)@,
                    crate::util::tok_views(conditional_statement@),
                ) == Err::<(ParserStateM, VariableHistoryM, TokenM), _>(e),
            },
        decreases conditional_statement@.len(), 0int, conditional_statement@.len() + 1,
    {
        let ghost toks = crate::util::tok_views(conditional_statement@);
        let begin_capture_index = match crate::util::find(
            &conditional_statement,
            self.syntax_elements.assignment_symbols[3].1.as_str(),
        ) {
            Some(x) => x,
            None => {
                return Err(TokenizerError::MissingDelimiter);
            },
        };
        let end_capture_index = match crate::util::find(
            &conditional_statement,
            self.syntax_elements.assignment_symbols[4].1.as_str(),
        ) {
            Some(x) => x,
            None => {
                return Err(TokenizerError::MissingDelimiter);
            },
        };
        proof {
            lemma_find_from_range(toks, 0, sym_begin_capture());
            lemma_find_from_range(toks, 0, sym_end_capture());
        }
        if end_capture_index <= begin_capture_index {
            return Err(TokenizerError::MissingDelimiter);
        }
        let active_variables: Vec<usize>;
        if begin_capture_index + 1 == end_capture_index {
            active_variables = Vec::new();
            proof {
                assert(crate::util::usizes_view(active_variables@) =~= Seq::<int>::empty());
            }
        } else {
            let capture_slice = crate::util::subvec(
                &conditional_statement,
                begin_capture_index + 1,
                end_capture_index,
            );
            proof {
                crate::util::lemma_tok_views_subrange(
                    conditional_statement@,
                    begin_capture_index + 1,
                    end_capture_index as int,
                );
            }
            active_variables =
            match parse_capture_list(scope, capture_slice) {
                Ok(v) => v,
                Err(e) => {
                    return Err(e);
                },
            };
        }
        let first_enclosure_index = match crate::util::find(
            &conditional_statement,
            self.syntax_elements.assignment_symbols[13].1.as_str(),
        ) {
            Some(x) => x,
            None => {
                return Err(TokenizerError::MissingDelimiter);
            },
        };
        proof {
            lemma_find_from_range(toks, 0, sym_begin_enclosure());
        }
        let index = self.conditional_count;
        if self.conditional_count < usize::MAX {
            self.conditional_count = self.conditional_count + 1;
        }
        let condition_fields = match self.parse_branches(
            scope,
            &conditional_statement,
            first_enclosure_index,
            &active_variables,
        ) {
            Ok(fs) => fs,
            Err(e) => {
                return Err(e);
            },
        };
        Ok(
            Token::ConditionalStatement(
                ConditionalStatement { index, active_variables, condition_fields },
            ),
        )
    }

    /// Parses the branch chain from the enclosure at `i`: each enclosure
    /// holds the else marker or a condition, a block follows, and the chain
    /// continues at the next enclosure after the block.
    #[verifier::rlimit(100)]
    fn parse_branches(
        &mut self,
        scope: &mut VariableHistory,
        conditional_statement: &Vec<String>,
        i: usize,
        active_variables: &Vec<usize>,
    ) -> (r: Result<
        Vec<(Option<crate::tokenizer::enumerators::Assignment>, Vec<Token>)>,
        TokenizerError,
    >)
        requires
            old(self).syntax_elements.wf(),
        ensures
            final (self).syntax_elements == old(self).syntax_elements,
            match r {
                Ok(fields) => spec_parse_branches(
                    st_of(old(self)@),
                    old(scope)@,
                    crate::util::tok_views(conditional_statement@),
                    i as int,
                    crate::util::usizes_view(active_variables@),
                ) == Ok::<_, TokenizerError>(
                    (st_of(final (self)@), final (scope)@, cfviews(fields@)),
                ),
                Err(e) => spec_parse_branches(
                    st_of(old(self)@),
                    old(scope)@,
                    crate::util::tok_views(conditional_statement@),
                    i as int,
                    crate::util::usizes_view(active_variables@),
                ) == Err::<
                    (
                        ParserStateM,
                        VariableHistoryM,
                        Seq<(Option<AssignmentM>, Seq<TokenM>)>,
                    ),
                    _,
                >(e),
            },
        decreases conditional_statement@.len(), 0int, conditional_statement@.len() - i,
    {
        let ghost toks = crate::util::tok_views(conditional_statement@);
        let end_enclosure_index = match crate::util::find_after_index(
            conditional_statement,
            i,
            self.syntax_elements.assignment_symbols[14].1.as_str(),
        ) {
            Some(x) => x,
            None => {
                return Err(TokenizerError::MissingDelimiter);
            },
        };
        proof {
            lemma_find_from_range(toks, i + 1, sym_end_enclosure());
        }
        let enclosure_slice = crate::util::subvec(
            conditional_statement,
            i + 1,
            end_enclosure_index,
        );
        proof {
            crate::util::lemma_tok_views_subrange(
                conditional_statement@,
                i + 1,
                end_enclosure_index as int,
            );
        }
        let ghost encv = crate::util::tok_views(enclosure_slice@);
        let is_else = enclosure_slice.len() == 1 && crate::util::str_eq(
            enclosure_slice[0].as_str(),
            self.syntax_elements.declaration_names[5].1.as_str(),
        );
        proof {
            if is_else {
                assert(encv =~= seq![kw_else()]);
            } else {
                if encv.len() == 1 {
                    assert(encv[0] != kw_else());
                }
                assert(!(encv =~= seq![kw_else()]));
            }
        }
        let field_condition: Option<crate::tokenizer::enumerators::Assignment>;
        if is_else {
            field_condition = None;
        } else {
            field_condition =
            match crate::tokenizer::enumerators::Assignment::from_string_vec(
                self,
                scope,
                enclosure_slice,
            ) {
                Ok(a) => Some(a),
                Err(e) => {
                    return Err(e);
                },
            };
        }
        let block_start_index = match crate::util::find_after_index(
            conditional_statement,
            i,
            self.syntax_elements.assignment_symbols[1].1.as_str(),
        ) {
            Some(x) => x,
            None => {
                return Err(TokenizerError::MissingDelimiter);
            },
        };
        proof {
            lemma_find_from_range(toks, i + 1, sym_begin_body());
        }
        let block_end_index = match self.find_end_of_block(
            conditional_statement,
            block_start_index,
        ) {
            Ok(x) => x,
            Err(e) => {
                return Err(e);
            },
        };
        proof {
            lemma_end_from_range(toks, block_start_index as int, 0);
        }
        if block_end_index <= block_start_index {
            return Err(TokenizerError::MissingDelimiter);
        }
        let inline_block_slice = crate::util::subvec(
            conditional_statement,
            block_start_index + 1,
            block_end_index,
        );
        proof {
            crate::util::lemma_tok_views_subrange(
                conditional_statement@,
                block_start_index + 1,
                block_end_index as int,
            );
        }
        let inline_block = match self.generate_block_tree(scope, &inline_block_slice, 0) {
            Ok(ts) => ts,
            Err(e) => {
                return Err(e);
            },
        };
        if let Some(assignment) = &field_condition {
            if !crate::tokenizer::enumerators::all_vars_captured(assignment, active_variables) {
                return Err(TokenizerError::VarNotUsedInComparison);
            }
        }
        match crate::util::find_after_index(
            conditional_statement,
            block_end_index,
            self.syntax_elements.assignment_symbols[13].1.as_str(),
        ) {
            None => {
                let mut fields: Vec<
                    (Option<crate::tokenizer::enumerators::Assignment>, Vec<Token>),
                > = Vec::new();
                fields.push((field_condition, inline_block));
                proof {
                    assert(fields@ =~= seq![fields@[0]]);
                    lemma_cfviews_singleton(fields@[0]);
                }
                Ok(fields)
            },
            Some(next_enclosure_index) => {
                proof {
                    lemma_find_from_range(toks, block_end_index + 1, sym_begin_enclosure());
                }
                if field_condition.is_none() {
                    return Err(TokenizerError::ElseBranchNotLast);
                }
                let mut rest = match self.parse_branches(
                    scope,
                    conditional_statement,
                    next_enclosure_index,
                    active_variables,
                ) {
                    Ok(fs) => fs,
                    Err(e) => {
                        return Err(e);
                    },
                };
                let ghost rest_snap = rest@;
                rest.insert(0, (field_condition, inline_block));
                proof {
                    assert(rest@ =~= seq![rest@[0]] + rest_snap);
                    lemma_cfviews_cons(rest@[0], rest_snap);
                }
                Ok(rest)
            },
        }
    }

    /// Parses one function definition: name, parameter list, return type, a
    /// fresh scope seeded with the parameters, then the body against that
    /// scope.
    #[verifier::rlimit(100)]
    fn parse_function(&mut self, declaration: Vec<String>) -> (r: Result<Function, TokenizerError>)
        requires
            old(self).syntax_elements.wf(),
        ensures
            final (self).syntax_elements == old(self).syntax_elements,
            match r {
                Ok(f) => spec_parse_function(
                    st_of(old(self)@),
                    crate::util::tok_views(declaration@),
                ) == Ok::<_, TokenizerError>((st_of(final (self)@), fview(f))),
                Err(e) => spec_parse_function(
                    st_of(old(self)@),
                    crate::util::tok_views(declaration@),
                ) == Err::<(ParserStateM, FunctionM), _>(e),
            },
        decreases declaration@.len(), 0int, 0int,
    {
        let ghost toks = crate::util::tok_views(declaration@);
        let block_start_index = match crate::util::find(
            &declaration,
            self.syntax_elements.assignment_symbols[1].1.as_str(),
        ) {
            Some(x) => x,
            None => {
                return Err(TokenizerError::MissingDelimiter);
            },
        };
        let return_this_index = match crate::util::find(
            &declaration,
            self.syntax_elements.assignment_symbols[12].1.as_str(),
        ) {
            Some(x) => x,
            None => {
                return Err(TokenizerError::MissingDelimiter);
            },
        };
        let begin_conditions_index = match crate::util::find(
            &declaration,
            self.syntax_elements.assignment_symbols[9].1.as_str(),
        ) {
            Some(x) => x,
            None => {
                return Err(TokenizerError::MissingDelimiter);
            },
        };
        let end_conditions_index = match crate::util::find(
            &declaration,
            self.syntax_elements.assignment_symbols[11].1.as_str(),
        ) {
            Some(x) => x,
            None => {
                return Err(TokenizerError::MissingDelimiter);
            },
        };
        proof {
            lemma_find_from_range(toks, 0, sym_begin_body());
            lemma_find_from_range(toks, 0, sym_return_this());
            lemma_find_from_range(toks, 0, sym_begin_conditions());
            lemma_find_from_range(toks, 0, sym_end_conditions());
        }
        if end_conditions_index <= begin_conditions_index || return_this_index
            >= declaration.len() - 1 || declaration.len() < 2 {
            return Err(TokenizerError::MissingDelimiter);
        }
        let arguments: Vec<Variable>;
        if begin_conditions_index + 1 == end_conditions_index {
            arguments = Vec::new();
            proof {
                assert(crate::tokenizer::structures::vars_view(arguments@) =~= Seq::<
                    VariableM,
                >::empty());
            }
        } else {
            let argument_slice = crate::util::subvec(
                &declaration,
                begin_conditions_index + 1,
                end_conditions_index,
            );
            proof {
                crate::util::lemma_tok_views_subrange(
                    declaration@,
                    begin_conditions_index + 1,
                    end_conditions_index as int,
                );
            }
            arguments =
            match parse_params_list(argument_slice) {
                Ok(ps) => ps,
                Err(e) => {
                    return Err(e);
                },
            };
        }
        let return_type = match DataType::check_token_type(
            declaration[return_this_index + 1].as_str(),
        ) {
            Some(dt) => dt,
            None => {
                return Err(TokenizerError::UnknownDataType);
            },
        };
        let mut variable_history = match seed_params(&arguments) {
            Ok(vh) => vh,
            Err(e) => {
                return Err(e);
            },
        };
        let inline_block_slice = crate::util::subvec(
            &declaration,
            block_start_index + 1,
            declaration.len(),
        );
        proof {
            crate::util::lemma_tok_views_subrange(
                declaration@,
                block_start_index + 1,
                declaration@.len() as int,
            );
        }
        let functionaliy = match self.generate_block_tree(
            &mut variable_history,
            &inline_block_slice,
            0,
        ) {
            Ok(ts) => ts,
            Err(e) => {
                return Err(e);
            },
        };
        let name = declaration[1].clone();
        Ok(Function { name, return_type, arguments, variable_history, functionaliy })
    }
}

} // verus!
