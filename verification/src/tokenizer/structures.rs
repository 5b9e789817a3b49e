//! Scope bookkeeping: one `Variable` per declared name, and one
//! `VariableHistory` per function, an ordered slot table whose indices stay
//! stable for the lifetime of the scope.
use vstd::prelude::*;

verus! {

use crate::tokenizer::declaration::DataType;
use crate::tokenizer::declaration::spec_check_token_type;
use crate::tokenizer::error::TokenizerError;
use vstd::string::StringExecFns;

/// A declared name together with its declared type.
#[derive(Debug, Clone, PartialEq)]
pub struct Variable {
    pub name: String,
    pub data_type: DataType,
}

/// The mathematical shape of a `Variable`.
pub struct VariableM {
    pub name: Seq<char>,
    pub data_type: DataType,
}

impl View for Variable {
    type V = VariableM;

    open spec fn view(&self) -> VariableM {
        VariableM { name: self.name@, data_type: self.data_type }
    }
}

/// The views of a sequence of variables.
pub open spec fn vars_view(s: Seq<Variable>) -> Seq<VariableM> {
    s.map_values(|v: Variable| v@)
}

/// What reading a parameter group (a type name, then a variable name) yields.
pub open spec fn spec_from_function_arg(toks: Seq<Seq<char>>) -> Result<
    VariableM,
    TokenizerError,
> {
    if toks.len() < 2 {
        Err(TokenizerError::MissingDelimiter)
    } else {
        match spec_check_token_type(toks[0]) {
            Some(dt) => Ok(VariableM { name: toks[1], data_type: dt }),
            None => Err(TokenizerError::UnknownDataType),
        }
    }
}

impl Variable {
    pub fn new(name: &str, data_type: DataType) -> (r: Self)
        ensures
            r@ == (VariableM { name: name@, data_type }),
    {
        Self { name: String::from_str(name), data_type }
    }

    /// Reads one parameter group of a function header: its declared type,
    /// then its name.
    pub fn from_function_arg(from: &Vec<String>) -> (r: Result<Self, TokenizerError>)
        ensures
            match r {
                Ok(v) => spec_from_function_arg(crate::util::tok_views(from@)) == Ok::<_, TokenizerError>(v@),
                Err(e) => spec_from_function_arg(crate::util::tok_views(from@)) == Err::<
                    VariableM,
                    _,
                >(e),
            },
    {
        if from.len() < 2 {
            return Err(TokenizerError::MissingDelimiter);
        }
        match DataType::check_token_type(from[0].as_str()) {
            Some(dt) => Ok(Self { name: from[1].clone(), data_type: dt }),
            None => Err(TokenizerError::UnknownDataType),
        }
    }
}

/// What the expression builder needs of a parsed function: its name and its
/// declared return type.
#[derive(Debug, Clone, PartialEq)]
pub struct FunctionSignature {
    pub name: String,
    pub return_type: DataType,
}

/// The mathematical shape of a `FunctionSignature`.
pub struct FunctionSignatureM {
    pub name: Seq<char>,
    pub return_type: DataType,
}

impl View for FunctionSignature {
    type V = FunctionSignatureM;

    open spec fn view(&self) -> FunctionSignatureM {
        FunctionSignatureM { name: self.name@, return_type: self.return_type }
    }
}

/// The whole-program function table: the signature of every function whose
/// body has finished parsing, in order of registration.
#[derive(Debug, PartialEq)]
pub struct FunctionHistory {
    pub data: Vec<FunctionSignature>,
}

/// The first registered function named `name` at or after `i`, if any.
pub open spec fn spec_find_function(
    fh: Seq<FunctionSignatureM>,
    name: Seq<char>,
    i: int,
) -> Option<int>
    decreases fh.len() - i,
{
    if i < 0 || i >= fh.len() {
        None
    } else if fh[i].name == name {
        Some(i)
    } else {
        spec_find_function(fh, name, i + 1)
    }
}

impl View for FunctionHistory {
    type V = Seq<FunctionSignatureM>;

    open spec fn view(&self) -> Seq<FunctionSignatureM> {
        self.data@.map_values(|f: FunctionSignature| f@)
    }
}

impl FunctionHistory {
    /// An empty function table.
    pub fn init() -> (r: Self)
        ensures
            r@ =~= Seq::<FunctionSignatureM>::empty(),
    {
        Self { data: Vec::new() }
    }

    /// Registers one finished function after the ones already parsed.
    pub fn add_function(&mut self, signature: FunctionSignature)
        ensures
            final (self)@ == old(self)@.push(signature@),
    {
        self.data.push(signature);
        proof {
            assert(self@ =~= old(self)@.push(signature@));
        }
    }

    /// Finds the signature a name resolves to: the earliest registered
    /// function of that name, or `None`.
    #[verifier::loop_isolation(false)]
    pub fn find_by_name(&self, name: &str) -> (r: Option<&FunctionSignature>)
        ensures
            match r {
                Some(f) => {
                    &&& spec_find_function(self@, name@, 0) matches Some(i)
                    &&& f@ == self@[spec_find_function(self@, name@, 0)->Some_0]
                    &&& f@.name == name@
                },
                None => spec_find_function(self@, name@, 0) is None,
            },
    {
        let mut i: usize = 0;
        while i < self.data.len()
            invariant
                0 <= i <= self.data@.len(),
                spec_find_function(self@, name@, 0) == spec_find_function(self@, name@, i as int),
            decreases self.data@.len() - i,
        {
            proof {
                assert(self@[i as int] == self.data@[i as int]@);
            }
            if crate::util::str_eq(self.data[i].name.as_str(), name) {
                return Some(&self.data[i]);
            }
            i = i + 1;
        }
        None
    }
}

/// The slot table of one scope: an ordered sequence of optional variables plus
/// the byte size one slot occupies. A well-formed table always ends with
/// exactly one empty slot, the next-free marker.
#[derive(Debug, PartialEq)]
pub struct VariableHistory {
    pub data: Vec<Option<Variable>>,
    pub step: usize,
}

/// The mathematical shape of a `VariableHistory`.
pub struct VariableHistoryM {
    pub data: Seq<Option<VariableM>>,
    pub step: int,
}

/// The views of a sequence of optional variables.
pub open spec fn slots_view(data: Seq<Option<Variable>>) -> Seq<Option<VariableM>> {
    data.map_values(
        |o: Option<Variable>|
            match o {
                Some(v) => Some(v@),
                None => None,
            },
    )
}

impl View for VariableHistory {
    type V = VariableHistoryM;

    open spec fn view(&self) -> VariableHistoryM {
        VariableHistoryM { data: slots_view(self.data@), step: self.step as int }
    }
}

/// The scope-table invariant the parser maintains: every slot but the last is
/// filled, and the last is the one empty next-free marker.
pub open spec fn vh_wf(m: VariableHistoryM) -> bool {
    &&& m.data.len() >= 1
    &&& m.data.last() is None
    &&& forall|k: int| 0 <= k < m.data.len() - 1 ==> m.data[k] is Some
}

/// The first empty slot at or after `i`, if any.
pub open spec fn spec_first_none(data: Seq<Option<VariableM>>, i: int) -> Option<int>
    decreases data.len() - i,
{
    if i < 0 || i >= data.len() {
        None
    } else if data[i] is None {
        Some(i)
    } else {
        spec_first_none(data, i + 1)
    }
}

/// What adding a variable does to a scope table: the first empty slot is
/// filled and, only when that slot was the last one, a fresh empty marker is
/// appended; a table without an empty slot is rejected.
pub open spec fn spec_add_variable(m: VariableHistoryM, v: VariableM) -> Result<
    VariableHistoryM,
    TokenizerError,
> {
    match spec_first_none(m.data, 0) {
        None => Err(TokenizerError::IncorrectStackDataFormatting),
        Some(i) => {
            let filled = m.data.update(i, Some(v));
            let data = if i == m.data.len() - 1 {
                filled.push(None)
            } else {
                filled
            };
            Ok(VariableHistoryM { data, step: m.step })
        },
    }
}

/// The first filled slot at or after `i` holding `name`, if any.
pub open spec fn spec_find_variable(
    data: Seq<Option<VariableM>>,
    name: Seq<char>,
    i: int,
) -> Option<int>
    decreases data.len() - i,
{
    if i < 0 || i >= data.len() {
        None
    } else if data[i] matches Some(v) && v.name == name {
        Some(i)
    } else {
        spec_find_variable(data, name, i + 1)
    }
}

impl VariableHistory {
    /// A fresh scope table holding only the next-free marker; `step` is how
    /// many bytes each slot occupies.
    pub fn init(step: usize) -> (r: Self)
        ensures
            r@.data =~= seq![None::<VariableM>],
            r@.step == step,
            vh_wf(r@),
    {
        Self { data: vec![None], step }
    }

    /// Fills the first empty slot with `variable` and keeps the table's
    /// trailing next-free marker; fails only on a table without empty slots.
    pub fn add_variable(&mut self, variable: Variable) -> (r: Result<(), TokenizerError>)
        ensures
            match r {
                Ok(()) => spec_add_variable(old(self)@, variable@) == Ok::<_, TokenizerError>(final (self)@),
                Err(e) => spec_add_variable(old(self)@, variable@) == Err::<VariableHistoryM, _>(e)
                    && final (self)@ == old(self)@,
            },
    {
        let ghost m = old(self)@;
        let new_variable_location = first_none_index(&self.data);
        match new_variable_location {
            Some(loc) => {
                let last = self.data.len() - 1;
                self.data[loc] = Some(variable);
                proof {
                    assert(self.data@ =~= old(self).data@.update(loc as int, Some(variable)));
                    assert(self@.data =~= m.data.update(loc as int, Some(variable@)));
                }
                if loc == last {
                    self.data.push(None);
                    proof {
                        assert(self@.data =~= m.data.update(loc as int, Some(variable@)).push(
                            None,
                        ));
                    }
                }
                Ok(())
            },
            None => Err(TokenizerError::IncorrectStackDataFormatting),
        }
    }

    /// Finds a variable by name and returns the slot it is held in, or `None`
    /// when no filled slot holds the name.
    #[verifier::loop_isolation(false)]
    pub fn find_variable(&self, variable_name: &str) -> (r: Option<usize>)
        ensures
            match r {
                Some(i) => spec_find_variable(self@.data, variable_name@, 0) == Some(i as int),
                None => spec_find_variable(self@.data, variable_name@, 0) is None,
            },
    {
        let mut i: usize = 0;
        while i < self.data.len()
            invariant
                0 <= i <= self.data@.len(),
                spec_find_variable(self@.data, variable_name@, 0) == spec_find_variable(
                    self@.data,
                    variable_name@,
                    i as int,
                ),
            decreases self.data@.len() - i,
        {
            proof {
                assert(self@.data[i as int] == (match self.data@[i as int] {
                    Some(v) => Some(v@),
                    None => None,
                }));
            }
            if let Some(v) = &self.data[i] {
                if crate::util::str_eq(v.name.as_str(), variable_name) {
                    return Some(i);
                }
            }
            i = i + 1;
        }
        None
    }
}

/// The index of the first empty slot, or `None` when every slot is filled.
#[verifier::loop_isolation(false)]
fn first_none_index(data: &Vec<Option<Variable>>) -> (r: Option<usize>)
    ensures
        match r {
            Some(i) => i < data@.len() && spec_first_none(slots_view(data@), 0) == Some(i as int),
            None => spec_first_none(slots_view(data@), 0) is None,
        },
{
    let mut k: usize = 0;
    while k < data.len()
        invariant
            0 <= k <= data@.len(),
            spec_first_none(slots_view(data@), 0) == spec_first_none(slots_view(data@), k as int),
        decreases data@.len() - k,
    {
        proof {
            assert(slots_view(data@)[k as int] == (match data@[k as int] {
                Some(v) => Some(v@),
                None => None,
            }));
        }
        if data[k].is_none() {
            return Some(k);
        }
        k = k + 1;
    }
    None
}

/// On a well-formed table, adding always succeeds: the one empty slot is
/// filled and a fresh marker is appended, every older slot untouched.
pub proof fn lemma_add_variable_wf(m: VariableHistoryM, v: VariableM)
    requires
        vh_wf(m),
    ensures
        spec_add_variable(m, v) == Ok::<_, TokenizerError>(
            VariableHistoryM {
                data: m.data.update(m.data.len() - 1, Some(v)).push(None),
                step: m.step,
            },
        ),
        vh_wf(spec_add_variable(m, v)->Ok_0),
{
    lemma_first_none_wf(m.data, 0);
}

/// On a well-formed table the first empty slot is the last slot.
proof fn lemma_first_none_wf(data: Seq<Option<VariableM>>, i: int)
    requires
        data.len() >= 1,
        data.last() is None,
        forall|k: int| 0 <= k < data.len() - 1 ==> data[k] is Some,
        0 <= i <= data.len() - 1,
    ensures
        spec_first_none(data, i) == Some(data.len() - 1),
    decreases data.len() - i,
{
    if i < data.len() - 1 {
        lemma_first_none_wf(data, i + 1);
    }
}

/// Slot stability: once a name resolves to a slot, adding further variables
/// to its well-formed scope never changes which slot the name resolves to.
pub proof fn lemma_slot_stability(m: VariableHistoryM, v: VariableM, name: Seq<char>, i: int)
    requires
        vh_wf(m),
        spec_find_variable(m.data, name, 0) == Some(i),
    ensures
        spec_find_variable(spec_add_variable(m, v)->Ok_0.data, name, 0) == Some(i),
{
    lemma_add_variable_wf(m, v);
    let data2 = spec_add_variable(m, v)->Ok_0.data;
    lemma_find_variable_in_range(m.data, name, 0, i);
    assert(i < m.data.len() - 1) by {
        assert(m.data[i] is Some);
    }
    lemma_find_prefix_stable(m.data, data2, name, 0, i);
}

/// A found index lies between the search start and the end of the table.
pub proof fn lemma_find_variable_in_range(
    data: Seq<Option<VariableM>>,
    name: Seq<char>,
    j: int,
    i: int,
)
    requires
        spec_find_variable(data, name, j) == Some(i),
        0 <= j,
    ensures
        j <= i < data.len(),
        data[i] is Some,
    decreases data.len() - j,
{
    if j < data.len() {
        if data[j] matches Some(v) && v.name == name {
        } else {
            lemma_find_variable_in_range(data, name, j + 1, i);
        }
    }
}

/// A first-match search is unchanged on any table that keeps every slot up to
/// and including the match.
proof fn lemma_find_prefix_stable(
    data: Seq<Option<VariableM>>,
    data2: Seq<Option<VariableM>>,
    name: Seq<char>,
    j: int,
    i: int,
)
    requires
        spec_find_variable(data, name, j) == Some(i),
        i < data2.len(),
        forall|k: int| j <= k <= i ==> data2[k] == data[k],
        0 <= j,
    ensures
        spec_find_variable(data2, name, j) == Some(i),
    decreases data.len() - j,
{
    lemma_find_variable_in_range(data, name, j, i);
    if data[j] matches Some(v) && v.name == name {
    } else {
        lemma_find_prefix_stable(data, data2, name, j + 1, i);
    }
}

} // verus!
