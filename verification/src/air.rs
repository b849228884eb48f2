use vstd::prelude::*;
use crate::ast::{AssignmentKind, BinOp, UnOp};
use crate::term::{clone_bytes, DefaultFunction};
use crate::text::{clone_ids, clone_names, name_views};
use crate::tipo::{Type, TypeView, ValueConstructor, ValueConstructorView};

verus! {

pub open spec fn text_view(t: Option<String>) -> Option<Seq<char>> {
    match t {
        Some(t) => Some(t@),
        None => None,
    }
}

pub open spec fn pair_view(p: Option<(String, String)>) -> Option<(Seq<char>, Seq<char>)> {
    match p {
        Some(p) => Some((p.0@, p.1@)),
        None => None,
    }
}

pub open spec fn pair_views(items: Seq<(String, String)>) -> Seq<(Seq<char>, Seq<char>)> {
    Seq::new(items.len(), |i: int| (items[i].0@, items[i].1@))
}

pub open spec fn index_views(items: Seq<(usize, String)>) -> Seq<(usize, Seq<char>)> {
    Seq::new(items.len(), |i: int| (items[i].0, items[i].1@))
}

pub open spec fn binding_views(items: Seq<(usize, String, Type)>) -> Seq<
    (usize, Seq<char>, TypeView),
> {
    Seq::new(items.len(), |i: int| (items[i].0, items[i].1@, items[i].2@))
}

pub fn clone_text(t: &Option<String>) -> (r: Option<String>)
    ensures
        text_view(r) == text_view(*t),
{
    match t {
        Some(t) => Some(t.clone()),
        None => None,
    }
}

pub fn clone_pair(p: &Option<(String, String)>) -> (r: Option<(String, String)>)
    ensures
        pair_view(r) == pair_view(*p),
{
    match p {
        Some(p) => Some((p.0.clone(), p.1.clone())),
        None => None,
    }
}

pub fn clone_pairs(items: &Vec<(String, String)>) -> (r: Vec<(String, String)>)
    ensures
        pair_views(r@) == pair_views(items@),
{
    let mut out: Vec<(String, String)> = Vec::new();
    let mut i: usize = 0;
    while i < items.len()
        invariant
            i <= items.len(),
            out.len() == i,
            forall|j: int| 0 <= j < i ==> out@[j].0@ == items@[j].0@ && out@[j].1@ == items@[j].1@,
        decreases items.len() - i,
    {
        out.push((items[i].0.clone(), items[i].1.clone()));
        i = i + 1;
    }
    assert(pair_views(out@) =~= pair_views(items@));
    out
}

pub fn clone_indices(items: &Vec<(usize, String)>) -> (r: Vec<(usize, String)>)
    ensures
        index_views(r@) == index_views(items@),
{
    let mut out: Vec<(usize, String)> = Vec::new();
    let mut i: usize = 0;
    while i < items.len()
        invariant
            i <= items.len(),
            out.len() == i,
            forall|j: int| 0 <= j < i ==> out@[j].0 == items@[j].0 && out@[j].1@ == items@[j].1@,
        decreases items.len() - i,
    {
        out.push((items[i].0, items[i].1.clone()));
        i = i + 1;
    }
    assert(index_views(out@) =~= index_views(items@));
    out
}

pub fn clone_bindings(items: &Vec<(usize, String, Type)>) -> (r: Vec<(usize, String, Type)>)
    ensures
        binding_views(r@) == binding_views(items@),
{
    let mut out: Vec<(usize, String, Type)> = Vec::new();
    let mut i: usize = 0;
    while i < items.len()
        invariant
            i <= items.len(),
            out.len() == i,
            forall|j: int|
                0 <= j < i ==> out@[j].0 == items@[j].0 && out@[j].1@ == items@[j].1@ && out@[j].2@
                    == items@[j].2@,
        decreases items.len() - i,
    {
        out.push((items[i].0, items[i].1.clone(), items[i].2.duplicate()));
        i = i + 1;
    }
    assert(binding_views(out@) =~= binding_views(items@));
    out
}

/// One instruction of the intermediate representation. A program is a list of
/// instructions in prefix order: an instruction comes before its operands.
/// Every instruction carries the scope it stands in: a path of identifiers
/// from the root, longer for deeper nesting.
#[derive(Debug, PartialEq, Eq)]
pub enum Air {
    /// An integer literal, as written.
    Int { scope: Vec<u64>, value: String },
    /// A string literal.
    String { scope: Vec<u64>, value: String },
    /// A byte-string literal.
    ByteArray { scope: Vec<u64>, bytes: Vec<u8> },
    /// A reference to a variable, a function or a constructor.
    Var { scope: Vec<u64>, constructor: ValueConstructor, name: String, variant_name: String },
    /// An anonymous function; its body follows.
    Fn { scope: Vec<u64>, params: Vec<String> },
    /// A list of `count` items, which follow, then its tail if it has one.
    List { scope: Vec<u64>, count: usize, tipo: Type, tail: bool },
    /// Binds the items of a list to names, the last name to the rest if `tail`.
    ListAccessor { scope: Vec<u64>, tipo: Type, names: Vec<String>, tail: bool },
    /// Binds heads, and possibly a tail, of lists that are already in scope.
    ListExpose { scope: Vec<u64>, tipo: Type, tail_head_names: Vec<(String, String)>, tail: Option<(String, String)> },
    /// A call with `count` arguments; the callee and the arguments follow.
    Call { scope: Vec<u64>, count: usize },
    /// A built-in function of the target machine.
    Builtin { scope: Vec<u64>, func: DefaultFunction, tipo: Type },
    /// A binary operator; the operands follow.
    BinOp { scope: Vec<u64>, name: BinOp, count: usize, tipo: Type },
    /// Binds a name to the value that follows, for the rest of the block.
    Assignment { scope: Vec<u64>, name: String, kind: AssignmentKind },
    /// Defines a function for the code that follows its body.
    DefineFunc { scope: Vec<u64>, func_name: String, module_name: String, params: Vec<String>, recursive: bool, variant_name: String },
    /// Binds a name to the value that follows.
    Lam { scope: Vec<u64>, name: String },
    /// A match on the subject that follows.
    When { scope: Vec<u64>, tipo: Type, subject_name: String },
    /// A clause of a match on a value compared by equality.
    Clause { scope: Vec<u64>, tipo: Type, subject_name: String, complex_clause: bool },
    /// A clause of a match on a list.
    ListClause { scope: Vec<u64>, tipo: Type, tail_name: String, next_tail_name: Option<String>, complex_clause: bool, inverse: bool },
    /// A clause of a match on a tuple.
    TupleClause { scope: Vec<u64>, tipo: Type, indices: Vec<(usize, String)>, predefined_indices: Vec<(usize, String)>, subject_name: String, count: usize, complex_clause: bool },
    /// A test inside a clause, on a nested pattern.
    ClauseGuard { scope: Vec<u64>, subject_name: String, tipo: Type },
    /// A value that nothing reads.
    Discard { scope: Vec<u64> },
    /// The last clause of a match, taken without a test.
    Finally { scope: Vec<u64> },
    /// A conditional; the condition and the two branches follow.
    If { scope: Vec<u64> },
    /// Reads a field of the record that follows.
    RecordAccess { scope: Vec<u64>, index: u64, tipo: Type },
    /// Binds fields of a constructor value to names.
    FieldsExpose { scope: Vec<u64>, count: usize, indices: Vec<(usize, String, Type)> },
    /// A tuple of `count` elements, which follow.
    Tuple { scope: Vec<u64>, tipo: Type, count: usize },
    /// Code that is still to be written: fails when reached.
    Todo { scope: Vec<u64>, label: Option<String>, tipo: Type },
    /// Logs a message, then goes on with what follows.
    Trace { scope: Vec<u64>, text: Option<String>, tipo: Type },
    /// A unary operator; the operand follows.
    UnOp { scope: Vec<u64>, op: UnOp },
    /// Binds the elements of a tuple to names.
    TupleAccessor { scope: Vec<u64>, names: Vec<String>, tipo: Type },
    /// Reads one element of the tuple that follows.
    TupleIndex { scope: Vec<u64>, tipo: Type, index: usize },
    /// Fails when reached.
    ErrorTerm { scope: Vec<u64>, tipo: Type, label: Option<String> },
}

pub ghost enum AirView {
    Int { scope: Seq<u64>, value: Seq<char> },
    String { scope: Seq<u64>, value: Seq<char> },
    ByteArray { scope: Seq<u64>, bytes: Seq<u8> },
    Var { scope: Seq<u64>, constructor: ValueConstructorView, name: Seq<char>, variant_name: Seq<char> },
    Fn { scope: Seq<u64>, params: Seq<Seq<char>> },
    List { scope: Seq<u64>, count: usize, tipo: TypeView, tail: bool },
    ListAccessor { scope: Seq<u64>, tipo: TypeView, names: Seq<Seq<char>>, tail: bool },
    ListExpose { scope: Seq<u64>, tipo: TypeView, tail_head_names: Seq<(Seq<char>, Seq<char>)>, tail: Option<(Seq<char>, Seq<char>)> },
    Call { scope: Seq<u64>, count: usize },
    Builtin { scope: Seq<u64>, func: DefaultFunction, tipo: TypeView },
    BinOp { scope: Seq<u64>, name: BinOp, count: usize, tipo: TypeView },
    Assignment { scope: Seq<u64>, name: Seq<char>, kind: AssignmentKind },
    DefineFunc { scope: Seq<u64>, func_name: Seq<char>, module_name: Seq<char>, params: Seq<Seq<char>>, recursive: bool, variant_name: Seq<char> },
    Lam { scope: Seq<u64>, name: Seq<char> },
    When { scope: Seq<u64>, tipo: TypeView, subject_name: Seq<char> },
    Clause { scope: Seq<u64>, tipo: TypeView, subject_name: Seq<char>, complex_clause: bool },
    ListClause { scope: Seq<u64>, tipo: TypeView, tail_name: Seq<char>, next_tail_name: Option<Seq<char>>, complex_clause: bool, inverse: bool },
    TupleClause { scope: Seq<u64>, tipo: TypeView, indices: Seq<(usize, Seq<char>)>, predefined_indices: Seq<(usize, Seq<char>)>, subject_name: Seq<char>, count: usize, complex_clause: bool },
    ClauseGuard { scope: Seq<u64>, subject_name: Seq<char>, tipo: TypeView },
    Discard { scope: Seq<u64> },
    Finally { scope: Seq<u64> },
    If { scope: Seq<u64> },
    RecordAccess { scope: Seq<u64>, index: u64, tipo: TypeView },
    FieldsExpose { scope: Seq<u64>, count: usize, indices: Seq<(usize, Seq<char>, TypeView)> },
    Tuple { scope: Seq<u64>, tipo: TypeView, count: usize },
    Todo { scope: Seq<u64>, label: Option<Seq<char>>, tipo: TypeView },
    Trace { scope: Seq<u64>, text: Option<Seq<char>>, tipo: TypeView },
    UnOp { scope: Seq<u64>, op: UnOp },
    TupleAccessor { scope: Seq<u64>, names: Seq<Seq<char>>, tipo: TypeView },
    TupleIndex { scope: Seq<u64>, tipo: TypeView, index: usize },
    ErrorTerm { scope: Seq<u64>, tipo: TypeView, label: Option<Seq<char>> },
}

impl View for Air {
    type V = AirView;

    open spec fn view(&self) -> AirView {
        match self {
            Air::Int { scope, value } => AirView::Int { scope: scope@, value: value@ },
            Air::String { scope, value } => AirView::String { scope: scope@, value: value@ },
            Air::ByteArray { scope, bytes } => AirView::ByteArray { scope: scope@, bytes: bytes@ },
            Air::Var { scope, constructor, name, variant_name } => AirView::Var { scope: scope@, constructor: constructor@, name: name@, variant_name: variant_name@ },
            Air::Fn { scope, params } => AirView::Fn { scope: scope@, params: name_views(params@) },
            Air::List { scope, count, tipo, tail } => AirView::List { scope: scope@, count: *count, tipo: tipo@, tail: *tail },
            Air::ListAccessor { scope, tipo, names, tail } => AirView::ListAccessor { scope: scope@, tipo: tipo@, names: name_views(names@), tail: *tail },
            Air::ListExpose { scope, tipo, tail_head_names, tail } => AirView::ListExpose { scope: scope@, tipo: tipo@, tail_head_names: pair_views(tail_head_names@), tail: pair_view(*tail) },
            Air::Call { scope, count } => AirView::Call { scope: scope@, count: *count },
            Air::Builtin { scope, func, tipo } => AirView::Builtin { scope: scope@, func: *func, tipo: tipo@ },
            Air::BinOp { scope, name, count, tipo } => AirView::BinOp { scope: scope@, name: *name, count: *count, tipo: tipo@ },
            Air::Assignment { scope, name, kind } => AirView::Assignment { scope: scope@, name: name@, kind: *kind },
            Air::DefineFunc { scope, func_name, module_name, params, recursive, variant_name } => AirView::DefineFunc { scope: scope@, func_name: func_name@, module_name: module_name@, params: name_views(params@), recursive: *recursive, variant_name: variant_name@ },
            Air::Lam { scope, name } => AirView::Lam { scope: scope@, name: name@ },
            Air::When { scope, tipo, subject_name } => AirView::When { scope: scope@, tipo: tipo@, subject_name: subject_name@ },
            Air::Clause { scope, tipo, subject_name, complex_clause } => AirView::Clause { scope: scope@, tipo: tipo@, subject_name: subject_name@, complex_clause: *complex_clause },
            Air::ListClause { scope, tipo, tail_name, next_tail_name, complex_clause, inverse } => AirView::ListClause { scope: scope@, tipo: tipo@, tail_name: tail_name@, next_tail_name: text_view(*next_tail_name), complex_clause: *complex_clause, inverse: *inverse },
            Air::TupleClause { scope, tipo, indices, predefined_indices, subject_name, count, complex_clause } => AirView::TupleClause { scope: scope@, tipo: tipo@, indices: index_views(indices@), predefined_indices: index_views(predefined_indices@), subject_name: subject_name@, count: *count, complex_clause: *complex_clause },
            Air::ClauseGuard { scope, subject_name, tipo } => AirView::ClauseGuard { scope: scope@, subject_name: subject_name@, tipo: tipo@ },
            Air::Discard { scope } => AirView::Discard { scope: scope@ },
            Air::Finally { scope } => AirView::Finally { scope: scope@ },
            Air::If { scope } => AirView::If { scope: scope@ },
            Air::RecordAccess { scope, index, tipo } => AirView::RecordAccess { scope: scope@, index: *index, tipo: tipo@ },
            Air::FieldsExpose { scope, count, indices } => AirView::FieldsExpose { scope: scope@, count: *count, indices: binding_views(indices@) },
            Air::Tuple { scope, tipo, count } => AirView::Tuple { scope: scope@, tipo: tipo@, count: *count },
            Air::Todo { scope, label, tipo } => AirView::Todo { scope: scope@, label: text_view(*label), tipo: tipo@ },
            Air::Trace { scope, text, tipo } => AirView::Trace { scope: scope@, text: text_view(*text), tipo: tipo@ },
            Air::UnOp { scope, op } => AirView::UnOp { scope: scope@, op: *op },
            Air::TupleAccessor { scope, names, tipo } => AirView::TupleAccessor { scope: scope@, names: name_views(names@), tipo: tipo@ },
            Air::TupleIndex { scope, tipo, index } => AirView::TupleIndex { scope: scope@, tipo: tipo@, index: *index },
            Air::ErrorTerm { scope, tipo, label } => AirView::ErrorTerm { scope: scope@, tipo: tipo@, label: text_view(*label) },
        }
    }
}

/// The views of a list of instructions, one for one.
pub open spec fn air_views(items: Seq<Air>) -> Seq<AirView> {
    Seq::new(items.len(), |i: int| items[i]@)
}

impl AirView {
    /// The scope that the instruction stands in.
    pub open spec fn scope(self) -> Seq<u64> {
        match self {
            AirView::Int { scope, .. } => scope,
            AirView::String { scope, .. } => scope,
            AirView::ByteArray { scope, .. } => scope,
            AirView::Var { scope, .. } => scope,
            AirView::Fn { scope, .. } => scope,
            AirView::List { scope, .. } => scope,
            AirView::ListAccessor { scope, .. } => scope,
            AirView::ListExpose { scope, .. } => scope,
            AirView::Call { scope, .. } => scope,
            AirView::Builtin { scope, .. } => scope,
            AirView::BinOp { scope, .. } => scope,
            AirView::Assignment { scope, .. } => scope,
            AirView::DefineFunc { scope, .. } => scope,
            AirView::Lam { scope, .. } => scope,
            AirView::When { scope, .. } => scope,
            AirView::Clause { scope, .. } => scope,
            AirView::ListClause { scope, .. } => scope,
            AirView::TupleClause { scope, .. } => scope,
            AirView::ClauseGuard { scope, .. } => scope,
            AirView::Discard { scope, .. } => scope,
            AirView::Finally { scope, .. } => scope,
            AirView::If { scope, .. } => scope,
            AirView::RecordAccess { scope, .. } => scope,
            AirView::FieldsExpose { scope, .. } => scope,
            AirView::Tuple { scope, .. } => scope,
            AirView::Todo { scope, .. } => scope,
            AirView::Trace { scope, .. } => scope,
            AirView::UnOp { scope, .. } => scope,
            AirView::TupleAccessor { scope, .. } => scope,
            AirView::TupleIndex { scope, .. } => scope,
            AirView::ErrorTerm { scope, .. } => scope,
        }
    }
}

impl Air {
    /// The scope that the instruction stands in.
    pub fn scope(&self) -> (r: Vec<u64>)
        ensures
            r@ == self@.scope(),
    {
        match self {
            Air::Int { scope, .. }
            | Air::String { scope, .. }
            | Air::ByteArray { scope, .. }
            | Air::Var { scope, .. }
            | Air::Fn { scope, .. }
            | Air::List { scope, .. }
            | Air::ListAccessor { scope, .. }
            | Air::ListExpose { scope, .. }
            | Air::Call { scope, .. }
            | Air::Builtin { scope, .. }
            | Air::BinOp { scope, .. }
            | Air::Assignment { scope, .. }
            | Air::DefineFunc { scope, .. }
            | Air::Lam { scope, .. }
            | Air::When { scope, .. }
            | Air::Clause { scope, .. }
            | Air::ListClause { scope, .. }
            | Air::TupleClause { scope, .. }
            | Air::ClauseGuard { scope, .. }
            | Air::Discard { scope, .. }
            | Air::Finally { scope, .. }
            | Air::If { scope, .. }
            | Air::RecordAccess { scope, .. }
            | Air::FieldsExpose { scope, .. }
            | Air::Tuple { scope, .. }
            | Air::Todo { scope, .. }
            | Air::Trace { scope, .. }
            | Air::UnOp { scope, .. }
            | Air::TupleAccessor { scope, .. }
            | Air::TupleIndex { scope, .. }
            | Air::ErrorTerm { scope, .. } => clone_ids(scope),
        }
    }

    pub fn duplicate(&self) -> (r: Air)
        ensures
            r@ == self@,
    {
        match self {
            Air::Int { scope, value } => Air::Int { scope: clone_ids(scope), value: value.clone() },
            Air::String { scope, value } => Air::String { scope: clone_ids(scope), value: value.clone() },
            Air::ByteArray { scope, bytes } => Air::ByteArray { scope: clone_ids(scope), bytes: clone_bytes(bytes) },
            Air::Var { scope, constructor, name, variant_name } => Air::Var { scope: clone_ids(scope), constructor: constructor.duplicate(), name: name.clone(), variant_name: variant_name.clone() },
            Air::Fn { scope, params } => Air::Fn { scope: clone_ids(scope), params: clone_names(params) },
            Air::List { scope, count, tipo, tail } => Air::List { scope: clone_ids(scope), count: *count, tipo: tipo.duplicate(), tail: *tail },
            Air::ListAccessor { scope, tipo, names, tail } => Air::ListAccessor { scope: clone_ids(scope), tipo: tipo.duplicate(), names: clone_names(names), tail: *tail },
            Air::ListExpose { scope, tipo, tail_head_names, tail } => Air::ListExpose { scope: clone_ids(scope), tipo: tipo.duplicate(), tail_head_names: clone_pairs(tail_head_names), tail: clone_pair(tail) },
            Air::Call { scope, count } => Air::Call { scope: clone_ids(scope), count: *count },
            Air::Builtin { scope, func, tipo } => Air::Builtin { scope: clone_ids(scope), func: *func, tipo: tipo.duplicate() },
            Air::BinOp { scope, name, count, tipo } => Air::BinOp { scope: clone_ids(scope), name: *name, count: *count, tipo: tipo.duplicate() },
            Air::Assignment { scope, name, kind } => Air::Assignment { scope: clone_ids(scope), name: name.clone(), kind: *kind },
            Air::DefineFunc { scope, func_name, module_name, params, recursive, variant_name } => Air::DefineFunc { scope: clone_ids(scope), func_name: func_name.clone(), module_name: module_name.clone(), params: clone_names(params), recursive: *recursive, variant_name: variant_name.clone() },
            Air::Lam { scope, name } => Air::Lam { scope: clone_ids(scope), name: name.clone() },
            Air::When { scope, tipo, subject_name } => Air::When { scope: clone_ids(scope), tipo: tipo.duplicate(), subject_name: subject_name.clone() },
            Air::Clause { scope, tipo, subject_name, complex_clause } => Air::Clause { scope: clone_ids(scope), tipo: tipo.duplicate(), subject_name: subject_name.clone(), complex_clause: *complex_clause },
            Air::ListClause { scope, tipo, tail_name, next_tail_name, complex_clause, inverse } => Air::ListClause { scope: clone_ids(scope), tipo: tipo.duplicate(), tail_name: tail_name.clone(), next_tail_name: clone_text(next_tail_name), complex_clause: *complex_clause, inverse: *inverse },
            Air::TupleClause { scope, tipo, indices, predefined_indices, subject_name, count, complex_clause } => Air::TupleClause { scope: clone_ids(scope), tipo: tipo.duplicate(), indices: clone_indices(indices), predefined_indices: clone_indices(predefined_indices), subject_name: subject_name.clone(), count: *count, complex_clause: *complex_clause },
            Air::ClauseGuard { scope, subject_name, tipo } => Air::ClauseGuard { scope: clone_ids(scope), subject_name: subject_name.clone(), tipo: tipo.duplicate() },
            Air::Discard { scope } => Air::Discard { scope: clone_ids(scope) },
            Air::Finally { scope } => Air::Finally { scope: clone_ids(scope) },
            Air::If { scope } => Air::If { scope: clone_ids(scope) },
            Air::RecordAccess { scope, index, tipo } => Air::RecordAccess { scope: clone_ids(scope), index: *index, tipo: tipo.duplicate() },
            Air::FieldsExpose { scope, count, indices } => Air::FieldsExpose { scope: clone_ids(scope), count: *count, indices: clone_bindings(indices) },
            Air::Tuple { scope, tipo, count } => Air::Tuple { scope: clone_ids(scope), tipo: tipo.duplicate(), count: *count },
            Air::Todo { scope, label, tipo } => Air::Todo { scope: clone_ids(scope), label: clone_text(label), tipo: tipo.duplicate() },
            Air::Trace { scope, text, tipo } => Air::Trace { scope: clone_ids(scope), text: clone_text(text), tipo: tipo.duplicate() },
            Air::UnOp { scope, op } => Air::UnOp { scope: clone_ids(scope), op: *op },
            Air::TupleAccessor { scope, names, tipo } => Air::TupleAccessor { scope: clone_ids(scope), names: clone_names(names), tipo: tipo.duplicate() },
            Air::TupleIndex { scope, tipo, index } => Air::TupleIndex { scope: clone_ids(scope), tipo: tipo.duplicate(), index: *index },
            Air::ErrorTerm { scope, tipo, label } => Air::ErrorTerm { scope: clone_ids(scope), tipo: tipo.duplicate(), label: clone_text(label) },
        }
    }
}

/// A copy of a list of instructions.
pub fn clone_air(items: &Vec<Air>) -> (r: Vec<Air>)
    ensures
        air_views(r@) == air_views(items@),
{
    let mut out: Vec<Air> = Vec::new();
    let mut i: usize = 0;
    while i < items.len()
        invariant
            i <= items.len(),
            out.len() == i,
            forall|j: int| 0 <= j < i ==> out@[j]@ == items@[j]@,
        decreases items.len() - i,
    {
        out.push(items[i].duplicate());
        i = i + 1;
    }
    assert(air_views(out@) =~= air_views(items@));
    out
}

} // verus!
