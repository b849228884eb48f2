use vstd::prelude::*;
use crate::ast::{
    AssignmentKind,
    BinOp,
    CallArg,
    Clause,
    DefinitionLocation,
    IfBranch,
    Pattern,
    Span,
    TypedArg,
    TypedRecordUpdateArg,
    UnOp,
};
use crate::tipo::{ModuleValueConstructor, Type, TypeView, ValueConstructor};

verus! {

/// An expression, as type inference hands it over: every node carries its place
/// in the source, and every node but a block carries its type.
#[derive(Debug, PartialEq, Eq)]
pub enum TypedExpr {
    Int { location: Span, tipo: Type, value: String },
    String { location: Span, tipo: Type, value: String },
    ByteArray { location: Span, tipo: Type, bytes: Vec<u8> },
    Sequence { location: Span, expressions: Vec<TypedExpr> },
    /// A chain of pipes. Type inference has turned it into assignments and
    /// calls; it differs from a block only in the place it reports.
    Pipeline { location: Span, expressions: Vec<TypedExpr> },
    Var { location: Span, constructor: ValueConstructor, name: String },
    Fn { location: Span, tipo: Type, is_capture: bool, args: Vec<TypedArg>, body: Box<TypedExpr> },
    List { location: Span, tipo: Type, elements: Vec<TypedExpr>, tail: Option<Box<TypedExpr>> },
    Call { location: Span, tipo: Type, fun: Box<TypedExpr>, args: Vec<CallArg> },
    BinOp { location: Span, tipo: Type, name: BinOp, left: Box<TypedExpr>, right: Box<TypedExpr> },
    Assignment {
        location: Span,
        tipo: Type,
        value: Box<TypedExpr>,
        pattern: Pattern,
        kind: AssignmentKind,
    },
    Trace { location: Span, tipo: Type, then: Box<TypedExpr>, text: Option<String> },
    When { location: Span, tipo: Type, subjects: Vec<TypedExpr>, clauses: Vec<Clause> },
    /// A conditional. It has at least one branch.
    If { location: Span, branches: Vec<IfBranch>, final_else: Box<TypedExpr>, tipo: Type },
    RecordAccess { location: Span, tipo: Type, label: String, index: u64, record: Box<TypedExpr> },
    ModuleSelect {
        location: Span,
        tipo: Type,
        label: String,
        module_name: String,
        module_alias: String,
        constructor: ModuleValueConstructor,
    },
    Tuple { location: Span, tipo: Type, elems: Vec<TypedExpr> },
    TupleIndex { location: Span, tipo: Type, index: usize, tuple: Box<TypedExpr> },
    Todo { location: Span, label: Option<String>, tipo: Type },
    ErrorTerm { location: Span, tipo: Type, label: Option<String> },
    RecordUpdate {
        location: Span,
        tipo: Type,
        spread: Box<TypedExpr>,
        args: Vec<TypedRecordUpdateArg>,
    },
    UnOp { location: Span, value: Box<TypedExpr>, tipo: Type, op: UnOp },
}

/// The type of an expression: that of its last expression for a block, the
/// unit type for an empty one; that of what follows for a trace.
pub open spec fn expr_type(e: TypedExpr) -> TypeView
    decreases e,
{
    match e {
        TypedExpr::Var { constructor, .. } => constructor.tipo@,
        TypedExpr::Trace { then, .. } => expr_type(*then),
        TypedExpr::Fn { tipo, .. }
        | TypedExpr::Int { tipo, .. }
        | TypedExpr::Todo { tipo, .. }
        | TypedExpr::ErrorTerm { tipo, .. }
        | TypedExpr::When { tipo, .. }
        | TypedExpr::List { tipo, .. }
        | TypedExpr::Call { tipo, .. }
        | TypedExpr::If { tipo, .. }
        | TypedExpr::UnOp { tipo, .. }
        | TypedExpr::BinOp { tipo, .. }
        | TypedExpr::Tuple { tipo, .. }
        | TypedExpr::String { tipo, .. }
        | TypedExpr::ByteArray { tipo, .. }
        | TypedExpr::TupleIndex { tipo, .. }
        | TypedExpr::Assignment { tipo, .. }
        | TypedExpr::ModuleSelect { tipo, .. }
        | TypedExpr::RecordAccess { tipo, .. }
        | TypedExpr::RecordUpdate { tipo, .. } => tipo@,
        TypedExpr::Pipeline { expressions, .. } | TypedExpr::Sequence { expressions, .. } => {
            if expressions@.len() == 0 {
                TypeView::plain("Void"@)
            } else {
                expr_type(expressions[expressions@.len() - 1])
            }
        },
    }
}

/// The place of an expression in the source.
pub open spec fn expr_location(e: TypedExpr) -> Span {
    match e {
        TypedExpr::Fn { location, .. }
        | TypedExpr::Int { location, .. }
        | TypedExpr::Trace { location, .. }
        | TypedExpr::Var { location, .. }
        | TypedExpr::Todo { location, .. }
        | TypedExpr::ErrorTerm { location, .. }
        | TypedExpr::When { location, .. }
        | TypedExpr::Call { location, .. }
        | TypedExpr::If { location, .. }
        | TypedExpr::List { location, .. }
        | TypedExpr::BinOp { location, .. }
        | TypedExpr::Tuple { location, .. }
        | TypedExpr::String { location, .. }
        | TypedExpr::UnOp { location, .. }
        | TypedExpr::Sequence { location, .. }
        | TypedExpr::Pipeline { location, .. }
        | TypedExpr::ByteArray { location, .. }
        | TypedExpr::Assignment { location, .. }
        | TypedExpr::TupleIndex { location, .. }
        | TypedExpr::ModuleSelect { location, .. }
        | TypedExpr::RecordAccess { location, .. }
        | TypedExpr::RecordUpdate { location, .. } => location,
    }
}

/// Whether every conditional of an expression has at least one branch, at
/// any depth. Every expression that type inference hands over is so.
pub open spec fn well_formed(e: TypedExpr) -> bool
    decreases e,
{
    match e {
        TypedExpr::Sequence { expressions, .. } | TypedExpr::Pipeline { expressions, .. } => forall|
            i: int,
        |
            0 <= i < expressions@.len() ==> well_formed(#[trigger] expressions@[i]),
        TypedExpr::Fn { body, .. } => well_formed(*body),
        TypedExpr::List { elements, tail, .. } => (forall|i: int|
            0 <= i < elements@.len() ==> well_formed(#[trigger] elements@[i])) && match tail {
            Some(t) => well_formed(*t),
            None => true,
        },
        TypedExpr::Call { fun, args, .. } => well_formed(*fun) && forall|i: int|
            0 <= i < args@.len() ==> well_formed((#[trigger] args@[i]).value),
        TypedExpr::BinOp { left, right, .. } => well_formed(*left) && well_formed(*right),
        TypedExpr::Assignment { value, .. } => well_formed(*value),
        TypedExpr::Trace { then, .. } => well_formed(*then),
        TypedExpr::When { subjects, clauses, .. } => (forall|i: int|
            0 <= i < subjects@.len() ==> well_formed(#[trigger] subjects@[i])) && forall|i: int|
            0 <= i < clauses@.len() ==> well_formed((#[trigger] clauses@[i]).body),
        TypedExpr::If { branches, final_else, .. } => branches@.len() > 0 && well_formed(
            *final_else,
        ) && forall|i: int|
            0 <= i < branches@.len() ==> well_formed((#[trigger] branches@[i]).condition)
                && well_formed(branches@[i].body),
        TypedExpr::RecordAccess { record, .. } => well_formed(*record),
        TypedExpr::Tuple { elems, .. } => forall|i: int|
            0 <= i < elems@.len() ==> well_formed(#[trigger] elems@[i]),
        TypedExpr::TupleIndex { tuple, .. } => well_formed(*tuple),
        TypedExpr::RecordUpdate { spread, args, .. } => well_formed(*spread) && forall|i: int|
            0 <= i < args@.len() ==> well_formed((#[trigger] args@[i]).value),
        TypedExpr::UnOp { value, .. } => well_formed(*value),
        _ => true,
    }
}

/// The place that gives an expression its type: the first branch's body for
/// a conditional, the last expression for a block, the expression itself
/// for every other one.
pub open spec fn defining_location(e: TypedExpr) -> Span
    recommends
        well_formed(e),
    decreases e,
{
    match e {
        TypedExpr::If { branches, .. } => if branches@.len() > 0 {
            defining_location(branches[0].body)
        } else {
            arbitrary()
        },
        TypedExpr::Sequence { expressions, location } => if expressions@.len() == 0 {
            location
        } else {
            expr_location(expressions[expressions@.len() - 1])
        },
        _ => expr_location(e),
    }
}

impl TypedExpr {
    pub fn tipo(&self) -> (r: Type)
        ensures
            r@ == expr_type(*self),
        decreases self,
    {
        match self {
            TypedExpr::Var { constructor, .. } => constructor.tipo.duplicate(),
            TypedExpr::Trace { then, .. } => then.tipo(),
            TypedExpr::Fn { tipo, .. }
            | TypedExpr::Int { tipo, .. }
            | TypedExpr::Todo { tipo, .. }
            | TypedExpr::ErrorTerm { tipo, .. }
            | TypedExpr::When { tipo, .. }
            | TypedExpr::List { tipo, .. }
            | TypedExpr::Call { tipo, .. }
            | TypedExpr::If { tipo, .. }
            | TypedExpr::UnOp { tipo, .. }
            | TypedExpr::BinOp { tipo, .. }
            | TypedExpr::Tuple { tipo, .. }
            | TypedExpr::String { tipo, .. }
            | TypedExpr::ByteArray { tipo, .. }
            | TypedExpr::TupleIndex { tipo, .. }
            | TypedExpr::Assignment { tipo, .. }
            | TypedExpr::ModuleSelect { tipo, .. }
            | TypedExpr::RecordAccess { tipo, .. }
            | TypedExpr::RecordUpdate { tipo, .. } => tipo.duplicate(),
            TypedExpr::Pipeline { expressions, .. } | TypedExpr::Sequence { expressions, .. } => {
                if expressions.len() == 0 {
                    Type::plain("Void")
                } else {
                    expressions[expressions.len() - 1].tipo()
                }
            },
        }
    }

    pub fn is_literal(&self) -> (r: bool)
        ensures
            r == (self is Int || self is List || self is Tuple || self is String
                || self is ByteArray),
    {
        match self {
            TypedExpr::Int { .. }
            | TypedExpr::List { .. }
            | TypedExpr::Tuple { .. }
            | TypedExpr::String { .. }
            | TypedExpr::ByteArray { .. } => true,
            _ => false,
        }
    }

    pub fn is_assignment(&self) -> (r: bool)
        ensures
            r == (self is Assignment),
    {
        match self {
            TypedExpr::Assignment { .. } => true,
            _ => false,
        }
    }

    /// Where the name that the expression is was defined: known for a
    /// variable and for a name selected from a module, and for nothing else.
    pub fn definition_location(&self) -> (r: Option<DefinitionLocation<'_>>)
        ensures
            match self {
                TypedExpr::ModuleSelect { module_name, constructor, .. } => r.is_some()
                    && r.unwrap().module.is_some() && r.unwrap().module.unwrap()@ == module_name@
                    && r.unwrap().span == match constructor {
                    ModuleValueConstructor::Record { location, .. } => *location,
                    ModuleValueConstructor::Fn { location, .. } => *location,
                    ModuleValueConstructor::Constant { location, .. } => *location,
                },
                TypedExpr::Var { constructor, .. } => r.is_some() && r.unwrap().span
                    == constructor.defining_span() && match r.unwrap().module {
                    Some(module) => constructor.defining_module() == Some(module@),
                    None => constructor.defining_module().is_none(),
                },
                _ => r.is_none(),
            },
    {
        match self {
            TypedExpr::ModuleSelect { module_name, constructor, .. } => Some(
                DefinitionLocation {
                    module: Some(module_name.as_str()),
                    span: constructor.location(),
                },
            ),
            TypedExpr::Var { constructor, .. } => Some(constructor.definition_location()),
            _ => None,
        }
    }

    /// The place that gives the expression its type. The expression is
    /// well formed: its conditionals have branches.
    pub fn type_defining_location(&self) -> (r: Span)
        requires
            well_formed(*self),
        ensures
            r == defining_location(*self),
        decreases self,
    {
        match self {
            TypedExpr::If { branches, .. } => {
                assert(well_formed(branches@[0].body));
                branches[0].body.type_defining_location()
            },
            TypedExpr::Sequence { expressions, location } => {
                if expressions.len() == 0 {
                    *location
                } else {
                    expressions[expressions.len() - 1].location()
                }
            },
            _ => self.location(),
        }
    }

    pub fn location(&self) -> (r: Span)
        ensures
            r == expr_location(*self),
    {
        match self {
            TypedExpr::Fn { location, .. }
            | TypedExpr::Int { location, .. }
            | TypedExpr::Trace { location, .. }
            | TypedExpr::Var { location, .. }
            | TypedExpr::Todo { location, .. }
            | TypedExpr::ErrorTerm { location, .. }
            | TypedExpr::When { location, .. }
            | TypedExpr::Call { location, .. }
            | TypedExpr::If { location, .. }
            | TypedExpr::List { location, .. }
            | TypedExpr::BinOp { location, .. }
            | TypedExpr::Tuple { location, .. }
            | TypedExpr::String { location, .. }
            | TypedExpr::UnOp { location, .. }
            | TypedExpr::Sequence { location, .. }
            | TypedExpr::Pipeline { location, .. }
            | TypedExpr::ByteArray { location, .. }
            | TypedExpr::Assignment { location, .. }
            | TypedExpr::TupleIndex { location, .. }
            | TypedExpr::ModuleSelect { location, .. }
            | TypedExpr::RecordAccess { location, .. }
            | TypedExpr::RecordUpdate { location, .. } => *location,
        }
    }
}

} // verus!
