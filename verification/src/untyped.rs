use vstd::prelude::*;
use crate::ast::{ArgName, AssignmentKind, BinOp, Span, UnOp};

verus! {

/// A pattern, as the parser hands it over.
#[derive(Debug, PartialEq, Eq)]
pub enum UntypedPattern {
    Int { location: Span, value: String },
    String { location: Span, value: String },
    Var { location: Span, name: String },
    Assign { name: String, location: Span, pattern: Box<UntypedPattern> },
    Discard { name: String, location: Span },
    List { location: Span, elements: Vec<UntypedPattern>, tail: Option<Box<UntypedPattern>> },
    Constructor {
        location: Span,
        name: String,
        arguments: Vec<UntypedPatternArg>,
        module: Option<String>,
        with_spread: bool,
    },
    Tuple { location: Span, elems: Vec<UntypedPattern> },
}

/// One argument of a constructor pattern.
#[derive(Debug, PartialEq, Eq)]
pub struct UntypedPatternArg {
    pub label: Option<String>,
    pub location: Span,
    pub value: UntypedPattern,
}

/// A parameter of an anonymous function.
#[derive(Debug, PartialEq, Eq)]
pub struct UntypedArg {
    pub arg_name: ArgName,
    pub location: Span,
}

/// One argument of a call.
#[derive(Debug, PartialEq, Eq)]
pub struct UntypedCallArg {
    pub label: Option<String>,
    pub location: Span,
    pub value: UntypedExpr,
}

/// One clause of a match.
#[derive(Debug, PartialEq, Eq)]
pub struct UntypedClause {
    pub location: Span,
    pub pattern: Vec<UntypedPattern>,
    pub body: UntypedExpr,
}

/// One branch of a conditional.
#[derive(Debug, PartialEq, Eq)]
pub struct UntypedIfBranch {
    pub condition: UntypedExpr,
    pub body: UntypedExpr,
    pub location: Span,
}

/// Why code is still to be written.
#[derive(Debug, Clone, Copy, PartialEq, Eq)]
pub enum TodoKind {
    Keyword,
    EmptyFunction,
}

/// The record that a record update starts from.
#[derive(Debug, PartialEq, Eq)]
pub struct RecordUpdateSpread {
    pub base: Box<UntypedExpr>,
    pub location: Span,
}

/// One field that a record update sets.
#[derive(Debug, PartialEq, Eq)]
pub struct UntypedRecordUpdateArg {
    pub label: String,
    pub location: Span,
    pub value: UntypedExpr,
}

/// An expression, as the parser hands it over.
#[derive(Debug, PartialEq, Eq)]
pub enum UntypedExpr {
    Int { location: Span, value: String },
    String { location: Span, value: String },
    Sequence { location: Span, expressions: Vec<UntypedExpr> },
    Var { location: Span, name: String },
    Fn { location: Span, is_capture: bool, arguments: Vec<UntypedArg>, body: Box<UntypedExpr> },
    List { location: Span, elements: Vec<UntypedExpr>, tail: Option<Box<UntypedExpr>> },
    Call { arguments: Vec<UntypedCallArg>, fun: Box<UntypedExpr>, location: Span },
    BinOp { location: Span, name: BinOp, left: Box<UntypedExpr>, right: Box<UntypedExpr> },
    ByteArray { location: Span, bytes: Vec<u8> },
    /// A chain of pipes. It has at least one expression.
    PipeLine { expressions: Vec<UntypedExpr> },
    Assignment {
        location: Span,
        value: Box<UntypedExpr>,
        pattern: UntypedPattern,
        kind: AssignmentKind,
    },
    Trace { location: Span, then: Box<UntypedExpr>, text: Option<String> },
    When { location: Span, subjects: Vec<UntypedExpr>, clauses: Vec<UntypedClause> },
    /// A conditional. It has at least one branch.
    If { location: Span, branches: Vec<UntypedIfBranch>, final_else: Box<UntypedExpr> },
    FieldAccess { location: Span, label: String, container: Box<UntypedExpr> },
    Tuple { location: Span, elems: Vec<UntypedExpr> },
    TupleIndex { location: Span, index: usize, tuple: Box<UntypedExpr> },
    Todo { kind: TodoKind, location: Span, label: Option<String> },
    ErrorTerm { location: Span, label: Option<String> },
    RecordUpdate {
        location: Span,
        constructor: Box<UntypedExpr>,
        spread: RecordUpdateSpread,
        arguments: Vec<UntypedRecordUpdateArg>,
    },
    UnOp { op: UnOp, location: Span, value: Box<UntypedExpr> },
}

/// Whether every chain of pipes of an expression has at least one
/// expression and every conditional at least one branch, at any depth.
/// Every expression that the parser hands over is so.
pub open spec fn well_formed(e: UntypedExpr) -> bool
    decreases e,
{
    match e {
        UntypedExpr::Sequence { expressions, .. } => forall|i: int|
            0 <= i < expressions@.len() ==> well_formed(#[trigger] expressions@[i]),
        UntypedExpr::PipeLine { expressions } => expressions@.len() > 0 && forall|i: int|
            0 <= i < expressions@.len() ==> well_formed(#[trigger] expressions@[i]),
        UntypedExpr::Fn { body, .. } => well_formed(*body),
        UntypedExpr::List { elements, tail, .. } => (forall|i: int|
            0 <= i < elements@.len() ==> well_formed(#[trigger] elements@[i])) && match tail {
            Some(t) => well_formed(*t),
            None => true,
        },
        UntypedExpr::Call { arguments, fun, .. } => well_formed(*fun) && forall|i: int|
            0 <= i < arguments@.len() ==> well_formed((#[trigger] arguments@[i]).value),
        UntypedExpr::BinOp { left, right, .. } => well_formed(*left) && well_formed(*right),
        UntypedExpr::Assignment { value, .. } => well_formed(*value),
        UntypedExpr::Trace { then, .. } => well_formed(*then),
        UntypedExpr::When { subjects, clauses, .. } => (forall|i: int|
            0 <= i < subjects@.len() ==> well_formed(#[trigger] subjects@[i])) && forall|i: int|
            0 <= i < clauses@.len() ==> well_formed((#[trigger] clauses@[i]).body),
        UntypedExpr::If { branches, final_else, .. } => branches@.len() > 0 && well_formed(
            *final_else,
        ) && forall|i: int|
            0 <= i < branches@.len() ==> well_formed((#[trigger] branches@[i]).condition)
                && well_formed(branches@[i].body),
        UntypedExpr::FieldAccess { container, .. } => well_formed(*container),
        UntypedExpr::Tuple { elems, .. } => forall|i: int|
            0 <= i < elems@.len() ==> well_formed(#[trigger] elems@[i]),
        UntypedExpr::TupleIndex { tuple, .. } => well_formed(*tuple),
        UntypedExpr::RecordUpdate { constructor, spread, arguments, .. } => well_formed(
            *constructor,
        ) && well_formed(*spread.base) && forall|i: int|
            0 <= i < arguments@.len() ==> well_formed((#[trigger] arguments@[i]).value),
        UntypedExpr::UnOp { value, .. } => well_formed(*value),
        _ => true,
    }
}

/// The place of an expression in the source: that of the last expression
/// for a chain of pipes and for a block that is not empty, that of what
/// follows for a trace.
pub open spec fn untyped_location(e: UntypedExpr) -> Span
    recommends
        well_formed(e),
    decreases e,
{
    match e {
        UntypedExpr::PipeLine { expressions } => if expressions@.len() > 0 {
            untyped_location(expressions[expressions@.len() - 1])
        } else {
            arbitrary()
        },
        UntypedExpr::Trace { then, .. } => untyped_location(*then),
        UntypedExpr::Sequence { location, expressions } => if expressions@.len() == 0 {
            location
        } else {
            untyped_location(expressions[expressions@.len() - 1])
        },
        UntypedExpr::Fn { location, .. }
        | UntypedExpr::Var { location, .. }
        | UntypedExpr::Int { location, .. }
        | UntypedExpr::Todo { location, .. }
        | UntypedExpr::ErrorTerm { location, .. }
        | UntypedExpr::When { location, .. }
        | UntypedExpr::Call { location, .. }
        | UntypedExpr::List { location, .. }
        | UntypedExpr::ByteArray { location, .. }
        | UntypedExpr::BinOp { location, .. }
        | UntypedExpr::Tuple { location, .. }
        | UntypedExpr::String { location, .. }
        | UntypedExpr::Assignment { location, .. }
        | UntypedExpr::TupleIndex { location, .. }
        | UntypedExpr::FieldAccess { location, .. }
        | UntypedExpr::RecordUpdate { location, .. }
        | UntypedExpr::UnOp { location, .. }
        | UntypedExpr::If { location, .. } => location,
    }
}

/// The offset at which an expression starts: that of the first expression
/// for a block and for a chain of pipes, the own place for a trace and an
/// assignment, and the start of the place for every other one.
pub open spec fn untyped_start(e: UntypedExpr) -> usize
    recommends
        well_formed(e),
    decreases e,
{
    match e {
        UntypedExpr::Sequence { expressions, location } => if expressions@.len() == 0 {
            location.start
        } else {
            untyped_start(expressions[0])
        },
        UntypedExpr::PipeLine { expressions } => if expressions@.len() > 0 {
            untyped_start(expressions[0])
        } else {
            arbitrary()
        },
        UntypedExpr::Trace { location, .. } | UntypedExpr::Assignment { location, .. } => {
            location.start
        },
        _ => untyped_location(e).start,
    }
}

impl UntypedExpr {
    /// The two expressions as one block that reaches from the start of the
    /// first to the end of the second. Where both are blocks the block holds
    /// the expressions of both; where only the second is one, the first
    /// comes in front of the expressions of the second; else the block holds
    /// the two.
    pub fn append_in_sequence(self, next: UntypedExpr) -> (r: UntypedExpr)
        requires
            well_formed(self),
            well_formed(next),
        ensures
            well_formed(r),
            r matches UntypedExpr::Sequence { location, expressions } && location == (Span {
                start: untyped_location(self).start,
                end: untyped_location(next).end,
            }) && expressions@ == match (self, next) {
                (
                    UntypedExpr::Sequence { expressions: first, .. },
                    UntypedExpr::Sequence { expressions: second, .. },
                ) => first@ + second@,
                (_, UntypedExpr::Sequence { expressions: second, .. }) => seq![self] + second@,
                (_, _) => seq![self, next],
            },
    {
        let location = Span { start: self.location().start, end: next.location().end };
        match next {
            UntypedExpr::Sequence { expressions: mut next_expressions, .. } => match self {
                UntypedExpr::Sequence { expressions: mut current_expressions, .. } => {
                    current_expressions.append(&mut next_expressions);
                    UntypedExpr::Sequence { location, expressions: current_expressions }
                },
                first => {
                    let mut current_expressions: Vec<UntypedExpr> = Vec::new();
                    current_expressions.push(first);
                    current_expressions.append(&mut next_expressions);
                    UntypedExpr::Sequence { location, expressions: current_expressions }
                },
            },
            second => {
                let mut expressions: Vec<UntypedExpr> = Vec::new();
                expressions.push(self);
                expressions.push(second);
                UntypedExpr::Sequence { location, expressions }
            },
        }
    }

    /// The place of the expression in the source. The expression is well
    /// formed: its chains of pipes are not empty.
    pub fn location(&self) -> (r: Span)
        requires
            well_formed(*self),
        ensures
            r == untyped_location(*self),
        decreases self,
    {
        match self {
            UntypedExpr::PipeLine { expressions } => {
                assert(well_formed(expressions@[expressions@.len() - 1]));
                expressions[expressions.len() - 1].location()
            },
            UntypedExpr::Trace { then, .. } => then.location(),
            UntypedExpr::Sequence { location, expressions } => {
                if expressions.len() == 0 {
                    *location
                } else {
                    expressions[expressions.len() - 1].location()
                }
            },
            UntypedExpr::Fn { location, .. }
            | UntypedExpr::Var { location, .. }
            | UntypedExpr::Int { location, .. }
            | UntypedExpr::Todo { location, .. }
            | UntypedExpr::ErrorTerm { location, .. }
            | UntypedExpr::When { location, .. }
            | UntypedExpr::Call { location, .. }
            | UntypedExpr::List { location, .. }
            | UntypedExpr::ByteArray { location, .. }
            | UntypedExpr::BinOp { location, .. }
            | UntypedExpr::Tuple { location, .. }
            | UntypedExpr::String { location, .. }
            | UntypedExpr::Assignment { location, .. }
            | UntypedExpr::TupleIndex { location, .. }
            | UntypedExpr::FieldAccess { location, .. }
            | UntypedExpr::RecordUpdate { location, .. }
            | UntypedExpr::UnOp { location, .. }
            | UntypedExpr::If { location, .. } => *location,
        }
    }

    /// The offset at which the expression starts. The expression is well
    /// formed.
    pub fn start_byte_index(&self) -> (r: usize)
        requires
            well_formed(*self),
        ensures
            r == untyped_start(*self),
        decreases self,
    {
        match self {
            UntypedExpr::Sequence { expressions, location } => {
                if expressions.len() == 0 {
                    location.start
                } else {
                    expressions[0].start_byte_index()
                }
            },
            UntypedExpr::PipeLine { expressions } => {
                assert(well_formed(expressions@[0]));
                expressions[0].start_byte_index()
            },
            UntypedExpr::Trace { location, .. } | UntypedExpr::Assignment { location, .. } => {
                location.start
            },
            _ => self.location().start,
        }
    }

    /// How tightly the expression binds as an operand: as its operator
    /// for a binary operation, 5 for a chain of pipes, and tighter than any
    /// operator for every other expression.
    pub fn binop_precedence(&self) -> (r: u8)
        ensures
            r == match self {
                UntypedExpr::BinOp { name, .. } => name.spec_precedence(),
                UntypedExpr::PipeLine { .. } => 5u8,
                _ => u8::MAX,
            },
    {
        match self {
            UntypedExpr::BinOp { name, .. } => name.precedence(),
            UntypedExpr::PipeLine { .. } => 5,
            _ => u8::MAX,
        }
    }

    pub fn is_simple_constant(&self) -> (r: bool)
        ensures
            r == (self is String || self is Int || self is ByteArray),
    {
        match self {
            UntypedExpr::String { .. } | UntypedExpr::Int { .. } | UntypedExpr::ByteArray { .. } => {
                true
            },
            _ => false,
        }
    }
}

} // verus!
