use vstd::prelude::*;
use crate::air::AirView;
use crate::ast::{CallArg, Clause, Constant, IfBranch, Pattern, Span, TypedArg, TypedFunction};
use crate::builder::{FunctionAccessKey, PropsView, SubjectKind};
use crate::error::Halt;
use crate::expr::{expr_type, TypedExpr};
use crate::id_gen::succ;
use crate::pattern_spec::{local_var, lower_assignment, lower_when, tail_name, DataTypes};
use crate::search::first_position;
use crate::sorting::sorted_by_position;
use crate::text::decimal;
use crate::tipo::{
    ModuleValueConstructor,
    TypeInfo,
    TypeView,
    ValueConstructor,
    ValueConstructorVariant,
    ValueConstructorView,
    VariantView,
};

verus! {

/// What the lowering holds between two steps: the next fresh identifier and
/// whether the program reads fields of records.
pub ghost struct LowerState {
    pub next_id: u64,
    pub needs_field_access: bool,
}

/// What the lowering reads and does not change.
pub ghost struct LowerEnv {
    pub functions: Seq<(FunctionAccessKey, TypedFunction)>,
    pub data_types: DataTypes,
    pub module_types: Seq<(String, TypeInfo)>,
}

/// What a lowering gives: the instructions and the state afterwards.
pub ghost struct Lowered {
    pub ir: Seq<AirView>,
    pub st: LowerState,
}

/// A scope one level below `scope`, named by a fresh identifier.
pub open spec fn child(scope: Seq<u64>, id: u64) -> Seq<u64> {
    scope.push(id)
}

/// The instructions of a module's constant. They all stand in the given
/// scope.
pub open spec fn lower_constant(literal: Constant, scope: Seq<u64>) -> Result<Seq<AirView>, Halt>
    decreases literal, 0nat,
{
    match literal {
        Constant::Int { value, .. } => Ok(seq![AirView::Int { scope, value: value@ }]),
        Constant::String { value, .. } => Ok(seq![AirView::String { scope, value: value@ }]),
        Constant::ByteArray { bytes, .. } => Ok(seq![AirView::ByteArray { scope, bytes: bytes@ }]),
        Constant::List { elements, tipo, .. } => match lower_constants(elements@, 0, scope) {
            Err(e) => Err(e),
            Ok(items) => Ok(
                seq![
                    AirView::List {
                        scope,
                        count: elements@.len() as usize,
                        tipo: tipo@,
                        tail: false,
                    },
                ] + items,
            ),
        },
        Constant::Tuple { .. } => Err(Halt::Unsupported),
    }
}

/// The instructions of the constants from position `from` on.
pub open spec fn lower_constants(items: Seq<Constant>, from: nat, scope: Seq<u64>) -> Result<
    Seq<AirView>,
    Halt,
>
    decreases items, items.len() - from,
{
    if from >= items.len() {
        Ok(Seq::empty())
    } else {
        match lower_constant(items[from as int], scope) {
            Err(e) => Err(e),
            Ok(first) => match lower_constants(items, from + 1, scope) {
                Err(e) => Err(e),
                Ok(rest) => Ok(first + rest),
            },
        }
    }
}

/// The names under which the parameters of a function are bound.
pub open spec fn parameter_names(args: Seq<TypedArg>) -> Seq<Seq<char>> {
    Seq::new(args.len(), |i: int| args[i].arg_name.bound_name())
}

/// The position of the function of the given module and name, as written.
pub open spec fn function_position(
    functions: Seq<(FunctionAccessKey, TypedFunction)>,
    module: Seq<char>,
    name: Seq<char>,
    variant: Seq<char>,
) -> Option<int> {
    first_position(
        functions,
        |entry: (FunctionAccessKey, TypedFunction)|
            entry.0.module_name@ == module && entry.0.function_name@ == name
                && entry.0.variant_name@ == variant,
    )
}

/// The position of the module of the given name.
pub open spec fn module_position(modules: Seq<(String, TypeInfo)>, name: Seq<char>) -> Option<
    int,
> {
    first_position(modules, |entry: (String, TypeInfo)| entry.0@ == name)
}

/// The position of the value of the given name in a module.
pub open spec fn value_position(values: Seq<(String, ValueConstructor)>, name: Seq<char>) -> Option<
    int,
> {
    first_position(values, |entry: (String, ValueConstructor)| entry.0@ == name)
}

/// What a name selected from a module becomes: a reference to a function
/// that the generator knows, a built-in that the module offers, or the
/// instructions of a constant.
pub open spec fn lower_module_select(
    constructor: ModuleValueConstructor,
    module_name: Seq<char>,
    tipo: TypeView,
    scope: Seq<u64>,
    env: LowerEnv,
) -> Result<Seq<AirView>, Halt> {
    match constructor {
        ModuleValueConstructor::Record { .. } => Err(Halt::Unsupported),
        ModuleValueConstructor::Fn { name, module, .. } => match function_position(
            env.functions,
            module_name,
            name@,
            Seq::empty(),
        ) {
            Some(f) => Ok(
                seq![
                    AirView::Var {
                        scope,
                        constructor: ValueConstructorView {
                            public: true,
                            variant: VariantView::ModuleFn {
                                name: name@,
                                field_map: None,
                                module: module@,
                                arity: env.functions[f].1.arguments@.len() as usize,
                                location: Span::spec_empty(),
                                builtin: None,
                            },
                            tipo,
                        },
                        name: module@ + "_"@ + name@,
                        variant_name: Seq::empty(),
                    },
                ],
            ),
            None => match module_position(env.module_types, module_name) {
                None => Err(Halt::Missing),
                Some(m) => match value_position(env.module_types[m].1.values@, name@) {
                    None => Err(Halt::Missing),
                    Some(v) => match env.module_types[m].1.values@[v].1.variant {
                        ValueConstructorVariant::ModuleFn { builtin: Some(func), .. } => Ok(
                            seq![AirView::Builtin { scope, func, tipo }],
                        ),
                        _ => Err(Halt::ImpossibleShape),
                    },
                },
            },
        },
        ModuleValueConstructor::Constant { literal, .. } => lower_constant(literal, scope),
    }
}

/// How heavy a clause is when the clauses of a match on a list are put in
/// order: the number of items that its pattern asks for, one more with a
/// tail; a clause whose pattern is no list pattern is heavier than any list
/// pattern that a program can hold.
pub open spec fn clause_weight(clause: Clause) -> usize {
    if clause.pattern@.len() == 0 {
        10000000
    } else {
        match clause.pattern@[0] {
            Pattern::List { elements, tail, .. } => if elements@.len() >= 10000000 {
                10000000
            } else {
                (elements@.len() + if tail.is_some() {
                    1nat
                } else {
                    0nat
                }) as usize
            },
            _ => 10000000,
        }
    }
}

/// The order in which the clauses of a match are taken: for a match on a
/// list, from the lightest to the heaviest, clauses of equal weight in the
/// order of the source; for every other match, the order of the source.
pub open spec fn clause_order(clauses: Seq<Clause>) -> Seq<usize> {
    if clauses.len() > 0 && clauses[0].pattern@.len() > 0 && clauses[0].pattern@[0] is List {
        let sorted = sorted_by_position(
            Seq::new(clauses.len(), |i: int| (clause_weight(clauses[i]), i as usize)),
        );
        Seq::new(sorted.len(), |i: int| sorted[i].1)
    } else {
        Seq::new(clauses.len(), |i: int| i as usize)
    }
}

/// Whether a pair occurs among the first `upto` of the given pairs.
pub open spec fn occurs(items: Seq<(usize, Seq<char>)>, item: (usize, Seq<char>), upto: nat) -> bool
    decreases upto,
{
    if upto == 0 || upto > items.len() {
        false
    } else {
        items[upto - 1] == item || occurs(items, item, (upto - 1) as nat)
    }
}

/// The first `upto` of the pairs of `current` that do not occur in
/// `previous`, in their order.
pub open spec fn added(
    current: Seq<(usize, Seq<char>)>,
    previous: Seq<(usize, Seq<char>)>,
    upto: nat,
) -> Seq<(usize, Seq<char>)>
    decreases upto,
{
    if upto == 0 || upto > current.len() {
        Seq::empty()
    } else {
        let head = added(current, previous, (upto - 1) as nat);
        if occurs(previous, current[upto - 1], previous.len()) {
            head
        } else {
            head.push(current[upto - 1])
        }
    }
}

/// The instruction that heads a clause, and the properties with which the
/// next clause starts. `before` are the properties before the clause's
/// pattern was lowered, `after` those after it; `last` says whether no
/// clause but the final one follows.
pub open spec fn clause_head(
    before: PropsView,
    after: PropsView,
    subject_type: TypeView,
    scope: Seq<u64>,
    last: bool,
) -> Result<(AirView, PropsView), Halt> {
    match before.kind {
        SubjectKind::Constr => Ok(
            (
                AirView::Clause {
                    scope,
                    tipo: subject_type,
                    subject_name: before.original_subject_name,
                    complex_clause: after.is_complex_clause,
                },
                after,
            ),
        ),
        SubjectKind::List { current_index } => match after.kind {
            SubjectKind::List { current_index: index_after } => if index_after == usize::MAX {
                Err(Halt::Malformed)
            } else {
                Ok(
                    (
                        AirView::ListClause {
                            scope,
                            tipo: subject_type,
                            tail_name: if current_index == 0 {
                                before.original_subject_name
                            } else {
                                tail_name((current_index - 1) as nat)
                            },
                            next_tail_name: if last {
                                None
                            } else {
                                Some(tail_name(current_index as nat))
                            },
                            complex_clause: after.is_complex_clause,
                            inverse: false,
                        },
                        PropsView {
                            kind: SubjectKind::List { current_index: (index_after + 1) as usize },
                            ..after
                        },
                    ),
                )
            },
            _ => Err(Halt::ImpossibleShape),
        },
        SubjectKind::Tuple { defined_tuple_indices } => match after.kind {
            SubjectKind::Tuple { defined_tuple_indices: defined_after } => Ok(
                (
                    AirView::TupleClause {
                        scope,
                        tipo: subject_type,
                        indices: added(defined_after, defined_tuple_indices, defined_after.len()),
                        predefined_indices: defined_tuple_indices,
                        subject_name: before.original_subject_name,
                        count: subject_type.inner_types().len() as usize,
                        complex_clause: after.is_complex_clause,
                    },
                    after,
                ),
            ),
            _ => Err(Halt::ImpossibleShape),
        },
    }
}

/// What the clauses of a match but the final one give, and the properties of
/// the match.
pub ghost struct LoweredClauses {
    pub ir: Seq<AirView>,
    pub st: LowerState,
    pub props: PropsView,
}

/// What an expression becomes: its instruction, then the instructions of
/// its operands. The first operand of a block stands in the scope of the
/// block; every other operand gets a scope of its own below it.
pub open spec fn lower_expr(e: TypedExpr, scope: Seq<u64>, st: LowerState, env: LowerEnv) -> Result<
    Lowered,
    Halt,
>
    decreases e, 1nat, 0nat,
{
    match e {
        TypedExpr::Int { value, .. } => Ok(
            Lowered { ir: seq![AirView::Int { scope, value: value@ }], st },
        ),
        TypedExpr::String { value, .. } => Ok(
            Lowered { ir: seq![AirView::String { scope, value: value@ }], st },
        ),
        TypedExpr::ByteArray { bytes, .. } => Ok(
            Lowered { ir: seq![AirView::ByteArray { scope, bytes: bytes@ }], st },
        ),
        TypedExpr::Pipeline { expressions, .. } | TypedExpr::Sequence { expressions, .. } => {
            lower_sequence(expressions@, 0, scope, st, env)
        },
        TypedExpr::Var { constructor, name, .. } => match constructor.variant {
            ValueConstructorVariant::ModuleConstant { literal, .. } => match lower_constant(
                literal,
                scope,
            ) {
                Ok(ir) => Ok(Lowered { ir, st }),
                Err(e) => Err(e),
            },
            ValueConstructorVariant::ModuleFn { builtin: Some(func), .. } => Ok(
                Lowered { ir: seq![AirView::Builtin { scope, func, tipo: constructor.tipo@ }], st },
            ),
            _ => Ok(
                Lowered {
                    ir: seq![
                        AirView::Var {
                            scope,
                            constructor: constructor@,
                            name: name@,
                            variant_name: Seq::empty(),
                        },
                    ],
                    st,
                },
            ),
        },
        TypedExpr::Fn { args, body, .. } => match lower_expr(
            *body,
            child(scope, st.next_id),
            LowerState { next_id: succ(st.next_id), ..st },
            env,
        ) {
            Err(e) => Err(e),
            Ok(inner) => Ok(
                Lowered {
                    ir: seq![AirView::Fn { scope, params: parameter_names(args@) }] + inner.ir,
                    st: inner.st,
                },
            ),
        },
        TypedExpr::List { elements, tail, tipo, .. } => match lower_each(
            elements@,
            0,
            scope,
            st,
            env,
        ) {
            Err(e) => Err(e),
            Ok(items) => match tail {
                None => Ok(
                    Lowered {
                        ir: seq![
                            AirView::List {
                                scope,
                                count: elements@.len() as usize,
                                tipo: tipo@,
                                tail: false,
                            },
                        ] + items.ir,
                        st: items.st,
                    },
                ),
                Some(t) => match lower_expr(
                    *t,
                    child(scope, items.st.next_id),
                    LowerState { next_id: succ(items.st.next_id), ..items.st },
                    env,
                ) {
                    Err(e) => Err(e),
                    Ok(rest) => Ok(
                        Lowered {
                            ir: seq![
                                AirView::List {
                                    scope,
                                    count: elements@.len() as usize,
                                    tipo: tipo@,
                                    tail: true,
                                },
                            ] + items.ir + rest.ir,
                            st: rest.st,
                        },
                    ),
                },
            },
        },
        TypedExpr::Call { fun, args, .. } => match lower_expr(
            *fun,
            child(scope, st.next_id),
            LowerState { next_id: succ(st.next_id), ..st },
            env,
        ) {
            Err(e) => Err(e),
            Ok(callee) => match lower_arguments_of_call(args@, 0, scope, callee.st, env) {
                Err(e) => Err(e),
                Ok(operands) => Ok(
                    Lowered {
                        ir: seq![AirView::Call { scope, count: args@.len() as usize }] + callee.ir
                            + operands.ir,
                        st: operands.st,
                    },
                ),
            },
        },
        TypedExpr::BinOp { name, left, right, .. } => match lower_expr(
            *left,
            child(scope, st.next_id),
            LowerState { next_id: succ(succ(st.next_id)), ..st },
            env,
        ) {
            Err(e) => Err(e),
            Ok(l) => match lower_expr(*right, child(scope, succ(st.next_id)), l.st, env) {
                Err(e) => Err(e),
                Ok(r) => Ok(
                    Lowered {
                        ir: seq![
                            AirView::BinOp { scope, name, count: 2, tipo: expr_type(*left) },
                        ] + l.ir + r.ir,
                        st: r.st,
                    },
                ),
            },
        },
        TypedExpr::Assignment { value, pattern, kind, tipo, .. } => match lower_expr(
            *value,
            child(scope, st.next_id),
            LowerState { next_id: succ(st.next_id), ..st },
            env,
        ) {
            Err(e) => Err(e),
            Ok(v) => match lower_assignment(
                pattern,
                v.ir,
                tipo@,
                kind,
                scope,
                v.st.next_id,
                env.data_types,
            ) {
                Err(e) => Err(e),
                Ok((ir, id)) => Ok(Lowered { ir, st: LowerState { next_id: id, ..v.st } }),
            },
        },
        TypedExpr::When { .. } => lower_match(e, scope, st, env),
        TypedExpr::If { branches, final_else, .. } => match lower_branches(
            branches@,
            0,
            scope,
            st,
            env,
        ) {
            Err(e) => Err(e),
            Ok(taken) => match lower_expr(
                *final_else,
                child(scope, taken.st.next_id),
                LowerState { next_id: succ(taken.st.next_id), ..taken.st },
                env,
            ) {
                Err(e) => Err(e),
                Ok(otherwise) => Ok(Lowered { ir: taken.ir + otherwise.ir, st: otherwise.st }),
            },
        },
        TypedExpr::RecordAccess { record, index, tipo, .. } => match lower_expr(
            *record,
            scope,
            LowerState { needs_field_access: true, ..st },
            env,
        ) {
            Err(e) => Err(e),
            Ok(inner) => Ok(
                Lowered {
                    ir: seq![AirView::RecordAccess { scope, index, tipo: tipo@ }] + inner.ir,
                    st: inner.st,
                },
            ),
        },
        TypedExpr::ModuleSelect { constructor, module_name, tipo, .. } => match lower_module_select(
            constructor,
            module_name@,
            tipo@,
            scope,
            env,
        ) {
            Ok(ir) => Ok(Lowered { ir, st }),
            Err(e) => Err(e),
        },
        TypedExpr::Todo { label, tipo, .. } => Ok(
            Lowered {
                ir: seq![AirView::Todo { scope, label: crate::air::text_view(label), tipo: tipo@ }],
                st,
            },
        ),
        TypedExpr::RecordUpdate { .. } => Err(Halt::Unsupported),
        TypedExpr::UnOp { value, op, .. } => match lower_expr(*value, scope, st, env) {
            Err(e) => Err(e),
            Ok(inner) => Ok(
                Lowered { ir: seq![AirView::UnOp { scope, op }] + inner.ir, st: inner.st },
            ),
        },
        TypedExpr::Tuple { elems, tipo, .. } => match lower_each(elems@, 0, scope, st, env) {
            Err(e) => Err(e),
            Ok(items) => Ok(
                Lowered {
                    ir: seq![
                        AirView::Tuple { scope, tipo: tipo@, count: elems@.len() as usize },
                    ] + items.ir,
                    st: items.st,
                },
            ),
        },
        TypedExpr::Trace { tipo, then, text, .. } => match lower_expr(
            *then,
            child(scope, st.next_id),
            LowerState { next_id: succ(st.next_id), ..st },
            env,
        ) {
            Err(e) => Err(e),
            Ok(inner) => Ok(
                Lowered {
                    ir: seq![
                        AirView::Trace { scope, text: crate::air::text_view(text), tipo: tipo@ },
                    ] + inner.ir,
                    st: inner.st,
                },
            ),
        },
        TypedExpr::TupleIndex { index, tuple, .. } => match lower_expr(*tuple, scope, st, env) {
            Err(e) => Err(e),
            Ok(inner) => Ok(
                Lowered {
                    ir: seq![AirView::TupleIndex { scope, tipo: expr_type(*tuple), index }]
                        + inner.ir,
                    st: inner.st,
                },
            ),
        },
        TypedExpr::ErrorTerm { tipo, label, .. } => Ok(
            Lowered {
                ir: seq![
                    AirView::ErrorTerm { scope, tipo: tipo@, label: crate::air::text_view(label) },
                ],
                st,
            },
        ),
    }
}

/// The expressions of a block from position `from` on: the first of the
/// block in the scope of the block, every other one in a scope of its own.
pub open spec fn lower_sequence(
    expressions: Seq<TypedExpr>,
    from: nat,
    scope: Seq<u64>,
    st: LowerState,
    env: LowerEnv,
) -> Result<Lowered, Halt>
    decreases expressions, 0nat, expressions.len() - from,
{
    if from >= expressions.len() {
        Ok(Lowered { ir: Seq::empty(), st })
    } else {
        match (if from == 0 {
            lower_expr(expressions[0], scope, st, env)
        } else {
            lower_expr(
                expressions[from as int],
                child(scope, st.next_id),
                LowerState { next_id: succ(st.next_id), ..st },
                env,
            )
        }) {
            Err(e) => Err(e),
            Ok(first) => match lower_sequence(expressions, from + 1, scope, first.st, env) {
                Err(e) => Err(e),
                Ok(rest) => Ok(Lowered { ir: first.ir + rest.ir, st: rest.st }),
            },
        }
    }
}

/// The expressions from position `from` on, each in a scope of its own.
pub open spec fn lower_each(
    expressions: Seq<TypedExpr>,
    from: nat,
    scope: Seq<u64>,
    st: LowerState,
    env: LowerEnv,
) -> Result<Lowered, Halt>
    decreases expressions, 0nat, expressions.len() - from,
{
    if from >= expressions.len() {
        Ok(Lowered { ir: Seq::empty(), st })
    } else {
        match lower_expr(
            expressions[from as int],
            child(scope, st.next_id),
            LowerState { next_id: succ(st.next_id), ..st },
            env,
        ) {
            Err(e) => Err(e),
            Ok(first) => match lower_each(expressions, from + 1, scope, first.st, env) {
                Err(e) => Err(e),
                Ok(rest) => Ok(Lowered { ir: first.ir + rest.ir, st: rest.st }),
            },
        }
    }
}

/// The arguments of a call from position `from` on, each in a scope of its
/// own.
pub open spec fn lower_arguments_of_call(
    args: Seq<CallArg>,
    from: nat,
    scope: Seq<u64>,
    st: LowerState,
    env: LowerEnv,
) -> Result<Lowered, Halt>
    decreases args, 0nat, args.len() - from,
{
    if from >= args.len() {
        Ok(Lowered { ir: Seq::empty(), st })
    } else {
        match lower_expr(
            args[from as int].value,
            child(scope, st.next_id),
            LowerState { next_id: succ(st.next_id), ..st },
            env,
        ) {
            Err(e) => Err(e),
            Ok(first) => match lower_arguments_of_call(args, from + 1, scope, first.st, env) {
                Err(e) => Err(e),
                Ok(rest) => Ok(Lowered { ir: first.ir + rest.ir, st: rest.st }),
            },
        }
    }
}

/// The branches of a conditional from position `from` on. Every branch gets
/// a scope of its own for its condition and its body; the instruction of
/// the first branch stands in the scope of the conditional. A conditional
/// has at least one branch: one without is of an impossible shape.
pub open spec fn lower_branches(
    branches: Seq<IfBranch>,
    from: nat,
    scope: Seq<u64>,
    st: LowerState,
    env: LowerEnv,
) -> Result<Lowered, Halt>
    decreases branches, 0nat, branches.len() - from,
{
    if branches.len() == 0 {
        Err(Halt::ImpossibleShape)
    } else if from >= branches.len() {
        Ok(Lowered { ir: Seq::empty(), st })
    } else {
        let branch_scope = child(scope, st.next_id);
        match lower_expr(
            branches[from as int].condition,
            branch_scope,
            LowerState { next_id: succ(st.next_id), ..st },
            env,
        ) {
            Err(e) => Err(e),
            Ok(condition) => match lower_expr(
                branches[from as int].body,
                branch_scope,
                condition.st,
                env,
            ) {
                Err(e) => Err(e),
                Ok(body) => match lower_branches(branches, from + 1, scope, body.st, env) {
                    Err(e) => Err(e),
                    Ok(rest) => Ok(
                        Lowered {
                            ir: seq![
                                AirView::If {
                                    scope: if from == 0 {
                                        scope
                                    } else {
                                        branch_scope
                                    },
                                },
                            ] + condition.ir + body.ir + rest.ir,
                            st: rest.st,
                        },
                    ),
                },
            },
        }
    }
}

/// The clauses of a match but the final one, in the given order from
/// position `from` on; `count` is their number. Every clause gets a scope of
/// its own.
pub open spec fn lower_clauses(
    clauses: Seq<Clause>,
    order: Seq<usize>,
    from: nat,
    count: nat,
    props: PropsView,
    subject_type: TypeView,
    scope: Seq<u64>,
    st: LowerState,
    env: LowerEnv,
) -> Result<LoweredClauses, Halt>
    decreases clauses, 0nat, count - from,
{
    if from >= count {
        Ok(LoweredClauses { ir: Seq::empty(), st, props })
    } else if from >= order.len() || order[from as int] >= clauses.len() {
        Err(Halt::Malformed)
    } else {
        let clause = clauses[order[from as int] as int];
        let clause_scope = child(scope, st.next_id);
        let before = PropsView { is_complex_clause: false, ..props };
        match lower_expr(
            clause.body,
            clause_scope,
            LowerState { next_id: succ(st.next_id), ..st },
            env,
        ) {
            Err(e) => Err(e),
            Ok(then) => if clause.pattern@.len() == 0 {
                Err(Halt::ImpossibleShape)
            } else {
                match lower_when(
                    clause.pattern@[0],
                    then.ir,
                    subject_type,
                    before,
                    clause_scope,
                    then.st.next_id,
                    env.data_types,
                ) {
                    Err(e) => Err(e),
                    Ok(matched) => match clause_head(
                        before,
                        matched.props,
                        subject_type,
                        clause_scope,
                        from == count - 1,
                    ) {
                        Err(e) => Err(e),
                        Ok((head, next_props)) => match lower_clauses(
                            clauses,
                            order,
                            from + 1,
                            count,
                            next_props,
                            subject_type,
                            scope,
                            LowerState { next_id: matched.next_id, ..then.st },
                            env,
                        ) {
                            Err(e) => Err(e),
                            Ok(rest) => Ok(
                                LoweredClauses {
                                    ir: seq![head] + matched.ir + rest.ir,
                                    st: rest.st,
                                    props: rest.props,
                                },
                            ),
                        },
                    },
                }
            },
        }
    }
}

/// The name under which a match binds its subject.
pub open spec fn subject_name(id: u64) -> Seq<char> {
    "__subject_name_"@ + decimal(id as nat)
}

/// The name under which a match binds the whole of a constructor value.
pub open spec fn constr_name(id: u64) -> Seq<char> {
    "__constr_name_"@ + decimal(id as nat)
}

/// What a match becomes: the subject bound, then the clauses in order, the
/// last one without a test.
pub open spec fn lower_match(
    e: TypedExpr,
    scope: Seq<u64>,
    st: LowerState,
    env: LowerEnv,
) -> Result<Lowered, Halt>
    recommends
        e is When,
    decreases e, 0nat, 0nat,
{
    let subjects = e->When_subjects@;
    let clauses = e->When_clauses@;
    if !(e is When) || subjects.len() == 0 || clauses.len() == 0 || clauses[0].pattern@.len() == 0 {
        Err(Halt::ImpossibleShape)
    } else {
        let subject = subjects[0];
        let tipo = expr_type(subject);
        let name = subject_name(st.next_id);
        let constr_var = constr_name(succ(st.next_id));
        let order = clause_order(clauses);
        let count = (clauses.len() - 1) as nat;
        match lower_clauses(
            clauses,
            order,
            0,
            count,
            PropsView::init(tipo, constr_var, name),
            tipo,
            scope,
            LowerState { next_id: succ(succ(st.next_id)), ..st },
            env,
        ) {
            Err(e) => Err(e),
            Ok(tested) => if order.len() != clauses.len() || order[count as int] >= clauses.len() {
                Err(Halt::Malformed)
            } else {
                let last = clauses[order[count as int] as int];
                let final_scope = child(scope, tested.st.next_id);
                if last.pattern@.len() == 0 {
                    Err(Halt::ImpossibleShape)
                } else {
                    match lower_expr(
                        last.body,
                        final_scope,
                        LowerState { next_id: succ(tested.st.next_id), ..tested.st },
                        env,
                    ) {
                        Err(e) => Err(e),
                        Ok(then) => match lower_when(
                            last.pattern@[0],
                            then.ir,
                            tipo,
                            tested.props,
                            final_scope,
                            then.st.next_id,
                            env.data_types,
                        ) {
                            Err(e) => Err(e),
                            Ok(matched) => {
                                let patterns = tested.ir + seq![
                                    AirView::Finally { scope: final_scope },
                                ] + matched.ir;
                                let after = LowerState { next_id: matched.next_id, ..then.st };
                                if matched.props.needs_constr_var {
                                    match lower_expr(subject, scope, after, env) {
                                        Err(e) => Err(e),
                                        Ok(s) => Ok(
                                            Lowered {
                                                ir: seq![
                                                    AirView::Lam { scope, name: constr_var },
                                                ] + s.ir + seq![
                                                    AirView::When {
                                                        scope,
                                                        subject_name: name,
                                                        tipo,
                                                    },
                                                    local_var(
                                                        child(scope, s.st.next_id),
                                                        tipo,
                                                        constr_var,
                                                    ),
                                                ] + patterns,
                                                st: LowerState {
                                                    next_id: succ(s.st.next_id),
                                                    ..s.st
                                                },
                                            },
                                        ),
                                    }
                                } else {
                                    match lower_expr(
                                        subject,
                                        child(scope, after.next_id),
                                        LowerState { next_id: succ(after.next_id), ..after },
                                        env,
                                    ) {
                                        Err(e) => Err(e),
                                        Ok(s) => Ok(
                                            Lowered {
                                                ir: seq![
                                                    AirView::When {
                                                        scope,
                                                        subject_name: name,
                                                        tipo,
                                                    },
                                                ] + s.ir + patterns,
                                                st: s.st,
                                            },
                                        ),
                                    }
                                }
                            },
                        },
                    }
                }
            },
        }
    }
}

} // verus!
