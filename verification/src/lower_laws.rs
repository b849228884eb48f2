use vstd::prelude::*;
use crate::air::AirView;
use crate::ast::{AssignmentKind, CallArg, Clause, Constant, IfBranch, Pattern, PatternArg};
use crate::builder::{PropsView, SubjectKind};
use crate::expr::{expr_type, TypedExpr};
use crate::expr_spec::{
    child,
    clause_head,
    clause_order,
    lower_arguments_of_call,
    lower_branches,
    lower_clauses,
    lower_constant,
    lower_constants,
    lower_each,
    lower_expr,
    lower_match,
    lower_module_select,
    lower_sequence,
    LowerEnv,
    LowerState,
};
use crate::id_gen::succ;
use crate::pattern_spec::{
    constructor_of,
    data_type_of,
    field_labels,
    fields_expose,
    labeled_bindings,
    list_test,
    lower_arguments,
    lower_assignment,
    lower_elements,
    lower_nested,
    lower_nested_arguments,
    lower_nested_elements,
    lower_nested_list,
    lower_pattern,
    lower_tuple_elements,
    lower_when,
    lower_when_inner,
    nested_list_props,
    positional_bindings,
    rebound,
    record_field_map,
    tail_binding,
    with_needs_of_all,
    with_needs_of_arguments,
    without_labels,
    DataTypes,
};
use crate::sorting::sorted_by_position;
use crate::tipo::{FieldMapView, ModuleValueConstructor, TypeView, ValueConstructorVariant};

verus! {

/// Whether every instruction stands in the given scope or below it, and
/// none of them defines a function.
pub open spec fn within(ir: Seq<AirView>, scope: Seq<u64>) -> bool {
    forall|i: int|
        0 <= i < ir.len() ==> scope.is_prefix_of((#[trigger] ir[i]).scope()) && !(ir[i]
            is DefineFunc)
}

pub proof fn lemma_within_concat(a: Seq<AirView>, b: Seq<AirView>, scope: Seq<u64>)
    requires
        within(a, scope),
        within(b, scope),
    ensures
        within(a + b, scope),
{
    assert forall|i: int| 0 <= i < (a + b).len() implies scope.is_prefix_of(
        (#[trigger] (a + b)[i]).scope(),
    ) && !((a + b)[i] is DefineFunc) by {
        if i < a.len() {
            assert((a + b)[i] == a[i]);
        } else {
            assert((a + b)[i] == b[i - a.len()]);
        }
    }
}

pub proof fn lemma_within_child(ir: Seq<AirView>, scope: Seq<u64>, id: u64)
    requires
        within(ir, child(scope, id)),
    ensures
        within(ir, scope),
{
    assert forall|i: int| 0 <= i < ir.len() implies scope.is_prefix_of(
        (#[trigger] ir[i]).scope(),
    ) && !(ir[i] is DefineFunc) by {
        let inner = child(scope, id);
        assert(inner.is_prefix_of(ir[i].scope()));
        assert forall|j: int| 0 <= j < scope.len() implies scope[j] == ir[i].scope()[j] by {
            assert(inner[j] == scope[j]);
        }
    }
}

proof fn lemma_rebound_within(
    defined: Seq<(usize, Seq<char>)>,
    names: Seq<Seq<char>>,
    types: Seq<TypeView>,
    scope: Seq<u64>,
    upto: nat,
)
    ensures
        within(rebound(defined, names, types, scope, upto), scope),
    decreases upto,
{
    if upto == 0 || upto > names.len() || upto > types.len() {
    } else {
        lemma_rebound_within(defined, names, types, scope, (upto - 1) as nat);
    }
}

proof fn lemma_constants_within(items: Seq<Constant>, from: nat, scope: Seq<u64>)
    requires
        lower_constants(items, from, scope) is Ok,
    ensures
        within(lower_constants(items, from, scope).unwrap(), scope),
    decreases items, items.len() - from,
{
    if from < items.len() {
        lemma_constant_within(items[from as int], scope);
        lemma_constants_within(items, from + 1, scope);
        lemma_within_concat(
            lower_constant(items[from as int], scope).unwrap(),
            lower_constants(items, from + 1, scope).unwrap(),
            scope,
        );
    }
}

/// The instructions of a constant stand in the scope they were made for.
pub proof fn lemma_constant_within(literal: Constant, scope: Seq<u64>)
    requires
        lower_constant(literal, scope) is Ok,
    ensures
        within(lower_constant(literal, scope).unwrap(), scope),
    decreases literal, 0nat,
{
    match literal {
        Constant::List { elements, tipo, .. } => {
            lemma_constants_within(elements@, 0, scope);
        },
        _ => {},
    }
}

proof fn lemma_elements_within(
    elements: Seq<Pattern>,
    from: nat,
    tipo: TypeView,
    scope: Seq<u64>,
    next_id: u64,
    data_types: DataTypes,
)
    requires
        lower_elements(elements, from, tipo, scope, next_id, data_types) is Ok,
    ensures
        within(lower_elements(elements, from, tipo, scope, next_id, data_types).unwrap().1, scope),
    decreases elements, 0nat, elements.len() - from,
{
    if from < elements.len() {
        match elements[from as int] {
            Pattern::Var { .. } => {
                lemma_elements_within(elements, from + 1, tipo, scope, next_id, data_types);
            },
            Pattern::List { .. } => {
                let values = seq![
                    crate::pattern_spec::local_var(
                        scope,
                        TypeView::plain(Seq::empty()),
                        crate::pattern_spec::list_item_name(next_id),
                    ),
                ];
                lemma_pattern_within(
                    elements[from as int],
                    values,
                    tipo.inner_types()[0],
                    scope,
                    succ(next_id),
                    data_types,
                );
                let first = lower_pattern(
                    elements[from as int],
                    values,
                    tipo.inner_types()[0],
                    scope,
                    succ(next_id),
                    data_types,
                ).unwrap();
                lemma_elements_within(elements, from + 1, tipo, scope, first.1, data_types);
                lemma_within_concat(
                    first.0,
                    lower_elements(elements, from + 1, tipo, scope, first.1, data_types).unwrap().1,
                    scope,
                );
            },
            _ => {},
        }
    }
}

proof fn lemma_arguments_within(
    arguments: Seq<PatternArg>,
    from: nat,
    field_map: Option<FieldMapView>,
    scope: Seq<u64>,
    next_id: u64,
    data_types: DataTypes,
)
    requires
        lower_arguments(arguments, from, field_map, scope, next_id, data_types) is Ok,
    ensures
        within(
            lower_arguments(arguments, from, field_map, scope, next_id, data_types).unwrap().1,
            scope,
        ),
    decreases arguments, 0nat, arguments.len() - from,
{
    if from < arguments.len() {
        let item = arguments[from as int];
        match item.value {
            Pattern::Var { .. } => {
                lemma_arguments_within(arguments, from + 1, field_map, scope, next_id, data_types);
            },
            Pattern::Discard { .. } => {
                lemma_arguments_within(arguments, from + 1, field_map, scope, next_id, data_types);
            },
            Pattern::Constructor { tipo, name, .. } => {
                let values = seq![
                    crate::pattern_spec::local_var(
                        scope,
                        tipo@,
                        crate::pattern_spec::constructor_var_name(name@, next_id),
                    ),
                ];
                lemma_pattern_within(item.value, values, tipo@, scope, succ(next_id), data_types);
                let first = lower_pattern(
                    item.value,
                    values,
                    tipo@,
                    scope,
                    succ(next_id),
                    data_types,
                ).unwrap();
                lemma_arguments_within(arguments, from + 1, field_map, scope, first.1, data_types);
                lemma_within_concat(
                    first.0,
                    lower_arguments(
                        arguments,
                        from + 1,
                        field_map,
                        scope,
                        first.1,
                        data_types,
                    ).unwrap().1,
                    scope,
                );
            },
            _ => {},
        }
    }
}

/// The instructions of a pattern of an assignment stand in the scope of the
/// assignment or below it, as far as the instructions of the value do.
pub proof fn lemma_pattern_within(
    pattern: Pattern,
    values: Seq<AirView>,
    tipo: TypeView,
    scope: Seq<u64>,
    next_id: u64,
    data_types: DataTypes,
)
    requires
        within(values, scope),
        lower_pattern(pattern, values, tipo, scope, next_id, data_types) is Ok,
    ensures
        within(lower_pattern(pattern, values, tipo, scope, next_id, data_types).unwrap().0, scope),
    decreases pattern, 0nat, 0nat,
{
    match pattern {
        Pattern::Discard { .. } => {
            lemma_within_concat(seq![AirView::Discard { scope }], values, scope);
        },
        Pattern::List { elements, tail, .. } => {
            lemma_elements_within(elements@, 0, tipo, scope, next_id, data_types);
            let (names, nested, id) = lower_elements(
                elements@,
                0,
                tipo,
                scope,
                next_id,
                data_types,
            ).unwrap();
            let head = seq![
                AirView::ListAccessor {
                    scope,
                    tipo,
                    names: match tail_binding(tail).unwrap() {
                        Some(n) => names.push(n),
                        None => names,
                    },
                    tail: tail.is_some(),
                },
            ];
            lemma_within_concat(head, values, scope);
            lemma_within_concat(head + values, nested, scope);
        },
        Pattern::Constructor {
            is_record,
            name,
            arguments,
            constructor,
            tipo: pattern_type,
            ..
        } => {
            let (data_type, index) = constructor_of(pattern_type@, name@, data_types).unwrap();
            let types = pattern_type@.arg_types();
            if is_record {
                let field_map = record_field_map(constructor).unwrap();
                let labels = field_labels(data_type.constructors@[index], types.unwrap().len()).unwrap();
                lemma_arguments_within(arguments@, 0, Some(field_map), scope, next_id, data_types);
                let (items, nested, id) = lower_arguments(
                    arguments@,
                    0,
                    Some(field_map),
                    scope,
                    next_id,
                    data_types,
                ).unwrap();
                let bindings = labeled_bindings(
                    sorted_by_position(items),
                    labels,
                    types.unwrap(),
                    items.len(),
                ).unwrap();
                let expose = fields_expose(bindings, scope).unwrap();
                lemma_within_concat(expose, values, scope);
                lemma_within_concat(expose + values, nested, scope);
            } else {
                lemma_arguments_within(arguments@, 0, None, scope, next_id, data_types);
                let (items, nested, id) = lower_arguments(
                    arguments@,
                    0,
                    None,
                    scope,
                    next_id,
                    data_types,
                ).unwrap();
                let bindings = positional_bindings(
                    without_labels(items),
                    types.unwrap(),
                    items.len(),
                ).unwrap();
                let expose = fields_expose(bindings, scope).unwrap();
                lemma_within_concat(expose, values, scope);
                lemma_within_concat(expose + values, nested, scope);
            }
        },
        Pattern::Tuple { elems, .. } => {
            lemma_elements_within(elems@, 0, tipo, scope, next_id, data_types);
            let (names, nested, id) = lower_elements(
                elems@,
                0,
                tipo,
                scope,
                next_id,
                data_types,
            ).unwrap();
            let head = seq![AirView::TupleAccessor { scope, names, tipo }];
            lemma_within_concat(head, values, scope);
            lemma_within_concat(head + values, nested, scope);
        },
        _ => {},
    }
}

/// The instructions of an assignment stand in the scope of the assignment or
/// below it, as far as the instructions of the value do.
pub proof fn lemma_assignment_within(
    pattern: Pattern,
    values: Seq<AirView>,
    tipo: TypeView,
    kind: AssignmentKind,
    scope: Seq<u64>,
    next_id: u64,
    data_types: DataTypes,
)
    requires
        within(values, scope),
        lower_assignment(pattern, values, tipo, kind, scope, next_id, data_types) is Ok,
    ensures
        within(
            lower_assignment(pattern, values, tipo, kind, scope, next_id, data_types).unwrap().0,
            scope,
        ),
{
    match pattern {
        Pattern::Var { name, .. } => {
            lemma_within_concat(
                seq![AirView::Assignment { scope, name: name@, kind }],
                values,
                scope,
            );
        },
        Pattern::Int { .. }
        | Pattern::String { .. }
        | Pattern::VarUsage { .. }
        | Pattern::Assign { .. } => {},
        _ => {
            lemma_pattern_within(pattern, values, tipo, scope, next_id, data_types);
        },
    }
}

proof fn lemma_nested_elements_within(
    elements: Seq<Pattern>,
    from: nat,
    item_type: TypeView,
    scope: Seq<u64>,
    next_id: u64,
    data_types: DataTypes,
)
    requires
        lower_nested_elements(elements, from, item_type, scope, next_id, data_types) is Ok,
    ensures
        within(
            lower_nested_elements(elements, from, item_type, scope, next_id, data_types).unwrap().1,
            scope,
        ),
    decreases elements, 0nat, elements.len() - from,
{
    if from < elements.len() {
        lemma_nested_within(elements[from as int], item_type, scope, next_id, data_types);
        let nested = lower_nested(elements[from as int], item_type, scope, next_id, data_types).unwrap();
        lemma_nested_elements_within(elements, from + 1, item_type, scope, nested.next_id, data_types);
        lemma_within_concat(
            nested.ir,
            lower_nested_elements(
                elements,
                from + 1,
                item_type,
                scope,
                nested.next_id,
                data_types,
            ).unwrap().1,
            scope,
        );
    }
}

proof fn lemma_tuple_elements_within(
    elements: Seq<Pattern>,
    from: nat,
    types: Seq<TypeView>,
    scope: Seq<u64>,
    next_id: u64,
    data_types: DataTypes,
)
    requires
        lower_tuple_elements(elements, from, types, scope, next_id, data_types) is Ok,
    ensures
        within(
            lower_tuple_elements(elements, from, types, scope, next_id, data_types).unwrap().1,
            scope,
        ),
    decreases elements, 0nat, elements.len() - from,
{
    if from < elements.len() {
        lemma_nested_within(elements[from as int], types[from as int], scope, next_id, data_types);
        let nested = lower_nested(
            elements[from as int],
            types[from as int],
            scope,
            next_id,
            data_types,
        ).unwrap();
        lemma_tuple_elements_within(elements, from + 1, types, scope, nested.next_id, data_types);
        lemma_within_concat(
            nested.ir,
            lower_tuple_elements(
                elements,
                from + 1,
                types,
                scope,
                nested.next_id,
                data_types,
            ).unwrap().1,
            scope,
        );
    }
}

proof fn lemma_nested_arguments_within(
    arguments: Seq<PatternArg>,
    from: nat,
    field_map: Option<FieldMapView>,
    labels: Seq<Seq<char>>,
    types: Seq<TypeView>,
    scope: Seq<u64>,
    next_id: u64,
    data_types: DataTypes,
)
    requires
        lower_nested_arguments(arguments, from, field_map, labels, types, scope, next_id, data_types)
            is Ok,
    ensures
        within(
            lower_nested_arguments(
                arguments,
                from,
                field_map,
                labels,
                types,
                scope,
                next_id,
                data_types,
            ).unwrap().1,
            scope,
        ),
    decreases arguments, 0nat, arguments.len() - from,
{
    if from < arguments.len() {
        let item = arguments[from as int];
        let label = crate::pattern_spec::label_of(item.label);
        let item_type: TypeView = match field_map {
            Some(_) => match crate::pattern_spec::type_of_label(labels, types, label, labels.len()) {
                Some(t) => t,
                None => crate::pattern_spec::discard_type(),
            },
            None => types[from as int],
        };
        lemma_nested_within(item.value, item_type, scope, next_id, data_types);
        let nested = lower_nested(item.value, item_type, scope, next_id, data_types).unwrap();
        lemma_nested_arguments_within(
            arguments,
            from + 1,
            field_map,
            labels,
            types,
            scope,
            nested.next_id,
            data_types,
        );
        lemma_within_concat(
            nested.ir,
            lower_nested_arguments(
                arguments,
                from + 1,
                field_map,
                labels,
                types,
                scope,
                nested.next_id,
                data_types,
            ).unwrap().1,
            scope,
        );
    }
}

proof fn lemma_nested_list_within(
    pattern: Pattern,
    from: nat,
    item_name: Seq<char>,
    pattern_type: TypeView,
    scope: Seq<u64>,
    next_id: u64,
    data_types: DataTypes,
)
    requires
        lower_nested_list(pattern, from, item_name, pattern_type, scope, next_id, data_types) is Ok,
    ensures
        within(
            lower_nested_list(
                pattern,
                from,
                item_name,
                pattern_type,
                scope,
                next_id,
                data_types,
            ).unwrap().0,
            scope,
        ),
    decreases pattern, 2nat, pattern->List_elements@.len() - from,
{
    let elements = pattern->List_elements@;
    let tail = pattern->List_tail;
    if pattern is List && from < elements.len() {
        let previous = if from == 0 {
            item_name
        } else {
            crate::pattern_spec::nested_tail_name((from - 1) as nat)
        };
        let tests: Seq<AirView> = if from == elements.len() - 1 && tail.is_none() {
            list_test(
                scope,
                pattern_type,
                previous,
                Some(crate::pattern_spec::nested_tail_name(from)),
                false,
            ) + list_test(
                scope,
                pattern_type,
                crate::pattern_spec::nested_tail_name(from),
                None,
                true,
            )
        } else {
            list_test(
                scope,
                pattern_type,
                previous,
                Some(crate::pattern_spec::nested_tail_binding(tail).unwrap()),
                false,
            )
        };
        assert(within(tests, scope)) by {
            if from == elements.len() - 1 && tail.is_none() {
                lemma_within_concat(
                    list_test(
                        scope,
                        pattern_type,
                        previous,
                        Some(crate::pattern_spec::nested_tail_name(from)),
                        false,
                    ),
                    list_test(
                        scope,
                        pattern_type,
                        crate::pattern_spec::nested_tail_name(from),
                        None,
                        true,
                    ),
                    scope,
                );
            }
        }
        let props = nested_list_props(item_name, from as usize);
        lemma_when_within(pattern, Seq::empty(), pattern_type, props, scope, next_id, data_types);
        let matched = lower_when(
            pattern,
            Seq::empty(),
            pattern_type,
            props,
            scope,
            next_id,
            data_types,
        ).unwrap();
        lemma_nested_list_within(
            pattern,
            from + 1,
            item_name,
            pattern_type,
            scope,
            matched.next_id,
            data_types,
        );
        let rest = lower_nested_list(
            pattern,
            from + 1,
            item_name,
            pattern_type,
            scope,
            matched.next_id,
            data_types,
        ).unwrap().0;
        lemma_within_concat(tests, matched.ir, scope);
        lemma_within_concat(tests + matched.ir, rest, scope);
    }
}

/// The instructions of a pattern nested in the pattern of a clause stand in
/// the scope of the clause or below it.
pub proof fn lemma_nested_within(
    pattern: Pattern,
    pattern_type: TypeView,
    scope: Seq<u64>,
    next_id: u64,
    data_types: DataTypes,
)
    requires
        lower_nested(pattern, pattern_type, scope, next_id, data_types) is Ok,
    ensures
        within(lower_nested(pattern, pattern_type, scope, next_id, data_types).unwrap().ir, scope),
    decreases pattern, 3nat, 0nat,
{
    match pattern {
        Pattern::List { elements, .. } => {
            if elements@.len() > 0 {
                lemma_nested_list_within(
                    pattern,
                    0,
                    crate::pattern_spec::nested_list_name(next_id),
                    pattern_type,
                    scope,
                    succ(next_id),
                    data_types,
                );
            }
        },
        Pattern::Constructor { tipo, name, .. } => {
            let var_name = crate::pattern_spec::constructor_var_name(name@, next_id);
            let props = PropsView {
                clause_var_name: var_name,
                needs_constr_var: false,
                is_complex_clause: false,
                original_subject_name: var_name,
                kind: SubjectKind::Constr,
            };
            lemma_when_within(pattern, Seq::empty(), tipo@, props, scope, succ(next_id), data_types);
            let matched = lower_when(
                pattern,
                Seq::empty(),
                tipo@,
                props,
                scope,
                succ(next_id),
                data_types,
            ).unwrap();
            let data_type = data_type_of(tipo@, data_types).unwrap();
            let guard: Seq<AirView> = if data_type.constructors@.len() > 1 {
                seq![AirView::ClauseGuard { scope, subject_name: var_name, tipo: tipo@ }]
            } else {
                Seq::empty()
            };
            lemma_within_concat(guard, matched.ir, scope);
        },
        Pattern::Tuple { elems, .. } => {
            let item_name = crate::pattern_spec::nested_tuple_name(next_id);
            let props = PropsView {
                clause_var_name: item_name,
                needs_constr_var: false,
                is_complex_clause: false,
                original_subject_name: item_name,
                kind: SubjectKind::Tuple { defined_tuple_indices: Seq::empty() },
            };
            lemma_when_within(
                pattern,
                Seq::empty(),
                pattern_type,
                props,
                scope,
                succ(next_id),
                data_types,
            );
            let matched = lower_when(
                pattern,
                Seq::empty(),
                pattern_type,
                props,
                scope,
                succ(next_id),
                data_types,
            ).unwrap();
            match matched.props.kind {
                SubjectKind::Tuple { defined_tuple_indices } => {
                    lemma_within_concat(
                        seq![
                            AirView::TupleClause {
                                scope,
                                tipo: pattern_type,
                                indices: defined_tuple_indices,
                                predefined_indices: Seq::empty(),
                                subject_name: matched.props.original_subject_name,
                                count: elems@.len() as usize,
                                complex_clause: false,
                            },
                        ],
                        matched.ir,
                        scope,
                    );
                },
                _ => {},
            }
        },
        _ => {},
    }
}

/// The instructions of the pattern of a clause below its outermost layer
/// stand in the scope of the clause or below it, as far as the instructions
/// of what the clause is worth do.
pub proof fn lemma_when_inner_within(
    pattern: Pattern,
    values: Seq<AirView>,
    props: PropsView,
    tipo: TypeView,
    scope: Seq<u64>,
    next_id: u64,
    data_types: DataTypes,
)
    requires
        within(values, scope),
        lower_when_inner(pattern, values, props, tipo, scope, next_id, data_types) is Ok,
    ensures
        within(
            lower_when_inner(pattern, values, props, tipo, scope, next_id, data_types).unwrap().ir,
            scope,
        ),
    decreases pattern, 0nat, 0nat,
{
    match pattern {
        Pattern::Discard { .. } => {
            lemma_within_concat(seq![AirView::Discard { scope }], values, scope);
        },
        Pattern::List { elements, tail, .. } => {
            lemma_nested_elements_within(
                elements@,
                0,
                tipo.inner_types()[0],
                scope,
                next_id,
                data_types,
            );
            let (names, nested, id) = lower_nested_elements(
                elements@,
                0,
                tipo.inner_types()[0],
                scope,
                next_id,
                data_types,
            ).unwrap();
            let matched = lower_when_inner(
                pattern,
                values,
                props,
                tipo,
                scope,
                next_id,
                data_types,
            ).unwrap();
            let head = seq![matched.ir[0]];
            assert(matched.ir =~= head + nested + values);
            assert(within(head, scope));
            lemma_within_concat(head, nested, scope);
            lemma_within_concat(head + nested, values, scope);
        },
        Pattern::Constructor {
            is_record,
            name,
            arguments,
            constructor,
            tipo: pattern_type,
            ..
        } => {
            let (data_type, index) = constructor_of(pattern_type@, name@, data_types).unwrap();
            let types = pattern_type@.arg_types();
            if is_record {
                let field_map = record_field_map(constructor).unwrap();
                let labels = field_labels(data_type.constructors@[index], types.unwrap().len()).unwrap();
                lemma_nested_arguments_within(
                    arguments@,
                    0,
                    Some(field_map),
                    labels,
                    types.unwrap(),
                    scope,
                    next_id,
                    data_types,
                );
                let (items, nested, id) = lower_nested_arguments(
                    arguments@,
                    0,
                    Some(field_map),
                    labels,
                    types.unwrap(),
                    scope,
                    next_id,
                    data_types,
                ).unwrap();
                let bindings = labeled_bindings(
                    sorted_by_position(items),
                    labels,
                    types.unwrap(),
                    items.len(),
                ).unwrap();
                let expose = fields_expose(bindings, scope).unwrap();
                lemma_within_concat(expose, values, scope);
                lemma_within_concat(expose + values, nested, scope);
            } else {
                lemma_nested_arguments_within(
                    arguments@,
                    0,
                    None,
                    Seq::empty(),
                    types.unwrap(),
                    scope,
                    next_id,
                    data_types,
                );
                let (items, nested, id) = lower_nested_arguments(
                    arguments@,
                    0,
                    None,
                    Seq::empty(),
                    types.unwrap(),
                    scope,
                    next_id,
                    data_types,
                ).unwrap();
                let bindings = positional_bindings(
                    without_labels(items),
                    types.unwrap(),
                    items.len(),
                ).unwrap();
                let expose = fields_expose(bindings, scope).unwrap();
                lemma_within_concat(expose, values, scope);
                lemma_within_concat(expose + values, nested, scope);
            }
        },
        Pattern::Tuple { elems, .. } => {
            lemma_tuple_elements_within(elems@, 0, tipo.inner_types(), scope, next_id, data_types);
            let (names, nested, id) = lower_tuple_elements(
                elems@,
                0,
                tipo.inner_types(),
                scope,
                next_id,
                data_types,
            ).unwrap();
            match props.kind {
                SubjectKind::Tuple { defined_tuple_indices } => {
                    let bound = rebound(
                        defined_tuple_indices,
                        names,
                        tipo.inner_types(),
                        scope,
                        names.len(),
                    );
                    lemma_rebound_within(
                        defined_tuple_indices,
                        names,
                        tipo.inner_types(),
                        scope,
                        names.len(),
                    );
                    lemma_within_concat(bound, nested, scope);
                    lemma_within_concat(bound + nested, values, scope);
                },
                _ => {},
            }
        },
        _ => {},
    }
}

/// The instructions of the pattern of a clause stand in the scope of the
/// clause or below it, as far as the instructions of what the clause is
/// worth do.
pub proof fn lemma_when_within(
    pattern: Pattern,
    values: Seq<AirView>,
    tipo: TypeView,
    props: PropsView,
    scope: Seq<u64>,
    next_id: u64,
    data_types: DataTypes,
)
    requires
        within(values, scope),
        lower_when(pattern, values, tipo, props, scope, next_id, data_types) is Ok,
    ensures
        within(lower_when(pattern, values, tipo, props, scope, next_id, data_types).unwrap().ir, scope),
    decreases pattern, 1nat, 0nat,
{
    match pattern {
        Pattern::Int { value, .. } => {
            lemma_within_concat(seq![AirView::Int { scope, value: value@ }], values, scope);
        },
        Pattern::Var { name, .. } => {
            lemma_within_concat(
                seq![
                    AirView::Discard { scope },
                    AirView::Lam { scope, name: name@ },
                    crate::pattern_spec::local_var(scope, tipo, props.original_subject_name),
                ],
                values,
                scope,
            );
        },
        Pattern::Assign { name, pattern: inner, .. } => {
            let bound = seq![
                AirView::Lam { scope, name: name@ },
                crate::pattern_spec::local_var(scope, tipo, props.original_subject_name),
            ];
            lemma_within_concat(bound, values, scope);
            lemma_when_within(*inner, bound + values, tipo, props, scope, next_id, data_types);
        },
        Pattern::Discard { .. } => {
            lemma_within_concat(seq![AirView::Discard { scope }], values, scope);
        },
        Pattern::List { elements, tail, .. } => {
            let p1 = with_needs_of_all(props, elements@, elements@.len()).unwrap();
            let p2 = match tail {
                Some(t) => p1.with_needs_of(*t).unwrap(),
                None => p1,
            };
            let p3 = PropsView { needs_constr_var: false, ..p2 };
            lemma_when_inner_within(pattern, values, p3, tipo, scope, next_id, data_types);
            let matched = lower_when_inner(
                pattern,
                values,
                p3,
                tipo,
                scope,
                next_id,
                data_types,
            ).unwrap();
            lemma_within_concat(seq![AirView::Discard { scope }], matched.ir, scope);
        },
        Pattern::Constructor { arguments, name, .. } => {
            let temp = with_needs_of_arguments(
                PropsView { needs_constr_var: false, ..props },
                arguments@,
                arguments@.len(),
            ).unwrap();
            let (data_type, index) = constructor_of(tipo, name@, data_types).unwrap();
            let inner_values: Seq<AirView> = if temp.needs_constr_var {
                seq![crate::pattern_spec::local_var(scope, tipo, temp.clause_var_name)]
            } else {
                Seq::empty()
            };
            lemma_when_inner_within(pattern, inner_values, props, tipo, scope, next_id, data_types);
            let matched = lower_when_inner(
                pattern,
                inner_values,
                props,
                tipo,
                scope,
                next_id,
                data_types,
            ).unwrap();
            let tag: Seq<AirView> = if data_type.constructors@.len() > 1 {
                seq![AirView::Int { scope, value: crate::text::decimal(index as nat) }]
            } else {
                Seq::empty()
            };
            lemma_within_concat(tag, matched.ir, scope);
            lemma_within_concat(tag + matched.ir, values, scope);
        },
        Pattern::Tuple { elems, .. } => {
            let p1 = with_needs_of_all(props, elems@, elems@.len()).unwrap();
            let p2 = PropsView { needs_constr_var: false, ..p1 };
            lemma_when_inner_within(pattern, Seq::empty(), p2, tipo, scope, next_id, data_types);
            let matched = lower_when_inner(
                pattern,
                Seq::empty(),
                p2,
                tipo,
                scope,
                next_id,
                data_types,
            ).unwrap();
            lemma_within_concat(matched.ir, values, scope);
        },
        _ => {},
    }
}

proof fn lemma_one_within(ir: AirView, scope: Seq<u64>)
    requires
        scope.is_prefix_of(ir.scope()),
        !(ir is DefineFunc),
    ensures
        within(seq![ir], scope),
{
}

proof fn lemma_child_is_below(scope: Seq<u64>, id: u64)
    ensures
        scope.is_prefix_of(child(scope, id)),
{
}

proof fn lemma_sequence_within(
    expressions: Seq<TypedExpr>,
    from: nat,
    scope: Seq<u64>,
    st: LowerState,
    env: LowerEnv,
)
    requires
        lower_sequence(expressions, from, scope, st, env) is Ok,
    ensures
        within(lower_sequence(expressions, from, scope, st, env).unwrap().ir, scope),
    decreases expressions, 0nat, expressions.len() - from,
{
    if from < expressions.len() {
        let first = if from == 0 {
            lemma_lowering_stays_in_scope(expressions[0], scope, st, env);
            lower_expr(expressions[0], scope, st, env).unwrap()
        } else {
            let inner = child(scope, st.next_id);
            let st1 = LowerState { next_id: succ(st.next_id), ..st };
            lemma_lowering_stays_in_scope(expressions[from as int], inner, st1, env);
            lemma_within_child(
                lower_expr(expressions[from as int], inner, st1, env).unwrap().ir,
                scope,
                st.next_id,
            );
            lower_expr(expressions[from as int], inner, st1, env).unwrap()
        };
        lemma_sequence_within(expressions, from + 1, scope, first.st, env);
        lemma_within_concat(
            first.ir,
            lower_sequence(expressions, from + 1, scope, first.st, env).unwrap().ir,
            scope,
        );
    }
}

proof fn lemma_each_within(
    expressions: Seq<TypedExpr>,
    from: nat,
    scope: Seq<u64>,
    st: LowerState,
    env: LowerEnv,
)
    requires
        lower_each(expressions, from, scope, st, env) is Ok,
    ensures
        within(lower_each(expressions, from, scope, st, env).unwrap().ir, scope),
    decreases expressions, 0nat, expressions.len() - from,
{
    if from < expressions.len() {
        let inner = child(scope, st.next_id);
        let st1 = LowerState { next_id: succ(st.next_id), ..st };
        lemma_lowering_stays_in_scope(expressions[from as int], inner, st1, env);
        let first = lower_expr(expressions[from as int], inner, st1, env).unwrap();
        lemma_within_child(first.ir, scope, st.next_id);
        lemma_each_within(expressions, from + 1, scope, first.st, env);
        lemma_within_concat(
            first.ir,
            lower_each(expressions, from + 1, scope, first.st, env).unwrap().ir,
            scope,
        );
    }
}

proof fn lemma_call_arguments_within(
    args: Seq<CallArg>,
    from: nat,
    scope: Seq<u64>,
    st: LowerState,
    env: LowerEnv,
)
    requires
        lower_arguments_of_call(args, from, scope, st, env) is Ok,
    ensures
        within(lower_arguments_of_call(args, from, scope, st, env).unwrap().ir, scope),
    decreases args, 0nat, args.len() - from,
{
    if from < args.len() {
        let inner = child(scope, st.next_id);
        let st1 = LowerState { next_id: succ(st.next_id), ..st };
        lemma_lowering_stays_in_scope(args[from as int].value, inner, st1, env);
        let first = lower_expr(args[from as int].value, inner, st1, env).unwrap();
        lemma_within_child(first.ir, scope, st.next_id);
        lemma_call_arguments_within(args, from + 1, scope, first.st, env);
        lemma_within_concat(
            first.ir,
            lower_arguments_of_call(args, from + 1, scope, first.st, env).unwrap().ir,
            scope,
        );
    }
}

proof fn lemma_branches_within(
    branches: Seq<IfBranch>,
    from: nat,
    scope: Seq<u64>,
    st: LowerState,
    env: LowerEnv,
)
    requires
        lower_branches(branches, from, scope, st, env) is Ok,
    ensures
        within(lower_branches(branches, from, scope, st, env).unwrap().ir, scope),
    decreases branches, 0nat, branches.len() - from,
{
    if from < branches.len() {
        let inner = child(scope, st.next_id);
        let st1 = LowerState { next_id: succ(st.next_id), ..st };
        lemma_lowering_stays_in_scope(branches[from as int].condition, inner, st1, env);
        let condition = lower_expr(branches[from as int].condition, inner, st1, env).unwrap();
        lemma_within_child(condition.ir, scope, st.next_id);
        lemma_lowering_stays_in_scope(branches[from as int].body, inner, condition.st, env);
        let body = lower_expr(branches[from as int].body, inner, condition.st, env).unwrap();
        lemma_within_child(body.ir, scope, st.next_id);
        lemma_branches_within(branches, from + 1, scope, body.st, env);
        let rest = lower_branches(branches, from + 1, scope, body.st, env).unwrap().ir;
        let head = seq![
            AirView::If {
                scope: if from == 0 {
                    scope
                } else {
                    inner
                },
            },
        ];
        lemma_child_is_below(scope, st.next_id);
        assert(within(head, scope));
        lemma_within_concat(head, condition.ir, scope);
        lemma_within_concat(head + condition.ir, body.ir, scope);
        lemma_within_concat(head + condition.ir + body.ir, rest, scope);
    }
}

proof fn lemma_clauses_within(
    clauses: Seq<Clause>,
    order: Seq<usize>,
    from: nat,
    count: nat,
    props: PropsView,
    subject_type: TypeView,
    scope: Seq<u64>,
    st: LowerState,
    env: LowerEnv,
)
    requires
        lower_clauses(clauses, order, from, count, props, subject_type, scope, st, env) is Ok,
    ensures
        within(
            lower_clauses(clauses, order, from, count, props, subject_type, scope, st, env).unwrap().ir,
            scope,
        ),
    decreases clauses, 0nat, count - from,
{
    if from < count {
        let clause = clauses[order[from as int] as int];
        let inner = child(scope, st.next_id);
        let before = PropsView { is_complex_clause: false, ..props };
        let st1 = LowerState { next_id: succ(st.next_id), ..st };
        lemma_lowering_stays_in_scope(clause.body, inner, st1, env);
        let body = lower_expr(clause.body, inner, st1, env).unwrap();
        lemma_when_within(
            clause.pattern@[0],
            body.ir,
            subject_type,
            before,
            inner,
            body.st.next_id,
            env.data_types,
        );
        let matched = lower_when(
            clause.pattern@[0],
            body.ir,
            subject_type,
            before,
            inner,
            body.st.next_id,
            env.data_types,
        ).unwrap();
        let (head, next_props) = clause_head(
            before,
            matched.props,
            subject_type,
            inner,
            from == count - 1,
        ).unwrap();
        assert(head.scope() == inner);
        lemma_one_within(head, inner);
        lemma_within_concat(seq![head], matched.ir, inner);
        lemma_within_child(seq![head] + matched.ir, scope, st.next_id);
        let st2 = LowerState { next_id: matched.next_id, ..body.st };
        lemma_clauses_within(
            clauses,
            order,
            from + 1,
            count,
            next_props,
            subject_type,
            scope,
            st2,
            env,
        );
        lemma_within_concat(
            seq![head] + matched.ir,
            lower_clauses(
                clauses,
                order,
                from + 1,
                count,
                next_props,
                subject_type,
                scope,
                st2,
                env,
            ).unwrap().ir,
            scope,
        );
    }
}

#[verifier::rlimit(60)]
#[verifier::spinoff_prover]
proof fn lemma_match_within(e: TypedExpr, scope: Seq<u64>, st: LowerState, env: LowerEnv)
    requires
        lower_match(e, scope, st, env) is Ok,
    ensures
        within(lower_match(e, scope, st, env).unwrap().ir, scope),
    decreases e, 0nat, 0nat,
{
    let subjects = e->When_subjects@;
    let clauses = e->When_clauses@;
    let subject = subjects[0];
    let tipo = expr_type(subject);
    let name = crate::expr_spec::subject_name(st.next_id);
    let constr_var = crate::expr_spec::constr_name(succ(st.next_id));
    let order = clause_order(clauses);
    let count = (clauses.len() - 1) as nat;
    let st1 = LowerState { next_id: succ(succ(st.next_id)), ..st };
    let props = PropsView::init(tipo, constr_var, name);
    lemma_clauses_within(clauses, order, 0, count, props, tipo, scope, st1, env);
    let tested = lower_clauses(clauses, order, 0, count, props, tipo, scope, st1, env).unwrap();
    let last = clauses[order[count as int] as int];
    let final_scope = child(scope, tested.st.next_id);
    let st2 = LowerState { next_id: succ(tested.st.next_id), ..tested.st };
    lemma_lowering_stays_in_scope(last.body, final_scope, st2, env);
    let body = lower_expr(last.body, final_scope, st2, env).unwrap();
    lemma_when_within(
        last.pattern@[0],
        body.ir,
        tipo,
        tested.props,
        final_scope,
        body.st.next_id,
        env.data_types,
    );
    let matched = lower_when(
        last.pattern@[0],
        body.ir,
        tipo,
        tested.props,
        final_scope,
        body.st.next_id,
        env.data_types,
    ).unwrap();
    let finally = seq![AirView::Finally { scope: final_scope }];
    lemma_within_concat(finally, matched.ir, final_scope);
    lemma_within_child(finally + matched.ir, scope, tested.st.next_id);
    lemma_within_concat(tested.ir, finally + matched.ir, scope);
    let patterns = tested.ir + finally + matched.ir;
    assert(patterns =~= tested.ir + (finally + matched.ir));
    let after = LowerState { next_id: matched.next_id, ..body.st };
    if matched.props.needs_constr_var {
        lemma_lowering_stays_in_scope(subject, scope, after, env);
        let s = lower_expr(subject, scope, after, env).unwrap();
        let lam = seq![AirView::Lam { scope, name: constr_var }];
        let middle = seq![
            AirView::When { scope, subject_name: name, tipo },
            crate::pattern_spec::local_var(child(scope, s.st.next_id), tipo, constr_var),
        ];
        lemma_child_is_below(scope, s.st.next_id);
        assert(within(middle, scope));
        lemma_within_concat(lam, s.ir, scope);
        lemma_within_concat(lam + s.ir, middle, scope);
        lemma_within_concat(lam + s.ir + middle, patterns, scope);
    } else {
        let inner = child(scope, after.next_id);
        let st3 = LowerState { next_id: succ(after.next_id), ..after };
        lemma_lowering_stays_in_scope(subject, inner, st3, env);
        let s = lower_expr(subject, inner, st3, env).unwrap();
        lemma_within_child(s.ir, scope, after.next_id);
        let when = seq![AirView::When { scope, subject_name: name, tipo }];
        lemma_within_concat(when, s.ir, scope);
        lemma_within_concat(when + s.ir, patterns, scope);
    }
}

proof fn lemma_module_select_within(
    constructor: ModuleValueConstructor,
    module_name: Seq<char>,
    tipo: TypeView,
    scope: Seq<u64>,
    env: LowerEnv,
)
    requires
        lower_module_select(constructor, module_name, tipo, scope, env) is Ok,
    ensures
        within(lower_module_select(constructor, module_name, tipo, scope, env).unwrap(), scope),
{
    match constructor {
        ModuleValueConstructor::Constant { literal, .. } => {
            lemma_constant_within(literal, scope);
        },
        _ => {},
    }
}

/// Every instruction that the lowering of an expression gives stands in the
/// scope that the expression was lowered in, or in a scope below it. A
/// program is lowered in a root scope of one identifier, so the scope of
/// every instruction of its body is not empty and starts with the root.
/// None of the instructions defines a function: the definitions are put in
/// when the lowering is done.
#[verifier::rlimit(60)]
#[verifier::spinoff_prover]
pub proof fn lemma_lowering_stays_in_scope(
    e: TypedExpr,
    scope: Seq<u64>,
    st: LowerState,
    env: LowerEnv,
)
    requires
        lower_expr(e, scope, st, env) is Ok,
    ensures
        within(lower_expr(e, scope, st, env).unwrap().ir, scope),
    decreases e, 1nat, 0nat,
{
    match e {
        TypedExpr::Pipeline { expressions, .. } | TypedExpr::Sequence { expressions, .. } => {
            lemma_sequence_within(expressions@, 0, scope, st, env);
        },
        TypedExpr::Var { constructor, name, .. } => match constructor.variant {
            ValueConstructorVariant::ModuleConstant { literal, .. } => {
                lemma_constant_within(literal, scope);
            },
            _ => {},
        },
        TypedExpr::Fn { args, body, .. } => {
            let inner = child(scope, st.next_id);
            let st1 = LowerState { next_id: succ(st.next_id), ..st };
            lemma_lowering_stays_in_scope(*body, inner, st1, env);
            let b = lower_expr(*body, inner, st1, env).unwrap();
            lemma_within_child(b.ir, scope, st.next_id);
            lemma_within_concat(
                seq![AirView::Fn { scope, params: crate::expr_spec::parameter_names(args@) }],
                b.ir,
                scope,
            );
        },
        TypedExpr::List { elements, tail, tipo, .. } => {
            lemma_each_within(elements@, 0, scope, st, env);
            let items = lower_each(elements@, 0, scope, st, env).unwrap();
            let head = seq![
                AirView::List {
                    scope,
                    count: elements@.len() as usize,
                    tipo: tipo@,
                    tail: tail.is_some(),
                },
            ];
            lemma_within_concat(head, items.ir, scope);
            match tail {
                Some(t) => {
                    let inner = child(scope, items.st.next_id);
                    let st1 = LowerState { next_id: succ(items.st.next_id), ..items.st };
                    lemma_lowering_stays_in_scope(*t, inner, st1, env);
                    let rest = lower_expr(*t, inner, st1, env).unwrap();
                    lemma_within_child(rest.ir, scope, items.st.next_id);
                    lemma_within_concat(head + items.ir, rest.ir, scope);
                },
                None => {},
            }
        },
        TypedExpr::Call { fun, args, .. } => {
            let inner = child(scope, st.next_id);
            let st1 = LowerState { next_id: succ(st.next_id), ..st };
            lemma_lowering_stays_in_scope(*fun, inner, st1, env);
            let callee = lower_expr(*fun, inner, st1, env).unwrap();
            lemma_within_child(callee.ir, scope, st.next_id);
            lemma_call_arguments_within(args@, 0, scope, callee.st, env);
            let operands = lower_arguments_of_call(args@, 0, scope, callee.st, env).unwrap();
            let head = seq![AirView::Call { scope, count: args@.len() as usize }];
            lemma_within_concat(head, callee.ir, scope);
            lemma_within_concat(head + callee.ir, operands.ir, scope);
        },
        TypedExpr::BinOp { name, left, right, .. } => {
            let inner_left = child(scope, st.next_id);
            let inner_right = child(scope, succ(st.next_id));
            let st1 = LowerState { next_id: succ(succ(st.next_id)), ..st };
            lemma_lowering_stays_in_scope(*left, inner_left, st1, env);
            let l = lower_expr(*left, inner_left, st1, env).unwrap();
            lemma_within_child(l.ir, scope, st.next_id);
            lemma_lowering_stays_in_scope(*right, inner_right, l.st, env);
            let r = lower_expr(*right, inner_right, l.st, env).unwrap();
            lemma_within_child(r.ir, scope, succ(st.next_id));
            let head = seq![AirView::BinOp { scope, name, count: 2, tipo: expr_type(*left) }];
            lemma_within_concat(head, l.ir, scope);
            lemma_within_concat(head + l.ir, r.ir, scope);
        },
        TypedExpr::Assignment { value, pattern, kind, tipo, .. } => {
            let inner = child(scope, st.next_id);
            let st1 = LowerState { next_id: succ(st.next_id), ..st };
            lemma_lowering_stays_in_scope(*value, inner, st1, env);
            let v = lower_expr(*value, inner, st1, env).unwrap();
            lemma_within_child(v.ir, scope, st.next_id);
            lemma_assignment_within(
                pattern,
                v.ir,
                tipo@,
                kind,
                scope,
                v.st.next_id,
                env.data_types,
            );
        },
        TypedExpr::When { .. } => {
            lemma_match_within(e, scope, st, env);
        },
        TypedExpr::If { branches, final_else, .. } => {
            lemma_branches_within(branches@, 0, scope, st, env);
            let taken = lower_branches(branches@, 0, scope, st, env).unwrap();
            let inner = child(scope, taken.st.next_id);
            let st1 = LowerState { next_id: succ(taken.st.next_id), ..taken.st };
            lemma_lowering_stays_in_scope(*final_else, inner, st1, env);
            let otherwise = lower_expr(*final_else, inner, st1, env).unwrap();
            lemma_within_child(otherwise.ir, scope, taken.st.next_id);
            lemma_within_concat(taken.ir, otherwise.ir, scope);
        },
        TypedExpr::RecordAccess { record, index, tipo, .. } => {
            let st1 = LowerState { needs_field_access: true, ..st };
            lemma_lowering_stays_in_scope(*record, scope, st1, env);
            lemma_within_concat(
                seq![AirView::RecordAccess { scope, index, tipo: tipo@ }],
                lower_expr(*record, scope, st1, env).unwrap().ir,
                scope,
            );
        },
        TypedExpr::ModuleSelect { constructor, module_name, tipo, .. } => {
            lemma_module_select_within(constructor, module_name@, tipo@, scope, env);
        },
        TypedExpr::UnOp { value, op, .. } => {
            lemma_lowering_stays_in_scope(*value, scope, st, env);
            lemma_within_concat(
                seq![AirView::UnOp { scope, op }],
                lower_expr(*value, scope, st, env).unwrap().ir,
                scope,
            );
        },
        TypedExpr::Tuple { elems, tipo, .. } => {
            lemma_each_within(elems@, 0, scope, st, env);
            lemma_within_concat(
                seq![AirView::Tuple { scope, tipo: tipo@, count: elems@.len() as usize }],
                lower_each(elems@, 0, scope, st, env).unwrap().ir,
                scope,
            );
        },
        TypedExpr::Trace { tipo, then, text, .. } => {
            let inner = child(scope, st.next_id);
            let st1 = LowerState { next_id: succ(st.next_id), ..st };
            lemma_lowering_stays_in_scope(*then, inner, st1, env);
            let b = lower_expr(*then, inner, st1, env).unwrap();
            lemma_within_child(b.ir, scope, st.next_id);
            lemma_within_concat(
                seq![AirView::Trace { scope, text: crate::air::text_view(text), tipo: tipo@ }],
                b.ir,
                scope,
            );
        },
        TypedExpr::TupleIndex { index, tuple, .. } => {
            lemma_lowering_stays_in_scope(*tuple, scope, st, env);
            lemma_within_concat(
                seq![AirView::TupleIndex { scope, tipo: expr_type(*tuple), index }],
                lower_expr(*tuple, scope, st, env).unwrap().ir,
                scope,
            );
        },
        _ => {},
    }
}

/// The scope of every instruction of the body of a program starts with the
/// root scope of the program: it is not empty, and its first identifier is
/// the root.
pub proof fn lemma_program_scopes_start_at_root(
    e: TypedExpr,
    root: u64,
    st: LowerState,
    env: LowerEnv,
)
    requires
        lower_expr(e, seq![root], st, env) is Ok,
    ensures
        forall|i: int|
            0 <= i < lower_expr(e, seq![root], st, env).unwrap().ir.len() ==> (#[trigger] lower_expr(
                e,
                seq![root],
                st,
                env,
            ).unwrap().ir[i]).scope().len() > 0 && lower_expr(
                e,
                seq![root],
                st,
                env,
            ).unwrap().ir[i].scope()[0] == root,
{
    lemma_lowering_stays_in_scope(e, seq![root], st, env);
    let ir = lower_expr(e, seq![root], st, env).unwrap().ir;
    assert forall|i: int| 0 <= i < ir.len() implies (#[trigger] ir[i]).scope().len() > 0
        && ir[i].scope()[0] == root by {
        assert(seq![root].is_prefix_of(ir[i].scope()));
        assert(seq![root][0] == ir[i].scope()[0]);
    }
}

/// Whether the lowering of an expression begins with an instruction of
/// the expression itself: a block does so where it has a first expression
/// that does, and an assignment where its pattern is no constructor, whose
/// instructions may begin with those of the value.
pub open spec fn opens(e: TypedExpr) -> bool
    decreases e,
{
    match e {
        TypedExpr::Sequence { expressions, .. } | TypedExpr::Pipeline { expressions, .. } => {
            expressions@.len() > 0 && opens(expressions@[0])
        },
        TypedExpr::Assignment { pattern, .. } => !(pattern is Constructor),
        _ => true,
    }
}

proof fn lemma_pattern_begins(
    pattern: Pattern,
    values: Seq<AirView>,
    tipo: TypeView,
    scope: Seq<u64>,
    next_id: u64,
    data_types: DataTypes,
)
    requires
        lower_pattern(pattern, values, tipo, scope, next_id, data_types) is Ok,
        !(pattern is Constructor),
    ensures
        lower_pattern(pattern, values, tipo, scope, next_id, data_types).unwrap().0.len() > 0,
        lower_pattern(pattern, values, tipo, scope, next_id, data_types).unwrap().0[0].scope()
            == scope,
{
}

proof fn lemma_constant_begins(literal: Constant, scope: Seq<u64>)
    requires
        lower_constant(literal, scope) is Ok,
    ensures
        lower_constant(literal, scope).unwrap().len() > 0,
        lower_constant(literal, scope).unwrap()[0].scope() == scope,
{
}

/// The lowering of an expression begins in the scope that the expression
/// is lowered in: the first instruction stands in that scope itself.
pub proof fn lemma_lowering_begins_in_scope(
    e: TypedExpr,
    scope: Seq<u64>,
    st: LowerState,
    env: LowerEnv,
)
    requires
        lower_expr(e, scope, st, env) is Ok,
        opens(e),
    ensures
        lower_expr(e, scope, st, env).unwrap().ir.len() > 0,
        lower_expr(e, scope, st, env).unwrap().ir[0].scope() == scope,
    decreases e,
{
    match e {
        TypedExpr::Sequence { expressions, .. } | TypedExpr::Pipeline { expressions, .. } => {
            lemma_lowering_begins_in_scope(expressions@[0], scope, st, env);
            let first = lower_expr(expressions@[0], scope, st, env).unwrap();
            let rest = lower_sequence(expressions@, 1, scope, first.st, env).unwrap();
            assert(lower_sequence(expressions@, 0, scope, st, env).unwrap().ir == first.ir
                + rest.ir);
        },
        TypedExpr::Var { constructor, .. } => match constructor.variant {
            ValueConstructorVariant::ModuleConstant { literal, .. } => {
                lemma_constant_begins(literal, scope);
            },
            _ => {},
        },
        TypedExpr::Assignment { value, pattern, kind, tipo, .. } => {
            let inner = child(scope, st.next_id);
            let st1 = LowerState { next_id: succ(st.next_id), ..st };
            let v = lower_expr(*value, inner, st1, env).unwrap();
            match pattern {
                Pattern::Var { .. } => {},
                _ => {
                    lemma_pattern_begins(pattern, v.ir, tipo@, scope, v.st.next_id, env.data_types);
                },
            }
        },
        TypedExpr::When { .. } => {
            lemma_match_begins(e, scope, st, env);
        },
        TypedExpr::If { branches, final_else, .. } => {
            let taken = lower_branches(branches@, 0, scope, st, env).unwrap();
            assert(taken.ir[0] == AirView::If { scope });
        },
        TypedExpr::ModuleSelect { constructor, module_name, tipo, .. } => {
            match constructor {
                ModuleValueConstructor::Constant { literal, .. } => {
                    lemma_constant_begins(literal, scope);
                },
                _ => {},
            }
        },
        _ => {},
    }
}

proof fn lemma_match_begins(e: TypedExpr, scope: Seq<u64>, st: LowerState, env: LowerEnv)
    requires
        e is When,
        lower_match(e, scope, st, env) is Ok,
    ensures
        lower_match(e, scope, st, env).unwrap().ir.len() > 0,
        lower_match(e, scope, st, env).unwrap().ir[0].scope() == scope,
{
}

} // verus!
