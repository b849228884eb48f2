use vstd::prelude::*;
use crate::air::AirView;
use crate::ast::{AssignmentKind, Pattern, PatternArg, RecordConstructor, TypedDataType};
use crate::builder::{data_type_position, DataTypeKey, PropsView, SubjectKind};
use crate::error::Halt;
use crate::id_gen::succ;
use crate::sorting::sorted_by_position;
use crate::synth_spec::{data_type_key, other_clauses};
use crate::text::decimal;
use crate::tipo::{
    field_index,
    field_map_view,
    FieldMapView,
    PatternConstructor,
    TypeView,
    ValueConstructorView,
};

verus! {

/// The data types that the generator knows.
pub type DataTypes = Seq<(DataTypeKey, TypedDataType)>;

/// A reference to a local variable.
pub open spec fn local_var(scope: Seq<u64>, tipo: TypeView, name: Seq<char>) -> AirView {
    AirView::Var {
        scope,
        constructor: ValueConstructorView::local(tipo),
        name,
        variant_name: Seq::empty(),
    }
}

/// The text of an optional label; the empty text where there is none.
pub open spec fn label_of(label: Option<String>) -> Seq<char> {
    match label {
        Some(l) => l@,
        None => Seq::empty(),
    }
}

/// The data type that a constructor pattern of the given type belongs to,
/// and the constructor of the given name in it.
pub open spec fn constructor_of(
    tipo: TypeView,
    name: Seq<char>,
    data_types: DataTypes,
) -> Result<(TypedDataType, int), Halt> {
    match data_type_key(tipo, Halt::ImpossibleShape) {
        Err(e) => Err(e),
        Ok((module, defined)) => match data_type_position(data_types, module, defined) {
            None => Err(Halt::Missing),
            Some(dt) => match data_types[dt].1.constructor_position(name) {
                None => Err(Halt::Missing),
                Some(index) => Ok((data_types[dt].1, index)),
            },
        },
    }
}

/// The data type that a constructor pattern of the given type belongs to.
pub open spec fn data_type_of(tipo: TypeView, data_types: DataTypes) -> Result<
    TypedDataType,
    Halt,
> {
    match data_type_key(tipo, Halt::ImpossibleShape) {
        Err(e) => Err(e),
        Ok((module, defined)) => match data_type_position(data_types, module, defined) {
            None => Err(Halt::Missing),
            Some(dt) => Ok(data_types[dt].1),
        },
    }
}

/// The labels of the first `count` fields of a constructor. Every one of
/// them must have a label.
pub open spec fn field_labels(constructor: RecordConstructor, count: nat) -> Result<
    Seq<Seq<char>>,
    Halt,
> {
    if count > constructor.arguments@.len() || exists|i: int|
        0 <= i < count && (#[trigger] constructor.arguments@[i]).label.is_none() {
        Err(Halt::ImpossibleShape)
    } else {
        Ok(Seq::new(count, |i: int| constructor.arguments@[i].label.unwrap()@))
    }
}

/// The type of the last field with the given label.
pub open spec fn type_of_label(
    labels: Seq<Seq<char>>,
    types: Seq<TypeView>,
    label: Seq<char>,
    upto: nat,
) -> Option<TypeView>
    decreases upto,
{
    if upto == 0 || upto > labels.len() || upto > types.len() {
        None
    } else if labels[upto - 1] == label {
        Some(types[upto - 1])
    } else {
        type_of_label(labels, types, label, (upto - 1) as nat)
    }
}

/// The type that stands in for the type of a field that has none.
pub open spec fn discard_type() -> TypeView {
    TypeView::plain("Discard"@)
}

/// The bindings that expose the labelled fields: the fields in the order of
/// their positions, each with the type of its label. `upto` counts the
/// fields taken.
pub open spec fn labeled_bindings(
    sorted: Seq<(usize, (Seq<char>, Seq<char>))>,
    labels: Seq<Seq<char>>,
    types: Seq<TypeView>,
    upto: nat,
) -> Result<Seq<(usize, Seq<char>, TypeView)>, Halt>
    decreases upto,
{
    if upto == 0 || upto > sorted.len() {
        Ok(Seq::empty())
    } else {
        match labeled_bindings(sorted, labels, types, (upto - 1) as nat) {
            Err(e) => Err(e),
            Ok(head) => match type_of_label(labels, types, sorted[upto - 1].1.0, labels.len()) {
                None => Err(Halt::ImpossibleShape),
                Some(t) => Ok(head.push((sorted[upto - 1].0, sorted[upto - 1].1.1, t))),
            },
        }
    }
}

/// The bindings that expose fields by position, each with the type at its
/// position.
pub open spec fn positional_bindings(
    items: Seq<(usize, Seq<char>)>,
    types: Seq<TypeView>,
    upto: nat,
) -> Result<Seq<(usize, Seq<char>, TypeView)>, Halt>
    decreases upto,
{
    if upto == 0 || upto > items.len() {
        Ok(Seq::empty())
    } else {
        match positional_bindings(items, types, (upto - 1) as nat) {
            Err(e) => Err(e),
            Ok(head) => if items[upto - 1].0 >= types.len() {
                Err(Halt::ImpossibleShape)
            } else {
                Ok(head.push((items[upto - 1].0, items[upto - 1].1, types[items[upto - 1].0 as int])))
            },
        }
    }
}

/// The instruction that exposes the given fields; nothing where there are
/// none.
pub open spec fn fields_expose(
    bindings: Seq<(usize, Seq<char>, TypeView)>,
    scope: Seq<u64>,
) -> Result<Seq<AirView>, Halt> {
    if bindings.len() == 0 {
        Ok(Seq::empty())
    } else if bindings.len() + 2 > usize::MAX {
        Err(Halt::Malformed)
    } else {
        Ok(seq![AirView::FieldsExpose { scope, count: (bindings.len() + 2) as usize, indices: bindings }])
    }
}

/// The name that the tail of a list pattern binds, if it binds one.
pub open spec fn tail_binding(tail: Option<Box<Pattern>>) -> Result<Option<Seq<char>>, Halt> {
    match tail {
        None => Ok(None),
        Some(t) => match *t {
            Pattern::Var { name, .. } => Ok(Some(name@)),
            Pattern::Discard { .. } => Ok(None),
            _ => Err(Halt::ImpossibleShape),
        },
    }
}

/// The name under which an assignment binds a list nested in a list or a
/// tuple.
pub open spec fn list_item_name(id: u64) -> Seq<char> {
    "list_item_id_"@ + decimal(id as nat)
}

/// The name under which a nested constructor value is bound.
pub open spec fn constructor_var_name(name: Seq<char>, id: u64) -> Seq<char> {
    name + "_"@ + decimal(id as nat)
}

/// What the elements of a list or tuple pattern of an assignment give, from
/// position `from` on: the names they bind, the instructions for the lists
/// nested in them, and the next fresh identifier.
pub open spec fn lower_elements(
    elements: Seq<Pattern>,
    from: nat,
    tipo: TypeView,
    scope: Seq<u64>,
    next_id: u64,
    data_types: DataTypes,
) -> Result<(Seq<Seq<char>>, Seq<AirView>, u64), Halt>
    decreases elements, 0nat, elements.len() - from,
{
    if from >= elements.len() {
        Ok((Seq::empty(), Seq::empty(), next_id))
    } else {
        match elements[from as int] {
            Pattern::Var { name, .. } => match lower_elements(
                elements,
                from + 1,
                tipo,
                scope,
                next_id,
                data_types,
            ) {
                Err(e) => Err(e),
                Ok((names, ir, id)) => Ok((seq![name@] + names, ir, id)),
            },
            Pattern::List { .. } => {
                let item_name = list_item_name(next_id);
                if tipo.inner_types().len() == 0 {
                    Err(Halt::ImpossibleShape)
                } else {
                    match lower_pattern(
                        elements[from as int],
                        seq![local_var(scope, TypeView::plain(Seq::empty()), item_name)],
                        tipo.inner_types()[0],
                        scope,
                        succ(next_id),
                        data_types,
                    ) {
                        Err(e) => Err(e),
                        Ok((nested, id1)) => match lower_elements(
                            elements,
                            from + 1,
                            tipo,
                            scope,
                            id1,
                            data_types,
                        ) {
                            Err(e) => Err(e),
                            Ok((names, ir, id2)) => Ok((seq![item_name] + names, nested + ir, id2)),
                        },
                    }
                }
            },
            _ => Err(Halt::Unsupported),
        }
    }
}

/// What the arguments of a constructor pattern of an assignment give, from
/// position `from` on: for each argument that binds a name, the position of
/// its field, its label and the name; the instructions for the constructors
/// nested in them; and the next fresh identifier. With `field_map`, the
/// position is the one that the label has in it, or the first where it has
/// none; without, it is the position of the argument.
pub open spec fn lower_arguments(
    arguments: Seq<PatternArg>,
    from: nat,
    field_map: Option<FieldMapView>,
    scope: Seq<u64>,
    next_id: u64,
    data_types: DataTypes,
) -> Result<(Seq<(usize, (Seq<char>, Seq<char>))>, Seq<AirView>, u64), Halt>
    decreases arguments, 0nat, arguments.len() - from,
{
    if from >= arguments.len() {
        Ok((Seq::empty(), Seq::empty(), next_id))
    } else {
        let item = arguments[from as int];
        let label = label_of(item.label);
        let position: usize = match field_map {
            Some(m) => match field_index(m.fields, label) {
                Some(i) => i,
                None => 0,
            },
            None => from as usize,
        };
        match item.value {
            Pattern::Var { name, .. } => match lower_arguments(
                arguments,
                from + 1,
                field_map,
                scope,
                next_id,
                data_types,
            ) {
                Err(e) => Err(e),
                Ok((items, ir, id)) => Ok((seq![(position, (label, name@))] + items, ir, id)),
            },
            Pattern::Discard { .. } => lower_arguments(
                arguments,
                from + 1,
                field_map,
                scope,
                next_id,
                data_types,
            ),
            Pattern::Constructor { tipo, name, .. } => {
                let var_name = constructor_var_name(name@, next_id);
                match lower_pattern(
                    item.value,
                    seq![local_var(scope, tipo@, var_name)],
                    tipo@,
                    scope,
                    succ(next_id),
                    data_types,
                ) {
                    Err(e) => Err(e),
                    Ok((nested, id1)) => match lower_arguments(
                        arguments,
                        from + 1,
                        field_map,
                        scope,
                        id1,
                        data_types,
                    ) {
                        Err(e) => Err(e),
                        Ok((items, ir, id2)) => Ok(
                            (seq![(position, (label, var_name))] + items, nested + ir, id2),
                        ),
                    },
                }
            },
            _ => Err(Halt::Unsupported),
        }
    }
}

/// The positions and names of what was collected, without the labels.
pub open spec fn without_labels(items: Seq<(usize, (Seq<char>, Seq<char>))>) -> Seq<
    (usize, Seq<char>),
> {
    Seq::new(items.len(), |i: int| (items[i].0, items[i].1.1))
}

/// The field map of the constructor that a record pattern names.
pub open spec fn record_field_map(constructor: PatternConstructor) -> Result<FieldMapView, Halt> {
    match constructor {
        PatternConstructor::Record { field_map, .. } => match field_map_view(field_map) {
            Some(m) => Ok(m),
            None => Err(Halt::ImpossibleShape),
        },
    }
}

/// What a pattern of an assignment becomes: the instructions that take the
/// value apart, then `values`, the instructions of the value, then the
/// instructions for what is nested in the pattern.
pub open spec fn lower_pattern(
    pattern: Pattern,
    values: Seq<AirView>,
    tipo: TypeView,
    scope: Seq<u64>,
    next_id: u64,
    data_types: DataTypes,
) -> Result<(Seq<AirView>, u64), Halt>
    decreases pattern, 0nat, 0nat,
{
    match pattern {
        Pattern::Discard { .. } => Ok((seq![AirView::Discard { scope }] + values, next_id)),
        Pattern::List { elements, tail, .. } => match lower_elements(
            elements@,
            0,
            tipo,
            scope,
            next_id,
            data_types,
        ) {
            Err(e) => Err(e),
            Ok((names, nested, id)) => match tail_binding(tail) {
                Err(e) => Err(e),
                Ok(tail_name) => Ok(
                    (
                        seq![
                            AirView::ListAccessor {
                                scope,
                                tipo,
                                names: match tail_name {
                                    Some(n) => names.push(n),
                                    None => names,
                                },
                                tail: tail.is_some(),
                            },
                        ] + values + nested,
                        id,
                    ),
                ),
            },
        },
        Pattern::Constructor {
            is_record,
            name,
            arguments,
            constructor,
            tipo: pattern_type,
            ..
        } => match constructor_of(pattern_type@, name@, data_types) {
            Err(e) => Err(e),
            Ok((data_type, index)) => {
                let types = pattern_type@.arg_types();
                if is_record {
                    match record_field_map(constructor) {
                        Err(e) => Err(e),
                        Ok(field_map) => if types.is_none() {
                            Err(Halt::ImpossibleShape)
                        } else {
                            match field_labels(
                                data_type.constructors@[index],
                                types.unwrap().len(),
                            ) {
                                Err(e) => Err(e),
                                Ok(labels) => match lower_arguments(
                                    arguments@,
                                    0,
                                    Some(field_map),
                                    scope,
                                    next_id,
                                    data_types,
                                ) {
                                    Err(e) => Err(e),
                                    Ok((items, nested, id)) => match labeled_bindings(
                                        sorted_by_position(items),
                                        labels,
                                        types.unwrap(),
                                        items.len(),
                                    ) {
                                        Err(e) => Err(e),
                                        Ok(bindings) => match fields_expose(bindings, scope) {
                                            Err(e) => Err(e),
                                            Ok(expose) => Ok((expose + values + nested, id)),
                                        },
                                    },
                                },
                            }
                        },
                    }
                } else if types.is_none() {
                    Err(Halt::ImpossibleShape)
                } else {
                    match lower_arguments(arguments@, 0, None, scope, next_id, data_types) {
                        Err(e) => Err(e),
                        Ok((items, nested, id)) => match positional_bindings(
                            without_labels(items),
                            types.unwrap(),
                            items.len(),
                        ) {
                            Err(e) => Err(e),
                            Ok(bindings) => match fields_expose(bindings, scope) {
                                Err(e) => Err(e),
                                Ok(expose) => Ok((expose + values + nested, id)),
                            },
                        },
                    }
                }
            },
        },
        Pattern::Tuple { elems, .. } => match lower_elements(
            elems@,
            0,
            tipo,
            scope,
            next_id,
            data_types,
        ) {
            Err(e) => Err(e),
            Ok((names, nested, id)) => Ok(
                (seq![AirView::TupleAccessor { scope, names, tipo }] + values + nested, id),
            ),
        },
        _ => Err(Halt::Unsupported),
    }
}

/// What an assignment becomes: a binding for a variable, and for every
/// other pattern the instructions that take the value apart.
pub open spec fn lower_assignment(
    pattern: Pattern,
    values: Seq<AirView>,
    tipo: TypeView,
    kind: AssignmentKind,
    scope: Seq<u64>,
    next_id: u64,
    data_types: DataTypes,
) -> Result<(Seq<AirView>, u64), Halt> {
    match pattern {
        Pattern::Int { .. } | Pattern::String { .. } => Err(Halt::ImpossibleShape),
        Pattern::Var { name, .. } => Ok(
            (seq![AirView::Assignment { scope, name: name@, kind }] + values, next_id),
        ),
        Pattern::VarUsage { .. } | Pattern::Assign { .. } => Err(Halt::Unsupported),
        _ => lower_pattern(pattern, values, tipo, scope, next_id, data_types),
    }
}

/// The name that stands for the rest of the subject list after the clause
/// at a position.
pub open spec fn tail_name(index: nat) -> Seq<char> {
    "__tail_"@ + decimal(index)
}

/// The name under which a clause binds a list nested in its pattern.
pub open spec fn nested_list_name(id: u64) -> Seq<char> {
    "__list_item_id_"@ + decimal(id as nat)
}

/// The name that stands for the rest of a nested list after the item at a
/// position.
pub open spec fn nested_tail_name(index: nat) -> Seq<char> {
    "__list_tail_"@ + decimal(index)
}

/// The name under which a clause binds a tuple nested in its pattern.
pub open spec fn nested_tuple_name(id: u64) -> Seq<char> {
    "__tuple_item_id_"@ + decimal(id as nat)
}

/// What a clause's properties become when every pattern from position
/// `from` on has been asked what it needs.
pub open spec fn with_needs_of_all(props: PropsView, patterns: Seq<Pattern>, upto: nat) -> Result<
    PropsView,
    Halt,
>
    decreases upto,
{
    if upto == 0 || upto > patterns.len() {
        Ok(props)
    } else {
        match with_needs_of_all(props, patterns, (upto - 1) as nat) {
            Err(e) => Err(e),
            Ok(p) => p.with_needs_of(patterns[upto - 1]),
        }
    }
}

/// The same for the arguments of a constructor pattern.
pub open spec fn with_needs_of_arguments(
    props: PropsView,
    arguments: Seq<PatternArg>,
    upto: nat,
) -> Result<PropsView, Halt>
    decreases upto,
{
    if upto == 0 || upto > arguments.len() {
        Ok(props)
    } else {
        match with_needs_of_arguments(props, arguments, (upto - 1) as nat) {
            Err(e) => Err(e),
            Ok(p) => p.with_needs_of(arguments[upto - 1].value),
        }
    }
}

/// What a nested pattern gives: the name under which what it matches is
/// bound, if it needs one, the instructions that test and take apart what
/// is bound, and the next fresh identifier.
pub ghost struct Nested {
    pub name: Option<Seq<char>>,
    pub ir: Seq<AirView>,
    pub next_id: u64,
}

/// What a clause's pattern gives: the instructions, the next fresh
/// identifier, and the properties of the match afterwards.
pub ghost struct Matched {
    pub ir: Seq<AirView>,
    pub next_id: u64,
    pub props: PropsView,
}

/// The three instructions that open a test on a list: the test, a value
/// that nothing reads, and the way to the clauses after this one.
pub open spec fn list_test(
    scope: Seq<u64>,
    tipo: TypeView,
    tail: Seq<char>,
    next_tail: Option<Seq<char>>,
    inverse: bool,
) -> Seq<AirView> {
    seq![
        AirView::ListClause {
            scope,
            tipo,
            tail_name: tail,
            next_tail_name: next_tail,
            complex_clause: false,
            inverse,
        },
        AirView::Discard { scope },
        local_var(scope, tipo, other_clauses()),
    ]
}

/// The properties with which the pattern of a nested list is lowered at one
/// of its positions.
pub open spec fn nested_list_props(item_name: Seq<char>, index: usize) -> PropsView {
    PropsView {
        clause_var_name: item_name,
        needs_constr_var: false,
        is_complex_clause: false,
        original_subject_name: item_name,
        kind: SubjectKind::List { current_index: index },
    }
}

/// The name that a nested list's tail pattern gives to the rest: the
/// variable's name, or `_` for a discard.
pub open spec fn nested_tail_binding(tail: Option<Box<Pattern>>) -> Result<Seq<char>, Halt> {
    match tail {
        None => Err(Halt::ImpossibleShape),
        Some(t) => match *t {
            Pattern::Var { name, .. } => Ok(name@),
            Pattern::Discard { .. } => Ok(seq!['_']),
            _ => Err(Halt::ImpossibleShape),
        },
    }
}

/// The tests of a nested list pattern, position by position from `from`
/// on. At every position the whole pattern is lowered once more.
pub open spec fn lower_nested_list(
    pattern: Pattern,
    from: nat,
    item_name: Seq<char>,
    pattern_type: TypeView,
    scope: Seq<u64>,
    next_id: u64,
    data_types: DataTypes,
) -> Result<(Seq<AirView>, u64), Halt>
    recommends
        pattern is List,
    decreases pattern, 2nat, pattern->List_elements@.len() - from,
{
    let elements = pattern->List_elements@;
    let tail = pattern->List_tail;
    if !(pattern is List) || from >= elements.len() {
        Ok((Seq::empty(), next_id))
    } else {
        let previous = if from == 0 {
            item_name
        } else {
            nested_tail_name((from - 1) as nat)
        };
        let opening: Result<Seq<AirView>, Halt> = if from == elements.len() - 1 && tail.is_none() {
            Ok(
                list_test(scope, pattern_type, previous, Some(nested_tail_name(from)), false)
                    + list_test(scope, pattern_type, nested_tail_name(from), None, true),
            )
        } else {
            match nested_tail_binding(tail) {
                Err(e) => Err(e),
                Ok(rest) => Ok(list_test(scope, pattern_type, previous, Some(rest), false)),
            }
        };
        match opening {
            Err(e) => Err(e),
            Ok(tests) => match lower_when(
                pattern,
                Seq::empty(),
                pattern_type,
                nested_list_props(item_name, from as usize),
                scope,
                next_id,
                data_types,
            ) {
                Err(e) => Err(e),
                Ok(matched) => match lower_nested_list(
                    pattern,
                    from + 1,
                    item_name,
                    pattern_type,
                    scope,
                    matched.next_id,
                    data_types,
                ) {
                    Err(e) => Err(e),
                    Ok((rest, id)) => Ok((tests + matched.ir + rest, id)),
                },
            },
        }
    }
}

/// What a pattern nested in a clause's pattern gives.
pub open spec fn lower_nested(
    pattern: Pattern,
    pattern_type: TypeView,
    scope: Seq<u64>,
    next_id: u64,
    data_types: DataTypes,
) -> Result<Nested, Halt>
    decreases pattern, 3nat, 0nat,
{
    match pattern {
        Pattern::Var { name, .. } => Ok(Nested { name: Some(name@), ir: Seq::empty(), next_id }),
        Pattern::Discard { .. } => Ok(Nested { name: None, ir: Seq::empty(), next_id }),
        Pattern::List { elements, .. } => {
            let item_name = nested_list_name(next_id);
            if elements@.len() == 0 {
                Ok(
                    Nested {
                        name: Some(item_name),
                        ir: list_test(scope, pattern_type, item_name, None, true),
                        next_id: succ(next_id),
                    },
                )
            } else {
                match lower_nested_list(
                    pattern,
                    0,
                    item_name,
                    pattern_type,
                    scope,
                    succ(next_id),
                    data_types,
                ) {
                    Err(e) => Err(e),
                    Ok((ir, id)) => Ok(Nested { name: Some(item_name), ir, next_id: id }),
                }
            }
        },
        Pattern::Constructor { tipo, name, .. } => {
            let var_name = constructor_var_name(name@, next_id);
            match data_type_of(tipo@, data_types) {
                Err(e) => Err(e),
                Ok(data_type) => match lower_when(
                    pattern,
                    Seq::empty(),
                    tipo@,
                    PropsView {
                        clause_var_name: var_name,
                        needs_constr_var: false,
                        is_complex_clause: false,
                        original_subject_name: var_name,
                        kind: SubjectKind::Constr,
                    },
                    scope,
                    succ(next_id),
                    data_types,
                ) {
                    Err(e) => Err(e),
                    Ok(matched) => Ok(
                        Nested {
                            name: Some(var_name),
                            ir: (if data_type.constructors@.len() > 1 {
                                seq![
                                    AirView::ClauseGuard {
                                        scope,
                                        subject_name: var_name,
                                        tipo: tipo@,
                                    },
                                ]
                            } else {
                                Seq::empty()
                            }) + matched.ir,
                            next_id: matched.next_id,
                        },
                    ),
                },
            }
        },
        Pattern::Tuple { elems, .. } => {
            let item_name = nested_tuple_name(next_id);
            match lower_when(
                pattern,
                Seq::empty(),
                pattern_type,
                PropsView {
                    clause_var_name: item_name,
                    needs_constr_var: false,
                    is_complex_clause: false,
                    original_subject_name: item_name,
                    kind: SubjectKind::Tuple { defined_tuple_indices: Seq::empty() },
                },
                scope,
                succ(next_id),
                data_types,
            ) {
                Err(e) => Err(e),
                Ok(matched) => match matched.props.kind {
                    SubjectKind::Tuple { defined_tuple_indices } => Ok(
                        Nested {
                            name: Some(item_name),
                            ir: seq![
                                AirView::TupleClause {
                                    scope,
                                    tipo: pattern_type,
                                    indices: defined_tuple_indices,
                                    predefined_indices: Seq::empty(),
                                    subject_name: matched.props.original_subject_name,
                                    count: elems@.len() as usize,
                                    complex_clause: false,
                                },
                            ] + matched.ir,
                            next_id: matched.next_id,
                        },
                    ),
                    _ => Err(Halt::ImpossibleShape),
                },
            }
        },
        _ => Err(Halt::Unsupported),
    }
}

/// What the elements of a list pattern of a clause give, from position
/// `from` on: for each the name it binds, `_` where it binds none; the
/// instructions for what is nested in them; and the next fresh identifier.
pub open spec fn lower_nested_elements(
    elements: Seq<Pattern>,
    from: nat,
    item_type: TypeView,
    scope: Seq<u64>,
    next_id: u64,
    data_types: DataTypes,
) -> Result<(Seq<Seq<char>>, Seq<AirView>, u64), Halt>
    decreases elements, 0nat, elements.len() - from,
{
    if from >= elements.len() {
        Ok((Seq::empty(), Seq::empty(), next_id))
    } else {
        match lower_nested(elements[from as int], item_type, scope, next_id, data_types) {
            Err(e) => Err(e),
            Ok(nested) => match lower_nested_elements(
                elements,
                from + 1,
                item_type,
                scope,
                nested.next_id,
                data_types,
            ) {
                Err(e) => Err(e),
                Ok((names, ir, id)) => Ok(
                    (
                        seq![
                            match nested.name {
                                Some(n) => n,
                                None => seq!['_'],
                            },
                        ] + names,
                        nested.ir + ir,
                        id,
                    ),
                ),
            },
        }
    }
}

/// The same for the elements of a tuple pattern: the element at a position
/// has the type at that position.
pub open spec fn lower_tuple_elements(
    elements: Seq<Pattern>,
    from: nat,
    types: Seq<TypeView>,
    scope: Seq<u64>,
    next_id: u64,
    data_types: DataTypes,
) -> Result<(Seq<Seq<char>>, Seq<AirView>, u64), Halt>
    decreases elements, 0nat, elements.len() - from,
{
    if from >= elements.len() {
        Ok((Seq::empty(), Seq::empty(), next_id))
    } else if from >= types.len() {
        Err(Halt::ImpossibleShape)
    } else {
        match lower_nested(elements[from as int], types[from as int], scope, next_id, data_types) {
            Err(e) => Err(e),
            Ok(nested) => match lower_tuple_elements(
                elements,
                from + 1,
                types,
                scope,
                nested.next_id,
                data_types,
            ) {
                Err(e) => Err(e),
                Ok((names, ir, id)) => Ok(
                    (
                        seq![
                            match nested.name {
                                Some(n) => n,
                                None => seq!['_'],
                            },
                        ] + names,
                        nested.ir + ir,
                        id,
                    ),
                ),
            },
        }
    }
}

/// What the arguments of a constructor pattern of a clause give, from
/// position `from` on. With `labels`, an argument is typed by its label, and
/// by the stand-in type where the label names no field; without, by its
/// position.
pub open spec fn lower_nested_arguments(
    arguments: Seq<PatternArg>,
    from: nat,
    field_map: Option<FieldMapView>,
    labels: Seq<Seq<char>>,
    types: Seq<TypeView>,
    scope: Seq<u64>,
    next_id: u64,
    data_types: DataTypes,
) -> Result<(Seq<(usize, (Seq<char>, Seq<char>))>, Seq<AirView>, u64), Halt>
    decreases arguments, 0nat, arguments.len() - from,
{
    if from >= arguments.len() {
        Ok((Seq::empty(), Seq::empty(), next_id))
    } else {
        let item = arguments[from as int];
        let label = label_of(item.label);
        let position: usize = match field_map {
            Some(m) => match field_index(m.fields, label) {
                Some(i) => i,
                None => 0,
            },
            None => from as usize,
        };
        let item_type: Result<TypeView, Halt> = match field_map {
            Some(_) => match type_of_label(labels, types, label, labels.len()) {
                Some(t) => Ok(t),
                None => Ok(discard_type()),
            },
            None => if from >= types.len() {
                Err(Halt::ImpossibleShape)
            } else {
                Ok(types[from as int])
            },
        };
        match item_type {
            Err(e) => Err(e),
            Ok(t) => match lower_nested(item.value, t, scope, next_id, data_types) {
                Err(e) => Err(e),
                Ok(nested) => match lower_nested_arguments(
                    arguments,
                    from + 1,
                    field_map,
                    labels,
                    types,
                    scope,
                    nested.next_id,
                    data_types,
                ) {
                    Err(e) => Err(e),
                    Ok((items, ir, id)) => Ok(
                        (
                            match nested.name {
                                Some(n) => seq![(position, (label, n))] + items,
                                None => items,
                            },
                            nested.ir + ir,
                            id,
                        ),
                    ),
                },
            },
        }
    }
}

/// The heads that a list pattern exposes: each element that binds a name,
/// with the name of the list whose head it is.
pub open spec fn exposed_heads(names: Seq<Seq<char>>, subject: Seq<char>, upto: nat) -> Seq<
    (Seq<char>, Seq<char>),
>
    decreases upto,
{
    if upto == 0 || upto > names.len() {
        Seq::empty()
    } else {
        let head = exposed_heads(names, subject, (upto - 1) as nat);
        if names[upto - 1] == seq!['_'] {
            head
        } else if upto == 1 {
            head.push((subject, names[0]))
        } else {
            head.push((tail_name((upto - 2) as nat), names[upto - 1]))
        }
    }
}

/// The position in the list of bound positions that holds the given
/// position of the tuple.
pub open spec fn defined_at(defined: Seq<(usize, Seq<char>)>, index: usize, upto: nat) -> Option<
    int,
>
    decreases upto,
{
    if upto == 0 || upto > defined.len() {
        None
    } else {
        match defined_at(defined, index, (upto - 1) as nat) {
            Some(i) => Some(i),
            None => if defined[upto - 1].0 == index {
                Some(upto - 1)
            } else {
                None
            },
        }
    }
}

/// The positions that are bound once the elements of a tuple pattern have
/// been taken, from position 0 up to `upto`: a position that no earlier
/// clause has bound is bound to the name of the element.
pub open spec fn defined_after(
    defined: Seq<(usize, Seq<char>)>,
    names: Seq<Seq<char>>,
    upto: nat,
) -> Seq<(usize, Seq<char>)>
    decreases upto,
{
    if upto == 0 || upto > names.len() {
        defined
    } else {
        let before = defined_after(defined, names, (upto - 1) as nat);
        if defined_at(before, (upto - 1) as usize, before.len()).is_some() {
            before
        } else {
            before.push(((upto - 1) as usize, names[upto - 1]))
        }
    }
}

/// The bindings that give the elements of a tuple pattern the values of
/// the positions that an earlier clause has bound already.
pub open spec fn rebound(
    defined: Seq<(usize, Seq<char>)>,
    names: Seq<Seq<char>>,
    types: Seq<TypeView>,
    scope: Seq<u64>,
    upto: nat,
) -> Seq<AirView>
    decreases upto,
{
    if upto == 0 || upto > names.len() || upto > types.len() {
        Seq::empty()
    } else {
        let head = rebound(defined, names, types, scope, (upto - 1) as nat);
        let before = defined_after(defined, names, (upto - 1) as nat);
        match defined_at(before, (upto - 1) as usize, before.len()) {
            Some(i) => head + seq![
                AirView::Lam { scope, name: names[upto - 1] },
                local_var(scope, types[upto - 1], before[i].1),
            ],
            None => head,
        }
    }
}

/// What the pattern of a clause gives below its outermost layer.
pub open spec fn lower_when_inner(
    pattern: Pattern,
    values: Seq<AirView>,
    props: PropsView,
    tipo: TypeView,
    scope: Seq<u64>,
    next_id: u64,
    data_types: DataTypes,
) -> Result<Matched, Halt>
    decreases pattern, 0nat, 0nat,
{
    match pattern {
        Pattern::Discard { .. } => Ok(
            Matched { ir: seq![AirView::Discard { scope }] + values, next_id, props },
        ),
        Pattern::List { elements, tail, .. } => if tipo.inner_types().len() == 0 {
            Err(Halt::ImpossibleShape)
        } else {
            match lower_nested_elements(
                elements@,
                0,
                tipo.inner_types()[0],
                scope,
                next_id,
                data_types,
            ) {
                Err(e) => Err(e),
                Ok((names, nested, id)) => match tail_binding(tail) {
                    Err(e) => Err(Halt::Unsupported),
                    Ok(tail_binding) => Ok(
                        Matched {
                            ir: seq![
                                AirView::ListExpose {
                                    scope,
                                    tipo,
                                    tail_head_names: exposed_heads(
                                        names,
                                        props.original_subject_name,
                                        names.len(),
                                    ),
                                    tail: if tail.is_some() && elements@.len() > 0 {
                                        Some(
                                            (
                                                if elements@.len() == 1 {
                                                    props.original_subject_name
                                                } else {
                                                    tail_name((elements@.len() - 2) as nat)
                                                },
                                                match tail_binding {
                                                    Some(n) => n,
                                                    None => Seq::empty(),
                                                },
                                            ),
                                        )
                                    } else {
                                        None
                                    },
                                },
                            ] + nested + values,
                            next_id: id,
                            props,
                        },
                    ),
                },
            }
        },
        Pattern::Constructor {
            is_record,
            name,
            arguments,
            constructor,
            tipo: pattern_type,
            ..
        } => match constructor_of(pattern_type@, name@, data_types) {
            Err(e) => Err(e),
            Ok((data_type, index)) => {
                let types = pattern_type@.arg_types();
                if is_record {
                    match record_field_map(constructor) {
                        Err(e) => Err(e),
                        Ok(field_map) => if types.is_none() {
                            Err(Halt::ImpossibleShape)
                        } else {
                            match field_labels(
                                data_type.constructors@[index],
                                types.unwrap().len(),
                            ) {
                                Err(e) => Err(e),
                                Ok(labels) => match lower_nested_arguments(
                                    arguments@,
                                    0,
                                    Some(field_map),
                                    labels,
                                    types.unwrap(),
                                    scope,
                                    next_id,
                                    data_types,
                                ) {
                                    Err(e) => Err(e),
                                    Ok((items, nested, id)) => match labeled_bindings(
                                        sorted_by_position(items),
                                        labels,
                                        types.unwrap(),
                                        items.len(),
                                    ) {
                                        Err(e) => Err(e),
                                        Ok(bindings) => match fields_expose(bindings, scope) {
                                            Err(e) => Err(e),
                                            Ok(expose) => Ok(
                                                Matched {
                                                    ir: expose + values + nested,
                                                    next_id: id,
                                                    props,
                                                },
                                            ),
                                        },
                                    },
                                },
                            }
                        },
                    }
                } else if types.is_none() {
                    Err(Halt::ImpossibleShape)
                } else {
                    match lower_nested_arguments(
                        arguments@,
                        0,
                        None,
                        Seq::empty(),
                        types.unwrap(),
                        scope,
                        next_id,
                        data_types,
                    ) {
                        Err(e) => Err(e),
                        Ok((items, nested, id)) => match positional_bindings(
                            without_labels(items),
                            types.unwrap(),
                            items.len(),
                        ) {
                            Err(e) => Err(e),
                            Ok(bindings) => match fields_expose(bindings, scope) {
                                Err(e) => Err(e),
                                Ok(expose) => Ok(
                                    Matched { ir: expose + values + nested, next_id: id, props },
                                ),
                            },
                        },
                    }
                }
            },
        },
        Pattern::Tuple { elems, .. } => match lower_tuple_elements(
            elems@,
            0,
            tipo.inner_types(),
            scope,
            next_id,
            data_types,
        ) {
            Err(e) => Err(e),
            Ok((names, nested, id)) => match props.kind {
                SubjectKind::Tuple { defined_tuple_indices } => Ok(
                    Matched {
                        ir: rebound(
                            defined_tuple_indices,
                            names,
                            tipo.inner_types(),
                            scope,
                            names.len(),
                        ) + nested + values,
                        next_id: id,
                        props: PropsView {
                            kind: SubjectKind::Tuple {
                                defined_tuple_indices: defined_after(
                                    defined_tuple_indices,
                                    names,
                                    names.len(),
                                ),
                            },
                            ..props
                        },
                    },
                ),
                _ => Err(Halt::ImpossibleShape),
            },
        },
        _ => Err(Halt::Unsupported),
    }
}

/// What the pattern of a clause gives: for a literal the value to compare
/// the subject with; for a variable a binding of the subject; for a list, a
/// constructor or a tuple the instructions that take the subject apart.
/// `values` are the instructions of what the clause is worth.
pub open spec fn lower_when(
    pattern: Pattern,
    values: Seq<AirView>,
    tipo: TypeView,
    props: PropsView,
    scope: Seq<u64>,
    next_id: u64,
    data_types: DataTypes,
) -> Result<Matched, Halt>
    decreases pattern, 1nat, 0nat,
{
    match pattern {
        Pattern::Int { value, .. } => Ok(
            Matched { ir: seq![AirView::Int { scope, value: value@ }] + values, next_id, props },
        ),
        Pattern::Var { name, .. } => Ok(
            Matched {
                ir: seq![
                    AirView::Discard { scope },
                    AirView::Lam { scope, name: name@ },
                    local_var(scope, tipo, props.original_subject_name),
                ] + values,
                next_id,
                props,
            },
        ),
        Pattern::Assign { name, pattern: inner, .. } => lower_when(
            *inner,
            seq![
                AirView::Lam { scope, name: name@ },
                local_var(scope, tipo, props.original_subject_name),
            ] + values,
            tipo,
            props,
            scope,
            next_id,
            data_types,
        ),
        Pattern::Discard { .. } => Ok(
            Matched { ir: seq![AirView::Discard { scope }] + values, next_id, props },
        ),
        Pattern::List { elements, tail, .. } => match with_needs_of_all(
            props,
            elements@,
            elements@.len(),
        ) {
            Err(e) => Err(e),
            Ok(p1) => match (match tail {
                Some(t) => p1.with_needs_of(*t),
                None => Ok(p1),
            }) {
                Err(e) => Err(e),
                Ok(p2) => match lower_when_inner(
                    pattern,
                    values,
                    PropsView { needs_constr_var: false, ..p2 },
                    tipo,
                    scope,
                    next_id,
                    data_types,
                ) {
                    Err(e) => Err(e),
                    Ok(matched) => Ok(
                        Matched {
                            ir: seq![AirView::Discard { scope }] + matched.ir,
                            ..matched
                        },
                    ),
                },
            },
        },
        Pattern::Constructor { arguments, name, .. } => match with_needs_of_arguments(
            PropsView { needs_constr_var: false, ..props },
            arguments@,
            arguments@.len(),
        ) {
            Err(e) => Err(e),
            Ok(temp) => match constructor_of(tipo, name@, data_types) {
                Err(e) => Err(e),
                Ok((data_type, index)) => match lower_when_inner(
                    pattern,
                    if temp.needs_constr_var {
                        seq![local_var(scope, tipo, temp.clause_var_name)]
                    } else {
                        Seq::empty()
                    },
                    props,
                    tipo,
                    scope,
                    next_id,
                    data_types,
                ) {
                    Err(e) => Err(e),
                    Ok(matched) => Ok(
                        Matched {
                            ir: (if data_type.constructors@.len() > 1 {
                                seq![AirView::Int { scope, value: decimal(index as nat) }]
                            } else {
                                Seq::empty()
                            }) + matched.ir + values,
                            next_id: matched.next_id,
                            props: PropsView {
                                is_complex_clause: matched.props.is_complex_clause
                                    || temp.is_complex_clause,
                                needs_constr_var: matched.props.needs_constr_var
                                    || temp.needs_constr_var,
                                ..matched.props
                            },
                        },
                    ),
                },
            },
        },
        Pattern::Tuple { elems, .. } => match with_needs_of_all(props, elems@, elems@.len()) {
            Err(e) => Err(e),
            Ok(p1) => match lower_when_inner(
                pattern,
                Seq::empty(),
                PropsView { needs_constr_var: false, ..p1 },
                tipo,
                scope,
                next_id,
                data_types,
            ) {
                Err(e) => Err(e),
                Ok(matched) => Ok(Matched { ir: matched.ir + values, ..matched }),
            },
        },
        _ => Err(Halt::Unsupported),
    }
}

} // verus!
