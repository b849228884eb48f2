use vstd::prelude::*;
use crate::air::{air_views, binding_views, Air, AirView};
use crate::ast::{AssignmentKind, Pattern, PatternArg, RecordConstructor, TypedDataType};
use crate::builder::{find_data_type, DataTypeKey};
use crate::error::Halt;
use crate::generator::CodeGenerator;
use crate::pattern_spec::{
    constructor_of,
    constructor_var_name,
    data_type_of,
    field_labels,
    fields_expose,
    label_of,
    labeled_bindings,
    list_item_name,
    local_var,
    lower_arguments,
    lower_assignment,
    lower_elements,
    lower_pattern,
    positional_bindings,
    record_field_map,
    tail_binding,
    type_of_label,
    without_labels,
};
use crate::sorting::{carried, lemma_sort_carried, sort_by_position, sorted_by_position};
use crate::synth::data_type_key_of;
use crate::text::{clone_ids, name_views, number_text, numbered};
use crate::tipo::{type_views, FieldMap, FieldMapView, PatternConstructor, Type, TypeView, ValueConstructor};

verus! {

/// Adds one instruction at the end.
pub fn push_air(ir: &mut Vec<Air>, air: Air)
    ensures
        air_views(final(ir)@) == air_views(old(ir)@).push(air@),
{
    ir.push(air);
    assert(air_views(ir@) =~= air_views(old(ir)@).push(air@));
}

/// Moves every instruction of `other` to the end of `ir`.
pub fn append_air(ir: &mut Vec<Air>, other: &mut Vec<Air>)
    ensures
        air_views(final(ir)@) == air_views(old(ir)@) + air_views(old(other)@),
        final(other)@.len() == 0,
{
    ir.append(other);
    assert(air_views(ir@) =~= air_views(old(ir)@) + air_views(old(other)@));
}

/// A reference to a local variable.
pub fn local_var_air(scope: &Vec<u64>, tipo: Type, name: String) -> (r: Air)
    ensures
        r@ == local_var(scope@, tipo@, name@),
{
    Air::Var {
        scope: clone_ids(scope),
        constructor: ValueConstructor::local(tipo),
        name,
        variant_name: String::new(),
    }
}

/// The text of an optional label; the empty text where there is none.
pub fn label_text_of(label: &Option<String>) -> (r: String)
    ensures
        r@ == label_of(*label),
{
    match label {
        Some(l) => l.clone(),
        None => String::new(),
    }
}

/// What is known of the constructor that a pattern names: its data type and
/// its position in it.
pub struct FoundConstructor<'a> {
    pub data_type: &'a TypedDataType,
    pub index: usize,
}

/// Looks up the constructor that a pattern of the given type names.
pub fn find_constructor_of<'a>(
    tipo: &Type,
    name: &String,
    data_types: &'a Vec<(DataTypeKey, TypedDataType)>,
) -> (r: Result<FoundConstructor<'a>, Halt>)
    ensures
        match r {
            Ok(found) => constructor_of(tipo@, name@, data_types@) == Ok::<
                (TypedDataType, int),
                Halt,
            >((*found.data_type, found.index as int)) && found.index
                < found.data_type.constructors@.len(),
            Err(e) => constructor_of(tipo@, name@, data_types@) == Err::<
                (TypedDataType, int),
                Halt,
            >(e),
        },
{
    let key = data_type_key_of(tipo, Halt::ImpossibleShape)?;
    match find_data_type(data_types, &key.0, &key.1) {
        None => Err(Halt::Missing),
        Some(data_type) => match data_type.find_constructor(name) {
            None => Err(Halt::Missing),
            Some(index) => Ok(FoundConstructor { data_type, index }),
        },
    }
}

/// Looks up the data type that a pattern of the given type belongs to.
pub fn find_data_type_of<'a>(tipo: &Type, data_types: &'a Vec<(DataTypeKey, TypedDataType)>) -> (r:
    Result<&'a TypedDataType, Halt>)
    ensures
        match r {
            Ok(found) => data_type_of(tipo@, data_types@) == Ok::<TypedDataType, Halt>(*found),
            Err(e) => data_type_of(tipo@, data_types@) == Err::<TypedDataType, Halt>(e),
        },
{
    let key = data_type_key_of(tipo, Halt::ImpossibleShape)?;
    match find_data_type(data_types, &key.0, &key.1) {
        None => Err(Halt::Missing),
        Some(data_type) => Ok(data_type),
    }
}

/// The labels of the first `count` fields of a constructor.
pub fn labels_of_fields(constructor: &RecordConstructor, count: usize) -> (r: Result<
    Vec<String>,
    Halt,
>)
    ensures
        match r {
            Ok(labels) => field_labels(*constructor, count as nat) == Ok::<Seq<Seq<char>>, Halt>(
                name_views(labels@),
            ),
            Err(e) => field_labels(*constructor, count as nat) == Err::<Seq<Seq<char>>, Halt>(e),
        },
{
    if count > constructor.arguments.len() {
        return Err(Halt::ImpossibleShape);
    }
    let mut out: Vec<String> = Vec::new();
    let mut i: usize = 0;
    while i < count
        invariant
            i <= count,
            count <= constructor.arguments@.len(),
            out@.len() == i,
            forall|j: int| 0 <= j < i ==> (#[trigger] constructor.arguments@[j]).label.is_some(),
            forall|j: int| 0 <= j < i ==> out@[j]@ == constructor.arguments@[j].label.unwrap()@,
        decreases count - i,
    {
        match &constructor.arguments[i].label {
            Some(l) => {
                out.push(l.clone());
            },
            None => {
                return Err(Halt::ImpossibleShape);
            },
        }
        i = i + 1;
    }
    assert(name_views(out@) =~= Seq::new(
        count as nat,
        |i: int| constructor.arguments@[i].label.unwrap()@,
    ));
    Ok(out)
}

/// The type of the last field with the given label.
pub fn type_for_label(labels: &Vec<String>, types: &Vec<Type>, label: &String) -> (r: Option<Type>)
    ensures
        match r {
            Some(t) => type_of_label(
                name_views(labels@),
                type_views(types@),
                label@,
                labels@.len(),
            ) == Some(t@),
            None => type_of_label(name_views(labels@), type_views(types@), label@, labels@.len())
                .is_none(),
        },
{
    if labels.len() > types.len() {
        return None;
    }
    let mut i: usize = labels.len();
    while i > 0
        invariant
            i <= labels.len(),
            labels@.len() <= types@.len(),
            type_of_label(name_views(labels@), type_views(types@), label@, labels@.len())
                == type_of_label(name_views(labels@), type_views(types@), label@, i as nat),
        decreases i,
    {
        i = i - 1;
        assert(name_views(labels@)[i as int] == labels@[i as int]@);
        assert(type_views(types@)[i as int] == types@[i as int]@);
        if labels[i] == *label {
            return Some(types[i].duplicate());
        }
    }
    None
}

/// The name that the tail of a list pattern binds, if it binds one.
pub fn tail_name_of(tail: &Option<Box<Pattern>>) -> (r: Result<Option<String>, Halt>)
    ensures
        match r {
            Ok(name) => tail_binding(*tail) == Ok::<Option<Seq<char>>, Halt>(
                crate::air::text_view(name),
            ),
            Err(e) => tail_binding(*tail) == Err::<Option<Seq<char>>, Halt>(e),
        },
{
    match tail {
        None => Ok(None),
        Some(t) => match &**t {
            Pattern::Var { name, .. } => Ok(Some(name.clone())),
            Pattern::Discard { .. } => Ok(None),
            _ => Err(Halt::ImpossibleShape),
        },
    }
}

proof fn lemma_labeled_bindings_fail(
    sorted: Seq<(usize, (Seq<char>, Seq<char>))>,
    labels: Seq<Seq<char>>,
    types: Seq<TypeView>,
    k: nat,
)
    requires
        k <= sorted.len(),
        labeled_bindings(sorted, labels, types, k) is Err,
    ensures
        labeled_bindings(sorted, labels, types, sorted.len()) == labeled_bindings(
            sorted,
            labels,
            types,
            k,
        ),
    decreases sorted.len() - k,
{
    if k < sorted.len() {
        assert(labeled_bindings(sorted, labels, types, k + 1) == labeled_bindings(
            sorted,
            labels,
            types,
            k,
        ));
        lemma_labeled_bindings_fail(sorted, labels, types, k + 1);
    }
}

proof fn lemma_positional_bindings_fail(
    items: Seq<(usize, Seq<char>)>,
    types: Seq<TypeView>,
    k: nat,
)
    requires
        k <= items.len(),
        positional_bindings(items, types, k) is Err,
    ensures
        positional_bindings(items, types, items.len()) == positional_bindings(items, types, k),
    decreases items.len() - k,
{
    if k < items.len() {
        assert(positional_bindings(items, types, k + 1) == positional_bindings(items, types, k));
        lemma_positional_bindings_fail(items, types, k + 1);
    }
}

/// The views of what was collected from the arguments of a pattern.
pub open spec fn collected_views(items: Seq<(usize, (String, String))>) -> Seq<
    (usize, (Seq<char>, Seq<char>)),
> {
    Seq::new(items.len(), |i: int| (items[i].0, (items[i].1.0@, items[i].1.1@)))
}

/// The bindings that expose the labelled fields, in the order of their
/// positions.
#[verifier::loop_isolation(false)]
pub fn bind_labeled(items: Vec<(usize, (String, String))>, labels: &Vec<String>, types: &Vec<Type>) -> (r:
    Result<Vec<(usize, String, Type)>, Halt>)
    ensures
        match r {
            Ok(bindings) => labeled_bindings(
                sorted_by_position(collected_views(items@)),
                name_views(labels@),
                type_views(types@),
                items@.len(),
            ) == Ok::<Seq<(usize, Seq<char>, TypeView)>, Halt>(binding_views(bindings@)),
            Err(e) => labeled_bindings(
                sorted_by_position(collected_views(items@)),
                name_views(labels@),
                type_views(types@),
                items@.len(),
            ) == Err::<Seq<(usize, Seq<char>, TypeView)>, Halt>(e),
        },
{
    let ghost unsorted = items@;
    let ghost view_of = |p: (String, String)| (p.0@, p.1@);
    let sorted = sort_by_position(items);
    proof {
        lemma_sort_carried(unsorted, view_of);
        crate::sorting::lemma_sorted_by_position(unsorted);
        assert(carried(unsorted, view_of) =~= collected_views(unsorted));
    }
    let ghost views = sorted_by_position(collected_views(unsorted));
    assert(views =~= carried(sorted@, view_of));
    let mut out: Vec<(usize, String, Type)> = Vec::new();
    let mut i: usize = 0;
    assert(binding_views(out@) =~= Seq::empty());
    while i < sorted.len()
        invariant
            i <= sorted.len(),
            sorted@.len() == unsorted.len(),
            views == carried(sorted@, view_of),
            labeled_bindings(views, name_views(labels@), type_views(types@), i as nat) == Ok::<
                Seq<(usize, Seq<char>, TypeView)>,
                Halt,
            >(binding_views(out@)),
        decreases sorted.len() - i,
    {
        assert(views[i as int] == (sorted@[i as int].0, (
            sorted@[i as int].1.0@,
            sorted@[i as int].1.1@,
        )));
        match type_for_label(labels, types, &sorted[i].1.0) {
            None => {
                proof {
                    assert(labeled_bindings(
                        views,
                        name_views(labels@),
                        type_views(types@),
                        (i + 1) as nat,
                    ) == Err::<Seq<(usize, Seq<char>, TypeView)>, Halt>(Halt::ImpossibleShape));
                    lemma_labeled_bindings_fail(
                        views,
                        name_views(labels@),
                        type_views(types@),
                        (i + 1) as nat,
                    );
                }
                return Err(Halt::ImpossibleShape);
            },
            Some(t) => {
                let ghost before = binding_views(out@);
                let ghost tv = t@;
                out.push((sorted[i].0, sorted[i].1.1.clone(), t));
                assert(binding_views(out@) =~= before.push(
                    (sorted@[i as int].0, sorted@[i as int].1.1@, tv),
                ));
            },
        }
        i = i + 1;
    }
    Ok(out)
}

/// The bindings that expose fields by position.
#[verifier::loop_isolation(false)]
pub fn bind_positional(items: &Vec<(usize, (String, String))>, types: &Vec<Type>) -> (r: Result<
    Vec<(usize, String, Type)>,
    Halt,
>)
    ensures
        match r {
            Ok(bindings) => positional_bindings(
                without_labels(collected_views(items@)),
                type_views(types@),
                items@.len(),
            ) == Ok::<Seq<(usize, Seq<char>, TypeView)>, Halt>(binding_views(bindings@)),
            Err(e) => positional_bindings(
                without_labels(collected_views(items@)),
                type_views(types@),
                items@.len(),
            ) == Err::<Seq<(usize, Seq<char>, TypeView)>, Halt>(e),
        },
{
    let ghost views = without_labels(collected_views(items@));
    let mut out: Vec<(usize, String, Type)> = Vec::new();
    let mut i: usize = 0;
    assert(binding_views(out@) =~= Seq::empty());
    while i < items.len()
        invariant
            i <= items.len(),
            positional_bindings(views, type_views(types@), i as nat) == Ok::<
                Seq<(usize, Seq<char>, TypeView)>,
                Halt,
            >(binding_views(out@)),
        decreases items.len() - i,
    {
        assert(views[i as int] == (items@[i as int].0, items@[i as int].1.1@));
        let index = items[i].0;
        if index >= types.len() {
            proof {
                assert(positional_bindings(views, type_views(types@), (i + 1) as nat) == Err::<
                    Seq<(usize, Seq<char>, TypeView)>,
                    Halt,
                >(Halt::ImpossibleShape));
                lemma_positional_bindings_fail(views, type_views(types@), (i + 1) as nat);
            }
            return Err(Halt::ImpossibleShape);
        }
        assert(type_views(types@)[index as int] == types@[index as int]@);
        let ghost before = binding_views(out@);
        out.push((index, items[i].1.1.clone(), types[index].duplicate()));
        assert(binding_views(out@) =~= before.push(
            (index, items@[i as int].1.1@, types@[index as int]@),
        ));
        i = i + 1;
    }
    Ok(out)
}

/// The instruction that exposes the given fields; nothing where there are
/// none.
pub fn expose_fields_air(bindings: Vec<(usize, String, Type)>, scope: &Vec<u64>) -> (r: Result<
    Vec<Air>,
    Halt,
>)
    ensures
        match r {
            Ok(ir) => fields_expose(binding_views(bindings@), scope@) == Ok::<Seq<AirView>, Halt>(
                air_views(ir@),
            ),
            Err(e) => fields_expose(binding_views(bindings@), scope@) == Err::<Seq<AirView>, Halt>(
                e,
            ),
        },
{
    let mut out: Vec<Air> = Vec::new();
    if bindings.len() == 0 {
        assert(air_views(out@) =~= Seq::empty());
        return Ok(out);
    }
    if bindings.len() > usize::MAX - 2 {
        return Err(Halt::Malformed);
    }
    let count = bindings.len() + 2;
    let air = Air::FieldsExpose { scope: clone_ids(scope), count, indices: bindings };
    assert(air_views(out@) =~= Seq::empty());
    push_air(&mut out, air);
    assert(air_views(out@) =~= seq![air@]);
    Ok(out)
}

/// The field map of the constructor that a record pattern names.
pub fn field_map_of(constructor: &PatternConstructor) -> (r: Result<&FieldMap, Halt>)
    ensures
        match r {
            Ok(m) => record_field_map(*constructor) == Ok::<FieldMapView, Halt>(m@),
            Err(e) => record_field_map(*constructor) == Err::<FieldMapView, Halt>(e),
        },
{
    match constructor {
        PatternConstructor::Record { field_map, .. } => match field_map {
            Some(m) => Ok(m),
            None => Err(Halt::ImpossibleShape),
        },
    }
}

/// What a function that lowers part of a pattern leaves unchanged in the
/// generator: everything but the next fresh identifier.
pub open spec fn only_ids_moved(before: &CodeGenerator, after: &CodeGenerator) -> bool {
    before.same_tables(after) && before.needs_field_access == after.needs_field_access
}

impl<'a> CodeGenerator<'a> {
    /// Lowers the elements of a list or tuple pattern of an assignment, from
    /// position `from` on.
    pub fn pattern_elements(
        &mut self,
        elements: &Vec<Pattern>,
        from: usize,
        tipo: &Type,
        scope: &Vec<u64>,
    ) -> (r: Result<(Vec<String>, Vec<Air>), Halt>)
        ensures
            match r {
                Ok(out) => lower_elements(
                    elements@,
                    from as nat,
                    tipo@,
                    scope@,
                    old(self).id_gen.peek(),
                    old(self).data_types@,
                ) == Ok::<(Seq<Seq<char>>, Seq<AirView>, u64), Halt>(
                    (name_views(out.0@), air_views(out.1@), final(self).id_gen.peek()),
                ),
                Err(e) => lower_elements(
                    elements@,
                    from as nat,
                    tipo@,
                    scope@,
                    old(self).id_gen.peek(),
                    old(self).data_types@,
                ) == Err::<(Seq<Seq<char>>, Seq<AirView>, u64), Halt>(e),
            },
            only_ids_moved(old(self), final(self)),
        decreases elements@, 0nat, elements@.len() - from,
    {
        if from >= elements.len() {
            let names: Vec<String> = Vec::new();
            let ir: Vec<Air> = Vec::new();
            assert(name_views(names@) =~= Seq::empty());
            assert(air_views(ir@) =~= Seq::empty());
            return Ok((names, ir));
        }
        match &elements[from] {
            Pattern::Var { name, .. } => {
                let (mut names, ir) = self.pattern_elements(elements, from + 1, tipo, scope)?;
                let ghost rest = name_views(names@);
                names.insert(0, name.clone());
                assert(name_views(names@) =~= seq![name@] + rest);
                Ok((names, ir))
            },
            Pattern::List { .. } => {
                let inner = tipo.get_inner_types();
                if inner.len() == 0 {
                    return Err(Halt::ImpossibleShape);
                }
                assert(type_views(inner@)[0] == inner@[0]@);
                let id = self.id_gen.next();
                let item_name = numbered("list_item_id_", id);
                let mut values: Vec<Air> = Vec::new();
                let var = local_var_air(scope, Type::plain(""), item_name.clone());
                proof {
                    reveal_strlit("");
                    assert(""@ =~= Seq::<char>::empty());
                }
                assert(air_views(values@) =~= Seq::empty());
                push_air(&mut values, var);
                assert(air_views(values@) =~= seq![
                    local_var(scope@, TypeView::plain(Seq::empty()), item_name@),
                ]);
                let mut nested: Vec<Air> = Vec::new();
                assert(air_views(nested@) =~= Seq::empty());
                self.pattern_ir(&elements[from], &mut nested, &mut values, &inner[0], clone_ids(scope))?;
                let (mut names, mut ir) = self.pattern_elements(elements, from + 1, tipo, scope)?;
                let ghost rest = name_views(names@);
                names.insert(0, item_name);
                assert(name_views(names@) =~= seq![list_item_name(id)] + rest);
                append_air(&mut nested, &mut ir);
                Ok((names, nested))
            },
            _ => Err(Halt::Unsupported),
        }
    }

    /// Lowers the arguments of a constructor pattern of an assignment, from
    /// position `from` on.
    pub fn pattern_arguments(
        &mut self,
        arguments: &Vec<PatternArg>,
        from: usize,
        field_map: Option<&FieldMap>,
        scope: &Vec<u64>,
    ) -> (r: Result<(Vec<(usize, (String, String))>, Vec<Air>), Halt>)
        ensures
            match r {
                Ok(out) => lower_arguments(
                    arguments@,
                    from as nat,
                    match field_map {
                        Some(m) => Some(m@),
                        None => None,
                    },
                    scope@,
                    old(self).id_gen.peek(),
                    old(self).data_types@,
                ) == Ok::<(Seq<(usize, (Seq<char>, Seq<char>))>, Seq<AirView>, u64), Halt>(
                    (collected_views(out.0@), air_views(out.1@), final(self).id_gen.peek()),
                ),
                Err(e) => lower_arguments(
                    arguments@,
                    from as nat,
                    match field_map {
                        Some(m) => Some(m@),
                        None => None,
                    },
                    scope@,
                    old(self).id_gen.peek(),
                    old(self).data_types@,
                ) == Err::<(Seq<(usize, (Seq<char>, Seq<char>))>, Seq<AirView>, u64), Halt>(e),
            },
            only_ids_moved(old(self), final(self)),
        decreases arguments@, 0nat, arguments@.len() - from,
    {
        if from >= arguments.len() {
            let items: Vec<(usize, (String, String))> = Vec::new();
            let ir: Vec<Air> = Vec::new();
            assert(collected_views(items@) =~= Seq::empty());
            assert(air_views(ir@) =~= Seq::empty());
            return Ok((items, ir));
        }
        let item = &arguments[from];
        let label = label_text_of(&item.label);
        let position: usize = match field_map {
            Some(m) => match m.get(&label) {
                Some(i) => i,
                None => 0,
            },
            None => from,
        };
        match &item.value {
            Pattern::Var { name, .. } => {
                let (mut items, ir) = self.pattern_arguments(arguments, from + 1, field_map, scope)?;
                let ghost rest = collected_views(items@);
                items.insert(0, (position, (label, name.clone())));
                assert(collected_views(items@) =~= seq![(position, (label@, name@))] + rest);
                Ok((items, ir))
            },
            Pattern::Discard { .. } => self.pattern_arguments(arguments, from + 1, field_map, scope),
            Pattern::Constructor { tipo, name, .. } => {
                let id = self.id_gen.next();
                let var_name = name.clone().concat("_").concat(number_text(id).as_str());
                let mut values: Vec<Air> = Vec::new();
                assert(air_views(values@) =~= Seq::empty());
                push_air(&mut values, local_var_air(scope, tipo.duplicate(), var_name.clone()));
                assert(air_views(values@) =~= seq![local_var(scope@, tipo@, var_name@)]);
                let mut nested: Vec<Air> = Vec::new();
                assert(air_views(nested@) =~= Seq::empty());
                self.pattern_ir(&item.value, &mut nested, &mut values, tipo, clone_ids(scope))?;
                let (mut items, mut ir) = self.pattern_arguments(
                    arguments,
                    from + 1,
                    field_map,
                    scope,
                )?;
                let ghost rest = collected_views(items@);
                items.insert(0, (position, (label, var_name)));
                assert(collected_views(items@) =~= seq![
                    (position, (label@, constructor_var_name(name@, id))),
                ] + rest);
                append_air(&mut nested, &mut ir);
                Ok((items, nested))
            },
            _ => Err(Halt::Unsupported),
        }
    }

    /// Lowers a pattern of an assignment: the instructions that take the
    /// value apart go to the end of `pattern_vec`, then `values`, the
    /// instructions of the value, then the instructions for what is nested in
    /// the pattern.
    pub fn pattern_ir(
        &mut self,
        pattern: &Pattern,
        pattern_vec: &mut Vec<Air>,
        values: &mut Vec<Air>,
        tipo: &Type,
        scope: Vec<u64>,
    ) -> (r: Result<(), Halt>)
        ensures
            match r {
                Ok(()) => match lower_pattern(
                    *pattern,
                    air_views(old(values)@),
                    tipo@,
                    scope@,
                    old(self).id_gen.peek(),
                    old(self).data_types@,
                ) {
                    Ok((ir, id)) => air_views(final(pattern_vec)@) == air_views(old(pattern_vec)@)
                        + ir && id == final(self).id_gen.peek(),
                    Err(_) => false,
                },
                Err(e) => lower_pattern(
                    *pattern,
                    air_views(old(values)@),
                    tipo@,
                    scope@,
                    old(self).id_gen.peek(),
                    old(self).data_types@,
                ) == Err::<(Seq<AirView>, u64), Halt>(e),
            },
            only_ids_moved(old(self), final(self)),
            r is Ok ==> final(values)@.len() == 0,
        decreases pattern, 0nat, 0nat,
    {
        let ghost start = air_views(pattern_vec@);
        let ghost value_ir = air_views(values@);
        match pattern {
            Pattern::Discard { .. } => {
                push_air(pattern_vec, Air::Discard { scope });
                append_air(pattern_vec, values);
                assert(air_views(pattern_vec@) =~= start + (seq![AirView::Discard { scope: scope@ }]
                    + value_ir));
                Ok(())
            },
            Pattern::List { elements, tail, .. } => {
                let (mut names, mut nested) = self.pattern_elements(elements, 0, tipo, &scope)?;
                let ghost element_names = name_views(names@);
                let ghost nested_ir = air_views(nested@);
                let tail_name = tail_name_of(tail)?;
                match tail_name {
                    Some(n) => {
                        names.push(n);
                        assert(name_views(names@) =~= element_names.push(n@));
                    },
                    None => {},
                }
                let air = Air::ListAccessor {
                    names,
                    tail: tail.is_some(),
                    scope,
                    tipo: tipo.duplicate(),
                };
                push_air(pattern_vec, air);
                append_air(pattern_vec, values);
                append_air(pattern_vec, &mut nested);
                assert(air_views(pattern_vec@) =~= start + (seq![air@] + value_ir + nested_ir));
                Ok(())
            },
            Pattern::Constructor {
                is_record,
                name,
                arguments,
                constructor,
                tipo: pattern_type,
                ..
            } => {
                let found = find_constructor_of(pattern_type, name, self.data_types)?;
                let types = pattern_type.arg_types();
                if *is_record {
                    let field_map = field_map_of(constructor)?;
                    let types = match types {
                        Some(t) => t,
                        None => {
                            return Err(Halt::ImpossibleShape);
                        },
                    };
                    let labels = labels_of_fields(
                        &found.data_type.constructors[found.index],
                        types.len(),
                    )?;
                    let (items, mut nested) = self.pattern_arguments(
                        arguments,
                        0,
                        Some(field_map),
                        &scope,
                    )?;
                    let ghost nested_ir = air_views(nested@);
                    let bindings = bind_labeled(items, &labels, &types)?;
                    let mut expose = expose_fields_air(bindings, &scope)?;
                    let ghost expose_ir = air_views(expose@);
                    append_air(pattern_vec, &mut expose);
                    append_air(pattern_vec, values);
                    append_air(pattern_vec, &mut nested);
                    assert(air_views(pattern_vec@) =~= start + (expose_ir + value_ir + nested_ir));
                    Ok(())
                } else {
                    let types = match types {
                        Some(t) => t,
                        None => {
                            return Err(Halt::ImpossibleShape);
                        },
                    };
                    let (items, mut nested) = self.pattern_arguments(arguments, 0, None, &scope)?;
                    let ghost nested_ir = air_views(nested@);
                    let bindings = bind_positional(&items, &types)?;
                    let mut expose = expose_fields_air(bindings, &scope)?;
                    let ghost expose_ir = air_views(expose@);
                    append_air(pattern_vec, &mut expose);
                    append_air(pattern_vec, values);
                    append_air(pattern_vec, &mut nested);
                    assert(air_views(pattern_vec@) =~= start + (expose_ir + value_ir + nested_ir));
                    Ok(())
                }
            },
            Pattern::Tuple { elems, .. } => {
                let (names, mut nested) = self.pattern_elements(elems, 0, tipo, &scope)?;
                let ghost nested_ir = air_views(nested@);
                let air = Air::TupleAccessor { names, scope, tipo: tipo.duplicate() };
                push_air(pattern_vec, air);
                append_air(pattern_vec, values);
                append_air(pattern_vec, &mut nested);
                assert(air_views(pattern_vec@) =~= start + (seq![air@] + value_ir + nested_ir));
                Ok(())
            },
            _ => Err(Halt::Unsupported),
        }
    }

    /// Lowers an assignment: a binding for a variable, and for every other
    /// pattern the instructions that take the value apart. They go to the
    /// end of `pattern_vec`; `value_vec` holds the instructions of the value.
    pub fn assignment_ir(
        &mut self,
        pattern: &Pattern,
        pattern_vec: &mut Vec<Air>,
        value_vec: &mut Vec<Air>,
        tipo: &Type,
        kind: AssignmentKind,
        scope: Vec<u64>,
    ) -> (r: Result<(), Halt>)
        ensures
            match r {
                Ok(()) => match lower_assignment(
                    *pattern,
                    air_views(old(value_vec)@),
                    tipo@,
                    kind,
                    scope@,
                    old(self).id_gen.peek(),
                    old(self).data_types@,
                ) {
                    Ok((ir, id)) => air_views(final(pattern_vec)@) == air_views(old(pattern_vec)@)
                        + ir && id == final(self).id_gen.peek(),
                    Err(_) => false,
                },
                Err(e) => lower_assignment(
                    *pattern,
                    air_views(old(value_vec)@),
                    tipo@,
                    kind,
                    scope@,
                    old(self).id_gen.peek(),
                    old(self).data_types@,
                ) == Err::<(Seq<AirView>, u64), Halt>(e),
            },
            only_ids_moved(old(self), final(self)),
            r is Ok ==> final(value_vec)@.len() == 0,
    {
        let ghost start = air_views(pattern_vec@);
        let ghost value_ir = air_views(value_vec@);
        match pattern {
            Pattern::Int { .. } | Pattern::String { .. } => Err(Halt::ImpossibleShape),
            Pattern::Var { name, .. } => {
                let air = Air::Assignment { name: name.clone(), kind, scope };
                push_air(pattern_vec, air);
                append_air(pattern_vec, value_vec);
                assert(air_views(pattern_vec@) =~= start + (seq![air@] + value_ir));
                Ok(())
            },
            Pattern::VarUsage { .. } | Pattern::Assign { .. } => Err(Halt::Unsupported),
            _ => self.pattern_ir(pattern, pattern_vec, value_vec, tipo, scope),
        }
    }
}

} // verus!
