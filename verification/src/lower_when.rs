use vstd::prelude::*;
use crate::air::{air_views, clone_indices, index_views, pair_views, Air, AirView};
use crate::ast::{Pattern, PatternArg};
use crate::builder::{check_when_pattern_needs, ClauseKind, ClauseProperties, PropsView};
use crate::error::Halt;
use crate::generator::CodeGenerator;
use crate::lower_pattern::{
    append_air,
    bind_labeled,
    bind_positional,
    collected_views,
    expose_fields_air,
    field_map_of,
    find_constructor_of,
    find_data_type_of,
    label_text_of,
    labels_of_fields,
    local_var_air,
    only_ids_moved,
    push_air,
    tail_name_of,
    type_for_label,
};
use crate::pattern_spec::{
    defined_after,
    defined_at,
    exposed_heads,
    list_test,
    local_var,
    lower_nested,
    lower_nested_arguments,
    lower_nested_elements,
    lower_nested_list,
    lower_tuple_elements,
    lower_when,
    lower_when_inner,
    nested_tail_binding,
    rebound,
    tail_name,
    with_needs_of_all,
    with_needs_of_arguments,
    Matched,
    Nested,
};
use crate::text::{clone_ids, decimal, name_views, number_text, numbered, text_is};
use crate::tipo::{type_views, FieldMap, Type};

verus! {

proof fn lemma_needs_of_all_fail(props: PropsView, patterns: Seq<Pattern>, k: nat)
    requires
        k <= patterns.len(),
        with_needs_of_all(props, patterns, k) is Err,
    ensures
        with_needs_of_all(props, patterns, patterns.len()) == with_needs_of_all(props, patterns, k),
    decreases patterns.len() - k,
{
    if k < patterns.len() {
        assert(with_needs_of_all(props, patterns, k + 1) == with_needs_of_all(props, patterns, k));
        lemma_needs_of_all_fail(props, patterns, k + 1);
    }
}

proof fn lemma_needs_of_arguments_fail(props: PropsView, arguments: Seq<PatternArg>, k: nat)
    requires
        k <= arguments.len(),
        with_needs_of_arguments(props, arguments, k) is Err,
    ensures
        with_needs_of_arguments(props, arguments, arguments.len()) == with_needs_of_arguments(
            props,
            arguments,
            k,
        ),
    decreases arguments.len() - k,
{
    if k < arguments.len() {
        assert(with_needs_of_arguments(props, arguments, k + 1) == with_needs_of_arguments(
            props,
            arguments,
            k,
        ));
        lemma_needs_of_arguments_fail(props, arguments, k + 1);
    }
}

/// Asks every pattern what it needs of the clause.
#[verifier::loop_isolation(false)]
pub fn check_all_needs(patterns: &Vec<Pattern>, clause_properties: &mut ClauseProperties) -> (r:
    Result<(), Halt>)
    ensures
        match r {
            Ok(()) => with_needs_of_all(old(clause_properties)@, patterns@, patterns@.len())
                == Ok::<PropsView, Halt>(final(clause_properties)@),
            Err(e) => with_needs_of_all(old(clause_properties)@, patterns@, patterns@.len())
                == Err::<PropsView, Halt>(e),
        },
{
    let ghost start = clause_properties@;
    let mut i: usize = 0;
    while i < patterns.len()
        invariant
            i <= patterns.len(),
            with_needs_of_all(start, patterns@, i as nat) == Ok::<PropsView, Halt>(
                clause_properties@,
            ),
        decreases patterns.len() - i,
    {
        match check_when_pattern_needs(&patterns[i], clause_properties) {
            Ok(()) => {},
            Err(e) => {
                proof {
                    assert(with_needs_of_all(start, patterns@, (i + 1) as nat) == Err::<
                        PropsView,
                        Halt,
                    >(e));
                    lemma_needs_of_all_fail(start, patterns@, (i + 1) as nat);
                }
                return Err(e);
            },
        }
        i = i + 1;
    }
    Ok(())
}

/// Asks every argument's pattern what it needs of the clause.
#[verifier::loop_isolation(false)]
pub fn check_argument_needs(arguments: &Vec<PatternArg>, clause_properties: &mut ClauseProperties) -> (r:
    Result<(), Halt>)
    ensures
        match r {
            Ok(()) => with_needs_of_arguments(
                old(clause_properties)@,
                arguments@,
                arguments@.len(),
            ) == Ok::<PropsView, Halt>(final(clause_properties)@),
            Err(e) => with_needs_of_arguments(
                old(clause_properties)@,
                arguments@,
                arguments@.len(),
            ) == Err::<PropsView, Halt>(e),
        },
{
    let ghost start = clause_properties@;
    let mut i: usize = 0;
    while i < arguments.len()
        invariant
            i <= arguments.len(),
            with_needs_of_arguments(start, arguments@, i as nat) == Ok::<PropsView, Halt>(
                clause_properties@,
            ),
        decreases arguments.len() - i,
    {
        match check_when_pattern_needs(&arguments[i].value, clause_properties) {
            Ok(()) => {},
            Err(e) => {
                proof {
                    assert(with_needs_of_arguments(start, arguments@, (i + 1) as nat) == Err::<
                        PropsView,
                        Halt,
                    >(e));
                    lemma_needs_of_arguments_fail(start, arguments@, (i + 1) as nat);
                }
                return Err(e);
            },
        }
        i = i + 1;
    }
    Ok(())
}

/// The three instructions that open a test on a list.
pub fn push_list_test(
    ir: &mut Vec<Air>,
    scope: &Vec<u64>,
    tipo: &Type,
    tail: String,
    next_tail: Option<String>,
    inverse: bool,
)
    ensures
        air_views(final(ir)@) == air_views(old(ir)@) + list_test(
            scope@,
            tipo@,
            tail@,
            crate::air::text_view(next_tail),
            inverse,
        ),
{
    let ghost start = air_views(ir@);
    push_air(
        ir,
        Air::ListClause {
            scope: clone_ids(scope),
            tipo: tipo.duplicate(),
            tail_name: tail,
            next_tail_name: next_tail,
            complex_clause: false,
            inverse,
        },
    );
    push_air(ir, Air::Discard { scope: clone_ids(scope) });
    push_air(
        ir,
        local_var_air(scope, tipo.duplicate(), String::from_str("__other_clauses_delayed")),
    );
    assert(air_views(ir@) =~= start + list_test(
        scope@,
        tipo@,
        tail@,
        crate::air::text_view(next_tail),
        inverse,
    ));
}

/// The name that a nested list's tail pattern gives to the rest.
pub fn nested_tail_name_of(tail: &Option<Box<Pattern>>) -> (r: Result<String, Halt>)
    ensures
        match r {
            Ok(name) => nested_tail_binding(*tail) == Ok::<Seq<char>, Halt>(name@),
            Err(e) => nested_tail_binding(*tail) == Err::<Seq<char>, Halt>(e),
        },
{
    match tail {
        None => Err(Halt::ImpossibleShape),
        Some(t) => match &**t {
            Pattern::Var { name, .. } => Ok(name.clone()),
            Pattern::Discard { .. } => {
                proof {
                    reveal_strlit("_");
                }
                let r = String::from_str("_");
                assert(r@ =~= seq!['_']);
                Ok(r)
            },
            _ => Err(Halt::ImpossibleShape),
        },
    }
}

/// The heads that a list pattern exposes.
pub fn heads_to_expose(names: &Vec<String>, subject: &String) -> (r: Vec<(String, String)>)
    ensures
        pair_views(r@) == exposed_heads(name_views(names@), subject@, names@.len()),
{
    let mut out: Vec<(String, String)> = Vec::new();
    let mut i: usize = 0;
    assert(pair_views(out@) =~= Seq::empty());
    proof {
        reveal_strlit("_");
        assert("_"@ =~= seq!['_']);
    }
    while i < names.len()
        invariant
            i <= names.len(),
            "_"@ == seq!['_'],
            pair_views(out@) == exposed_heads(name_views(names@), subject@, i as nat),
        decreases names.len() - i,
    {
        assert(name_views(names@)[i as int] == names@[i as int]@);
        assert(name_views(names@)[0] == names@[0]@);
        if !text_is(&names[i], "_") {
            let ghost before = pair_views(out@);
            if i == 0 {
                out.push((subject.clone(), names[0].clone()));
                assert(pair_views(out@) =~= before.push((subject@, names@[0]@)));
            } else {
                let tail = numbered("__tail_", (i - 1) as u64);
                out.push((tail, names[i].clone()));
                assert(pair_views(out@) =~= before.push(
                    (tail_name((i - 1) as nat), names@[i as int]@),
                ));
            }
        }
        i = i + 1;
    }
    out
}

proof fn lemma_defined_at_found(defined: Seq<(usize, Seq<char>)>, index: usize, at: int, upto: nat)
    requires
        0 <= at < upto <= defined.len(),
        defined[at].0 == index,
        forall|j: int| 0 <= j < at ==> (#[trigger] defined[j]).0 != index,
    ensures
        defined_at(defined, index, upto) == Some(at),
    decreases upto,
{
    lemma_defined_at_none(defined, index, at as nat);
    if upto > at + 1 {
        lemma_defined_at_found(defined, index, at, (upto - 1) as nat);
    }
}

proof fn lemma_defined_at_none(defined: Seq<(usize, Seq<char>)>, index: usize, upto: nat)
    requires
        upto <= defined.len(),
        forall|j: int| 0 <= j < upto ==> (#[trigger] defined[j]).0 != index,
    ensures
        defined_at(defined, index, upto).is_none(),
    decreases upto,
{
    if upto > 0 {
        lemma_defined_at_none(defined, index, (upto - 1) as nat);
    }
}

/// The position in the list of bound positions that holds the given
/// position of the tuple.
pub fn find_defined(defined: &Vec<(usize, String)>, index: usize) -> (r: Option<usize>)
    ensures
        match r {
            Some(at) => at < defined@.len() && defined_at(
                index_views(defined@),
                index,
                defined@.len(),
            ) == Some(at as int),
            None => defined_at(index_views(defined@), index, defined@.len()).is_none(),
        },
{
    let ghost views = index_views(defined@);
    let mut i: usize = 0;
    while i < defined.len()
        invariant
            i <= defined.len(),
            views == index_views(defined@),
            forall|j: int| 0 <= j < i ==> (#[trigger] views[j]).0 != index,
        decreases defined.len() - i,
    {
        assert(views[i as int].0 == defined@[i as int].0);
        if defined[i].0 == index {
            proof {
                lemma_defined_at_found(views, index, i as int, defined@.len());
            }
            return Some(i);
        }
        i = i + 1;
    }
    proof {
        lemma_defined_at_none(views, index, defined@.len());
    }
    None
}

/// Binds the elements of a tuple pattern whose positions an earlier clause
/// has bound to that clause's names, and records the positions that this
/// clause binds first.
pub fn rebind_defined(
    defined: &mut Vec<(usize, String)>,
    names: &Vec<String>,
    types: &Vec<Type>,
    scope: &Vec<u64>,
    ir: &mut Vec<Air>,
)
    requires
        names@.len() <= types@.len(),
    ensures
        index_views(final(defined)@) == defined_after(
            index_views(old(defined)@),
            name_views(names@),
            names@.len(),
        ),
        air_views(final(ir)@) == air_views(old(ir)@) + rebound(
            index_views(old(defined)@),
            name_views(names@),
            type_views(types@),
            scope@,
            names@.len(),
        ),
{
    let ghost start = air_views(ir@);
    let ghost first = index_views(defined@);
    let ghost nv = name_views(names@);
    let ghost tv = type_views(types@);
    let mut i: usize = 0;
    assert(start + Seq::<AirView>::empty() =~= start);
    while i < names.len()
        invariant
            i <= names.len(),
            names@.len() <= types@.len(),
            nv == name_views(names@),
            tv == type_views(types@),
            index_views(defined@) == defined_after(first, nv, i as nat),
            air_views(ir@) == start + rebound(first, nv, tv, scope@, i as nat),
        decreases names.len() - i,
    {
        assert(nv[i as int] == names@[i as int]@);
        assert(tv[i as int] == types@[i as int]@);
        let ghost before_ir = rebound(first, nv, tv, scope@, i as nat);
        match find_defined(defined, i) {
            Some(at) => {
                assert(index_views(defined@)[at as int].1 == defined@[at as int].1@);
                push_air(ir, Air::Lam { scope: clone_ids(scope), name: names[i].clone() });
                push_air(ir, local_var_air(scope, types[i].duplicate(), defined[at].1.clone()));
                assert(air_views(ir@) =~= start + (before_ir + seq![
                    AirView::Lam { scope: scope@, name: nv[i as int] },
                    local_var(scope@, tv[i as int], index_views(defined@)[at as int].1),
                ]));
            },
            None => {
                let ghost before = index_views(defined@);
                defined.push((i, names[i].clone()));
                assert(index_views(defined@) =~= before.push((i, nv[i as int])));
            },
        }
        i = i + 1;
    }
}

impl<'a> CodeGenerator<'a> {
    /// Lowers the elements of a list pattern of a clause, from position
    /// `from` on.
    #[verifier::rlimit(80)]
    pub fn nested_elements(
        &mut self,
        elements: &Vec<Pattern>,
        from: usize,
        item_type: &Type,
        scope: &Vec<u64>,
    ) -> (r: Result<(Vec<String>, Vec<Air>), Halt>)
        ensures
            match r {
                Ok(out) => lower_nested_elements(
                    elements@,
                    from as nat,
                    item_type@,
                    scope@,
                    old(self).id_gen.peek(),
                    old(self).data_types@,
                ) == Ok::<(Seq<Seq<char>>, Seq<AirView>, u64), Halt>(
                    (name_views(out.0@), air_views(out.1@), final(self).id_gen.peek()),
                ),
                Err(e) => lower_nested_elements(
                    elements@,
                    from as nat,
                    item_type@,
                    scope@,
                    old(self).id_gen.peek(),
                    old(self).data_types@,
                ) == Err::<(Seq<Seq<char>>, Seq<AirView>, u64), Halt>(e),
            },
            only_ids_moved(old(self), final(self)),
        decreases elements@, 0nat, elements@.len() - from,
    {
        if from >= elements.len() {
            let names: Vec<String> = Vec::new();
            let ir: Vec<Air> = Vec::new();
            assert(name_views(names@) =~= Seq::empty());
            assert(air_views(ir@) =~= Seq::empty());
            return Ok((names, ir));
        }
        let mut nested: Vec<Air> = Vec::new();
        assert(air_views(nested@) =~= Seq::empty());
        let name = self.nested_pattern_ir_and_label(
            &elements[from],
            &mut nested,
            item_type,
            clone_ids(scope),
        )?;
        let (mut names, mut ir) = self.nested_elements(elements, from + 1, item_type, scope)?;
        let ghost rest = name_views(names@);
        let name = match name {
            Some(n) => n,
            None => {
                proof {
                    reveal_strlit("_");
                }
                let r = String::from_str("_");
                assert(r@ =~= seq!['_']);
                r
            },
        };
        names.insert(0, name);
        assert(name_views(names@) =~= seq![name@] + rest);
        append_air(&mut nested, &mut ir);
        Ok((names, nested))
    }

    /// Lowers the elements of a tuple pattern of a clause, from position
    /// `from` on.
    #[verifier::rlimit(80)]
    pub fn tuple_elements(
        &mut self,
        elements: &Vec<Pattern>,
        from: usize,
        types: &Vec<Type>,
        scope: &Vec<u64>,
    ) -> (r: Result<(Vec<String>, Vec<Air>), Halt>)
        ensures
            match r {
                Ok(out) => lower_tuple_elements(
                    elements@,
                    from as nat,
                    type_views(types@),
                    scope@,
                    old(self).id_gen.peek(),
                    old(self).data_types@,
                ) == Ok::<(Seq<Seq<char>>, Seq<AirView>, u64), Halt>(
                    (name_views(out.0@), air_views(out.1@), final(self).id_gen.peek()),
                ) && (from <= elements@.len() ==> out.0@.len() == elements@.len() - from) && (from
                    < elements@.len() ==> elements@.len() <= types@.len()),
                Err(e) => lower_tuple_elements(
                    elements@,
                    from as nat,
                    type_views(types@),
                    scope@,
                    old(self).id_gen.peek(),
                    old(self).data_types@,
                ) == Err::<(Seq<Seq<char>>, Seq<AirView>, u64), Halt>(e),
            },
            only_ids_moved(old(self), final(self)),
        decreases elements@, 0nat, elements@.len() - from,
    {
        if from >= elements.len() {
            let names: Vec<String> = Vec::new();
            let ir: Vec<Air> = Vec::new();
            assert(name_views(names@) =~= Seq::empty());
            assert(air_views(ir@) =~= Seq::empty());
            return Ok((names, ir));
        }
        if from >= types.len() {
            return Err(Halt::ImpossibleShape);
        }
        assert(type_views(types@)[from as int] == types@[from as int]@);
        let mut nested: Vec<Air> = Vec::new();
        assert(air_views(nested@) =~= Seq::empty());
        let name = self.nested_pattern_ir_and_label(
            &elements[from],
            &mut nested,
            &types[from],
            clone_ids(scope),
        )?;
        let (mut names, mut ir) = self.tuple_elements(elements, from + 1, types, scope)?;
        let ghost rest = name_views(names@);
        let name = match name {
            Some(n) => n,
            None => {
                proof {
                    reveal_strlit("_");
                }
                let r = String::from_str("_");
                assert(r@ =~= seq!['_']);
                r
            },
        };
        names.insert(0, name);
        assert(name_views(names@) =~= seq![name@] + rest);
        append_air(&mut nested, &mut ir);
        Ok((names, nested))
    }

    /// Lowers the arguments of a constructor pattern of a clause, from
    /// position `from` on.
    #[verifier::rlimit(80)]
    pub fn nested_arguments(
        &mut self,
        arguments: &Vec<PatternArg>,
        from: usize,
        field_map: Option<&FieldMap>,
        labels: &Vec<String>,
        types: &Vec<Type>,
        scope: &Vec<u64>,
    ) -> (r: Result<(Vec<(usize, (String, String))>, Vec<Air>), Halt>)
        ensures
            match r {
                Ok(out) => lower_nested_arguments(
                    arguments@,
                    from as nat,
                    match field_map {
                        Some(m) => Some(m@),
                        None => None,
                    },
                    name_views(labels@),
                    type_views(types@),
                    scope@,
                    old(self).id_gen.peek(),
                    old(self).data_types@,
                ) == Ok::<(Seq<(usize, (Seq<char>, Seq<char>))>, Seq<AirView>, u64), Halt>(
                    (collected_views(out.0@), air_views(out.1@), final(self).id_gen.peek()),
                ),
                Err(e) => lower_nested_arguments(
                    arguments@,
                    from as nat,
                    match field_map {
                        Some(m) => Some(m@),
                        None => None,
                    },
                    name_views(labels@),
                    type_views(types@),
                    scope@,
                    old(self).id_gen.peek(),
                    old(self).data_types@,
                ) == Err::<(Seq<(usize, (Seq<char>, Seq<char>))>, Seq<AirView>, u64), Halt>(e),
            },
            only_ids_moved(old(self), final(self)),
        decreases arguments@, 0nat, arguments@.len() - from,
    {
        if from >= arguments.len() {
            let items: Vec<(usize, (String, String))> = Vec::new();
            let ir: Vec<Air> = Vec::new();
            assert(collected_views(items@) =~= Seq::empty());
            assert(air_views(ir@) =~= Seq::empty());
            return Ok((items, ir));
        }
        let item = &arguments[from];
        let label = label_text_of(&item.label);
        let position: usize = match field_map {
            Some(m) => match m.get(&label) {
                Some(i) => i,
                None => 0,
            },
            None => from,
        };
        let item_type = match field_map {
            Some(_) => match type_for_label(labels, types, &label) {
                Some(t) => t,
                None => Type::plain("Discard"),
            },
            None => {
                if from >= types.len() {
                    return Err(Halt::ImpossibleShape);
                }
                assert(type_views(types@)[from as int] == types@[from as int]@);
                types[from].duplicate()
            },
        };
        let mut nested: Vec<Air> = Vec::new();
        assert(air_views(nested@) =~= Seq::empty());
        let name = self.nested_pattern_ir_and_label(
            &item.value,
            &mut nested,
            &item_type,
            clone_ids(scope),
        )?;
        let (mut items, mut ir) = self.nested_arguments(
            arguments,
            from + 1,
            field_map,
            labels,
            types,
            scope,
        )?;
        match name {
            Some(n) => {
                let ghost rest = collected_views(items@);
                items.insert(0, (position, (label, n)));
                assert(collected_views(items@) =~= seq![(position, (label@, n@))] + rest);
            },
            None => {},
        }
        append_air(&mut nested, &mut ir);
        Ok((items, nested))
    }

    /// The tests of a nested list pattern, position by position from `from`
    /// on.
    #[verifier::rlimit(80)]
    pub fn nested_list_tests(
        &mut self,
        pattern: &Pattern,
        from: usize,
        item_name: &String,
        pattern_type: &Type,
        scope: &Vec<u64>,
        pattern_vec: &mut Vec<Air>,
    ) -> (r: Result<(), Halt>)
        requires
            *pattern is List,
        ensures
            match r {
                Ok(()) => match lower_nested_list(
                    *pattern,
                    from as nat,
                    item_name@,
                    pattern_type@,
                    scope@,
                    old(self).id_gen.peek(),
                    old(self).data_types@,
                ) {
                    Ok((ir, id)) => air_views(final(pattern_vec)@) == air_views(old(pattern_vec)@)
                        + ir && id == final(self).id_gen.peek(),
                    Err(_) => false,
                },
                Err(e) => lower_nested_list(
                    *pattern,
                    from as nat,
                    item_name@,
                    pattern_type@,
                    scope@,
                    old(self).id_gen.peek(),
                    old(self).data_types@,
                ) == Err::<(Seq<AirView>, u64), Halt>(e),
            },
            only_ids_moved(old(self), final(self)),
        decreases pattern, 2nat, pattern->List_elements@.len() - from,
    {
        let ghost start = air_views(pattern_vec@);
        match pattern {
            Pattern::List { elements, tail, .. } => {
                if from >= elements.len() {
                    assert(start + Seq::<AirView>::empty() =~= start);
                    return Ok(());
                }
                let previous = if from == 0 {
                    item_name.clone()
                } else {
                    numbered("__list_tail_", (from - 1) as u64)
                };
                if from == elements.len() - 1 && tail.is_none() {
                    push_list_test(
                        pattern_vec,
                        scope,
                        pattern_type,
                        previous,
                        Some(numbered("__list_tail_", from as u64)),
                        false,
                    );
                    push_list_test(
                        pattern_vec,
                        scope,
                        pattern_type,
                        numbered("__list_tail_", from as u64),
                        None,
                        true,
                    );
                } else {
                    let rest = nested_tail_name_of(tail)?;
                    push_list_test(pattern_vec, scope, pattern_type, previous, Some(rest), false);
                }
                let ghost tests = air_views(pattern_vec@).skip(start.len() as int);
                assert(air_views(pattern_vec@) =~= start + tests);
                let mut props = ClauseProperties {
                    clause_var_name: item_name.clone(),
                    needs_constr_var: false,
                    is_complex_clause: false,
                    original_subject_name: item_name.clone(),
                    kind: ClauseKind::ListClause { current_index: from },
                };
                let mut values: Vec<Air> = Vec::new();
                assert(air_views(values@) =~= Seq::empty());
                let ghost before = air_views(pattern_vec@);
                self.when_ir(pattern, pattern_vec, &mut values, pattern_type, &mut props, clone_ids(scope))?;
                let ghost matched = air_views(pattern_vec@).skip(before.len() as int);
                assert(air_views(pattern_vec@) =~= before + matched);
                let ghost before_rest = air_views(pattern_vec@);
                self.nested_list_tests(pattern, from + 1, item_name, pattern_type, scope, pattern_vec)?;
                let ghost rest_ir = air_views(pattern_vec@).skip(before_rest.len() as int);
                assert(air_views(pattern_vec@) =~= before_rest + rest_ir);
                assert(air_views(pattern_vec@) =~= start + (tests + matched + rest_ir));
                Ok(())
            },
            _ => Ok(()),
        }
    }

    /// Lowers a pattern nested in a clause's pattern. The result is the name
    /// under which what the pattern matches is bound, if it needs one; the
    /// instructions that test and take apart what is bound go to the end of
    /// `pattern_vec`.
    #[verifier::rlimit(80)]
    pub fn nested_pattern_ir_and_label(
        &mut self,
        pattern: &Pattern,
        pattern_vec: &mut Vec<Air>,
        pattern_type: &Type,
        scope: Vec<u64>,
    ) -> (r: Result<Option<String>, Halt>)
        ensures
            match r {
                Ok(name) => match lower_nested(
                    *pattern,
                    pattern_type@,
                    scope@,
                    old(self).id_gen.peek(),
                    old(self).data_types@,
                ) {
                    Ok(nested) => air_views(final(pattern_vec)@) == air_views(old(pattern_vec)@)
                        + nested.ir && nested.next_id == final(self).id_gen.peek() && nested.name
                        == crate::air::text_view(name),
                    Err(_) => false,
                },
                Err(e) => lower_nested(
                    *pattern,
                    pattern_type@,
                    scope@,
                    old(self).id_gen.peek(),
                    old(self).data_types@,
                ) == Err::<Nested, Halt>(e),
            },
            only_ids_moved(old(self), final(self)),
        decreases pattern, 3nat, 0nat,
    {
        let ghost start = air_views(pattern_vec@);
        match pattern {
            Pattern::Var { name, .. } => {
                assert(start + Seq::<AirView>::empty() =~= start);
                Ok(Some(name.clone()))
            },
            Pattern::Discard { .. } => {
                assert(start + Seq::<AirView>::empty() =~= start);
                Ok(None)
            },
            Pattern::List { elements, .. } => {
                let id = self.id_gen.next();
                let item_name = numbered("__list_item_id_", id);
                if elements.len() == 0 {
                    push_list_test(
                        pattern_vec,
                        &scope,
                        pattern_type,
                        item_name.clone(),
                        None,
                        true,
                    );
                    Ok(Some(item_name))
                } else {
                    self.nested_list_tests(
                        pattern,
                        0,
                        &item_name,
                        pattern_type,
                        &scope,
                        pattern_vec,
                    )?;
                    Ok(Some(item_name))
                }
            },
            Pattern::Constructor { tipo, name, .. } => {
                let id = self.id_gen.next();
                let var_name = name.clone().concat("_").concat(number_text(id).as_str());
                let data_type = find_data_type_of(tipo, self.data_types)?;
                let ghost guard: Seq<AirView> = if data_type.constructors@.len() > 1 {
                    seq![
                        AirView::ClauseGuard { scope: scope@, subject_name: var_name@, tipo: tipo@ },
                    ]
                } else {
                    Seq::empty()
                };
                if data_type.constructors.len() > 1 {
                    push_air(
                        pattern_vec,
                        Air::ClauseGuard {
                            scope: clone_ids(&scope),
                            tipo: tipo.duplicate(),
                            subject_name: var_name.clone(),
                        },
                    );
                }
                assert(air_views(pattern_vec@) =~= start + guard);
                let mut props = ClauseProperties {
                    clause_var_name: var_name.clone(),
                    needs_constr_var: false,
                    is_complex_clause: false,
                    original_subject_name: var_name.clone(),
                    kind: ClauseKind::ConstrClause,
                };
                let mut values: Vec<Air> = Vec::new();
                assert(air_views(values@) =~= Seq::empty());
                let ghost before = air_views(pattern_vec@);
                self.when_ir(pattern, pattern_vec, &mut values, tipo, &mut props, scope)?;
                let ghost matched = air_views(pattern_vec@).skip(before.len() as int);
                assert(air_views(pattern_vec@) =~= before + matched);
                assert(air_views(pattern_vec@) =~= start + (guard + matched));
                Ok(Some(var_name))
            },
            Pattern::Tuple { elems, .. } => {
                let id = self.id_gen.next();
                let item_name = numbered("__tuple_item_id_", id);
                let empty: Vec<(usize, String)> = Vec::new();
                assert(index_views(empty@) =~= Seq::empty());
                let mut props = ClauseProperties {
                    clause_var_name: item_name.clone(),
                    needs_constr_var: false,
                    is_complex_clause: false,
                    original_subject_name: item_name.clone(),
                    kind: ClauseKind::TupleClause { defined_tuple_indices: empty },
                };
                let mut inner: Vec<Air> = Vec::new();
                let mut values: Vec<Air> = Vec::new();
                assert(air_views(values@) =~= Seq::empty());
                assert(air_views(inner@) =~= Seq::empty());
                self.when_ir(
                    pattern,
                    &mut inner,
                    &mut values,
                    pattern_type,
                    &mut props,
                    clone_ids(&scope),
                )?;
                let ghost matched = air_views(inner@);
                assert(Seq::<AirView>::empty() + matched =~= matched);
                match &props.kind {
                    ClauseKind::TupleClause { defined_tuple_indices } => {
                        let predefined: Vec<(usize, String)> = Vec::new();
                        assert(index_views(predefined@) =~= Seq::empty());
                        let air = Air::TupleClause {
                            scope,
                            tipo: pattern_type.duplicate(),
                            indices: clone_indices(defined_tuple_indices),
                            predefined_indices: predefined,
                            subject_name: props.original_subject_name.clone(),
                            count: elems.len(),
                            complex_clause: false,
                        };
                        push_air(pattern_vec, air);
                        append_air(pattern_vec, &mut inner);
                        assert(air_views(pattern_vec@) =~= start + (seq![air@] + matched));
                        Ok(Some(item_name))
                    },
                    _ => Err(Halt::ImpossibleShape),
                }
            },
            _ => Err(Halt::Unsupported),
        }
    }

    /// Lowers the pattern of a clause below its outermost layer. The
    /// instructions go to the end of `pattern_vec`; `values` are the
    /// instructions of what the clause is worth.
    #[verifier::rlimit(80)]
    pub fn when_recursive_ir(
        &mut self,
        pattern: &Pattern,
        pattern_vec: &mut Vec<Air>,
        values: &mut Vec<Air>,
        clause_properties: &mut ClauseProperties,
        tipo: &Type,
        scope: Vec<u64>,
    ) -> (r: Result<(), Halt>)
        ensures
            match r {
                Ok(()) => match lower_when_inner(
                    *pattern,
                    air_views(old(values)@),
                    old(clause_properties)@,
                    tipo@,
                    scope@,
                    old(self).id_gen.peek(),
                    old(self).data_types@,
                ) {
                    Ok(matched) => air_views(final(pattern_vec)@) == air_views(old(pattern_vec)@)
                        + matched.ir && matched.next_id == final(self).id_gen.peek()
                        && matched.props == final(clause_properties)@,
                    Err(_) => false,
                },
                Err(e) => lower_when_inner(
                    *pattern,
                    air_views(old(values)@),
                    old(clause_properties)@,
                    tipo@,
                    scope@,
                    old(self).id_gen.peek(),
                    old(self).data_types@,
                ) == Err::<Matched, Halt>(e),
            },
            only_ids_moved(old(self), final(self)),
            r is Ok ==> final(values)@.len() == 0,
        decreases pattern, 0nat, 0nat,
    {
        let ghost start = air_views(pattern_vec@);
        let ghost value_ir = air_views(values@);
        match pattern {
            Pattern::Discard { .. } => {
                push_air(pattern_vec, Air::Discard { scope });
                append_air(pattern_vec, values);
                assert(air_views(pattern_vec@) =~= start + (seq![AirView::Discard { scope: scope@ }]
                    + value_ir));
                Ok(())
            },
            Pattern::List { elements, tail, .. } => {
                let inner = tipo.get_inner_types();
                if inner.len() == 0 {
                    return Err(Halt::ImpossibleShape);
                }
                assert(type_views(inner@)[0] == inner@[0]@);
                let (names, mut nested) = self.nested_elements(elements, 0, &inner[0], &scope)?;
                let ghost nested_ir = air_views(nested@);
                let tail_binding = match tail_name_of(tail) {
                    Ok(t) => t,
                    Err(_) => {
                        return Err(Halt::Unsupported);
                    },
                };
                let heads = heads_to_expose(&names, &clause_properties.original_subject_name);
                let tail_pair = if tail.is_some() && elements.len() > 0 {
                    let tail_var = if elements.len() == 1 {
                        clause_properties.original_subject_name.clone()
                    } else {
                        numbered("__tail_", (elements.len() - 2) as u64)
                    };
                    let bound = match tail_binding {
                        Some(n) => n,
                        None => String::new(),
                    };
                    Some((tail_var, bound))
                } else {
                    None
                };
                let air = Air::ListExpose {
                    scope,
                    tipo: tipo.duplicate(),
                    tail_head_names: heads,
                    tail: tail_pair,
                };
                push_air(pattern_vec, air);
                append_air(pattern_vec, &mut nested);
                append_air(pattern_vec, values);
                assert(air_views(pattern_vec@) =~= start + (seq![air@] + nested_ir + value_ir));
                Ok(())
            },
            Pattern::Constructor {
                is_record,
                name,
                arguments,
                constructor,
                tipo: pattern_type,
                ..
            } => {
                let found = find_constructor_of(pattern_type, name, self.data_types)?;
                let types = pattern_type.arg_types();
                if *is_record {
                    let field_map = field_map_of(constructor)?;
                    let types = match types {
                        Some(t) => t,
                        None => {
                            return Err(Halt::ImpossibleShape);
                        },
                    };
                    let labels = labels_of_fields(
                        &found.data_type.constructors[found.index],
                        types.len(),
                    )?;
                    let (items, mut nested) = self.nested_arguments(
                        arguments,
                        0,
                        Some(field_map),
                        &labels,
                        &types,
                        &scope,
                    )?;
                    let ghost nested_ir = air_views(nested@);
                    let bindings = bind_labeled(items, &labels, &types)?;
                    let mut expose = expose_fields_air(bindings, &scope)?;
                    let ghost expose_ir = air_views(expose@);
                    append_air(pattern_vec, &mut expose);
                    append_air(pattern_vec, values);
                    append_air(pattern_vec, &mut nested);
                    assert(air_views(pattern_vec@) =~= start + (expose_ir + value_ir + nested_ir));
                    Ok(())
                } else {
                    let types = match types {
                        Some(t) => t,
                        None => {
                            return Err(Halt::ImpossibleShape);
                        },
                    };
                    let labels: Vec<String> = Vec::new();
                    assert(name_views(labels@) =~= Seq::empty());
                    let (items, mut nested) = self.nested_arguments(
                        arguments,
                        0,
                        None,
                        &labels,
                        &types,
                        &scope,
                    )?;
                    let ghost nested_ir = air_views(nested@);
                    let bindings = bind_positional(&items, &types)?;
                    let mut expose = expose_fields_air(bindings, &scope)?;
                    let ghost expose_ir = air_views(expose@);
                    append_air(pattern_vec, &mut expose);
                    append_air(pattern_vec, values);
                    append_air(pattern_vec, &mut nested);
                    assert(air_views(pattern_vec@) =~= start + (expose_ir + value_ir + nested_ir));
                    Ok(())
                }
            },
            Pattern::Tuple { elems, .. } => {
                let types = tipo.get_inner_types();
                let (names, mut nested) = self.tuple_elements(elems, 0, &types, &scope)?;
                let ghost nested_ir = air_views(nested@);
                match &mut clause_properties.kind {
                    ClauseKind::TupleClause { defined_tuple_indices } => {
                        let ghost before = air_views(pattern_vec@);
                        rebind_defined(defined_tuple_indices, &names, &types, &scope, pattern_vec);
                        let ghost bound = air_views(pattern_vec@).skip(before.len() as int);
                        assert(air_views(pattern_vec@) =~= before + bound);
                        append_air(pattern_vec, &mut nested);
                        append_air(pattern_vec, values);
                        assert(air_views(pattern_vec@) =~= start + (bound + nested_ir + value_ir));
                        Ok(())
                    },
                    _ => Err(Halt::ImpossibleShape),
                }
            },
            _ => Err(Halt::Unsupported),
        }
    }

    /// Lowers the pattern of a clause. The instructions go to the end of
    /// `pattern_vec`; `values` are the instructions of what the clause is
    /// worth, which are taken: `values` is empty afterwards;
    /// `clause_properties` takes note of what the pattern needs.
    #[verifier::rlimit(100)]
    #[verifier::spinoff_prover]
    pub fn when_ir(
        &mut self,
        pattern: &Pattern,
        pattern_vec: &mut Vec<Air>,
        values: &mut Vec<Air>,
        tipo: &Type,
        clause_properties: &mut ClauseProperties,
        scope: Vec<u64>,
    ) -> (r: Result<(), Halt>)
        ensures
            match r {
                Ok(()) => match lower_when(
                    *pattern,
                    air_views(old(values)@),
                    tipo@,
                    old(clause_properties)@,
                    scope@,
                    old(self).id_gen.peek(),
                    old(self).data_types@,
                ) {
                    Ok(matched) => air_views(final(pattern_vec)@) == air_views(old(pattern_vec)@)
                        + matched.ir && matched.next_id == final(self).id_gen.peek()
                        && matched.props == final(clause_properties)@,
                    Err(_) => false,
                },
                Err(e) => lower_when(
                    *pattern,
                    air_views(old(values)@),
                    tipo@,
                    old(clause_properties)@,
                    scope@,
                    old(self).id_gen.peek(),
                    old(self).data_types@,
                ) == Err::<Matched, Halt>(e),
            },
            only_ids_moved(old(self), final(self)),
            final(values)@.len() == 0,
        decreases pattern, 1nat, 0nat,
    {
        let ghost start = air_views(pattern_vec@);
        let ghost value_ir = air_views(values@);
        let mut taken: Vec<Air> = Vec::new();
        assert(air_views(taken@) =~= Seq::empty());
        append_air(&mut taken, values);
        assert(air_views(taken@) =~= value_ir);
        match pattern {
            Pattern::Int { value, .. } => {
                let air = Air::Int { scope, value: value.clone() };
                push_air(pattern_vec, air);
                append_air(pattern_vec, &mut taken);
                assert(air_views(pattern_vec@) =~= start + (seq![air@] + value_ir));
                Ok(())
            },
            Pattern::Var { name, .. } => {
                push_air(pattern_vec, Air::Discard { scope: clone_ids(&scope) });
                push_air(pattern_vec, Air::Lam { scope: clone_ids(&scope), name: name.clone() });
                push_air(
                    pattern_vec,
                    local_var_air(
                        &scope,
                        tipo.duplicate(),
                        clause_properties.original_subject_name.clone(),
                    ),
                );
                append_air(pattern_vec, &mut taken);
                assert(air_views(pattern_vec@) =~= start + (seq![
                    AirView::Discard { scope: scope@ },
                    AirView::Lam { scope: scope@, name: name@ },
                    local_var(scope@, tipo@, clause_properties@.original_subject_name),
                ] + value_ir));
                Ok(())
            },
            Pattern::Assign { name, pattern: inner, .. } => {
                let mut new_vec: Vec<Air> = Vec::new();
                assert(air_views(new_vec@) =~= Seq::empty());
                push_air(&mut new_vec, Air::Lam { scope: clone_ids(&scope), name: name.clone() });
                push_air(
                    &mut new_vec,
                    local_var_air(
                        &scope,
                        tipo.duplicate(),
                        clause_properties.original_subject_name.clone(),
                    ),
                );
                append_air(&mut new_vec, &mut taken);
                assert(air_views(new_vec@) =~= seq![
                    AirView::Lam { scope: scope@, name: name@ },
                    local_var(scope@, tipo@, clause_properties@.original_subject_name),
                ] + value_ir);
                self.when_ir(inner, pattern_vec, &mut new_vec, tipo, clause_properties, scope)
            },
            Pattern::Discard { .. } => {
                push_air(pattern_vec, Air::Discard { scope });
                append_air(pattern_vec, &mut taken);
                assert(air_views(pattern_vec@) =~= start + (seq![AirView::Discard { scope: scope@ }]
                    + value_ir));
                Ok(())
            },
            Pattern::List { elements, tail, .. } => {
                check_all_needs(elements, clause_properties)?;
                match tail {
                    Some(t) => {
                        check_when_pattern_needs(t, clause_properties)?;
                    },
                    None => {},
                }
                clause_properties.needs_constr_var = false;
                push_air(pattern_vec, Air::Discard { scope: clone_ids(&scope) });
                let ghost before = air_views(pattern_vec@);
                self.when_recursive_ir(
                    pattern,
                    pattern_vec,
                    &mut taken,
                    clause_properties,
                    tipo,
                    scope,
                )?;
                let ghost inner = air_views(pattern_vec@).skip(before.len() as int);
                assert(air_views(pattern_vec@) =~= before + inner);
                assert(air_views(pattern_vec@) =~= start + (seq![AirView::Discard { scope: scope@ }]
                    + inner));
                Ok(())
            },
            Pattern::Constructor { arguments, name, .. } => {
                let mut temp = clause_properties.duplicate();
                temp.needs_constr_var = false;
                check_argument_needs(arguments, &mut temp)?;
                let found = find_constructor_of(tipo, name, self.data_types)?;
                let ghost tag: Seq<AirView> = if found.data_type.constructors@.len() > 1 {
                    seq![AirView::Int { scope: scope@, value: decimal(found.index as nat) }]
                } else {
                    Seq::empty()
                };
                if found.data_type.constructors.len() > 1 {
                    push_air(
                        pattern_vec,
                        Air::Int { value: number_text(found.index as u64), scope: clone_ids(&scope) },
                    );
                }
                assert(air_views(pattern_vec@) =~= start + tag);
                let mut new_vec: Vec<Air> = Vec::new();
                assert(air_views(new_vec@) =~= Seq::empty());
                if temp.needs_constr_var {
                    push_air(
                        &mut new_vec,
                        local_var_air(&scope, tipo.duplicate(), temp.clause_var_name.clone()),
                    );
                    assert(air_views(new_vec@) =~= seq![
                        local_var(scope@, tipo@, temp@.clause_var_name),
                    ]);
                }
                let ghost before = air_views(pattern_vec@);
                self.when_recursive_ir(
                    pattern,
                    pattern_vec,
                    &mut new_vec,
                    clause_properties,
                    tipo,
                    scope,
                )?;
                let ghost inner = air_views(pattern_vec@).skip(before.len() as int);
                assert(air_views(pattern_vec@) =~= before + inner);
                append_air(pattern_vec, &mut taken);
                clause_properties.is_complex_clause = clause_properties.is_complex_clause
                    || temp.is_complex_clause;
                clause_properties.needs_constr_var = clause_properties.needs_constr_var
                    || temp.needs_constr_var;
                assert(air_views(pattern_vec@) =~= start + (tag + inner + value_ir));
                Ok(())
            },
            Pattern::Tuple { elems, .. } => {
                check_all_needs(elems, clause_properties)?;
                clause_properties.needs_constr_var = false;
                let mut none: Vec<Air> = Vec::new();
                assert(air_views(none@) =~= Seq::empty());
                let ghost before = air_views(pattern_vec@);
                self.when_recursive_ir(
                    pattern,
                    pattern_vec,
                    &mut none,
                    clause_properties,
                    tipo,
                    scope,
                )?;
                let ghost inner = air_views(pattern_vec@).skip(before.len() as int);
                assert(air_views(pattern_vec@) =~= before + inner);
                append_air(pattern_vec, &mut taken);
                assert(air_views(pattern_vec@) =~= start + (inner + value_ir));
                Ok(())
            },
            _ => Err(Halt::Unsupported),
        }
    }
}

} // verus!
