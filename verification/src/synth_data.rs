use vstd::prelude::*;
use crate::air::{binding_views, index_views, pair_view, pair_views};
use crate::convert::{
    convert_constants_to_data,
    convert_data_to_type,
    convert_type_to_data,
    list_access_to_uplc,
};
use crate::error::Halt;
use crate::id_gen::IdGenerator;
use crate::synth::{agrees, arg_text, pop_many, pop_term, push_term, synth_state};
use crate::synth_spec::{
    all_constants,
    as_constants,
    builtin_step,
    clause_test_term,
    clause_guard_step,
    clause_step,
    constant_map,
    constants_of,
    expose_fields,
    expose_heads,
    field_tail_name,
    fields_expose_step,
    list_accessor_step,
    list_chain,
    list_clause_step,
    list_expose_step,
    list_step,
    previous_tail,
    tuple_accessor_step,
    tuple_bindings,
    tuple_chain,
    tuple_clause_step,
    tuple_index_step,
    tuple_step,
    typed_head,
    SynthState,
};
use crate::term::{
    constant_views,
    term_views,
    ConstantView,
    DefaultFunction,
    PlutusDataView,
    Term,
    TermView,
    UplcConstant,
    UplcType,
};
use crate::term_builder::{
    choose_list,
    constr_index_exposer,
    delayed_choose_list,
    delayed_if_else,
    if_else,
    repeat_tail_list,
};
use crate::text::{name_views, number_text, numbered};
use crate::tipo::{type_views, Type, TypeView};

verus! {

/// Whether every term is a constant.
fn only_constants(items: &Vec<Term>) -> (r: bool)
    ensures
        r == all_constants(term_views(items@)),
{
    let mut i: usize = 0;
    while i < items.len()
        invariant
            i <= items.len(),
            forall|j: int| 0 <= j < i ==> (#[trigger] term_views(items@)[j]) is Constant,
        decreases items.len() - i,
    {
        match &items[i] {
            Term::Constant(_) => {},
            _ => {
                assert(!(term_views(items@)[i as int] is Constant));
                return false;
            },
        }
        i = i + 1;
    }
    true
}

/// The constants that the terms are.
fn constants_in(items: &Vec<Term>) -> (r: Vec<UplcConstant>)
    requires
        all_constants(term_views(items@)),
    ensures
        constant_views(r@) == constants_of(term_views(items@)),
{
    let mut out: Vec<UplcConstant> = Vec::new();
    let mut i: usize = 0;
    while i < items.len()
        invariant
            i <= items.len(),
            out@.len() == i,
            all_constants(term_views(items@)),
            forall|j: int| 0 <= j < i ==> out@[j]@ == term_views(items@)[j]->Constant_0,
        decreases items.len() - i,
    {
        assert(term_views(items@)[i as int] is Constant);
        match &items[i] {
            Term::Constant(c) => {
                out.push(c.duplicate());
            },
            _ => {},
        }
        i = i + 1;
    }
    assert(constant_views(out@) =~= constants_of(term_views(items@)));
    out
}

/// The constant list of the data constants.
fn data_list(items: Vec<UplcConstant>, Ghost(ds): Ghost<Seq<PlutusDataView>>) -> (r: Term)
    requires
        ds == Seq::new(items@.len(), |i: int| items@[i]@->Data_0),
        forall|i: int| 0 <= i < items@.len() ==> (#[trigger] items@[i]@) is Data,
    ensures
        r@ == TermView::Constant(ConstantView::ProtoList(UplcType::Data, as_constants(ds))),
{
    assert(constant_views(items@) =~= as_constants(ds));
    Term::Constant(UplcConstant::proto_list(UplcType::Data, items))
}

/// The constant association list of the given pairs of constants.
#[verifier::loop_isolation(false)]
fn map_constant(pairs: &Vec<UplcConstant>) -> (r: Result<Term, Halt>)
    ensures
        match r {
            Ok(t) => constant_map(constant_views(pairs@)) == Ok::<TermView, Halt>(t@),
            Err(e) => constant_map(constant_views(pairs@)) == Err::<TermView, Halt>(e),
        },
{
    let ghost views = constant_views(pairs@);
    let mut keys: Vec<UplcConstant> = Vec::new();
    let mut values: Vec<UplcConstant> = Vec::new();
    let mut i: usize = 0;
    while i < pairs.len()
        invariant
            i <= pairs.len(),
            keys@.len() == i,
            values@.len() == i,
            forall|j: int| 0 <= j < i ==> (#[trigger] views[j]) is ProtoPair,
            forall|j: int| 0 <= j < i ==> keys@[j]@ == *views[j]->ProtoPair_2,
            forall|j: int| 0 <= j < i ==> values@[j]@ == *views[j]->ProtoPair_3,
        decreases pairs.len() - i,
    {
        assert(views[i as int] == pairs@[i as int]@);
        match &pairs[i] {
            UplcConstant::ProtoPair(_, _, fst, snd) => {
                keys.push(fst.duplicate());
                values.push(snd.duplicate());
            },
            _ => {
                return Err(Halt::ImpossibleShape);
            },
        }
        i = i + 1;
    }
    assert(constant_views(keys@) =~= Seq::new(views.len(), |i: int| *views[i]->ProtoPair_2));
    assert(constant_views(values@) =~= Seq::new(views.len(), |i: int| *views[i]->ProtoPair_3));
    let keys = convert_constants_to_data(&keys)?;
    let values = convert_constants_to_data(&values)?;
    let ghost ks = Seq::new(keys@.len(), |i: int| keys@[i]@->Data_0);
    let ghost vs = Seq::new(values@.len(), |i: int| values@[i]@->Data_0);
    let mut out: Vec<UplcConstant> = Vec::new();
    let mut k: usize = 0;
    while k < keys.len()
        invariant
            k <= keys.len(),
            keys@.len() == values@.len(),
            out@.len() == k,
            forall|j: int|
                0 <= j < k ==> out@[j]@ == ConstantView::ProtoPair(
                    UplcType::Data,
                    UplcType::Data,
                    Box::new(ConstantView::Data(ks[j])),
                    Box::new(ConstantView::Data(vs[j])),
                ),
        decreases keys.len() - k,
    {
        assert(keys@[k as int]@ is Data);
        assert(values@[k as int]@ is Data);
        out.push(
            UplcConstant::ProtoPair(
                UplcType::Data,
                UplcType::Data,
                Box::new(keys[k].duplicate()),
                Box::new(values[k].duplicate()),
            ),
        );
        k = k + 1;
    }
    assert(constant_views(out@) =~= Seq::new(
        views.len(),
        |i: int|
            ConstantView::ProtoPair(
                UplcType::Data,
                UplcType::Data,
                Box::new(ConstantView::Data(ks[i])),
                Box::new(ConstantView::Data(vs[i])),
            ),
    ));
    Ok(Term::Constant(UplcConstant::proto_list(UplcType::pair_of_data(), out)))
}

/// A list literal.
#[verifier::loop_isolation(false)]
pub fn list(
    count: usize,
    tipo: &Type,
    tail: bool,
    stack: &mut Vec<Term>,
    Ghost(st): Ghost<SynthState>,
) -> (r: Result<(), Halt>)
    requires
        st.stack == term_views(old(stack)@),
    ensures
        agrees(r, list_step(count, tipo@, tail, st), st.with_stack(term_views(final(stack)@))),
{
    let mut args = pop_many(stack, count)?;
    let inner = tipo.get_inner_types();
    if inner.len() == 0 {
        return Err(Halt::ImpossibleShape);
    }
    assert(type_views(inner@)[0] == inner@[0]@);
    let is_map = tipo.is_map();
    let ghost items = term_views(args@);
    if only_constants(&args) && !tail {
        let constants = constants_in(&args);
        if is_map {
            let term = map_constant(&constants)?;
            push_term(stack, term);
            Ok(())
        } else {
            let data = convert_constants_to_data(&constants)?;
            let ghost ds = Seq::new(data@.len(), |i: int| data@[i]@->Data_0);
            push_term(stack, data_list(data, Ghost(ds)));
            Ok(())
        }
    } else {
        let mut term = if tail {
            pop_term(stack)?
        } else if is_map {
            Term::empty_map()
        } else {
            Term::empty_list()
        };
        let ghost start = term@;
        let mut i: usize = count;
        while i > 0
            invariant
                i <= count,
                args@.len() == i,
                term_views(args@) == items.take(i as int),
                term@ == list_chain(items, i as nat, start, is_map, inner@[0]@),
            decreases i,
        {
            i = i - 1;
            let ghost before = term_views(args@);
            let arg = args.pop().unwrap();
            assert(arg@ == before.last());
            assert(term_views(args@) =~= items.take(i as int));
            let item = if is_map {
                arg
            } else {
                convert_type_to_data(arg, &inner[0])
            };
            term = Term::cons(item, term);
        }
        push_term(stack, term);
        Ok(())
    }
}

/// A tuple literal.
#[verifier::loop_isolation(false)]
pub fn tuple(tipo: &Type, count: usize, stack: &mut Vec<Term>, Ghost(st): Ghost<SynthState>) -> (r:
    Result<(), Halt>)
    requires
        st.stack == term_views(old(stack)@),
    ensures
        agrees(r, tuple_step(tipo@, count, st), st.with_stack(term_views(final(stack)@))),
{
    let mut args = pop_many(stack, count)?;
    let types = tipo.get_inner_types();
    let ghost items = term_views(args@);
    if only_constants(&args) {
        let constants = constants_in(&args);
        let data = convert_constants_to_data(&constants)?;
        let ghost ds = Seq::new(data@.len(), |i: int| data@[i]@->Data_0);
        if count == 2 {
            assert(data@[0]@ is Data);
            assert(data@[1]@ is Data);
            push_term(
                stack,
                Term::Constant(
                    UplcConstant::ProtoPair(
                        UplcType::Data,
                        UplcType::Data,
                        Box::new(data[0].duplicate()),
                        Box::new(data[1].duplicate()),
                    ),
                ),
            );
            Ok(())
        } else {
            push_term(stack, data_list(data, Ghost(ds)));
            Ok(())
        }
    } else if count == 2 {
        if types.len() < 2 {
            return Err(Halt::ImpossibleShape);
        }
        assert(type_views(types@)[0] == types@[0]@);
        assert(type_views(types@)[1] == types@[1]@);
        let ghost before = term_views(args@);
        let second = args.pop().unwrap();
        assert(second@ == before[1]);
        let ghost before1 = term_views(args@);
        let first = args.pop().unwrap();
        assert(first@ == before1.last());
        assert(before1 =~= before.drop_last());
        push_term(
            stack,
            Term::binary(
                DefaultFunction::MkPairData,
                convert_type_to_data(first, &types[0]),
                convert_type_to_data(second, &types[1]),
            ),
        );
        Ok(())
    } else {
        let limit = if count <= types.len() {
            count
        } else {
            types.len()
        };
        let mut term = Term::empty_list();
        let mut i: usize = count;
        while i > limit
            invariant
                limit <= i <= count,
                args@.len() == i,
                term_views(args@) == items.take(i as int),
            decreases i,
        {
            i = i - 1;
            let _ = args.pop();
            assert(term_views(args@) =~= items.take(i as int));
        }
        while i > 0
            invariant
                i <= limit,
                args@.len() == i,
                term_views(args@) == items.take(i as int),
                term@ == tuple_chain(items, type_views(types@), i as nat),
            decreases i,
        {
            i = i - 1;
            let ghost before = term_views(args@);
            let arg = args.pop().unwrap();
            assert(arg@ == before.last());
            assert(term_views(args@) =~= items.take(i as int));
            assert(type_views(types@)[i as int] == types@[i as int]@);
            term = Term::cons(convert_type_to_data(arg, &types[i]), term);
        }
        push_term(stack, term);
        Ok(())
    }
}

/// The head of the list that `name` holds, as a value of the list's item
/// type.
pub fn head_of(name: String, tipo: &Type) -> (r: Result<Term, Halt>)
    ensures
        match r {
            Ok(t) => typed_head(name@, tipo@) == Ok::<TermView, Halt>(t@),
            Err(e) => typed_head(name@, tipo@) == Err::<TermView, Halt>(e),
        },
{
    if tipo.is_map() {
        Ok(Term::head_list(Term::var(name)))
    } else {
        let inner = tipo.get_inner_types();
        if inner.len() == 0 {
            Err(Halt::ImpossibleShape)
        } else {
            assert(type_views(inner@)[0] == inner@[0]@);
            Ok(convert_data_to_type(Term::head_list(Term::var(name)), &inner[0]))
        }
    }
}

/// Binds the items of the list on top of the stack to names.
pub fn list_accessor(
    names: &Vec<String>,
    tail: bool,
    tipo: &Type,
    stack: &mut Vec<Term>,
    ids: &mut IdGenerator,
    Ghost(st): Ghost<SynthState>,
) -> (r: Result<(), Halt>)
    requires
        st.stack == term_views(old(stack)@),
        st.next_id == old(ids).peek(),
    ensures
        agrees(
            r,
            list_accessor_step(name_views(names@), tail, tipo@, st),
            SynthState {
                stack: term_views(final(stack)@),
                next_id: final(ids).peek(),
                needs_field_access: st.needs_field_access,
            },
        ),
{
    let value = pop_term(stack)?;
    let term = pop_term(stack)?;
    if names.len() == 0 {
        return Err(Halt::Malformed);
    }
    let id_list = ids.take(names.len());
    let list_id = ids.next();
    let head = head_of(numbered("__list_", list_id), tipo)?;
    assert(name_views(names@).skip(1) =~= name_views(names@).drop_first());
    let access = list_access_to_uplc(names, 1, &id_list, tail, 0, term, tipo)?;
    assert(name_views(names@)[0] == names@[0]@);
    push_term(
        stack,
        Term::bind(
            numbered("__list_", list_id),
            value,
            Term::bind(
                names[0].clone(),
                head,
                access.apply(Term::tail_list(Term::var(numbered("__list_", list_id)))),
            ),
        ),
    );
    Ok(())
}

proof fn lemma_expose_heads_fail(
    pairs: Seq<(Seq<char>, Seq<char>)>,
    k: nat,
    tipo: TypeView,
    term: TermView,
)
    requires
        k <= pairs.len(),
        expose_heads(pairs, k, tipo, term) is Err,
    ensures
        expose_heads(pairs, 0, tipo, term) == expose_heads(pairs, k, tipo, term),
    decreases k,
{
    if k > 0 {
        assert(expose_heads(pairs, (k - 1) as nat, tipo, term) == expose_heads(
            pairs,
            k,
            tipo,
            term,
        ));
        lemma_expose_heads_fail(pairs, (k - 1) as nat, tipo, term);
    }
}

/// Binds heads and a tail of lists that are in scope already.
#[verifier::loop_isolation(false)]
pub fn list_expose(
    pairs: &Vec<(String, String)>,
    tail: &Option<(String, String)>,
    tipo: &Type,
    stack: &mut Vec<Term>,
    Ghost(st): Ghost<SynthState>,
) -> (r: Result<(), Halt>)
    requires
        st.stack == term_views(old(stack)@),
    ensures
        agrees(
            r,
            list_expose_step(pair_views(pairs@), pair_view(*tail), tipo@, st),
            st.with_stack(term_views(final(stack)@)),
        ),
{
    let mut term = pop_term(stack)?;
    match tail {
        Some(names) => {
            term = Term::bind(names.1.clone(), Term::tail_list(Term::var(names.0.clone())), term);
        },
        None => {},
    }
    let ghost inner = term@;
    let ghost views = pair_views(pairs@);
    let mut i: usize = pairs.len();
    while i > 0
        invariant
            i <= pairs.len(),
            expose_heads(views, i as nat, tipo@, inner) == Ok::<TermView, Halt>(term@),
        decreases i,
    {
        i = i - 1;
        assert(views[i as int] == (pairs@[i as int].0@, pairs@[i as int].1@));
        match head_of(pairs[i].0.clone(), tipo) {
            Ok(head) => {
                term = Term::bind(pairs[i].1.clone(), head, term);
            },
            Err(e) => {
                proof {
                    lemma_expose_heads_fail(views, i as nat, tipo@, inner);
                }
                return Err(e);
            },
        }
    }
    push_term(stack, term);
    Ok(())
}

/// A reference to a built-in.
pub fn builtin(
    func: DefaultFunction,
    tipo: &Type,
    stack: &mut Vec<Term>,
    ids: &mut IdGenerator,
    Ghost(st): Ghost<SynthState>,
) -> (r: Result<(), Halt>)
    requires
        st.stack == term_views(old(stack)@),
        st.next_id == old(ids).peek(),
    ensures
        agrees(
            r,
            builtin_step(func, tipo@, st),
            SynthState {
                stack: term_views(final(stack)@),
                next_id: final(ids).peek(),
                needs_field_access: st.needs_field_access,
            },
        ),
{
    match func {
        DefaultFunction::FstPair | DefaultFunction::SndPair | DefaultFunction::HeadList => {
            let outer = tipo.get_inner_types();
            if outer.len() == 0 {
                return Err(Halt::ImpossibleShape);
            }
            assert(type_views(outer@)[0] == outer@[0]@);
            let inner = outer[0].get_inner_types();
            let position: usize = match func {
                DefaultFunction::SndPair => 1,
                _ => 0,
            };
            if inner.len() <= position {
                return Err(Halt::ImpossibleShape);
            }
            assert(type_views(inner@)[position as int] == inner@[position as int]@);
            let id = ids.next();
            let term = convert_data_to_type(
                Term::ready(func).apply(Term::var(arg_text(id))),
                &inner[position],
            );
            push_term(stack, Term::lambda(arg_text(id), term));
            Ok(())
        },
        DefaultFunction::MkCons | DefaultFunction::MkPairData => Err(Halt::Unsupported),
        _ => {
            push_term(stack, Term::ready(func));
            Ok(())
        },
    }
}

/// The test of a clause.
pub fn test_of_clause(tipo: &Type, subject_name: String, exposed: bool) -> (r: Result<Term, Halt>)
    ensures
        match r {
            Ok(t) => clause_test_term(tipo@, subject_name@, exposed) == Ok::<TermView, Halt>(t@),
            Err(e) => clause_test_term(tipo@, subject_name@, exposed) == Err::<TermView, Halt>(e),
        },
{
    if tipo.is_int() {
        Ok(Term::Builtin(DefaultFunction::EqualsInteger).apply(Term::var(subject_name)))
    } else if tipo.is_bytearray() {
        Ok(Term::Builtin(DefaultFunction::EqualsByteString).apply(Term::var(subject_name)))
    } else if tipo.is_bool() {
        Err(Halt::Unsupported)
    } else if tipo.is_string() {
        Ok(Term::Builtin(DefaultFunction::EqualsString).apply(Term::var(subject_name)))
    } else if tipo.is_list() {
        if exposed {
            Err(Halt::Unsupported)
        } else {
            Err(Halt::ImpossibleShape)
        }
    } else if exposed {
        Ok(
            Term::Builtin(DefaultFunction::EqualsInteger).apply(
                constr_index_exposer(Term::var(subject_name)),
            ),
        )
    } else {
        Ok(Term::Builtin(DefaultFunction::EqualsInteger).apply(Term::var(subject_name)))
    }
}

/// A clause of a match by equality.
pub fn clause(
    tipo: &Type,
    subject_name: String,
    complex_clause: bool,
    stack: &mut Vec<Term>,
    Ghost(st): Ghost<SynthState>,
) -> (r: Result<(), Halt>)
    requires
        st.stack == term_views(old(stack)@),
    ensures
        agrees(
            r,
            clause_step(tipo@, subject_name@, complex_clause, st),
            st.with_stack(term_views(final(stack)@)),
        ),
{
    let clause = pop_term(stack)?;
    let body = pop_term(stack)?;
    let term = pop_term(stack)?;
    let test = test_of_clause(tipo, subject_name, false)?;
    let result = if complex_clause {
        Term::bind(
            String::from_str("__other_clauses_delayed"),
            term.delay(),
            if_else(
                test.apply(clause),
                body.delay(),
                Term::named("__other_clauses_delayed"),
            ).force_wrap(),
        ).force_wrap()
    } else {
        delayed_if_else(test.apply(clause), body, term)
    };
    push_term(stack, result);
    Ok(())
}

/// A clause of a match on a list.
pub fn list_clause(
    tail_name: String,
    next_tail_name: Option<String>,
    complex_clause: bool,
    inverse: bool,
    stack: &mut Vec<Term>,
    Ghost(st): Ghost<SynthState>,
) -> (r: Result<(), Halt>)
    requires
        st.stack == term_views(old(stack)@),
    ensures
        agrees(
            r,
            list_clause_step(
                tail_name@,
                crate::air::text_view(next_tail_name),
                complex_clause,
                inverse,
                st,
            ),
            st.with_stack(term_views(final(stack)@)),
        ),
{
    let _ = pop_term(stack)?;
    let first = pop_term(stack)?;
    let second = pop_term(stack)?;
    let (body, term) = if inverse {
        (second, first)
    } else {
        (first, second)
    };
    let arg = match next_tail_name {
        Some(next) => Term::bind(next, Term::tail_list(Term::var(tail_name.clone())), term),
        None => term,
    };
    let result = if complex_clause {
        Term::bind(
            String::from_str("__other_clauses_delayed"),
            arg.delay(),
            choose_list(
                Term::var(tail_name),
                body.delay(),
                Term::named("__other_clauses_delayed"),
            ).force_wrap(),
        )
    } else {
        delayed_choose_list(Term::var(tail_name), body, arg)
    };
    push_term(stack, result);
    Ok(())
}

/// A test on a nested pattern.
pub fn clause_guard(
    subject_name: String,
    tipo: &Type,
    stack: &mut Vec<Term>,
    Ghost(st): Ghost<SynthState>,
) -> (r: Result<(), Halt>)
    requires
        st.stack == term_views(old(stack)@),
    ensures
        agrees(
            r,
            clause_guard_step(subject_name@, tipo@, st),
            st.with_stack(term_views(final(stack)@)),
        ),
{
    let condition = pop_term(stack)?;
    let then = pop_term(stack)?;
    let test = test_of_clause(tipo, subject_name, true)?;
    push_term(
        stack,
        if_else(
            test.apply(condition),
            then.delay(),
            Term::named("__other_clauses_delayed"),
        ).force_wrap(),
    );
    Ok(())
}

fn field_tail_text(index: usize, id: u64) -> (r: String)
    ensures
        r@ == field_tail_name(index as nat, id),
{
    String::from_str("__tail_").concat(number_text(index as u64).as_str()).concat("_").concat(
        number_text(id).as_str(),
    )
}

fn previous_tail_text(index: usize, ids: &Vec<u64>, fields_name: &String) -> (r: String)
    requires
        index <= ids@.len(),
    ensures
        r@ == previous_tail(index as nat, ids@, fields_name@),
{
    if index == 0 {
        fields_name.clone()
    } else {
        field_tail_text(index - 1, ids[index - 1])
    }
}

/// Binds fields of the constructor value on top of the stack to names.
#[verifier::loop_isolation(false)]
pub fn fields_expose(
    indices: &Vec<(usize, String, Type)>,
    stack: &mut Vec<Term>,
    ids: &mut IdGenerator,
    needs_field_access: &mut bool,
    Ghost(st): Ghost<SynthState>,
) -> (r: Result<(), Halt>)
    requires
        st.stack == term_views(old(stack)@),
        st.next_id == old(ids).peek(),
    ensures
        agrees(
            r,
            fields_expose_step(binding_views(indices@), st),
            synth_state(final(stack)@, final(ids).peek(), *final(needs_field_access)),
        ),
{
    *needs_field_access = true;
    let constr_var = pop_term(stack)?;
    let mut body = pop_term(stack)?;
    if indices.len() == 0 {
        return Err(Halt::Malformed);
    }
    let ghost fields = binding_views(indices@);
    let ghost start = body@;
    let count = indices.len();
    let highest = indices[count - 1].0;
    assert(fields.last() == (
        indices@[count - 1].0,
        indices@[count - 1].1@,
        indices@[count - 1].2@,
    ));
    let id_list = ids.take(highest);
    let fields_id = ids.next();
    let fields_name = numbered("__constr_fields_", fields_id);
    body =
    Term::bind(
        indices[count - 1].1.clone(),
        convert_data_to_type(
            Term::head_list(Term::var(previous_tail_text(highest, &id_list, &fields_name))),
            &indices[count - 1].2,
        ),
        body,
    );
    let ghost innermost = body@;
    let mut next: usize = count - 1;
    let mut index: usize = highest;
    while index > 0
        invariant
            index <= highest,
            next <= count - 1,
            id_list@.len() == highest,
            expose_fields(
                fields,
                (count - 1) as nat,
                highest as nat,
                id_list@,
                fields_name@,
                innermost,
            ) == expose_fields(fields, next as nat, index as nat, id_list@, fields_name@, body@),
        decreases index,
    {
        let position = index - 1;
        let bound = Term::bind(
            field_tail_text(position, id_list[position]),
            Term::tail_list(Term::var(previous_tail_text(position, &id_list, &fields_name))),
            body,
        );
        if next > 0 && indices[next - 1].0 == position {
            assert(fields[next - 1] == (
                indices@[next - 1].0,
                indices@[next - 1].1@,
                indices@[next - 1].2@,
            ));
            body =
            Term::bind(
                indices[next - 1].1.clone(),
                convert_data_to_type(
                    Term::head_list(
                        Term::var(previous_tail_text(position, &id_list, &fields_name)),
                    ),
                    &indices[next - 1].2,
                ),
                bound,
            );
            next = next - 1;
        } else {
            assert(next > 0 ==> fields[next - 1].0 == indices@[next - 1].0);
            body = bound;
        }
        index = position;
    }
    push_term(
        stack,
        Term::bind(fields_name, Term::named("__constr_fields_exposer").apply(constr_var), body),
    );
    Ok(())
}

/// Reads one element of a tuple.
pub fn tuple_index(
    tipo: &Type,
    index: usize,
    stack: &mut Vec<Term>,
    needs_field_access: &mut bool,
    Ghost(st): Ghost<SynthState>,
) -> (r: Result<(), Halt>)
    requires
        st.stack == term_views(old(stack)@),
        st.needs_field_access == *old(needs_field_access),
    ensures
        agrees(
            r,
            tuple_index_step(tipo@, index, st),
            SynthState {
                stack: term_views(final(stack)@),
                next_id: st.next_id,
                needs_field_access: *final(needs_field_access),
            },
        ),
{
    let term = pop_term(stack)?;
    match tipo.get_uplc_type() {
        UplcType::Pair(_, _) => {
            let types = tipo.get_inner_types();
            let position: usize = if index == 0 {
                0
            } else {
                1
            };
            if types.len() <= position {
                return Err(Halt::ImpossibleShape);
            }
            assert(type_views(types@)[position as int] == types@[position as int]@);
            let part = if index == 0 {
                Term::fst_pair(term)
            } else {
                Term::snd_pair(term)
            };
            push_term(stack, convert_data_to_type(part, &types[position]));
            Ok(())
        },
        _ => {
            *needs_field_access = true;
            push_term(
                stack,
                Term::named("__constr_get_field").apply(term).apply(Term::integer(index as i128)),
            );
            Ok(())
        },
    }
}

/// Binds the elements of the tuple on top of the stack to names.
pub fn tuple_accessor(
    names: &Vec<String>,
    tipo: &Type,
    stack: &mut Vec<Term>,
    ids: &mut IdGenerator,
    Ghost(st): Ghost<SynthState>,
) -> (r: Result<(), Halt>)
    requires
        st.stack == term_views(old(stack)@),
        st.next_id == old(ids).peek(),
    ensures
        agrees(
            r,
            tuple_accessor_step(name_views(names@), tipo@, st),
            SynthState {
                stack: term_views(final(stack)@),
                next_id: final(ids).peek(),
                needs_field_access: st.needs_field_access,
            },
        ),
{
    let types = tipo.get_inner_types();
    let value = pop_term(stack)?;
    let term = pop_term(stack)?;
    let list_id = ids.next();
    if names.len() == 2 {
        if types.len() < 2 {
            return Err(Halt::ImpossibleShape);
        }
        assert(type_views(types@)[0] == types@[0]@);
        assert(type_views(types@)[1] == types@[1]@);
        assert(name_views(names@)[0] == names@[0]@);
        assert(name_views(names@)[1] == names@[1]@);
        push_term(
            stack,
            Term::bind(
                numbered("__tuple_", list_id),
                value,
                Term::bind(
                    names[0].clone(),
                    convert_data_to_type(
                        Term::fst_pair(Term::var(numbered("__tuple_", list_id))),
                        &types[0],
                    ),
                    Term::bind(
                        names[1].clone(),
                        convert_data_to_type(
                            Term::snd_pair(Term::var(numbered("__tuple_", list_id))),
                            &types[1],
                        ),
                        term,
                    ),
                ),
            ),
        );
        Ok(())
    } else {
        if names.len() == 0 {
            return Err(Halt::Malformed);
        }
        if types.len() == 0 {
            return Err(Halt::ImpossibleShape);
        }
        assert(type_views(types@)[0] == types@[0]@);
        assert(name_views(names@)[0] == names@[0]@);
        let id_list = ids.take(names.len());
        let head = convert_data_to_type(
            Term::head_list(Term::var(numbered("__tuple_", list_id))),
            &types[0],
        );
        assert(name_views(names@).skip(1) =~= name_views(names@).drop_first());
        let access = list_access_to_uplc(names, 1, &id_list, false, 0, term, tipo)?;
        push_term(
            stack,
            Term::bind(
                numbered("__tuple_", list_id),
                value,
                Term::bind(
                    names[0].clone(),
                    head,
                    access.apply(Term::tail_list(Term::var(numbered("__tuple_", list_id)))),
                ),
            ),
        );
        Ok(())
    }
}

proof fn lemma_tuple_bindings_fail(
    indices: Seq<(usize, Seq<char>)>,
    k: nat,
    types: Seq<TypeView>,
    subject: Seq<char>,
    term: TermView,
)
    requires
        k <= indices.len(),
        tuple_bindings(indices, k, types, subject, term) is Err,
    ensures
        tuple_bindings(indices, indices.len(), types, subject, term) == tuple_bindings(
            indices,
            k,
            types,
            subject,
            term,
        ),
    decreases indices.len() - k,
{
    if k < indices.len() {
        assert(tuple_bindings(indices, k + 1, types, subject, term) == tuple_bindings(
            indices,
            k,
            types,
            subject,
            term,
        ));
        lemma_tuple_bindings_fail(indices, k + 1, types, subject, term);
    }
}

/// A clause of a match on a tuple.
#[verifier::loop_isolation(false)]
pub fn tuple_clause(
    tipo: &Type,
    indices: &Vec<(usize, String)>,
    subject_name: &String,
    complex_clause: bool,
    stack: &mut Vec<Term>,
    Ghost(st): Ghost<SynthState>,
) -> (r: Result<(), Halt>)
    requires
        st.stack == term_views(old(stack)@),
    ensures
        agrees(
            r,
            tuple_clause_step(tipo@, index_views(indices@), subject_name@, complex_clause, st),
            st.with_stack(term_views(final(stack)@)),
        ),
{
    let mut term = pop_term(stack)?;
    let types = tipo.get_inner_types();
    let ghost views = index_views(indices@);
    let ghost start = term@;
    let mut i: usize = 0;
    while i < indices.len()
        invariant
            i <= indices.len(),
            tuple_bindings(views, i as nat, type_views(types@), subject_name@, start) == Ok::<
                TermView,
                Halt,
            >(term@),
        decreases indices.len() - i,
    {
        assert(views[i as int] == (indices@[i as int].0, indices@[i as int].1@));
        let index = indices[i].0;
        if index >= types.len() {
            proof {
                assert(tuple_bindings(
                    views,
                    (i + 1) as nat,
                    type_views(types@),
                    subject_name@,
                    start,
                ) == Err::<TermView, Halt>(Halt::ImpossibleShape));
                lemma_tuple_bindings_fail(
                    views,
                    (i + 1) as nat,
                    type_views(types@),
                    subject_name@,
                    start,
                );
            }
            return Err(Halt::ImpossibleShape);
        }
        assert(type_views(types@)[index as int] == types@[index as int]@);
        let part = if types.len() == 2 {
            if index == 0 {
                Term::fst_pair(Term::var(subject_name.clone()))
            } else {
                Term::snd_pair(Term::var(subject_name.clone()))
            }
        } else {
            Term::head_list(repeat_tail_list(Term::var(subject_name.clone()), index))
        };
        term = Term::bind(indices[i].1.clone(), convert_data_to_type(part, &types[index]), term);
        i = i + 1;
    }
    if complex_clause {
        let next_clause = pop_term(stack)?;
        push_term(
            stack,
            Term::bind(String::from_str("__other_clauses_delayed"), next_clause.delay(), term),
        );
        Ok(())
    } else {
        push_term(stack, term);
        Ok(())
    }
}

} // verus!
