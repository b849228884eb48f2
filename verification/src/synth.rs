use vstd::prelude::*;
use crate::ast::{BinOp, TypedDataType, UnOp};
use crate::builder::{find_data_type, DataTypeKey, FunctionAccessKey};
use crate::convert::convert_type_to_data;
use crate::error::Halt;
use crate::sorting::{carried, lemma_sort_carried, sort_by_position};
use crate::synth_spec::{
    apply_all,
    arg_name,
    below,
    binop_term,
    call_step,
    constructor_builder,
    data_type_key,
    define_func_term,
    definition_name,
    differs_term,
    equality,
    equals_term,
    function_name,
    label_or,
    labeled_fields,
    lambdas,
    names_function,
    negated,
    pair_as_map,
    popped,
    positional_fields,
    positional_lambdas,
    named_function,
    sorted_labels,
    traced_error,
    unop_term,
    var_term,
    when_term,
    SynthEnv,
    SynthState,
    ZeroArgView,
};
use crate::term::{term_views, DefaultFunction, Term, TermView};
use crate::term_builder::{constr_index_exposer, delayed_if_else, if_else};
use crate::text::{name_views, number_text, text_is};
use crate::tipo::{
    field_map_view,
    field_views,
    type_views,
    Field,
    FieldMap,
    Type,
    ValueConstructor,
    ValueConstructorVariant,
};
use crate::air::{text_view, Air};

verus! {

/// A function without parameters: its name, its instructions, and its value
/// once it has been computed.
#[derive(Debug)]
pub struct ZeroArgFunction {
    pub key: FunctionAccessKey,
    pub ir: Vec<Air>,
    pub value: Option<Term>,
}

impl View for ZeroArgFunction {
    type V = ZeroArgView;

    open spec fn view(&self) -> ZeroArgView {
        ZeroArgView {
            key: self.key@,
            ir: crate::air::air_views(self.ir@),
            value: match self.value {
                Some(t) => Some(t@),
                None => None,
            },
        }
    }
}

/// The views of a list of functions without parameters, one for one.
pub open spec fn zero_arg_views(items: Seq<ZeroArgFunction>) -> Seq<ZeroArgView> {
    Seq::new(items.len(), |i: int| items[i]@)
}

/// The synthesizer's state, as its parts hold it.
pub open spec fn synth_state(stack: Seq<Term>, next_id: u64, needs_field_access: bool) -> SynthState {
    SynthState { stack: term_views(stack), next_id, needs_field_access }
}

/// Whether an outcome is the one that was to be expected: success with
/// the expected state, or the expected failure.
pub open spec fn agrees(
    r: Result<(), Halt>,
    expected: Result<SynthState, Halt>,
    actual: SynthState,
) -> bool {
    match r {
        Ok(()) => expected == Ok::<SynthState, Halt>(actual),
        Err(e) => expected == Err::<SynthState, Halt>(e),
    }
}

pub fn pop_term(stack: &mut Vec<Term>) -> (r: Result<Term, Halt>)
    ensures
        match r {
            Ok(t) => old(stack)@.len() > 0 && t@ == term_views(old(stack)@).last() && term_views(
                final(stack)@,
            ) == term_views(old(stack)@).drop_last() && final(stack)@.len() == old(stack)@.len()
                - 1,
            Err(e) => e == Halt::Malformed && old(stack)@.len() == 0 && final(stack)@ == old(
                stack,
            )@,
        },
{
    match stack.pop() {
        Some(t) => {
            assert(term_views(stack@) =~= term_views(old(stack)@).drop_last());
            Ok(t)
        },
        None => Err(Halt::Malformed),
    }
}

pub fn push_term(stack: &mut Vec<Term>, term: Term)
    ensures
        term_views(final(stack)@) == term_views(old(stack)@).push(term@),
        final(stack)@.len() == old(stack)@.len() + 1,
{
    stack.push(term);
    assert(term_views(stack@) =~= term_views(old(stack)@).push(term@));
}

/// Takes the `count` topmost items off the stack, the top first.
pub fn pop_many(stack: &mut Vec<Term>, count: usize) -> (r: Result<Vec<Term>, Halt>)
    ensures
        match r {
            Ok(items) => old(stack)@.len() >= count && term_views(items@) == popped(
                term_views(old(stack)@),
                count as nat,
            ) && term_views(final(stack)@) == below(term_views(old(stack)@), count as nat)
                && items@.len() == count,
            Err(e) => e == Halt::Malformed && old(stack)@.len() < count,
        },
{
    if stack.len() < count {
        return Err(Halt::Malformed);
    }
    let ghost start = term_views(stack@);
    let mut out: Vec<Term> = Vec::new();
    let mut i: usize = 0;
    while i < count
        invariant
            i <= count,
            count <= start.len(),
            out@.len() == i,
            stack@.len() == start.len() - i,
            term_views(stack@) == start.take(start.len() - i),
            forall|j: int| 0 <= j < i ==> out@[j]@ == start[start.len() - 1 - j],
        decreases count - i,
    {
        let ghost before = term_views(stack@);
        let t = stack.pop().unwrap();
        assert(t@ == before.last());
        assert(term_views(stack@) =~= start.take(start.len() - i - 1));
        out.push(t);
        i = i + 1;
    }
    assert(term_views(out@) =~= popped(start, count as nat));
    Ok(out)
}

/// `body` as a function of the given parameters, the first outermost.
pub fn wrap_lambdas(params: &Vec<String>, body: Term) -> (r: Term)
    ensures
        r@ == lambdas(name_views(params@), 0, body@),
{
    let mut term = body;
    let mut i: usize = params.len();
    while i > 0
        invariant
            i <= params.len(),
            term@ == lambdas(name_views(params@), i as nat, body@),
        decreases i,
    {
        i = i - 1;
        term = Term::lambda(params[i].clone(), term);
    }
    term
}

/// The name of the parameter at a position of a constructor without labels.
pub fn arg_text(index: u64) -> (r: String)
    ensures
        r@ == arg_name(index as nat),
{
    String::from_str("__arg_").concat(number_text(index).as_str())
}

/// The name under which a module's function is bound in the program.
pub fn function_text(func_name: &String, module: &String, name: &String, variant_name: &String) -> (r:
    String)
    ensures
        r@ == function_name(func_name@, module@, name@, variant_name@),
{
    let qualified = module.clone().concat("_").concat(func_name.as_str());
    if (*func_name == *name || *name == qualified) && !module.as_str().is_empty() {
        qualified.concat(variant_name.as_str())
    } else {
        func_name.clone().concat(variant_name.as_str())
    }
}

/// The name under which a function definition binds its function.
pub fn definition_text(func_name: &String, module: &String, variant_name: &String) -> (r: String)
    ensures
        r@ == definition_name(func_name@, module@, variant_name@),
{
    if module.as_str().is_empty() {
        func_name.clone().concat(variant_name.as_str())
    } else {
        module.clone().concat("_").concat(func_name.as_str()).concat(variant_name.as_str())
    }
}

/// The data type that a constructor's type names.
pub fn data_type_key_of(tipo: &Type, other: Halt) -> (r: Result<(String, String), Halt>)
    ensures
        match r {
            Ok(key) => data_type_key(tipo@, other) == Ok::<(Seq<char>, Seq<char>), Halt>(
                (key.0@, key.1@),
            ),
            Err(e) => data_type_key(tipo@, other) == Err::<(Seq<char>, Seq<char>), Halt>(e),
        },
{
    match tipo {
        Type::App { module, name, .. } => Ok((module.clone(), name.clone())),
        Type::Fn { ret, .. } => {
            assert(*tipo@->Fn_ret == (**ret)@);
            match &**ret {
                Type::App { module, name, .. } => Ok((module.clone(), name.clone())),
                _ => Err(Halt::ImpossibleShape),
            }
        },
        _ => Err(other),
    }
}

/// The labels of a record's fields, in the order of their positions.
pub fn labels_in_order(fields: &Vec<Field>) -> (r: Vec<String>)
    ensures
        name_views(r@) == sorted_labels(field_views(fields@)),
{
    let mut items: Vec<(usize, String)> = Vec::new();
    let mut i: usize = 0;
    while i < fields.len()
        invariant
            i <= fields.len(),
            items@.len() == i,
            forall|j: int|
                0 <= j < i ==> items@[j].0 == fields@[j].index && items@[j].1@ == fields@[j].label@,
        decreases fields.len() - i,
    {
        items.push((fields[i].index, fields[i].label.clone()));
        i = i + 1;
    }
    let ghost unsorted = items@;
    let sorted = sort_by_position(items);
    let ghost view_of = |s: String| s@;
    proof {
        lemma_sort_carried(unsorted, view_of);
        crate::sorting::lemma_sorted_by_position(unsorted);
        assert(carried(unsorted, view_of) =~= Seq::new(
            field_views(fields@).len(),
            |i: int| (field_views(fields@)[i].index, field_views(fields@)[i].label),
        ));
    }
    let mut out: Vec<String> = Vec::new();
    let mut k: usize = 0;
    while k < sorted.len()
        invariant
            k <= sorted.len(),
            out@.len() == k,
            forall|j: int| 0 <= j < k ==> out@[j]@ == sorted@[j].1@,
        decreases sorted.len() - k,
    {
        out.push(sorted[k].1.clone());
        k = k + 1;
    }
    assert(name_views(out@) =~= sorted_labels(field_views(fields@))) by {
        let cs = carried(sorted@, view_of);
        assert forall|j: int| 0 <= j < out@.len() implies name_views(out@)[j] == cs[j].1 by {}
    }
    out
}

/// The function that builds a value of a data type's constructor.
pub fn build_constructor(
    index: usize,
    field_map: &Option<FieldMap>,
    arity: usize,
    types: &Vec<Type>,
) -> (r: Term)
    ensures
        r@ == constructor_builder(
            index as int,
            match field_map_view(*field_map) {
                Some(m) => Some(sorted_labels(m.fields)),
                None => None,
            },
            arity as nat,
            type_views(types@),
        ),
{
    match field_map {
        Some(map) => {
            let labels = labels_in_order(&map.fields);
            let ghost names = name_views(labels@);
            let count = if labels.len() <= types.len() {
                labels.len()
            } else {
                types.len()
            };
            let mut fields = Term::empty_list();
            let mut i: usize = count;
            while i > 0
                invariant
                    i <= count,
                    count <= labels.len(),
                    count <= types.len(),
                    count == labels.len() || count == types.len(),
                    names == name_views(labels@),
                    fields@ == labeled_fields(names, type_views(types@), i as nat),
                decreases i,
            {
                i = i - 1;
                fields =
                Term::cons(convert_type_to_data(Term::var(labels[i].clone()), &types[i]), fields);
            }
            let body = Term::binary(
                DefaultFunction::ConstrData,
                Term::integer(index as i128),
                fields,
            );
            wrap_lambdas(&labels, body)
        },
        None => {
            let count = if arity <= types.len() {
                arity
            } else {
                types.len()
            };
            let mut fields = Term::empty_list();
            let mut i: usize = 0;
            while i < count
                invariant
                    i <= count,
                    count <= types.len(),
                    fields@ == positional_fields(type_views(types@), i as nat),
                decreases count - i,
            {
                fields =
                Term::cons(convert_type_to_data(Term::var(arg_text(i as u64)), &types[i]), fields);
                i = i + 1;
            }
            let mut term = Term::binary(
                DefaultFunction::ConstrData,
                Term::integer(index as i128),
                fields,
            );
            let ghost body = term@;
            let mut k: usize = 0;
            while k < count
                invariant
                    k <= count,
                    term@ == positional_lambdas(k as nat, body),
                decreases count - k,
            {
                term = Term::lambda(arg_text(k as u64), term);
                k = k + 1;
            }
            term
        },
    }
}

/// What a reference to a name becomes.
pub fn var_to_term(
    constructor: &ValueConstructor,
    name: String,
    variant_name: &String,
    data_types: &Vec<(DataTypeKey, TypedDataType)>,
    Ghost(env): Ghost<SynthEnv>,
) -> (r: Result<Term, Halt>)
    requires
        env.data_types == data_types@,
    ensures
        match r {
            Ok(t) => var_term(constructor@, name@, variant_name@, env) == Ok::<TermView, Halt>(t@),
            Err(e) => var_term(constructor@, name@, variant_name@, env) == Err::<TermView, Halt>(e),
        },
{
    match &constructor.variant {
        ValueConstructorVariant::LocalVariable { .. } => Ok(Term::var(name)),
        ValueConstructorVariant::ModuleConstant { .. } => Err(Halt::Malformed),
        ValueConstructorVariant::ModuleFn { name: func_name, module, .. } => Ok(
            Term::var(function_text(func_name, module, &name, variant_name)),
        ),
        ValueConstructorVariant::Record { name: constr_name, field_map, arity, .. } => {
            let key = data_type_key_of(&constructor.tipo, Halt::Unsupported)?;
            if constructor.tipo.is_bool() {
                Ok(Term::boolean(text_is(constr_name, "True")))
            } else if constructor.tipo.is_void() {
                Ok(Term::unit())
            } else {
                match find_data_type(data_types, &key.0, &key.1) {
                    None => Err(Halt::Missing),
                    Some(data_type) => match data_type.find_constructor(constr_name) {
                        None => Err(Halt::Missing),
                        Some(index) => {
                            let types = constructor.tipo.arg_types();
                            match types {
                                Some(types) => Ok(
                                    build_constructor(index, field_map, *arity, &types),
                                ),
                                None => Err(Halt::ImpossibleShape),
                            }
                        },
                    },
                }
            }
        },
    }
}

/// Replaces the top of the stack by the given parameters' function of it.
pub fn fn_step(params: &Vec<String>, stack: &mut Vec<Term>) -> (r: Result<(), Halt>)
    ensures
        match r {
            Ok(()) => old(stack)@.len() >= 1 && term_views(final(stack)@) == term_views(
                old(stack)@,
            ).drop_last().push(lambdas(name_views(params@), 0, term_views(old(stack)@).last())),
            Err(e) => e == Halt::Malformed && old(stack)@.len() < 1,
        },
{
    let body = pop_term(stack)?;
    push_term(stack, wrap_lambdas(params, body));
    Ok(())
}

/// Whether a variable of the given name refers to the function of the
/// given key.
pub fn refers_to(text: &String, key: &FunctionAccessKey) -> (r: bool)
    ensures
        r == names_function(text@, key@),
{
    let plain = key.function_name.clone().concat(key.variant_name.as_str());
    let qualified = key.module_name.clone().concat("_").concat(key.function_name.as_str()).concat(
        key.variant_name.as_str(),
    );
    *text == plain || *text == qualified
}

proof fn lemma_named_function_found(text: Seq<char>, functions: Seq<ZeroArgView>, at: nat, upto: nat)
    requires
        at < upto <= functions.len(),
        named_function(text, functions, at).is_none(),
        names_function(text, functions[at as int].key),
    ensures
        named_function(text, functions, upto) == Some(at as int),
    decreases upto,
{
    if upto > at + 1 {
        lemma_named_function_found(text, functions, at, (upto - 1) as nat);
    }
}

/// A call.
#[verifier::loop_isolation(false)]
pub fn call(
    count: usize,
    stack: &mut Vec<Term>,
    functions: &Vec<ZeroArgFunction>,
    Ghost(st): Ghost<SynthState>,
    Ghost(env): Ghost<SynthEnv>,
) -> (r: Result<(), Halt>)
    requires
        st.stack == term_views(old(stack)@),
        env.zero_arg == zero_arg_views(functions@),
    ensures
        agrees(r, call_step(count, st, env), st.with_stack(term_views(final(stack)@))),
{
    let ghost start = term_views(stack@);
    if count >= 1 {
        if stack.len() <= count {
            return Err(Halt::Malformed);
        }
        let mut term = pop_term(stack)?;
        let ghost callee = term@;
        let ghost s1 = term_views(stack@);
        let ghost args = popped(s1, count as nat);
        let mut i: usize = 0;
        while i < count
            invariant
                i <= count,
                count <= s1.len(),
                args == popped(s1, count as nat),
                stack@.len() == s1.len() - i,
                term_views(stack@) == s1.take(s1.len() - i),
                term@ == apply_all(callee, args, i as nat),
            decreases count - i,
        {
            let ghost before = term_views(stack@);
            let arg = pop_term(stack).unwrap();
            assert(arg@ == args[i as int]);
            assert(term_views(stack@) =~= s1.take(s1.len() - i - 1));
            term = term.apply(arg);
            i = i + 1;
        }
        push_term(stack, term);
        Ok(())
    } else {
        if stack.len() == 0 {
            return Err(Halt::Malformed);
        }
        let ghost fs = zero_arg_views(functions@);
        let mut found: Option<usize> = None;
        match &stack[stack.len() - 1] {
            Term::Var(name) => {
                assert(term_views(stack@).last() == stack@[stack@.len() - 1]@);
                let mut i: usize = 0;
                while i < functions.len() && found.is_none()
                    invariant
                        i <= functions.len(),
                        fs == zero_arg_views(functions@),
                        match found {
                            Some(at) => at < functions.len() && named_function(
                                name.text@,
                                fs,
                                fs.len(),
                            ) == Some(at as int),
                            None => named_function(name.text@, fs, i as nat).is_none(),
                        },
                    decreases functions.len() - i + (if found.is_none() { 1int } else { 0int }),
                {
                    assert(fs[i as int] == functions@[i as int]@);
                    if refers_to(&name.text, &functions[i].key) {
                        proof {
                            lemma_named_function_found(name.text@, fs, i as nat, fs.len());
                        }
                        found = Some(i);
                    } else {
                        i = i + 1;
                    }
                }
            },
            _ => {
                assert(term_views(stack@).last() == stack@[stack@.len() - 1]@);
            },
        }
        match found {
            Some(at) => {
                assert(fs[at as int] == functions@[at as int]@);
                match &functions[at].value {
                    Some(value) => {
                        let _ = pop_term(stack);
                        push_term(stack, value.duplicate());
                        Ok(())
                    },
                    None => Err(Halt::Evaluate { function: at }),
                }
            },
            None => {
                assert(term_views(stack@) =~= start);
                Ok(())
            },
        }
    }
}

/// Whether two values of a type are equal.
pub fn equals(tipo: &Type, left: Term, right: Term) -> (r: Term)
    ensures
        r@ == equals_term(tipo@, left@, right@),
{
    let builtin = equality_builtin(tipo);
    if tipo.is_bool() {
        let other = negate(right.duplicate());
        delayed_if_else(left, right, other)
    } else if tipo.is_map() {
        Term::binary(
            builtin,
            Term::Builtin(DefaultFunction::MapData).apply(left),
            Term::Builtin(DefaultFunction::MapData).apply(right),
        )
    } else if tipo.is_tuple() && tipo.is_pair() {
        Term::binary(builtin, map_of_pair(left), map_of_pair(right))
    } else if tipo.is_list() {
        Term::binary(
            builtin,
            Term::Builtin(DefaultFunction::ListData).apply(left),
            Term::Builtin(DefaultFunction::ListData).apply(right),
        )
    } else if tipo.is_void() {
        Term::boolean(true)
    } else {
        Term::binary(builtin, left, right)
    }
}

/// Whether two values of a type differ.
pub fn differs(tipo: &Type, left: Term, right: Term) -> (r: Term)
    ensures
        r@ == differs_term(tipo@, left@, right@),
{
    if tipo.is_bool() {
        let other = negate(right.duplicate());
        delayed_if_else(left, other, right)
    } else if tipo.is_void() {
        Term::boolean(false)
    } else {
        negate(equals(tipo, left, right))
    }
}

pub fn equality_builtin(tipo: &Type) -> (r: DefaultFunction)
    ensures
        r == equality(tipo@),
{
    if tipo.is_int() {
        DefaultFunction::EqualsInteger
    } else if tipo.is_string() {
        DefaultFunction::EqualsString
    } else if tipo.is_bytearray() {
        DefaultFunction::EqualsByteString
    } else {
        DefaultFunction::EqualsData
    }
}

pub fn negate(term: Term) -> (r: Term)
    ensures
        r@ == negated(term@),
{
    if_else(term, Term::boolean(false), Term::boolean(true))
}

pub fn map_of_pair(pair: Term) -> (r: Term)
    ensures
        r@ == pair_as_map(pair@),
{
    Term::Builtin(DefaultFunction::MapData).apply(Term::cons(pair, Term::empty_map()))
}

/// A binary operator applied to its operands.
pub fn binop(name: BinOp, tipo: &Type, left: Term, right: Term) -> (r: Term)
    ensures
        r@ == binop_term(name, tipo@, left@, right@),
{
    match name {
        BinOp::And => delayed_if_else(left, right, Term::boolean(false)),
        BinOp::Or => delayed_if_else(left, Term::boolean(true), right),
        BinOp::Eq => equals(tipo, left, right),
        BinOp::NotEq => differs(tipo, left, right),
        BinOp::LtInt => Term::binary(DefaultFunction::LessThanInteger, left, right),
        BinOp::LtEqInt => Term::binary(DefaultFunction::LessThanEqualsInteger, left, right),
        BinOp::GtEqInt => Term::binary(DefaultFunction::LessThanEqualsInteger, right, left),
        BinOp::GtInt => Term::binary(DefaultFunction::LessThanInteger, right, left),
        BinOp::AddInt => Term::binary(DefaultFunction::AddInteger, left, right),
        BinOp::SubInt => Term::binary(DefaultFunction::SubtractInteger, left, right),
        BinOp::MultInt => Term::binary(DefaultFunction::MultiplyInteger, left, right),
        BinOp::DivInt => Term::binary(DefaultFunction::DivideInteger, left, right),
        BinOp::ModInt => Term::binary(DefaultFunction::ModInteger, left, right),
    }
}

/// A unary operator applied to its operand.
pub fn unop(op: UnOp, value: Term) -> (r: Term)
    ensures
        r@ == unop_term(op, value@),
{
    match op {
        UnOp::Not => negate(value),
        UnOp::Negate => Term::binary(DefaultFunction::SubtractInteger, Term::integer(0), value),
    }
}

/// The rest of the program with a function bound for it.
pub fn define_func(
    name: String,
    params: &Vec<String>,
    recursive: bool,
    func_body: Term,
    term: Term,
) -> (r: Term)
    ensures
        r@ == define_func_term(name@, name_views(params@), recursive, func_body@, term@),
{
    let function = wrap_lambdas(params, func_body);
    if !recursive {
        Term::bind(name, function, term)
    } else {
        Term::bind(
            name.clone(),
            Term::lambda(name.clone(), function),
            Term::bind(
                name.clone(),
                Term::var(name.clone()).apply(Term::var(name)),
                term,
            ),
        )
    }
}

/// A match: the clauses with the subject bound.
pub fn bind_subject(subject_name: String, tipo: &Type, subject: Term, term: Term) -> (r: Term)
    ensures
        r@ == when_term(subject_name@, tipo@, subject@, term@),
{
    if tipo.is_int() || tipo.is_bytearray() || tipo.is_string() || tipo.is_list()
        || tipo.is_tuple() {
        Term::bind(subject_name, subject, term)
    } else {
        Term::bind(subject_name, constr_index_exposer(subject), term)
    }
}

/// A failure that logs a message first.
pub fn error_with_trace(label: String) -> (r: Term)
    ensures
        r@ == traced_error(label@),
{
    Term::Builtin(DefaultFunction::Trace).force_wrap().apply(Term::string(label)).apply(
        Term::Error.delay(),
    ).force_wrap()
}

/// The text of an optional label, or the default where there is none.
pub fn label_text(label: Option<String>, default: &str) -> (r: String)
    ensures
        r@ == label_or(text_view(label), default@),
{
    match label {
        Some(l) => l,
        None => String::from_str(default),
    }
}

} // verus!
