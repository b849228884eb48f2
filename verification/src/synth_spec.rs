use vstd::prelude::*;
use crate::air::AirView;
use crate::ast::{BinOp, TypedDataType, UnOp};
use crate::builder::{data_type_position, DataTypeKey, KeyView};
use crate::convert::{constants_to_data, list_access};
use crate::error::Halt;
use crate::id_gen::{advance, ids_from, succ};
use crate::sorting::sorted_by_position;
use crate::term::{ConstantView, DefaultFunction, PlutusDataView, TermView, UplcType};
use crate::text::{decimal, integer_value};
use crate::tipo::{FieldView, TypeView, ValueConstructorView, VariantView};

verus! {

/// What the synthesizer holds between two instructions: the operand stack,
/// whose last item is the top; the next fresh identifier; and whether the
/// helpers that read fields have been asked for.
pub ghost struct SynthState {
    pub stack: Seq<TermView>,
    pub next_id: u64,
    pub needs_field_access: bool,
}

/// A function without parameters, and its value once it has been computed.
pub ghost struct ZeroArgView {
    pub key: KeyView,
    pub ir: Seq<AirView>,
    pub value: Option<TermView>,
}

/// What the synthesizer reads and does not change.
pub ghost struct SynthEnv {
    pub data_types: Seq<(DataTypeKey, TypedDataType)>,
    pub zero_arg: Seq<ZeroArgView>,
}

impl SynthState {
    pub open spec fn with_stack(self, stack: Seq<TermView>) -> SynthState {
        SynthState { stack, ..self }
    }

    pub open spec fn push(self, term: TermView) -> Result<SynthState, Halt> {
        Ok(self.with_stack(self.stack.push(term)))
    }

    /// Replaces the top of the stack by what `f` makes of it.
    pub open spec fn unary(self, f: spec_fn(TermView) -> TermView) -> Result<SynthState, Halt> {
        if self.stack.len() < 1 {
            Err(Halt::Malformed)
        } else {
            Ok(self.with_stack(self.stack.drop_last().push(f(self.stack.last()))))
        }
    }

    /// Replaces the two topmost items by what `f` makes of them; the first
    /// argument of `f` is the top.
    pub open spec fn binary(self, f: spec_fn(TermView, TermView) -> TermView) -> Result<
        SynthState,
        Halt,
    > {
        if self.stack.len() < 2 {
            Err(Halt::Malformed)
        } else {
            let s1 = self.stack.drop_last();
            Ok(self.with_stack(s1.drop_last().push(f(self.stack.last(), s1.last()))))
        }
    }

    /// Replaces the three topmost items by what `f` makes of them; the first
    /// argument of `f` is the top.
    pub open spec fn ternary(self, f: spec_fn(TermView, TermView, TermView) -> TermView) -> Result<
        SynthState,
        Halt,
    > {
        if self.stack.len() < 3 {
            Err(Halt::Malformed)
        } else {
            let s1 = self.stack.drop_last();
            let s2 = s1.drop_last();
            Ok(self.with_stack(s2.drop_last().push(f(self.stack.last(), s1.last(), s2.last()))))
        }
    }
}

/// The `count` topmost items of a stack, the top first.
pub open spec fn popped(stack: Seq<TermView>, count: nat) -> Seq<TermView>
    recommends
        count <= stack.len(),
{
    Seq::new(count, |i: int| stack[stack.len() - 1 - i])
}

/// A stack without its `count` topmost items.
pub open spec fn below(stack: Seq<TermView>, count: nat) -> Seq<TermView>
    recommends
        count <= stack.len(),
{
    stack.take(stack.len() - count)
}

/// The name under which a module's function is bound in the program.
pub open spec fn function_name(
    func_name: Seq<char>,
    module: Seq<char>,
    name: Seq<char>,
    variant_name: Seq<char>,
) -> Seq<char> {
    if (func_name == name || name == module + "_"@ + func_name) && module.len() > 0 {
        module + "_"@ + func_name + variant_name
    } else {
        func_name + variant_name
    }
}

/// The name under which a function definition binds its function.
pub open spec fn definition_name(
    func_name: Seq<char>,
    module: Seq<char>,
    variant_name: Seq<char>,
) -> Seq<char> {
    if module.len() == 0 {
        func_name + variant_name
    } else {
        module + "_"@ + func_name + variant_name
    }
}

/// The data type that a constructor's type names: the type itself, or the
/// result type of a constructor function. `other` is what any other type
/// gives.
pub open spec fn data_type_key(tipo: TypeView, other: Halt) -> Result<
    (Seq<char>, Seq<char>),
    Halt,
> {
    match tipo {
        TypeView::App { module, name, .. } => Ok((module, name)),
        TypeView::Fn { ret, .. } => match *ret {
            TypeView::App { module, name, .. } => Ok((module, name)),
            _ => Err(Halt::ImpossibleShape),
        },
        _ => Err(other),
    }
}

/// The name of the parameter at a position of a constructor without labels.
pub open spec fn arg_name(index: nat) -> Seq<char> {
    "__arg_"@ + decimal(index)
}

/// The labels of a record's fields, in the order of their positions.
pub open spec fn sorted_labels(fields: Seq<FieldView>) -> Seq<Seq<char>> {
    let sorted = sorted_by_position(Seq::new(fields.len(), |i: int| (fields[i].index, fields[i].label)));
    Seq::new(sorted.len(), |i: int| sorted[i].1)
}

/// The data list of the fields from position `from` on, each read from the
/// variable that its label names.
pub open spec fn labeled_fields(labels: Seq<Seq<char>>, types: Seq<TypeView>, from: nat) -> TermView
    decreases labels.len() - from,
{
    if from >= labels.len() || from >= types.len() {
        TermView::empty_list()
    } else {
        TermView::cons(
            TermView::var(labels[from as int]).to_data(types[from as int]),
            labeled_fields(labels, types, from + 1),
        )
    }
}

/// The data list of the first `count` fields, the last one in front, each
/// read from the parameter of its position.
pub open spec fn positional_fields(types: Seq<TypeView>, count: nat) -> TermView
    decreases count,
{
    if count == 0 || count > types.len() {
        TermView::empty_list()
    } else {
        TermView::cons(
            TermView::var(arg_name((count - 1) as nat)).to_data(types[count - 1]),
            positional_fields(types, (count - 1) as nat),
        )
    }
}

/// `body` as a function of the names from position `from` on, the first
/// outermost.
pub open spec fn lambdas(names: Seq<Seq<char>>, from: nat, body: TermView) -> TermView
    decreases names.len() - from,
{
    if from >= names.len() {
        body
    } else {
        TermView::lambda(names[from as int], lambdas(names, from + 1, body))
    }
}

/// `body` as a function of the first `count` positional parameters, the
/// last outermost.
pub open spec fn positional_lambdas(count: nat, body: TermView) -> TermView
    decreases count,
{
    if count == 0 {
        body
    } else {
        TermView::lambda(arg_name((count - 1) as nat), positional_lambdas((count - 1) as nat, body))
    }
}

/// The smaller of two numbers.
pub open spec fn least(a: nat, b: nat) -> nat {
    if a <= b {
        a
    } else {
        b
    }
}

/// The function that builds a value of a data type's constructor: it takes
/// the fields, wraps each as data, and tags the list of them.
pub open spec fn constructor_builder(
    index: int,
    field_labels: Option<Seq<Seq<char>>>,
    arity: nat,
    types: Seq<TypeView>,
) -> TermView {
    match field_labels {
        Some(labels) => lambdas(
            labels,
            0,
            TermView::binary(
                DefaultFunction::ConstrData,
                TermView::integer(index),
                labeled_fields(labels, types, 0),
            ),
        ),
        None => positional_lambdas(
            least(arity, types.len()),
            TermView::binary(
                DefaultFunction::ConstrData,
                TermView::integer(index),
                positional_fields(types, least(arity, types.len())),
            ),
        ),
    }
}

/// What a reference to a constructor becomes.
pub open spec fn record_term(
    constructor: ValueConstructorView,
    env: SynthEnv,
) -> Result<TermView, Halt>
    recommends
        constructor.variant is Record,
{
    let tipo = constructor.tipo;
    match data_type_key(tipo, Halt::Unsupported) {
        Err(e) => Err(e),
        Ok((module, name)) => if tipo.is_bool() {
            Ok(TermView::boolean(constructor.variant->Record_name == "True"@))
        } else if tipo.is_void() {
            Ok(TermView::unit())
        } else {
            match data_type_position(env.data_types, module, name) {
                None => Err(Halt::Missing),
                Some(dt) => match env.data_types[dt].1.constructor_position(
                    constructor.variant->Record_name,
                ) {
                    None => Err(Halt::Missing),
                    Some(index) => Ok(
                        constructor_builder(
                            index,
                            match constructor.variant->Record_field_map {
                                Some(m) => Some(sorted_labels(m.fields)),
                                None => None,
                            },
                            constructor.variant->Record_arity as nat,
                            tipo.arg_types().unwrap(),
                        ),
                    ),
                },
            }
        },
    }
}

/// What a reference to a name becomes.
pub open spec fn var_term(
    constructor: ValueConstructorView,
    name: Seq<char>,
    variant_name: Seq<char>,
    env: SynthEnv,
) -> Result<TermView, Halt> {
    match constructor.variant {
        VariantView::LocalVariable { .. } => Ok(TermView::var(name)),
        VariantView::ModuleConstant { .. } => Err(Halt::Malformed),
        VariantView::ModuleFn { name: func_name, module, .. } => Ok(
            TermView::var(function_name(func_name, module, name, variant_name)),
        ),
        VariantView::Record { .. } => record_term(constructor, env),
    }
}

/// The list made of `items` from position `from` on, in front of `tail`.
/// Items of an association list are pairs already; others are wrapped as
/// data.
pub open spec fn list_chain(
    items: Seq<TermView>,
    from: nat,
    tail: TermView,
    is_map: bool,
    item_type: TypeView,
) -> TermView
    decreases items.len() - from,
{
    if from >= items.len() {
        tail
    } else {
        TermView::cons(
            if is_map {
                items[from as int]
            } else {
                items[from as int].to_data(item_type)
            },
            list_chain(items, from + 1, tail, is_map, item_type),
        )
    }
}

/// Whether every term is a constant.
pub open spec fn all_constants(items: Seq<TermView>) -> bool {
    forall|i: int| 0 <= i < items.len() ==> (#[trigger] items[i]) is Constant
}

/// The constants that the terms are.
pub open spec fn constants_of(items: Seq<TermView>) -> Seq<ConstantView> {
    Seq::new(items.len(), |i: int| items[i]->Constant_0)
}

/// Each data value as a data constant.
pub open spec fn as_constants(items: Seq<PlutusDataView>) -> Seq<ConstantView> {
    Seq::new(items.len(), |i: int| ConstantView::Data(items[i]))
}

/// The constant association list of the given pairs of constants.
pub open spec fn constant_map(pairs: Seq<ConstantView>) -> Result<TermView, Halt> {
    if !(forall|i: int| 0 <= i < pairs.len() ==> (#[trigger] pairs[i]) is ProtoPair) {
        Err(Halt::ImpossibleShape)
    } else {
        match constants_to_data(Seq::new(pairs.len(), |i: int| *pairs[i]->ProtoPair_2)) {
            Err(e) => Err(e),
            Ok(keys) => match constants_to_data(
                Seq::new(pairs.len(), |i: int| *pairs[i]->ProtoPair_3),
            ) {
                Err(e) => Err(e),
                Ok(values) => Ok(
                    TermView::Constant(
                        ConstantView::ProtoList(
                            UplcType::data_pair(),
                            Seq::new(
                                pairs.len(),
                                |i: int|
                                    ConstantView::ProtoPair(
                                        UplcType::Data,
                                        UplcType::Data,
                                        Box::new(ConstantView::Data(keys[i])),
                                        Box::new(ConstantView::Data(values[i])),
                                    ),
                            ),
                        ),
                    ),
                ),
            },
        }
    }
}

/// A list literal: a constant where every item is one and there is no
/// tail; else a chain of `MkCons`.
pub open spec fn list_step(count: usize, tipo: TypeView, tail: bool, st: SynthState) -> Result<
    SynthState,
    Halt,
> {
    if st.stack.len() < count {
        Err(Halt::Malformed)
    } else if tipo.inner_types().len() == 0 {
        Err(Halt::ImpossibleShape)
    } else {
        let items = popped(st.stack, count as nat);
        let rest = below(st.stack, count as nat);
        if all_constants(items) && !tail {
            if tipo.is_map() {
                match constant_map(constants_of(items)) {
                    Ok(t) => Ok(st.with_stack(rest.push(t))),
                    Err(e) => Err(e),
                }
            } else {
                match constants_to_data(constants_of(items)) {
                    Ok(ds) => Ok(
                        st.with_stack(
                            rest.push(
                                TermView::Constant(
                                    ConstantView::ProtoList(UplcType::Data, as_constants(ds)),
                                ),
                            ),
                        ),
                    ),
                    Err(e) => Err(e),
                }
            }
        } else if tail {
            if rest.len() == 0 {
                Err(Halt::Malformed)
            } else {
                Ok(
                    st.with_stack(
                        rest.drop_last().push(
                            list_chain(
                                items,
                                0,
                                rest.last(),
                                tipo.is_map(),
                                tipo.inner_types()[0],
                            ),
                        ),
                    ),
                )
            }
        } else {
            Ok(
                st.with_stack(
                    rest.push(
                        list_chain(
                            items,
                            0,
                            if tipo.is_map() {
                                TermView::empty_map()
                            } else {
                                TermView::empty_list()
                            },
                            tipo.is_map(),
                            tipo.inner_types()[0],
                        ),
                    ),
                ),
            )
        }
    }
}

/// The data list made of `items` from position `from` on, each wrapped as
/// data of its type.
pub open spec fn tuple_chain(items: Seq<TermView>, types: Seq<TypeView>, from: nat) -> TermView
    decreases items.len() - from,
{
    if from >= items.len() || from >= types.len() {
        TermView::empty_list()
    } else {
        TermView::cons(
            items[from as int].to_data(types[from as int]),
            tuple_chain(items, types, from + 1),
        )
    }
}

/// A tuple literal: a constant where every element is one; else a pair for
/// two elements, and a data list for any other number.
pub open spec fn tuple_step(tipo: TypeView, count: usize, st: SynthState) -> Result<
    SynthState,
    Halt,
> {
    if st.stack.len() < count {
        Err(Halt::Malformed)
    } else {
        let items = popped(st.stack, count as nat);
        let rest = below(st.stack, count as nat);
        let types = tipo.inner_types();
        if all_constants(items) {
            match constants_to_data(constants_of(items)) {
                Err(e) => Err(e),
                Ok(ds) => if count == 2 {
                    Ok(
                        st.with_stack(
                            rest.push(
                                TermView::Constant(
                                    ConstantView::ProtoPair(
                                        UplcType::Data,
                                        UplcType::Data,
                                        Box::new(ConstantView::Data(ds[0])),
                                        Box::new(ConstantView::Data(ds[1])),
                                    ),
                                ),
                            ),
                        ),
                    )
                } else {
                    Ok(
                        st.with_stack(
                            rest.push(
                                TermView::Constant(
                                    ConstantView::ProtoList(UplcType::Data, as_constants(ds)),
                                ),
                            ),
                        ),
                    )
                },
            }
        } else if count == 2 {
            if types.len() < 2 {
                Err(Halt::ImpossibleShape)
            } else {
                Ok(
                    st.with_stack(
                        rest.push(
                            TermView::binary(
                                DefaultFunction::MkPairData,
                                items[0].to_data(types[0]),
                                items[1].to_data(types[1]),
                            ),
                        ),
                    ),
                )
            }
        } else {
            Ok(st.with_stack(rest.push(tuple_chain(items, types, 0))))
        }
    }
}

/// The head of the list that `name` holds, as a value of the list's item
/// type.
pub open spec fn typed_head(name: Seq<char>, tipo: TypeView) -> Result<TermView, Halt> {
    if tipo.is_map() {
        Ok(TermView::head_list(TermView::var(name)))
    } else if tipo.inner_types().len() == 0 {
        Err(Halt::ImpossibleShape)
    } else {
        Ok(TermView::head_list(TermView::var(name)).from_data(tipo.inner_types()[0]))
    }
}

/// Binds the items of the list on top of the stack to names.
pub open spec fn list_accessor_step(
    names: Seq<Seq<char>>,
    tail: bool,
    tipo: TypeView,
    st: SynthState,
) -> Result<SynthState, Halt> {
    if st.stack.len() < 2 || names.len() == 0 {
        Err(Halt::Malformed)
    } else {
        let value = st.stack.last();
        let term = st.stack.drop_last().last();
        let rest = st.stack.drop_last().drop_last();
        let ids = ids_from(st.next_id, names.len());
        let list_id = advance(st.next_id, names.len());
        let list_name = "__list_"@ + decimal(list_id as nat);
        match typed_head(list_name, tipo) {
            Err(e) => Err(e),
            Ok(head) => match list_access(names.drop_first(), ids, tail, 0, term, tipo) {
                Err(e) => Err(e),
                Ok(access) => Ok(
                    SynthState {
                        stack: rest.push(
                            TermView::bind(
                                list_name,
                                value,
                                TermView::bind(
                                    names[0],
                                    head,
                                    access.apply(TermView::tail_list(TermView::var(list_name))),
                                ),
                            ),
                        ),
                        next_id: succ(list_id),
                        ..st
                    },
                ),
            },
        }
    }
}

/// `term` with each head name bound to the head of the list that its tail
/// name holds, from position `from` on, the first outermost.
pub open spec fn expose_heads(
    pairs: Seq<(Seq<char>, Seq<char>)>,
    from: nat,
    tipo: TypeView,
    term: TermView,
) -> Result<TermView, Halt>
    decreases pairs.len() - from,
{
    if from >= pairs.len() {
        Ok(term)
    } else {
        match expose_heads(pairs, from + 1, tipo, term) {
            Err(e) => Err(e),
            Ok(inner) => match typed_head(pairs[from as int].0, tipo) {
                Err(e) => Err(e),
                Ok(head) => Ok(TermView::bind(pairs[from as int].1, head, inner)),
            },
        }
    }
}

/// Binds heads and a tail of lists that are in scope already.
pub open spec fn list_expose_step(
    pairs: Seq<(Seq<char>, Seq<char>)>,
    tail: Option<(Seq<char>, Seq<char>)>,
    tipo: TypeView,
    st: SynthState,
) -> Result<SynthState, Halt> {
    if st.stack.len() < 1 {
        Err(Halt::Malformed)
    } else {
        let term = st.stack.last();
        let inner = match tail {
            Some((tail_var, tail_name)) => TermView::bind(
                tail_name,
                TermView::tail_list(TermView::var(tail_var)),
                term,
            ),
            None => term,
        };
        match expose_heads(pairs, 0, tipo, inner) {
            Ok(t) => Ok(st.with_stack(st.stack.drop_last().push(t))),
            Err(e) => Err(e),
        }
    }
}

/// `callee` applied to `args` from position `from` on, one after the other.
pub open spec fn apply_all(callee: TermView, args: Seq<TermView>, upto: nat) -> TermView
    decreases upto,
{
    if upto == 0 || upto > args.len() {
        callee
    } else {
        apply_all(callee, args, (upto - 1) as nat).apply(args[upto - 1])
    }
}

/// Whether a variable of the given name refers to the function of the
/// given key.
pub open spec fn names_function(text: Seq<char>, key: KeyView) -> bool {
    text == key.function_name + key.variant_name || text == key.module_name + "_"@
        + key.function_name + key.variant_name
}

/// The first of the first `upto` functions without parameters that a
/// variable of the given name refers to.
pub open spec fn named_function(text: Seq<char>, functions: Seq<ZeroArgView>, upto: nat) -> Option<
    int,
>
    decreases upto,
{
    if upto == 0 || upto > functions.len() {
        None
    } else {
        match named_function(text, functions, (upto - 1) as nat) {
            Some(i) => Some(i),
            None => if names_function(text, functions[upto - 1].key) {
                Some(upto - 1)
            } else {
                None
            },
        }
    }
}

/// A call. With arguments, the callee applied to them. Without, the callee
/// itself; where the callee is a variable that names a function without
/// parameters, the value of that function takes its place, or the outcome
/// is the request for the value where it is still to be computed.
pub open spec fn call_step(count: usize, st: SynthState, env: SynthEnv) -> Result<
    SynthState,
    Halt,
> {
    if count >= 1 {
        if st.stack.len() < count + 1 {
            Err(Halt::Malformed)
        } else {
            let callee = st.stack.last();
            let args = popped(st.stack.drop_last(), count as nat);
            Ok(
                st.with_stack(
                    below(st.stack.drop_last(), count as nat).push(
                        apply_all(callee, args, count as nat),
                    ),
                ),
            )
        }
    } else if st.stack.len() < 1 {
        Err(Halt::Malformed)
    } else {
        match st.stack.last() {
            TermView::Var(name) => match named_function(
                name.text,
                env.zero_arg,
                env.zero_arg.len(),
            ) {
                Some(i) => match env.zero_arg[i].value {
                    Some(v) => Ok(st.with_stack(st.stack.drop_last().push(v))),
                    None => Err(Halt::Evaluate { function: i as usize }),
                },
                None => Ok(st),
            },
            _ => Ok(st),
        }
    }
}

/// A reference to a built-in. The three that take a value apart get a
/// wrapper that unwraps what they hand out.
pub open spec fn builtin_step(func: DefaultFunction, tipo: TypeView, st: SynthState) -> Result<
    SynthState,
    Halt,
> {
    match func {
        DefaultFunction::FstPair | DefaultFunction::SndPair | DefaultFunction::HeadList => {
            let name = arg_name(st.next_id as nat);
            let outer = tipo.inner_types();
            if outer.len() == 0 {
                Err(Halt::ImpossibleShape)
            } else {
                let inner = outer[0].inner_types();
                let position: int = if func == DefaultFunction::SndPair {
                    1
                } else {
                    0
                };
                if inner.len() <= position {
                    Err(Halt::ImpossibleShape)
                } else {
                    Ok(
                        SynthState {
                            stack: st.stack.push(
                                TermView::lambda(
                                    name,
                                    TermView::ready(func).apply(TermView::var(name)).from_data(
                                        inner[position],
                                    ),
                                ),
                            ),
                            next_id: succ(st.next_id),
                            ..st
                        },
                    )
                }
            }
        },
        DefaultFunction::MkCons | DefaultFunction::MkPairData => Err(Halt::Unsupported),
        _ => st.push(TermView::ready(func)),
    }
}

/// The built-in that compares two values of a type for equality.
pub open spec fn equality(tipo: TypeView) -> DefaultFunction {
    if tipo.is_int() {
        DefaultFunction::EqualsInteger
    } else if tipo.is_string() {
        DefaultFunction::EqualsString
    } else if tipo.is_bytearray() {
        DefaultFunction::EqualsByteString
    } else {
        DefaultFunction::EqualsData
    }
}

/// The negation of a boolean.
pub open spec fn negated(term: TermView) -> TermView {
    TermView::if_else(term, TermView::boolean(false), TermView::boolean(true))
}

/// A pair as the only entry of an association list, as data.
pub open spec fn pair_as_map(pair: TermView) -> TermView {
    TermView::builtin(DefaultFunction::MapData).apply(TermView::cons(pair, TermView::empty_map()))
}

/// Whether two values of a type are equal.
pub open spec fn equals_term(tipo: TypeView, left: TermView, right: TermView) -> TermView {
    if tipo.is_bool() {
        TermView::delayed_if_else(left, right, negated(right))
    } else if tipo.is_map() {
        TermView::binary(
            equality(tipo),
            TermView::builtin(DefaultFunction::MapData).apply(left),
            TermView::builtin(DefaultFunction::MapData).apply(right),
        )
    } else if tipo.is_tuple() && tipo.is_pair() {
        TermView::binary(equality(tipo), pair_as_map(left), pair_as_map(right))
    } else if tipo.is_list() {
        TermView::binary(
            equality(tipo),
            TermView::builtin(DefaultFunction::ListData).apply(left),
            TermView::builtin(DefaultFunction::ListData).apply(right),
        )
    } else if tipo.is_void() {
        TermView::boolean(true)
    } else {
        TermView::binary(equality(tipo), left, right)
    }
}

/// Whether two values of a type differ: the negation of whether they are
/// equal. For booleans the negation is worked into the branches.
pub open spec fn differs_term(tipo: TypeView, left: TermView, right: TermView) -> TermView {
    if tipo.is_bool() {
        TermView::delayed_if_else(left, negated(right), right)
    } else if tipo.is_void() {
        TermView::boolean(false)
    } else {
        negated(equals_term(tipo, left, right))
    }
}

/// A binary operator applied to its operands.
pub open spec fn binop_term(name: BinOp, tipo: TypeView, left: TermView, right: TermView) -> TermView {
    match name {
        BinOp::And => TermView::delayed_if_else(left, right, TermView::boolean(false)),
        BinOp::Or => TermView::delayed_if_else(left, TermView::boolean(true), right),
        BinOp::Eq => equals_term(tipo, left, right),
        BinOp::NotEq => differs_term(tipo, left, right),
        BinOp::LtInt => TermView::binary(DefaultFunction::LessThanInteger, left, right),
        BinOp::LtEqInt => TermView::binary(DefaultFunction::LessThanEqualsInteger, left, right),
        BinOp::GtEqInt => TermView::binary(DefaultFunction::LessThanEqualsInteger, right, left),
        BinOp::GtInt => TermView::binary(DefaultFunction::LessThanInteger, right, left),
        BinOp::AddInt => TermView::binary(DefaultFunction::AddInteger, left, right),
        BinOp::SubInt => TermView::binary(DefaultFunction::SubtractInteger, left, right),
        BinOp::MultInt => TermView::binary(DefaultFunction::MultiplyInteger, left, right),
        BinOp::DivInt => TermView::binary(DefaultFunction::DivideInteger, left, right),
        BinOp::ModInt => TermView::binary(DefaultFunction::ModInteger, left, right),
    }
}

/// A unary operator applied to its operand.
pub open spec fn unop_term(op: UnOp, value: TermView) -> TermView {
    match op {
        UnOp::Not => negated(value),
        UnOp::Negate => TermView::binary(
            DefaultFunction::SubtractInteger,
            TermView::integer(0),
            value,
        ),
    }
}

/// The rest of the program with a function bound for it. A function that
/// calls itself takes itself as its first parameter, and is bound applied to
/// itself.
pub open spec fn define_func_term(
    name: Seq<char>,
    params: Seq<Seq<char>>,
    recursive: bool,
    func_body: TermView,
    term: TermView,
) -> TermView {
    let function = lambdas(params, 0, func_body);
    if !recursive {
        TermView::bind(name, function, term)
    } else {
        TermView::bind(
            name,
            TermView::lambda(name, function),
            TermView::bind(name, TermView::var(name).apply(TermView::var(name)), term),
        )
    }
}

/// The name under which a clause finds the clauses after it, delayed.
pub open spec fn other_clauses() -> Seq<char> {
    "__other_clauses_delayed"@
}

/// A match: the clauses with the subject bound. A subject that is neither
/// a number, a string, a byte string, a list nor a tuple is a constructor
/// value, of which the clauses see the tag.
pub open spec fn when_term(
    subject_name: Seq<char>,
    tipo: TypeView,
    subject: TermView,
    term: TermView,
) -> TermView {
    if tipo.is_int() || tipo.is_bytearray() || tipo.is_string() || tipo.is_list()
        || tipo.is_tuple() {
        TermView::bind(subject_name, subject, term)
    } else {
        TermView::bind(subject_name, TermView::constr_index_exposer(subject), term)
    }
}

/// The test of a clause, still to be applied to what the subject is compared
/// with. `exposed` says whether the tag of a constructor value is still to
/// be read.
pub open spec fn clause_test_term(tipo: TypeView, subject_name: Seq<char>, exposed: bool) -> Result<
    TermView,
    Halt,
> {
    if tipo.is_int() {
        Ok(TermView::builtin(DefaultFunction::EqualsInteger).apply(TermView::var(subject_name)))
    } else if tipo.is_bytearray() {
        Ok(TermView::builtin(DefaultFunction::EqualsByteString).apply(TermView::var(subject_name)))
    } else if tipo.is_bool() {
        Err(Halt::Unsupported)
    } else if tipo.is_string() {
        Ok(TermView::builtin(DefaultFunction::EqualsString).apply(TermView::var(subject_name)))
    } else if tipo.is_list() {
        if exposed {
            Err(Halt::Unsupported)
        } else {
            Err(Halt::ImpossibleShape)
        }
    } else if exposed {
        Ok(
            TermView::builtin(DefaultFunction::EqualsInteger).apply(
                TermView::constr_index_exposer(TermView::var(subject_name)),
            ),
        )
    } else {
        Ok(TermView::builtin(DefaultFunction::EqualsInteger).apply(TermView::var(subject_name)))
    }
}

/// A clause of a match by equality.
pub open spec fn clause_step(
    tipo: TypeView,
    subject_name: Seq<char>,
    complex_clause: bool,
    st: SynthState,
) -> Result<SynthState, Halt> {
    if st.stack.len() < 3 {
        Err(Halt::Malformed)
    } else {
        let clause = st.stack.last();
        let body = st.stack.drop_last().last();
        let term = st.stack.drop_last().drop_last().last();
        let rest = st.stack.drop_last().drop_last().drop_last();
        match clause_test_term(tipo, subject_name, false) {
            Err(e) => Err(e),
            Ok(test) => Ok(
                st.with_stack(
                    rest.push(
                        if complex_clause {
                            TermView::bind(
                                other_clauses(),
                                term.delay(),
                                TermView::if_else(
                                    test.apply(clause),
                                    body.delay(),
                                    TermView::var(other_clauses()),
                                ).force(),
                            ).force()
                        } else {
                            TermView::delayed_if_else(test.apply(clause), body, term)
                        },
                    ),
                ),
            ),
        }
    }
}

/// A clause of a match on a list.
pub open spec fn list_clause_step(
    tail_name: Seq<char>,
    next_tail_name: Option<Seq<char>>,
    complex_clause: bool,
    inverse: bool,
    st: SynthState,
) -> Result<SynthState, Halt> {
    if st.stack.len() < 3 {
        Err(Halt::Malformed)
    } else {
        let first = st.stack.drop_last().last();
        let second = st.stack.drop_last().drop_last().last();
        let rest = st.stack.drop_last().drop_last().drop_last();
        let body = if inverse {
            second
        } else {
            first
        };
        let term = if inverse {
            first
        } else {
            second
        };
        let arg = match next_tail_name {
            Some(next) => TermView::bind(
                next,
                TermView::tail_list(TermView::var(tail_name)),
                term,
            ),
            None => term,
        };
        Ok(
            st.with_stack(
                rest.push(
                    if complex_clause {
                        TermView::bind(
                            other_clauses(),
                            arg.delay(),
                            TermView::choose_list(
                                TermView::var(tail_name),
                                body.delay(),
                                TermView::var(other_clauses()),
                            ).force(),
                        )
                    } else {
                        TermView::delayed_choose_list(TermView::var(tail_name), body, arg)
                    },
                ),
            ),
        )
    }
}

/// A test on a nested pattern.
pub open spec fn clause_guard_step(subject_name: Seq<char>, tipo: TypeView, st: SynthState) -> Result<
    SynthState,
    Halt,
> {
    if st.stack.len() < 2 {
        Err(Halt::Malformed)
    } else {
        let condition = st.stack.last();
        let then = st.stack.drop_last().last();
        let rest = st.stack.drop_last().drop_last();
        match clause_test_term(tipo, subject_name, true) {
            Err(e) => Err(e),
            Ok(test) => Ok(
                st.with_stack(
                    rest.push(
                        TermView::if_else(
                            test.apply(condition),
                            then.delay(),
                            TermView::var(other_clauses()),
                        ).force(),
                    ),
                ),
            ),
        }
    }
}

/// The name under which the rest of a field list is bound after the field
/// at a position has been taken.
pub open spec fn field_tail_name(index: nat, id: u64) -> Seq<char> {
    "__tail_"@ + decimal(index) + "_"@ + decimal(id as nat)
}

/// The name under which the fields before position `index` have been
/// dropped: the list of all fields for the first position.
pub open spec fn previous_tail(index: nat, ids: Seq<u64>, fields_name: Seq<char>) -> Seq<char> {
    if index == 0 {
        fields_name
    } else {
        field_tail_name((index - 1) as nat, ids[index - 1])
    }
}

/// Walks down the list of fields from position `index - 1` to the first.
/// At each position the rest of the list is bound; where the next field to
/// expose sits at the position, it is bound too. `next` counts the fields
/// that are still to be exposed: the field at `next - 1` is the one looked
/// for.
pub open spec fn expose_fields(
    fields: Seq<(usize, Seq<char>, TypeView)>,
    next: nat,
    index: nat,
    ids: Seq<u64>,
    fields_name: Seq<char>,
    body: TermView,
) -> TermView
    decreases index,
{
    if index == 0 || index > ids.len() || next > fields.len() {
        body
    } else {
        let position = (index - 1) as nat;
        let previous = TermView::var(previous_tail(position, ids, fields_name));
        let bound = TermView::bind(
            field_tail_name(position, ids[position as int]),
            TermView::tail_list(previous),
            body,
        );
        if next > 0 && fields[next - 1].0 == position {
            expose_fields(
                fields,
                (next - 1) as nat,
                position,
                ids,
                fields_name,
                TermView::bind(
                    fields[next - 1].1,
                    TermView::head_list(previous).from_data(fields[next - 1].2),
                    bound,
                ),
            )
        } else {
            expose_fields(fields, next, position, ids, fields_name, bound)
        }
    }
}

/// Binds fields of the constructor value on top of the stack to names.
pub open spec fn fields_expose_step(
    fields: Seq<(usize, Seq<char>, TypeView)>,
    st: SynthState,
) -> Result<SynthState, Halt> {
    if st.stack.len() < 2 || fields.len() == 0 {
        Err(Halt::Malformed)
    } else {
        let constr_var = st.stack.last();
        let body = st.stack.drop_last().last();
        let rest = st.stack.drop_last().drop_last();
        let highest = fields.last();
        let ids = ids_from(st.next_id, highest.0 as nat);
        let fields_id = advance(st.next_id, highest.0 as nat);
        let fields_name = "__constr_fields_"@ + decimal(fields_id as nat);
        let innermost = TermView::bind(
            highest.1,
            TermView::head_list(
                TermView::var(previous_tail(highest.0 as nat, ids, fields_name)),
            ).from_data(highest.2),
            body,
        );
        Ok(
            SynthState {
                stack: rest.push(
                    TermView::bind(
                        fields_name,
                        TermView::var("__constr_fields_exposer"@).apply(constr_var),
                        expose_fields(
                            fields,
                            (fields.len() - 1) as nat,
                            highest.0 as nat,
                            ids,
                            fields_name,
                            innermost,
                        ),
                    ),
                ),
                next_id: succ(fields_id),
                needs_field_access: true,
            },
        )
    }
}

/// Reads one element of a tuple.
pub open spec fn tuple_index_step(tipo: TypeView, index: usize, st: SynthState) -> Result<
    SynthState,
    Halt,
> {
    if st.stack.len() < 1 {
        Err(Halt::Malformed)
    } else {
        let term = st.stack.last();
        let rest = st.stack.drop_last();
        if tipo.uplc_type() is Pair {
            let position: int = if index == 0 {
                0
            } else {
                1
            };
            if tipo.inner_types().len() <= position {
                Err(Halt::ImpossibleShape)
            } else {
                Ok(
                    st.with_stack(
                        rest.push(
                            (if index == 0 {
                                TermView::fst_pair(term)
                            } else {
                                TermView::snd_pair(term)
                            }).from_data(tipo.inner_types()[position]),
                        ),
                    ),
                )
            }
        } else {
            Ok(
                SynthState {
                    stack: rest.push(
                        TermView::var("__constr_get_field"@).apply(term).apply(
                            TermView::integer(index as int),
                        ),
                    ),
                    needs_field_access: true,
                    ..st
                },
            )
        }
    }
}

/// Binds the elements of the tuple on top of the stack to names.
pub open spec fn tuple_accessor_step(names: Seq<Seq<char>>, tipo: TypeView, st: SynthState) -> Result<
    SynthState,
    Halt,
> {
    if st.stack.len() < 2 {
        Err(Halt::Malformed)
    } else {
        let value = st.stack.last();
        let term = st.stack.drop_last().last();
        let rest = st.stack.drop_last().drop_last();
        let types = tipo.inner_types();
        let tuple_name = "__tuple_"@ + decimal(st.next_id as nat);
        if names.len() == 2 {
            if types.len() < 2 {
                Err(Halt::ImpossibleShape)
            } else {
                Ok(
                    SynthState {
                        stack: rest.push(
                            TermView::bind(
                                tuple_name,
                                value,
                                TermView::bind(
                                    names[0],
                                    TermView::fst_pair(TermView::var(tuple_name)).from_data(
                                        types[0],
                                    ),
                                    TermView::bind(
                                        names[1],
                                        TermView::snd_pair(TermView::var(tuple_name)).from_data(
                                            types[1],
                                        ),
                                        term,
                                    ),
                                ),
                            ),
                        ),
                        next_id: succ(st.next_id),
                        ..st
                    },
                )
            }
        } else if names.len() == 0 {
            Err(Halt::Malformed)
        } else if types.len() == 0 {
            Err(Halt::ImpossibleShape)
        } else {
            let ids = ids_from(succ(st.next_id), names.len());
            match list_access(names.drop_first(), ids, false, 0, term, tipo) {
                Err(e) => Err(e),
                Ok(access) => Ok(
                    SynthState {
                        stack: rest.push(
                            TermView::bind(
                                tuple_name,
                                value,
                                TermView::bind(
                                    names[0],
                                    TermView::head_list(TermView::var(tuple_name)).from_data(
                                        types[0],
                                    ),
                                    access.apply(TermView::tail_list(TermView::var(tuple_name))),
                                ),
                            ),
                        ),
                        next_id: advance(succ(st.next_id), names.len()),
                        ..st
                    },
                ),
            }
        }
    }
}

/// A failure that logs a message first.
pub open spec fn traced_error(label: Seq<char>) -> TermView {
    TermView::builtin(DefaultFunction::Trace).force().apply(TermView::string(label)).apply(
        TermView::Error.delay(),
    ).force()
}

/// `term` with the elements of the tuple that `subject` holds bound to
/// names, from position `from` on, the last outermost.
pub open spec fn tuple_bindings(
    indices: Seq<(usize, Seq<char>)>,
    upto: nat,
    types: Seq<TypeView>,
    subject: Seq<char>,
    term: TermView,
) -> Result<TermView, Halt>
    decreases upto,
{
    if upto == 0 || upto > indices.len() {
        Ok(term)
    } else {
        match tuple_bindings(indices, (upto - 1) as nat, types, subject, term) {
            Err(e) => Err(e),
            Ok(inner) => {
                let (index, name) = indices[upto - 1];
                if index >= types.len() {
                    Err(Halt::ImpossibleShape)
                } else if types.len() == 2 {
                    Ok(
                        TermView::bind(
                            name,
                            (if index == 0 {
                                TermView::fst_pair(TermView::var(subject))
                            } else {
                                TermView::snd_pair(TermView::var(subject))
                            }).from_data(types[index as int]),
                            inner,
                        ),
                    )
                } else {
                    Ok(
                        TermView::bind(
                            name,
                            TermView::head_list(
                                TermView::repeat_tail_list(TermView::var(subject), index as nat),
                            ).from_data(types[index as int]),
                            inner,
                        ),
                    )
                }
            },
        }
    }
}

/// A clause of a match on a tuple.
pub open spec fn tuple_clause_step(
    tipo: TypeView,
    indices: Seq<(usize, Seq<char>)>,
    subject_name: Seq<char>,
    complex_clause: bool,
    st: SynthState,
) -> Result<SynthState, Halt> {
    if st.stack.len() < 1 {
        Err(Halt::Malformed)
    } else {
        match tuple_bindings(
            indices,
            indices.len(),
            tipo.inner_types(),
            subject_name,
            st.stack.last(),
        ) {
            Err(e) => Err(e),
            Ok(term) => if complex_clause {
                if st.stack.len() < 2 {
                    Err(Halt::Malformed)
                } else {
                    Ok(
                        st.with_stack(
                            st.stack.drop_last().drop_last().push(
                                TermView::bind(
                                    other_clauses(),
                                    st.stack.drop_last().last().delay(),
                                    term,
                                ),
                            ),
                        ),
                    )
                }
            } else {
                Ok(st.with_stack(st.stack.drop_last().push(term)))
            },
        }
    }
}

/// The text of an optional label, or the default where there is none.
pub open spec fn label_or(label: Option<Seq<char>>, default: Seq<char>) -> Seq<char> {
    match label {
        Some(l) => l,
        None => default,
    }
}

/// What one instruction makes of the synthesizer's state. The instructions
/// of a program are taken from the last to the first, so that an
/// instruction finds its operands on the stack, the first on top.
#[verifier::opaque]
pub open spec fn synth_step(ir: AirView, st: SynthState, env: SynthEnv) -> Result<SynthState, Halt> {
    match ir {
        AirView::Int { value, .. } => match integer_value(value) {
            Some(v) => st.push(TermView::integer(v)),
            None => Err(Halt::Malformed),
        },
        AirView::String { value, .. } => st.push(TermView::string(value)),
        AirView::ByteArray { bytes, .. } => st.push(TermView::byte_string(bytes)),
        AirView::Var { constructor, name, variant_name, .. } => match var_term(
            constructor,
            name,
            variant_name,
            env,
        ) {
            Ok(t) => st.push(t),
            Err(e) => Err(e),
        },
        AirView::Discard { .. } => st.push(TermView::unit()),
        AirView::List { count, tipo, tail, .. } => list_step(count, tipo, tail, st),
        AirView::ListAccessor { names, tail, tipo, .. } => list_accessor_step(
            names,
            tail,
            tipo,
            st,
        ),
        AirView::ListExpose { tail_head_names, tail, tipo, .. } => list_expose_step(
            tail_head_names,
            tail,
            tipo,
            st,
        ),
        AirView::Fn { params, .. } => st.unary(|body: TermView| lambdas(params, 0, body)),
        AirView::Call { count, .. } => call_step(count, st, env),
        AirView::Builtin { func, tipo, .. } => builtin_step(func, tipo, st),
        AirView::BinOp { name, tipo, .. } => st.binary(
            |left: TermView, right: TermView| binop_term(name, tipo, left, right),
        ),
        AirView::Assignment { name, .. } => st.binary(
            |value: TermView, body: TermView| TermView::bind(name, value, body),
        ),
        AirView::DefineFunc {
            func_name,
            module_name,
            params,
            recursive,
            variant_name,
            ..
        } => st.binary(
            |func_body: TermView, term: TermView|
                define_func_term(
                    definition_name(func_name, module_name, variant_name),
                    params,
                    recursive,
                    func_body,
                    term,
                ),
        ),
        AirView::Lam { name, .. } => st.binary(
            |value: TermView, body: TermView| TermView::bind(name, value, body),
        ),
        AirView::When { subject_name, tipo, .. } => st.binary(
            |subject: TermView, term: TermView| when_term(subject_name, tipo, subject, term),
        ),
        AirView::Clause { tipo, subject_name, complex_clause, .. } => clause_step(
            tipo,
            subject_name,
            complex_clause,
            st,
        ),
        AirView::ListClause {
            tail_name,
            next_tail_name,
            complex_clause,
            inverse,
            ..
        } => list_clause_step(tail_name, next_tail_name, complex_clause, inverse, st),
        AirView::ClauseGuard { subject_name, tipo, .. } => clause_guard_step(
            subject_name,
            tipo,
            st,
        ),
        AirView::Finally { .. } => if st.stack.len() < 1 {
            Err(Halt::Malformed)
        } else {
            Ok(st.with_stack(st.stack.drop_last()))
        },
        AirView::If { .. } => st.ternary(
            |condition: TermView, then: TermView, otherwise: TermView|
                TermView::delayed_if_else(condition, then, otherwise),
        ),
        AirView::RecordAccess { index, tipo, .. } => st.unary(
            |record: TermView|
                TermView::var("__constr_get_field"@).apply(
                    TermView::var("__constr_fields_exposer"@).apply(record),
                ).apply(TermView::integer(index as int)).from_data(tipo),
        ),
        AirView::FieldsExpose { indices, .. } => fields_expose_step(indices, st),
        AirView::Tuple { tipo, count, .. } => tuple_step(tipo, count, st),
        AirView::Todo { label, .. } => st.push(traced_error(label_or(label, "aiken::todo"@))),
        AirView::UnOp { op, .. } => st.unary(|value: TermView| unop_term(op, value)),
        AirView::TupleIndex { tipo, index, .. } => tuple_index_step(tipo, index, st),
        AirView::TupleAccessor { tipo, names, .. } => tuple_accessor_step(names, tipo, st),
        AirView::Trace { text, .. } => st.unary(
            |then: TermView|
                TermView::builtin(DefaultFunction::Trace).force().apply(
                    TermView::string(label_or(text, "aiken::trace"@)),
                ).apply(then),
        ),
        AirView::ErrorTerm { label, .. } => match label {
            Some(l) => st.push(traced_error(l)),
            None => st.push(TermView::Error),
        },
        AirView::TupleClause { tipo, indices, subject_name, complex_clause, .. } => tuple_clause_step(
            tipo,
            indices,
            subject_name,
            complex_clause,
            st,
        ),
    }
}

/// The state after the instructions from position `from` down to the first
/// have been taken, the last instruction first.
pub open spec fn synth_from(
    ir: Seq<AirView>,
    upto: nat,
    st: SynthState,
    env: SynthEnv,
) -> Result<SynthState, Halt>
    decreases upto,
{
    if upto == 0 || upto > ir.len() {
        Ok(st)
    } else {
        match synth_step(ir[upto - 1], st, env) {
            Ok(next) => synth_from(ir, (upto - 1) as nat, next, env),
            Err(e) => Err(e),
        }
    }
}

/// The term that a list of instructions stands for: what is at the bottom
/// of the stack when every instruction has been taken.
pub open spec fn synthesis(ir: Seq<AirView>, st: SynthState, env: SynthEnv) -> Result<
    (TermView, SynthState),
    Halt,
> {
    match synth_from(ir, ir.len(), st, env) {
        Err(e) => Err(e),
        Ok(end) => if end.stack.len() == 0 {
            Err(Halt::Malformed)
        } else {
            Ok((end.stack[0], end))
        },
    }
}

} // verus!
