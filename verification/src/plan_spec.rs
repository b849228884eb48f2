use vstd::prelude::*;
use crate::air::AirView;
use crate::ast::{ArgName, TypedArg, TypedFunction};
use crate::builder::{common_ancestor, KeyView};
use crate::error::Halt;
use crate::expr_spec::{function_position, lower_expr, LowerEnv, LowerState};
use crate::maps::{inserted, lookup, position, shift_removed, swap_removed};
use crate::mono::{generics_of, monomorphized};
use crate::synth_spec::ZeroArgView;
use crate::tipo::{TypeView, ValueConstructorView, VariantView};

verus! {

/// What is known of a function that the program needs: the instructions of
/// its body, the functions that the body refers to, the names of its
/// parameters, and whether it calls itself.
pub ghost struct ComponentsView {
    pub ir: Seq<AirView>,
    pub dependencies: Seq<KeyView>,
    pub args: Seq<Seq<char>>,
    pub recursive: bool,
}

/// The functions that are needed, each with what is known of it.
pub type Components = Seq<(KeyView, ComponentsView)>;

/// For each function, a scope.
pub type Scopes = Seq<(KeyView, Seq<u64>)>;

/// The most steps that putting the dependencies in order may take, and the
/// deepest that the search for functions may go. A program that needs more
/// has functions that depend on each other in a circle.
pub open spec fn step_limit() -> nat {
    0xffff_ffff
}

/// Whether a key occurs among the keys.
pub open spec fn has_key(keys: Seq<KeyView>, key: KeyView) -> bool {
    exists|i: int| 0 <= i < keys.len() && keys[i] == key
}

/// The keys with one more, behind the others, unless it is among them.
pub open spec fn with_key(keys: Seq<KeyView>, key: KeyView) -> Seq<KeyView> {
    if has_key(keys, key) {
        keys
    } else {
        keys.push(key)
    }
}

/// The first `upto` keys without the given one, in their order.
pub open spec fn without_key(keys: Seq<KeyView>, key: KeyView, upto: nat) -> Seq<KeyView>
    decreases upto,
{
    if upto == 0 || upto > keys.len() {
        Seq::empty()
    } else {
        let head = without_key(keys, key, (upto - 1) as nat);
        if keys[upto - 1] == key {
            head
        } else {
            head.push(keys[upto - 1])
        }
    }
}

/// The key that a reference to a function of a module stands for.
pub open spec fn reference_key(ir: AirView) -> Option<KeyView> {
    match ir {
        AirView::Var {
            constructor: ValueConstructorView {
                variant: VariantView::ModuleFn { name, module, .. },
                ..
            },
            variant_name,
            ..
        } => Some(KeyView { module_name: module, function_name: name, variant_name }),
        _ => None,
    }
}

/// The instructions of a function that calls itself, rewired so that every
/// call of the function passes the function itself as a further argument:
/// the call takes one argument more, and a reference to the function stands
/// in front of the reference that is called. The instructions are taken
/// from position `upto - 1` down to the first.
pub open spec fn rewired(ir: Seq<AirView>, key: KeyView, upto: nat) -> Result<Seq<AirView>, Halt>
    decreases upto,
{
    if upto == 0 || upto > ir.len() {
        Ok(ir)
    } else if reference_key(ir[upto - 1]) == Some(key) {
        if upto == 1 {
            Err(Halt::ImpossibleShape)
        } else {
            match ir[upto - 2] {
                AirView::Call { scope, count } => if count == usize::MAX {
                    Err(Halt::Malformed)
                } else {
                    rewired(
                        ir.update(upto - 2, AirView::Call { scope, count: (count + 1) as usize }).insert(
                            upto - 1,
                            match ir[upto - 1] {
                                AirView::Var { scope, constructor, variant_name, .. } => AirView::Var {
                                    scope,
                                    constructor,
                                    name: key.function_name,
                                    variant_name,
                                },
                                other => other,
                            },
                        ),
                        key,
                        (upto - 1) as nat,
                    )
                },
                _ => Err(Halt::ImpossibleShape),
            }
        }
    } else {
        rewired(ir, key, (upto - 1) as nat)
    }
}

/// The instructions of the body of a function as they are put into the
/// program.
pub open spec fn recursion_ir(key: KeyView, components: ComponentsView) -> Result<
    Seq<AirView>,
    Halt,
> {
    if components.recursive {
        rewired(components.ir, key, components.ir.len())
    } else {
        Ok(components.ir)
    }
}

/// The functions in the order in which they are dealt with. `stack` holds
/// those that are still to be placed, the next one last; `order` those that
/// are placed. A function that is placed again moves to the end, and the
/// functions that it depends on are placed after it.
pub open spec fn dependency_order(
    stack: Seq<KeyView>,
    order: Seq<(KeyView, ())>,
    components: Components,
    fuel: nat,
) -> Result<Seq<(KeyView, ())>, Halt>
    decreases fuel,
{
    if stack.len() == 0 {
        Ok(order)
    } else if fuel == 0 {
        Err(Halt::Unsupported)
    } else {
        match lookup(components, stack.last()) {
            None => Err(Halt::Missing),
            Some(c) => dependency_order(
                stack.drop_last() + c.dependencies,
                inserted(shift_removed(order, stack.last()), stack.last(), ()),
                components,
                (fuel - 1) as nat,
            ),
        }
    }
}

/// The instruction that defines a function in a scope.
pub open spec fn define_func(key: KeyView, components: ComponentsView, scope: Seq<u64>) -> AirView {
    AirView::DefineFunc {
        scope,
        func_name: key.function_name,
        module_name: key.module_name,
        params: components.args,
        recursive: components.recursive,
        variant_name: key.variant_name,
    }
}

/// What the placing of the dependencies of one function keeps track of: the
/// definitions placed in front of the function, the functions that count as
/// defined, and those that are to be defined in the program itself.
pub ghost struct Placing {
    pub ir: Seq<AirView>,
    pub defined: Seq<KeyView>,
    pub to_define: Seq<KeyView>,
}

/// The first `upto` dependencies placed. A dependency whose scope lies
/// within the scope of the function is defined in front of the function, in
/// the scope of the function, and counts as defined from then on; one whose
/// scope does not is left to be defined in the program itself. For a
/// function without parameters every dependency is defined in front of it.
pub open spec fn place_dependencies(
    order: Seq<(KeyView, ())>,
    upto: nat,
    zero_arg: bool,
    func_scope: Seq<u64>,
    components: Components,
    scopes: Scopes,
    start: Placing,
) -> Result<Placing, Halt>
    decreases upto,
{
    if upto == 0 || upto > order.len() {
        Ok(start)
    } else {
        match place_dependencies(
            order,
            (upto - 1) as nat,
            zero_arg,
            func_scope,
            components,
            scopes,
            start,
        ) {
            Err(e) => Err(e),
            Ok(p) => {
                let dependency = order[upto - 1].0;
                if has_key(p.defined, dependency) {
                    Ok(p)
                } else {
                    match lookup(components, dependency) {
                        None => Ok(p),
                        Some(c) => match lookup(scopes, dependency) {
                            None => Err(Halt::Missing),
                            Some(dep_scope) => {
                                let encloses = common_ancestor(dep_scope, func_scope) == func_scope;
                                if encloses || zero_arg {
                                    if c.args.len() > 0 {
                                        match recursion_ir(dependency, c) {
                                            Err(e) => Err(e),
                                            Ok(body) => Ok(
                                                Placing {
                                                    ir: seq![define_func(dependency, c, func_scope)]
                                                        + body + p.ir,
                                                    defined: if encloses {
                                                        with_key(p.defined, dependency)
                                                    } else {
                                                        p.defined
                                                    },
                                                    to_define: p.to_define,
                                                },
                                            ),
                                        }
                                    } else {
                                        Ok(p)
                                    }
                                } else {
                                    Ok(Placing { to_define: with_key(p.to_define, dependency), ..p })
                                }
                            },
                        },
                    }
                }
            },
        }
    }
}

/// The definitions that stand in front of a function: those of the functions
/// that it depends on, directly or not, as far as they are not defined
/// elsewhere.
pub open spec fn function_dependencies(
    function: ComponentsView,
    func_scope: Seq<u64>,
    components: Components,
    scopes: Scopes,
    defined: Seq<KeyView>,
    to_define: Seq<KeyView>,
) -> Result<Placing, Halt> {
    match dependency_order(function.dependencies, Seq::empty(), components, step_limit()) {
        Err(e) => Err(e),
        Ok(order) => place_dependencies(
            order,
            order.len(),
            function.args.len() == 0,
            func_scope,
            components,
            scopes,
            Placing { ir: Seq::empty(), defined, to_define },
        ),
    }
}

/// The names under which the parameters of a function are bound in its
/// definition: the name for a plain named parameter, `_` for every other.
pub open spec fn definition_parameters(args: Seq<TypedArg>) -> Seq<Seq<char>> {
    Seq::new(
        args.len(),
        |i: int|
            match args[i].arg_name {
                ArgName::Named { name, .. } => name@,
                _ => seq!['_'],
            },
    )
}

/// The assignments of concrete types to the generic variables of the first
/// `upto` parameters of a function, given the types that it is called with.
pub open spec fn generics_for(args: Seq<TypedArg>, params: Seq<TypeView>, upto: nat) -> Result<
    Seq<(u64, TypeView)>,
    Halt,
>
    decreases upto,
{
    if upto == 0 || upto > args.len() {
        Ok(Seq::empty())
    } else {
        match generics_for(args, params, (upto - 1) as nat) {
            Err(e) => Err(e),
            Ok(head) => if args[upto - 1].tipo@.is_generic() {
                if upto > params.len() {
                    Err(Halt::ImpossibleShape)
                } else {
                    Ok(head + generics_of(args[upto - 1].tipo@, params[upto - 1]))
                }
            } else {
                Ok(head)
            },
        }
    }
}

/// The body of a function, lowered in a scope and specialised to the type
/// it is used at: the name of the variant, the instructions, and the state
/// of the lowering afterwards.
pub ghost struct Instance {
    pub variant_name: Seq<char>,
    pub ir: Seq<AirView>,
    pub st: LowerState,
}

/// Lowers and specialises the body of a function.
pub open spec fn instantiate(
    function: TypedFunction,
    tipo: TypeView,
    scope: Seq<u64>,
    st: LowerState,
    env: LowerEnv,
) -> Result<Instance, Halt> {
    match lower_expr(function.body, scope, st, env) {
        Err(e) => Err(e),
        Ok(body) => match tipo.arg_types() {
            None => Err(Halt::ImpossibleShape),
            Some(params) => match generics_for(function.arguments@, params, function.arguments@.len()) {
                Err(e) => Err(e),
                Ok(generics) => match monomorphized(body.ir, generics, tipo) {
                    Err(e) => Err(e),
                    Ok((variant_name, ir)) => Ok(Instance { variant_name, ir, st: body.st }),
                },
            },
        },
    }
}

/// What the search for the functions that a body calls keeps track of.
pub ghost struct Calls {
    pub keys: Seq<KeyView>,
    pub st: LowerState,
}

/// The function that a reference inside the body of `key` calls. A
/// reference to `key` itself is told by its name and the variant of `key`;
/// a reference to another function of function type is specialised to find
/// its variant; every other reference stands for the function as written.
pub open spec fn called_function(
    ir: AirView,
    key: KeyView,
    scope: Seq<u64>,
    st: LowerState,
    env: LowerEnv,
) -> Result<Option<(KeyView, LowerState)>, Halt> {
    match ir {
        AirView::Var {
            constructor: ValueConstructorView {
                variant: VariantView::ModuleFn { name, module, .. },
                tipo,
                ..
            },
            ..
        } => {
            let plain = KeyView { module_name: module, function_name: name, variant_name: Seq::empty() };
            let as_variant = KeyView {
                module_name: module,
                function_name: name,
                variant_name: key.variant_name,
            };
            if key == as_variant {
                Ok(Some((as_variant, st)))
            } else {
                match function_position(env.functions, module, name, Seq::empty()) {
                    Some(f) => if tipo is Fn {
                        match instantiate(env.functions[f].1, tipo, scope, st, env) {
                            Err(e) => Err(e),
                            Ok(instance) => Ok(
                                Some(
                                    (
                                        KeyView {
                                            module_name: module,
                                            function_name: name,
                                            variant_name: instance.variant_name,
                                        },
                                        instance.st,
                                    ),
                                ),
                            ),
                        }
                    } else {
                        Ok(Some((plain, st)))
                    },
                    None => Ok(Some((plain, st))),
                }
            }
        },
        _ => Ok(None),
    }
}

/// The functions that the first `upto` instructions of the body of `key`
/// call, each once, in the order of their first call.
pub open spec fn function_calls(
    ir: Seq<AirView>,
    upto: nat,
    key: KeyView,
    scope: Seq<u64>,
    st: LowerState,
    env: LowerEnv,
) -> Result<Calls, Halt>
    decreases upto,
{
    if upto == 0 || upto > ir.len() {
        Ok(Calls { keys: Seq::empty(), st })
    } else {
        match function_calls(ir, (upto - 1) as nat, key, scope, st, env) {
            Err(e) => Err(e),
            Ok(calls) => match called_function(ir[upto - 1], key, scope, calls.st, env) {
                Err(e) => Err(e),
                Ok(None) => Ok(calls),
                Ok(Some((called, st2))) => Ok(Calls { keys: with_key(calls.keys, called), st: st2 }),
            },
        }
    }
}

/// What the search for the functions of a list of instructions keeps track
/// of: the instructions, in which the references are rewritten; the scopes
/// of the functions that wait for an enclosing instruction; what is known of
/// the functions; the scopes at which the functions are to be defined; and
/// the state of the lowering.
pub ghost struct PlanState {
    pub ir: Seq<AirView>,
    pub to_define: Scopes,
    pub components: Components,
    pub scopes: Scopes,
    pub st: LowerState,
}

/// The reference to a function at a position dealt with: the body of the
/// function is lowered and specialised, the reference gets the name of the
/// variant, the scope of the reference is taken note of, and a function
/// that is met for the first time is entered with its components.
pub open spec fn process_reference(state: PlanState, at: int, env: LowerEnv) -> Result<
    PlanState,
    Halt,
>
    recommends
        0 <= at < state.ir.len(),
{
    match state.ir[at] {
        AirView::Var { scope, constructor, .. } => match constructor.variant {
            VariantView::ModuleFn { name, module, builtin: None, .. } => match function_position(
                env.functions,
                module,
                name,
                Seq::empty(),
            ) {
                None => Err(Halt::Missing),
                Some(f) => match instantiate(
                    env.functions[f].1,
                    constructor.tipo,
                    scope,
                    state.st,
                    env,
                ) {
                    Err(e) => Err(e),
                    Ok(instance) => {
                        let key = KeyView {
                            module_name: module,
                            function_name: name,
                            variant_name: instance.variant_name,
                        };
                        let ir = state.ir.update(
                            at,
                            AirView::Var {
                                scope,
                                constructor,
                                name,
                                variant_name: instance.variant_name,
                            },
                        );
                        match lookup(state.to_define, key) {
                            Some(previous) => Ok(
                                PlanState {
                                    ir,
                                    to_define: inserted(
                                        state.to_define,
                                        key,
                                        common_ancestor(scope, previous),
                                    ),
                                    st: instance.st,
                                    ..state
                                },
                            ),
                            None => if position(state.components, key).is_some() {
                                Ok(
                                    PlanState {
                                        ir,
                                        to_define: inserted(state.to_define, key, scope),
                                        st: instance.st,
                                        ..state
                                    },
                                )
                            } else {
                                match function_calls(
                                    instance.ir,
                                    instance.ir.len(),
                                    key,
                                    scope,
                                    instance.st,
                                    env,
                                ) {
                                    Err(e) => Err(e),
                                    Ok(calls) => Ok(
                                        PlanState {
                                            ir,
                                            to_define: inserted(state.to_define, key, scope),
                                            components: inserted(
                                                state.components,
                                                key,
                                                ComponentsView {
                                                    ir: instance.ir,
                                                    dependencies: without_key(
                                                        calls.keys,
                                                        key,
                                                        calls.keys.len(),
                                                    ),
                                                    args: definition_parameters(
                                                        env.functions[f].1.arguments@,
                                                    ),
                                                    recursive: has_key(calls.keys, key),
                                                },
                                            ),
                                            st: calls.st,
                                            ..state
                                        },
                                    ),
                                }
                            },
                        }
                    },
                },
            },
            _ => Ok(state),
        },
        _ => Ok(state),
    }
}

/// An instruction that is no reference, met on the way up: every function
/// from position `from` on, of those that waited when the instruction was
/// met, whose scope the instruction's scope encloses, is settled at the
/// instruction's scope, unless a scope is known for it that reaches
/// further out; then it waits on with the scope that encloses both.
pub open spec fn settle(
    waiting: Scopes,
    from: nat,
    scope: Seq<u64>,
    to_define: Scopes,
    scopes: Scopes,
) -> (Scopes, Scopes)
    decreases waiting.len() - from,
{
    if from >= waiting.len() {
        (to_define, scopes)
    } else {
        let (key, wanted) = waiting[from as int];
        if common_ancestor(scope, wanted) == scope {
            match lookup(scopes, key) {
                Some(known) => if common_ancestor(known, wanted) == scope {
                    settle(
                        waiting,
                        from + 1,
                        scope,
                        shift_removed(to_define, key),
                        inserted(scopes, key, scope),
                    )
                } else {
                    settle(
                        waiting,
                        from + 1,
                        scope,
                        inserted(to_define, key, common_ancestor(known, wanted)),
                        scopes,
                    )
                },
                None => settle(
                    waiting,
                    from + 1,
                    scope,
                    shift_removed(to_define, key),
                    inserted(scopes, key, scope),
                ),
            }
        } else {
            settle(waiting, from + 1, scope, to_define, scopes)
        }
    }
}

/// One instruction dealt with.
pub open spec fn process_one(state: PlanState, at: int, env: LowerEnv) -> Result<PlanState, Halt>
    recommends
        0 <= at < state.ir.len(),
{
    match state.ir[at] {
        AirView::Var { .. } => process_reference(state, at, env),
        other => {
            let (to_define, scopes) = settle(
                state.to_define,
                0,
                other.scope(),
                state.to_define,
                state.scopes,
            );
            Ok(PlanState { to_define, scopes, ..state })
        },
    }
}

/// The instructions from position `upto - 1` down to the first dealt with.
pub open spec fn process_down(state: PlanState, upto: nat, env: LowerEnv) -> Result<
    PlanState,
    Halt,
>
    decreases upto,
{
    if upto == 0 || upto > state.ir.len() {
        Ok(state)
    } else {
        match process_one(state, upto - 1, env) {
            Err(e) => Err(e),
            Ok(next) => if next.ir.len() != state.ir.len() {
                Err(Halt::Malformed)
            } else {
                process_down(next, (upto - 1) as nat, env)
            },
        }
    }
}

/// The functions that still wait, from position `from` on, settled at the
/// scope that encloses the scope they wait with and the scope known for
/// them.
pub open spec fn settle_rest(waiting: Scopes, from: nat, scopes: Scopes) -> Result<Scopes, Halt>
    decreases waiting.len() - from,
{
    if from >= waiting.len() {
        Ok(scopes)
    } else {
        let (key, wanted) = waiting[from as int];
        match lookup(scopes, key) {
            None => Err(Halt::Missing),
            Some(known) => settle_rest(
                waiting,
                from + 1,
                inserted(scopes, key, common_ancestor(wanted, known)),
            ),
        }
    }
}

/// The functions that a list of instructions refers to, found: every
/// reference is rewritten to name its variant, every function is entered
/// with its components, and for every function the scope is found at which
/// it is to be defined.
pub open spec fn process_define(
    ir: Seq<AirView>,
    components: Components,
    scopes: Scopes,
    st: LowerState,
    env: LowerEnv,
) -> Result<PlanState, Halt> {
    match process_down(
        PlanState { ir, to_define: Seq::empty(), components, scopes, st },
        ir.len(),
        env,
    ) {
        Err(e) => Err(e),
        Ok(state) => match settle_rest(state.to_define, 0, state.scopes) {
            Err(e) => Err(e),
            Ok(scopes) => Ok(PlanState { scopes, ..state }),
        },
    }
}

/// What the search for functions has found.
pub ghost struct Found {
    pub ir: Seq<AirView>,
    pub components: Components,
    pub scopes: Scopes,
    pub st: LowerState,
}

/// Whether one of the instructions refers to the function of the given key.
pub open spec fn refers_to(ir: Seq<AirView>, key: KeyView) -> bool {
    exists|i: int| 0 <= i < ir.len() && reference_key(#[trigger] ir[i]) == Some(key)
}

/// The components with those of `more` from position `from` on added, as
/// far as their functions are not known yet.
pub open spec fn merge_components(components: Components, more: Components, from: nat) -> Components
    decreases more.len() - from,
{
    if from >= more.len() {
        components
    } else if position(components, more[from as int].0).is_some() {
        merge_components(components, more, from + 1)
    } else {
        merge_components(
            inserted(components, more[from as int].0, more[from as int].1),
            more,
            from + 1,
        )
    }
}

/// The scopes with those of `more` from position `from` on merged in: a
/// function that has a scope already gets the scope that encloses both.
pub open spec fn merge_scopes(scopes: Scopes, more: Scopes, from: nat) -> Scopes
    decreases more.len() - from,
{
    if from >= more.len() {
        scopes
    } else {
        let (key, scope) = more[from as int];
        match lookup(scopes, key) {
            Some(known) => merge_scopes(
                inserted(scopes, key, common_ancestor(known, scope)),
                more,
                from + 1,
            ),
            None => merge_scopes(inserted(scopes, key, scope), more, from + 1),
        }
    }
}

/// The functions that a list of instructions refers to, and the functions
/// that those refer to, and so on. `recursion` holds the functions that are
/// known to call themselves: their bodies are not searched again.
pub open spec fn define_recurse(
    ir: Seq<AirView>,
    components: Components,
    scopes: Scopes,
    recursion: Seq<KeyView>,
    st: LowerState,
    env: LowerEnv,
    depth: nat,
) -> Result<Found, Halt>
    decreases depth, 1nat, 0nat,
{
    match process_define(ir, components, scopes, st, env) {
        Err(e) => Err(e),
        Ok(state) => visit_functions(
            state.scopes,
            0,
            Found { ir: state.ir, components: state.components, scopes: state.scopes, st: state.st },
            recursion,
            env,
            depth,
        ),
    }
}

/// The bodies of the functions of `snapshot` from position `from` on
/// searched for the functions that they refer to.
pub open spec fn visit_functions(
    snapshot: Scopes,
    from: nat,
    found: Found,
    recursion: Seq<KeyView>,
    env: LowerEnv,
    depth: nat,
) -> Result<Found, Halt>
    decreases depth, 0nat, snapshot.len() - from,
{
    if from >= snapshot.len() {
        Ok(found)
    } else {
        let func = snapshot[from as int].0;
        match lookup(found.components, func) {
            None => Err(Halt::Missing),
            Some(c) => {
                let refers = refers_to(c.ir, func);
                if refers && has_key(recursion, func) {
                    visit_functions(snapshot, from + 1, found, recursion, env, depth)
                } else if depth == 0 {
                    Err(Halt::Unsupported)
                } else {
                    let known = if refers {
                        with_key(recursion, func)
                    } else {
                        recursion
                    };
                    match define_recurse(
                        c.ir,
                        Seq::empty(),
                        Seq::empty(),
                        known,
                        found.st,
                        env,
                        (depth - 1) as nat,
                    ) {
                        Err(e) => Err(e),
                        Ok(inner) => visit_functions(
                            snapshot,
                            from + 1,
                            Found {
                                ir: found.ir,
                                components: merge_components(
                                    inserted(
                                        found.components,
                                        func,
                                        ComponentsView { ir: inner.ir, ..c },
                                    ),
                                    inner.components,
                                    0,
                                ),
                                scopes: merge_scopes(found.scopes, inner.scopes, 0),
                                st: inner.st,
                            },
                            known,
                            env,
                            depth,
                        ),
                    }
                }
            },
        }
    }
}

/// The functions without parameters with one more, or with new
/// instructions for one that is among them; its value is to be computed
/// anew.
pub open spec fn with_zero_arg(functions: Seq<ZeroArgView>, key: KeyView, ir: Seq<AirView>) -> Seq<
    ZeroArgView,
> {
    if exists|i: int| 0 <= i < functions.len() && (#[trigger] functions[i]).key == key {
        let at = choose|i: int|
            0 <= i < functions.len() && (#[trigger] functions[i]).key == key && forall|j: int|
                0 <= j < i ==> (#[trigger] functions[j]).key != key;
        functions.update(at, ZeroArgView { key, ir, value: None })
    } else {
        functions.push(ZeroArgView { key, ir, value: None })
    }
}

/// Whether a function without parameters of the given key is known.
pub open spec fn has_zero_arg(functions: Seq<ZeroArgView>, key: KeyView) -> bool {
    exists|i: int| 0 <= i < functions.len() && (#[trigger] functions[i]).key == key
}

/// What the generator knows of the functions it has dealt with.
pub ghost struct Registry {
    /// The functions that are defined.
    pub defined: Seq<KeyView>,
    /// The functions without parameters.
    pub zero_arg: Seq<ZeroArgView>,
}

/// What the preparation of the definitions keeps track of.
pub ghost struct Prepared {
    pub registry: Registry,
    /// For each function with parameters, the definitions that stand in
    /// front of it.
    pub in_front: Seq<(KeyView, Seq<AirView>)>,
    /// The functions that were defined in front of a function without
    /// parameters.
    pub for_zero_arg: Seq<KeyView>,
    /// The functions that are to be defined in the program itself.
    pub to_define: Seq<KeyView>,
}

/// The definitions of the first `upto` functions prepared, in the given
/// order: for a function with parameters the definitions that stand in
/// front of it; a function without parameters is entered with all its
/// dependencies in front of its body.
pub open spec fn prepare(
    order: Seq<(KeyView, ())>,
    upto: nat,
    components: Components,
    scopes: Scopes,
    start: Prepared,
) -> Result<Prepared, Halt>
    decreases upto,
{
    if upto == 0 || upto > order.len() {
        Ok(start)
    } else {
        match prepare(order, (upto - 1) as nat, components, scopes, start) {
            Err(e) => Err(e),
            Ok(p) => {
                let func = order[upto - 1].0;
                if has_key(p.registry.defined, func) {
                    Ok(p)
                } else {
                    match lookup(components, func) {
                        None => Err(Halt::Missing),
                        Some(c) => match lookup(scopes, func) {
                            None => Err(Halt::Missing),
                            Some(func_scope) => if c.args.len() > 0 {
                                match function_dependencies(
                                    c,
                                    func_scope,
                                    components,
                                    scopes,
                                    p.registry.defined,
                                    p.to_define,
                                ) {
                                    Err(e) => Err(e),
                                    Ok(placed) => Ok(
                                        Prepared {
                                            registry: Registry {
                                                defined: placed.defined,
                                                ..p.registry
                                            },
                                            in_front: inserted(p.in_front, func, placed.ir),
                                            to_define: placed.to_define,
                                            ..p
                                        },
                                    ),
                                }
                            } else {
                                match function_dependencies(
                                    c,
                                    func_scope,
                                    components,
                                    scopes,
                                    Seq::empty(),
                                    Seq::empty(),
                                ) {
                                    Err(e) => Err(e),
                                    Ok(placed) => Ok(
                                        Prepared {
                                            registry: Registry {
                                                zero_arg: with_zero_arg(
                                                    p.registry.zero_arg,
                                                    func,
                                                    placed.ir + c.ir,
                                                ),
                                                ..p.registry
                                            },
                                            for_zero_arg: with_keys(
                                                p.for_zero_arg,
                                                placed.defined,
                                                placed.defined.len(),
                                            ),
                                            ..p
                                        },
                                    ),
                                }
                            },
                        },
                    }
                }
            },
        }
    }
}

/// The keys with the first `upto` of `more` added, each unless it is among
/// them.
pub open spec fn with_keys(keys: Seq<KeyView>, more: Seq<KeyView>, upto: nat) -> Seq<KeyView>
    decreases upto,
{
    if upto == 0 || upto > more.len() {
        keys
    } else {
        with_key(with_keys(keys, more, (upto - 1) as nat), more[upto - 1])
    }
}

/// The defined functions with the first `upto` of `candidates` added that
/// are not to be defined in the program itself.
pub open spec fn settle_zero_arg(
    defined: Seq<KeyView>,
    candidates: Seq<KeyView>,
    to_define: Seq<KeyView>,
    upto: nat,
) -> Seq<KeyView>
    decreases upto,
{
    if upto == 0 || upto > candidates.len() {
        defined
    } else {
        let head = settle_zero_arg(defined, candidates, to_define, (upto - 1) as nat);
        if has_key(to_define, candidates[upto - 1]) {
            head
        } else {
            with_key(head, candidates[upto - 1])
        }
    }
}

/// What the hoisting of the definitions keeps track of.
pub ghost struct Hoisting {
    pub ir: Seq<AirView>,
    pub scopes: Scopes,
    pub registry: Registry,
}

/// Whether a function is to be defined at an instruction: the scope of the
/// instruction encloses the scope of the function, and the function is
/// neither defined nor one without parameters.
pub open spec fn defined_here(
    entry: (KeyView, Seq<u64>),
    scope: Seq<u64>,
    registry: Registry,
) -> bool {
    common_ancestor(entry.1, scope) == scope && !has_key(registry.defined, entry.0)
        && !has_zero_arg(registry.zero_arg, entry.0)
}

/// The definitions of the functions of `candidates` from position `from`
/// on that are to be defined at the instruction at position `at`, put in
/// front of it. `registry` is what was known when the instruction was
/// reached.
pub open spec fn hoist_at(
    candidates: Scopes,
    from: nat,
    at: int,
    scope: Seq<u64>,
    registry: Registry,
    components: Components,
    in_front: Seq<(KeyView, Seq<AirView>)>,
    state: Hoisting,
) -> Result<Hoisting, Halt>
    decreases candidates.len() - from,
{
    if from >= candidates.len() {
        Ok(state)
    } else if !defined_here(candidates[from as int], scope, registry) {
        hoist_at(candidates, from + 1, at, scope, registry, components, in_front, state)
    } else {
        let (key, func_scope) = candidates[from as int];
        match lookup(in_front, key) {
            None => Err(Halt::Missing),
            Some(front) => match lookup(components, key) {
                None => Err(Halt::Missing),
                Some(c) => {
                    let scopes = swap_removed(state.scopes, key);
                    let defined = with_key(state.registry.defined, key);
                    if c.args.len() > 0 {
                        match recursion_ir(key, c) {
                            Err(e) => Err(e),
                            Ok(body) => if at > state.ir.len() {
                                Err(Halt::Malformed)
                            } else {
                                hoist_at(
                                    candidates,
                                    from + 1,
                                    at,
                                    scope,
                                    registry,
                                    components,
                                    in_front,
                                    Hoisting {
                                        ir: state.ir.take(at) + (front + seq![
                                            define_func(key, c, func_scope),
                                        ] + body) + state.ir.skip(at),
                                        scopes,
                                        registry: Registry { defined, ..state.registry },
                                    },
                                )
                            },
                        }
                    } else {
                        hoist_at(
                            candidates,
                            from + 1,
                            at,
                            scope,
                            registry,
                            components,
                            in_front,
                            Hoisting {
                                ir: state.ir,
                                scopes,
                                registry: Registry {
                                    defined,
                                    zero_arg: with_zero_arg(
                                        state.registry.zero_arg,
                                        key,
                                        front + c.ir,
                                    ),
                                },
                            },
                        )
                    }
                },
            }
        }
    }
}

/// The definitions hoisted into the instructions, from the instruction at
/// position `upto - 1` down to the first. `original` are the instructions
/// before any definition was put in.
pub open spec fn hoist(
    original: Seq<AirView>,
    upto: nat,
    components: Components,
    in_front: Seq<(KeyView, Seq<AirView>)>,
    state: Hoisting,
) -> Result<Hoisting, Halt>
    decreases upto,
{
    if upto == 0 || upto > original.len() {
        Ok(state)
    } else {
        match hoist_at(
            state.scopes,
            0,
            upto - 1,
            original[upto - 1].scope(),
            state.registry,
            components,
            in_front,
            state,
        ) {
            Err(e) => Err(e),
            Ok(next) => hoist(original, (upto - 1) as nat, components, in_front, next),
        }
    }
}

/// The keys of the entries, in their order.
pub open spec fn keys_of<T>(entries: Seq<(KeyView, T)>) -> Seq<KeyView> {
    Seq::new(entries.len(), |i: int| entries[i].0)
}

/// What the planning of the definitions gives: the instructions with every
/// definition in its place, what the generator knows afterwards, and the
/// state of the lowering.
pub ghost struct Planned {
    pub ir: Seq<AirView>,
    pub registry: Registry,
    pub st: LowerState,
}

/// The definitions of the functions that a program needs, planned: the
/// functions are found, put in an order in which a function comes after the
/// functions that depend on it, prepared, and hoisted in front of the last
/// instruction whose scope encloses the scope found for the function, which
/// is the scope that encloses every use.
pub open spec fn plan_definitions(
    ir: Seq<AirView>,
    registry: Registry,
    st: LowerState,
    env: LowerEnv,
) -> Result<Planned, Halt> {
    match define_recurse(ir, Seq::empty(), Seq::empty(), Seq::empty(), st, env, step_limit()) {
        Err(e) => Err(e),
        Ok(found) => match dependency_order(
            keys_of(found.components),
            Seq::empty(),
            found.components,
            step_limit(),
        ) {
            Err(e) => Err(e),
            Ok(order) => match prepare(
                order,
                order.len(),
                found.components,
                found.scopes,
                Prepared {
                    registry,
                    in_front: Seq::empty(),
                    for_zero_arg: Seq::empty(),
                    to_define: Seq::empty(),
                },
            ) {
                Err(e) => Err(e),
                Ok(p) => match hoist(
                    found.ir,
                    found.ir.len(),
                    found.components,
                    p.in_front,
                    Hoisting {
                        ir: found.ir,
                        scopes: found.scopes,
                        registry: Registry {
                            defined: settle_zero_arg(
                                p.registry.defined,
                                p.for_zero_arg,
                                p.to_define,
                                p.for_zero_arg.len(),
                            ),
                            ..p.registry
                        },
                    },
                ) {
                    Err(e) => Err(e),
                    Ok(h) => Ok(Planned { ir: h.ir, registry: h.registry, st: found.st }),
                },
            },
        },
    }
}

} // verus!
