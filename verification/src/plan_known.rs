use vstd::prelude::*;
use crate::air::AirView;
use crate::ast::TypedFunction;
use crate::builder::{
    common_ancestor,
    lemma_common_ancestor_is_longest,
    lemma_common_ancestor_is_prefix,
    KeyView,
};
use crate::expr::TypedExpr;
use crate::expr_spec::{function_position, lower_expr, LowerEnv, LowerState};
use crate::generate::lowered_program;
use crate::id_gen::succ;
use crate::lower_laws::{
    lemma_lowering_begins_in_scope,
    lemma_lowering_stays_in_scope,
    opens,
    within,
};
use crate::maps::{inserted, lemma_position, lookup, position, shift_removed, swap_removed};
use crate::mono::monomorphize_all;
use crate::plan_laws::{
    found_scopes,
    lemma_define_recurse,
    lemma_lookup_is_entry,
    lemma_monomorphize_all_shape,
    lemma_plan_well_placed,
    lemma_prefix_transitive,
    no_definitions,
    used_function,
    well_placed,
};
use crate::plan_spec::{
    define_recurse,
    defined_here,
    dependency_order,
    generics_for,
    has_key,
    has_zero_arg,
    hoist,
    hoist_at,
    instantiate,
    merge_components,
    merge_scopes,
    plan_definitions,
    prepare,
    process_define,
    process_down,
    process_one,
    process_reference,
    refers_to,
    settle,
    settle_rest,
    settle_zero_arg,
    step_limit,
    visit_functions,
    with_key,
    with_zero_arg,
    Components,
    ComponentsView,
    Found,
    Hoisting,
    PlanState,
    Prepared,
    Registry,
    Scopes,
};
use crate::synth_spec::ZeroArgView;
use crate::tipo::{TypeView, VariantView};

verus! {

/// Whether every instruction stands in the given scope or below it.
pub open spec fn scoped(ir: Seq<AirView>, root: Seq<u64>) -> bool {
    forall|j: int| 0 <= j < ir.len() ==> root.is_prefix_of((#[trigger] ir[j]).scope())
}

/// Whether every scope of the list is the given scope or one below it.
pub open spec fn rooted(scopes: Scopes, root: Seq<u64>) -> bool {
    forall|i: int| 0 <= i < scopes.len() ==> root.is_prefix_of((#[trigger] scopes[i]).1)
}

/// Whether the body of every function stands in the given scope or below.
pub open spec fn bodies_scoped(components: Components, root: Seq<u64>) -> bool {
    forall|i: int| 0 <= i < components.len() ==> scoped((#[trigger] components[i]).1.ir, root)
}

/// Whether the generator knows a function: as defined, or as a function
/// without parameters.
pub open spec fn known(registry: Registry, key: KeyView) -> bool {
    has_key(registry.defined, key) || has_zero_arg(registry.zero_arg, key)
}

/// Whether a function has an entry among the scopes.
pub open spec fn in_entries(entries: Scopes, key: KeyView) -> bool {
    exists|i: int| 0 <= i < entries.len() && (#[trigger] entries[i]).0 == key
}

/// Whether a function is still to be defined, or known already.
pub open spec fn accounted_for(state: Hoisting, key: KeyView) -> bool {
    in_entries(state.scopes, key) || known(state.registry, key)
}

/// Whether the second registry knows every function that the first knows.
pub open spec fn registry_grows(a: Registry, b: Registry) -> bool {
    forall|k: KeyView| #[trigger] known(a, k) ==> known(b, k)
}

/// Every entry after a value was kept for a key is an entry from before,
/// or the key with the value.
proof fn lemma_inserted_entries<T>(entries: Seq<(KeyView, T)>, key: KeyView, value: T)
    ensures
        forall|i: int|
            0 <= i < inserted(entries, key, value).len() ==> #[trigger] inserted(
                entries,
                key,
                value,
            )[i] == (key, value) || (i < entries.len() && inserted(entries, key, value)[i]
                == entries[i]),
{
    lemma_position(entries, key);
}

proof fn lemma_inserted_rooted(scopes: Scopes, key: KeyView, value: Seq<u64>, root: Seq<u64>)
    requires
        rooted(scopes, root),
        root.is_prefix_of(value),
    ensures
        rooted(inserted(scopes, key, value), root),
{
    lemma_inserted_entries(scopes, key, value);
    let after = inserted(scopes, key, value);
    assert forall|i: int| 0 <= i < after.len() implies root.is_prefix_of((#[trigger] after[i]).1) by {
        if after[i] == (key, value) {
        } else {
            assert(after[i] == scopes[i]);
        }
    }
}

proof fn lemma_removed_rooted(scopes: Scopes, key: KeyView, root: Seq<u64>)
    requires
        rooted(scopes, root),
    ensures
        rooted(shift_removed(scopes, key), root),
{
    lemma_position(scopes, key);
    let after = shift_removed(scopes, key);
    match position(scopes, key) {
        None => {},
        Some(p) => {
            assert forall|i: int| 0 <= i < after.len() implies root.is_prefix_of(
                (#[trigger] after[i]).1,
            ) by {
                let from = if i < p {
                    i
                } else {
                    i + 1
                };
                assert(after[i] == scopes[from]);
            }
        },
    }
}

proof fn lemma_swap_removed_rooted(scopes: Scopes, key: KeyView, root: Seq<u64>)
    requires
        rooted(scopes, root),
    ensures
        rooted(swap_removed(scopes, key), root),
{
    lemma_position(scopes, key);
    let after = swap_removed(scopes, key);
    match position(scopes, key) {
        None => {},
        Some(p) => {
            assert forall|i: int| 0 <= i < after.len() implies root.is_prefix_of(
                (#[trigger] after[i]).1,
            ) by {
                if i == p {
                    assert(after[i] == scopes[scopes.len() - 1]);
                } else {
                    assert(after[i] == scopes[i]);
                }
            }
        },
    }
}

proof fn lemma_lookup_rooted(scopes: Scopes, key: KeyView, root: Seq<u64>)
    requires
        rooted(scopes, root),
        lookup(scopes, key).is_some(),
    ensures
        root.is_prefix_of(lookup(scopes, key).unwrap()),
{
    lemma_lookup_is_entry(scopes, key);
    let p = position(scopes, key).unwrap();
    assert(root.is_prefix_of(scopes[p].1));
}

/// The body of a function, lowered in a scope and specialised, stands in
/// that scope or below it.
proof fn lemma_instantiate_scoped(
    function: TypedFunction,
    tipo: TypeView,
    scope: Seq<u64>,
    st: LowerState,
    env: LowerEnv,
    root: Seq<u64>,
)
    requires
        instantiate(function, tipo, scope, st, env) is Ok,
        root.is_prefix_of(scope),
    ensures
        scoped(instantiate(function, tipo, scope, st, env).unwrap().ir, root),
{
    lemma_lowering_stays_in_scope(function.body, scope, st, env);
    let body = lower_expr(function.body, scope, st, env).unwrap();
    let params = tipo.arg_types().unwrap();
    let generics = generics_for(function.arguments@, params, function.arguments@.len()).unwrap();
    lemma_monomorphize_all_shape(body.ir, generics, body.ir.len());
    let out = instantiate(function, tipo, scope, st, env).unwrap().ir;
    assert(out == monomorphize_all(body.ir, generics, body.ir.len()).unwrap().0);
    assert forall|j: int| 0 <= j < out.len() implies root.is_prefix_of((#[trigger] out[j]).scope()) by {
        assert(scope.is_prefix_of(body.ir[j].scope()));
        lemma_prefix_transitive(root, scope, body.ir[j].scope());
    }
}

proof fn lemma_process_reference_rooted(state: PlanState, at: int, env: LowerEnv, root: Seq<u64>)
    requires
        0 <= at < state.ir.len(),
        state.ir[at] is Var,
        process_reference(state, at, env) is Ok,
        scoped(state.ir, root),
        rooted(state.to_define, root),
        rooted(state.scopes, root),
        bodies_scoped(state.components, root),
    ensures
        ({
            let next = process_reference(state, at, env).unwrap();
            &&& next.ir.len() == state.ir.len()
            &&& scoped(next.ir, root)
            &&& rooted(next.to_define, root)
            &&& rooted(next.scopes, root)
            &&& bodies_scoped(next.components, root)
        }),
{
    let next = process_reference(state, at, env).unwrap();
    match state.ir[at] {
        AirView::Var { scope, constructor, .. } => match constructor.variant {
            VariantView::ModuleFn { name, module, builtin: None, .. } => {
                let f = function_position(env.functions, module, name, Seq::empty()).unwrap();
                let instance = instantiate(
                    env.functions[f].1,
                    constructor.tipo,
                    scope,
                    state.st,
                    env,
                ).unwrap();
                let key = KeyView {
                    module_name: module,
                    function_name: name,
                    variant_name: instance.variant_name,
                };
                assert(root.is_prefix_of(state.ir[at].scope()));
                let value = match lookup(state.to_define, key) {
                    Some(previous) => common_ancestor(scope, previous),
                    None => scope,
                };
                assert(next.to_define == inserted(state.to_define, key, value));
                match lookup(state.to_define, key) {
                    Some(previous) => {
                        lemma_lookup_rooted(state.to_define, key, root);
                        lemma_common_ancestor_is_longest(scope, previous, root);
                    },
                    None => {},
                }
                lemma_inserted_rooted(state.to_define, key, value, root);
                assert forall|j: int| 0 <= j < next.ir.len() implies root.is_prefix_of(
                    (#[trigger] next.ir[j]).scope(),
                ) by {
                    if j != at {
                        assert(next.ir[j] == state.ir[j]);
                    }
                }
                if next.components != state.components {
                    lemma_instantiate_scoped(
                        env.functions[f].1,
                        constructor.tipo,
                        scope,
                        state.st,
                        env,
                        root,
                    );
                    let entered = next.components[next.components.len() - 1].1;
                    lemma_position(state.components, key);
                    assert(next.components == state.components.push((key, entered)));
                    assert(entered.ir == instance.ir);
                    assert forall|i: int| 0 <= i < next.components.len() implies scoped(
                        (#[trigger] next.components[i]).1.ir,
                        root,
                    ) by {
                        if i < state.components.len() {
                            assert(next.components[i] == state.components[i]);
                        }
                    }
                }
            },
            _ => {},
        },
        _ => {},
    }
}

proof fn lemma_settle_rooted(
    waiting: Scopes,
    from: nat,
    scope: Seq<u64>,
    to_define: Scopes,
    scopes: Scopes,
    root: Seq<u64>,
)
    requires
        rooted(waiting, root),
        rooted(to_define, root),
        rooted(scopes, root),
        root.is_prefix_of(scope),
    ensures
        rooted(settle(waiting, from, scope, to_define, scopes).0, root),
        rooted(settle(waiting, from, scope, to_define, scopes).1, root),
    decreases waiting.len() - from,
{
    if from < waiting.len() {
        let (key, wanted) = waiting[from as int];
        assert(root.is_prefix_of(waiting[from as int].1));
        if common_ancestor(scope, wanted) == scope {
            match lookup(scopes, key) {
                Some(known) => {
                    lemma_lookup_rooted(scopes, key, root);
                    lemma_common_ancestor_is_longest(known, wanted, root);
                    if common_ancestor(known, wanted) == scope {
                        lemma_removed_rooted(to_define, key, root);
                        lemma_inserted_rooted(scopes, key, scope, root);
                        lemma_settle_rooted(
                            waiting,
                            from + 1,
                            scope,
                            shift_removed(to_define, key),
                            inserted(scopes, key, scope),
                            root,
                        );
                    } else {
                        lemma_inserted_rooted(
                            to_define,
                            key,
                            common_ancestor(known, wanted),
                            root,
                        );
                        lemma_settle_rooted(
                            waiting,
                            from + 1,
                            scope,
                            inserted(to_define, key, common_ancestor(known, wanted)),
                            scopes,
                            root,
                        );
                    }
                },
                None => {
                    lemma_removed_rooted(to_define, key, root);
                    lemma_inserted_rooted(scopes, key, scope, root);
                    lemma_settle_rooted(
                        waiting,
                        from + 1,
                        scope,
                        shift_removed(to_define, key),
                        inserted(scopes, key, scope),
                        root,
                    );
                },
            }
        } else {
            lemma_settle_rooted(waiting, from + 1, scope, to_define, scopes, root);
        }
    }
}

proof fn lemma_process_down_rooted(state: PlanState, upto: nat, env: LowerEnv, root: Seq<u64>)
    requires
        upto <= state.ir.len(),
        process_down(state, upto, env) is Ok,
        scoped(state.ir, root),
        rooted(state.to_define, root),
        rooted(state.scopes, root),
        bodies_scoped(state.components, root),
    ensures
        ({
            let end = process_down(state, upto, env).unwrap();
            &&& scoped(end.ir, root)
            &&& rooted(end.to_define, root)
            &&& rooted(end.scopes, root)
            &&& bodies_scoped(end.components, root)
        }),
    decreases upto,
{
    if upto > 0 {
        let at = upto - 1;
        let next = process_one(state, at, env).unwrap();
        if state.ir[at] is Var {
            lemma_process_reference_rooted(state, at, env, root);
        } else {
            assert(root.is_prefix_of(state.ir[at].scope()));
            lemma_settle_rooted(
                state.to_define,
                0,
                state.ir[at].scope(),
                state.to_define,
                state.scopes,
                root,
            );
        }
        lemma_process_down_rooted(next, (upto - 1) as nat, env, root);
    }
}

proof fn lemma_settle_rest_rooted(waiting: Scopes, from: nat, scopes: Scopes, root: Seq<u64>)
    requires
        settle_rest(waiting, from, scopes) is Ok,
        rooted(waiting, root),
        rooted(scopes, root),
    ensures
        rooted(settle_rest(waiting, from, scopes).unwrap(), root),
    decreases waiting.len() - from,
{
    if from < waiting.len() {
        let (key, wanted) = waiting[from as int];
        assert(root.is_prefix_of(waiting[from as int].1));
        let known = lookup(scopes, key).unwrap();
        lemma_lookup_rooted(scopes, key, root);
        lemma_common_ancestor_is_longest(wanted, known, root);
        lemma_inserted_rooted(scopes, key, common_ancestor(wanted, known), root);
        lemma_settle_rest_rooted(
            waiting,
            from + 1,
            inserted(scopes, key, common_ancestor(wanted, known)),
            root,
        );
    }
}

proof fn lemma_process_define_rooted(ir: Seq<AirView>, st: LowerState, env: LowerEnv, root: Seq<u64>)
    requires
        process_define(ir, Seq::empty(), Seq::empty(), st, env) is Ok,
        scoped(ir, root),
    ensures
        ({
            let state = process_define(ir, Seq::empty(), Seq::empty(), st, env).unwrap();
            &&& scoped(state.ir, root)
            &&& rooted(state.scopes, root)
            &&& bodies_scoped(state.components, root)
        }),
{
    let start = PlanState {
        ir,
        to_define: Seq::empty(),
        components: Seq::empty(),
        scopes: Seq::empty(),
        st,
    };
    lemma_process_down_rooted(start, ir.len(), env, root);
    let end = process_down(start, ir.len(), env).unwrap();
    lemma_settle_rest_rooted(end.to_define, 0, end.scopes, root);
}

proof fn lemma_merge_scopes_rooted(scopes: Scopes, more: Scopes, from: nat, root: Seq<u64>)
    requires
        rooted(scopes, root),
        rooted(more, root),
    ensures
        rooted(merge_scopes(scopes, more, from), root),
    decreases more.len() - from,
{
    if from < more.len() {
        let (key, scope) = more[from as int];
        assert(root.is_prefix_of(more[from as int].1));
        let value = match lookup(scopes, key) {
            Some(known) => common_ancestor(known, scope),
            None => scope,
        };
        match lookup(scopes, key) {
            Some(known) => {
                lemma_lookup_rooted(scopes, key, root);
                lemma_common_ancestor_is_longest(known, scope, root);
            },
            None => {},
        }
        lemma_inserted_rooted(scopes, key, value, root);
        lemma_merge_scopes_rooted(inserted(scopes, key, value), more, from + 1, root);
    }
}

proof fn lemma_inserted_scoped(
    components: Components,
    key: KeyView,
    value: ComponentsView,
    root: Seq<u64>,
)
    requires
        bodies_scoped(components, root),
        scoped(value.ir, root),
    ensures
        bodies_scoped(inserted(components, key, value), root),
{
    lemma_inserted_entries(components, key, value);
    let after = inserted(components, key, value);
    assert forall|i: int| 0 <= i < after.len() implies scoped((#[trigger] after[i]).1.ir, root) by {
        if after[i] == (key, value) {
        } else {
            assert(after[i] == components[i]);
        }
    }
}

proof fn lemma_merge_components_scoped(
    components: Components,
    more: Components,
    from: nat,
    root: Seq<u64>,
)
    requires
        bodies_scoped(components, root),
        bodies_scoped(more, root),
    ensures
        bodies_scoped(merge_components(components, more, from), root),
    decreases more.len() - from,
{
    if from < more.len() {
        if position(components, more[from as int].0).is_some() {
            lemma_merge_components_scoped(components, more, from + 1, root);
        } else {
            assert(scoped(more[from as int].1.ir, root));
            lemma_inserted_scoped(components, more[from as int].0, more[from as int].1, root);
            lemma_merge_components_scoped(
                inserted(components, more[from as int].0, more[from as int].1),
                more,
                from + 1,
                root,
            );
        }
    }
}

/// What a search finds stands in the scope that the instructions stand in:
/// the instructions, the bodies of the functions, and the scopes found for
/// the functions.
proof fn lemma_define_recurse_rooted(
    ir: Seq<AirView>,
    recursion: Seq<KeyView>,
    st: LowerState,
    env: LowerEnv,
    depth: nat,
    root: Seq<u64>,
)
    requires
        define_recurse(ir, Seq::empty(), Seq::empty(), recursion, st, env, depth) is Ok,
        scoped(ir, root),
    ensures
        ({
            let found = define_recurse(
                ir,
                Seq::empty(),
                Seq::empty(),
                recursion,
                st,
                env,
                depth,
            ).unwrap();
            &&& scoped(found.ir, root)
            &&& rooted(found.scopes, root)
            &&& bodies_scoped(found.components, root)
        }),
    decreases depth, 1nat, 0nat,
{
    lemma_process_define_rooted(ir, st, env, root);
    let state = process_define(ir, Seq::empty(), Seq::empty(), st, env).unwrap();
    let start = Found {
        ir: state.ir,
        components: state.components,
        scopes: state.scopes,
        st: state.st,
    };
    lemma_visit_functions_rooted(state.scopes, 0, start, recursion, env, depth, root);
}

proof fn lemma_visit_functions_rooted(
    snapshot: Scopes,
    from: nat,
    found: Found,
    recursion: Seq<KeyView>,
    env: LowerEnv,
    depth: nat,
    root: Seq<u64>,
)
    requires
        visit_functions(snapshot, from, found, recursion, env, depth) is Ok,
        scoped(found.ir, root),
        rooted(found.scopes, root),
        bodies_scoped(found.components, root),
    ensures
        ({
            let r = visit_functions(snapshot, from, found, recursion, env, depth).unwrap();
            &&& scoped(r.ir, root)
            &&& rooted(r.scopes, root)
            &&& bodies_scoped(r.components, root)
        }),
    decreases depth, 0nat, snapshot.len() - from,
{
    if from < snapshot.len() {
        let func = snapshot[from as int].0;
        let c = lookup(found.components, func).unwrap();
        lemma_lookup_is_entry(found.components, func);
        let p = position(found.components, func).unwrap();
        assert(scoped(found.components[p].1.ir, root));
        let refers = refers_to(c.ir, func);
        if refers && has_key(recursion, func) {
            lemma_visit_functions_rooted(snapshot, from + 1, found, recursion, env, depth, root);
        } else {
            let known = if refers {
                with_key(recursion, func)
            } else {
                recursion
            };
            lemma_define_recurse_rooted(c.ir, known, found.st, env, (depth - 1) as nat, root);
            let inner = define_recurse(
                c.ir,
                Seq::empty(),
                Seq::empty(),
                known,
                found.st,
                env,
                (depth - 1) as nat,
            ).unwrap();
            let entry = ComponentsView { ir: inner.ir, ..c };
            lemma_inserted_scoped(found.components, func, entry, root);
            let replaced = inserted(found.components, func, entry);
            lemma_merge_components_scoped(replaced, inner.components, 0, root);
            lemma_merge_scopes_rooted(found.scopes, inner.scopes, 0, root);
            let next = Found {
                ir: found.ir,
                components: merge_components(replaced, inner.components, 0),
                scopes: merge_scopes(found.scopes, inner.scopes, 0),
                st: inner.st,
            };
            lemma_visit_functions_rooted(snapshot, from + 1, next, known, env, depth, root);
        }
    }
}

/// A scope that starts another is their common ancestor.
proof fn lemma_common_ancestor_of_prefix(inner: Seq<u64>, outer: Seq<u64>)
    requires
        outer.is_prefix_of(inner),
    ensures
        common_ancestor(inner, outer) == outer,
{
    assert(outer.is_prefix_of(outer));
    lemma_common_ancestor_is_longest(inner, outer, outer);
    lemma_common_ancestor_is_prefix(inner, outer);
    let c = common_ancestor(inner, outer);
    assert(c =~= outer);
}

/// A key that is added is among the keys, and so is every key that was.
proof fn lemma_with_key(keys: Seq<KeyView>, added: KeyView)
    ensures
        has_key(with_key(keys, added), added),
        forall|k: KeyView| #[trigger] has_key(keys, k) ==> has_key(with_key(keys, added), k),
{
    let after = with_key(keys, added);
    if has_key(keys, added) {
    } else {
        assert(after == keys.push(added));
        assert(after[keys.len() as int] == added);
        assert forall|k: KeyView| #[trigger] has_key(keys, k) implies has_key(after, k) by {
            let i = choose|i: int| 0 <= i < keys.len() && keys[i] == k;
            assert(after[i] == k);
        }
    }
}

/// A function without parameters that is entered is known, and so is every
/// one that was.
proof fn lemma_with_zero_arg(functions: Seq<ZeroArgView>, key: KeyView, ir: Seq<AirView>)
    ensures
        has_zero_arg(with_zero_arg(functions, key, ir), key),
        forall|k: KeyView| #[trigger]
            has_zero_arg(functions, k) ==> has_zero_arg(with_zero_arg(functions, key, ir), k),
{
    let after = with_zero_arg(functions, key, ir);
    if exists|i: int| 0 <= i < functions.len() && (#[trigger] functions[i]).key == key {
        let some = choose|i: int| 0 <= i < functions.len() && (#[trigger] functions[i]).key == key;
        lemma_first_of_key(functions, key, some);
        let at = choose|i: int|
            0 <= i < functions.len() && (#[trigger] functions[i]).key == key && forall|j: int|
                0 <= j < i ==> (#[trigger] functions[j]).key != key;
        assert(after == functions.update(at, ZeroArgView { key, ir, value: None }));
        assert(after[at].key == key);
        assert forall|k: KeyView| #[trigger] has_zero_arg(functions, k) implies has_zero_arg(
            after,
            k,
        ) by {
            let i = choose|i: int| 0 <= i < functions.len() && (#[trigger] functions[i]).key == k;
            assert(after[i].key == k);
        }
    } else {
        assert(after == functions.push(ZeroArgView { key, ir, value: None }));
        assert(after[functions.len() as int].key == key);
        assert forall|k: KeyView| #[trigger] has_zero_arg(functions, k) implies has_zero_arg(
            after,
            k,
        ) by {
            let i = choose|i: int| 0 <= i < functions.len() && (#[trigger] functions[i]).key == k;
            assert(after[i].key == k);
        }
    }
}

/// Where a key occurs, it occurs somewhere first.
proof fn lemma_first_of_key(functions: Seq<ZeroArgView>, key: KeyView, at: int)
    requires
        0 <= at < functions.len(),
        functions[at].key == key,
    ensures
        exists|i: int|
            0 <= i < functions.len() && (#[trigger] functions[i]).key == key && forall|j: int|
                0 <= j < i ==> (#[trigger] functions[j]).key != key,
    decreases at,
{
    if exists|j: int| 0 <= j < at && (#[trigger] functions[j]).key == key {
        let j = choose|j: int| 0 <= j < at && (#[trigger] functions[j]).key == key;
        lemma_first_of_key(functions, key, j);
    } else {
        assert(functions[at].key == key && forall|j: int|
            0 <= j < at ==> (#[trigger] functions[j]).key != key);
    }
}

/// Forgetting a function leaves the entry of every other function.
proof fn lemma_swap_removed_keeps(entries: Scopes, key: KeyView, other: KeyView)
    requires
        other != key,
        in_entries(entries, other),
    ensures
        in_entries(swap_removed(entries, key), other),
{
    lemma_position(entries, key);
    let after = swap_removed(entries, key);
    let i = choose|i: int| 0 <= i < entries.len() && (#[trigger] entries[i]).0 == other;
    match position(entries, key) {
        None => {},
        Some(p) => {
            if i < entries.len() - 1 {
                assert(after[i] == entries[i]);
            } else {
                assert(after[p] == entries[i]);
            }
        },
    }
}

/// The definitions put in front of one instruction: the generator goes on
/// knowing what it knew, every function stays accounted for, and where the
/// scope of the instruction encloses the scope of every candidate, every
/// candidate is known afterwards.
proof fn lemma_hoist_at_known(
    candidates: Scopes,
    from: nat,
    at: int,
    scope: Seq<u64>,
    registry: Registry,
    components: Components,
    in_front: Seq<(KeyView, Seq<AirView>)>,
    state: Hoisting,
    root: Seq<u64>,
)
    requires
        hoist_at(candidates, from, at, scope, registry, components, in_front, state) is Ok,
        registry_grows(registry, state.registry),
        rooted(state.scopes, root),
    ensures
        ({
            let r = hoist_at(
                candidates,
                from,
                at,
                scope,
                registry,
                components,
                in_front,
                state,
            ).unwrap();
            &&& registry_grows(state.registry, r.registry)
            &&& rooted(r.scopes, root)
            &&& forall|k: KeyView| #[trigger] accounted_for(state, k) ==> accounted_for(r, k)
            &&& (forall|i: int|
                from <= i < candidates.len() ==> scope.is_prefix_of((#[trigger] candidates[i]).1))
                ==> forall|i: int|
                from <= i < candidates.len() ==> known(r.registry, (#[trigger] candidates[i]).0)
        }),
    decreases candidates.len() - from,
{
    let r = hoist_at(candidates, from, at, scope, registry, components, in_front, state).unwrap();
    if from >= candidates.len() {
    } else if !defined_here(candidates[from as int], scope, registry) {
        lemma_hoist_at_known(
            candidates,
            from + 1,
            at,
            scope,
            registry,
            components,
            in_front,
            state,
            root,
        );
        if forall|i: int|
            from <= i < candidates.len() ==> scope.is_prefix_of((#[trigger] candidates[i]).1) {
            assert(scope.is_prefix_of(candidates[from as int].1));
            lemma_common_ancestor_of_prefix(candidates[from as int].1, scope);
            assert(known(registry, candidates[from as int].0));
            assert(known(state.registry, candidates[from as int].0));
            assert(known(r.registry, candidates[from as int].0));
        }
    } else {
        let (key, func_scope) = candidates[from as int];
        let front = lookup(in_front, key).unwrap();
        let c = lookup(components, key).unwrap();
        let remaining = swap_removed(state.scopes, key);
        let defined = with_key(state.registry.defined, key);
        lemma_swap_removed_rooted(state.scopes, key, root);
        lemma_with_key(state.registry.defined, key);
        let next = if c.args.len() > 0 {
            Hoisting {
                ir: state.ir.take(at) + (front + seq![
                    crate::plan_spec::define_func(key, c, func_scope),
                ] + crate::plan_spec::recursion_ir(key, c).unwrap()) + state.ir.skip(at),
                scopes: remaining,
                registry: Registry { defined, ..state.registry },
            }
        } else {
            Hoisting {
                ir: state.ir,
                scopes: remaining,
                registry: Registry {
                    defined,
                    zero_arg: with_zero_arg(state.registry.zero_arg, key, front + c.ir),
                },
            }
        };
        lemma_with_zero_arg(state.registry.zero_arg, key, front + c.ir);
        assert(r == hoist_at(
            candidates,
            from + 1,
            at,
            scope,
            registry,
            components,
            in_front,
            next,
        ).unwrap());
        assert forall|k: KeyView| #[trigger] known(state.registry, k) implies known(
            next.registry,
            k,
        ) by {
            if has_key(state.registry.defined, k) {
                assert(has_key(defined, k));
            } else {
                assert(has_zero_arg(state.registry.zero_arg, k));
            }
        }
        assert(known(next.registry, key));
        assert forall|k: KeyView| #[trigger] known(registry, k) implies known(next.registry, k) by {
            assert(known(state.registry, k));
        }
        assert forall|k: KeyView| #[trigger] accounted_for(state, k) implies accounted_for(
            next,
            k,
        ) by {
            if k == key {
            } else if in_entries(state.scopes, k) {
                lemma_swap_removed_keeps(state.scopes, key, k);
            } else {
                assert(known(state.registry, k));
            }
        }
        lemma_hoist_at_known(
            candidates,
            from + 1,
            at,
            scope,
            registry,
            components,
            in_front,
            next,
            root,
        );
        assert forall|k: KeyView| #[trigger] known(state.registry, k) implies known(
            r.registry,
            k,
        ) by {
            assert(known(next.registry, k));
        }
        assert forall|k: KeyView| #[trigger] accounted_for(state, k) implies accounted_for(r, k) by {
            assert(accounted_for(next, k));
        }
        assert(known(r.registry, key));
    }
}

/// When the definitions have been hoisted, down to the first instruction,
/// whose scope encloses every scope found, every function that was
/// accounted for is known.
proof fn lemma_hoist_known(
    original: Seq<AirView>,
    upto: nat,
    components: Components,
    in_front: Seq<(KeyView, Seq<AirView>)>,
    state: Hoisting,
    root: Seq<u64>,
)
    requires
        hoist(original, upto, components, in_front, state) is Ok,
        0 < upto <= original.len(),
        original[0].scope() == root,
        rooted(state.scopes, root),
    ensures
        forall|k: KeyView| #[trigger]
            accounted_for(state, k) ==> known(
                hoist(original, upto, components, in_front, state).unwrap().registry,
                k,
            ),
    decreases upto,
{
    let scope = original[upto - 1].scope();
    lemma_hoist_at_known(
        state.scopes,
        0,
        upto - 1,
        scope,
        state.registry,
        components,
        in_front,
        state,
        root,
    );
    let next = hoist_at(
        state.scopes,
        0,
        upto - 1,
        scope,
        state.registry,
        components,
        in_front,
        state,
    ).unwrap();
    let r = hoist(original, upto, components, in_front, state).unwrap();
    if upto == 1 {
        assert(r == next);
        assert forall|i: int| 0 <= i < state.scopes.len() implies scope.is_prefix_of(
            (#[trigger] state.scopes[i]).1,
        ) by {}
        assert forall|k: KeyView| #[trigger] accounted_for(state, k) implies known(
            r.registry,
            k,
        ) by {
            if in_entries(state.scopes, k) {
                let i = choose|i: int|
                    0 <= i < state.scopes.len() && (#[trigger] state.scopes[i]).0 == k;
                assert(known(next.registry, state.scopes[i].0));
            } else {
                assert(known(state.registry, k));
            }
        }
    } else {
        lemma_hoist_known(original, (upto - 1) as nat, components, in_front, next, root);
        assert forall|k: KeyView| #[trigger] accounted_for(state, k) implies known(
            r.registry,
            k,
        ) by {
            assert(accounted_for(next, k));
        }
    }
}

/// No reference of a planned program is left without its function: every
/// function that the program uses is known to the generator afterwards, as
/// a function that is defined or as a function without parameters. It
/// holds of instructions that start at their root, as the lowering gives
/// them: the first stands in a scope that encloses the scopes of all, and
/// none defines a function.
pub proof fn lemma_used_functions_are_known(
    ir: Seq<AirView>,
    registry: Registry,
    st: LowerState,
    env: LowerEnv,
    j: int,
)
    requires
        ir.len() > 0 ==> within(ir, ir[0].scope()),
        plan_definitions(ir, registry, st, env) is Ok,
        0 <= j < plan_definitions(ir, registry, st, env).unwrap().ir.len(),
        used_function(plan_definitions(ir, registry, st, env).unwrap().ir[j]).is_some(),
    ensures
        known(
            plan_definitions(ir, registry, st, env).unwrap().registry,
            used_function(plan_definitions(ir, registry, st, env).unwrap().ir[j]).unwrap(),
        ),
{
    let planned = plan_definitions(ir, registry, st, env).unwrap();
    let found = define_recurse(
        ir,
        Seq::empty(),
        Seq::empty(),
        Seq::empty(),
        st,
        env,
        step_limit(),
    ).unwrap();
    let scopes = found.scopes;
    assert(scopes == found_scopes(ir, st, env));
    let order = dependency_order(
        crate::plan_spec::keys_of(found.components),
        Seq::empty(),
        found.components,
        step_limit(),
    ).unwrap();
    let begin = Prepared {
        registry,
        in_front: Seq::empty(),
        for_zero_arg: Seq::empty(),
        to_define: Seq::empty(),
    };
    let p = prepare(order, order.len(), found.components, scopes, begin).unwrap();
    let start = Hoisting {
        ir: found.ir,
        scopes,
        registry: Registry {
            defined: settle_zero_arg(
                p.registry.defined,
                p.for_zero_arg,
                p.to_define,
                p.for_zero_arg.len(),
            ),
            ..p.registry
        },
    };
    let end = hoist(found.ir, found.ir.len(), found.components, p.in_front, start).unwrap();
    assert(planned.ir == end.ir && planned.registry == end.registry);
    lemma_define_recurse(ir, Seq::empty(), st, env, step_limit());
    if ir.len() == 0 {
        assert(found.ir.len() == 0);
        assert(end == start);
    } else {
        let root = ir[0].scope();
        assert(no_definitions(ir));
        assert(scoped(ir, root));
        lemma_define_recurse_rooted(ir, Seq::empty(), st, env, step_limit(), root);
        lemma_plan_well_placed(ir, registry, st, env);
        let key = used_function(planned.ir[j]).unwrap();
        assert(well_placed(planned.ir[j], scopes));
        assert(crate::plan_laws::defined_function(planned.ir[j]).is_none());
        assert(lookup(scopes, key).is_some());
        lemma_lookup_is_entry(scopes, key);
        assert(scopes[position(scopes, key).unwrap()].0 == key);
        assert(in_entries(scopes, key));
        assert(accounted_for(start, key));
        assert(found.ir[0].scope() == ir[0].scope());
        lemma_hoist_known(found.ir, found.ir.len(), found.components, p.in_front, start, root);
    }
}

/// No reference of the program that a body is lowered to is left without
/// its function: every function that the program uses is known to the
/// generator afterwards, as a function that is defined or as a function
/// without parameters. It holds where the first instruction of the body
/// stands in the root scope.
pub proof fn lemma_program_functions_are_known(
    body: TypedExpr,
    registry: Registry,
    st: LowerState,
    env: LowerEnv,
    j: int,
)
    requires
        lowered_program(body, registry, st, env) is Ok,
        ({
            let lowered = lower_expr(
                body,
                seq![st.next_id],
                LowerState { next_id: succ(st.next_id), ..st },
                env,
            ).unwrap().ir;
            lowered.len() > 0 ==> lowered[0].scope() == seq![st.next_id]
        }),
        0 <= j < lowered_program(body, registry, st, env).unwrap().ir.len(),
        used_function(lowered_program(body, registry, st, env).unwrap().ir[j]).is_some(),
    ensures
        known(
            lowered_program(body, registry, st, env).unwrap().registry,
            used_function(lowered_program(body, registry, st, env).unwrap().ir[j]).unwrap(),
        ),
{
    let root = seq![st.next_id];
    let start = LowerState { next_id: succ(st.next_id), ..st };
    lemma_lowering_stays_in_scope(body, root, start, env);
    let lowered = lower_expr(body, root, start, env).unwrap();
    lemma_used_functions_are_known(lowered.ir, registry, lowered.st, env, j);
}

/// The same of a body whose lowering begins with an instruction of its
/// own: no reference of its program is left without its function.
pub proof fn lemma_opening_program_functions_are_known(
    body: TypedExpr,
    registry: Registry,
    st: LowerState,
    env: LowerEnv,
    j: int,
)
    requires
        lowered_program(body, registry, st, env) is Ok,
        opens(body),
        0 <= j < lowered_program(body, registry, st, env).unwrap().ir.len(),
        used_function(lowered_program(body, registry, st, env).unwrap().ir[j]).is_some(),
    ensures
        known(
            lowered_program(body, registry, st, env).unwrap().registry,
            used_function(lowered_program(body, registry, st, env).unwrap().ir[j]).unwrap(),
        ),
{
    lemma_lowering_begins_in_scope(
        body,
        seq![st.next_id],
        LowerState { next_id: succ(st.next_id), ..st },
        env,
    );
    lemma_program_functions_are_known(body, registry, st, env, j);
}

} // verus!
