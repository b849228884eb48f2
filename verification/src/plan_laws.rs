use vstd::prelude::*;
use crate::air::AirView;
use crate::builder::{common_ancestor, lemma_common_ancestor_is_prefix, KeyView};
use crate::ast::TypedFunction;
use crate::expr::TypedExpr;
use crate::expr_spec::{function_position, lower_expr, LowerEnv, LowerState};
use crate::generate::lowered_program;
use crate::id_gen::succ;
use crate::lower_laws::lemma_lowering_stays_in_scope;
use crate::map_laws::{
    lemma_inserted_distinct,
    lemma_lookup_at,
    lemma_lookup_inserted,
    lemma_lookup_inserted_other,
    lemma_lookup_removed_other,
    lemma_removed_distinct,
};
use crate::maps::{
    distinct_keys,
    inserted,
    lemma_position,
    lookup,
    position,
    shift_removed,
    swap_removed,
};
use crate::plan_spec::{
    define_recurse,
    has_key,
    instantiate,
    merge_components,
    merge_scopes,
    refers_to,
    visit_functions,
    with_key,
    ComponentsView,
    Found,
    process_define,
    process_down,
    process_one,
    process_reference,
    settle,
    settle_rest,
    Components,
    PlanState,
    Scopes,
};
use crate::mono::{monomorphize_all, monomorphize_one};
use crate::plan_spec::{
    define_func,
    defined_here,
    dependency_order,
    function_dependencies,
    generics_for,
    hoist,
    hoist_at,
    place_dependencies,
    plan_definitions,
    prepare,
    recursion_ir,
    reference_key,
    rewired,
    settle_zero_arg,
    step_limit,
    Hoisting,
    Placing,
    Prepared,
    Registry,
};
use crate::tipo::{TypeView, ValueConstructorView, VariantView};

verus! {

/// The function that an instruction uses: the key that a reference to a
/// function of a module stands for, unless the function is a built-in.
pub open spec fn used_function(ir: AirView) -> Option<KeyView> {
    match ir {
        AirView::Var {
            constructor: ValueConstructorView {
                variant: VariantView::ModuleFn { name, module, builtin: None, .. },
                ..
            },
            variant_name,
            ..
        } => Some(KeyView { module_name: module, function_name: name, variant_name }),
        _ => None,
    }
}

/// Whether the scope kept for a function encloses the given scope.
pub open spec fn encloses_use(scopes: Scopes, key: KeyView, scope: Seq<u64>) -> bool {
    match lookup(scopes, key) {
        Some(s) => s.is_prefix_of(scope),
        None => false,
    }
}

/// Whether the scope with which a function waits, or the scope that is
/// known for it, encloses the given scope.
pub open spec fn covered(waiting: Scopes, scopes: Scopes, key: KeyView, scope: Seq<u64>) -> bool {
    encloses_use(waiting, key, scope) || encloses_use(scopes, key, scope)
}

/// Whether everything that the first two lists of scopes enclose, the
/// second two enclose as well.
pub open spec fn refines(w1: Scopes, s1: Scopes, w2: Scopes, s2: Scopes) -> bool {
    forall|k: KeyView, u: Seq<u64>| #[trigger] covered(w1, s1, k, u) ==> covered(w2, s2, k, u)
}

/// Whether every use of a function by the instructions from position
/// `from` on lies in the scope that is kept for the function.
pub open spec fn uses_covered(ir: Seq<AirView>, from: int, waiting: Scopes, scopes: Scopes) -> bool {
    forall|j: int|
        from <= j < ir.len() ==> match used_function(#[trigger] ir[j]) {
            Some(k) => covered(waiting, scopes, k, ir[j].scope()),
            None => true,
        }
}

/// Whether every use of a function by the instructions lies in the scope
/// that is known for the function.
pub open spec fn accounted(ir: Seq<AirView>, scopes: Scopes) -> bool {
    forall|j: int|
        0 <= j < ir.len() ==> match used_function(#[trigger] ir[j]) {
            Some(k) => encloses_use(scopes, k, ir[j].scope()),
            None => true,
        }
}

/// Whether two lists of instructions are of one shape: as long as each
/// other, with the same scopes, and with definitions of functions at the
/// same positions.
pub open spec fn same_shape(a: Seq<AirView>, b: Seq<AirView>) -> bool {
    &&& a.len() == b.len()
    &&& forall|j: int|
        0 <= j < a.len() ==> (#[trigger] a[j]).scope() == b[j].scope() && (a[j] is DefineFunc
            <==> b[j] is DefineFunc)
}

/// Whether a scope is kept for every function of the components.
pub open spec fn all_present(components: Components, waiting: Scopes, scopes: Scopes) -> bool {
    forall|i: int|
        0 <= i < components.len() ==> lookup(waiting, (#[trigger] components[i]).0).is_some()
            || lookup(scopes, components[i].0).is_some()
}

/// Whether none of the instructions defines a function.
pub open spec fn no_definitions(ir: Seq<AirView>) -> bool {
    forall|j: int| 0 <= j < ir.len() ==> !(#[trigger] ir[j] is DefineFunc)
}

/// Whether no body of a function defines a function.
pub open spec fn plain_components(components: Components) -> bool {
    forall|i: int| 0 <= i < components.len() ==> no_definitions((#[trigger] components[i]).1.ir)
}

proof fn lemma_monomorphize_one_shape(ir: AirView, map: Seq<(u64, TypeView)>)
    requires
        monomorphize_one(ir, map) is Ok,
    ensures
        monomorphize_one(ir, map).unwrap().0.scope() == ir.scope(),
        monomorphize_one(ir, map).unwrap().0 is DefineFunc <==> ir is DefineFunc,
{
}

pub proof fn lemma_monomorphize_all_shape(ir: Seq<AirView>, map: Seq<(u64, TypeView)>, upto: nat)
    requires
        upto <= ir.len(),
        monomorphize_all(ir, map, upto) is Ok,
    ensures
        monomorphize_all(ir, map, upto).unwrap().0.len() == upto,
        forall|j: int|
            0 <= j < upto ==> (#[trigger] monomorphize_all(ir, map, upto).unwrap().0[j]).scope()
                == ir[j].scope() && (monomorphize_all(ir, map, upto).unwrap().0[j] is DefineFunc
                <==> ir[j] is DefineFunc),
    decreases upto,
{
    if upto > 0 {
        lemma_monomorphize_all_shape(ir, map, (upto - 1) as nat);
        lemma_monomorphize_one_shape(ir[upto - 1], map);
        let head = monomorphize_all(ir, map, (upto - 1) as nat).unwrap().0;
        let all = monomorphize_all(ir, map, upto).unwrap().0;
        assert(all == head.push(monomorphize_one(ir[upto - 1], map).unwrap().0));
        assert forall|j: int| 0 <= j < upto implies (#[trigger] all[j]).scope() == ir[j].scope() && (
        all[j] is DefineFunc <==> ir[j] is DefineFunc) by {
            if j < upto - 1 {
                assert(all[j] == head[j]);
            }
        }
    }
}

/// The body of a function, lowered and specialised, defines no function.
proof fn lemma_instantiate_plain(
    function: TypedFunction,
    tipo: TypeView,
    scope: Seq<u64>,
    st: LowerState,
    env: LowerEnv,
)
    requires
        instantiate(function, tipo, scope, st, env) is Ok,
    ensures
        no_definitions(instantiate(function, tipo, scope, st, env).unwrap().ir),
{
    lemma_lowering_stays_in_scope(function.body, scope, st, env);
    let body = lower_expr(function.body, scope, st, env).unwrap();
    let params = tipo.arg_types().unwrap();
    let generics = generics_for(function.arguments@, params, function.arguments@.len()).unwrap();
    lemma_monomorphize_all_shape(body.ir, generics, body.ir.len());
    let out = instantiate(function, tipo, scope, st, env).unwrap().ir;
    assert(out == monomorphize_all(body.ir, generics, body.ir.len()).unwrap().0);
    assert forall|j: int| 0 <= j < out.len() implies !(#[trigger] out[j] is DefineFunc) by {
        assert(!(body.ir[j] is DefineFunc));
    }
}

pub proof fn lemma_prefix_transitive(a: Seq<u64>, b: Seq<u64>, c: Seq<u64>)
    requires
        a.is_prefix_of(b),
        b.is_prefix_of(c),
    ensures
        a.is_prefix_of(c),
{
    assert(a =~= c.subrange(0, a.len() as int)) by {
        assert forall|i: int| 0 <= i < a.len() implies a[i] == c[i] by {
            assert(a[i] == b.subrange(0, a.len() as int)[i]);
            assert(b[i] == c.subrange(0, b.len() as int)[i]);
        }
    }
}

proof fn lemma_refines_transitive(
    w1: Scopes,
    s1: Scopes,
    w2: Scopes,
    s2: Scopes,
    w3: Scopes,
    s3: Scopes,
)
    requires
        refines(w1, s1, w2, s2),
        refines(w2, s2, w3, s3),
    ensures
        refines(w1, s1, w3, s3),
{
    assert forall|k: KeyView, u: Seq<u64>| #[trigger] covered(w1, s1, k, u) implies covered(
        w3,
        s3,
        k,
        u,
    ) by {
        assert(covered(w2, s2, k, u));
    }
}

/// A scope that is kept for a function stays kept, in a list that encloses
/// all that the first enclosed.
proof fn lemma_present_refined(w1: Scopes, s1: Scopes, w2: Scopes, s2: Scopes, key: KeyView)
    requires
        refines(w1, s1, w2, s2),
        lookup(w1, key).is_some() || lookup(s1, key).is_some(),
    ensures
        lookup(w2, key).is_some() || lookup(s2, key).is_some(),
{
    let u = if lookup(w1, key).is_some() {
        lookup(w1, key).unwrap()
    } else {
        lookup(s1, key).unwrap()
    };
    assert(u.is_prefix_of(u));
    assert(covered(w1, s1, key, u));
    assert(covered(w2, s2, key, u));
}

/// A reference dealt with: the instructions keep their shape, the reference
/// lies in the scope kept for its function, and what was enclosed stays
/// enclosed.
proof fn lemma_process_reference(state: PlanState, at: int, env: LowerEnv)
    requires
        0 <= at < state.ir.len(),
        state.ir[at] is Var,
        process_reference(state, at, env) is Ok,
        distinct_keys(state.to_define),
        distinct_keys(state.scopes),
        distinct_keys(state.components),
        plain_components(state.components),
        all_present(state.components, state.to_define, state.scopes),
    ensures
        ({
            let next = process_reference(state, at, env).unwrap();
            &&& next.ir.len() == state.ir.len()
            &&& forall|j: int| 0 <= j < state.ir.len() && j != at ==> next.ir[j] == state.ir[j]
            &&& next.ir[at].scope() == state.ir[at].scope()
            &&& next.ir[at] is Var
            &&& match used_function(next.ir[at]) {
                Some(k) => covered(next.to_define, next.scopes, k, next.ir[at].scope()),
                None => true,
            }
            &&& refines(state.to_define, state.scopes, next.to_define, next.scopes)
            &&& distinct_keys(next.to_define)
            &&& distinct_keys(next.scopes)
            &&& distinct_keys(next.components)
            &&& plain_components(next.components)
            &&& all_present(next.components, next.to_define, next.scopes)
        }),
{
    let next = process_reference(state, at, env).unwrap();
    match state.ir[at] {
        AirView::Var { scope, constructor, .. } => match constructor.variant {
            VariantView::ModuleFn { name, module, builtin: None, .. } => {
                let f = function_position(env.functions, module, name, Seq::empty()).unwrap();
                let instance = instantiate(
                    env.functions[f].1,
                    constructor.tipo,
                    scope,
                    state.st,
                    env,
                ).unwrap();
                let key = KeyView {
                    module_name: module,
                    function_name: name,
                    variant_name: instance.variant_name,
                };
                let value = match lookup(state.to_define, key) {
                    Some(previous) => common_ancestor(scope, previous),
                    None => scope,
                };
                assert(next.to_define == inserted(state.to_define, key, value));
                assert(next.scopes == state.scopes);
                assert(used_function(next.ir[at]) == Some(key));
                assert(next.ir[at].scope() == scope);
                lemma_lookup_inserted(state.to_define, key, value);
                lemma_inserted_distinct(state.to_define, key, value);
                if next.components != state.components {
                    let calls = crate::plan_spec::function_calls(
                        instance.ir,
                        instance.ir.len(),
                        key,
                        scope,
                        instance.st,
                        env,
                    ).unwrap();
                    let entered = crate::plan_spec::ComponentsView {
                        ir: instance.ir,
                        dependencies: crate::plan_spec::without_key(
                            calls.keys,
                            key,
                            calls.keys.len(),
                        ),
                        args: crate::plan_spec::definition_parameters(
                            env.functions[f].1.arguments@,
                        ),
                        recursive: crate::plan_spec::has_key(calls.keys, key),
                    };
                    assert(next.components == inserted(state.components, key, entered));
                    lemma_inserted_distinct(state.components, key, entered);
                    lemma_instantiate_plain(
                        env.functions[f].1,
                        constructor.tipo,
                        scope,
                        state.st,
                        env,
                    );
                    assert(next.components == state.components.push((key, entered)));
                    assert forall|i: int| 0 <= i < next.components.len() implies no_definitions(
                        (#[trigger] next.components[i]).1.ir,
                    ) by {
                        if i < state.components.len() {
                            assert(next.components[i] == state.components[i]);
                        }
                    }
                }
                match lookup(state.to_define, key) {
                    Some(previous) => {
                        lemma_common_ancestor_is_prefix(scope, previous);
                    },
                    None => {
                        assert(scope.is_prefix_of(scope));
                    },
                }
                assert forall|k: KeyView, u: Seq<u64>| #[trigger]
                    covered(state.to_define, state.scopes, k, u) implies covered(
                    next.to_define,
                    next.scopes,
                    k,
                    u,
                ) by {
                    if k == key {
                        match lookup(state.to_define, key) {
                            Some(previous) => {
                                if previous.is_prefix_of(u) {
                                    lemma_prefix_transitive(value, previous, u);
                                }
                            },
                            None => {},
                        }
                    } else {
                        lemma_lookup_inserted_other(state.to_define, key, value, k);
                    }
                }
                assert forall|i: int| 0 <= i < next.components.len() implies lookup(
                    next.to_define,
                    (#[trigger] next.components[i]).0,
                ).is_some() || lookup(next.scopes, next.components[i].0).is_some() by {
                    let k = next.components[i].0;
                    if k == key {
                    } else {
                        lemma_lookup_inserted_other(state.to_define, key, value, k);
                        if next.components == state.components {
                            assert(state.components[i].0 == k);
                        } else {
                            lemma_position(state.components, key);
                            assert(i < state.components.len());
                            assert(state.components[i].0 == k);
                        }
                    }
                }
            },
            _ => {},
        },
        _ => {},
    }
}

/// Functions settled at an instruction: what was enclosed stays enclosed.
proof fn lemma_settle(
    waiting: Scopes,
    from: nat,
    scope: Seq<u64>,
    to_define: Scopes,
    scopes: Scopes,
)
    requires
        distinct_keys(waiting),
        distinct_keys(to_define),
        distinct_keys(scopes),
        forall|i: int|
            from <= i < waiting.len() ==> lookup(to_define, (#[trigger] waiting[i]).0) == Some(
                waiting[i].1,
            ),
    ensures
        refines(
            to_define,
            scopes,
            settle(waiting, from, scope, to_define, scopes).0,
            settle(waiting, from, scope, to_define, scopes).1,
        ),
        distinct_keys(settle(waiting, from, scope, to_define, scopes).0),
        distinct_keys(settle(waiting, from, scope, to_define, scopes).1),
    decreases waiting.len() - from,
{
    if from < waiting.len() {
        let (key, wanted) = waiting[from as int];
        assert(lookup(to_define, waiting[from as int].0) == Some(wanted));
        lemma_common_ancestor_is_prefix(scope, wanted);
        if common_ancestor(scope, wanted) == scope {
            let settles = match lookup(scopes, key) {
                Some(known) => common_ancestor(known, wanted) == scope,
                None => true,
            };
            let (t1, s1) = if settles {
                (shift_removed(to_define, key), inserted(scopes, key, scope))
            } else {
                (
                    inserted(
                        to_define,
                        key,
                        common_ancestor(lookup(scopes, key).unwrap(), wanted),
                    ),
                    scopes,
                )
            };
            assert(settle(waiting, from, scope, to_define, scopes) == settle(
                waiting,
                from + 1,
                scope,
                t1,
                s1,
            ));
            if settles {
                lemma_removed_distinct(to_define, key);
                lemma_lookup_inserted(scopes, key, scope);
                lemma_inserted_distinct(scopes, key, scope);
            } else {
                lemma_inserted_distinct(
                    to_define,
                    key,
                    common_ancestor(lookup(scopes, key).unwrap(), wanted),
                );
                lemma_lookup_inserted(
                    to_define,
                    key,
                    common_ancestor(lookup(scopes, key).unwrap(), wanted),
                );
                lemma_common_ancestor_is_prefix(lookup(scopes, key).unwrap(), wanted);
            }
            match lookup(scopes, key) {
                Some(known) => {
                    lemma_common_ancestor_is_prefix(known, wanted);
                },
                None => {},
            }
            assert forall|k: KeyView, u: Seq<u64>| #[trigger]
                covered(to_define, scopes, k, u) implies covered(t1, s1, k, u) by {
                if k == key {
                    if settles {
                        if wanted.is_prefix_of(u) {
                            lemma_prefix_transitive(scope, wanted, u);
                        } else {
                            let known = lookup(scopes, key).unwrap();
                            lemma_prefix_transitive(scope, known, u);
                        }
                    } else {
                        if wanted.is_prefix_of(u) {
                            lemma_prefix_transitive(
                                common_ancestor(lookup(scopes, key).unwrap(), wanted),
                                wanted,
                                u,
                            );
                        }
                    }
                } else {
                    if settles {
                        lemma_lookup_removed_other(to_define, key, k);
                        lemma_lookup_inserted_other(scopes, key, scope, k);
                    } else {
                        lemma_lookup_inserted_other(
                            to_define,
                            key,
                            common_ancestor(lookup(scopes, key).unwrap(), wanted),
                            k,
                        );
                    }
                }
            }
            assert forall|i: int| from + 1 <= i < waiting.len() implies lookup(
                t1,
                (#[trigger] waiting[i]).0,
            ) == Some(waiting[i].1) by {
                assert(waiting[from as int].0 != waiting[i].0);
                if settles {
                    lemma_lookup_removed_other(to_define, key, waiting[i].0);
                } else {
                    lemma_lookup_inserted_other(
                        to_define,
                        key,
                        common_ancestor(lookup(scopes, key).unwrap(), wanted),
                        waiting[i].0,
                    );
                }
            }
            lemma_settle(waiting, from + 1, scope, t1, s1);
            lemma_refines_transitive(
                to_define,
                scopes,
                t1,
                s1,
                settle(waiting, from + 1, scope, t1, s1).0,
                settle(waiting, from + 1, scope, t1, s1).1,
            );
        } else {
            lemma_settle(waiting, from + 1, scope, to_define, scopes);
        }
    }
}

/// One instruction dealt with: the instructions keep their shape, a
/// reference lies in the scope kept for its function, and what was enclosed
/// stays enclosed.
proof fn lemma_process_one(state: PlanState, at: int, env: LowerEnv)
    requires
        0 <= at < state.ir.len(),
        process_one(state, at, env) is Ok,
        distinct_keys(state.to_define),
        distinct_keys(state.scopes),
        distinct_keys(state.components),
        plain_components(state.components),
        all_present(state.components, state.to_define, state.scopes),
    ensures
        ({
            let next = process_one(state, at, env).unwrap();
            &&& next.ir.len() == state.ir.len()
            &&& forall|j: int| 0 <= j < state.ir.len() && j != at ==> next.ir[j] == state.ir[j]
            &&& next.ir[at].scope() == state.ir[at].scope()
            &&& (next.ir[at] is DefineFunc <==> state.ir[at] is DefineFunc)
            &&& match used_function(next.ir[at]) {
                Some(k) => covered(next.to_define, next.scopes, k, next.ir[at].scope()),
                None => true,
            }
            &&& refines(state.to_define, state.scopes, next.to_define, next.scopes)
            &&& distinct_keys(next.to_define)
            &&& distinct_keys(next.scopes)
            &&& distinct_keys(next.components)
            &&& plain_components(next.components)
            &&& all_present(next.components, next.to_define, next.scopes)
        }),
{
    let next = process_one(state, at, env).unwrap();
    if state.ir[at] is Var {
        lemma_process_reference(state, at, env);
    } else {
        assert forall|i: int| 0 <= i < state.to_define.len() implies lookup(
            state.to_define,
            (#[trigger] state.to_define[i]).0,
        ) == Some(state.to_define[i].1) by {
            lemma_lookup_at(state.to_define, i);
        }
        lemma_settle(state.to_define, 0, state.ir[at].scope(), state.to_define, state.scopes);
        assert forall|i: int| 0 <= i < next.components.len() implies lookup(
            next.to_define,
            (#[trigger] next.components[i]).0,
        ).is_some() || lookup(next.scopes, next.components[i].0).is_some() by {
            assert(state.components[i].0 == next.components[i].0);
            lemma_present_refined(
                state.to_define,
                state.scopes,
                next.to_define,
                next.scopes,
                next.components[i].0,
            );
        }
    }
}

/// The instructions dealt with, from a position down to the first: they
/// keep their shape, and every reference lies in the scope kept for its
/// function.
proof fn lemma_process_down(state: PlanState, upto: nat, env: LowerEnv)
    requires
        upto <= state.ir.len(),
        process_down(state, upto, env) is Ok,
        distinct_keys(state.to_define),
        distinct_keys(state.scopes),
        distinct_keys(state.components),
        plain_components(state.components),
        all_present(state.components, state.to_define, state.scopes),
        uses_covered(state.ir, upto as int, state.to_define, state.scopes),
    ensures
        ({
            let end = process_down(state, upto, env).unwrap();
            &&& same_shape(state.ir, end.ir)
            &&& uses_covered(end.ir, 0, end.to_define, end.scopes)
            &&& distinct_keys(end.to_define)
            &&& distinct_keys(end.scopes)
            &&& distinct_keys(end.components)
            &&& plain_components(end.components)
            &&& all_present(end.components, end.to_define, end.scopes)
        }),
    decreases upto,
{
    if upto > 0 {
        lemma_process_one(state, upto - 1, env);
        let next = process_one(state, upto - 1, env).unwrap();
        assert forall|j: int| upto - 1 <= j < next.ir.len() implies match used_function(
            #[trigger] next.ir[j],
        ) {
            Some(k) => covered(next.to_define, next.scopes, k, next.ir[j].scope()),
            None => true,
        } by {
            if j >= upto {
                assert(next.ir[j] == state.ir[j]);
                match used_function(state.ir[j]) {
                    Some(k) => {
                        assert(covered(state.to_define, state.scopes, k, state.ir[j].scope()));
                    },
                    None => {},
                }
            }
        }
        lemma_process_down(next, (upto - 1) as nat, env);
        let end = process_down(next, (upto - 1) as nat, env).unwrap();
        assert forall|j: int| 0 <= j < state.ir.len() implies (#[trigger] state.ir[j]).scope()
            == end.ir[j].scope() && (state.ir[j] is DefineFunc <==> end.ir[j] is DefineFunc) by {
            assert(next.ir[j].scope() == end.ir[j].scope());
            if j != upto - 1 {
                assert(next.ir[j] == state.ir[j]);
            }
        }
    }
}

/// The functions that still waited, settled: what was enclosed by a known
/// scope stays enclosed, and every function that waited has a scope that
/// encloses the scope it waited with.
proof fn lemma_settle_rest(waiting: Scopes, from: nat, scopes: Scopes)
    requires
        settle_rest(waiting, from, scopes) is Ok,
        distinct_keys(scopes),
    ensures
        distinct_keys(settle_rest(waiting, from, scopes).unwrap()),
        forall|k: KeyView, u: Seq<u64>| #[trigger]
            encloses_use(scopes, k, u) ==> encloses_use(
                settle_rest(waiting, from, scopes).unwrap(),
                k,
                u,
            ),
        forall|i: int|
            from <= i < waiting.len() ==> encloses_use(
                settle_rest(waiting, from, scopes).unwrap(),
                (#[trigger] waiting[i]).0,
                waiting[i].1,
            ),
    decreases waiting.len() - from,
{
    if from < waiting.len() {
        let (key, wanted) = waiting[from as int];
        let known = lookup(scopes, key).unwrap();
        let merged = common_ancestor(wanted, known);
        let s1 = inserted(scopes, key, merged);
        let r = settle_rest(waiting, from, scopes).unwrap();
        assert(r == settle_rest(waiting, from + 1, s1).unwrap());
        lemma_inserted_distinct(scopes, key, merged);
        lemma_settle_rest(waiting, from + 1, s1);
        lemma_common_ancestor_is_prefix(wanted, known);
        lemma_lookup_inserted(scopes, key, merged);
        assert forall|k: KeyView, u: Seq<u64>| #[trigger]
            encloses_use(scopes, k, u) implies encloses_use(r, k, u) by {
            if k == key {
                lemma_prefix_transitive(merged, known, u);
            } else {
                lemma_lookup_inserted_other(scopes, key, merged, k);
            }
            assert(encloses_use(s1, k, u));
        }
        assert forall|i: int| from <= i < waiting.len() implies encloses_use(
            r,
            (#[trigger] waiting[i]).0,
            waiting[i].1,
        ) by {
            if i == from {
                assert(encloses_use(s1, key, wanted));
            }
        }
    }
}

/// The search of a list of instructions for the functions that it refers
/// to leaves the instructions in their shape, has every use of a function
/// in the scope that it finds for the function, and finds a scope for
/// every function that it enters.
pub proof fn lemma_process_define(ir: Seq<AirView>, st: LowerState, env: LowerEnv)
    requires
        process_define(ir, Seq::empty(), Seq::empty(), st, env) is Ok,
    ensures
        ({
            let state = process_define(ir, Seq::empty(), Seq::empty(), st, env).unwrap();
            &&& same_shape(ir, state.ir)
            &&& accounted(state.ir, state.scopes)
            &&& distinct_keys(state.components)
            &&& distinct_keys(state.scopes)
            &&& plain_components(state.components)
            &&& forall|i: int|
                0 <= i < state.components.len() ==> lookup(
                    state.scopes,
                    (#[trigger] state.components[i]).0,
                ).is_some()
        }),
{
    let start = PlanState {
        ir,
        to_define: Seq::empty(),
        components: Seq::empty(),
        scopes: Seq::empty(),
        st,
    };
    lemma_process_down(start, ir.len(), env);
    let end = process_down(start, ir.len(), env).unwrap();
    lemma_settle_rest(end.to_define, 0, end.scopes);
    let scopes = settle_rest(end.to_define, 0, end.scopes).unwrap();
    assert forall|k: KeyView, u: Seq<u64>| #[trigger]
        covered(end.to_define, end.scopes, k, u) implies encloses_use(scopes, k, u) by {
        if encloses_use(end.scopes, k, u) {
        } else {
            lemma_position(end.to_define, k);
            let i = position(end.to_define, k).unwrap();
            assert(encloses_use(scopes, end.to_define[i].0, end.to_define[i].1));
            lemma_prefix_transitive(lookup(scopes, k).unwrap(), end.to_define[i].1, u);
        }
    }
    assert forall|j: int| 0 <= j < end.ir.len() implies match used_function(#[trigger] end.ir[j]) {
        Some(k) => encloses_use(scopes, k, end.ir[j].scope()),
        None => true,
    } by {
        match used_function(end.ir[j]) {
            Some(k) => {
                assert(covered(end.to_define, end.scopes, k, end.ir[j].scope()));
            },
            None => {},
        }
    }
    assert forall|i: int| 0 <= i < end.components.len() implies lookup(
        scopes,
        (#[trigger] end.components[i]).0,
    ).is_some() by {
        let k = end.components[i].0;
        let u = if lookup(end.to_define, k).is_some() {
            lookup(end.to_define, k).unwrap()
        } else {
            lookup(end.scopes, k).unwrap()
        };
        assert(u.is_prefix_of(u));
        assert(covered(end.to_define, end.scopes, k, u));
    }
}

/// Whether every scope that the first list encloses, the second encloses
/// as well.
pub open spec fn scopes_refine(s1: Scopes, s2: Scopes) -> bool {
    forall|k: KeyView, u: Seq<u64>| #[trigger] encloses_use(s1, k, u) ==> encloses_use(s2, k, u)
}

proof fn lemma_accounted_refined(ir: Seq<AirView>, s1: Scopes, s2: Scopes)
    requires
        accounted(ir, s1),
        scopes_refine(s1, s2),
    ensures
        accounted(ir, s2),
{
    assert forall|j: int| 0 <= j < ir.len() implies match used_function(#[trigger] ir[j]) {
        Some(k) => encloses_use(s2, k, ir[j].scope()),
        None => true,
    } by {
        match used_function(ir[j]) {
            Some(k) => {
                assert(encloses_use(s1, k, ir[j].scope()));
            },
            None => {},
        }
    }
}

/// A function that has a scope in the first list has one in the second.
proof fn lemma_known_refined(s1: Scopes, s2: Scopes, key: KeyView)
    requires
        scopes_refine(s1, s2),
        lookup(s1, key).is_some(),
    ensures
        lookup(s2, key).is_some(),
{
    let u = lookup(s1, key).unwrap();
    assert(u.is_prefix_of(u));
    assert(encloses_use(s1, key, u));
}

/// Merged scopes enclose what the scopes enclosed before, and what each
/// scope that was merged in encloses.
proof fn lemma_merge_scopes_from(scopes: Scopes, more: Scopes, from: nat)
    requires
        distinct_keys(scopes),
    ensures
        distinct_keys(merge_scopes(scopes, more, from)),
        scopes_refine(scopes, merge_scopes(scopes, more, from)),
        forall|i: int|
            from <= i < more.len() ==> encloses_use(
                merge_scopes(scopes, more, from),
                (#[trigger] more[i]).0,
                more[i].1,
            ),
    decreases more.len() - from,
{
    if from < more.len() {
        let (key, scope) = more[from as int];
        let value = match lookup(scopes, key) {
            Some(known) => common_ancestor(known, scope),
            None => scope,
        };
        let s1 = inserted(scopes, key, value);
        let r = merge_scopes(scopes, more, from);
        assert(r == merge_scopes(s1, more, from + 1));
        lemma_inserted_distinct(scopes, key, value);
        lemma_merge_scopes_from(s1, more, from + 1);
        lemma_lookup_inserted(scopes, key, value);
        match lookup(scopes, key) {
            Some(known) => {
                lemma_common_ancestor_is_prefix(known, scope);
            },
            None => {
                assert(scope.is_prefix_of(scope));
            },
        }
        assert forall|k: KeyView, u: Seq<u64>| #[trigger]
            encloses_use(scopes, k, u) implies encloses_use(r, k, u) by {
            if k == key {
                lemma_prefix_transitive(value, lookup(scopes, key).unwrap(), u);
            } else {
                lemma_lookup_inserted_other(scopes, key, value, k);
            }
            assert(encloses_use(s1, k, u));
        }
        assert forall|i: int| from <= i < more.len() implies encloses_use(
            r,
            (#[trigger] more[i]).0,
            more[i].1,
        ) by {
            if i == from {
                assert(encloses_use(s1, key, scope));
            }
        }
    }
}

/// Merged scopes enclose what each of the two lists of scopes encloses.
pub proof fn lemma_merge_scopes(scopes: Scopes, more: Scopes)
    requires
        distinct_keys(scopes),
    ensures
        distinct_keys(merge_scopes(scopes, more, 0)),
        scopes_refine(scopes, merge_scopes(scopes, more, 0)),
        scopes_refine(more, merge_scopes(scopes, more, 0)),
{
    lemma_merge_scopes_from(scopes, more, 0);
    let r = merge_scopes(scopes, more, 0);
    assert forall|k: KeyView, u: Seq<u64>| #[trigger] encloses_use(more, k, u) implies encloses_use(
        r,
        k,
        u,
    ) by {
        lemma_position(more, k);
        let i = position(more, k).unwrap();
        assert(encloses_use(r, more[i].0, more[i].1));
        lemma_prefix_transitive(lookup(r, k).unwrap(), more[i].1, u);
    }
}

/// Whether an entry is one of `more` whose function `components` does not
/// hold.
pub open spec fn appended(
    more: Components,
    components: Components,
    entry: (KeyView, ComponentsView),
) -> bool {
    position(components, entry.0).is_none() && exists|j: int|
        0 <= j < more.len() && #[trigger] more[j] == entry
}

/// Merged components start with the components that were there, and go on
/// with entries of the other list for functions that were not there; no
/// function occurs twice.
proof fn lemma_merge_components(components: Components, more: Components, from: nat)
    requires
        distinct_keys(components),
    ensures
        distinct_keys(merge_components(components, more, from)),
        components.len() <= merge_components(components, more, from).len(),
        forall|i: int|
            0 <= i < components.len() ==> merge_components(components, more, from)[i]
                == components[i],
        forall|i: int|
            components.len() <= i < merge_components(components, more, from).len() ==> appended(
                more,
                components,
                #[trigger] merge_components(components, more, from)[i],
            ),
    decreases more.len() - from,
{
    if from < more.len() {
        let key = more[from as int].0;
        if position(components, key).is_some() {
            lemma_merge_components(components, more, from + 1);
        } else {
            let c1 = inserted(components, key, more[from as int].1);
            assert(c1 == components.push(more[from as int]));
            lemma_inserted_distinct(components, key, more[from as int].1);
            lemma_merge_components(c1, more, from + 1);
            let r = merge_components(components, more, from);
            assert(r == merge_components(c1, more, from + 1));
            assert forall|i: int| 0 <= i < components.len() implies r[i] == components[i] by {
                assert(r[i] == c1[i]);
            }
            assert forall|i: int| components.len() <= i < r.len() implies appended(
                more,
                components,
                #[trigger] r[i],
            ) by {
                if i == components.len() {
                    assert(r[i] == c1[i]);
                    assert(more[from as int] == r[i]);
                } else {
                    assert(appended(more, c1, r[i]));
                    let k = r[i].0;
                    if k == key {
                        lemma_lookup_inserted(components, key, more[from as int].1);
                    } else {
                        lemma_lookup_inserted_other(components, key, more[from as int].1, k);
                    }
                }
            }
        }
    }
}

proof fn lemma_has_key_with_key(keys: Seq<KeyView>, added: KeyView, key: KeyView)
    ensures
        has_key(with_key(keys, added), key) <==> (key == added || has_key(keys, key)),
{
    let after = with_key(keys, added);
    if has_key(keys, added) {
    } else {
        assert(after == keys.push(added));
        if has_key(after, key) {
            let i = choose|i: int| 0 <= i < after.len() && after[i] == key;
            if i < keys.len() {
                assert(keys[i] == key);
            }
        }
        if key == added {
            assert(after[keys.len() as int] == key);
        }
        if has_key(keys, key) {
            let i = choose|i: int| 0 <= i < keys.len() && keys[i] == key;
            assert(after[i] == key);
        }
    }
}

/// Whether the uses of functions by the body of a function are accounted
/// for, or the function is one of those whose bodies are not searched.
pub open spec fn settled(
    entry: (KeyView, ComponentsView),
    recursion: Seq<KeyView>,
    scopes: Scopes,
) -> bool {
    has_key(recursion, entry.0) || accounted(entry.1.ir, scopes)
}

/// Whether a function is still to be visited.
pub open spec fn in_snapshot(snapshot: Scopes, from: nat, key: KeyView) -> bool {
    exists|j: int| from <= j < snapshot.len() && (#[trigger] snapshot[j]).0 == key
}

/// What holds of what a search has found: every use of a function, by the
/// instructions and by the bodies of the functions that were searched,
/// lies in the scope found for the function; every function has a scope;
/// and no function occurs twice.
pub open spec fn searched(found: Found, recursion: Seq<KeyView>) -> bool {
    &&& accounted(found.ir, found.scopes)
    &&& distinct_keys(found.components)
    &&& distinct_keys(found.scopes)
    &&& plain_components(found.components)
    &&& forall|i: int|
        0 <= i < found.components.len() ==> lookup(
            found.scopes,
            (#[trigger] found.components[i]).0,
        ).is_some()
    &&& forall|i: int|
        0 <= i < found.components.len() ==> settled(
            #[trigger] found.components[i],
            recursion,
            found.scopes,
        )
}

/// What holds while the functions of a snapshot are visited.
pub open spec fn visiting(
    snapshot: Scopes,
    from: nat,
    found: Found,
    base: Seq<KeyView>,
    recursion: Seq<KeyView>,
) -> bool {
    &&& accounted(found.ir, found.scopes)
    &&& distinct_keys(found.components)
    &&& distinct_keys(found.scopes)
    &&& plain_components(found.components)
    &&& forall|i: int|
        0 <= i < found.components.len() ==> lookup(
            found.scopes,
            (#[trigger] found.components[i]).0,
        ).is_some()
    &&& forall|i: int|
        0 <= i < found.components.len() ==> settled(
            #[trigger] found.components[i],
            base,
            found.scopes,
        ) || in_snapshot(snapshot, from, found.components[i].0)
    &&& forall|k: KeyView| #[trigger]
        has_key(recursion, k) ==> has_key(base, k) || match lookup(found.components, k) {
            Some(c) => accounted(c.ir, found.scopes),
            None => false,
        }
}

/// The search for the functions that a list of instructions needs, and
/// for those that they need, accounts for every use of a function.
pub proof fn lemma_define_recurse(
    ir: Seq<AirView>,
    recursion: Seq<KeyView>,
    st: LowerState,
    env: LowerEnv,
    depth: nat,
)
    requires
        define_recurse(ir, Seq::empty(), Seq::empty(), recursion, st, env, depth) is Ok,
    ensures
        searched(
            define_recurse(ir, Seq::empty(), Seq::empty(), recursion, st, env, depth).unwrap(),
            recursion,
        ),
        same_shape(
            ir,
            define_recurse(ir, Seq::empty(), Seq::empty(), recursion, st, env, depth).unwrap().ir,
        ),
    decreases depth, 1nat, 0nat,
{
    lemma_process_define(ir, st, env);
    let state = process_define(ir, Seq::empty(), Seq::empty(), st, env).unwrap();
    let start = Found {
        ir: state.ir,
        components: state.components,
        scopes: state.scopes,
        st: state.st,
    };
    assert forall|i: int| 0 <= i < start.components.len() implies in_snapshot(
        state.scopes,
        0,
        (#[trigger] start.components[i]).0,
    ) by {
        let k = start.components[i].0;
        lemma_position(state.scopes, k);
        let j = position(state.scopes, k).unwrap();
        assert(state.scopes[j].0 == k);
    }
    lemma_visit_functions(state.scopes, 0, start, recursion, recursion, env, depth);
}

proof fn lemma_visit_functions(
    snapshot: Scopes,
    from: nat,
    found: Found,
    base: Seq<KeyView>,
    recursion: Seq<KeyView>,
    env: LowerEnv,
    depth: nat,
)
    requires
        visit_functions(snapshot, from, found, recursion, env, depth) is Ok,
        visiting(snapshot, from, found, base, recursion),
    ensures
        searched(visit_functions(snapshot, from, found, recursion, env, depth).unwrap(), base),
        visit_functions(snapshot, from, found, recursion, env, depth).unwrap().ir == found.ir,
    decreases depth, 0nat, snapshot.len() - from,
{
    if from >= snapshot.len() {
        assert forall|i: int| 0 <= i < found.components.len() implies settled(
            #[trigger] found.components[i],
            base,
            found.scopes,
        ) by {
            assert(!in_snapshot(snapshot, from, found.components[i].0));
        }
    } else {
        let func = snapshot[from as int].0;
        let c = lookup(found.components, func).unwrap();
        lemma_position(found.components, func);
        let p = position(found.components, func).unwrap();
        let refers = refers_to(c.ir, func);
        if refers && has_key(recursion, func) {
            assert forall|i: int| 0 <= i < found.components.len() implies settled(
                #[trigger] found.components[i],
                base,
                found.scopes,
            ) || in_snapshot(snapshot, from + 1, found.components[i].0) by {
                if i == p {
                    assert(has_key(recursion, func));
                } else if !settled(found.components[i], base, found.scopes) {
                    lemma_still_in_snapshot(snapshot, from, found.components, i, p);
                }
            }
            lemma_visit_functions(snapshot, from + 1, found, base, recursion, env, depth);
        } else {
            let known = if refers {
                with_key(recursion, func)
            } else {
                recursion
            };
            lemma_define_recurse(c.ir, known, found.st, env, (depth - 1) as nat);
            let inner = define_recurse(
                c.ir,
                Seq::empty(),
                Seq::empty(),
                known,
                found.st,
                env,
                (depth - 1) as nat,
            ).unwrap();
            let entry = ComponentsView { ir: inner.ir, ..c };
            let replaced = inserted(found.components, func, entry);
            let components = merge_components(replaced, inner.components, 0);
            let scopes = merge_scopes(found.scopes, inner.scopes, 0);
            let next = Found { ir: found.ir, components, scopes, st: inner.st };
            lemma_merge_scopes(found.scopes, inner.scopes);
            lemma_accounted_refined(found.ir, found.scopes, scopes);
            lemma_accounted_refined(inner.ir, inner.scopes, scopes);
            lemma_inserted_distinct(found.components, func, entry);
            lemma_merge_components(replaced, inner.components, 0);
            assert(replaced == found.components.update(p, (func, entry)));
            assert(no_definitions(c.ir)) by {
                assert(found.components[p].1 == c);
            }
            assert(no_definitions(inner.ir)) by {
                assert forall|j: int| 0 <= j < inner.ir.len() implies !(#[trigger] inner.ir[j]
                    is DefineFunc) by {
                    assert(c.ir[j].scope() == inner.ir[j].scope());
                }
            }
            assert forall|i: int| 0 <= i < components.len() implies no_definitions(
                (#[trigger] components[i]).1.ir,
            ) by {
                if i < replaced.len() {
                    assert(components[i] == replaced[i]);
                    if i != p {
                        assert(replaced[i] == found.components[i]);
                    }
                } else {
                    assert(appended(inner.components, replaced, components[i]));
                    let j = choose|j: int|
                        0 <= j < inner.components.len() && #[trigger] inner.components[j]
                            == components[i];
                    assert(no_definitions(inner.components[j].1.ir));
                }
            }
            assert forall|i: int| 0 <= i < components.len() implies lookup(
                scopes,
                (#[trigger] components[i]).0,
            ).is_some() && (settled(components[i], base, scopes) || in_snapshot(
                snapshot,
                from + 1,
                components[i].0,
            )) by {
                if i < replaced.len() {
                    assert(components[i] == replaced[i]);
                    assert(components[i].0 == found.components[i].0);
                    lemma_known_refined(found.scopes, scopes, components[i].0);
                    if i == p {
                    } else {
                        if !settled(found.components[i], base, found.scopes) {
                            lemma_still_in_snapshot(snapshot, from, found.components, i, p);
                        }
                        if accounted(found.components[i].1.ir, found.scopes) {
                            lemma_accounted_refined(
                                found.components[i].1.ir,
                                found.scopes,
                                scopes,
                            );
                        }
                    }
                } else {
                    assert(appended(inner.components, replaced, components[i]));
                    let j = choose|j: int|
                        0 <= j < inner.components.len() && #[trigger] inner.components[j]
                            == components[i];
                    let k2 = components[i].0;
                    assert(settled(inner.components[j], known, inner.scopes));
                    assert(lookup(inner.scopes, inner.components[j].0).is_some());
                    lemma_known_refined(inner.scopes, scopes, k2);
                    if accounted(components[i].1.ir, inner.scopes) {
                        lemma_accounted_refined(components[i].1.ir, inner.scopes, scopes);
                    } else {
                        assert(has_key(known, k2));
                        lemma_has_key_with_key(recursion, func, k2);
                        if k2 == func {
                            lemma_lookup_inserted(found.components, func, entry);
                        } else {
                            lemma_lookup_inserted_other(found.components, func, entry, k2);
                            assert(has_key(recursion, k2));
                        }
                    }
                }
            }
            assert forall|k: KeyView| #[trigger] has_key(known, k) implies has_key(base, k)
                || match lookup(components, k) {
                Some(ck) => accounted(ck.ir, scopes),
                None => false,
            } by {
                lemma_has_key_with_key(recursion, func, k);
                if k == func {
                    assert(components[p] == replaced[p]);
                    lemma_lookup_at(components, p);
                    if !refers {
                        assert(has_key(recursion, k));
                    }
                } else {
                    assert(has_key(recursion, k));
                    if !has_key(base, k) {
                        lemma_position(found.components, k);
                        let q = position(found.components, k).unwrap();
                        assert(components[q] == replaced[q]);
                        assert(replaced[q] == found.components[q]);
                        lemma_lookup_at(components, q);
                        lemma_accounted_refined(found.components[q].1.ir, found.scopes, scopes);
                    }
                }
            }
            lemma_visit_functions(snapshot, from + 1, next, base, known, env, depth);
        }
    }
}

/// A function that is still to be visited and is not the one that is
/// visited now is still to be visited afterwards.
proof fn lemma_still_in_snapshot(
    snapshot: Scopes,
    from: nat,
    components: Components,
    i: int,
    p: int,
)
    requires
        from < snapshot.len(),
        distinct_keys(components),
        0 <= i < components.len(),
        0 <= p < components.len(),
        components[p].0 == snapshot[from as int].0,
        in_snapshot(snapshot, from, components[i].0),
        i != p,
    ensures
        in_snapshot(snapshot, from + 1, components[i].0),
{
    let j = choose|j: int| from <= j < snapshot.len() && (#[trigger] snapshot[j]).0 == components[i].0;
    if j == from {
        if i < p {
            assert(components[i].0 != components[p].0);
        } else {
            assert(components[p].0 != components[i].0);
        }
    }
    assert(snapshot[j].0 == components[i].0);
}

/// The function that an instruction defines.
pub open spec fn defined_function(ir: AirView) -> Option<KeyView> {
    match ir {
        AirView::DefineFunc { func_name, module_name, variant_name, .. } => Some(
            KeyView { module_name, function_name: func_name, variant_name },
        ),
        _ => None,
    }
}

/// Whether an instruction is in its place with respect to the scopes found
/// for the functions: a definition stands in a scope that encloses the
/// scope found for its function, and a use of a function lies in the scope
/// found for the function.
pub open spec fn well_placed(ir: AirView, scopes: Scopes) -> bool {
    match defined_function(ir) {
        Some(k) => match lookup(scopes, k) {
            Some(s) => ir.scope().is_prefix_of(s),
            None => false,
        },
        None => match used_function(ir) {
            Some(k) => encloses_use(scopes, k, ir.scope()),
            None => true,
        },
    }
}

/// Whether every instruction is in its place.
pub open spec fn all_well_placed(ir: Seq<AirView>, scopes: Scopes) -> bool {
    forall|j: int| 0 <= j < ir.len() ==> well_placed(#[trigger] ir[j], scopes)
}

/// Whether the body of every function is in its place.
pub open spec fn bodies_well_placed(components: Components, scopes: Scopes) -> bool {
    forall|i: int|
        0 <= i < components.len() ==> all_well_placed((#[trigger] components[i]).1.ir, scopes)
}

/// Whether every list of definitions is in its place.
pub open spec fn fronts_well_placed(in_front: Seq<(KeyView, Seq<AirView>)>, scopes: Scopes) -> bool {
    forall|i: int| 0 <= i < in_front.len() ==> all_well_placed((#[trigger] in_front[i]).1, scopes)
}

/// Whether each of the entries is the entry that `scopes` has for its
/// function.
pub open spec fn entries_known(entries: Scopes, scopes: Scopes) -> bool {
    forall|i: int|
        0 <= i < entries.len() ==> lookup(scopes, (#[trigger] entries[i]).0) == Some(entries[i].1)
}

proof fn lemma_plain_well_placed(ir: Seq<AirView>, scopes: Scopes)
    requires
        accounted(ir, scopes),
        no_definitions(ir),
    ensures
        all_well_placed(ir, scopes),
{
    assert forall|j: int| 0 <= j < ir.len() implies well_placed(#[trigger] ir[j], scopes) by {
        assert(!(ir[j] is DefineFunc));
    }
}

proof fn lemma_well_placed_concat(a: Seq<AirView>, b: Seq<AirView>, scopes: Scopes)
    requires
        all_well_placed(a, scopes),
        all_well_placed(b, scopes),
    ensures
        all_well_placed(a + b, scopes),
{
    assert forall|j: int| 0 <= j < (a + b).len() implies well_placed(
        #[trigger] (a + b)[j],
        scopes,
    ) by {
        if j < a.len() {
            assert((a + b)[j] == a[j]);
        } else {
            assert((a + b)[j] == b[j - a.len()]);
        }
    }
}

proof fn lemma_well_placed_parts(ir: Seq<AirView>, at: int, scopes: Scopes)
    requires
        all_well_placed(ir, scopes),
        0 <= at <= ir.len(),
    ensures
        all_well_placed(ir.take(at), scopes),
        all_well_placed(ir.skip(at), scopes),
{
    assert forall|j: int| 0 <= j < ir.take(at).len() implies well_placed(
        #[trigger] ir.take(at)[j],
        scopes,
    ) by {
        assert(ir.take(at)[j] == ir[j]);
    }
    assert forall|j: int| 0 <= j < ir.skip(at).len() implies well_placed(
        #[trigger] ir.skip(at)[j],
        scopes,
    ) by {
        assert(ir.skip(at)[j] == ir[j + at]);
    }
}

/// Rewiring the calls of a function to itself leaves every instruction in
/// its place.
proof fn lemma_rewired(ir: Seq<AirView>, key: KeyView, upto: nat, scopes: Scopes)
    requires
        upto <= ir.len(),
        rewired(ir, key, upto) is Ok,
        all_well_placed(ir, scopes),
    ensures
        all_well_placed(rewired(ir, key, upto).unwrap(), scopes),
    decreases upto,
{
    if upto == 0 {
    } else if reference_key(ir[upto - 1]) == Some(key) {
        match ir[upto - 2] {
            AirView::Call { scope, count } => {
                let call = AirView::Call { scope, count: (count + 1) as usize };
                let reference = match ir[upto - 1] {
                    AirView::Var { scope, constructor, variant_name, .. } => AirView::Var {
                        scope,
                        constructor,
                        name: key.function_name,
                        variant_name,
                    },
                    other => other,
                };
                let ir2 = ir.update(upto - 2, call).insert(upto - 1, reference);
                assert(well_placed(ir[upto - 1], scopes));
                assert(well_placed(reference, scopes));
                assert forall|j: int| 0 <= j < ir2.len() implies well_placed(
                    #[trigger] ir2[j],
                    scopes,
                ) by {
                    if j < upto - 2 {
                        assert(ir2[j] == ir[j]);
                    } else if j == upto - 2 {
                        assert(ir2[j] == call);
                    } else if j == upto - 1 {
                        assert(ir2[j] == reference);
                    } else {
                        assert(ir2[j] == ir[j - 1]);
                    }
                }
                lemma_rewired(ir2, key, (upto - 1) as nat, scopes);
            },
            _ => {},
        }
    } else {
        lemma_rewired(ir, key, (upto - 1) as nat, scopes);
    }
}

proof fn lemma_recursion_ir(key: KeyView, c: ComponentsView, scopes: Scopes)
    requires
        recursion_ir(key, c) is Ok,
        all_well_placed(c.ir, scopes),
    ensures
        all_well_placed(recursion_ir(key, c).unwrap(), scopes),
{
    if c.recursive {
        lemma_rewired(c.ir, key, c.ir.len(), scopes);
    }
}

/// What is found for a function is one of the entries.
pub proof fn lemma_lookup_is_entry<T>(entries: Seq<(KeyView, T)>, key: KeyView)
    requires
        lookup(entries, key).is_some(),
    ensures
        0 <= position(entries, key).unwrap() < entries.len(),
        entries[position(entries, key).unwrap()] == (key, lookup(entries, key).unwrap()),
{
    lemma_position(entries, key);
}

/// The definitions placed in front of a function with parameters are in
/// their places.
proof fn lemma_place_dependencies(
    order: Seq<(KeyView, ())>,
    upto: nat,
    func_scope: Seq<u64>,
    components: Components,
    scopes: Scopes,
    start: Placing,
)
    requires
        place_dependencies(order, upto, false, func_scope, components, scopes, start) is Ok,
        bodies_well_placed(components, scopes),
        all_well_placed(start.ir, scopes),
    ensures
        all_well_placed(
            place_dependencies(order, upto, false, func_scope, components, scopes, start).unwrap().ir,
            scopes,
        ),
    decreases upto,
{
    if upto == 0 || upto > order.len() {
    } else {
        lemma_place_dependencies(
            order,
            (upto - 1) as nat,
            func_scope,
            components,
            scopes,
            start,
        );
        let p = place_dependencies(
            order,
            (upto - 1) as nat,
            false,
            func_scope,
            components,
            scopes,
            start,
        ).unwrap();
        let dependency = order[upto - 1].0;
        if !has_key(p.defined, dependency) && lookup(components, dependency).is_some() {
            let c = lookup(components, dependency).unwrap();
            let dep_scope = lookup(scopes, dependency).unwrap();
            if common_ancestor(dep_scope, func_scope) == func_scope && c.args.len() > 0 {
                lemma_lookup_is_entry(components, dependency);
                lemma_recursion_ir(dependency, c, scopes);
                lemma_common_ancestor_is_prefix(dep_scope, func_scope);
                let body = recursion_ir(dependency, c).unwrap();
                let head = seq![define_func(dependency, c, func_scope)];
                assert(defined_function(define_func(dependency, c, func_scope)) == Some(
                    dependency,
                ));
                assert(all_well_placed(head, scopes));
                lemma_well_placed_concat(head, body, scopes);
                lemma_well_placed_concat(head + body, p.ir, scopes);
            }
        }
    }
}

/// The definitions prepared for the functions with parameters are in their
/// places.
proof fn lemma_prepare(
    order: Seq<(KeyView, ())>,
    upto: nat,
    components: Components,
    scopes: Scopes,
    start: Prepared,
)
    requires
        prepare(order, upto, components, scopes, start) is Ok,
        bodies_well_placed(components, scopes),
        fronts_well_placed(start.in_front, scopes),
    ensures
        fronts_well_placed(prepare(order, upto, components, scopes, start).unwrap().in_front, scopes),
    decreases upto,
{
    if upto == 0 || upto > order.len() {
    } else {
        lemma_prepare(order, (upto - 1) as nat, components, scopes, start);
        let p = prepare(order, (upto - 1) as nat, components, scopes, start).unwrap();
        let func = order[upto - 1].0;
        if !has_key(p.registry.defined, func) {
            let c = lookup(components, func).unwrap();
            let func_scope = lookup(scopes, func).unwrap();
            if c.args.len() > 0 {
                let inner = dependency_order(
                    c.dependencies,
                    Seq::empty(),
                    components,
                    step_limit(),
                ).unwrap();
                let begin = Placing {
                    ir: Seq::empty(),
                    defined: p.registry.defined,
                    to_define: p.to_define,
                };
                lemma_place_dependencies(
                    inner,
                    inner.len(),
                    func_scope,
                    components,
                    scopes,
                    begin,
                );
                let placed = function_dependencies(
                    c,
                    func_scope,
                    components,
                    scopes,
                    p.registry.defined,
                    p.to_define,
                ).unwrap();
                let after = inserted(p.in_front, func, placed.ir);
                lemma_position(p.in_front, func);
                assert forall|i: int| 0 <= i < after.len() implies all_well_placed(
                    (#[trigger] after[i]).1,
                    scopes,
                ) by {
                    if i < p.in_front.len() && after[i] == p.in_front[i] {
                    } else {
                        assert(after[i].1 == placed.ir);
                    }
                }
            }
        }
    }
}

proof fn lemma_swap_removed_known(entries: Scopes, key: KeyView, scopes: Scopes)
    requires
        entries_known(entries, scopes),
    ensures
        entries_known(swap_removed(entries, key), scopes),
{
    lemma_position(entries, key);
    let after = swap_removed(entries, key);
    assert forall|i: int| 0 <= i < after.len() implies lookup(scopes, (#[trigger] after[i]).0)
        == Some(after[i].1) by {
        match position(entries, key) {
            Some(p) => {
                if i == p {
                    assert(after[i] == entries.last());
                    assert(entries.last() == entries[entries.len() - 1]);
                } else {
                    assert(after[i] == entries[i]);
                }
            },
            None => {},
        }
    }
}

/// The definitions put in front of one instruction are in their places.
proof fn lemma_hoist_at(
    candidates: Scopes,
    from: nat,
    at: int,
    scope: Seq<u64>,
    registry: Registry,
    components: Components,
    in_front: Seq<(KeyView, Seq<AirView>)>,
    state: Hoisting,
    scopes: Scopes,
)
    requires
        hoist_at(candidates, from, at, scope, registry, components, in_front, state) is Ok,
        0 <= at,
        bodies_well_placed(components, scopes),
        fronts_well_placed(in_front, scopes),
        all_well_placed(state.ir, scopes),
        entries_known(candidates, scopes),
        entries_known(state.scopes, scopes),
    ensures
        all_well_placed(
            hoist_at(candidates, from, at, scope, registry, components, in_front, state).unwrap().ir,
            scopes,
        ),
        entries_known(
            hoist_at(
                candidates,
                from,
                at,
                scope,
                registry,
                components,
                in_front,
                state,
            ).unwrap().scopes,
            scopes,
        ),
    decreases candidates.len() - from,
{
    if from >= candidates.len() {
    } else if !defined_here(candidates[from as int], scope, registry) {
        lemma_hoist_at(
            candidates,
            from + 1,
            at,
            scope,
            registry,
            components,
            in_front,
            state,
            scopes,
        );
    } else {
        let (key, func_scope) = candidates[from as int];
        let front = lookup(in_front, key).unwrap();
        let c = lookup(components, key).unwrap();
        lemma_lookup_is_entry(in_front, key);
        lemma_lookup_is_entry(components, key);
        lemma_swap_removed_known(state.scopes, key, scopes);
        let remaining = swap_removed(state.scopes, key);
        let defined = with_key(state.registry.defined, key);
        if c.args.len() > 0 {
            lemma_recursion_ir(key, c, scopes);
            let body = recursion_ir(key, c).unwrap();
            let head = seq![define_func(key, c, func_scope)];
            assert(lookup(scopes, candidates[from as int].0) == Some(func_scope));
            assert(func_scope.is_prefix_of(func_scope));
            assert(defined_function(define_func(key, c, func_scope)) == Some(key));
            assert(all_well_placed(head, scopes));
            lemma_well_placed_parts(state.ir, at, scopes);
            lemma_well_placed_concat(front, head, scopes);
            lemma_well_placed_concat(front + head, body, scopes);
            lemma_well_placed_concat(state.ir.take(at), front + head + body, scopes);
            lemma_well_placed_concat(
                state.ir.take(at) + (front + head + body),
                state.ir.skip(at),
                scopes,
            );
            let next = Hoisting {
                ir: state.ir.take(at) + (front + head + body) + state.ir.skip(at),
                scopes: remaining,
                registry: Registry { defined, ..state.registry },
            };
            lemma_hoist_at(
                candidates,
                from + 1,
                at,
                scope,
                registry,
                components,
                in_front,
                next,
                scopes,
            );
        } else {
            let next = Hoisting {
                ir: state.ir,
                scopes: remaining,
                registry: Registry {
                    defined,
                    zero_arg: crate::plan_spec::with_zero_arg(
                        state.registry.zero_arg,
                        key,
                        front + c.ir,
                    ),
                },
            };
            lemma_hoist_at(
                candidates,
                from + 1,
                at,
                scope,
                registry,
                components,
                in_front,
                next,
                scopes,
            );
        }
    }
}

/// The definitions hoisted into the instructions are in their places.
proof fn lemma_hoist(
    original: Seq<AirView>,
    upto: nat,
    components: Components,
    in_front: Seq<(KeyView, Seq<AirView>)>,
    state: Hoisting,
    scopes: Scopes,
)
    requires
        hoist(original, upto, components, in_front, state) is Ok,
        bodies_well_placed(components, scopes),
        fronts_well_placed(in_front, scopes),
        all_well_placed(state.ir, scopes),
        entries_known(state.scopes, scopes),
    ensures
        all_well_placed(hoist(original, upto, components, in_front, state).unwrap().ir, scopes),
    decreases upto,
{
    if upto == 0 || upto > original.len() {
    } else {
        lemma_hoist_at(
            state.scopes,
            0,
            upto - 1,
            original[upto - 1].scope(),
            state.registry,
            components,
            in_front,
            state,
            scopes,
        );
        let next = hoist_at(
            state.scopes,
            0,
            upto - 1,
            original[upto - 1].scope(),
            state.registry,
            components,
            in_front,
            state,
        ).unwrap();
        lemma_hoist(original, (upto - 1) as nat, components, in_front, next, scopes);
    }
}

/// The scopes that planning finds for the functions of a list of
/// instructions.
pub open spec fn found_scopes(ir: Seq<AirView>, st: LowerState, env: LowerEnv) -> Scopes {
    define_recurse(ir, Seq::empty(), Seq::empty(), Seq::empty(), st, env, step_limit()).unwrap().scopes
}

/// Every instruction of a planned program is in its place with respect to
/// the scopes found for the functions.
pub proof fn lemma_plan_well_placed(ir: Seq<AirView>, registry: Registry, st: LowerState, env: LowerEnv)
    requires
        no_definitions(ir),
        plan_definitions(ir, registry, st, env) is Ok,
    ensures
        all_well_placed(
            plan_definitions(ir, registry, st, env).unwrap().ir,
            found_scopes(ir, st, env),
        ),
{
    let out = plan_definitions(ir, registry, st, env).unwrap().ir;
    lemma_define_recurse(ir, Seq::empty(), st, env, step_limit());
    let found = define_recurse(
        ir,
        Seq::empty(),
        Seq::empty(),
        Seq::empty(),
        st,
        env,
        step_limit(),
    ).unwrap();
    let scopes = found.scopes;
    assert(no_definitions(found.ir)) by {
        assert forall|j: int| 0 <= j < found.ir.len() implies !(#[trigger] found.ir[j]
            is DefineFunc) by {
            assert(ir[j].scope() == found.ir[j].scope());
        }
    }
    lemma_plain_well_placed(found.ir, scopes);
    assert forall|n: int| 0 <= n < found.components.len() implies all_well_placed(
        (#[trigger] found.components[n]).1.ir,
        scopes,
    ) by {
        assert(settled(found.components[n], Seq::empty(), scopes));
        assert(!has_key(Seq::<KeyView>::empty(), found.components[n].0));
        assert(no_definitions(found.components[n].1.ir));
        lemma_plain_well_placed(found.components[n].1.ir, scopes);
    }
    let order = dependency_order(
        crate::plan_spec::keys_of(found.components),
        Seq::empty(),
        found.components,
        step_limit(),
    ).unwrap();
    let begin = Prepared {
        registry,
        in_front: Seq::empty(),
        for_zero_arg: Seq::empty(),
        to_define: Seq::empty(),
    };
    lemma_prepare(order, order.len(), found.components, scopes, begin);
    let p = prepare(order, order.len(), found.components, scopes, begin).unwrap();
    let start = Hoisting {
        ir: found.ir,
        scopes,
        registry: Registry {
            defined: settle_zero_arg(
                p.registry.defined,
                p.for_zero_arg,
                p.to_define,
                p.for_zero_arg.len(),
            ),
            ..p.registry
        },
    };
    assert forall|n: int| 0 <= n < scopes.len() implies lookup(scopes, (#[trigger] scopes[n]).0)
        == Some(scopes[n].1) by {
        lemma_lookup_at(scopes, n);
    }
    lemma_hoist(found.ir, found.ir.len(), found.components, p.in_front, start, scopes);
    assert(out == hoist(found.ir, found.ir.len(), found.components, p.in_front, start).unwrap().ir);
}

/// Every definition of a function that planning puts into a program
/// stands in a scope that encloses every use of the function: for every
/// instruction that defines a function in a scope, and every reference of
/// the planned program to that function, the scope of the definition starts
/// the scope of the reference. It holds of instructions that define no
/// function themselves, such as the lowering gives.
pub proof fn lemma_definitions_enclose_uses(
    ir: Seq<AirView>,
    registry: Registry,
    st: LowerState,
    env: LowerEnv,
    i: int,
    j: int,
)
    requires
        no_definitions(ir),
        plan_definitions(ir, registry, st, env) is Ok,
        0 <= i < plan_definitions(ir, registry, st, env).unwrap().ir.len(),
        0 <= j < plan_definitions(ir, registry, st, env).unwrap().ir.len(),
        defined_function(plan_definitions(ir, registry, st, env).unwrap().ir[i]).is_some(),
        used_function(plan_definitions(ir, registry, st, env).unwrap().ir[j]) == defined_function(
            plan_definitions(ir, registry, st, env).unwrap().ir[i],
        ),
    ensures
        plan_definitions(ir, registry, st, env).unwrap().ir[i].scope().is_prefix_of(
            plan_definitions(ir, registry, st, env).unwrap().ir[j].scope(),
        ),
{
    let out = plan_definitions(ir, registry, st, env).unwrap().ir;
    let scopes = found_scopes(ir, st, env);
    lemma_plan_well_placed(ir, registry, st, env);
    assert(well_placed(out[i], scopes));
    assert(well_placed(out[j], scopes));
    let key = defined_function(out[i]).unwrap();
    assert(defined_function(out[j]).is_none());
    lemma_prefix_transitive(out[i].scope(), lookup(scopes, key).unwrap(), out[j].scope());
}

/// In the program that a body is lowered to, every definition of a
/// function stands in a scope that encloses every use of the function: the
/// scope of an instruction that defines a function starts the scope of
/// every reference to that function.
pub proof fn lemma_program_definitions_enclose_uses(
    body: TypedExpr,
    registry: Registry,
    st: LowerState,
    env: LowerEnv,
    i: int,
    j: int,
)
    requires
        lowered_program(body, registry, st, env) is Ok,
        0 <= i < lowered_program(body, registry, st, env).unwrap().ir.len(),
        0 <= j < lowered_program(body, registry, st, env).unwrap().ir.len(),
        defined_function(lowered_program(body, registry, st, env).unwrap().ir[i]).is_some(),
        used_function(lowered_program(body, registry, st, env).unwrap().ir[j]) == defined_function(
            lowered_program(body, registry, st, env).unwrap().ir[i],
        ),
    ensures
        lowered_program(body, registry, st, env).unwrap().ir[i].scope().is_prefix_of(
            lowered_program(body, registry, st, env).unwrap().ir[j].scope(),
        ),
{
    let root = seq![st.next_id];
    let start = LowerState { next_id: succ(st.next_id), ..st };
    lemma_lowering_stays_in_scope(body, root, start, env);
    let lowered = lower_expr(body, root, start, env).unwrap();
    assert(no_definitions(lowered.ir));
    lemma_definitions_enclose_uses(lowered.ir, registry, lowered.st, env, i, j);
}

} // verus!
