use vstd::prelude::*;
use crate::air::{air_views, clone_air, Air};
use crate::builder::{get_common_ancestor, key_views, FunctionAccessKey, KeyView};
use crate::error::Halt;
use crate::generator::CodeGenerator;
use crate::lower_pattern::{append_air, push_air};
use crate::maps::KeyedMap;
use crate::plan::{
    contains_key,
    handle_func_deps_ir,
    handle_recursion_ir,
    insert_key,
    order_dependencies,
    same_scope,
    FuncComponents,
};
use crate::plan_define::{snapshot_scopes, snapshot_views};
use crate::plan_hoist::{
    insert_block,
    insert_keys,
    is_zero_arg,
    keys_in_order,
    registry_of,
    set_zero_arg,
    settle_for_zero_arg,
    Instructions,
};
use crate::plan_spec::{
    define_func,
    defined_here,
    hoist,
    hoist_at,
    plan_definitions,
    prepare,
    Components,
    Hoisting,
    Planned,
    Prepared,
    Scopes,
};
use crate::synth::ZeroArgFunction;
use crate::text::{clone_ids, clone_names};

verus! {

proof fn lemma_prepare_fail(
    order: Seq<(KeyView, ())>,
    k: nat,
    components: Components,
    scopes: Scopes,
    start: Prepared,
)
    requires
        k <= order.len(),
        prepare(order, k, components, scopes, start) is Err,
    ensures
        prepare(order, order.len(), components, scopes, start) == prepare(
            order,
            k,
            components,
            scopes,
            start,
        ),
    decreases order.len() - k,
{
    if k < order.len() {
        assert(prepare(order, k + 1, components, scopes, start) == prepare(
            order,
            k,
            components,
            scopes,
            start,
        ));
        lemma_prepare_fail(order, k + 1, components, scopes, start);
    }
}

/// What the preparation of the definitions keeps track of, as its parts
/// hold it.
pub open spec fn prepared(
    defined: Seq<FunctionAccessKey>,
    zero_arg: Seq<ZeroArgFunction>,
    in_front: KeyedMap<Instructions>,
    for_zero_arg: Seq<FunctionAccessKey>,
    to_define: Seq<FunctionAccessKey>,
) -> Prepared {
    Prepared {
        registry: registry_of(defined, zero_arg),
        in_front: in_front@,
        for_zero_arg: key_views(for_zero_arg),
        to_define: key_views(to_define),
    }
}

/// Prepares the definitions of the functions in the given order.
#[verifier::loop_isolation(false)]
#[verifier::rlimit(80)]
pub fn prepare_definitions(
    defined_functions: &mut Vec<FunctionAccessKey>,
    zero_arg_functions: &mut Vec<ZeroArgFunction>,
    order: &KeyedMap<()>,
    func_components: &KeyedMap<FuncComponents>,
    func_index_map: &KeyedMap<Vec<u64>>,
    in_front: &mut KeyedMap<Instructions>,
    for_zero_arg: &mut Vec<FunctionAccessKey>,
    to_define: &mut Vec<FunctionAccessKey>,
) -> (r: Result<(), Halt>)
    requires
        order.wf(),
        func_components.wf(),
        func_index_map.wf(),
        old(in_front).wf(),
    ensures
        final(in_front).wf(),
        match r {
            Ok(()) => prepare(
                order@,
                order@.len(),
                func_components@,
                func_index_map@,
                prepared(
                    old(defined_functions)@,
                    old(zero_arg_functions)@,
                    *old(in_front),
                    old(for_zero_arg)@,
                    old(to_define)@,
                ),
            ) == Ok::<Prepared, Halt>(
                prepared(
                    final(defined_functions)@,
                    final(zero_arg_functions)@,
                    *final(in_front),
                    final(for_zero_arg)@,
                    final(to_define)@,
                ),
            ),
            Err(e) => prepare(
                order@,
                order@.len(),
                func_components@,
                func_index_map@,
                prepared(
                    old(defined_functions)@,
                    old(zero_arg_functions)@,
                    *old(in_front),
                    old(for_zero_arg)@,
                    old(to_define)@,
                ),
            ) == Err::<Prepared, Halt>(e),
        },
{
    let ghost start = prepared(
        defined_functions@,
        zero_arg_functions@,
        *in_front,
        for_zero_arg@,
        to_define@,
    );
    let mut i: usize = 0;
    while i < order.len()
        invariant
            i <= order@.len(),
            in_front.wf(),
            prepare(order@, i as nat, func_components@, func_index_map@, start) == Ok::<
                Prepared,
                Halt,
            >(prepared(defined_functions@, zero_arg_functions@, *in_front, for_zero_arg@, to_define@)),
        decreases order@.len() - i,
    {
        let func = order.key_at(i);
        let ghost before = prepared(
            defined_functions@,
            zero_arg_functions@,
            *in_front,
            for_zero_arg@,
            to_define@,
        );
        if !contains_key(defined_functions, &func) {
            let component = match func_components.get(&func) {
                Some(c) => c,
                None => {
                    proof {
                        assert(prepare(
                            order@,
                            (i + 1) as nat,
                            func_components@,
                            func_index_map@,
                            start,
                        ) == Err::<Prepared, Halt>(Halt::Missing));
                        lemma_prepare_fail(
                            order@,
                            (i + 1) as nat,
                            func_components@,
                            func_index_map@,
                            start,
                        );
                    }
                    return Err(Halt::Missing);
                },
            };
            let func_scope = match func_index_map.get(&func) {
                Some(s) => s,
                None => {
                    proof {
                        assert(prepare(
                            order@,
                            (i + 1) as nat,
                            func_components@,
                            func_index_map@,
                            start,
                        ) == Err::<Prepared, Halt>(Halt::Missing));
                        lemma_prepare_fail(
                            order@,
                            (i + 1) as nat,
                            func_components@,
                            func_index_map@,
                            start,
                        );
                    }
                    return Err(Halt::Missing);
                },
            };
            let mut dep_ir: Vec<Air> = Vec::new();
            if component.args.len() > 0 {
                match handle_func_deps_ir(
                    &mut dep_ir,
                    component,
                    func_components,
                    defined_functions,
                    func_index_map,
                    func_scope,
                    to_define,
                ) {
                    Ok(()) => {
                        in_front.insert(&func, Instructions(dep_ir));
                    },
                    Err(e) => {
                        proof {
                            assert(prepare(
                                order@,
                                (i + 1) as nat,
                                func_components@,
                                func_index_map@,
                                start,
                            ) == Err::<Prepared, Halt>(e));
                            lemma_prepare_fail(
                                order@,
                                (i + 1) as nat,
                                func_components@,
                                func_index_map@,
                                start,
                            );
                        }
                        return Err(e);
                    },
                }
            } else {
                let mut defined_here: Vec<FunctionAccessKey> = Vec::new();
                let mut left: Vec<FunctionAccessKey> = Vec::new();
                assert(key_views(defined_here@) =~= Seq::empty());
                assert(key_views(left@) =~= Seq::empty());
                match handle_func_deps_ir(
                    &mut dep_ir,
                    component,
                    func_components,
                    &mut defined_here,
                    func_index_map,
                    func_scope,
                    &mut left,
                ) {
                    Ok(()) => {
                        let mut body = clone_air(&component.ir);
                        append_air(&mut dep_ir, &mut body);
                        set_zero_arg(zero_arg_functions, func, dep_ir);
                        insert_keys(for_zero_arg, &defined_here);
                    },
                    Err(e) => {
                        proof {
                            assert(prepare(
                                order@,
                                (i + 1) as nat,
                                func_components@,
                                func_index_map@,
                                start,
                            ) == Err::<Prepared, Halt>(e));
                            lemma_prepare_fail(
                                order@,
                                (i + 1) as nat,
                                func_components@,
                                func_index_map@,
                                start,
                            );
                        }
                        return Err(e);
                    },
                }
            }
        }
        i = i + 1;
    }
    Ok(())
}

/// What the hoisting of the definitions keeps track of, as its parts hold
/// it.
pub open spec fn hoisting(
    ir: Seq<Air>,
    scopes: KeyedMap<Vec<u64>>,
    defined: Seq<FunctionAccessKey>,
    zero_arg: Seq<ZeroArgFunction>,
) -> Hoisting {
    Hoisting { ir: air_views(ir), scopes: scopes@, registry: registry_of(defined, zero_arg) }
}

/// Puts the definitions of the functions that are to be defined at the
/// instruction at position `at` in front of it.
#[verifier::loop_isolation(false)]
#[verifier::rlimit(80)]
pub fn hoist_to(
    ir_stack: &mut Vec<Air>,
    at: usize,
    scope: &Vec<u64>,
    func_components: &KeyedMap<FuncComponents>,
    in_front: &KeyedMap<Instructions>,
    func_index_map: &mut KeyedMap<Vec<u64>>,
    defined_functions: &mut Vec<FunctionAccessKey>,
    zero_arg_functions: &mut Vec<ZeroArgFunction>,
) -> (r: Result<(), Halt>)
    requires
        func_components.wf(),
        in_front.wf(),
        old(func_index_map).wf(),
    ensures
        final(func_index_map).wf(),
        match r {
            Ok(()) => hoist_at(
                old(func_index_map)@,
                0,
                at as int,
                scope@,
                registry_of(old(defined_functions)@, old(zero_arg_functions)@),
                func_components@,
                in_front@,
                hoisting(
                    old(ir_stack)@,
                    *old(func_index_map),
                    old(defined_functions)@,
                    old(zero_arg_functions)@,
                ),
            ) == Ok::<Hoisting, Halt>(
                hoisting(
                    final(ir_stack)@,
                    *final(func_index_map),
                    final(defined_functions)@,
                    final(zero_arg_functions)@,
                ),
            ) && final(ir_stack)@.len() >= old(ir_stack)@.len() && forall|j: int|
                0 <= j < at && j < old(ir_stack)@.len() ==> final(ir_stack)@[j] == old(ir_stack)@[j],
            Err(e) => hoist_at(
                old(func_index_map)@,
                0,
                at as int,
                scope@,
                registry_of(old(defined_functions)@, old(zero_arg_functions)@),
                func_components@,
                in_front@,
                hoisting(
                    old(ir_stack)@,
                    *old(func_index_map),
                    old(defined_functions)@,
                    old(zero_arg_functions)@,
                ),
            ) == Err::<Hoisting, Halt>(e),
        },
{
    let candidates = snapshot_scopes(func_index_map);
    let ghost cv = snapshot_views(candidates@);
    assert(cv =~= func_index_map@);
    let ghost registry = registry_of(defined_functions@, zero_arg_functions@);
    let ghost first = hoisting(ir_stack@, *func_index_map, defined_functions@, zero_arg_functions@);
    let mut wanted: Vec<bool> = Vec::new();
    let mut j: usize = 0;
    while j < candidates.len()
        invariant
            j <= candidates@.len(),
            wanted@.len() == j,
            forall|n: int| 0 <= n < j ==> wanted@[n] == defined_here(cv[n], scope@, registry),
        decreases candidates@.len() - j,
    {
        assert(cv[j as int] == (candidates@[j as int].0@, candidates@[j as int].1@));
        let ancestor = get_common_ancestor(&candidates[j].1, scope);
        let here = same_scope(&ancestor, scope) && !contains_key(
            defined_functions,
            &candidates[j].0,
        ) && !is_zero_arg(zero_arg_functions, &candidates[j].0);
        wanted.push(here);
        j = j + 1;
    }
    let mut i: usize = 0;
    while i < candidates.len()
        invariant
            i <= candidates@.len(),
            func_index_map.wf(),
            ir_stack@.len() >= old(ir_stack)@.len(),
            forall|n: int|
                0 <= n < at && n < old(ir_stack)@.len() ==> ir_stack@[n] == old(ir_stack)@[n],
            hoist_at(cv, 0, at as int, scope@, registry, func_components@, in_front@, first)
                == hoist_at(
                cv,
                i as nat,
                at as int,
                scope@,
                registry,
                func_components@,
                in_front@,
                hoisting(ir_stack@, *func_index_map, defined_functions@, zero_arg_functions@),
            ),
        decreases candidates@.len() - i,
    {
        assert(cv[i as int] == (candidates@[i as int].0@, candidates@[i as int].1@));
        if wanted[i] {
            let key = &candidates[i].0;
            let func_scope = &candidates[i].1;
            let front = match in_front.get(key) {
                Some(f) => f,
                None => {
                    return Err(Halt::Missing);
                },
            };
            let component = match func_components.get(key) {
                Some(c) => c,
                None => {
                    return Err(Halt::Missing);
                },
            };
            if component.args.len() > 0 {
                let mut body = handle_recursion_ir(key, component)?;
                if at > ir_stack.len() {
                    return Err(Halt::Malformed);
                }
                let mut block = clone_air(&front.0);
                let define = Air::DefineFunc {
                    scope: clone_ids(func_scope),
                    func_name: key.function_name.clone(),
                    module_name: key.module_name.clone(),
                    params: clone_names(&component.args),
                    recursive: component.recursive,
                    variant_name: key.variant_name.clone(),
                };
                assert(define@ == define_func(key@, component@, func_scope@));
                let ghost front_ir = air_views(block@);
                let ghost body_ir = air_views(body@);
                push_air(&mut block, define);
                append_air(&mut block, &mut body);
                assert(air_views(block@) =~= front_ir + seq![define@] + body_ir);
                func_index_map.remove(key);
                insert_key(defined_functions, key.duplicate());
                insert_block(ir_stack, at, block);
            } else {
                let mut full = clone_air(&front.0);
                let mut body = clone_air(&component.ir);
                append_air(&mut full, &mut body);
                func_index_map.remove(key);
                insert_key(defined_functions, key.duplicate());
                set_zero_arg(zero_arg_functions, key.duplicate(), full);
            }
        }
        i = i + 1;
    }
    Ok(())
}

impl<'a> CodeGenerator<'a> {
    /// Hoists the definitions into the instructions: every function is
    /// defined in front of the last instruction whose scope encloses the
    /// scope found for the function.
    #[verifier::loop_isolation(false)]
    #[verifier::rlimit(80)]
    pub fn hoist_definitions(
        &mut self,
        ir_stack: &mut Vec<Air>,
        func_components: &KeyedMap<FuncComponents>,
        in_front: &KeyedMap<Instructions>,
        func_index_map: &mut KeyedMap<Vec<u64>>,
    ) -> (r: Result<(), Halt>)
        requires
            func_components.wf(),
            in_front.wf(),
            old(func_index_map).wf(),
        ensures
            old(self).same_inputs(final(self)),
            old(self).lower_state() == final(self).lower_state(),
            match r {
                Ok(()) => hoist(
                    air_views(old(ir_stack)@),
                    old(ir_stack)@.len(),
                    func_components@,
                    in_front@,
                    Hoisting {
                        ir: air_views(old(ir_stack)@),
                        scopes: old(func_index_map)@,
                        registry: old(self).registry(),
                    },
                ) == Ok::<Hoisting, Halt>(
                    Hoisting {
                        ir: air_views(final(ir_stack)@),
                        scopes: final(func_index_map)@,
                        registry: final(self).registry(),
                    },
                ),
                Err(e) => hoist(
                    air_views(old(ir_stack)@),
                    old(ir_stack)@.len(),
                    func_components@,
                    in_front@,
                    Hoisting {
                        ir: air_views(old(ir_stack)@),
                        scopes: old(func_index_map)@,
                        registry: old(self).registry(),
                    },
                ) == Err::<Hoisting, Halt>(e),
            },
    {
        let ghost original = air_views(ir_stack@);
        let ghost first = Hoisting {
            ir: original,
            scopes: func_index_map@,
            registry: self.registry(),
        };
        let mut k: usize = ir_stack.len();
        while k > 0
            invariant
                k <= original.len(),
                k <= ir_stack@.len(),
                func_index_map.wf(),
                old(self).same_inputs(self),
                old(self).lower_state() == self.lower_state(),
                forall|n: int| 0 <= n < k ==> (#[trigger] ir_stack@[n]) == old(ir_stack)@[n],
                hoist(original, original.len(), func_components@, in_front@, first) == hoist(
                    original,
                    k as nat,
                    func_components@,
                    in_front@,
                    Hoisting {
                        ir: air_views(ir_stack@),
                        scopes: func_index_map@,
                        registry: self.registry(),
                    },
                ),
            decreases k,
        {
            assert(original[k - 1] == old(ir_stack)@[k - 1]@);
            let scope = ir_stack[k - 1].scope();
            match hoist_to(
                ir_stack,
                k - 1,
                &scope,
                func_components,
                in_front,
                func_index_map,
                &mut self.defined_functions,
                &mut self.zero_arg_functions,
            ) {
                Ok(()) => {},
                Err(e) => {
                    return Err(e);
                },
            }
            k = k - 1;
        }
        Ok(())
    }

    /// Plans the definitions of the functions that a program needs and puts
    /// them into the instructions. The outcome is what `plan_definitions`
    /// says, failures included.
    pub fn define_ir(&mut self, ir_stack: &mut Vec<Air>) -> (r: Result<(), Halt>)
        ensures
            old(self).same_inputs(final(self)),
            match r {
                Ok(()) => plan_definitions(
                    air_views(old(ir_stack)@),
                    old(self).registry(),
                    old(self).lower_state(),
                    old(self).lower_env(),
                ) == Ok::<Planned, Halt>(
                    Planned {
                        ir: air_views(final(ir_stack)@),
                        registry: final(self).registry(),
                        st: final(self).lower_state(),
                    },
                ),
                Err(e) => plan_definitions(
                    air_views(old(ir_stack)@),
                    old(self).registry(),
                    old(self).lower_state(),
                    old(self).lower_env(),
                ) == Err::<Planned, Halt>(e),
            },
    {
        let mut func_components: KeyedMap<FuncComponents> = KeyedMap::new();
        let mut func_index_map: KeyedMap<Vec<u64>> = KeyedMap::new();
        let recursion: Vec<FunctionAccessKey> = Vec::new();
        assert(func_components@ =~= Seq::empty());
        assert(func_index_map@ =~= Seq::empty());
        assert(key_views(recursion@) =~= Seq::empty());
        self.define_recurse_ir(
            ir_stack,
            &mut func_components,
            &mut func_index_map,
            recursion,
            0xffff_ffff,
        )?;
        let order = order_dependencies(keys_in_order(&func_components), &func_components)?;
        let mut in_front: KeyedMap<Instructions> = KeyedMap::new();
        let mut for_zero_arg: Vec<FunctionAccessKey> = Vec::new();
        let mut to_define: Vec<FunctionAccessKey> = Vec::new();
        assert(in_front@ =~= Seq::empty());
        assert(key_views(for_zero_arg@) =~= Seq::empty());
        assert(key_views(to_define@) =~= Seq::empty());
        prepare_definitions(
            &mut self.defined_functions,
            &mut self.zero_arg_functions,
            &order,
            &func_components,
            &func_index_map,
            &mut in_front,
            &mut for_zero_arg,
            &mut to_define,
        )?;
        settle_for_zero_arg(&mut self.defined_functions, &for_zero_arg, &to_define);
        self.hoist_definitions(ir_stack, &func_components, &in_front, &mut func_index_map)
    }
}

} // verus!
