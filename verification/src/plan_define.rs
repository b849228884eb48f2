use vstd::prelude::*;
use crate::air::{air_views, Air, AirView};
use crate::ast::TypedFunction;
use crate::builder::{get_common_ancestor, key_views, FunctionAccessKey, KeyView};
use crate::error::Halt;
use crate::expr_spec::{LowerEnv, LowerState};
use crate::generator::CodeGenerator;
use crate::lower_expr::find_function;
use crate::maps::{position, KeyedMap};
use crate::mono::monomorphize;
use crate::plan::{
    contains_key,
    encloses,
    generics_of_call,
    insert_key,
    parameters_of_definition,
    remove_key,
    same_scope,
    FuncComponents,
};
use crate::plan_spec::{
    called_function,
    function_calls,
    instantiate,
    process_define,
    process_down,
    process_reference,
    settle,
    settle_rest,
    Calls,
    Instance,
    PlanState,
    Scopes,
};
use crate::text::clone_ids;
use crate::tipo::{Type, ValueConstructorVariant};

verus! {

/// The state of the search for functions, as its parts hold it.
pub open spec fn plan_state(
    ir: Seq<Air>,
    to_define: KeyedMap<Vec<u64>>,
    components: KeyedMap<FuncComponents>,
    scopes: KeyedMap<Vec<u64>>,
    st: LowerState,
) -> PlanState {
    PlanState {
        ir: air_views(ir),
        to_define: to_define@,
        components: components@,
        scopes: scopes@,
        st,
    }
}

proof fn lemma_function_calls_fail(
    ir: Seq<AirView>,
    k: nat,
    key: KeyView,
    scope: Seq<u64>,
    st: LowerState,
    env: LowerEnv,
)
    requires
        k <= ir.len(),
        function_calls(ir, k, key, scope, st, env) is Err,
    ensures
        function_calls(ir, ir.len(), key, scope, st, env) == function_calls(
            ir,
            k,
            key,
            scope,
            st,
            env,
        ),
    decreases ir.len() - k,
{
    if k < ir.len() {
        assert(function_calls(ir, k + 1, key, scope, st, env) == function_calls(
            ir,
            k,
            key,
            scope,
            st,
            env,
        ));
        lemma_function_calls_fail(ir, k + 1, key, scope, st, env);
    }
}

/// A copy of the entries of a map of scopes, in their order.
pub fn snapshot_scopes(map: &KeyedMap<Vec<u64>>) -> (r: Vec<(FunctionAccessKey, Vec<u64>)>)
    requires
        map.wf(),
    ensures
        r@.len() == map@.len(),
        forall|i: int| 0 <= i < r@.len() ==> (#[trigger] r@[i]).0@ == map@[i].0 && r@[i].1@ == map@[i].1,
{
    let mut out: Vec<(FunctionAccessKey, Vec<u64>)> = Vec::new();
    let mut i: usize = 0;
    while i < map.len()
        invariant
            i <= map@.len(),
            map.wf(),
            out@.len() == i,
            forall|j: int|
                0 <= j < i ==> (#[trigger] out@[j]).0@ == map@[j].0 && out@[j].1@ == map@[j].1,
        decreases map@.len() - i,
    {
        out.push((map.key_at(i), clone_ids(map.value_at(i))));
        i = i + 1;
    }
    out
}

/// The views of a copy of the entries of a map of scopes.
pub open spec fn snapshot_views(items: Seq<(FunctionAccessKey, Vec<u64>)>) -> Scopes {
    Seq::new(items.len(), |i: int| (items[i].0@, items[i].1@))
}

/// An instruction that is no reference, met on the way up: the functions
/// that wait and whose scope lies within the instruction's scope are
/// settled.
pub fn settle_waiting(
    scope: &Vec<u64>,
    to_define: &mut KeyedMap<Vec<u64>>,
    scopes: &mut KeyedMap<Vec<u64>>,
)
    requires
        old(to_define).wf(),
        old(scopes).wf(),
    ensures
        final(to_define).wf(),
        final(scopes).wf(),
        (final(to_define)@, final(scopes)@) == settle(
            old(to_define)@,
            0,
            scope@,
            old(to_define)@,
            old(scopes)@,
        ),
{
    let waiting = snapshot_scopes(to_define);
    let ghost wv = snapshot_views(waiting@);
    assert(wv =~= to_define@);
    let ghost td0 = to_define@;
    let ghost sc0 = scopes@;
    let mut i: usize = 0;
    while i < waiting.len()
        invariant
            i <= waiting@.len(),
            to_define.wf(),
            scopes.wf(),
            wv == snapshot_views(waiting@),
            settle(wv, 0, scope@, td0, sc0) == settle(wv, i as nat, scope@, to_define@, scopes@),
        decreases waiting@.len() - i,
    {
        assert(wv[i as int] == (waiting@[i as int].0@, waiting@[i as int].1@));
        let key = &waiting[i].0;
        let wanted = &waiting[i].1;
        let ancestor = get_common_ancestor(scope, wanted);
        if same_scope(&ancestor, scope) {
            let known = match scopes.get(key) {
                Some(k) => Some(clone_ids(k)),
                None => None,
            };
            match known {
                Some(known) => {
                    let both = get_common_ancestor(&known, wanted);
                    if same_scope(&both, scope) {
                        scopes.insert(key, clone_ids(scope));
                        to_define.shift_remove(key);
                    } else {
                        to_define.insert(key, both);
                    }
                },
                None => {
                    scopes.insert(key, clone_ids(scope));
                    to_define.shift_remove(key);
                },
            }
        }
        i = i + 1;
    }
}

/// The functions that still wait, settled at the scope that encloses the
/// scope they wait with and the scope known for them.
#[verifier::loop_isolation(false)]
pub fn settle_remaining(to_define: &KeyedMap<Vec<u64>>, scopes: &mut KeyedMap<Vec<u64>>) -> (r:
    Result<(), Halt>)
    requires
        to_define.wf(),
        old(scopes).wf(),
    ensures
        final(scopes).wf(),
        match r {
            Ok(()) => settle_rest(to_define@, 0, old(scopes)@) == Ok::<Scopes, Halt>(
                final(scopes)@,
            ),
            Err(e) => settle_rest(to_define@, 0, old(scopes)@) == Err::<Scopes, Halt>(e),
        },
{
    let waiting = snapshot_scopes(to_define);
    let ghost wv = snapshot_views(waiting@);
    assert(wv =~= to_define@);
    let ghost sc0 = scopes@;
    let mut i: usize = 0;
    while i < waiting.len()
        invariant
            i <= waiting@.len(),
            scopes.wf(),
            settle_rest(wv, 0, sc0) == settle_rest(wv, i as nat, scopes@),
        decreases waiting@.len() - i,
    {
        assert(wv[i as int] == (waiting@[i as int].0@, waiting@[i as int].1@));
        let key = &waiting[i].0;
        let known = match scopes.get(key) {
            Some(k) => clone_ids(k),
            None => {
                return Err(Halt::Missing);
            },
        };
        scopes.insert(key, get_common_ancestor(&waiting[i].1, &known));
        i = i + 1;
    }
    Ok(())
}

impl<'a> CodeGenerator<'a> {
    /// Lowers the body of a function in a scope and specialises it to the
    /// type it is used at. The result is the name of the variant and the
    /// instructions.
    pub fn instantiate_function(&mut self, function: &TypedFunction, tipo: &Type, scope: &Vec<u64>) -> (r:
        Result<(String, Vec<Air>), Halt>)
        ensures
            match r {
                Ok(out) => instantiate(
                    *function,
                    tipo@,
                    scope@,
                    old(self).lower_state(),
                    old(self).lower_env(),
                ) == Ok::<Instance, Halt>(
                    Instance {
                        variant_name: out.0@,
                        ir: air_views(out.1@),
                        st: final(self).lower_state(),
                    },
                ),
                Err(e) => instantiate(
                    *function,
                    tipo@,
                    scope@,
                    old(self).lower_state(),
                    old(self).lower_env(),
                ) == Err::<Instance, Halt>(e),
            },
            old(self).same_tables(final(self)),
    {
        let mut func_ir: Vec<Air> = Vec::new();
        assert(air_views(func_ir@) =~= Seq::empty());
        self.build_ir(&function.body, &mut func_ir, clone_ids(scope))?;
        assert(Seq::<AirView>::empty() + air_views(func_ir@) =~= air_views(func_ir@));
        let params = match tipo.arg_types() {
            Some(p) => p,
            None => {
                return Err(Halt::ImpossibleShape);
            },
        };
        let generics = generics_of_call(&function.arguments, &params)?;
        monomorphize(func_ir, &generics, tipo)
    }

    /// The function that a reference inside the body of `key` calls.
    pub fn function_called(&mut self, ir: &Air, key: &FunctionAccessKey, scope: &Vec<u64>) -> (r:
        Result<Option<FunctionAccessKey>, Halt>)
        ensures
            match r {
                Ok(Some(called)) => called_function(
                    ir@,
                    key@,
                    scope@,
                    old(self).lower_state(),
                    old(self).lower_env(),
                ) == Ok::<Option<(KeyView, LowerState)>, Halt>(
                    Some((called@, final(self).lower_state())),
                ),
                Ok(None) => called_function(
                    ir@,
                    key@,
                    scope@,
                    old(self).lower_state(),
                    old(self).lower_env(),
                ) == Ok::<Option<(KeyView, LowerState)>, Halt>(None) && final(self).lower_state()
                    == old(self).lower_state(),
                Err(e) => called_function(
                    ir@,
                    key@,
                    scope@,
                    old(self).lower_state(),
                    old(self).lower_env(),
                ) == Err::<Option<(KeyView, LowerState)>, Halt>(e),
            },
            old(self).same_tables(final(self)),
    {
        match ir {
            Air::Var { constructor, .. } => match &constructor.variant {
                ValueConstructorVariant::ModuleFn { name, module, .. } => {
                    let plain = FunctionAccessKey {
                        module_name: module.clone(),
                        function_name: name.clone(),
                        variant_name: String::new(),
                    };
                    let as_variant = FunctionAccessKey {
                        module_name: module.clone(),
                        function_name: name.clone(),
                        variant_name: key.variant_name.clone(),
                    };
                    if key.same(&as_variant) {
                        Ok(Some(as_variant))
                    } else {
                        let functions = self.functions;
                        let empty = String::new();
                        match find_function(functions, module, name, &empty) {
                            Some(function) => {
                                let is_fn = match &constructor.tipo {
                                    Type::Fn { .. } => true,
                                    _ => false,
                                };
                                if is_fn {
                                    let (variant_name, _) = self.instantiate_function(
                                        function,
                                        &constructor.tipo,
                                        scope,
                                    )?;
                                    Ok(
                                        Some(
                                            FunctionAccessKey {
                                                module_name: module.clone(),
                                                function_name: name.clone(),
                                                variant_name,
                                            },
                                        ),
                                    )
                                } else {
                                    Ok(Some(plain))
                                }
                            },
                            None => Ok(Some(plain)),
                        }
                    }
                },
                _ => Ok(None),
            },
            _ => Ok(None),
        }
    }

    /// The functions that the body of `key` calls, each once, in the order
    /// of their first call.
    #[verifier::loop_isolation(false)]
    pub fn functions_called(&mut self, ir: &Vec<Air>, key: &FunctionAccessKey, scope: &Vec<u64>) -> (r:
        Result<Vec<FunctionAccessKey>, Halt>)
        ensures
            match r {
                Ok(keys) => function_calls(
                    air_views(ir@),
                    ir@.len(),
                    key@,
                    scope@,
                    old(self).lower_state(),
                    old(self).lower_env(),
                ) == Ok::<Calls, Halt>(
                    Calls { keys: key_views(keys@), st: final(self).lower_state() },
                ),
                Err(e) => function_calls(
                    air_views(ir@),
                    ir@.len(),
                    key@,
                    scope@,
                    old(self).lower_state(),
                    old(self).lower_env(),
                ) == Err::<Calls, Halt>(e),
            },
            old(self).same_tables(final(self)),
    {
        let ghost views = air_views(ir@);
        let ghost st0 = self.lower_state();
        let ghost env = self.lower_env();
        let mut keys: Vec<FunctionAccessKey> = Vec::new();
        let mut i: usize = 0;
        assert(key_views(keys@) =~= Seq::empty());
        while i < ir.len()
            invariant
                i <= ir@.len(),
                env == self.lower_env(),
                old(self).same_tables(self),
                function_calls(views, i as nat, key@, scope@, st0, env) == Ok::<Calls, Halt>(
                    Calls { keys: key_views(keys@), st: self.lower_state() },
                ),
            decreases ir@.len() - i,
        {
            assert(views[i as int] == ir@[i as int]@);
            match self.function_called(&ir[i], key, scope) {
                Ok(Some(called)) => {
                    insert_key(&mut keys, called);
                },
                Ok(None) => {},
                Err(e) => {
                    proof {
                        assert(function_calls(views, (i + 1) as nat, key@, scope@, st0, env)
                            == Err::<Calls, Halt>(e));
                        lemma_function_calls_fail(views, (i + 1) as nat, key@, scope@, st0, env);
                    }
                    return Err(e);
                },
            }
            i = i + 1;
        }
        Ok(keys)
    }

    /// Deals with the reference to a function at a position.
    #[verifier::rlimit(60)]
    pub fn process_reference_at(
        &mut self,
        ir_stack: &mut Vec<Air>,
        at: usize,
        to_define: &mut KeyedMap<Vec<u64>>,
        func_components: &mut KeyedMap<FuncComponents>,
    ) -> (r: Result<(), Halt>)
        requires
            at < old(ir_stack)@.len(),
            old(ir_stack)@[at as int] is Var,
            old(to_define).wf(),
            old(func_components).wf(),
        ensures
            final(to_define).wf(),
            final(func_components).wf(),
            final(ir_stack)@.len() == old(ir_stack)@.len(),
            old(self).same_tables(final(self)),
            forall|scopes: Scopes|
                match r {
                    Ok(()) => #[trigger] process_reference(
                        PlanState {
                            ir: air_views(old(ir_stack)@),
                            to_define: old(to_define)@,
                            components: old(func_components)@,
                            scopes,
                            st: old(self).lower_state(),
                        },
                        at as int,
                        old(self).lower_env(),
                    ) == Ok::<PlanState, Halt>(
                        PlanState {
                            ir: air_views(final(ir_stack)@),
                            to_define: final(to_define)@,
                            components: final(func_components)@,
                            scopes,
                            st: final(self).lower_state(),
                        },
                    ),
                    Err(e) => #[trigger] process_reference(
                        PlanState {
                            ir: air_views(old(ir_stack)@),
                            to_define: old(to_define)@,
                            components: old(func_components)@,
                            scopes,
                            st: old(self).lower_state(),
                        },
                        at as int,
                        old(self).lower_env(),
                    ) == Err::<PlanState, Halt>(e),
                },
    {
        let ghost start = air_views(ir_stack@);
        assert(start[at as int] == ir_stack@[at as int]@);
        let (scope, constructor) = match &ir_stack[at] {
            Air::Var { scope, constructor, .. } => (clone_ids(scope), constructor.duplicate()),
            _ => {
                return Ok(());
            },
        };
        let (name, module) = match &constructor.variant {
            ValueConstructorVariant::ModuleFn { name, module, builtin: None, .. } => (
                name.clone(),
                module.clone(),
            ),
            _ => {
                return Ok(());
            },
        };
        let functions = self.functions;
        let empty = String::new();
        let function = match find_function(functions, &module, &name, &empty) {
            Some(f) => f,
            None => {
                return Err(Halt::Missing);
            },
        };
        let (variant_name, func_ir) = self.instantiate_function(function, &constructor.tipo, &scope)?;
        let key = FunctionAccessKey {
            module_name: module,
            function_name: name.clone(),
            variant_name: variant_name.clone(),
        };
        let rewritten = Air::Var {
            scope: clone_ids(&scope),
            constructor,
            name,
            variant_name,
        };
        let ghost rv = rewritten@;
        ir_stack.set(at, rewritten);
        assert(air_views(ir_stack@) =~= start.update(at as int, rv));
        let previous = match to_define.get(&key) {
            Some(p) => Some(clone_ids(p)),
            None => None,
        };
        match previous {
            Some(previous) => {
                to_define.insert(&key, get_common_ancestor(&scope, &previous));
                Ok(())
            },
            None => {
                if func_components.contains_key(&key) {
                    to_define.insert(&key, scope);
                    Ok(())
                } else {
                    let calls = self.functions_called(&func_ir, &key, &scope)?;
                    to_define.insert(&key, scope);
                    let recursive = contains_key(&calls, &key);
                    let dependencies = remove_key(&calls, &key);
                    func_components.insert(
                        &key,
                        FuncComponents {
                            ir: func_ir,
                            dependencies,
                            args: parameters_of_definition(&function.arguments),
                            recursive,
                        },
                    );
                    Ok(())
                }
            },
        }
    }

    /// Finds the functions that a list of instructions refers to: every
    /// reference is rewritten to name its variant, every function is entered
    /// with its components, and for every function the scope is found at
    /// which it is to be defined.
    #[verifier::rlimit(60)]
    pub fn process_define_ir(
        &mut self,
        ir_stack: &mut Vec<Air>,
        func_components: &mut KeyedMap<FuncComponents>,
        func_index_map: &mut KeyedMap<Vec<u64>>,
    ) -> (r: Result<(), Halt>)
        requires
            old(func_components).wf(),
            old(func_index_map).wf(),
        ensures
            final(func_components).wf(),
            final(func_index_map).wf(),
            old(self).same_tables(final(self)),
            match r {
                Ok(()) => match process_define(
                    air_views(old(ir_stack)@),
                    old(func_components)@,
                    old(func_index_map)@,
                    old(self).lower_state(),
                    old(self).lower_env(),
                ) {
                    Ok(state) => state.ir == air_views(final(ir_stack)@) && state.components
                        == final(func_components)@ && state.scopes == final(func_index_map)@
                        && state.st == final(self).lower_state(),
                    Err(_) => false,
                },
                Err(e) => process_define(
                    air_views(old(ir_stack)@),
                    old(func_components)@,
                    old(func_index_map)@,
                    old(self).lower_state(),
                    old(self).lower_env(),
                ) == Err::<PlanState, Halt>(e),
            },
    {
        let ghost env = self.lower_env();
        let mut to_define: KeyedMap<Vec<u64>> = KeyedMap::new();
        assert(to_define@ =~= Seq::empty());
        let ghost first = plan_state(
            ir_stack@,
            to_define,
            *func_components,
            *func_index_map,
            self.lower_state(),
        );
        let mut k: usize = ir_stack.len();
        while k > 0
            invariant
                k <= ir_stack@.len(),
                ir_stack@.len() == first.ir.len(),
                to_define.wf(),
                func_components.wf(),
                func_index_map.wf(),
                env == self.lower_env(),
                old(self).same_tables(self),
first.ir == air_views(old(ir_stack)@),
                first.to_define.len() == 0,
                first.components == old(func_components)@,
                first.scopes == old(func_index_map)@,
                first.st == old(self).lower_state(),
                process_down(first, first.ir.len(), env) == process_down(
                    plan_state(
                        ir_stack@,
                        to_define,
                        *func_components,
                        *func_index_map,
                        self.lower_state(),
                    ),
                    k as nat,
                    env,
                ),
            decreases k,
        {
            let ghost before = plan_state(
                ir_stack@,
                to_define,
                *func_components,
                *func_index_map,
                self.lower_state(),
            );
            assert(before.ir[k - 1] == ir_stack@[k - 1]@);
            let is_var = match &ir_stack[k - 1] {
                Air::Var { .. } => true,
                _ => false,
            };
            if is_var {
                match self.process_reference_at(ir_stack, k - 1, &mut to_define, func_components) {
                    Ok(()) => {
                        assert(process_reference(before, k - 1, env) == Ok::<PlanState, Halt>(
                            plan_state(
                                ir_stack@,
                                to_define,
                                *func_components,
                                *func_index_map,
                                self.lower_state(),
                            ),
                        ));
                    },
                    Err(e) => {
                        assert(process_reference(before, k - 1, env) == Err::<PlanState, Halt>(e));
                        assert(process_down(before, k as nat, env) == Err::<PlanState, Halt>(e));
                        assert(first.to_define =~= Seq::empty());
                        assert(first == (PlanState {
                            ir: air_views(old(ir_stack)@),
                            to_define: Seq::empty(),
                            components: old(func_components)@,
                            scopes: old(func_index_map)@,
                            st: old(self).lower_state(),
                        }));
                        return Err(e);
                    },
                }
            } else {
                let scope = ir_stack[k - 1].scope();
                settle_waiting(&scope, &mut to_define, func_index_map);
            }
            k = k - 1;
        }
        assert(first.to_define =~= Seq::empty());
        assert(first == (PlanState {
            ir: air_views(old(ir_stack)@),
            to_define: Seq::empty(),
            components: old(func_components)@,
            scopes: old(func_index_map)@,
            st: old(self).lower_state(),
        }));
        settle_remaining(&to_define, func_index_map)
    }
}

} // verus!
