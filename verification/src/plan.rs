use vstd::prelude::*;
use crate::air::{air_views, clone_air, Air, AirView};
use crate::ast::{ArgName, TypedArg};
use crate::builder::{common_ancestor, get_common_ancestor, key_views, FunctionAccessKey, KeyView};
use crate::error::Halt;
use crate::lower_pattern::{append_air, push_air};
use crate::maps::KeyedMap;
use crate::mono::{assignment_views, get_generics_and_type};
use crate::plan_spec::{
    define_func,
    definition_parameters,
    dependency_order,
    function_dependencies,
    generics_for,
    has_key,
    place_dependencies,
    recursion_ir,
    reference_key,
    rewired,
    step_limit,
    with_key,
    without_key,
    Components,
    ComponentsView,
    Placing,
    Scopes,
};
use crate::text::{clone_ids, clone_names, name_views};
use crate::tipo::{type_views, Type, TypeView, ValueConstructorVariant};

verus! {

/// What is known of a function that the program needs.
#[derive(Debug)]
pub struct FuncComponents {
    pub ir: Vec<Air>,
    pub dependencies: Vec<FunctionAccessKey>,
    pub args: Vec<String>,
    pub recursive: bool,
}

impl View for FuncComponents {
    type V = ComponentsView;

    open spec fn view(&self) -> ComponentsView {
        ComponentsView {
            ir: air_views(self.ir@),
            dependencies: key_views(self.dependencies@),
            args: name_views(self.args@),
            recursive: self.recursive,
        }
    }
}

/// A copy of a list of keys.
pub fn clone_keys(keys: &Vec<FunctionAccessKey>) -> (r: Vec<FunctionAccessKey>)
    ensures
        key_views(r@) == key_views(keys@),
{
    let mut out: Vec<FunctionAccessKey> = Vec::new();
    let mut i: usize = 0;
    while i < keys.len()
        invariant
            i <= keys.len(),
            out@.len() == i,
            forall|j: int| 0 <= j < i ==> out@[j]@ == keys@[j]@,
        decreases keys.len() - i,
    {
        out.push(keys[i].duplicate());
        i = i + 1;
    }
    assert(key_views(out@) =~= key_views(keys@));
    out
}

impl FuncComponents {
    pub fn duplicate(&self) -> (r: FuncComponents)
        ensures
            r@ == self@,
    {
        FuncComponents {
            ir: clone_air(&self.ir),
            dependencies: clone_keys(&self.dependencies),
            args: clone_names(&self.args),
            recursive: self.recursive,
        }
    }
}

/// Whether a key occurs among the keys.
pub fn contains_key(keys: &Vec<FunctionAccessKey>, key: &FunctionAccessKey) -> (r: bool)
    ensures
        r == has_key(key_views(keys@), key@),
{
    let ghost views = key_views(keys@);
    let mut i: usize = 0;
    while i < keys.len()
        invariant
            i <= keys.len(),
            views == key_views(keys@),
            forall|j: int| 0 <= j < i ==> views[j] != key@,
        decreases keys.len() - i,
    {
        assert(views[i as int] == keys@[i as int]@);
        if keys[i].same(key) {
            return true;
        }
        i = i + 1;
    }
    false
}

/// Adds a key behind the others, unless it is among them.
pub fn insert_key(keys: &mut Vec<FunctionAccessKey>, key: FunctionAccessKey)
    ensures
        key_views(final(keys)@) == with_key(key_views(old(keys)@), key@),
{
    if !contains_key(keys, &key) {
        let ghost before = key_views(keys@);
        keys.push(key);
        assert(key_views(keys@) =~= before.push(key@));
    }
}

/// The keys without the given one, in their order.
pub fn remove_key(keys: &Vec<FunctionAccessKey>, key: &FunctionAccessKey) -> (r: Vec<
    FunctionAccessKey,
>)
    ensures
        key_views(r@) == without_key(key_views(keys@), key@, keys@.len()),
{
    let ghost views = key_views(keys@);
    let mut out: Vec<FunctionAccessKey> = Vec::new();
    let mut i: usize = 0;
    assert(key_views(out@) =~= Seq::empty());
    while i < keys.len()
        invariant
            i <= keys.len(),
            views == key_views(keys@),
            key_views(out@) == without_key(views, key@, i as nat),
        decreases keys.len() - i,
    {
        assert(views[i as int] == keys@[i as int]@);
        if !keys[i].same(key) {
            let ghost before = key_views(out@);
            out.push(keys[i].duplicate());
            assert(key_views(out@) =~= before.push(views[i as int]));
        }
        i = i + 1;
    }
    out
}

/// The key that a reference to a function of a module stands for.
pub fn key_of_reference(ir: &Air) -> (r: Option<FunctionAccessKey>)
    ensures
        match r {
            Some(k) => reference_key(ir@) == Some(k@),
            None => reference_key(ir@).is_none(),
        },
{
    match ir {
        Air::Var { constructor, variant_name, .. } => match &constructor.variant {
            ValueConstructorVariant::ModuleFn { name, module, .. } => Some(
                FunctionAccessKey {
                    module_name: module.clone(),
                    function_name: name.clone(),
                    variant_name: variant_name.clone(),
                },
            ),
            _ => None,
        },
        _ => None,
    }
}

/// The instructions of the body of a function as they are put into the
/// program: for a function that calls itself, every call of the function
/// passes the function itself as a further argument.
#[verifier::loop_isolation(false)]
pub fn handle_recursion_ir(func_key: &FunctionAccessKey, func_comp: &FuncComponents) -> (r: Result<
    Vec<Air>,
    Halt,
>)
    ensures
        match r {
            Ok(ir) => recursion_ir(func_key@, func_comp@) == Ok::<Seq<AirView>, Halt>(
                air_views(ir@),
            ),
            Err(e) => recursion_ir(func_key@, func_comp@) == Err::<Seq<AirView>, Halt>(e),
        },
{
    let mut ir = clone_air(&func_comp.ir);
    if !func_comp.recursive {
        return Ok(ir);
    }
    let ghost start = air_views(ir@);
    let mut k: usize = ir.len();
    while k > 0
        invariant
            k <= ir@.len(),
            rewired(start, func_key@, start.len()) == rewired(air_views(ir@), func_key@, k as nat),
        decreases k,
    {
        let ghost current = air_views(ir@);
        assert(current[k - 1] == ir@[k - 1]@);
        let is_self = match key_of_reference(&ir[k - 1]) {
            Some(found) => found.same(func_key),
            None => false,
        };
        if is_self {
            if k == 1 {
                return Err(Halt::ImpossibleShape);
            }
            assert(current[k - 2] == ir@[k - 2]@);
            let (call_scope, count) = match &ir[k - 2] {
                Air::Call { scope, count } => (clone_ids(scope), *count),
                _ => {
                    return Err(Halt::ImpossibleShape);
                },
            };
            if count == usize::MAX {
                return Err(Halt::Malformed);
            }
            let copy = match &ir[k - 1] {
                Air::Var { scope, constructor, variant_name, .. } => Air::Var {
                    scope: clone_ids(scope),
                    constructor: constructor.duplicate(),
                    name: func_key.function_name.clone(),
                    variant_name: variant_name.clone(),
                },
                other => other.duplicate(),
            };
            let call = Air::Call { scope: call_scope, count: count + 1 };
            let ghost call_view = call@;
            let ghost copy_view = copy@;
            ir.set(k - 2, call);
            assert(air_views(ir@) =~= current.update(k - 2, call_view));
            ir.insert(k - 1, copy);
            assert(air_views(ir@) =~= current.update(k - 2, call_view).insert(k - 1, copy_view));
        }
        k = k - 1;
    }
    Ok(ir)
}

/// Puts functions in the order in which they are dealt with.
#[verifier::loop_isolation(false)]
pub fn order_dependencies(
    stack: Vec<FunctionAccessKey>,
    func_components: &KeyedMap<FuncComponents>,
) -> (r: Result<KeyedMap<()>, Halt>)
    requires
        func_components.wf(),
    ensures
        match r {
            Ok(order) => order.wf() && dependency_order(
                key_views(stack@),
                Seq::empty(),
                func_components@,
                step_limit(),
            ) == Ok::<Seq<(KeyView, ())>, Halt>(order@),
            Err(e) => dependency_order(
                key_views(stack@),
                Seq::empty(),
                func_components@,
                step_limit(),
            ) == Err::<Seq<(KeyView, ())>, Halt>(e),
        },
{
    let ghost start = key_views(stack@);
    let mut stack = stack;
    let mut order: KeyedMap<()> = KeyedMap::new();
    let mut fuel: u32 = 0xffff_ffff;
    assert(order@ =~= Seq::empty());
    while stack.len() > 0
        invariant
            order.wf(),
            func_components.wf(),
            dependency_order(start, Seq::empty(), func_components@, step_limit())
                == dependency_order(key_views(stack@), order@, func_components@, fuel as nat),
        decreases fuel,
    {
        if fuel == 0 {
            return Err(Halt::Unsupported);
        }
        let ghost before = key_views(stack@);
        let dependency = stack.pop().unwrap();
        assert(dependency@ == before.last());
        assert(key_views(stack@) =~= before.drop_last());
        match func_components.get(&dependency) {
            None => {
                return Err(Halt::Missing);
            },
            Some(c) => {
                order.shift_remove(&dependency);
                order.insert(&dependency, ());
                let mut more = clone_keys(&c.dependencies);
                let ghost rest = key_views(stack@);
                let ghost added = key_views(more@);
                stack.append(&mut more);
                assert(key_views(stack@) =~= rest + added);
            },
        }
        fuel = fuel - 1;
    }
    Ok(order)
}

/// The state of placing dependencies, as its parts hold it.
pub open spec fn placing(
    ir: Seq<Air>,
    defined: Seq<FunctionAccessKey>,
    to_define: Seq<FunctionAccessKey>,
) -> Placing {
    Placing { ir: air_views(ir), defined: key_views(defined), to_define: key_views(to_define) }
}

proof fn lemma_place_dependencies_fail(
    order: Seq<(KeyView, ())>,
    k: nat,
    zero_arg: bool,
    func_scope: Seq<u64>,
    components: Components,
    scopes: Scopes,
    start: Placing,
)
    requires
        k <= order.len(),
        place_dependencies(order, k, zero_arg, func_scope, components, scopes, start) is Err,
    ensures
        place_dependencies(order, order.len(), zero_arg, func_scope, components, scopes, start)
            == place_dependencies(order, k, zero_arg, func_scope, components, scopes, start),
    decreases order.len() - k,
{
    if k < order.len() {
        assert(place_dependencies(order, k + 1, zero_arg, func_scope, components, scopes, start)
            == place_dependencies(order, k, zero_arg, func_scope, components, scopes, start));
        lemma_place_dependencies_fail(order, k + 1, zero_arg, func_scope, components, scopes, start);
    }
}

/// Whether two scopes are the same.
pub fn same_scope(a: &Vec<u64>, b: &Vec<u64>) -> (r: bool)
    ensures
        r == (a@ == b@),
{
    if a.len() != b.len() {
        return false;
    }
    let mut i: usize = 0;
    while i < a.len()
        invariant
            i <= a.len(),
            a@.len() == b@.len(),
            forall|j: int| 0 <= j < i ==> a@[j] == b@[j],
        decreases a.len() - i,
    {
        if a[i] != b[i] {
            return false;
        }
        i = i + 1;
    }
    assert(a@ =~= b@);
    true
}

/// Whether the first scope encloses the second: their common ancestor is the
/// first.
pub fn encloses(outer: &Vec<u64>, inner: &Vec<u64>) -> (r: bool)
    ensures
        r == (common_ancestor(inner@, outer@) == outer@),
{
    let ancestor = get_common_ancestor(inner, outer);
    same_scope(&ancestor, outer)
}

/// Places the definitions of the functions that a function depends on in
/// front of it: they go to the front of `dep_ir`.
#[verifier::loop_isolation(false)]
#[verifier::rlimit(60)]
pub fn handle_func_deps_ir(
    dep_ir: &mut Vec<Air>,
    funt_comp: &FuncComponents,
    func_components: &KeyedMap<FuncComponents>,
    defined_functions: &mut Vec<FunctionAccessKey>,
    func_index_map: &KeyedMap<Vec<u64>>,
    func_scope: &Vec<u64>,
    to_be_defined: &mut Vec<FunctionAccessKey>,
) -> (r: Result<(), Halt>)
    requires
        func_components.wf(),
        func_index_map.wf(),
        old(dep_ir)@.len() == 0,
    ensures
        match r {
            Ok(()) => function_dependencies(
                funt_comp@,
                func_scope@,
                func_components@,
                func_index_map@,
                key_views(old(defined_functions)@),
                key_views(old(to_be_defined)@),
            ) == Ok::<Placing, Halt>(
                placing(final(dep_ir)@, final(defined_functions)@, final(to_be_defined)@),
            ),
            Err(e) => function_dependencies(
                funt_comp@,
                func_scope@,
                func_components@,
                func_index_map@,
                key_views(old(defined_functions)@),
                key_views(old(to_be_defined)@),
            ) == Err::<Placing, Halt>(e),
        },
{
    let order = order_dependencies(clone_keys(&funt_comp.dependencies), func_components)?;
    let zero_arg = funt_comp.args.len() == 0;
    let ghost start = placing(dep_ir@, defined_functions@, to_be_defined@);
    assert(air_views(dep_ir@) =~= Seq::empty());
    let mut i: usize = 0;
    while i < order.len()
        invariant
            i <= order@.len(),
            order.wf(),
            place_dependencies(
                order@,
                i as nat,
                zero_arg,
                func_scope@,
                func_components@,
                func_index_map@,
                start,
            ) == Ok::<Placing, Halt>(placing(dep_ir@, defined_functions@, to_be_defined@)),
        decreases order@.len() - i,
    {
        let dependency = order.key_at(i);
        let ghost before = placing(dep_ir@, defined_functions@, to_be_defined@);
        if !contains_key(defined_functions, &dependency) {
            match func_components.get(&dependency) {
                None => {},
                Some(c) => match func_index_map.get(&dependency) {
                    None => {
                        proof {
                            assert(place_dependencies(
                                order@,
                                (i + 1) as nat,
                                zero_arg,
                                func_scope@,
                                func_components@,
                                func_index_map@,
                                start,
                            ) == Err::<Placing, Halt>(Halt::Missing));
                            lemma_place_dependencies_fail(
                                order@,
                                (i + 1) as nat,
                                zero_arg,
                                func_scope@,
                                func_components@,
                                func_index_map@,
                                start,
                            );
                        }
                        return Err(Halt::Missing);
                    },
                    Some(dep_scope) => {
                        let inside = encloses(func_scope, dep_scope);
                        if inside || zero_arg {
                            if c.args.len() > 0 {
                                match handle_recursion_ir(&dependency, c) {
                                    Err(e) => {
                                        proof {
                                            assert(place_dependencies(
                                                order@,
                                                (i + 1) as nat,
                                                zero_arg,
                                                func_scope@,
                                                func_components@,
                                                func_index_map@,
                                                start,
                                            ) == Err::<Placing, Halt>(e));
                                            lemma_place_dependencies_fail(
                                                order@,
                                                (i + 1) as nat,
                                                zero_arg,
                                                func_scope@,
                                                func_components@,
                                                func_index_map@,
                                                start,
                                            );
                                        }
                                        return Err(e);
                                    },
                                    Ok(mut body) => {
                                        let mut temp: Vec<Air> = Vec::new();
                                        assert(air_views(temp@) =~= Seq::empty());
                                        let define = Air::DefineFunc {
                                            scope: clone_ids(func_scope),
                                            func_name: dependency.function_name.clone(),
                                            module_name: dependency.module_name.clone(),
                                            params: clone_names(&c.args),
                                            recursive: c.recursive,
                                            variant_name: dependency.variant_name.clone(),
                                        };
                                        let ghost body_ir = air_views(body@);
                                        push_air(&mut temp, define);
                                        append_air(&mut temp, &mut body);
                                        append_air(&mut temp, dep_ir);
                                        assert(air_views(temp@) =~= seq![define@] + body_ir
                                            + before.ir);
                                        assert(define@ == define_func(dependency@, c@, func_scope@));
                                        *dep_ir = temp;
                                        if inside {
                                            insert_key(defined_functions, dependency);
                                        }
                                    },
                                }
                            }
                        } else {
                            insert_key(to_be_defined, dependency);
                        }
                    },
                },
            }
        }
        i = i + 1;
    }
    Ok(())
}

/// The names under which the parameters of a function are bound in its
/// definition.
pub fn parameters_of_definition(args: &Vec<TypedArg>) -> (r: Vec<String>)
    ensures
        name_views(r@) == definition_parameters(args@),
{
    let mut out: Vec<String> = Vec::new();
    let mut i: usize = 0;
    proof {
        reveal_strlit("_");
        assert("_"@ =~= seq!['_']);
    }
    while i < args.len()
        invariant
            i <= args.len(),
            out@.len() == i,
            "_"@ == seq!['_'],
            forall|j: int|
                0 <= j < i ==> out@[j]@ == match args@[j].arg_name {
                    ArgName::Named { name, .. } => name@,
                    _ => seq!['_'],
                },
        decreases args.len() - i,
    {
        match &args[i].arg_name {
            ArgName::Named { name, .. } => {
                out.push(name.clone());
            },
            _ => {
                out.push(String::from_str("_"));
            },
        }
        i = i + 1;
    }
    assert(name_views(out@) =~= definition_parameters(args@));
    out
}

proof fn lemma_generics_for_fail(args: Seq<TypedArg>, params: Seq<TypeView>, k: nat)
    requires
        k <= args.len(),
        generics_for(args, params, k) is Err,
    ensures
        generics_for(args, params, args.len()) == generics_for(args, params, k),
    decreases args.len() - k,
{
    if k < args.len() {
        assert(generics_for(args, params, k + 1) == generics_for(args, params, k));
        lemma_generics_for_fail(args, params, k + 1);
    }
}

/// The assignments of concrete types to the generic variables of the
/// parameters of a function, given the types that it is called with.
#[verifier::loop_isolation(false)]
pub fn generics_of_call(args: &Vec<TypedArg>, params: &Vec<Type>) -> (r: Result<
    Vec<(u64, Type)>,
    Halt,
>)
    ensures
        match r {
            Ok(map) => generics_for(args@, type_views(params@), args@.len()) == Ok::<
                Seq<(u64, TypeView)>,
                Halt,
            >(assignment_views(map@)),
            Err(e) => generics_for(args@, type_views(params@), args@.len()) == Err::<
                Seq<(u64, TypeView)>,
                Halt,
            >(e),
        },
{
    let mut map: Vec<(u64, Type)> = Vec::new();
    let mut i: usize = 0;
    assert(assignment_views(map@) =~= Seq::empty());
    while i < args.len()
        invariant
            i <= args.len(),
            generics_for(args@, type_views(params@), i as nat) == Ok::<
                Seq<(u64, TypeView)>,
                Halt,
            >(assignment_views(map@)),
        decreases args.len() - i,
    {
        if args[i].tipo.is_generic() {
            if i >= params.len() {
                proof {
                    assert(generics_for(args@, type_views(params@), (i + 1) as nat) == Err::<
                        Seq<(u64, TypeView)>,
                        Halt,
                    >(Halt::ImpossibleShape));
                    lemma_generics_for_fail(args@, type_views(params@), (i + 1) as nat);
                }
                return Err(Halt::ImpossibleShape);
            }
            assert(type_views(params@)[i as int] == params@[i as int]@);
            let mut more = get_generics_and_type(&args[i].tipo, &params[i]);
            let ghost before = assignment_views(map@);
            let ghost added = assignment_views(more@);
            map.append(&mut more);
            assert(assignment_views(map@) =~= before + added);
        }
        i = i + 1;
    }
    Ok(map)
}

} // verus!
