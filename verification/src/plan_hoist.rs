use vstd::prelude::*;
use crate::air::{air_views, Air, AirView};
use crate::builder::{key_views, FunctionAccessKey};
use crate::error::Halt;
use crate::generator::CodeGenerator;
use crate::maps::{inserted, position, KeyedMap};
use crate::plan::{clone_keys, contains_key, insert_key, key_of_reference, FuncComponents};
use crate::plan_define::{snapshot_scopes, snapshot_views};
use crate::plan_spec::{
    define_recurse,
    has_zero_arg,
    keys_of,
    merge_components,
    merge_scopes,
    reference_key,
    refers_to,
    settle_zero_arg,
    visit_functions,
    with_keys,
    with_zero_arg,
    Found,
    Registry,
};
use crate::builder::get_common_ancestor;
use crate::synth::{zero_arg_views, ZeroArgFunction};
use crate::text::clone_ids;

verus! {

/// A list of instructions.
#[derive(Debug)]
pub struct Instructions(pub Vec<Air>);

impl View for Instructions {
    type V = Seq<AirView>;

    open spec fn view(&self) -> Seq<AirView> {
        air_views(self.0@)
    }
}

/// Whether one of the instructions refers to the function of the given key.
pub fn refers(ir: &Vec<Air>, key: &FunctionAccessKey) -> (r: bool)
    ensures
        r == refers_to(air_views(ir@), key@),
{
    let ghost views = air_views(ir@);
    let mut i: usize = 0;
    while i < ir.len()
        invariant
            i <= ir@.len(),
            views == air_views(ir@),
            forall|j: int| 0 <= j < i ==> reference_key(#[trigger] views[j]) != Some(key@),
        decreases ir@.len() - i,
    {
        assert(views[i as int] == ir@[i as int]@);
        match key_of_reference(&ir[i]) {
            Some(found) => {
                if found.same(key) {
                    return true;
                }
            },
            None => {},
        }
        i = i + 1;
    }
    false
}

/// Adds the components of `more`, as far as their functions are not known
/// yet.
pub fn unify_components(func_components: &mut KeyedMap<FuncComponents>, more: &KeyedMap<FuncComponents>)
    requires
        old(func_components).wf(),
        more.wf(),
    ensures
        final(func_components).wf(),
        final(func_components)@ == merge_components(old(func_components)@, more@, 0),
{
    let ghost start = func_components@;
    let mut i: usize = 0;
    while i < more.len()
        invariant
            i <= more@.len(),
            func_components.wf(),
            more.wf(),
            merge_components(start, more@, 0) == merge_components(func_components@, more@, i as nat),
        decreases more@.len() - i,
    {
        let key = more.key_at(i);
        if !func_components.contains_key(&key) {
            func_components.insert(&key, more.value_at(i).duplicate());
        }
        i = i + 1;
    }
}

/// Merges the scopes of `more` in: a function that has a scope already gets
/// the scope that encloses both.
pub fn unify_scopes(func_index_map: &mut KeyedMap<Vec<u64>>, more: &KeyedMap<Vec<u64>>)
    requires
        old(func_index_map).wf(),
        more.wf(),
    ensures
        final(func_index_map).wf(),
        final(func_index_map)@ == merge_scopes(old(func_index_map)@, more@, 0),
{
    let ghost start = func_index_map@;
    let mut i: usize = 0;
    while i < more.len()
        invariant
            i <= more@.len(),
            func_index_map.wf(),
            more.wf(),
            merge_scopes(start, more@, 0) == merge_scopes(func_index_map@, more@, i as nat),
        decreases more@.len() - i,
    {
        let key = more.key_at(i);
        let scope = more.value_at(i);
        let known = match func_index_map.get(&key) {
            Some(k) => Some(clone_ids(k)),
            None => None,
        };
        match known {
            Some(known) => {
                func_index_map.insert(&key, get_common_ancestor(&known, scope));
            },
            None => {
                func_index_map.insert(&key, clone_ids(scope));
            },
        }
        i = i + 1;
    }
}

/// Enters a function without parameters, or gives new instructions to one
/// that is known; its value is to be computed anew.
pub fn set_zero_arg(functions: &mut Vec<ZeroArgFunction>, key: FunctionAccessKey, ir: Vec<Air>)
    ensures
        zero_arg_views(final(functions)@) == with_zero_arg(
            zero_arg_views(old(functions)@),
            key@,
            air_views(ir@),
        ),
{
    let ghost views = zero_arg_views(functions@);
    let mut i: usize = 0;
    while i < functions.len()
        invariant
            i <= functions@.len(),
            views == zero_arg_views(functions@),
            functions@ == old(functions)@,
            forall|j: int| 0 <= j < i ==> (#[trigger] views[j]).key != key@,
        decreases functions@.len() - i,
    {
        assert(views[i as int] == functions@[i as int]@);
        if functions[i].key.same(&key) {
            let ghost at = choose|a: int|
                0 <= a < views.len() && (#[trigger] views[a]).key == key@ && forall|j: int|
                    0 <= j < a ==> (#[trigger] views[j]).key != key@;
            assert(at == i) by {
                if at < i {
                    assert(views[at].key != key@);
                }
                if i < at {
                    assert(views[i as int].key != key@);
                }
            }
            let entry = ZeroArgFunction { key, ir, value: None };
            let ghost ev = entry@;
            functions.set(i, entry);
            assert(zero_arg_views(functions@) =~= views.update(i as int, ev));
            return ;
        }
        i = i + 1;
    }
    let entry = ZeroArgFunction { key, ir, value: None };
    let ghost ev = entry@;
    functions.push(entry);
    assert(zero_arg_views(functions@) =~= views.push(ev));
}

/// Whether a function without parameters of the given key is known.
pub fn is_zero_arg(functions: &Vec<ZeroArgFunction>, key: &FunctionAccessKey) -> (r: bool)
    ensures
        r == has_zero_arg(zero_arg_views(functions@), key@),
{
    let ghost views = zero_arg_views(functions@);
    let mut i: usize = 0;
    while i < functions.len()
        invariant
            i <= functions@.len(),
            views == zero_arg_views(functions@),
            forall|j: int| 0 <= j < i ==> (#[trigger] views[j]).key != key@,
        decreases functions@.len() - i,
    {
        assert(views[i as int] == functions@[i as int]@);
        if functions[i].key.same(key) {
            return true;
        }
        i = i + 1;
    }
    false
}

/// Adds keys, each unless it is among the others.
pub fn insert_keys(keys: &mut Vec<FunctionAccessKey>, more: &Vec<FunctionAccessKey>)
    ensures
        key_views(final(keys)@) == with_keys(key_views(old(keys)@), key_views(more@), more@.len()),
{
    let ghost start = key_views(keys@);
    let ghost mv = key_views(more@);
    let mut i: usize = 0;
    while i < more.len()
        invariant
            i <= more@.len(),
            mv == key_views(more@),
            key_views(keys@) == with_keys(start, mv, i as nat),
        decreases more@.len() - i,
    {
        assert(mv[i as int] == more@[i as int]@);
        insert_key(keys, more[i].duplicate());
        i = i + 1;
    }
}

/// Puts a block of instructions in front of the instruction at a position.
pub fn insert_block(ir: &mut Vec<Air>, at: usize, block: Vec<Air>)
    requires
        at <= old(ir)@.len(),
    ensures
        air_views(final(ir)@) == air_views(old(ir)@).take(at as int) + air_views(block@) + air_views(
            old(ir)@,
        ).skip(at as int),
        final(ir)@.len() == old(ir)@.len() + block@.len(),
        forall|j: int| 0 <= j < at ==> final(ir)@[j] == old(ir)@[j],
{
    let ghost start = ir@;
    let ghost inserted = block@;
    let mut block = block;
    let mut tail = ir.split_off(at);
    ir.append(&mut block);
    ir.append(&mut tail);
    assert(ir@ =~= start.take(at as int) + inserted + start.skip(at as int));
    assert(air_views(ir@) =~= air_views(start).take(at as int) + air_views(inserted) + air_views(
        start,
    ).skip(at as int));
}

/// The registry of the generator, as its parts hold it.
pub open spec fn registry_of(
    defined: Seq<FunctionAccessKey>,
    zero_arg: Seq<ZeroArgFunction>,
) -> Registry {
    Registry { defined: key_views(defined), zero_arg: zero_arg_views(zero_arg) }
}

/// The keys of a map of components, in their order.
pub fn keys_in_order(func_components: &KeyedMap<FuncComponents>) -> (r: Vec<FunctionAccessKey>)
    requires
        func_components.wf(),
    ensures
        key_views(r@) == keys_of(func_components@),
{
    let mut out: Vec<FunctionAccessKey> = Vec::new();
    let mut i: usize = 0;
    while i < func_components.len()
        invariant
            i <= func_components@.len(),
            func_components.wf(),
            out@.len() == i,
            forall|j: int| 0 <= j < i ==> out@[j]@ == func_components@[j].0,
        decreases func_components@.len() - i,
    {
        out.push(func_components.key_at(i));
        i = i + 1;
    }
    assert(key_views(out@) =~= keys_of(func_components@));
    out
}

/// The functions that are defined, with those added that were defined in
/// front of a function without parameters and are not to be defined in the
/// program itself.
pub fn settle_for_zero_arg(
    defined: &mut Vec<FunctionAccessKey>,
    candidates: &Vec<FunctionAccessKey>,
    to_define: &Vec<FunctionAccessKey>,
)
    ensures
        key_views(final(defined)@) == settle_zero_arg(
            key_views(old(defined)@),
            key_views(candidates@),
            key_views(to_define@),
            candidates@.len(),
        ),
{
    let ghost start = key_views(defined@);
    let ghost cv = key_views(candidates@);
    let mut i: usize = 0;
    while i < candidates.len()
        invariant
            i <= candidates@.len(),
            cv == key_views(candidates@),
            key_views(defined@) == settle_zero_arg(start, cv, key_views(to_define@), i as nat),
        decreases candidates@.len() - i,
    {
        assert(cv[i as int] == candidates@[i as int]@);
        if !contains_key(to_define, &candidates[i]) {
            insert_key(defined, candidates[i].duplicate());
        }
        i = i + 1;
    }
}

impl<'a> CodeGenerator<'a> {
    /// What the generator knows of the functions it has dealt with.
    pub open spec fn registry(&self) -> Registry {
        registry_of(self.defined_functions@, self.zero_arg_functions@)
    }

    /// Whether another generator reads the same functions, data types and
    /// modules as this one.
    pub open spec fn same_inputs(&self, other: &Self) -> bool {
        &&& self.functions == other.functions
        &&& self.data_types == other.data_types
        &&& self.module_types == other.module_types
    }

    /// Searches the bodies of the functions of `snapshot` from position
    /// `from` on for the functions that they refer to.
    #[verifier::rlimit(60)]
    pub fn visit_functions(
        &mut self,
        snapshot: &Vec<(FunctionAccessKey, Vec<u64>)>,
        from: usize,
        func_components: &mut KeyedMap<FuncComponents>,
        func_index_map: &mut KeyedMap<Vec<u64>>,
        recursion_func_map: Vec<FunctionAccessKey>,
        depth: u32,
        Ghost(ir): Ghost<Seq<AirView>>,
    ) -> (r: Result<(), Halt>)
        requires
            old(func_components).wf(),
            old(func_index_map).wf(),
        ensures
            final(func_components).wf(),
            final(func_index_map).wf(),
            old(self).same_tables(final(self)),
            match r {
                Ok(()) => visit_functions(
                    snapshot_views(snapshot@),
                    from as nat,
                    Found {
                        ir,
                        components: old(func_components)@,
                        scopes: old(func_index_map)@,
                        st: old(self).lower_state(),
                    },
                    key_views(recursion_func_map@),
                    old(self).lower_env(),
                    depth as nat,
                ) == Ok::<Found, Halt>(
                    Found {
                        ir,
                        components: final(func_components)@,
                        scopes: final(func_index_map)@,
                        st: final(self).lower_state(),
                    },
                ),
                Err(e) => visit_functions(
                    snapshot_views(snapshot@),
                    from as nat,
                    Found {
                        ir,
                        components: old(func_components)@,
                        scopes: old(func_index_map)@,
                        st: old(self).lower_state(),
                    },
                    key_views(recursion_func_map@),
                    old(self).lower_env(),
                    depth as nat,
                ) == Err::<Found, Halt>(e),
            },
        decreases depth, 0nat, snapshot@.len() - from,
    {
        if from >= snapshot.len() {
            return Ok(());
        }
        assert(snapshot_views(snapshot@)[from as int] == (
            snapshot@[from as int].0@,
            snapshot@[from as int].1@,
        ));
        let func = &snapshot[from].0;
        let component = match func_components.get(func) {
            Some(c) => c.duplicate(),
            None => {
                return Err(Halt::Missing);
            },
        };
        let refers_to_itself = refers(&component.ir, func);
        if refers_to_itself && contains_key(&recursion_func_map, func) {
            return self.visit_functions(
                snapshot,
                from + 1,
                func_components,
                func_index_map,
                recursion_func_map,
                depth,
                Ghost(ir),
            );
        }
        if depth == 0 {
            return Err(Halt::Unsupported);
        }
        let mut known = recursion_func_map;
        if refers_to_itself {
            insert_key(&mut known, func.duplicate());
        }
        let mut function_ir = component.ir;
        let mut inner_components: KeyedMap<FuncComponents> = KeyedMap::new();
        let mut inner_index_map: KeyedMap<Vec<u64>> = KeyedMap::new();
        assert(inner_components@ =~= Seq::empty());
        assert(inner_index_map@ =~= Seq::empty());
        self.define_recurse_ir(
            &mut function_ir,
            &mut inner_components,
            &mut inner_index_map,
            clone_keys(&known),
            depth - 1,
        )?;
        func_components.insert(
            func,
            FuncComponents {
                ir: function_ir,
                dependencies: component.dependencies,
                args: component.args,
                recursive: component.recursive,
            },
        );
        unify_components(func_components, &inner_components);
        unify_scopes(func_index_map, &inner_index_map);
        self.visit_functions(
            snapshot,
            from + 1,
            func_components,
            func_index_map,
            known,
            depth,
            Ghost(ir),
        )
    }

    /// Finds the functions that a list of instructions refers to, and the
    /// functions that those refer to, and so on, as deep as `depth` allows.
    #[verifier::rlimit(60)]
    pub fn define_recurse_ir(
        &mut self,
        ir_stack: &mut Vec<Air>,
        func_components: &mut KeyedMap<FuncComponents>,
        func_index_map: &mut KeyedMap<Vec<u64>>,
        recursion_func_map: Vec<FunctionAccessKey>,
        depth: u32,
    ) -> (r: Result<(), Halt>)
        requires
            old(func_components).wf(),
            old(func_index_map).wf(),
        ensures
            final(func_components).wf(),
            final(func_index_map).wf(),
            old(self).same_tables(final(self)),
            match r {
                Ok(()) => define_recurse(
                    air_views(old(ir_stack)@),
                    old(func_components)@,
                    old(func_index_map)@,
                    key_views(recursion_func_map@),
                    old(self).lower_state(),
                    old(self).lower_env(),
                    depth as nat,
                ) == Ok::<Found, Halt>(
                    Found {
                        ir: air_views(final(ir_stack)@),
                        components: final(func_components)@,
                        scopes: final(func_index_map)@,
                        st: final(self).lower_state(),
                    },
                ),
                Err(e) => define_recurse(
                    air_views(old(ir_stack)@),
                    old(func_components)@,
                    old(func_index_map)@,
                    key_views(recursion_func_map@),
                    old(self).lower_state(),
                    old(self).lower_env(),
                    depth as nat,
                ) == Err::<Found, Halt>(e),
            },
        decreases depth, 1nat, 0nat,
    {
        self.process_define_ir(ir_stack, func_components, func_index_map)?;
        let snapshot = snapshot_scopes(func_index_map);
        assert(snapshot_views(snapshot@) =~= func_index_map@);
        self.visit_functions(
            &snapshot,
            0,
            func_components,
            func_index_map,
            recursion_func_map,
            depth,
            Ghost(air_views(ir_stack@)),
        )
    }
}

} // verus!
