use vstd::prelude::*;
use crate::air::{air_views, clone_indices, clone_text, index_views, Air, AirView};
use crate::ast::{CallArg, Clause, Constant, IfBranch, Pattern, Span, TypedArg, TypedFunction};
use crate::builder::{ClauseKind, ClauseProperties, FunctionAccessKey};
use crate::error::Halt;
use crate::expr::TypedExpr;
use crate::expr_spec::{
    added,
    child,
    clause_order,
    clause_weight,
    function_position,
    lower_arguments_of_call,
    lower_branches,
    lower_clauses,
    lower_constant,
    lower_constants,
    lower_each,
    lower_expr,
    lower_match,
    lower_module_select,
    lower_sequence,
    module_position,
    occurs,
    parameter_names,
    subject_name,
    value_position,
    LowerEnv,
    LowerState,
    Lowered,
    LoweredClauses,
};
use crate::generator::CodeGenerator;
use crate::lower_pattern::{append_air, local_var_air, push_air};
use crate::pattern_spec::tail_name;
use crate::search::{lemma_first_position_is, lemma_first_position_none};
use crate::sorting::sort_by_position;
use crate::term::clone_bytes;
use crate::text::{clone_ids, name_views, numbered};
use crate::tipo::{
    ModuleValueConstructor,
    Type,
    TypeInfo,
    ValueConstructor,
    ValueConstructorVariant,
};

verus! {

/// A scope one level below `scope`, named by a fresh identifier.
pub fn child_scope(scope: &Vec<u64>, id: u64) -> (r: Vec<u64>)
    ensures
        r@ == child(scope@, id),
{
    let mut out = clone_ids(scope);
    out.push(id);
    out
}

/// The instructions of a module's constant go to the end of `ir_stack`.
#[verifier::loop_isolation(false)]
pub fn constants_ir(literal: &Constant, ir_stack: &mut Vec<Air>, scope: Vec<u64>) -> (r: Result<
    (),
    Halt,
>)
    ensures
        match r {
            Ok(()) => match lower_constant(*literal, scope@) {
                Ok(ir) => air_views(final(ir_stack)@) == air_views(old(ir_stack)@) + ir,
                Err(_) => false,
            },
            Err(e) => lower_constant(*literal, scope@) == Err::<Seq<AirView>, Halt>(e),
        },
    decreases literal, 0nat,
{
    let ghost start = air_views(ir_stack@);
    match literal {
        Constant::Int { value, .. } => {
            let air = Air::Int { scope, value: value.clone() };
            push_air(ir_stack, air);
            assert(air_views(ir_stack@) =~= start + seq![air@]);
            Ok(())
        },
        Constant::String { value, .. } => {
            let air = Air::String { scope, value: value.clone() };
            push_air(ir_stack, air);
            assert(air_views(ir_stack@) =~= start + seq![air@]);
            Ok(())
        },
        Constant::ByteArray { bytes, .. } => {
            let air = Air::ByteArray { scope, bytes: clone_bytes(bytes) };
            push_air(ir_stack, air);
            assert(air_views(ir_stack@) =~= start + seq![air@]);
            Ok(())
        },
        Constant::List { elements, tipo, .. } => {
            let air = Air::List {
                scope: clone_ids(&scope),
                count: elements.len(),
                tipo: tipo.duplicate(),
                tail: false,
            };
            let mut items: Vec<Air> = Vec::new();
            assert(air_views(items@) =~= Seq::empty());
            constant_items(elements, 0, &mut items, &scope)?;
            push_air(ir_stack, air);
            let ghost item_ir = air_views(items@);
            append_air(ir_stack, &mut items);
            assert(Seq::<AirView>::empty() + item_ir =~= item_ir);
            assert(air_views(ir_stack@) =~= start + (seq![air@] + item_ir));
            Ok(())
        },
        Constant::Tuple { .. } => Err(Halt::Unsupported),
    }
}

/// The instructions of the constants from position `from` on go to the end
/// of `ir_stack`.
pub fn constant_items(items: &Vec<Constant>, from: usize, ir_stack: &mut Vec<Air>, scope: &Vec<u64>) -> (r:
    Result<(), Halt>)
    ensures
        match r {
            Ok(()) => match lower_constants(items@, from as nat, scope@) {
                Ok(ir) => air_views(final(ir_stack)@) == air_views(old(ir_stack)@) + ir,
                Err(_) => false,
            },
            Err(e) => lower_constants(items@, from as nat, scope@) == Err::<Seq<AirView>, Halt>(e),
        },
    decreases items@, items@.len() - from,
{
    let ghost start = air_views(ir_stack@);
    if from >= items.len() {
        assert(start + Seq::<AirView>::empty() =~= start);
        return Ok(());
    }
    constants_ir(&items[from], ir_stack, clone_ids(scope))?;
    let ghost first = air_views(ir_stack@).skip(start.len() as int);
    assert(air_views(ir_stack@) =~= start + first);
    let ghost middle = air_views(ir_stack@);
    constant_items(items, from + 1, ir_stack, scope)?;
    let ghost rest = air_views(ir_stack@).skip(middle.len() as int);
    assert(air_views(ir_stack@) =~= middle + rest);
    assert(air_views(ir_stack@) =~= start + (first + rest));
    Ok(())
}

/// The names under which the parameters of a function are bound.
pub fn names_of_parameters(args: &Vec<TypedArg>) -> (r: Vec<String>)
    ensures
        name_views(r@) == parameter_names(args@),
{
    let mut out: Vec<String> = Vec::new();
    let mut i: usize = 0;
    while i < args.len()
        invariant
            i <= args.len(),
            out@.len() == i,
            forall|j: int| 0 <= j < i ==> out@[j]@ == args@[j].arg_name.bound_name(),
        decreases args.len() - i,
    {
        out.push(args[i].arg_name.variable_name());
        i = i + 1;
    }
    assert(name_views(out@) =~= parameter_names(args@));
    out
}

/// The function of the given module and name, as written.
pub fn find_function<'a>(
    functions: &'a Vec<(FunctionAccessKey, TypedFunction)>,
    module: &String,
    name: &String,
    variant: &String,
) -> (r: Option<&'a TypedFunction>)
    ensures
        match r {
            Some(f) => match function_position(functions@, module@, name@, variant@) {
                Some(i) => 0 <= i < functions@.len() && functions@[i].1 == *f,
                None => false,
            },
            None => function_position(functions@, module@, name@, variant@).is_none(),
        },
{
    let ghost wanted = |entry: (FunctionAccessKey, TypedFunction)|
        entry.0.module_name@ == module@ && entry.0.function_name@ == name@
            && entry.0.variant_name@ == variant@;
    let mut i: usize = 0;
    while i < functions.len()
        invariant
            i <= functions.len(),
            wanted == |entry: (FunctionAccessKey, TypedFunction)|
                entry.0.module_name@ == module@ && entry.0.function_name@ == name@
                    && entry.0.variant_name@ == variant@,
            forall|j: int| 0 <= j < i ==> !wanted(#[trigger] functions@[j]),
        decreases functions.len() - i,
    {
        if functions[i].0.module_name == *module && functions[i].0.function_name == *name
            && functions[i].0.variant_name == *variant {
            proof {
                lemma_first_position_is(functions@, wanted, i as int);
            }
            return Some(&functions[i].1);
        }
        i = i + 1;
    }
    proof {
        lemma_first_position_none(functions@, wanted);
    }
    None
}

/// The module of the given name.
pub fn find_module<'a>(modules: &'a Vec<(String, TypeInfo)>, name: &String) -> (r: Option<
    &'a TypeInfo,
>)
    ensures
        match r {
            Some(m) => match module_position(modules@, name@) {
                Some(i) => 0 <= i < modules@.len() && modules@[i].1 == *m,
                None => false,
            },
            None => module_position(modules@, name@).is_none(),
        },
{
    let ghost wanted = |entry: (String, TypeInfo)| entry.0@ == name@;
    let mut i: usize = 0;
    while i < modules.len()
        invariant
            i <= modules.len(),
            wanted == |entry: (String, TypeInfo)| entry.0@ == name@,
            forall|j: int| 0 <= j < i ==> !wanted(#[trigger] modules@[j]),
        decreases modules.len() - i,
    {
        if modules[i].0 == *name {
            proof {
                lemma_first_position_is(modules@, wanted, i as int);
            }
            return Some(&modules[i].1);
        }
        i = i + 1;
    }
    proof {
        lemma_first_position_none(modules@, wanted);
    }
    None
}

/// The value of the given name in a module.
pub fn find_value<'a>(values: &'a Vec<(String, ValueConstructor)>, name: &String) -> (r: Option<
    &'a ValueConstructor,
>)
    ensures
        match r {
            Some(v) => match value_position(values@, name@) {
                Some(i) => 0 <= i < values@.len() && values@[i].1 == *v,
                None => false,
            },
            None => value_position(values@, name@).is_none(),
        },
{
    let ghost wanted = |entry: (String, ValueConstructor)| entry.0@ == name@;
    let mut i: usize = 0;
    while i < values.len()
        invariant
            i <= values.len(),
            wanted == |entry: (String, ValueConstructor)| entry.0@ == name@,
            forall|j: int| 0 <= j < i ==> !wanted(#[trigger] values@[j]),
        decreases values.len() - i,
    {
        if values[i].0 == *name {
            proof {
                lemma_first_position_is(values@, wanted, i as int);
            }
            return Some(&values[i].1);
        }
        i = i + 1;
    }
    proof {
        lemma_first_position_none(values@, wanted);
    }
    None
}

/// How heavy a clause is when the clauses of a match on a list are put in
/// order.
pub fn weight_of(clause: &Clause) -> (r: usize)
    ensures
        r == clause_weight(*clause),
{
    if clause.pattern.len() == 0 {
        10000000
    } else {
        match &clause.pattern[0] {
            Pattern::List { elements, tail, .. } => {
                if elements.len() >= 10000000 {
                    10000000
                } else if tail.is_some() {
                    elements.len() + 1
                } else {
                    elements.len()
                }
            },
            _ => 10000000,
        }
    }
}

/// The order in which the clauses of a match are taken.
pub fn rearrange_clauses(clauses: &Vec<Clause>) -> (r: Vec<usize>)
    ensures
        r@ == clause_order(clauses@),
{
    let by_weight = clauses.len() > 0 && clauses[0].pattern.len() > 0 && match &clauses[0].pattern[0] {
        Pattern::List { .. } => true,
        _ => false,
    };
    if by_weight {
        let mut items: Vec<(usize, usize)> = Vec::new();
        let mut i: usize = 0;
        while i < clauses.len()
            invariant
                i <= clauses.len(),
                items@.len() == i,
                forall|j: int|
                    0 <= j < i ==> items@[j] == (clause_weight(clauses@[j]), j as usize),
            decreases clauses.len() - i,
        {
            items.push((weight_of(&clauses[i]), i));
            i = i + 1;
        }
        assert(items@ =~= Seq::new(
            clauses@.len(),
            |i: int| (clause_weight(clauses@[i]), i as usize),
        ));
        let sorted = sort_by_position(items);
        let mut out: Vec<usize> = Vec::new();
        let mut k: usize = 0;
        while k < sorted.len()
            invariant
                k <= sorted.len(),
                out@.len() == k,
                forall|j: int| 0 <= j < k ==> out@[j] == sorted@[j].1,
            decreases sorted.len() - k,
        {
            out.push(sorted[k].1);
            k = k + 1;
        }
        assert(out@ =~= Seq::new(sorted@.len(), |i: int| sorted@[i].1));
        out
    } else {
        let mut out: Vec<usize> = Vec::new();
        let mut i: usize = 0;
        while i < clauses.len()
            invariant
                i <= clauses.len(),
                out@.len() == i,
                forall|j: int| 0 <= j < i ==> out@[j] == j as usize,
            decreases clauses.len() - i,
        {
            out.push(i);
            i = i + 1;
        }
        assert(out@ =~= Seq::new(clauses@.len(), |i: int| i as usize));
        out
    }
}

/// Whether a pair occurs among the given pairs.
pub fn is_among(items: &Vec<(usize, String)>, index: usize, name: &String) -> (r: bool)
    ensures
        r == occurs(index_views(items@), (index, name@), items@.len()),
{
    let ghost views = index_views(items@);
    let mut i: usize = 0;
    while i < items.len()
        invariant
            i <= items.len(),
            views == index_views(items@),
            !occurs(views, (index, name@), i as nat),
        decreases items.len() - i,
    {
        assert(views[i as int] == (items@[i as int].0, items@[i as int].1@));
        if items[i].0 == index && items[i].1 == *name {
            proof {
                lemma_occurs_grows(views, (index, name@), (i + 1) as nat);
            }
            return true;
        }
        i = i + 1;
    }
    false
}

proof fn lemma_occurs_grows(items: Seq<(usize, Seq<char>)>, item: (usize, Seq<char>), k: nat)
    requires
        k <= items.len(),
        occurs(items, item, k),
    ensures
        occurs(items, item, items.len()),
    decreases items.len() - k,
{
    if k < items.len() {
        lemma_occurs_grows(items, item, k + 1);
    }
}

/// The pairs of `current` that do not occur in `previous`, in their order.
pub fn newly_added(current: &Vec<(usize, String)>, previous: &Vec<(usize, String)>) -> (r: Vec<
    (usize, String),
>)
    ensures
        index_views(r@) == added(index_views(current@), index_views(previous@), current@.len()),
{
    let ghost cv = index_views(current@);
    let mut out: Vec<(usize, String)> = Vec::new();
    let mut i: usize = 0;
    assert(index_views(out@) =~= Seq::empty());
    while i < current.len()
        invariant
            i <= current.len(),
            cv == index_views(current@),
            index_views(out@) == added(cv, index_views(previous@), i as nat),
        decreases current.len() - i,
    {
        assert(cv[i as int] == (current@[i as int].0, current@[i as int].1@));
        if !is_among(previous, current[i].0, &current[i].1) {
            let ghost before = index_views(out@);
            out.push((current[i].0, current[i].1.clone()));
            assert(index_views(out@) =~= before.push(cv[i as int]));
        }
        i = i + 1;
    }
    out
}

impl<'a> CodeGenerator<'a> {
    /// What the lowering reads of the generator and does not change.
    pub open spec fn lower_env(&self) -> LowerEnv {
        LowerEnv {
            functions: self.functions@,
            data_types: self.data_types@,
            module_types: self.module_types@,
        }
    }

    /// What the lowering holds of the generator between two steps.
    pub open spec fn lower_state(&self) -> LowerState {
        LowerState { next_id: self.id_gen.peek(), needs_field_access: self.needs_field_access }
    }

    /// The instructions of what a name selected from a module refers to go
    /// to the end of `ir_stack`.
    pub fn module_select_ir(
        &self,
        constructor: &ModuleValueConstructor,
        module_name: &String,
        tipo: &Type,
        ir_stack: &mut Vec<Air>,
        scope: Vec<u64>,
    ) -> (r: Result<(), Halt>)
        ensures
            match r {
                Ok(()) => match lower_module_select(
                    *constructor,
                    module_name@,
                    tipo@,
                    scope@,
                    self.lower_env(),
                ) {
                    Ok(ir) => air_views(final(ir_stack)@) == air_views(old(ir_stack)@) + ir,
                    Err(_) => false,
                },
                Err(e) => lower_module_select(
                    *constructor,
                    module_name@,
                    tipo@,
                    scope@,
                    self.lower_env(),
                ) == Err::<Seq<AirView>, Halt>(e),
            },
    {
        let ghost start = air_views(ir_stack@);
        match constructor {
            ModuleValueConstructor::Record { .. } => Err(Halt::Unsupported),
            ModuleValueConstructor::Fn { name, module, .. } => {
                let empty = String::new();
                match find_function(self.functions, module_name, name, &empty) {
                    Some(func) => {
                        let air = Air::Var {
                            scope,
                            constructor: ValueConstructor::public(
                                tipo.duplicate(),
                                ValueConstructorVariant::ModuleFn {
                                    name: name.clone(),
                                    field_map: None,
                                    module: module.clone(),
                                    arity: func.arguments.len(),
                                    location: Span::empty(),
                                    builtin: None,
                                },
                            ),
                            name: module.clone().concat("_").concat(name.as_str()),
                            variant_name: String::new(),
                        };
                        push_air(ir_stack, air);
                        assert(air_views(ir_stack@) =~= start + seq![air@]);
                        Ok(())
                    },
                    None => match find_module(self.module_types, module_name) {
                        None => Err(Halt::Missing),
                        Some(type_info) => match find_value(&type_info.values, name) {
                            None => Err(Halt::Missing),
                            Some(value) => match &value.variant {
                                ValueConstructorVariant::ModuleFn { builtin: Some(func), .. } => {
                                    let air = Air::Builtin {
                                        func: *func,
                                        scope,
                                        tipo: tipo.duplicate(),
                                    };
                                    push_air(ir_stack, air);
                                    assert(air_views(ir_stack@) =~= start + seq![air@]);
                                    Ok(())
                                },
                                _ => Err(Halt::ImpossibleShape),
                            },
                        },
                    },
                }
            },
            ModuleValueConstructor::Constant { literal, .. } => constants_ir(
                literal,
                ir_stack,
                scope,
            ),
        }
    }

    /// Lowers the expressions of a block from position `from` on.
    #[verifier::rlimit(40)]
    pub fn build_sequence(
        &mut self,
        expressions: &Vec<TypedExpr>,
        from: usize,
        ir_stack: &mut Vec<Air>,
        scope: &Vec<u64>,
    ) -> (r: Result<(), Halt>)
        ensures
            match r {
                Ok(()) => match lower_sequence(
                    expressions@,
                    from as nat,
                    scope@,
                    old(self).lower_state(),
                    old(self).lower_env(),
                ) {
                    Ok(l) => air_views(final(ir_stack)@) == air_views(old(ir_stack)@) + l.ir && l.st
                        == final(self).lower_state(),
                    Err(_) => false,
                },
                Err(e) => lower_sequence(
                    expressions@,
                    from as nat,
                    scope@,
                    old(self).lower_state(),
                    old(self).lower_env(),
                ) == Err::<Lowered, Halt>(e),
            },
            old(self).same_tables(final(self)),
        decreases expressions@, 0nat, expressions@.len() - from,
    {
        let ghost start = air_views(ir_stack@);
        if from >= expressions.len() {
            assert(start + Seq::<AirView>::empty() =~= start);
            return Ok(());
        }
        if from == 0 {
            self.build_ir(&expressions[0], ir_stack, clone_ids(scope))?;
        } else {
            let id = self.id_gen.next();
            self.build_ir(&expressions[from], ir_stack, child_scope(scope, id))?;
        }
        let ghost first = air_views(ir_stack@).skip(start.len() as int);
        assert(air_views(ir_stack@) =~= start + first);
        let ghost middle = air_views(ir_stack@);
        self.build_sequence(expressions, from + 1, ir_stack, scope)?;
        let ghost rest = air_views(ir_stack@).skip(middle.len() as int);
        assert(air_views(ir_stack@) =~= middle + rest);
        assert(air_views(ir_stack@) =~= start + (first + rest));
        Ok(())
    }

    /// Lowers the expressions from position `from` on, each in a scope of
    /// its own.
    #[verifier::rlimit(40)]
    pub fn build_each(
        &mut self,
        expressions: &Vec<TypedExpr>,
        from: usize,
        ir_stack: &mut Vec<Air>,
        scope: &Vec<u64>,
    ) -> (r: Result<(), Halt>)
        ensures
            match r {
                Ok(()) => match lower_each(
                    expressions@,
                    from as nat,
                    scope@,
                    old(self).lower_state(),
                    old(self).lower_env(),
                ) {
                    Ok(l) => air_views(final(ir_stack)@) == air_views(old(ir_stack)@) + l.ir && l.st
                        == final(self).lower_state(),
                    Err(_) => false,
                },
                Err(e) => lower_each(
                    expressions@,
                    from as nat,
                    scope@,
                    old(self).lower_state(),
                    old(self).lower_env(),
                ) == Err::<Lowered, Halt>(e),
            },
            old(self).same_tables(final(self)),
        decreases expressions@, 0nat, expressions@.len() - from,
    {
        let ghost start = air_views(ir_stack@);
        if from >= expressions.len() {
            assert(start + Seq::<AirView>::empty() =~= start);
            return Ok(());
        }
        let id = self.id_gen.next();
        self.build_ir(&expressions[from], ir_stack, child_scope(scope, id))?;
        let ghost first = air_views(ir_stack@).skip(start.len() as int);
        assert(air_views(ir_stack@) =~= start + first);
        let ghost middle = air_views(ir_stack@);
        self.build_each(expressions, from + 1, ir_stack, scope)?;
        let ghost rest = air_views(ir_stack@).skip(middle.len() as int);
        assert(air_views(ir_stack@) =~= middle + rest);
        assert(air_views(ir_stack@) =~= start + (first + rest));
        Ok(())
    }

    /// Lowers the arguments of a call from position `from` on, each in a
    /// scope of its own.
    #[verifier::rlimit(40)]
    pub fn build_call_arguments(
        &mut self,
        args: &Vec<CallArg>,
        from: usize,
        ir_stack: &mut Vec<Air>,
        scope: &Vec<u64>,
    ) -> (r: Result<(), Halt>)
        ensures
            match r {
                Ok(()) => match lower_arguments_of_call(
                    args@,
                    from as nat,
                    scope@,
                    old(self).lower_state(),
                    old(self).lower_env(),
                ) {
                    Ok(l) => air_views(final(ir_stack)@) == air_views(old(ir_stack)@) + l.ir && l.st
                        == final(self).lower_state(),
                    Err(_) => false,
                },
                Err(e) => lower_arguments_of_call(
                    args@,
                    from as nat,
                    scope@,
                    old(self).lower_state(),
                    old(self).lower_env(),
                ) == Err::<Lowered, Halt>(e),
            },
            old(self).same_tables(final(self)),
        decreases args@, 0nat, args@.len() - from,
    {
        let ghost start = air_views(ir_stack@);
        if from >= args.len() {
            assert(start + Seq::<AirView>::empty() =~= start);
            return Ok(());
        }
        let id = self.id_gen.next();
        self.build_ir(&args[from].value, ir_stack, child_scope(scope, id))?;
        let ghost first = air_views(ir_stack@).skip(start.len() as int);
        assert(air_views(ir_stack@) =~= start + first);
        let ghost middle = air_views(ir_stack@);
        self.build_call_arguments(args, from + 1, ir_stack, scope)?;
        let ghost rest = air_views(ir_stack@).skip(middle.len() as int);
        assert(air_views(ir_stack@) =~= middle + rest);
        assert(air_views(ir_stack@) =~= start + (first + rest));
        Ok(())
    }

    /// Lowers the branches of a conditional from position `from` on.
    #[verifier::rlimit(40)]
    pub fn build_branches(
        &mut self,
        branches: &Vec<IfBranch>,
        from: usize,
        ir_stack: &mut Vec<Air>,
        scope: &Vec<u64>,
    ) -> (r: Result<(), Halt>)
        ensures
            match r {
                Ok(()) => match lower_branches(
                    branches@,
                    from as nat,
                    scope@,
                    old(self).lower_state(),
                    old(self).lower_env(),
                ) {
                    Ok(l) => air_views(final(ir_stack)@) == air_views(old(ir_stack)@) + l.ir && l.st
                        == final(self).lower_state(),
                    Err(_) => false,
                },
                Err(e) => lower_branches(
                    branches@,
                    from as nat,
                    scope@,
                    old(self).lower_state(),
                    old(self).lower_env(),
                ) == Err::<Lowered, Halt>(e),
            },
            old(self).same_tables(final(self)),
        decreases branches@, 0nat, branches@.len() - from,
    {
        let ghost start = air_views(ir_stack@);
        if branches.len() == 0 {
            return Err(Halt::ImpossibleShape);
        }
        if from >= branches.len() {
            assert(start + Seq::<AirView>::empty() =~= start);
            return Ok(());
        }
        let id = self.id_gen.next();
        let branch_scope = child_scope(scope, id);
        let air = Air::If {
            scope: if from == 0 {
                clone_ids(scope)
            } else {
                clone_ids(&branch_scope)
            },
        };
        push_air(ir_stack, air);
        let ghost s1 = air_views(ir_stack@);
        self.build_ir(&branches[from].condition, ir_stack, clone_ids(&branch_scope))?;
        let ghost condition = air_views(ir_stack@).skip(s1.len() as int);
        assert(air_views(ir_stack@) =~= s1 + condition);
        let ghost s2 = air_views(ir_stack@);
        self.build_ir(&branches[from].body, ir_stack, branch_scope)?;
        let ghost body = air_views(ir_stack@).skip(s2.len() as int);
        assert(air_views(ir_stack@) =~= s2 + body);
        let ghost s3 = air_views(ir_stack@);
        self.build_branches(branches, from + 1, ir_stack, scope)?;
        let ghost rest = air_views(ir_stack@).skip(s3.len() as int);
        assert(air_views(ir_stack@) =~= s3 + rest);
        assert(air_views(ir_stack@) =~= start + (seq![air@] + condition + body + rest));
        Ok(())
    }

    /// Lowers the clauses of a match but the final one, in the given order
    /// from position `from` on; `count` is their number.
    #[verifier::rlimit(100)]
    #[verifier::spinoff_prover]
    pub fn handle_each_clause(
        &mut self,
        ir_stack: &mut Vec<Air>,
        clause_properties: &mut ClauseProperties,
        clauses: &Vec<Clause>,
        order: &Vec<usize>,
        from: usize,
        count: usize,
        subject_type: &Type,
        scope: &Vec<u64>,
    ) -> (r: Result<(), Halt>)
        ensures
            match r {
                Ok(()) => match lower_clauses(
                    clauses@,
                    order@,
                    from as nat,
                    count as nat,
                    old(clause_properties)@,
                    subject_type@,
                    scope@,
                    old(self).lower_state(),
                    old(self).lower_env(),
                ) {
                    Ok(l) => air_views(final(ir_stack)@) == air_views(old(ir_stack)@) + l.ir && l.st
                        == final(self).lower_state() && l.props == final(clause_properties)@,
                    Err(_) => false,
                },
                Err(e) => lower_clauses(
                    clauses@,
                    order@,
                    from as nat,
                    count as nat,
                    old(clause_properties)@,
                    subject_type@,
                    scope@,
                    old(self).lower_state(),
                    old(self).lower_env(),
                ) == Err::<LoweredClauses, Halt>(e),
            },
            old(self).same_tables(final(self)),
        decreases clauses@, 0nat, count - from,
    {
        let ghost start = air_views(ir_stack@);
        if from >= count {
            assert(start + Seq::<AirView>::empty() =~= start);
            return Ok(());
        }
        if from >= order.len() || order[from] >= clauses.len() {
            return Err(Halt::Malformed);
        }
        let clause = &clauses[order[from]];
        let id = self.id_gen.next();
        let clause_scope = child_scope(scope, id);
        clause_properties.is_complex_clause = false;
        let ghost before = clause_properties@;
        let mut clause_then_vec: Vec<Air> = Vec::new();
        assert(air_views(clause_then_vec@) =~= Seq::empty());
        self.build_ir(&clause.body, &mut clause_then_vec, clone_ids(&clause_scope))?;
        assert(Seq::<AirView>::empty() + air_views(clause_then_vec@) =~= air_views(
            clause_then_vec@,
        ));
        if clause.pattern.len() == 0 {
            return Err(Halt::ImpossibleShape);
        }
        let subject_name = clause_properties.original_subject_name.clone();
        let previous_kind = match &clause_properties.kind {
            ClauseKind::ConstrClause => ClauseKind::ConstrClause,
            ClauseKind::ListClause { current_index } => ClauseKind::ListClause {
                current_index: *current_index,
            },
            ClauseKind::TupleClause { defined_tuple_indices } => ClauseKind::TupleClause {
                defined_tuple_indices: clone_indices(defined_tuple_indices),
            },
        };
        let mut clause_subject_vec: Vec<Air> = Vec::new();
        assert(air_views(clause_subject_vec@) =~= Seq::empty());
        self.when_ir(
            &clause.pattern[0],
            &mut clause_subject_vec,
            &mut clause_then_vec,
            subject_type,
            clause_properties,
            clone_ids(&clause_scope),
        )?;
        let ghost matched = air_views(clause_subject_vec@);
        assert(Seq::<AirView>::empty() + matched =~= matched);
        let ghost after = clause_properties@;
        let head = match previous_kind {
            ClauseKind::ConstrClause => Air::Clause {
                scope: clause_scope,
                tipo: subject_type.duplicate(),
                complex_clause: clause_properties.is_complex_clause,
                subject_name,
            },
            ClauseKind::ListClause { current_index } => {
                let tail = if current_index == 0 {
                    subject_name
                } else {
                    numbered("__tail_", (current_index - 1) as u64)
                };
                let next_tail = if from == count - 1 {
                    None
                } else {
                    Some(numbered("__tail_", current_index as u64))
                };
                match &mut clause_properties.kind {
                    ClauseKind::ListClause { current_index: index_after } => {
                        if *index_after == usize::MAX {
                            return Err(Halt::Malformed);
                        }
                        *index_after = *index_after + 1;
                    },
                    _ => {
                        return Err(Halt::ImpossibleShape);
                    },
                }
                Air::ListClause {
                    scope: clause_scope,
                    tipo: subject_type.duplicate(),
                    tail_name: tail,
                    next_tail_name: next_tail,
                    complex_clause: clause_properties.is_complex_clause,
                    inverse: false,
                }
            },
            ClauseKind::TupleClause { defined_tuple_indices: previous } => {
                match &clause_properties.kind {
                    ClauseKind::TupleClause { defined_tuple_indices: current } => {
                        Air::TupleClause {
                            scope: clause_scope,
                            tipo: subject_type.duplicate(),
                            indices: newly_added(current, &previous),
                            predefined_indices: previous,
                            subject_name,
                            count: subject_type.get_inner_types().len(),
                            complex_clause: clause_properties.is_complex_clause,
                        }
                    },
                    _ => {
                        return Err(Halt::ImpossibleShape);
                    },
                }
            },
        };
        push_air(ir_stack, head);
        append_air(ir_stack, &mut clause_subject_vec);
        let ghost middle = air_views(ir_stack@);
        assert(middle =~= start + (seq![head@] + matched));
        self.handle_each_clause(
            ir_stack,
            clause_properties,
            clauses,
            order,
            from + 1,
            count,
            subject_type,
            scope,
        )?;
        let ghost rest = air_views(ir_stack@).skip(middle.len() as int);
        assert(air_views(ir_stack@) =~= middle + rest);
        assert(air_views(ir_stack@) =~= start + (seq![head@] + matched + rest));
        Ok(())
    }

    /// Lowers a match.
    #[verifier::rlimit(100)]
    #[verifier::spinoff_prover]
    pub fn build_match(&mut self, body: &TypedExpr, ir_stack: &mut Vec<Air>, scope: Vec<u64>) -> (r:
        Result<(), Halt>)
        requires
            *body is When,
        ensures
            match r {
                Ok(()) => match lower_match(
                    *body,
                    scope@,
                    old(self).lower_state(),
                    old(self).lower_env(),
                ) {
                    Ok(l) => air_views(final(ir_stack)@) == air_views(old(ir_stack)@) + l.ir && l.st
                        == final(self).lower_state(),
                    Err(_) => false,
                },
                Err(e) => lower_match(
                    *body,
                    scope@,
                    old(self).lower_state(),
                    old(self).lower_env(),
                ) == Err::<Lowered, Halt>(e),
            },
            old(self).same_tables(final(self)),
        decreases body, 0nat, 0nat,
    {
        let ghost start = air_views(ir_stack@);
        match body {
            TypedExpr::When { subjects, clauses, .. } => {
                if subjects.len() == 0 || clauses.len() == 0 || clauses[0].pattern.len() == 0 {
                    return Err(Halt::ImpossibleShape);
                }
                let subject = &subjects[0];
                let id1 = self.id_gen.next();
                let id2 = self.id_gen.next();
                let name = numbered("__subject_name_", id1);
                let constr_var = numbered("__constr_name_", id2);
                let order = rearrange_clauses(clauses);
                let count = clauses.len() - 1;
                let tipo = subject.tipo();
                let mut props = ClauseProperties::init(&tipo, constr_var.clone(), name.clone());
                let mut pattern_vec: Vec<Air> = Vec::new();
                assert(air_views(pattern_vec@) =~= Seq::empty());
                self.handle_each_clause(
                    &mut pattern_vec,
                    &mut props,
                    clauses,
                    &order,
                    0,
                    count,
                    &tipo,
                    &scope,
                )?;
                let ghost tested = air_views(pattern_vec@);
                assert(Seq::<AirView>::empty() + tested =~= tested);
                if order.len() != clauses.len() || order[count] >= clauses.len() {
                    return Err(Halt::Malformed);
                }
                let last = &clauses[order[count]];
                let id3 = self.id_gen.next();
                let final_scope = child_scope(&scope, id3);
                if last.pattern.len() == 0 {
                    return Err(Halt::ImpossibleShape);
                }
                push_air(&mut pattern_vec, Air::Finally { scope: clone_ids(&final_scope) });
                let mut final_clause_vec: Vec<Air> = Vec::new();
                assert(air_views(final_clause_vec@) =~= Seq::empty());
                self.build_ir(&last.body, &mut final_clause_vec, clone_ids(&final_scope))?;
                assert(Seq::<AirView>::empty() + air_views(final_clause_vec@) =~= air_views(
                    final_clause_vec@,
                ));
                let ghost s1 = air_views(pattern_vec@);
                self.when_ir(
                    &last.pattern[0],
                    &mut pattern_vec,
                    &mut final_clause_vec,
                    &tipo,
                    &mut props,
                    clone_ids(&final_scope),
                )?;
                let ghost matched = air_views(pattern_vec@).skip(s1.len() as int);
                assert(air_views(pattern_vec@) =~= s1 + matched);
                let ghost patterns = air_views(pattern_vec@);
                assert(patterns =~= tested + seq![AirView::Finally { scope: final_scope@ }]
                    + matched);
                if props.needs_constr_var {
                    let lam = Air::Lam { scope: clone_ids(&scope), name: constr_var.clone() };
                    push_air(ir_stack, lam);
                    let ghost s2 = air_views(ir_stack@);
                    self.build_ir(subject, ir_stack, clone_ids(&scope))?;
                    let ghost subject_ir = air_views(ir_stack@).skip(s2.len() as int);
                    assert(air_views(ir_stack@) =~= s2 + subject_ir);
                    let when = Air::When {
                        scope: clone_ids(&scope),
                        subject_name: name,
                        tipo: tipo.duplicate(),
                    };
                    push_air(ir_stack, when);
                    let id4 = self.id_gen.next();
                    let var = local_var_air(&child_scope(&scope, id4), tipo, constr_var);
                    push_air(ir_stack, var);
                    append_air(ir_stack, &mut pattern_vec);
                    assert(air_views(ir_stack@) =~= start + (seq![lam@] + subject_ir + seq![
                        when@,
                        var@,
                    ] + patterns));
                    Ok(())
                } else {
                    let when = Air::When {
                        scope: clone_ids(&scope),
                        subject_name: name,
                        tipo: tipo.duplicate(),
                    };
                    push_air(ir_stack, when);
                    let id4 = self.id_gen.next();
                    let ghost s2 = air_views(ir_stack@);
                    self.build_ir(subject, ir_stack, child_scope(&scope, id4))?;
                    let ghost subject_ir = air_views(ir_stack@).skip(s2.len() as int);
                    assert(air_views(ir_stack@) =~= s2 + subject_ir);
                    append_air(ir_stack, &mut pattern_vec);
                    assert(air_views(ir_stack@) =~= start + (seq![when@] + subject_ir + patterns));
                    Ok(())
                }
            },
            _ => Err(Halt::ImpossibleShape),
        }
    }

    /// Lowers a function, a list, a call, a binary operation or a
    /// conditional.
    #[verifier::rlimit(100)]
    #[verifier::spinoff_prover]
    pub fn build_nested(&mut self, body: &TypedExpr, ir_stack: &mut Vec<Air>, scope: Vec<u64>) -> (r:
        Result<(), Halt>)
        requires
            *body is Fn || *body is List || *body is Call || *body is BinOp || *body is If,
        ensures
            match r {
                Ok(()) => match lower_expr(
                    *body,
                    scope@,
                    old(self).lower_state(),
                    old(self).lower_env(),
                ) {
                    Ok(l) => air_views(final(ir_stack)@) == air_views(old(ir_stack)@) + l.ir && l.st
                        == final(self).lower_state(),
                    Err(_) => false,
                },
                Err(e) => lower_expr(*body, scope@, old(self).lower_state(), old(self).lower_env())
                    == Err::<Lowered, Halt>(e),
            },
            old(self).same_tables(final(self)),
        decreases body, 0nat, 0nat,
    {
        let ghost start = air_views(ir_stack@);
        match body {
            TypedExpr::Fn { args, body: inner, .. } => {
                let id = self.id_gen.next();
                let air = Air::Fn { scope: clone_ids(&scope), params: names_of_parameters(args) };
                push_air(ir_stack, air);
                let ghost s1 = air_views(ir_stack@);
                self.build_ir(inner, ir_stack, child_scope(&scope, id))?;
                let ghost inner_ir = air_views(ir_stack@).skip(s1.len() as int);
                assert(air_views(ir_stack@) =~= s1 + inner_ir);
                assert(air_views(ir_stack@) =~= start + (seq![air@] + inner_ir));
                Ok(())
            },
            TypedExpr::List { elements, tail, tipo, .. } => {
                let air = Air::List {
                    scope: clone_ids(&scope),
                    count: elements.len(),
                    tipo: tipo.duplicate(),
                    tail: tail.is_some(),
                };
                push_air(ir_stack, air);
                let ghost s1 = air_views(ir_stack@);
                self.build_each(elements, 0, ir_stack, &scope)?;
                let ghost items = air_views(ir_stack@).skip(s1.len() as int);
                assert(air_views(ir_stack@) =~= s1 + items);
                match tail {
                    Some(t) => {
                        let id = self.id_gen.next();
                        let ghost s2 = air_views(ir_stack@);
                        self.build_ir(t, ir_stack, child_scope(&scope, id))?;
                        let ghost rest = air_views(ir_stack@).skip(s2.len() as int);
                        assert(air_views(ir_stack@) =~= s2 + rest);
                        assert(air_views(ir_stack@) =~= start + (seq![air@] + items + rest));
                        Ok(())
                    },
                    None => {
                        assert(air_views(ir_stack@) =~= start + (seq![air@] + items));
                        Ok(())
                    },
                }
            },
            TypedExpr::Call { fun, args, .. } => {
                let air = Air::Call { scope: clone_ids(&scope), count: args.len() };
                push_air(ir_stack, air);
                let id = self.id_gen.next();
                let ghost s1 = air_views(ir_stack@);
                self.build_ir(fun, ir_stack, child_scope(&scope, id))?;
                let ghost callee = air_views(ir_stack@).skip(s1.len() as int);
                assert(air_views(ir_stack@) =~= s1 + callee);
                let ghost s2 = air_views(ir_stack@);
                self.build_call_arguments(args, 0, ir_stack, &scope)?;
                let ghost operands = air_views(ir_stack@).skip(s2.len() as int);
                assert(air_views(ir_stack@) =~= s2 + operands);
                assert(air_views(ir_stack@) =~= start + (seq![air@] + callee + operands));
                Ok(())
            },
            TypedExpr::BinOp { name, left, right, .. } => {
                let air = Air::BinOp {
                    scope: clone_ids(&scope),
                    name: *name,
                    count: 2,
                    tipo: left.tipo(),
                };
                push_air(ir_stack, air);
                let id_left = self.id_gen.next();
                let id_right = self.id_gen.next();
                let ghost s1 = air_views(ir_stack@);
                self.build_ir(left, ir_stack, child_scope(&scope, id_left))?;
                let ghost l = air_views(ir_stack@).skip(s1.len() as int);
                assert(air_views(ir_stack@) =~= s1 + l);
                let ghost s2 = air_views(ir_stack@);
                self.build_ir(right, ir_stack, child_scope(&scope, id_right))?;
                let ghost r = air_views(ir_stack@).skip(s2.len() as int);
                assert(air_views(ir_stack@) =~= s2 + r);
                assert(air_views(ir_stack@) =~= start + (seq![air@] + l + r));
                Ok(())
            },
            TypedExpr::If { branches, final_else, .. } => {
                self.build_branches(branches, 0, ir_stack, &scope)?;
                let ghost taken = air_views(ir_stack@).skip(start.len() as int);
                assert(air_views(ir_stack@) =~= start + taken);
                let id = self.id_gen.next();
                let ghost s1 = air_views(ir_stack@);
                self.build_ir(final_else, ir_stack, child_scope(&scope, id))?;
                let ghost otherwise = air_views(ir_stack@).skip(s1.len() as int);
                assert(air_views(ir_stack@) =~= s1 + otherwise);
                assert(air_views(ir_stack@) =~= start + (taken + otherwise));
                Ok(())
            },
            _ => Err(Halt::ImpossibleShape),
        }
    }

    /// Lowers an expression: its instructions go to the end of `ir_stack`.
    /// The outcome is what `lower_expr` says, failures included.
    #[verifier::rlimit(100)]
    #[verifier::spinoff_prover]
    pub fn build_ir(&mut self, body: &TypedExpr, ir_stack: &mut Vec<Air>, scope: Vec<u64>) -> (r:
        Result<(), Halt>)
        ensures
            match r {
                Ok(()) => match lower_expr(
                    *body,
                    scope@,
                    old(self).lower_state(),
                    old(self).lower_env(),
                ) {
                    Ok(l) => air_views(final(ir_stack)@) == air_views(old(ir_stack)@) + l.ir && l.st
                        == final(self).lower_state(),
                    Err(_) => false,
                },
                Err(e) => lower_expr(*body, scope@, old(self).lower_state(), old(self).lower_env())
                    == Err::<Lowered, Halt>(e),
            },
            old(self).same_tables(final(self)),
        decreases body, 1nat, 0nat,
    {
        let ghost start = air_views(ir_stack@);
        match body {
            TypedExpr::Int { value, .. } => {
                let air = Air::Int { scope, value: value.clone() };
                push_air(ir_stack, air);
                assert(air_views(ir_stack@) =~= start + seq![air@]);
                Ok(())
            },
            TypedExpr::String { value, .. } => {
                let air = Air::String { scope, value: value.clone() };
                push_air(ir_stack, air);
                assert(air_views(ir_stack@) =~= start + seq![air@]);
                Ok(())
            },
            TypedExpr::ByteArray { bytes, .. } => {
                let air = Air::ByteArray { scope, bytes: clone_bytes(bytes) };
                push_air(ir_stack, air);
                assert(air_views(ir_stack@) =~= start + seq![air@]);
                Ok(())
            },
            TypedExpr::Pipeline { expressions, .. } | TypedExpr::Sequence { expressions, .. } => {
                self.build_sequence(expressions, 0, ir_stack, &scope)
            },
            TypedExpr::Var { constructor, name, .. } => match &constructor.variant {
                ValueConstructorVariant::ModuleConstant { literal, .. } => constants_ir(
                    literal,
                    ir_stack,
                    scope,
                ),
                ValueConstructorVariant::ModuleFn { builtin: Some(func), .. } => {
                    let air = Air::Builtin {
                        scope,
                        func: *func,
                        tipo: constructor.tipo.duplicate(),
                    };
                    push_air(ir_stack, air);
                    assert(air_views(ir_stack@) =~= start + seq![air@]);
                    Ok(())
                },
                _ => {
                    let air = Air::Var {
                        scope,
                        constructor: constructor.duplicate(),
                        name: name.clone(),
                        variant_name: String::new(),
                    };
                    push_air(ir_stack, air);
                    assert(air_views(ir_stack@) =~= start + seq![air@]);
                    Ok(())
                },
            },
            TypedExpr::Fn { .. }
            | TypedExpr::List { .. }
            | TypedExpr::Call { .. }
            | TypedExpr::BinOp { .. }
            | TypedExpr::If { .. } => self.build_nested(body, ir_stack, scope),
            TypedExpr::Assignment { value, pattern, kind, tipo, .. } => {
                let id = self.id_gen.next();
                let mut value_vec: Vec<Air> = Vec::new();
                assert(air_views(value_vec@) =~= Seq::empty());
                self.build_ir(value, &mut value_vec, child_scope(&scope, id))?;
                assert(Seq::<AirView>::empty() + air_views(value_vec@) =~= air_views(value_vec@));
                self.assignment_ir(pattern, ir_stack, &mut value_vec, tipo, *kind, scope)
            },
            TypedExpr::When { .. } => self.build_match(body, ir_stack, scope),
            TypedExpr::RecordAccess { record, index, tipo, .. } => {
                self.needs_field_access = true;
                let air = Air::RecordAccess {
                    scope: clone_ids(&scope),
                    index: *index,
                    tipo: tipo.duplicate(),
                };
                push_air(ir_stack, air);
                let ghost s1 = air_views(ir_stack@);
                self.build_ir(record, ir_stack, scope)?;
                let ghost inner = air_views(ir_stack@).skip(s1.len() as int);
                assert(air_views(ir_stack@) =~= s1 + inner);
                assert(air_views(ir_stack@) =~= start + (seq![air@] + inner));
                Ok(())
            },
            TypedExpr::ModuleSelect {
                constructor,
                module_name,
                tipo,
                ..
            } => self.module_select_ir(constructor, module_name, tipo, ir_stack, scope),
            TypedExpr::Todo { label, tipo, .. } => {
                let air = Air::Todo { scope, label: clone_text(label), tipo: tipo.duplicate() };
                push_air(ir_stack, air);
                assert(air_views(ir_stack@) =~= start + seq![air@]);
                Ok(())
            },
            TypedExpr::RecordUpdate { .. } => Err(Halt::Unsupported),
            TypedExpr::UnOp { value, op, .. } => {
                let air = Air::UnOp { scope: clone_ids(&scope), op: *op };
                push_air(ir_stack, air);
                let ghost s1 = air_views(ir_stack@);
                self.build_ir(value, ir_stack, scope)?;
                let ghost inner = air_views(ir_stack@).skip(s1.len() as int);
                assert(air_views(ir_stack@) =~= s1 + inner);
                assert(air_views(ir_stack@) =~= start + (seq![air@] + inner));
                Ok(())
            },
            TypedExpr::Tuple { elems, tipo, .. } => {
                let air = Air::Tuple {
                    scope: clone_ids(&scope),
                    tipo: tipo.duplicate(),
                    count: elems.len(),
                };
                push_air(ir_stack, air);
                let ghost s1 = air_views(ir_stack@);
                self.build_each(elems, 0, ir_stack, &scope)?;
                let ghost items = air_views(ir_stack@).skip(s1.len() as int);
                assert(air_views(ir_stack@) =~= s1 + items);
                assert(air_views(ir_stack@) =~= start + (seq![air@] + items));
                Ok(())
            },
            TypedExpr::Trace { tipo, then, text, .. } => {
                let air = Air::Trace {
                    text: clone_text(text),
                    tipo: tipo.duplicate(),
                    scope: clone_ids(&scope),
                };
                push_air(ir_stack, air);
                let id = self.id_gen.next();
                let ghost s1 = air_views(ir_stack@);
                self.build_ir(then, ir_stack, child_scope(&scope, id))?;
                let ghost inner = air_views(ir_stack@).skip(s1.len() as int);
                assert(air_views(ir_stack@) =~= s1 + inner);
                assert(air_views(ir_stack@) =~= start + (seq![air@] + inner));
                Ok(())
            },
            TypedExpr::TupleIndex { index, tuple, .. } => {
                let air = Air::TupleIndex {
                    scope: clone_ids(&scope),
                    tipo: tuple.tipo(),
                    index: *index,
                };
                push_air(ir_stack, air);
                let ghost s1 = air_views(ir_stack@);
                self.build_ir(tuple, ir_stack, scope)?;
                let ghost inner = air_views(ir_stack@).skip(s1.len() as int);
                assert(air_views(ir_stack@) =~= s1 + inner);
                assert(air_views(ir_stack@) =~= start + (seq![air@] + inner));
                Ok(())
            },
            TypedExpr::ErrorTerm { tipo, label, .. } => {
                let air = Air::ErrorTerm { scope, tipo: tipo.duplicate(), label: clone_text(label) };
                push_air(ir_stack, air);
                assert(air_views(ir_stack@) =~= start + seq![air@]);
                Ok(())
            },
        }
    }
}

} // verus!
