use vstd::prelude::*;
use crate::air::{air_views, binding_views, Air, AirView};
use crate::error::Halt;
use crate::tipo::{
    type_views,
    Type,
    TypeVar,
    TypeVarView,
    TypeView,
    ValueConstructor,
    ValueConstructorVariant,
    ValueConstructorView,
};

verus! {

/// The views of a list of assignments of types to generic variables.
pub open spec fn assignment_views(items: Seq<(u64, Type)>) -> Seq<(u64, TypeView)> {
    Seq::new(items.len(), |i: int| (items[i].0, items[i].1@))
}

/// The generic variables of the elements from position `from` on, each with
/// what stands in its place in the element of `params` at the same
/// position.
pub open spec fn generics_of_each(types: Seq<TypeView>, params: Seq<TypeView>, from: nat) -> Seq<
    (u64, TypeView),
>
    decreases types, types.len() - from,
{
    if from >= types.len() || from >= params.len() {
        Seq::empty()
    } else {
        generics_of(types[from as int], params[from as int]) + generics_of_each(
            types,
            params,
            from + 1,
        )
    }
}

/// The generic variables of a type, each with the type that stands in its
/// place in `param`, a type of the same shape.
pub open spec fn generics_of(tipo: TypeView, param: TypeView) -> Seq<(u64, TypeView)>
    decreases tipo, 0nat,
{
    match tipo {
        TypeView::Var { tipo: TypeVarView::Generic { id } } => seq![(id, param)],
        TypeView::Var { tipo: TypeVarView::Link { tipo: inner } } => generics_of(*inner, param),
        TypeView::Var { tipo: TypeVarView::Unbound { .. } } => Seq::empty(),
        TypeView::App { args, .. } => if tipo.is_list() {
            generics_of_each(args, param.inner_types(), 0)
        } else {
            Seq::empty()
        },
        TypeView::Tuple { elems } => generics_of_each(elems, param.inner_types(), 0),
        TypeView::Fn { .. } => Seq::empty(),
    }
}

/// The type that the assignments give to a generic variable: the one of the
/// last assignment to it.
pub open spec fn assigned(map: Seq<(u64, TypeView)>, id: u64, upto: nat) -> Option<TypeView>
    decreases upto,
{
    if upto == 0 || upto > map.len() {
        None
    } else if map[upto - 1].0 == id {
        Some(map[upto - 1].1)
    } else {
        assigned(map, id, (upto - 1) as nat)
    }
}

/// The types from position `from` on, each with its generic variables
/// replaced.
pub open spec fn replace_each(types: Seq<TypeView>, map: Seq<(u64, TypeView)>, from: nat) -> Result<
    Seq<TypeView>,
    Halt,
>
    decreases types, types.len() - from,
{
    if from >= types.len() {
        Ok(Seq::empty())
    } else {
        match replace_generics(types[from as int], map) {
            Err(e) => Err(e),
            Ok(first) => match replace_each(types, map, from + 1) {
                Err(e) => Err(e),
                Ok(rest) => Ok(seq![first] + rest),
            },
        }
    }
}

/// A type with every generic variable replaced by the type that the
/// assignments give it. A variable that is linked to a type gives way to
/// that type.
pub open spec fn replace_generics(tipo: TypeView, map: Seq<(u64, TypeView)>) -> Result<
    TypeView,
    Halt,
>
    decreases tipo, 0nat,
{
    match tipo.get_generic() {
        Some(id) => match assigned(map, id, map.len()) {
            Some(t) => Ok(t),
            None => Err(Halt::ImpossibleShape),
        },
        None => if !tipo.is_generic() {
            Ok(tipo)
        } else {
            match tipo {
                TypeView::App { public, module, name, args } => match replace_each(args, map, 0) {
                    Err(e) => Err(e),
                    Ok(new_args) => Ok(TypeView::App { public, module, name, args: new_args }),
                },
                TypeView::Fn { args, ret } => match replace_each(args, map, 0) {
                    Err(e) => Err(e),
                    Ok(new_args) => match replace_generics(*ret, map) {
                        Err(e) => Err(e),
                        Ok(new_ret) => Ok(TypeView::Fn { args: new_args, ret: Box::new(new_ret) }),
                    },
                },
                TypeView::Tuple { elems } => match replace_each(elems, map, 0) {
                    Err(e) => Err(e),
                    Ok(new_elems) => Ok(TypeView::Tuple { elems: new_elems }),
                },
                TypeView::Var { tipo: TypeVarView::Link { tipo: inner } } => replace_generics(
                    *inner,
                    map,
                ),
                TypeView::Var { tipo: TypeVarView::Unbound { .. } } => Err(Halt::Unsupported),
                TypeView::Var { tipo: TypeVarView::Generic { .. } } => Err(Halt::ImpossibleShape),
            }
        },
    }
}

/// The text by which the two components of a pair type are told apart in
/// the name of a variant.
pub open spec fn pair_suffix(tipo: TypeView) -> Result<Seq<char>, Halt>
    decreases tipo, 0nat,
{
    match tipo {
        TypeView::Tuple { elems } => if elems.len() == 2 {
            match (variant_suffix(elems[0]), variant_suffix(elems[1])) {
                (Ok(a), Ok(b)) => Ok(a + b),
                (Err(e), _) => Err(e),
                (_, Err(e)) => Err(e),
            }
        } else {
            Err(Halt::ImpossibleShape)
        },
        TypeView::Var { tipo: TypeVarView::Link { tipo: inner } } => pair_suffix(*inner),
        _ => Err(Halt::ImpossibleShape),
    }
}

/// The text by which a concrete type is told apart in the name of a variant:
/// an underscore, then the kind of the type, then the same for the types
/// inside a list or an association list.
pub open spec fn variant_suffix(tipo: TypeView) -> Result<Seq<char>, Halt>
    decreases tipo, 1nat,
{
    if tipo.is_string() {
        Ok("_string"@)
    } else if tipo.is_int() {
        Ok("_int"@)
    } else if tipo.is_bool() {
        Ok("_bool"@)
    } else {
        match tipo {
            TypeView::App { args, .. } => if tipo.is_map() {
                match pair_suffix(args[0]) {
                    Ok(s) => Ok("_map"@ + s),
                    Err(e) => Err(e),
                }
            } else if tipo.is_list() {
                if args.len() == 0 {
                    Err(Halt::ImpossibleShape)
                } else {
                    match variant_suffix(args[0]) {
                        Ok(s) => Ok("_list"@ + s),
                        Err(e) => Err(e),
                    }
                }
            } else {
                Ok("_data"@)
            },
            TypeView::Var { tipo: TypeVarView::Link { tipo: inner } } => variant_suffix(*inner),
            _ => Ok("_data"@),
        }
    }
}

/// The suffixes of the types from position `from` on, one after the other.
pub open spec fn variant_suffixes(types: Seq<TypeView>, upto: nat) -> Result<Seq<char>, Halt>
    decreases upto,
{
    if upto == 0 || upto > types.len() {
        Ok(Seq::empty())
    } else {
        match variant_suffixes(types, (upto - 1) as nat) {
            Err(e) => Err(e),
            Ok(head) => match variant_suffix(types[upto - 1]) {
                Err(e) => Err(e),
                Ok(s) => Ok(head + s),
            },
        }
    }
}

/// The name of the variant of a function that takes the given concrete
/// types: empty for a type that is no function type.
pub open spec fn variant_name_of(full_type: TypeView) -> Result<Seq<char>, Halt> {
    match full_type {
        TypeView::Fn { args, .. } => variant_suffixes(args, args.len()),
        _ => Ok(Seq::empty()),
    }
}

/// The types of the bindings, each with its generic variables replaced.
pub open spec fn replace_in_bindings(
    bindings: Seq<(usize, Seq<char>, TypeView)>,
    map: Seq<(u64, TypeView)>,
    upto: nat,
) -> Result<Seq<(usize, Seq<char>, TypeView)>, Halt>
    decreases upto,
{
    if upto == 0 || upto > bindings.len() {
        Ok(Seq::empty())
    } else {
        match replace_in_bindings(bindings, map, (upto - 1) as nat) {
            Err(e) => Err(e),
            Ok(head) => match replace_generics(bindings[upto - 1].2, map) {
                Err(e) => Err(e),
                Ok(t) => Ok(head.push((bindings[upto - 1].0, bindings[upto - 1].1, t))),
            },
        }
    }
}

/// Whether one of the bindings has a generic type.
pub open spec fn any_generic(bindings: Seq<(usize, Seq<char>, TypeView)>) -> bool {
    exists|i: int| 0 <= i < bindings.len() && (#[trigger] bindings[i]).2.is_generic()
}

/// The type that an instruction carries, if it carries one.
pub open spec fn carried_type(ir: AirView) -> Option<TypeView> {
    match ir {
        AirView::List { tipo, .. }
        | AirView::ListAccessor { tipo, .. }
        | AirView::ListExpose { tipo, .. }
        | AirView::Builtin { tipo, .. }
        | AirView::BinOp { tipo, .. }
        | AirView::When { tipo, .. }
        | AirView::Clause { tipo, .. }
        | AirView::ListClause { tipo, .. }
        | AirView::TupleClause { tipo, .. }
        | AirView::ClauseGuard { tipo, .. }
        | AirView::RecordAccess { tipo, .. }
        | AirView::Tuple { tipo, .. }
        | AirView::Todo { tipo, .. }
        | AirView::Trace { tipo, .. }
        | AirView::TupleAccessor { tipo, .. }
        | AirView::TupleIndex { tipo, .. }
        | AirView::ErrorTerm { tipo, .. } => Some(tipo),
        _ => None,
    }
}

/// An instruction with another type in the place of the one it carries.
pub open spec fn with_type(ir: AirView, t: TypeView) -> AirView {
    match ir {
        AirView::List { scope, count, tail, .. } => AirView::List { scope, count, tipo: t, tail },
        AirView::ListAccessor { scope, names, tail, .. } => AirView::ListAccessor {
            scope,
            tipo: t,
            names,
            tail,
        },
        AirView::ListExpose { scope, tail_head_names, tail, .. } => AirView::ListExpose {
            scope,
            tipo: t,
            tail_head_names,
            tail,
        },
        AirView::Builtin { scope, func, .. } => AirView::Builtin { scope, func, tipo: t },
        AirView::BinOp { scope, name, count, .. } => AirView::BinOp { scope, name, count, tipo: t },
        AirView::When { scope, subject_name, .. } => AirView::When { scope, tipo: t, subject_name },
        AirView::Clause { scope, subject_name, complex_clause, .. } => AirView::Clause {
            scope,
            tipo: t,
            subject_name,
            complex_clause,
        },
        AirView::ListClause {
            scope,
            tail_name,
            next_tail_name,
            complex_clause,
            inverse,
            ..
        } => AirView::ListClause {
            scope,
            tipo: t,
            tail_name,
            next_tail_name,
            complex_clause,
            inverse,
        },
        AirView::TupleClause {
            scope,
            indices,
            predefined_indices,
            subject_name,
            count,
            complex_clause,
            ..
        } => AirView::TupleClause {
            scope,
            tipo: t,
            indices,
            predefined_indices,
            subject_name,
            count,
            complex_clause,
        },
        AirView::ClauseGuard { scope, subject_name, .. } => AirView::ClauseGuard {
            scope,
            subject_name,
            tipo: t,
        },
        AirView::RecordAccess { scope, index, .. } => AirView::RecordAccess {
            scope,
            index,
            tipo: t,
        },
        AirView::Tuple { scope, count, .. } => AirView::Tuple { scope, tipo: t, count },
        AirView::Todo { scope, label, .. } => AirView::Todo { scope, label, tipo: t },
        AirView::Trace { scope, text, .. } => AirView::Trace { scope, text, tipo: t },
        AirView::TupleAccessor { scope, names, .. } => AirView::TupleAccessor {
            scope,
            names,
            tipo: t,
        },
        AirView::TupleIndex { scope, index, .. } => AirView::TupleIndex { scope, tipo: t, index },
        AirView::ErrorTerm { scope, label, .. } => AirView::ErrorTerm { scope, tipo: t, label },
        _ => ir,
    }
}

/// What monomorphization makes of one instruction: the instruction with
/// its generic variables replaced, and whether it had any. A reference to a
/// function of a module also gets the name of the variant that its concrete
/// type asks for.
pub open spec fn monomorphize_one(ir: AirView, map: Seq<(u64, TypeView)>) -> Result<
    (AirView, bool),
    Halt,
> {
    match ir {
        AirView::Var { scope, constructor, name, variant_name } => if constructor.tipo.is_generic() {
            match replace_generics(constructor.tipo, map) {
                Err(e) => Err(e),
                Ok(t) => match (if constructor.variant is ModuleFn {
                    variant_name_of(t)
                } else {
                    Ok(Seq::empty())
                }) {
                    Err(e) => Err(e),
                    Ok(variant) => Ok(
                        (
                            AirView::Var {
                                scope,
                                constructor: ValueConstructorView { tipo: t, ..constructor },
                                name,
                                variant_name: variant,
                            },
                            true,
                        ),
                    ),
                },
            }
        } else {
            Ok((ir, false))
        },
        AirView::FieldsExpose { scope, count, indices } => if any_generic(indices) {
            match replace_in_bindings(indices, map, indices.len()) {
                Err(e) => Err(e),
                Ok(replaced) => Ok((AirView::FieldsExpose { scope, count, indices: replaced }, true)),
            }
        } else {
            Ok((ir, false))
        },
        _ => match carried_type(ir) {
            Some(t) => if t.is_generic() {
                match replace_generics(t, map) {
                    Err(e) => Err(e),
                    Ok(replaced) => Ok((with_type(ir, replaced), true)),
                }
            } else {
                Ok((ir, false))
            },
            None => Ok((ir, false)),
        },
    }
}

/// What monomorphization makes of the first `upto` instructions: the
/// instructions, and whether one of them had a generic variable.
pub open spec fn monomorphize_all(ir: Seq<AirView>, map: Seq<(u64, TypeView)>, upto: nat) -> Result<
    (Seq<AirView>, bool),
    Halt,
>
    decreases upto,
{
    if upto == 0 || upto > ir.len() {
        Ok((Seq::empty(), false))
    } else {
        match monomorphize_all(ir, map, (upto - 1) as nat) {
            Err(e) => Err(e),
            Ok((head, found)) => match monomorphize_one(ir[upto - 1], map) {
                Err(e) => Err(e),
                Ok((one, generic)) => Ok((head.push(one), found || generic)),
            },
        }
    }
}

/// The body of a function specialised to concrete types, and the name of
/// the variant: empty where the body holds no generic variable.
pub open spec fn monomorphized(
    ir: Seq<AirView>,
    map: Seq<(u64, TypeView)>,
    full_type: TypeView,
) -> Result<(Seq<char>, Seq<AirView>), Halt> {
    match monomorphize_all(ir, map, ir.len()) {
        Err(e) => Err(e),
        Ok((new_ir, needs_variant)) => if needs_variant {
            match variant_name_of(full_type) {
                Err(e) => Err(e),
                Ok(name) => Ok((name, new_ir)),
            }
        } else {
            Ok((Seq::empty(), new_ir))
        },
    }
}

/// Monomorphization is a function of its arguments: the same body, the same
/// assignments and the same type give the same variant name and the same
/// instructions.
pub proof fn lemma_monomorphization_is_pure(
    ir1: Seq<AirView>,
    map1: Seq<(u64, TypeView)>,
    type1: TypeView,
    ir2: Seq<AirView>,
    map2: Seq<(u64, TypeView)>,
    type2: TypeView,
)
    requires
        ir1 == ir2,
        map1 == map2,
        type1 == type2,
    ensures
        monomorphized(ir1, map1, type1) == monomorphized(ir2, map2, type2),
{
}


/// The type that the assignments give to a generic variable.
pub fn assigned_type(map: &Vec<(u64, Type)>, id: u64) -> (r: Option<Type>)
    ensures
        match r {
            Some(t) => assigned(assignment_views(map@), id, map@.len()) == Some(t@),
            None => assigned(assignment_views(map@), id, map@.len()).is_none(),
        },
{
    let mut i: usize = map.len();
    while i > 0
        invariant
            i <= map.len(),
            assigned(assignment_views(map@), id, map@.len()) == assigned(
                assignment_views(map@),
                id,
                i as nat,
            ),
        decreases i,
    {
        i = i - 1;
        assert(assignment_views(map@)[i as int] == (map@[i as int].0, map@[i as int].1@));
        if map[i].0 == id {
            return Some(map[i].1.duplicate());
        }
    }
    None
}

/// The generic variables of the elements from position `from` on, each with
/// what stands in its place in the element of `params` at the same
/// position.
pub fn get_generics_of_each(types: &Vec<Type>, params: &Vec<Type>, from: usize) -> (r: Vec<
    (u64, Type),
>)
    ensures
        assignment_views(r@) == generics_of_each(type_views(types@), type_views(params@), from as nat),
    decreases types, types@.len() - from,
{
    if from >= types.len() || from >= params.len() {
        let out: Vec<(u64, Type)> = Vec::new();
        assert(assignment_views(out@) =~= Seq::empty());
        return out;
    }
    assert(type_views(types@)[from as int] == types@[from as int]@);
    assert(type_views(params@)[from as int] == params@[from as int]@);
    let mut first = get_generics_and_type(&types[from], &params[from]);
    let mut rest = get_generics_of_each(types, params, from + 1);
    let ghost a = assignment_views(first@);
    let ghost b = assignment_views(rest@);
    first.append(&mut rest);
    assert(assignment_views(first@) =~= a + b);
    first
}

/// The generic variables of a type, each with the type that stands in its
/// place in `param`.
pub fn get_generics_and_type(tipo: &Type, param: &Type) -> (r: Vec<(u64, Type)>)
    ensures
        assignment_views(r@) == generics_of(tipo@, param@),
    decreases tipo, 0nat,
{
    match tipo {
        Type::Var { tipo: TypeVar::Generic { id } } => {
            let mut out: Vec<(u64, Type)> = Vec::new();
            out.push((*id, param.duplicate()));
            assert(assignment_views(out@) =~= seq![(*id, param@)]);
            out
        },
        Type::Var { tipo: TypeVar::Link { tipo: inner } } => get_generics_and_type(inner, param),
        Type::Var { tipo: TypeVar::Unbound { .. } } => {
            let out: Vec<(u64, Type)> = Vec::new();
            assert(assignment_views(out@) =~= Seq::empty());
            out
        },
        Type::App { args, .. } => {
            if tipo.is_list() {
                let inner = param.get_inner_types();
                assert(type_views(args@) =~= tipo@->App_args);
                get_generics_of_each(args, &inner, 0)
            } else {
                let out: Vec<(u64, Type)> = Vec::new();
                assert(assignment_views(out@) =~= Seq::empty());
                out
            }
        },
        Type::Tuple { elems } => {
            let inner = param.get_inner_types();
            assert(type_views(elems@) =~= tipo@->elems);
            get_generics_of_each(elems, &inner, 0)
        },
        Type::Fn { .. } => {
            let out: Vec<(u64, Type)> = Vec::new();
            assert(assignment_views(out@) =~= Seq::empty());
            out
        },
    }
}

/// The types from position `from` on, each with its generic variables
/// replaced.
pub fn replace_in_each(types: &Vec<Type>, map: &Vec<(u64, Type)>, from: usize) -> (r: Result<
    Vec<Type>,
    Halt,
>)
    ensures
        match r {
            Ok(out) => replace_each(type_views(types@), assignment_views(map@), from as nat)
                == Ok::<Seq<TypeView>, Halt>(type_views(out@)),
            Err(e) => replace_each(type_views(types@), assignment_views(map@), from as nat)
                == Err::<Seq<TypeView>, Halt>(e),
        },
    decreases types, types@.len() - from,
{
    if from >= types.len() {
        let out: Vec<Type> = Vec::new();
        assert(type_views(out@) =~= Seq::empty());
        return Ok(out);
    }
    assert(type_views(types@)[from as int] == types@[from as int]@);
    let first = find_generics_to_replace(&types[from], map)?;
    let mut rest = replace_in_each(types, map, from + 1)?;
    let ghost tail = type_views(rest@);
    let ghost fv = first@;
    rest.insert(0, first);
    assert(type_views(rest@) =~= seq![fv] + tail);
    Ok(rest)
}

/// A type with every generic variable replaced by the type that the
/// assignments give it.
pub fn find_generics_to_replace(tipo: &Type, map: &Vec<(u64, Type)>) -> (r: Result<Type, Halt>)
    ensures
        match r {
            Ok(t) => replace_generics(tipo@, assignment_views(map@)) == Ok::<TypeView, Halt>(t@),
            Err(e) => replace_generics(tipo@, assignment_views(map@)) == Err::<TypeView, Halt>(e),
        },
    decreases tipo, 0nat,
{
    match tipo.get_generic() {
        Some(id) => match assigned_type(map, id) {
            Some(t) => Ok(t),
            None => Err(Halt::ImpossibleShape),
        },
        None => {
            if !tipo.is_generic() {
                Ok(tipo.duplicate())
            } else {
                match tipo {
                    Type::App { public, module, name, args } => {
                        assert(type_views(args@) =~= tipo@->App_args);
                        let new_args = replace_in_each(args, map, 0)?;
                        let r = Type::App {
                            public: *public,
                            module: module.clone(),
                            name: name.clone(),
                            args: new_args,
                        };
                        assert(r@->App_args =~= type_views(new_args@));
                        Ok(r)
                    },
                    Type::Fn { args, ret } => {
                        assert(type_views(args@) =~= tipo@->Fn_args);
                        let new_args = replace_in_each(args, map, 0)?;
                        let new_ret = find_generics_to_replace(ret, map)?;
                        let r = Type::Fn { args: new_args, ret: Box::new(new_ret) };
                        assert(r@->Fn_args =~= type_views(new_args@));
                        Ok(r)
                    },
                    Type::Tuple { elems } => {
                        assert(type_views(elems@) =~= tipo@->elems);
                        let new_elems = replace_in_each(elems, map, 0)?;
                        let r = Type::Tuple { elems: new_elems };
                        assert(r@->elems =~= type_views(new_elems@));
                        Ok(r)
                    },
                    Type::Var { tipo: TypeVar::Link { tipo: inner } } => find_generics_to_replace(
                        inner,
                        map,
                    ),
                    Type::Var { tipo: TypeVar::Unbound { .. } } => Err(Halt::Unsupported),
                    Type::Var { tipo: TypeVar::Generic { .. } } => Err(Halt::ImpossibleShape),
                }
            }
        },
    }
}

/// The text by which the two components of a pair type are told apart in
/// the name of a variant.
pub fn pair_variant_name(tipo: &Type) -> (r: Result<String, Halt>)
    ensures
        match r {
            Ok(s) => pair_suffix(tipo@) == Ok::<Seq<char>, Halt>(s@),
            Err(e) => pair_suffix(tipo@) == Err::<Seq<char>, Halt>(e),
        },
    decreases tipo, 0nat,
{
    match tipo {
        Type::Tuple { elems } => {
            if elems.len() == 2 {
                assert(tipo@->elems[0] == elems@[0]@);
                assert(tipo@->elems[1] == elems@[1]@);
                let a = get_variant_name(&elems[0]);
                let b = get_variant_name(&elems[1]);
                match (a, b) {
                    (Ok(a), Ok(b)) => Ok(a.concat(b.as_str())),
                    (Err(e), _) => Err(e),
                    (_, Err(e)) => Err(e),
                }
            } else {
                Err(Halt::ImpossibleShape)
            }
        },
        Type::Var { tipo: TypeVar::Link { tipo: inner } } => pair_variant_name(inner),
        _ => Err(Halt::ImpossibleShape),
    }
}

/// The text by which a concrete type is told apart in the name of a variant.
pub fn get_variant_name(tipo: &Type) -> (r: Result<String, Halt>)
    ensures
        match r {
            Ok(s) => variant_suffix(tipo@) == Ok::<Seq<char>, Halt>(s@),
            Err(e) => variant_suffix(tipo@) == Err::<Seq<char>, Halt>(e),
        },
    decreases tipo, 1nat,
{
    if tipo.is_string() {
        Ok(String::from_str("_string"))
    } else if tipo.is_int() {
        Ok(String::from_str("_int"))
    } else if tipo.is_bool() {
        Ok(String::from_str("_bool"))
    } else {
        match tipo {
            Type::App { args, .. } => {
                if tipo.is_map() {
                    assert(tipo@->App_args[0] == args@[0]@);
                    let s = pair_variant_name(&args[0])?;
                    Ok(String::from_str("_map").concat(s.as_str()))
                } else if tipo.is_list() {
                    if args.len() == 0 {
                        Err(Halt::ImpossibleShape)
                    } else {
                        assert(tipo@->App_args[0] == args@[0]@);
                        let s = get_variant_name(&args[0])?;
                        Ok(String::from_str("_list").concat(s.as_str()))
                    }
                } else {
                    Ok(String::from_str("_data"))
                }
            },
            Type::Var { tipo: TypeVar::Link { tipo: inner } } => get_variant_name(inner),
            _ => Ok(String::from_str("_data")),
        }
    }
}

proof fn lemma_variant_suffixes_fail(types: Seq<TypeView>, k: nat)
    requires
        k <= types.len(),
        variant_suffixes(types, k) is Err,
    ensures
        variant_suffixes(types, types.len()) == variant_suffixes(types, k),
    decreases types.len() - k,
{
    if k < types.len() {
        assert(variant_suffixes(types, k + 1) == variant_suffixes(types, k));
        lemma_variant_suffixes_fail(types, k + 1);
    }
}

/// The name of the variant of a function that takes the given concrete
/// types.
#[verifier::loop_isolation(false)]
pub fn variant_name_for(full_type: &Type) -> (r: Result<String, Halt>)
    ensures
        match r {
            Ok(s) => variant_name_of(full_type@) == Ok::<Seq<char>, Halt>(s@),
            Err(e) => variant_name_of(full_type@) == Err::<Seq<char>, Halt>(e),
        },
{
    match full_type {
        Type::Fn { args, .. } => {
            let ghost views = full_type@->Fn_args;
            assert(views =~= type_views(args@));
            let mut name = String::new();
            let mut i: usize = 0;
            while i < args.len()
                invariant
                    i <= args.len(),
                    variant_suffixes(views, i as nat) == Ok::<Seq<char>, Halt>(name@),
                decreases args.len() - i,
            {
                assert(views[i as int] == args@[i as int]@);
                match get_variant_name(&args[i]) {
                    Ok(s) => {
                        name = name.concat(s.as_str());
                    },
                    Err(e) => {
                        proof {
                            assert(variant_suffixes(views, (i + 1) as nat) == Err::<
                                Seq<char>,
                                Halt,
                            >(e));
                            lemma_variant_suffixes_fail(views, (i + 1) as nat);
                        }
                        return Err(e);
                    },
                }
                i = i + 1;
            }
            Ok(name)
        },
        _ => Ok(String::new()),
    }
}

proof fn lemma_replace_in_bindings_fail(
    bindings: Seq<(usize, Seq<char>, TypeView)>,
    map: Seq<(u64, TypeView)>,
    k: nat,
)
    requires
        k <= bindings.len(),
        replace_in_bindings(bindings, map, k) is Err,
    ensures
        replace_in_bindings(bindings, map, bindings.len()) == replace_in_bindings(bindings, map, k),
    decreases bindings.len() - k,
{
    if k < bindings.len() {
        assert(replace_in_bindings(bindings, map, k + 1) == replace_in_bindings(bindings, map, k));
        lemma_replace_in_bindings_fail(bindings, map, k + 1);
    }
}

/// Whether one of the bindings has a generic type.
pub fn has_generic_binding(bindings: &Vec<(usize, String, Type)>) -> (r: bool)
    ensures
        r == any_generic(binding_views(bindings@)),
{
    let ghost views = binding_views(bindings@);
    let mut i: usize = 0;
    while i < bindings.len()
        invariant
            i <= bindings.len(),
            views == binding_views(bindings@),
            forall|j: int| 0 <= j < i ==> !(#[trigger] views[j]).2.is_generic(),
        decreases bindings.len() - i,
    {
        assert(views[i as int].2 == bindings@[i as int].2@);
        if bindings[i].2.is_generic() {
            return true;
        }
        i = i + 1;
    }
    false
}

/// The types of the bindings, each with its generic variables replaced.
#[verifier::loop_isolation(false)]
pub fn replace_bindings(bindings: &Vec<(usize, String, Type)>, map: &Vec<(u64, Type)>) -> (r: Result<
    Vec<(usize, String, Type)>,
    Halt,
>)
    ensures
        match r {
            Ok(out) => replace_in_bindings(
                binding_views(bindings@),
                assignment_views(map@),
                bindings@.len(),
            ) == Ok::<Seq<(usize, Seq<char>, TypeView)>, Halt>(binding_views(out@)),
            Err(e) => replace_in_bindings(
                binding_views(bindings@),
                assignment_views(map@),
                bindings@.len(),
            ) == Err::<Seq<(usize, Seq<char>, TypeView)>, Halt>(e),
        },
{
    let ghost views = binding_views(bindings@);
    let ghost mv = assignment_views(map@);
    let mut out: Vec<(usize, String, Type)> = Vec::new();
    let mut i: usize = 0;
    assert(binding_views(out@) =~= Seq::empty());
    while i < bindings.len()
        invariant
            i <= bindings.len(),
            replace_in_bindings(views, mv, i as nat) == Ok::<
                Seq<(usize, Seq<char>, TypeView)>,
                Halt,
            >(binding_views(out@)),
        decreases bindings.len() - i,
    {
        assert(views[i as int] == (bindings@[i as int].0, bindings@[i as int].1@, bindings@[i as int].2@));
        match find_generics_to_replace(&bindings[i].2, map) {
            Ok(t) => {
                let ghost before = binding_views(out@);
                let ghost tv = t@;
                out.push((bindings[i].0, bindings[i].1.clone(), t));
                assert(binding_views(out@) =~= before.push(
                    (bindings@[i as int].0, bindings@[i as int].1@, tv),
                ));
            },
            Err(e) => {
                proof {
                    assert(replace_in_bindings(views, mv, (i + 1) as nat) == Err::<
                        Seq<(usize, Seq<char>, TypeView)>,
                        Halt,
                    >(e));
                    lemma_replace_in_bindings_fail(views, mv, (i + 1) as nat);
                }
                return Err(e);
            },
        }
        i = i + 1;
    }
    Ok(out)
}

/// What monomorphization makes of one instruction.
#[verifier::rlimit(60)]
pub fn monomorphize_instruction(ir: Air, map: &Vec<(u64, Type)>) -> (r: Result<(Air, bool), Halt>)
    ensures
        match r {
            Ok(out) => monomorphize_one(ir@, assignment_views(map@)) == Ok::<(AirView, bool), Halt>(
                (out.0@, out.1),
            ),
            Err(e) => monomorphize_one(ir@, assignment_views(map@)) == Err::<(AirView, bool), Halt>(
                e,
            ),
        },
{
    match ir {
        Air::Var { scope, constructor, name, variant_name } => {
            if constructor.tipo.is_generic() {
                let tipo = find_generics_to_replace(&constructor.tipo, map)?;
                let variant = match &constructor.variant {
                    ValueConstructorVariant::ModuleFn { .. } => variant_name_for(&tipo)?,
                    _ => String::new(),
                };
                Ok(
                    (
                        Air::Var {
                            scope,
                            constructor: ValueConstructor {
                                public: constructor.public,
                                variant: constructor.variant,
                                tipo,
                            },
                            name,
                            variant_name: variant,
                        },
                        true,
                    ),
                )
            } else {
                Ok((Air::Var { scope, constructor, name, variant_name }, false))
            }
        },
        Air::FieldsExpose { scope, count, indices } => {
            if has_generic_binding(&indices) {
                let replaced = replace_bindings(&indices, map)?;
                Ok((Air::FieldsExpose { scope, count, indices: replaced }, true))
            } else {
                Ok((Air::FieldsExpose { scope, count, indices }, false))
            }
        },
        Air::List { scope, tipo, count, tail } => {
            if tipo.is_generic() {
                let replaced = find_generics_to_replace(&tipo, map)?;
                Ok((Air::List { scope, tipo: replaced, count, tail }, true))
            } else {
                Ok((Air::List { scope, tipo, count, tail }, false))
            }
        },
        Air::ListAccessor { scope, tipo, names, tail } => {
            if tipo.is_generic() {
                let replaced = find_generics_to_replace(&tipo, map)?;
                Ok((Air::ListAccessor { scope, tipo: replaced, names, tail }, true))
            } else {
                Ok((Air::ListAccessor { scope, tipo, names, tail }, false))
            }
        },
        Air::ListExpose { scope, tipo, tail_head_names, tail } => {
            if tipo.is_generic() {
                let replaced = find_generics_to_replace(&tipo, map)?;
                Ok((Air::ListExpose { scope, tipo: replaced, tail_head_names, tail }, true))
            } else {
                Ok((Air::ListExpose { scope, tipo, tail_head_names, tail }, false))
            }
        },
        Air::Builtin { scope, tipo, func } => {
            if tipo.is_generic() {
                let replaced = find_generics_to_replace(&tipo, map)?;
                Ok((Air::Builtin { scope, tipo: replaced, func }, true))
            } else {
                Ok((Air::Builtin { scope, tipo, func }, false))
            }
        },
        Air::BinOp { scope, tipo, name, count } => {
            if tipo.is_generic() {
                let replaced = find_generics_to_replace(&tipo, map)?;
                Ok((Air::BinOp { scope, tipo: replaced, name, count }, true))
            } else {
                Ok((Air::BinOp { scope, tipo, name, count }, false))
            }
        },
        Air::When { scope, tipo, subject_name } => {
            if tipo.is_generic() {
                let replaced = find_generics_to_replace(&tipo, map)?;
                Ok((Air::When { scope, tipo: replaced, subject_name }, true))
            } else {
                Ok((Air::When { scope, tipo, subject_name }, false))
            }
        },
        Air::Clause { scope, tipo, subject_name, complex_clause } => {
            if tipo.is_generic() {
                let replaced = find_generics_to_replace(&tipo, map)?;
                Ok((Air::Clause { scope, tipo: replaced, subject_name, complex_clause }, true))
            } else {
                Ok((Air::Clause { scope, tipo, subject_name, complex_clause }, false))
            }
        },
        Air::ListClause { scope, tipo, tail_name, next_tail_name, complex_clause, inverse } => {
            if tipo.is_generic() {
                let replaced = find_generics_to_replace(&tipo, map)?;
                Ok((Air::ListClause { scope, tipo: replaced, tail_name, next_tail_name, complex_clause, inverse }, true))
            } else {
                Ok((Air::ListClause { scope, tipo, tail_name, next_tail_name, complex_clause, inverse }, false))
            }
        },
        Air::TupleClause { scope, tipo, indices, predefined_indices, subject_name, count, complex_clause } => {
            if tipo.is_generic() {
                let replaced = find_generics_to_replace(&tipo, map)?;
                Ok((Air::TupleClause { scope, tipo: replaced, indices, predefined_indices, subject_name, count, complex_clause }, true))
            } else {
                Ok((Air::TupleClause { scope, tipo, indices, predefined_indices, subject_name, count, complex_clause }, false))
            }
        },
        Air::ClauseGuard { scope, tipo, subject_name } => {
            if tipo.is_generic() {
                let replaced = find_generics_to_replace(&tipo, map)?;
                Ok((Air::ClauseGuard { scope, tipo: replaced, subject_name }, true))
            } else {
                Ok((Air::ClauseGuard { scope, tipo, subject_name }, false))
            }
        },
        Air::RecordAccess { scope, tipo, index } => {
            if tipo.is_generic() {
                let replaced = find_generics_to_replace(&tipo, map)?;
                Ok((Air::RecordAccess { scope, tipo: replaced, index }, true))
            } else {
                Ok((Air::RecordAccess { scope, tipo, index }, false))
            }
        },
        Air::Tuple { scope, tipo, count } => {
            if tipo.is_generic() {
                let replaced = find_generics_to_replace(&tipo, map)?;
                Ok((Air::Tuple { scope, tipo: replaced, count }, true))
            } else {
                Ok((Air::Tuple { scope, tipo, count }, false))
            }
        },
        Air::Todo { scope, tipo, label } => {
            if tipo.is_generic() {
                let replaced = find_generics_to_replace(&tipo, map)?;
                Ok((Air::Todo { scope, tipo: replaced, label }, true))
            } else {
                Ok((Air::Todo { scope, tipo, label }, false))
            }
        },
        Air::Trace { scope, tipo, text } => {
            if tipo.is_generic() {
                let replaced = find_generics_to_replace(&tipo, map)?;
                Ok((Air::Trace { scope, tipo: replaced, text }, true))
            } else {
                Ok((Air::Trace { scope, tipo, text }, false))
            }
        },
        Air::TupleAccessor { scope, tipo, names } => {
            if tipo.is_generic() {
                let replaced = find_generics_to_replace(&tipo, map)?;
                Ok((Air::TupleAccessor { scope, tipo: replaced, names }, true))
            } else {
                Ok((Air::TupleAccessor { scope, tipo, names }, false))
            }
        },
        Air::TupleIndex { scope, tipo, index } => {
            if tipo.is_generic() {
                let replaced = find_generics_to_replace(&tipo, map)?;
                Ok((Air::TupleIndex { scope, tipo: replaced, index }, true))
            } else {
                Ok((Air::TupleIndex { scope, tipo, index }, false))
            }
        },
        Air::ErrorTerm { scope, tipo, label } => {
            if tipo.is_generic() {
                let replaced = find_generics_to_replace(&tipo, map)?;
                Ok((Air::ErrorTerm { scope, tipo: replaced, label }, true))
            } else {
                Ok((Air::ErrorTerm { scope, tipo, label }, false))
            }
        },
        other => Ok((other, false)),
    }
}

proof fn lemma_monomorphize_all_fail(ir: Seq<AirView>, map: Seq<(u64, TypeView)>, k: nat)
    requires
        k <= ir.len(),
        monomorphize_all(ir, map, k) is Err,
    ensures
        monomorphize_all(ir, map, ir.len()) == monomorphize_all(ir, map, k),
    decreases ir.len() - k,
{
    if k < ir.len() {
        assert(monomorphize_all(ir, map, k + 1) == monomorphize_all(ir, map, k));
        lemma_monomorphize_all_fail(ir, map, k + 1);
    }
}

/// Specialises the body of a function to concrete types. The result is the
/// name of the variant, empty where the body holds no generic variable, and
/// the body with every generic variable replaced.
#[verifier::loop_isolation(false)]
pub fn monomorphize(ir: Vec<Air>, generic_types: &Vec<(u64, Type)>, full_type: &Type) -> (r: Result<
    (String, Vec<Air>),
    Halt,
>)
    ensures
        match r {
            Ok(out) => monomorphized(air_views(ir@), assignment_views(generic_types@), full_type@)
                == Ok::<(Seq<char>, Seq<AirView>), Halt>((out.0@, air_views(out.1@))),
            Err(e) => monomorphized(air_views(ir@), assignment_views(generic_types@), full_type@)
                == Err::<(Seq<char>, Seq<AirView>), Halt>(e),
        },
{
    let ghost views = air_views(ir@);
    let ghost mv = assignment_views(generic_types@);
    let mut rest = ir;
    let mut reversed: Vec<Air> = Vec::new();
    // The instructions are taken off the end, so turn the list round first.
    while rest.len() > 0
        invariant
            rest@.len() + reversed@.len() == views.len(),
            forall|j: int| 0 <= j < rest@.len() ==> rest@[j]@ == views[j],
            forall|j: int|
                0 <= j < reversed@.len() ==> reversed@[j]@ == views[views.len() - 1 - j],
        decreases rest@.len(),
    {
        let item = rest.pop().unwrap();
        reversed.push(item);
    }
    let mut out: Vec<Air> = Vec::new();
    let mut needs_variant = false;
    assert(air_views(out@) =~= Seq::empty());
    while reversed.len() > 0
        invariant
            reversed@.len() + out@.len() == views.len(),
            forall|j: int|
                0 <= j < reversed@.len() ==> reversed@[j]@ == views[views.len() - 1 - j],
            monomorphize_all(views, mv, out@.len() as nat) == Ok::<(Seq<AirView>, bool), Halt>(
                (air_views(out@), needs_variant),
            ),
        decreases reversed@.len(),
    {
        let ghost k = out@.len();
        let item = reversed.pop().unwrap();
        assert(item@ == views[k as int]);
        match monomorphize_instruction(item, generic_types) {
            Ok((one, generic)) => {
                let ghost before = air_views(out@);
                let ghost ov = one@;
                out.push(one);
                assert(air_views(out@) =~= before.push(ov));
                needs_variant = needs_variant || generic;
            },
            Err(e) => {
                proof {
                    assert(monomorphize_all(views, mv, (k + 1) as nat) == Err::<
                        (Seq<AirView>, bool),
                        Halt,
                    >(e));
                    lemma_monomorphize_all_fail(views, mv, (k + 1) as nat);
                }
                return Err(e);
            },
        }
    }
    if needs_variant {
        let name = variant_name_for(full_type)?;
        Ok((name, out))
    } else {
        Ok((String::new(), out))
    }
}

} // verus!
