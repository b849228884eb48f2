use vstd::prelude::*;
use crate::ast::{Constant, DefinitionLocation, LiteralView, Span};
use crate::term::{DefaultFunction, UplcType};
use crate::text::text_is;

verus! {

/// A type, as type inference hands it over.
#[derive(Debug, PartialEq, Eq)]
pub enum Type {
    /// A named type applied to arguments.
    App { public: bool, module: String, name: String, args: Vec<Type> },
    /// A function type.
    Fn { args: Vec<Type>, ret: Box<Type> },
    /// A type variable.
    Var { tipo: TypeVar },
    /// A tuple type.
    Tuple { elems: Vec<Type> },
}

/// What a type variable stands for.
#[derive(Debug, PartialEq, Eq)]
pub enum TypeVar {
    Unbound { id: u64 },
    Link { tipo: Box<Type> },
    Generic { id: u64 },
}

pub ghost enum TypeView {
    App { public: bool, module: Seq<char>, name: Seq<char>, args: Seq<TypeView> },
    Fn { args: Seq<TypeView>, ret: Box<TypeView> },
    Var { tipo: TypeVarView },
    Tuple { elems: Seq<TypeView> },
}

pub ghost enum TypeVarView {
    Unbound { id: u64 },
    Link { tipo: Box<TypeView> },
    Generic { id: u64 },
}

pub open spec fn type_view(t: Type) -> TypeView
    decreases t,
{
    match t {
        Type::App { public, module, name, args } => TypeView::App {
            public,
            module: module@,
            name: name@,
            args: Seq::new(
                args@.len(),
                |i: int|
                    if 0 <= i < args@.len() {
                        type_view(args[i])
                    } else {
                        arbitrary()
                    },
            ),
        },
        Type::Fn { args, ret } => TypeView::Fn {
            args: Seq::new(
                args@.len(),
                |i: int|
                    if 0 <= i < args@.len() {
                        type_view(args[i])
                    } else {
                        arbitrary()
                    },
            ),
            ret: Box::new(type_view(*ret)),
        },
        Type::Var { tipo } => TypeView::Var {
            tipo: match tipo {
                TypeVar::Unbound { id } => TypeVarView::Unbound { id },
                TypeVar::Link { tipo } => TypeVarView::Link { tipo: Box::new(type_view(*tipo)) },
                TypeVar::Generic { id } => TypeVarView::Generic { id },
            },
        },
        Type::Tuple { elems } => TypeView::Tuple {
            elems: Seq::new(
                elems@.len(),
                |i: int|
                    if 0 <= i < elems@.len() {
                        type_view(elems[i])
                    } else {
                        arbitrary()
                    },
            ),
        },
    }
}

impl View for Type {
    type V = TypeView;

    open spec fn view(&self) -> TypeView {
        type_view(*self)
    }
}

/// The views of a list of types, one for one.
pub open spec fn type_views(items: Seq<Type>) -> Seq<TypeView> {
    Seq::new(items.len(), |i: int| items[i]@)
}

impl TypeView {
    /// The type named `name` that belongs to no module and takes no
    /// arguments.
    pub open spec fn plain(name: Seq<char>) -> TypeView {
        TypeView::App { public: true, module: Seq::empty(), name, args: Seq::empty() }
    }

    /// Whether this is the built-in type of the given name, seen through
    /// any chain of linked variables.
    pub open spec fn is_named(self, wanted: Seq<char>) -> bool
        decreases self,
    {
        match self {
            TypeView::App { module, name, .. } => name == wanted && module.len() == 0,
            TypeView::Var { tipo: TypeVarView::Link { tipo } } => tipo.is_named(wanted),
            _ => false,
        }
    }

    pub open spec fn is_int(self) -> bool {
        self.is_named("Int"@)
    }

    pub open spec fn is_bytearray(self) -> bool {
        self.is_named("ByteArray"@)
    }

    pub open spec fn is_string(self) -> bool {
        self.is_named("String"@)
    }

    pub open spec fn is_bool(self) -> bool {
        self.is_named("Bool"@)
    }

    pub open spec fn is_void(self) -> bool {
        self.is_named("Void"@)
    }

    pub open spec fn is_list(self) -> bool {
        self.is_named("List"@)
    }

    /// Whether this is a tuple type, seen through linked variables.
    pub open spec fn is_tuple(self) -> bool
        decreases self,
    {
        match self {
            TypeView::Tuple { .. } => true,
            TypeView::Var { tipo: TypeVarView::Link { tipo } } => tipo.is_tuple(),
            _ => false,
        }
    }

    /// Whether this is a tuple of exactly two elements, seen through linked
    /// variables.
    pub open spec fn is_pair(self) -> bool
        decreases self,
    {
        match self {
            TypeView::Tuple { elems } => elems.len() == 2,
            TypeView::Var { tipo: TypeVarView::Link { tipo } } => tipo.is_pair(),
            _ => false,
        }
    }

    /// Whether this is a list whose items are pairs: an association list.
    pub open spec fn is_map(self) -> bool
        decreases self,
    {
        match self {
            TypeView::App { module, name, args, .. } => name == "List"@ && module.len() == 0
                && args.len() > 0 && match args[0] {
                TypeView::Tuple { elems } => elems.len() == 2,
                TypeView::Var { tipo: TypeVarView::Link { tipo } } => tipo.is_pair(),
                _ => false,
            },
            TypeView::Var { tipo: TypeVarView::Link { tipo } } => tipo.is_map(),
            _ => false,
        }
    }

    /// Whether a generic variable occurs anywhere in the type.
    pub open spec fn is_generic(self) -> bool
        decreases self,
    {
        match self {
            TypeView::App { args, .. } => exists|i: int|
                0 <= i < args.len() && (#[trigger] args[i]).is_generic(),
            TypeView::Fn { args, ret } => (exists|i: int|
                0 <= i < args.len() && (#[trigger] args[i]).is_generic()) || ret.is_generic(),
            TypeView::Var { tipo } => match tipo {
                TypeVarView::Generic { .. } => true,
                TypeVarView::Link { tipo } => tipo.is_generic(),
                TypeVarView::Unbound { .. } => false,
            },
            TypeView::Tuple { elems } => exists|i: int|
                0 <= i < elems.len() && (#[trigger] elems[i]).is_generic(),
        }
    }

    /// The identifier of the generic variable that the type is, if it is
    /// one, seen through linked variables.
    pub open spec fn get_generic(self) -> Option<u64>
        decreases self,
    {
        match self {
            TypeView::Var { tipo } => match tipo {
                TypeVarView::Generic { id } => Some(id),
                TypeVarView::Link { tipo } => tipo.get_generic(),
                TypeVarView::Unbound { .. } => None,
            },
            _ => None,
        }
    }

    /// The parameter types of a function type, or the arguments of a named
    /// type.
    pub open spec fn arg_types(self) -> Option<Seq<TypeView>> {
        match self {
            TypeView::Fn { args, .. } => Some(args),
            TypeView::App { args, .. } => Some(args),
            _ => None,
        }
    }

    /// The item type of a list, or the element types of a tuple; empty for
    /// every other type.
    pub open spec fn inner_types(self) -> Seq<TypeView>
        decreases self,
    {
        match self {
            TypeView::App { args, .. } => if self.is_list() {
                args
            } else {
                Seq::empty()
            },
            TypeView::Tuple { elems } => elems,
            TypeView::Var { tipo: TypeVarView::Link { tipo } } => tipo.inner_types(),
            _ => Seq::empty(),
        }
    }

    /// The tag under which the target machine holds a value of this type.
    pub open spec fn uplc_type(self) -> UplcType {
        if self.is_int() {
            UplcType::Integer
        } else if self.is_bytearray() {
            UplcType::ByteString
        } else if self.is_string() {
            UplcType::String
        } else if self.is_bool() {
            UplcType::Bool
        } else if self.is_map() {
            UplcType::List(Box::new(UplcType::data_pair()))
        } else if self.is_list() {
            UplcType::List(Box::new(UplcType::Data))
        } else if self.is_tuple() {
            if self.is_pair() {
                UplcType::data_pair()
            } else {
                UplcType::List(Box::new(UplcType::Data))
            }
        } else {
            UplcType::Data
        }
    }
}

impl Type {
    /// The type named `name` that belongs to no module and takes no
    /// arguments.
    pub fn plain(name: &str) -> (r: Type)
        ensures
            r@ == TypeView::plain(name@),
    {
        let r = Type::App {
            public: true,
            module: String::new(),
            name: String::from_str(name),
            args: Vec::new(),
        };
        assert(r@->App_args =~= Seq::empty());
        r
    }

    #[verifier::loop_isolation(false)]
    pub fn duplicate(&self) -> (r: Type)
        ensures
            r@ == self@,
        decreases self,
    {
        match self {
            Type::App { public, module, name, args } => {
                let mut out: Vec<Type> = Vec::new();
                let mut i: usize = 0;
                while i < args.len()
                    invariant
                        i <= args.len(),
                        out.len() == i,
                        forall|j: int| 0 <= j < i ==> out@[j]@ == args@[j]@,
                    decreases args.len() - i,
                {
                    let item = args[i].duplicate();
                    out.push(item);
                    i = i + 1;
                }
                let r = Type::App {
                    public: *public,
                    module: module.clone(),
                    name: name.clone(),
                    args: out,
                };
                assert(r@->App_args =~= self@->App_args);
                r
            },
            Type::Fn { args, ret } => {
                let mut out: Vec<Type> = Vec::new();
                let mut i: usize = 0;
                while i < args.len()
                    invariant
                        i <= args.len(),
                        out.len() == i,
                        forall|j: int| 0 <= j < i ==> out@[j]@ == args@[j]@,
                    decreases args.len() - i,
                {
                    let item = args[i].duplicate();
                    out.push(item);
                    i = i + 1;
                }
                let r = Type::Fn { args: out, ret: Box::new(ret.duplicate()) };
                assert(r@->Fn_args =~= self@->Fn_args);
                r
            },
            Type::Var { tipo } => match tipo {
                TypeVar::Unbound { id } => Type::Var { tipo: TypeVar::Unbound { id: *id } },
                TypeVar::Link { tipo } => Type::Var {
                    tipo: TypeVar::Link { tipo: Box::new(tipo.duplicate()) },
                },
                TypeVar::Generic { id } => Type::Var { tipo: TypeVar::Generic { id: *id } },
            },
            Type::Tuple { elems } => {
                let mut out: Vec<Type> = Vec::new();
                let mut i: usize = 0;
                while i < elems.len()
                    invariant
                        i <= elems.len(),
                        out.len() == i,
                        forall|j: int| 0 <= j < i ==> out@[j]@ == elems@[j]@,
                    decreases elems.len() - i,
                {
                    let item = elems[i].duplicate();
                    out.push(item);
                    i = i + 1;
                }
                let r = Type::Tuple { elems: out };
                assert(r@->elems =~= self@->elems);
                r
            },
        }
    }

    fn is_named(&self, wanted: &str) -> (r: bool)
        ensures
            r == self@.is_named(wanted@),
        decreases self,
    {
        match self {
            Type::App { module, name, .. } => text_is(name, wanted) && module.as_str().is_empty(),
            Type::Var { tipo: TypeVar::Link { tipo } } => tipo.is_named(wanted),
            _ => false,
        }
    }

    pub fn is_int(&self) -> (r: bool)
        ensures
            r == self@.is_int(),
    {
        self.is_named("Int")
    }

    pub fn is_bytearray(&self) -> (r: bool)
        ensures
            r == self@.is_bytearray(),
    {
        self.is_named("ByteArray")
    }

    pub fn is_string(&self) -> (r: bool)
        ensures
            r == self@.is_string(),
    {
        self.is_named("String")
    }

    pub fn is_bool(&self) -> (r: bool)
        ensures
            r == self@.is_bool(),
    {
        self.is_named("Bool")
    }

    pub fn is_void(&self) -> (r: bool)
        ensures
            r == self@.is_void(),
    {
        self.is_named("Void")
    }

    pub fn is_list(&self) -> (r: bool)
        ensures
            r == self@.is_list(),
    {
        self.is_named("List")
    }

    pub fn is_tuple(&self) -> (r: bool)
        ensures
            r == self@.is_tuple(),
        decreases self,
    {
        match self {
            Type::Tuple { .. } => true,
            Type::Var { tipo: TypeVar::Link { tipo } } => tipo.is_tuple(),
            _ => false,
        }
    }

    pub fn is_pair(&self) -> (r: bool)
        ensures
            r == self@.is_pair(),
        decreases self,
    {
        match self {
            Type::Tuple { elems } => elems.len() == 2,
            Type::Var { tipo: TypeVar::Link { tipo } } => tipo.is_pair(),
            _ => false,
        }
    }

    pub fn is_map(&self) -> (r: bool)
        ensures
            r == self@.is_map(),
        decreases self,
    {
        match self {
            Type::App { module, name, args, .. } => {
                if text_is(name, "List") && module.as_str().is_empty() && args.len() > 0 {
                    assert(self@->App_args[0] == args@[0]@);
                    match &args[0] {
                        Type::Tuple { elems } => elems.len() == 2,
                        Type::Var { tipo: TypeVar::Link { tipo } } => tipo.is_pair(),
                        _ => false,
                    }
                } else {
                    false
                }
            },
            Type::Var { tipo: TypeVar::Link { tipo } } => tipo.is_map(),
            _ => false,
        }
    }

    #[verifier::loop_isolation(false)]
    pub fn is_generic(&self) -> (r: bool)
        ensures
            r == self@.is_generic(),
        decreases self,
    {
        match self {
            Type::App { args, .. } => {
                let mut i: usize = 0;
                while i < args.len()
                    invariant
                        i <= args.len(),
                        forall|j: int| 0 <= j < i ==> !(#[trigger] self@->App_args[j]).is_generic(),
                    decreases args.len() - i,
                {
                    if args[i].is_generic() {
                        assert(self@->App_args[i as int].is_generic());
                        return true;
                    }
                    i = i + 1;
                }
                false
            },
            Type::Fn { args, ret } => {
                let mut i: usize = 0;
                while i < args.len()
                    invariant
                        i <= args.len(),
                        forall|j: int| 0 <= j < i ==> !(#[trigger] self@->Fn_args[j]).is_generic(),
                    decreases args.len() - i,
                {
                    if args[i].is_generic() {
                        assert(self@->Fn_args[i as int].is_generic());
                        return true;
                    }
                    i = i + 1;
                }
                ret.is_generic()
            },
            Type::Var { tipo } => match tipo {
                TypeVar::Generic { .. } => true,
                TypeVar::Link { tipo } => tipo.is_generic(),
                TypeVar::Unbound { .. } => false,
            },
            Type::Tuple { elems } => {
                let mut i: usize = 0;
                while i < elems.len()
                    invariant
                        i <= elems.len(),
                        forall|j: int| 0 <= j < i ==> !(#[trigger] self@->elems[j]).is_generic(),
                    decreases elems.len() - i,
                {
                    if elems[i].is_generic() {
                        assert(self@->elems[i as int].is_generic());
                        return true;
                    }
                    i = i + 1;
                }
                false
            },
        }
    }

    pub fn get_generic(&self) -> (r: Option<u64>)
        ensures
            r == self@.get_generic(),
        decreases self,
    {
        match self {
            Type::Var { tipo } => match tipo {
                TypeVar::Generic { id } => Some(*id),
                TypeVar::Link { tipo } => tipo.get_generic(),
                TypeVar::Unbound { .. } => None,
            },
            _ => None,
        }
    }

    /// A copy of a list of types.
    #[verifier::loop_isolation(false)]
    pub fn duplicate_all(items: &Vec<Type>) -> (r: Vec<Type>)
        ensures
            type_views(r@) == type_views(items@),
    {
        let mut out: Vec<Type> = Vec::new();
        let mut i: usize = 0;
        while i < items.len()
            invariant
                i <= items.len(),
                out.len() == i,
                forall|j: int| 0 <= j < i ==> out@[j]@ == items@[j]@,
            decreases items.len() - i,
        {
            let item = items[i].duplicate();
            out.push(item);
            i = i + 1;
        }
        assert(type_views(out@) =~= type_views(items@));
        out
    }

    pub fn arg_types(&self) -> (r: Option<Vec<Type>>)
        ensures
            match r {
                Some(args) => self@.arg_types() == Some(type_views(args@)),
                None => self@.arg_types().is_none(),
            },
    {
        match self {
            Type::Fn { args, .. } => {
                let r = Type::duplicate_all(args);
                assert(type_views(args@) =~= self@->Fn_args);
                Some(r)
            },
            Type::App { args, .. } => {
                let r = Type::duplicate_all(args);
                assert(type_views(args@) =~= self@->App_args);
                Some(r)
            },
            _ => None,
        }
    }

    pub fn get_inner_types(&self) -> (r: Vec<Type>)
        ensures
            type_views(r@) == self@.inner_types(),
        decreases self,
    {
        match self {
            Type::App { args, .. } => {
                if self.is_list() {
                    let r = Type::duplicate_all(args);
                    assert(type_views(args@) =~= self@->App_args);
                    r
                } else {
                    let r: Vec<Type> = Vec::new();
                    assert(type_views(r@) =~= Seq::empty());
                    r
                }
            },
            Type::Tuple { elems } => {
                let r = Type::duplicate_all(elems);
                assert(type_views(elems@) =~= self@->elems);
                r
            },
            Type::Var { tipo: TypeVar::Link { tipo } } => tipo.get_inner_types(),
            _ => {
                let r: Vec<Type> = Vec::new();
                assert(type_views(r@) =~= Seq::empty());
                r
            },
        }
    }

    pub fn get_uplc_type(&self) -> (r: UplcType)
        ensures
            r == self@.uplc_type(),
    {
        if self.is_int() {
            UplcType::Integer
        } else if self.is_bytearray() {
            UplcType::ByteString
        } else if self.is_string() {
            UplcType::String
        } else if self.is_bool() {
            UplcType::Bool
        } else if self.is_map() {
            UplcType::List(Box::new(UplcType::pair_of_data()))
        } else if self.is_list() {
            UplcType::List(Box::new(UplcType::Data))
        } else if self.is_tuple() {
            if self.is_pair() {
                UplcType::pair_of_data()
            } else {
                UplcType::List(Box::new(UplcType::Data))
            }
        } else {
            UplcType::Data
        }
    }
}

/// One field of a record: its label, its position, and where it was declared.
#[derive(Debug, PartialEq, Eq)]
pub struct Field {
    pub label: String,
    pub index: usize,
    pub location: Span,
}

pub ghost struct FieldView {
    pub label: Seq<char>,
    pub index: usize,
    pub location: Span,
}

impl View for Field {
    type V = FieldView;

    open spec fn view(&self) -> FieldView {
        FieldView { label: self.label@, index: self.index, location: self.location }
    }
}

/// The views of a list of fields, one for one.
pub open spec fn field_views(items: Seq<Field>) -> Seq<FieldView> {
    Seq::new(items.len(), |i: int| items[i]@)
}

/// The labelled fields of a record constructor. No label occurs twice.
#[derive(Debug, PartialEq, Eq)]
pub struct FieldMap {
    pub arity: usize,
    pub fields: Vec<Field>,
    pub is_function: bool,
}

pub ghost struct FieldMapView {
    pub arity: usize,
    pub fields: Seq<FieldView>,
    pub is_function: bool,
}

impl View for FieldMap {
    type V = FieldMapView;

    open spec fn view(&self) -> FieldMapView {
        FieldMapView {
            arity: self.arity,
            fields: field_views(self.fields@),
            is_function: self.is_function,
        }
    }
}

/// The position of the first field with the given label.
pub open spec fn field_index(fields: Seq<FieldView>, label: Seq<char>) -> Option<usize>
    decreases fields.len(),
{
    if fields.len() == 0 {
        None
    } else if fields[0].label == label {
        Some(fields[0].index)
    } else {
        field_index(fields.drop_first(), label)
    }
}

impl FieldMapView {
    /// The position of the first field with the given label.
    pub open spec fn index_of(self, label: Seq<char>) -> Option<usize> {
        field_index(self.fields, label)
    }
}

impl FieldMap {
    pub fn duplicate(&self) -> (r: FieldMap)
        ensures
            r@ == self@,
    {
        let mut out: Vec<Field> = Vec::new();
        let mut i: usize = 0;
        while i < self.fields.len()
            invariant
                i <= self.fields.len(),
                out.len() == i,
                forall|j: int| 0 <= j < i ==> out@[j]@ == self.fields@[j]@,
            decreases self.fields.len() - i,
        {
            out.push(
                Field {
                    label: self.fields[i].label.clone(),
                    index: self.fields[i].index,
                    location: self.fields[i].location,
                },
            );
            i = i + 1;
        }
        assert(field_views(out@) =~= field_views(self.fields@));
        FieldMap { arity: self.arity, fields: out, is_function: self.is_function }
    }

    /// The position of the field with the given label.
    pub fn get(&self, label: &String) -> (r: Option<usize>)
        ensures
            match r {
                Some(index) => self@.index_of(label@) == Some(index),
                None => self@.index_of(label@).is_none(),
            },
    {
        let mut i: usize = 0;
        assert(self@.fields.skip(0) =~= self@.fields);
        while i < self.fields.len()
            invariant
                i <= self.fields.len(),
                self@.index_of(label@) == field_index(self@.fields.skip(i as int), label@),
            decreases self.fields.len() - i,
        {
            if self.fields[i].label == *label {
                return Some(self.fields[i].index);
            }
            assert(self@.fields.skip(i as int).drop_first() =~= self@.fields.skip(i as int + 1));
            i = i + 1;
        }
        None
    }
}

pub open spec fn field_map_view(m: Option<FieldMap>) -> Option<FieldMapView> {
    match m {
        Some(m) => Some(m@),
        None => None,
    }
}

fn duplicate_field_map(m: &Option<FieldMap>) -> (r: Option<FieldMap>)
    ensures
        field_map_view(r) == field_map_view(*m),
{
    match m {
        Some(m) => Some(m.duplicate()),
        None => None,
    }
}

/// What a name in an expression refers to.
#[derive(Debug, PartialEq, Eq)]
pub enum ValueConstructorVariant {
    /// A variable bound in the enclosing function.
    LocalVariable { location: Span },
    /// A constant of a module.
    ModuleConstant { location: Span, module: String, literal: Constant },
    /// A function of a module, possibly a built-in of the target machine.
    ModuleFn {
        name: String,
        field_map: Option<FieldMap>,
        module: String,
        arity: usize,
        location: Span,
        builtin: Option<DefaultFunction>,
    },
    /// A constructor of a data type.
    Record {
        name: String,
        arity: usize,
        field_map: Option<FieldMap>,
        location: Span,
        module: String,
        constructors_count: u16,
    },
}

pub ghost enum VariantView {
    LocalVariable { location: Span },
    ModuleConstant { location: Span, module: Seq<char>, literal: LiteralView },
    ModuleFn {
        name: Seq<char>,
        field_map: Option<FieldMapView>,
        module: Seq<char>,
        arity: usize,
        location: Span,
        builtin: Option<DefaultFunction>,
    },
    Record {
        name: Seq<char>,
        arity: usize,
        field_map: Option<FieldMapView>,
        location: Span,
        module: Seq<char>,
        constructors_count: u16,
    },
}

impl View for ValueConstructorVariant {
    type V = VariantView;

    open spec fn view(&self) -> VariantView {
        match self {
            ValueConstructorVariant::LocalVariable { location } => VariantView::LocalVariable {
                location: *location,
            },
            ValueConstructorVariant::ModuleConstant {
                location,
                module,
                literal,
            } => VariantView::ModuleConstant {
                location: *location,
                module: module@,
                literal: literal@,
            },
            ValueConstructorVariant::ModuleFn {
                name,
                field_map,
                module,
                arity,
                location,
                builtin,
            } => VariantView::ModuleFn {
                name: name@,
                field_map: field_map_view(*field_map),
                module: module@,
                arity: *arity,
                location: *location,
                builtin: *builtin,
            },
            ValueConstructorVariant::Record {
                name,
                arity,
                field_map,
                location,
                module,
                constructors_count,
            } => VariantView::Record {
                name: name@,
                arity: *arity,
                field_map: field_map_view(*field_map),
                location: *location,
                module: module@,
                constructors_count: *constructors_count,
            },
        }
    }
}

impl ValueConstructorVariant {
    pub fn duplicate(&self) -> (r: ValueConstructorVariant)
        ensures
            r@ == self@,
    {
        match self {
            ValueConstructorVariant::LocalVariable {
                location,
            } => ValueConstructorVariant::LocalVariable { location: *location },
            ValueConstructorVariant::ModuleConstant {
                location,
                module,
                literal,
            } => ValueConstructorVariant::ModuleConstant {
                location: *location,
                module: module.clone(),
                literal: literal.duplicate(),
            },
            ValueConstructorVariant::ModuleFn {
                name,
                field_map,
                module,
                arity,
                location,
                builtin,
            } => ValueConstructorVariant::ModuleFn {
                name: name.clone(),
                field_map: duplicate_field_map(field_map),
                module: module.clone(),
                arity: *arity,
                location: *location,
                builtin: *builtin,
            },
            ValueConstructorVariant::Record {
                name,
                arity,
                field_map,
                location,
                module,
                constructors_count,
            } => ValueConstructorVariant::Record {
                name: name.clone(),
                arity: *arity,
                field_map: duplicate_field_map(field_map),
                location: *location,
                module: module.clone(),
                constructors_count: *constructors_count,
            },
        }
    }
}

/// A name in an expression, with what it refers to and its type.
#[derive(Debug, PartialEq, Eq)]
pub struct ValueConstructor {
    pub public: bool,
    pub variant: ValueConstructorVariant,
    pub tipo: Type,
}

pub ghost struct ValueConstructorView {
    pub public: bool,
    pub variant: VariantView,
    pub tipo: TypeView,
}

impl View for ValueConstructor {
    type V = ValueConstructorView;

    open spec fn view(&self) -> ValueConstructorView {
        ValueConstructorView { public: self.public, variant: self.variant@, tipo: self.tipo@ }
    }
}

impl ValueConstructorView {
    /// A public name that refers to a local variable of the given type.
    pub open spec fn local(tipo: TypeView) -> ValueConstructorView {
        ValueConstructorView {
            public: true,
            variant: VariantView::LocalVariable { location: Span::spec_empty() },
            tipo,
        }
    }
}

impl ValueConstructor {
    pub fn public(tipo: Type, variant: ValueConstructorVariant) -> (r: ValueConstructor)
        ensures
            r@ == (ValueConstructorView { public: true, variant: variant@, tipo: tipo@ }),
    {
        ValueConstructor { public: true, variant, tipo }
    }

    /// A public name that refers to a local variable of the given type.
    pub fn local(tipo: Type) -> (r: ValueConstructor)
        ensures
            r@ == ValueConstructorView::local(tipo@),
    {
        ValueConstructor {
            public: true,
            variant: ValueConstructorVariant::LocalVariable { location: Span::empty() },
            tipo,
        }
    }

    pub fn duplicate(&self) -> (r: ValueConstructor)
        ensures
            r@ == self@,
    {
        ValueConstructor {
            public: self.public,
            variant: self.variant.duplicate(),
            tipo: self.tipo.duplicate(),
        }
    }

    /// The module that defines the name: none for a local variable.
    pub open spec fn defining_module(&self) -> Option<Seq<char>> {
        match self.variant {
            ValueConstructorVariant::LocalVariable { .. } => None,
            ValueConstructorVariant::ModuleConstant { module, .. } => Some(module@),
            ValueConstructorVariant::ModuleFn { module, .. } => Some(module@),
            ValueConstructorVariant::Record { module, .. } => Some(module@),
        }
    }

    /// The place in the source where the name was defined.
    pub open spec fn defining_span(&self) -> Span {
        match self.variant {
            ValueConstructorVariant::LocalVariable { location } => location,
            ValueConstructorVariant::ModuleConstant { location, .. } => location,
            ValueConstructorVariant::ModuleFn { location, .. } => location,
            ValueConstructorVariant::Record { location, .. } => location,
        }
    }

    /// Where the name was defined: the module for what a module defines,
    /// none for a local variable.
    pub fn definition_location(&self) -> (r: DefinitionLocation<'_>)
        ensures
            r.span == self.defining_span(),
            match r.module {
                Some(module) => self.defining_module() == Some(module@),
                None => self.defining_module().is_none(),
            },
    {
        match &self.variant {
            ValueConstructorVariant::Record { module, location, .. }
            | ValueConstructorVariant::ModuleFn { module, location, .. }
            | ValueConstructorVariant::ModuleConstant { location, module, .. } => DefinitionLocation {
                module: Some(module.as_str()),
                span: *location,
            },
            ValueConstructorVariant::LocalVariable { location } => DefinitionLocation {
                module: None,
                span: *location,
            },
        }
    }
}

/// What a name selected from a module refers to.
#[derive(Debug, PartialEq, Eq)]
pub enum ModuleValueConstructor {
    Record { name: String, arity: usize, tipo: Type, field_map: Option<FieldMap>, location: Span },
    Fn { location: Span, module: String, name: String },
    Constant { literal: Constant, location: Span, module: String },
}

impl ModuleValueConstructor {
    pub fn location(&self) -> (r: Span)
        ensures
            r == match self {
                ModuleValueConstructor::Record { location, .. } => *location,
                ModuleValueConstructor::Fn { location, .. } => *location,
                ModuleValueConstructor::Constant { location, .. } => *location,
            },
    {
        match self {
            ModuleValueConstructor::Fn { location, .. }
            | ModuleValueConstructor::Record { location, .. }
            | ModuleValueConstructor::Constant { location, .. } => *location,
        }
    }
}

/// The constructor that a pattern names.
#[derive(Debug, PartialEq, Eq)]
pub enum PatternConstructor {
    Record { name: String, field_map: Option<FieldMap> },
}

/// What a module offers to other modules.
#[derive(Debug, PartialEq, Eq)]
pub struct TypeInfo {
    pub name: String,
    pub values: Vec<(String, ValueConstructor)>,
}

impl TypeInfo {
    /// The position of the first value of the given name.
    pub open spec fn position(&self, name: Seq<char>) -> Option<int> {
        if exists|i: int| 0 <= i < self.values@.len() && (#[trigger] self.values@[i]).0@ == name {
            Some(
                choose|i: int|
                    0 <= i < self.values@.len() && (#[trigger] self.values@[i]).0@ == name
                        && forall|j: int| 0 <= j < i ==> (#[trigger] self.values@[j]).0@ != name,
            )
        } else {
            None
        }
    }

    /// The first value of the given name.
    pub fn get(&self, name: &String) -> (r: Option<&ValueConstructor>)
        ensures
            match r {
                Some(v) => exists|i: int|
                    0 <= i < self.values@.len() && (#[trigger] self.values@[i]).0@ == name@
                        && self.values@[i].1 == *v && forall|j: int|
                        0 <= j < i ==> (#[trigger] self.values@[j]).0@ != name@,
                None => forall|i: int|
                    0 <= i < self.values@.len() ==> (#[trigger] self.values@[i]).0@ != name@,
            },
    {
        let mut i: usize = 0;
        while i < self.values.len()
            invariant
                i <= self.values.len(),
                forall|j: int| 0 <= j < i ==> (#[trigger] self.values@[j]).0@ != name@,
            decreases self.values.len() - i,
        {
            if self.values[i].0 == *name {
                return Some(&self.values[i].1);
            }
            i = i + 1;
        }
        None
    }
}

} // verus!
