use vstd::prelude::*;
use crate::search::{first_position, lemma_first_position_is, lemma_first_position_none};
use crate::term::clone_bytes;
use crate::expr::TypedExpr;
use crate::tipo::{PatternConstructor, Type, TypeView};

verus! {

/// A stretch of source text, by byte offsets.
#[derive(Debug, Clone, Copy, PartialEq, Eq)]
pub struct Span {
    pub start: usize,
    pub end: usize,
}

impl Span {
    pub open spec fn spec_empty() -> Span {
        Span { start: 0, end: 0 }
    }

    /// The span of a node that the generator made up.
    #[verifier::when_used_as_spec(spec_empty)]
    pub fn empty() -> (r: Span)
        ensures
            r == Span::spec_empty(),
    {
        Span { start: 0, end: 0 }
    }
}

/// The binary operators.
#[derive(Debug, Clone, Copy, PartialEq, Eq)]
pub enum BinOp {
    And,
    Or,
    Eq,
    NotEq,
    LtInt,
    LtEqInt,
    GtEqInt,
    GtInt,
    AddInt,
    SubInt,
    MultInt,
    DivInt,
    ModInt,
}

impl BinOp {
    pub open spec fn spec_precedence(&self) -> u8 {
        match self {
            BinOp::Or => 1,
            BinOp::And => 2,
            BinOp::Eq | BinOp::NotEq => 3,
            BinOp::LtInt | BinOp::LtEqInt | BinOp::GtEqInt | BinOp::GtInt => 4,
            BinOp::AddInt | BinOp::SubInt => 6,
            BinOp::MultInt | BinOp::DivInt | BinOp::ModInt => 7,
        }
    }

    /// How tightly the operator binds; a pipe sits at 5.
    #[verifier::when_used_as_spec(spec_precedence)]
    pub fn precedence(&self) -> (r: u8)
        ensures
            r == self.spec_precedence(),
    {
        match self {
            BinOp::Or => 1,
            BinOp::And => 2,
            BinOp::Eq | BinOp::NotEq => 3,
            BinOp::LtInt | BinOp::LtEqInt | BinOp::GtEqInt | BinOp::GtInt => 4,
            BinOp::AddInt | BinOp::SubInt => 6,
            BinOp::MultInt | BinOp::DivInt | BinOp::ModInt => 7,
        }
    }
}

/// The unary operators.
#[derive(Debug, Clone, Copy, PartialEq, Eq)]
pub enum UnOp {
    Not,
    Negate,
}

/// Whether an assignment may fail to match.
#[derive(Debug, Clone, Copy, PartialEq, Eq)]
pub enum AssignmentKind {
    Let,
    Assert,
}

/// A constant of a module, as written in the source.
#[derive(Debug, PartialEq, Eq)]
pub enum Constant {
    Int { location: Span, value: String },
    String { location: Span, value: String },
    ByteArray { location: Span, bytes: Vec<u8> },
    List { location: Span, elements: Vec<Constant>, tipo: Type },
    Tuple { location: Span, elements: Vec<Constant> },
}

pub ghost enum LiteralView {
    Int { location: Span, value: Seq<char> },
    String { location: Span, value: Seq<char> },
    ByteArray { location: Span, bytes: Seq<u8> },
    List { location: Span, elements: Seq<LiteralView>, tipo: TypeView },
    Tuple { location: Span, elements: Seq<LiteralView> },
}

pub open spec fn literal_view(c: Constant) -> LiteralView
    decreases c,
{
    match c {
        Constant::Int { location, value } => LiteralView::Int { location, value: value@ },
        Constant::String { location, value } => LiteralView::String { location, value: value@ },
        Constant::ByteArray { location, bytes } => LiteralView::ByteArray {
            location,
            bytes: bytes@,
        },
        Constant::List { location, elements, tipo } => LiteralView::List {
            location,
            elements: Seq::new(
                elements@.len(),
                |i: int|
                    if 0 <= i < elements@.len() {
                        literal_view(elements[i])
                    } else {
                        arbitrary()
                    },
            ),
            tipo: tipo@,
        },
        Constant::Tuple { location, elements } => LiteralView::Tuple {
            location,
            elements: Seq::new(
                elements@.len(),
                |i: int|
                    if 0 <= i < elements@.len() {
                        literal_view(elements[i])
                    } else {
                        arbitrary()
                    },
            ),
        },
    }
}

impl View for Constant {
    type V = LiteralView;

    open spec fn view(&self) -> LiteralView {
        literal_view(*self)
    }
}

impl Constant {
    #[verifier::loop_isolation(false)]
    pub fn duplicate(&self) -> (r: Constant)
        ensures
            r@ == self@,
        decreases self,
    {
        match self {
            Constant::Int { location, value } => Constant::Int {
                location: *location,
                value: value.clone(),
            },
            Constant::String { location, value } => Constant::String {
                location: *location,
                value: value.clone(),
            },
            Constant::ByteArray { location, bytes } => Constant::ByteArray {
                location: *location,
                bytes: clone_bytes(bytes),
            },
            Constant::List { location, elements, tipo } => {
                let mut out: Vec<Constant> = Vec::new();
                let mut i: usize = 0;
                while i < elements.len()
                    invariant
                        i <= elements.len(),
                        out.len() == i,
                        forall|j: int| 0 <= j < i ==> out@[j]@ == elements@[j]@,
                    decreases elements.len() - i,
                {
                    let item = elements[i].duplicate();
                    out.push(item);
                    i = i + 1;
                }
                let r = Constant::List {
                    location: *location,
                    elements: out,
                    tipo: tipo.duplicate(),
                };
                assert(r@->List_elements =~= self@->List_elements);
                r
            },
            Constant::Tuple { location, elements } => {
                let mut out: Vec<Constant> = Vec::new();
                let mut i: usize = 0;
                while i < elements.len()
                    invariant
                        i <= elements.len(),
                        out.len() == i,
                        forall|j: int| 0 <= j < i ==> out@[j]@ == elements@[j]@,
                    decreases elements.len() - i,
                {
                    let item = elements[i].duplicate();
                    out.push(item);
                    i = i + 1;
                }
                let r = Constant::Tuple { location: *location, elements: out };
                assert(r@->Tuple_elements =~= self@->Tuple_elements);
                r
            },
        }
    }
}

/// Where a name was defined.
#[derive(Debug, PartialEq, Eq)]
pub struct DefinitionLocation<'a> {
    pub module: Option<&'a str>,
    pub span: Span,
}

/// How a parameter is named.
#[derive(Debug, PartialEq, Eq)]
pub enum ArgName {
    Discard { name: String, location: Span },
    LabeledDiscard { label: String, name: String, location: Span },
    Named { name: String, location: Span },
    NamedLabeled { name: String, label: String, location: Span },
}

impl ArgName {
    /// The name under which the parameter is bound in the body, or `_`
    /// where it is discarded.
    pub open spec fn bound_name(&self) -> Seq<char> {
        match self {
            ArgName::Named { name, .. } | ArgName::NamedLabeled { name, .. } => name@,
            _ => seq!['_'],
        }
    }

    pub fn get_variable_name(&self) -> (r: Option<&String>)
        ensures
            match r {
                Some(name) => (self is Named || self is NamedLabeled) && name@ == self.bound_name(),
                None => self is Discard || self is LabeledDiscard,
            },
    {
        match self {
            ArgName::Discard { .. } | ArgName::LabeledDiscard { .. } => None,
            ArgName::Named { name, .. } | ArgName::NamedLabeled { name, .. } => Some(name),
        }
    }

    /// The bound name as a string of its own.
    pub fn variable_name(&self) -> (r: String)
        ensures
            r@ == self.bound_name(),
    {
        match self {
            ArgName::Named { name, .. } | ArgName::NamedLabeled { name, .. } => name.clone(),
            _ => {
                proof {
                    reveal_strlit("_");
                }
                let r = String::from_str("_");
                assert(r@ =~= seq!['_']);
                r
            },
        }
    }
}

/// A parameter of a function or validator.
#[derive(Debug, PartialEq, Eq)]
pub struct TypedArg {
    pub arg_name: ArgName,
    pub location: Span,
    pub tipo: Type,
}

/// One field of a constructor of a data type.
#[derive(Debug, PartialEq, Eq)]
pub struct RecordConstructorArg {
    pub label: Option<String>,
    pub tipo: Type,
}

/// One constructor of a data type.
#[derive(Debug, PartialEq, Eq)]
pub struct RecordConstructor {
    pub name: String,
    pub arguments: Vec<RecordConstructorArg>,
}

/// A data type: its constructors, in the order of their declaration. The
/// position of a constructor is the tag under which its values are encoded.
#[derive(Debug, PartialEq, Eq)]
pub struct TypedDataType {
    pub name: String,
    pub constructors: Vec<RecordConstructor>,
}

impl TypedDataType {
    /// The position of the first constructor of the given name.
    pub open spec fn constructor_position(&self, name: Seq<char>) -> Option<int> {
        first_position(self.constructors@, |c: RecordConstructor| c.name@ == name)
    }

    /// The position of the first constructor of the given name.
    pub fn find_constructor(&self, name: &String) -> (r: Option<usize>)
        ensures
            match r {
                Some(i) => self.constructor_position(name@) == Some(i as int) && i
                    < self.constructors@.len(),
                None => self.constructor_position(name@).is_none(),
            },
    {
        let ghost wanted = |c: RecordConstructor| c.name@ == name@;
        let mut i: usize = 0;
        while i < self.constructors.len()
            invariant
                i <= self.constructors.len(),
                wanted == |c: RecordConstructor| c.name@ == name@,
                forall|j: int| 0 <= j < i ==> !wanted(#[trigger] self.constructors@[j]),
            decreases self.constructors.len() - i,
        {
            if self.constructors[i].name == *name {
                proof {
                    lemma_first_position_is(self.constructors@, wanted, i as int);
                }
                return Some(i);
            }
            i = i + 1;
        }
        proof {
            lemma_first_position_none(self.constructors@, wanted);
        }
        None
    }
}

/// A pattern, as type inference hands it over.
#[derive(Debug, PartialEq, Eq)]
pub enum Pattern {
    Int { location: Span, value: String },
    String { location: Span, value: String },
    Var { location: Span, name: String },
    VarUsage { location: Span, name: String, tipo: Type },
    Assign { name: String, location: Span, pattern: Box<Pattern> },
    Discard { name: String, location: Span },
    List { location: Span, elements: Vec<Pattern>, tail: Option<Box<Pattern>> },
    Constructor {
        is_record: bool,
        location: Span,
        name: String,
        arguments: Vec<PatternArg>,
        module: Option<String>,
        constructor: PatternConstructor,
        with_spread: bool,
        tipo: Type,
    },
    Tuple { location: Span, elems: Vec<Pattern> },
}

/// One argument of a constructor pattern.
#[derive(Debug, PartialEq, Eq)]
pub struct PatternArg {
    pub label: Option<String>,
    pub location: Span,
    pub value: Pattern,
}

/// One argument of a call.
#[derive(Debug, PartialEq, Eq)]
pub struct CallArg {
    pub label: Option<String>,
    pub location: Span,
    pub value: TypedExpr,
}

/// One clause of a match: the patterns, one for each subject, and what the
/// match is worth where they fit.
#[derive(Debug, PartialEq, Eq)]
pub struct Clause {
    pub location: Span,
    pub pattern: Vec<Pattern>,
    pub body: TypedExpr,
}

/// One branch of a conditional.
#[derive(Debug, PartialEq, Eq)]
pub struct IfBranch {
    pub condition: TypedExpr,
    pub body: TypedExpr,
    pub location: Span,
}

/// One field that a record update sets.
#[derive(Debug, PartialEq, Eq)]
pub struct TypedRecordUpdateArg {
    pub label: String,
    pub location: Span,
    pub value: TypedExpr,
    pub index: usize,
}

/// A function of a module.
#[derive(Debug, PartialEq, Eq)]
pub struct TypedFunction {
    pub name: String,
    pub arguments: Vec<TypedArg>,
    pub body: TypedExpr,
    pub public: bool,
    pub location: Span,
    pub return_type: Type,
}

} // verus!
