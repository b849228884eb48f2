use vstd::prelude::*;

verus! {

/// The index that the interner gives a bound name.
#[derive(Debug, Clone, Copy, PartialEq, Eq)]
pub struct Unique(pub isize);

/// A variable name of the target language.
#[derive(Debug, PartialEq, Eq)]
pub struct Name {
    pub text: String,
    pub unique: Unique,
}

pub ghost struct NameView {
    pub text: Seq<char>,
    pub unique: int,
}

impl View for Name {
    type V = NameView;

    open spec fn view(&self) -> NameView {
        NameView { text: self.text@, unique: self.unique.0 as int }
    }
}

impl Name {
    /// A name that the interner has not numbered yet.
    pub fn fresh(text: String) -> (r: Name)
        ensures
            r@ == (NameView { text: text@, unique: 0 }),
    {
        Name { text, unique: Unique(0) }
    }

    pub fn duplicate(&self) -> (r: Name)
        ensures
            r@ == self@,
    {
        Name { text: self.text.clone(), unique: Unique(self.unique.0) }
    }
}

/// The built-in functions of the target machine.
#[allow(non_camel_case_types)]
#[derive(Debug, Clone, Copy, PartialEq, Eq)]
pub enum DefaultFunction {
    AddInteger,
    SubtractInteger,
    MultiplyInteger,
    DivideInteger,
    QuotientInteger,
    RemainderInteger,
    ModInteger,
    EqualsInteger,
    LessThanInteger,
    LessThanEqualsInteger,
    AppendByteString,
    ConsByteString,
    SliceByteString,
    LengthOfByteString,
    IndexByteString,
    EqualsByteString,
    LessThanByteString,
    LessThanEqualsByteString,
    Sha2_256,
    Sha3_256,
    Blake2b_256,
    VerifyEd25519Signature,
    VerifyEcdsaSecp256k1Signature,
    VerifySchnorrSecp256k1Signature,
    AppendString,
    EqualsString,
    EncodeUtf8,
    DecodeUtf8,
    IfThenElse,
    ChooseUnit,
    Trace,
    FstPair,
    SndPair,
    ChooseList,
    MkCons,
    HeadList,
    TailList,
    NullList,
    ChooseData,
    ConstrData,
    MapData,
    ListData,
    IData,
    BData,
    UnConstrData,
    UnMapData,
    UnListData,
    UnIData,
    UnBData,
    EqualsData,
    SerialiseData,
    MkPairData,
    MkNilData,
    MkNilPairData,
}

impl DefaultFunction {
    /// How many times a built-in must be forced before it takes arguments:
    /// once for each type it is polymorphic in.
    pub open spec fn spec_force_count(self) -> u32 {
        match self {
            DefaultFunction::IfThenElse
            | DefaultFunction::ChooseUnit
            | DefaultFunction::Trace
            | DefaultFunction::MkCons
            | DefaultFunction::HeadList
            | DefaultFunction::TailList
            | DefaultFunction::NullList
            | DefaultFunction::ChooseData => 1,
            DefaultFunction::FstPair | DefaultFunction::SndPair | DefaultFunction::ChooseList => 2,
            _ => 0,
        }
    }

    #[verifier::when_used_as_spec(spec_force_count)]
    pub fn force_count(self) -> (r: u32)
        ensures
            r == self.spec_force_count(),
    {
        match self {
            DefaultFunction::IfThenElse
            | DefaultFunction::ChooseUnit
            | DefaultFunction::Trace
            | DefaultFunction::MkCons
            | DefaultFunction::HeadList
            | DefaultFunction::TailList
            | DefaultFunction::NullList
            | DefaultFunction::ChooseData => 1,
            DefaultFunction::FstPair | DefaultFunction::SndPair | DefaultFunction::ChooseList => 2,
            _ => 0,
        }
    }
}

/// The type tags of the target machine's constants.
#[derive(Debug, PartialEq, Eq)]
pub enum UplcType {
    Bool,
    Integer,
    String,
    ByteString,
    Unit,
    List(Box<UplcType>),
    Pair(Box<UplcType>, Box<UplcType>),
    Data,
}

impl UplcType {
    pub fn duplicate(&self) -> (r: UplcType)
        ensures
            r == *self,
        decreases self,
    {
        match self {
            UplcType::Bool => UplcType::Bool,
            UplcType::Integer => UplcType::Integer,
            UplcType::String => UplcType::String,
            UplcType::ByteString => UplcType::ByteString,
            UplcType::Unit => UplcType::Unit,
            UplcType::List(t) => UplcType::List(Box::new(t.duplicate())),
            UplcType::Pair(a, b) => UplcType::Pair(
                Box::new(a.duplicate()),
                Box::new(b.duplicate()),
            ),
            UplcType::Data => UplcType::Data,
        }
    }

    /// The tag of a pair of two data values.
    pub open spec fn data_pair() -> UplcType {
        UplcType::Pair(Box::new(UplcType::Data), Box::new(UplcType::Data))
    }

    pub fn pair_of_data() -> (r: UplcType)
        ensures
            r == UplcType::data_pair(),
    {
        UplcType::Pair(Box::new(UplcType::Data), Box::new(UplcType::Data))
    }
}

/// The machine's universal data encoding.
#[derive(Debug, PartialEq, Eq)]
pub enum PlutusData {
    Constr { tag: u64, any_constructor: Option<u64>, fields: Vec<PlutusData> },
    Mapping(Vec<(PlutusData, PlutusData)>),
    BigInt(i128),
    BoundedBytes(Vec<u8>),
    Array(Vec<PlutusData>),
}

pub ghost enum PlutusDataView {
    Constr { tag: int, any_constructor: Option<int>, fields: Seq<PlutusDataView> },
    Mapping(Seq<(PlutusDataView, PlutusDataView)>),
    BigInt(int),
    BoundedBytes(Seq<u8>),
    Array(Seq<PlutusDataView>),
}

pub open spec fn plutus_data_view(t: PlutusData) -> PlutusDataView
    decreases t,
{
    match t {
        PlutusData::Constr { tag, any_constructor, fields } => PlutusDataView::Constr {
            tag: tag as int,
            any_constructor: match any_constructor {
                Some(c) => Some(c as int),
                None => None,
            },
            fields: Seq::new(
                fields@.len(),
                |i: int|
                    if 0 <= i < fields@.len() {
                        plutus_data_view(fields[i])
                    } else {
                        arbitrary()
                    },
            ),
        },
        PlutusData::Mapping(pairs) => PlutusDataView::Mapping(
            Seq::new(
                pairs@.len(),
                |i: int|
                    if 0 <= i < pairs@.len() {
                        (plutus_data_view(pairs[i].0), plutus_data_view(pairs[i].1))
                    } else {
                        arbitrary()
                    },
            ),
        ),
        PlutusData::BigInt(i) => PlutusDataView::BigInt(i as int),
        PlutusData::BoundedBytes(b) => PlutusDataView::BoundedBytes(b@),
        PlutusData::Array(items) => PlutusDataView::Array(
            Seq::new(
                items@.len(),
                |i: int|
                    if 0 <= i < items@.len() {
                        plutus_data_view(items[i])
                    } else {
                        arbitrary()
                    },
            ),
        ),
    }
}

impl View for PlutusData {
    type V = PlutusDataView;

    open spec fn view(&self) -> PlutusDataView {
        plutus_data_view(*self)
    }
}

/// The views of a list of data values, one for one.
pub open spec fn data_views(items: Seq<PlutusData>) -> Seq<PlutusDataView> {
    Seq::new(items.len(), |i: int| items[i]@)
}

pub fn clone_bytes(bytes: &Vec<u8>) -> (r: Vec<u8>)
    ensures
        r@ == bytes@,
{
    let mut out: Vec<u8> = Vec::new();
    let mut i: usize = 0;
    while i < bytes.len()
        invariant
            i <= bytes.len(),
            out@ == bytes@.take(i as int),
        decreases bytes.len() - i,
    {
        out.push(bytes[i]);
        i = i + 1;
    }
    out
}

impl PlutusData {
    /// The constructor value with the given tag and no fields.
    pub open spec fn spec_enum_tag(tag: int) -> PlutusDataView {
        PlutusDataView::Constr { tag, any_constructor: None, fields: Seq::empty() }
    }

    pub fn enum_tag(tag: u64) -> (r: PlutusData)
        ensures
            r@ == PlutusData::spec_enum_tag(tag as int),
    {
        let r = PlutusData::Constr { tag, any_constructor: None, fields: Vec::new() };
        assert(r@->Constr_fields =~= Seq::empty());
        r
    }

    #[verifier::loop_isolation(false)]
    pub fn duplicate(&self) -> (r: PlutusData)
        ensures
            r@ == self@,
        decreases self,
    {
        match self {
            PlutusData::Constr { tag, any_constructor, fields } => {
                let mut out: Vec<PlutusData> = Vec::new();
                let mut i: usize = 0;
                while i < fields.len()
                    invariant
                        i <= fields.len(),
                        out.len() == i,
                        forall|j: int| 0 <= j < i ==> out@[j]@ == fields@[j]@,
                    decreases fields.len() - i,
                {
                    let item = fields[i].duplicate();
                    out.push(item);
                    i = i + 1;
                }
                let r = PlutusData::Constr {
                    tag: *tag,
                    any_constructor: *any_constructor,
                    fields: out,
                };
                assert(r@->Constr_fields =~= self@->Constr_fields);
                r
            },
            PlutusData::Mapping(pairs) => {
                let mut out: Vec<(PlutusData, PlutusData)> = Vec::new();
                let mut i: usize = 0;
                while i < pairs.len()
                    invariant
                        i <= pairs.len(),
                        out.len() == i,
                        forall|j: int|
                            0 <= j < i ==> out@[j].0@ == pairs@[j].0@ && out@[j].1@ == pairs@[j].1@,
                    decreases pairs.len() - i,
                {
                    let key = pairs[i].0.duplicate();
                    let value = pairs[i].1.duplicate();
                    out.push((key, value));
                    i = i + 1;
                }
                let r = PlutusData::Mapping(out);
                assert(r@->Mapping_0 =~= self@->Mapping_0);
                r
            },
            PlutusData::BigInt(i) => PlutusData::BigInt(*i),
            PlutusData::BoundedBytes(b) => PlutusData::BoundedBytes(clone_bytes(b)),
            PlutusData::Array(items) => {
                let mut out: Vec<PlutusData> = Vec::new();
                let mut i: usize = 0;
                while i < items.len()
                    invariant
                        i <= items.len(),
                        out.len() == i,
                        forall|j: int| 0 <= j < i ==> out@[j]@ == items@[j]@,
                    decreases items.len() - i,
                {
                    let item = items[i].duplicate();
                    out.push(item);
                    i = i + 1;
                }
                let r = PlutusData::Array(out);
                assert(r@->Array_0 =~= self@->Array_0);
                r
            },
        }
    }
}

/// A constant of the target language.
#[derive(Debug, PartialEq, Eq)]
pub enum UplcConstant {
    Integer(i128),
    ByteString(Vec<u8>),
    String(String),
    Unit,
    Bool(bool),
    ProtoList(UplcType, Vec<UplcConstant>),
    ProtoPair(UplcType, UplcType, Box<UplcConstant>, Box<UplcConstant>),
    Data(PlutusData),
}

pub ghost enum ConstantView {
    Integer(int),
    ByteString(Seq<u8>),
    String(Seq<char>),
    Unit,
    Bool(bool),
    ProtoList(UplcType, Seq<ConstantView>),
    ProtoPair(UplcType, UplcType, Box<ConstantView>, Box<ConstantView>),
    Data(PlutusDataView),
}

pub open spec fn constant_view(t: UplcConstant) -> ConstantView
    decreases t,
{
    match t {
        UplcConstant::Integer(i) => ConstantView::Integer(i as int),
        UplcConstant::ByteString(b) => ConstantView::ByteString(b@),
        UplcConstant::String(s) => ConstantView::String(s@),
        UplcConstant::Unit => ConstantView::Unit,
        UplcConstant::Bool(b) => ConstantView::Bool(b),
        UplcConstant::ProtoList(t, items) => ConstantView::ProtoList(
            t,
            Seq::new(
                items@.len(),
                |i: int|
                    if 0 <= i < items@.len() {
                        constant_view(items[i])
                    } else {
                        arbitrary()
                    },
            ),
        ),
        UplcConstant::ProtoPair(a, b, fst, snd) => ConstantView::ProtoPair(
            a,
            b,
            Box::new(constant_view(*fst)),
            Box::new(constant_view(*snd)),
        ),
        UplcConstant::Data(d) => ConstantView::Data(d@),
    }
}

impl View for UplcConstant {
    type V = ConstantView;

    open spec fn view(&self) -> ConstantView {
        constant_view(*self)
    }
}

/// The views of a list of constants, one for one.
pub open spec fn constant_views(items: Seq<UplcConstant>) -> Seq<ConstantView> {
    Seq::new(items.len(), |i: int| items[i]@)
}

impl UplcConstant {
    pub fn proto_list(tipo: UplcType, items: Vec<UplcConstant>) -> (r: UplcConstant)
        ensures
            r@ == ConstantView::ProtoList(tipo, constant_views(items@)),
    {
        let r = UplcConstant::ProtoList(tipo, items);
        assert(r@->ProtoList_1 =~= constant_views(items@));
        r
    }

    #[verifier::loop_isolation(false)]
    pub fn duplicate(&self) -> (r: UplcConstant)
        ensures
            r@ == self@,
        decreases self,
    {
        match self {
            UplcConstant::Integer(i) => UplcConstant::Integer(*i),
            UplcConstant::ByteString(b) => UplcConstant::ByteString(clone_bytes(b)),
            UplcConstant::String(s) => UplcConstant::String(s.clone()),
            UplcConstant::Unit => UplcConstant::Unit,
            UplcConstant::Bool(b) => UplcConstant::Bool(*b),
            UplcConstant::ProtoList(t, items) => {
                let mut out: Vec<UplcConstant> = Vec::new();
                let mut i: usize = 0;
                while i < items.len()
                    invariant
                        i <= items.len(),
                        out.len() == i,
                        forall|j: int| 0 <= j < i ==> out@[j]@ == items@[j]@,
                    decreases items.len() - i,
                {
                    let item = items[i].duplicate();
                    out.push(item);
                    i = i + 1;
                }
                let r = UplcConstant::ProtoList(t.duplicate(), out);
                assert(r@->ProtoList_1 =~= self@->ProtoList_1);
                r
            },
            UplcConstant::ProtoPair(a, b, fst, snd) => UplcConstant::ProtoPair(
                a.duplicate(),
                b.duplicate(),
                Box::new(fst.duplicate()),
                Box::new(snd.duplicate()),
            ),
            UplcConstant::Data(d) => UplcConstant::Data(d.duplicate()),
        }
    }
}

/// A term of the target language: the untyped lambda calculus with
/// constants, built-ins, and explicit delay and force.
#[derive(Debug, PartialEq, Eq)]
pub enum Term {
    Var(Name),
    Delay(Box<Term>),
    Lambda { parameter_name: Name, body: Box<Term> },
    Apply { function: Box<Term>, argument: Box<Term> },
    Constant(UplcConstant),
    Force(Box<Term>),
    Error,
    Builtin(DefaultFunction),
}

pub ghost enum TermView {
    Var(NameView),
    Delay(Box<TermView>),
    Lambda { parameter_name: NameView, body: Box<TermView> },
    Apply { function: Box<TermView>, argument: Box<TermView> },
    Constant(ConstantView),
    Force(Box<TermView>),
    Error,
    Builtin(DefaultFunction),
}

pub open spec fn term_view(t: Term) -> TermView
    decreases t,
{
    match t {
        Term::Var(n) => TermView::Var(n@),
        Term::Delay(t) => TermView::Delay(Box::new(term_view(*t))),
        Term::Lambda { parameter_name, body } => TermView::Lambda {
            parameter_name: parameter_name@,
            body: Box::new(term_view(*body)),
        },
        Term::Apply { function, argument } => TermView::Apply {
            function: Box::new(term_view(*function)),
            argument: Box::new(term_view(*argument)),
        },
        Term::Constant(c) => TermView::Constant(c@),
        Term::Force(t) => TermView::Force(Box::new(term_view(*t))),
        Term::Error => TermView::Error,
        Term::Builtin(f) => TermView::Builtin(f),
    }
}

impl View for Term {
    type V = TermView;

    open spec fn view(&self) -> TermView {
        term_view(*self)
    }
}

/// The views of a list of terms, one for one.
pub open spec fn term_views(items: Seq<Term>) -> Seq<TermView> {
    Seq::new(items.len(), |i: int| items[i]@)
}

impl Term {
    pub fn duplicate(&self) -> (r: Term)
        ensures
            r@ == self@,
        decreases self,
    {
        match self {
            Term::Var(n) => Term::Var(n.duplicate()),
            Term::Delay(t) => Term::Delay(Box::new(t.duplicate())),
            Term::Lambda { parameter_name, body } => Term::Lambda {
                parameter_name: parameter_name.duplicate(),
                body: Box::new(body.duplicate()),
            },
            Term::Apply { function, argument } => Term::Apply {
                function: Box::new(function.duplicate()),
                argument: Box::new(argument.duplicate()),
            },
            Term::Constant(c) => Term::Constant(c.duplicate()),
            Term::Force(t) => Term::Force(Box::new(t.duplicate())),
            Term::Error => Term::Error,
            Term::Builtin(f) => Term::Builtin(*f),
        }
    }
}

/// A program of the target language: a term and the language version it is
/// written in.
#[derive(Debug, PartialEq, Eq)]
pub struct Program {
    pub version: (usize, usize, usize),
    pub term: Term,
}

} // verus!
