use vstd::prelude::*;
use vstd::utf8::encode_utf8;
use crate::error::Halt;
use crate::term::{
    constant_views,
    data_views,
    ConstantView,
    DefaultFunction,
    PlutusData,
    PlutusDataView,
    Term,
    TermView,
    UplcConstant,
};
use crate::term_builder::if_else;
use crate::text::{decimal, name_views, number_text};
use crate::tipo::{Type, TypeView};

verus! {

/// The tag under which the data encoding holds the constructor at a given
/// position.
pub open spec fn constr_tag(index: int) -> int {
    121 + index
}

impl TermView {
    /// A data constant: the constructor at a given position, without fields.
    pub open spec fn data_enum(index: int) -> TermView {
        TermView::Constant(ConstantView::Data(PlutusData::spec_enum_tag(constr_tag(index))))
    }

    /// Wraps a value of the given type into the universal data encoding.
    pub open spec fn to_data(self, tipo: TypeView) -> TermView {
        if tipo.is_bytearray() {
            TermView::builtin(DefaultFunction::BData).apply(self)
        } else if tipo.is_int() {
            TermView::builtin(DefaultFunction::IData).apply(self)
        } else if tipo.is_map() {
            TermView::builtin(DefaultFunction::MapData).apply(self)
        } else if tipo.is_list() {
            TermView::builtin(DefaultFunction::ListData).apply(self)
        } else if tipo.is_string() {
            TermView::builtin(DefaultFunction::BData).apply(
                TermView::builtin(DefaultFunction::EncodeUtf8).apply(self),
            )
        } else if tipo.is_tuple() {
            if tipo.is_pair() {
                TermView::bind(
                    "__pair"@,
                    self,
                    TermView::builtin(DefaultFunction::ListData).apply(
                        TermView::cons(
                            TermView::fst_pair(TermView::var("__pair"@)),
                            TermView::cons(
                                TermView::snd_pair(TermView::var("__pair"@)),
                                TermView::empty_list(),
                            ),
                        ),
                    ),
                )
            } else {
                TermView::builtin(DefaultFunction::ListData).apply(self)
            }
        } else if tipo.is_bool() {
            TermView::if_else(self, TermView::data_enum(1), TermView::data_enum(0))
        } else {
            self
        }
    }

    /// Unwraps a value of the given type from the universal data encoding.
    pub open spec fn from_data(self, tipo: TypeView) -> TermView {
        if tipo.is_int() {
            TermView::builtin(DefaultFunction::UnIData).apply(self)
        } else if tipo.is_bytearray() {
            TermView::builtin(DefaultFunction::UnBData).apply(self)
        } else if tipo.is_map() {
            TermView::builtin(DefaultFunction::UnMapData).apply(self)
        } else if tipo.is_list() {
            TermView::builtin(DefaultFunction::UnListData).apply(self)
        } else if tipo.is_string() {
            TermView::builtin(DefaultFunction::DecodeUtf8).apply(
                TermView::builtin(DefaultFunction::UnBData).apply(self),
            )
        } else if tipo.is_tuple() {
            if tipo.is_pair() {
                TermView::bind(
                    "__list_data"@,
                    TermView::builtin(DefaultFunction::UnListData).apply(self),
                    TermView::bind(
                        "__tail"@,
                        TermView::tail_list(TermView::var("__list_data"@)),
                        TermView::binary(
                            DefaultFunction::MkPairData,
                            TermView::head_list(TermView::var("__list_data"@)),
                            TermView::head_list(TermView::var("__tail"@)),
                        ),
                    ),
                )
            } else {
                TermView::builtin(DefaultFunction::UnListData).apply(self)
            }
        } else if tipo.is_bool() {
            TermView::binary(
                DefaultFunction::EqualsInteger,
                TermView::integer(1),
                TermView::constr_index_exposer(self),
            )
        } else {
            self
        }
    }
}

pub fn convert_type_to_data(term: Term, field_type: &Type) -> (r: Term)
    ensures
        r@ == term@.to_data(field_type@),
{
    if field_type.is_bytearray() {
        Term::Builtin(DefaultFunction::BData).apply(term)
    } else if field_type.is_int() {
        Term::Builtin(DefaultFunction::IData).apply(term)
    } else if field_type.is_map() {
        Term::Builtin(DefaultFunction::MapData).apply(term)
    } else if field_type.is_list() {
        Term::Builtin(DefaultFunction::ListData).apply(term)
    } else if field_type.is_string() {
        Term::Builtin(DefaultFunction::BData).apply(
            Term::Builtin(DefaultFunction::EncodeUtf8).apply(term),
        )
    } else if field_type.is_tuple() {
        if field_type.is_pair() {
            Term::bind(
                String::from_str("__pair"),
                term,
                Term::Builtin(DefaultFunction::ListData).apply(
                    Term::cons(
                        Term::fst_pair(Term::named("__pair")),
                        Term::cons(Term::snd_pair(Term::named("__pair")), Term::empty_list()),
                    ),
                ),
            )
        } else {
            Term::Builtin(DefaultFunction::ListData).apply(term)
        }
    } else if field_type.is_bool() {
        if_else(
            term,
            Term::Constant(UplcConstant::Data(PlutusData::enum_tag(122))),
            Term::Constant(UplcConstant::Data(PlutusData::enum_tag(121))),
        )
    } else {
        term
    }
}

pub fn convert_data_to_type(term: Term, field_type: &Type) -> (r: Term)
    ensures
        r@ == term@.from_data(field_type@),
{
    if field_type.is_int() {
        Term::Builtin(DefaultFunction::UnIData).apply(term)
    } else if field_type.is_bytearray() {
        Term::Builtin(DefaultFunction::UnBData).apply(term)
    } else if field_type.is_map() {
        Term::Builtin(DefaultFunction::UnMapData).apply(term)
    } else if field_type.is_list() {
        Term::Builtin(DefaultFunction::UnListData).apply(term)
    } else if field_type.is_string() {
        Term::Builtin(DefaultFunction::DecodeUtf8).apply(
            Term::Builtin(DefaultFunction::UnBData).apply(term),
        )
    } else if field_type.is_tuple() {
        if field_type.is_pair() {
            Term::bind(
                String::from_str("__list_data"),
                Term::Builtin(DefaultFunction::UnListData).apply(term),
                Term::bind(
                    String::from_str("__tail"),
                    Term::tail_list(Term::named("__list_data")),
                    Term::binary(
                        DefaultFunction::MkPairData,
                        Term::head_list(Term::named("__list_data")),
                        Term::head_list(Term::named("__tail")),
                    ),
                ),
            )
        } else {
            Term::Builtin(DefaultFunction::UnListData).apply(term)
        }
    } else if field_type.is_bool() {
        Term::binary(
            DefaultFunction::EqualsInteger,
            Term::integer(1),
            crate::term_builder::constr_index_exposer(term),
        )
    } else {
        term
    }
}

/// The data value that stands for a constant. The unit constant has none.
pub open spec fn constant_to_data(c: ConstantView) -> Result<PlutusDataView, Halt>
    decreases c,
{
    match c {
        ConstantView::Integer(i) => Ok(PlutusDataView::BigInt(i)),
        ConstantView::ByteString(b) => Ok(PlutusDataView::BoundedBytes(b)),
        ConstantView::String(s) => Ok(PlutusDataView::BoundedBytes(encode_utf8(s))),
        ConstantView::Bool(b) => Ok(
            PlutusData::spec_enum_tag(
                constr_tag(
                    if b {
                        1
                    } else {
                        0
                    },
                ),
            ),
        ),
        ConstantView::ProtoList(_, items) => match constants_to_data(items) {
            Ok(inner) => Ok(PlutusDataView::Array(inner)),
            Err(e) => Err(e),
        },
        ConstantView::ProtoPair(_, _, left, right) => match (
            constant_to_data(*left),
            constant_to_data(*right),
        ) {
            (Ok(l), Ok(r)) => Ok(PlutusDataView::Mapping(seq![(l, r)])),
            (Err(e), _) => Err(e),
            (_, Err(e)) => Err(e),
        },
        ConstantView::Data(d) => Ok(d),
        ConstantView::Unit => Err(Halt::ImpossibleShape),
    }
}

/// The data values that stand for a list of constants, in order; the first
/// failure if one of them has none.
pub open spec fn constants_to_data(items: Seq<ConstantView>) -> Result<Seq<PlutusDataView>, Halt>
    decreases items,
{
    if items.len() == 0 {
        Ok(Seq::empty())
    } else {
        match constants_to_data(items.drop_last()) {
            Ok(head) => match constant_to_data(items.last()) {
                Ok(d) => Ok(head.push(d)),
                Err(e) => Err(e),
            },
            Err(e) => Err(e),
        }
    }
}

proof fn lemma_constants_prefix(items: Seq<ConstantView>, k: int)
    requires
        0 <= k < items.len(),
        constants_to_data(items.take(k)) is Ok,
    ensures
        constants_to_data(items.take(k + 1)) == match constant_to_data(items[k]) {
            Ok(d) => Ok::<Seq<PlutusDataView>, Halt>(
                constants_to_data(items.take(k)).unwrap().push(d),
            ),
            Err(e) => Err(e),
        },
{
    assert(items.take(k + 1).drop_last() =~= items.take(k));
}

proof fn lemma_constants_fail(items: Seq<ConstantView>, k: int)
    requires
        0 <= k <= items.len(),
        constants_to_data(items.take(k)) is Err,
    ensures
        constants_to_data(items) == constants_to_data(items.take(k)),
    decreases items.len() - k,
{
    if k == items.len() {
        assert(items.take(k) =~= items);
    } else {
        assert(items.take(k + 1).drop_last() =~= items.take(k));
        lemma_constants_fail(items, k + 1);
    }
}

/// Converts one constant to the data value that stands for it.
#[verifier::loop_isolation(false)]
pub fn convert_constant_to_data(constant: &UplcConstant) -> (r: Result<PlutusData, Halt>)
    ensures
        match r {
            Ok(d) => constant_to_data(constant@) == Ok::<PlutusDataView, Halt>(d@),
            Err(e) => constant_to_data(constant@) == Err::<PlutusDataView, Halt>(e),
        },
    decreases constant,
{
    match constant {
        UplcConstant::Integer(i) => Ok(PlutusData::BigInt(*i)),
        UplcConstant::ByteString(b) => Ok(PlutusData::BoundedBytes(crate::term::clone_bytes(b))),
        UplcConstant::String(s) => Ok(PlutusData::BoundedBytes(s.as_str().as_bytes_vec())),
        UplcConstant::Bool(b) => Ok(
            PlutusData::enum_tag(
                if *b {
                    122
                } else {
                    121
                },
            ),
        ),
        UplcConstant::ProtoList(_, items) => {
            let ghost views = constant@->ProtoList_1;
            let mut out: Vec<PlutusData> = Vec::new();
            let mut i: usize = 0;
            assert(views.take(0) =~= Seq::empty());
            assert(data_views(out@) =~= Seq::empty());
            while i < items.len()
                invariant
                    i <= items.len(),
                    views.len() == items.len(),
                    constants_to_data(views.take(i as int)) == Ok::<Seq<PlutusDataView>, Halt>(
                        data_views(out@),
                    ),
                decreases items.len() - i,
            {
                assert(views[i as int] == items@[i as int]@);
                proof {
                    lemma_constants_prefix(views, i as int);
                }
                match convert_constant_to_data(&items[i]) {
                    Ok(d) => {
                        let ghost before = data_views(out@);
                        out.push(d);
                        assert(data_views(out@) =~= before.push(d@));
                    },
                    Err(e) => {
                        proof {
                            lemma_constants_fail(views, i as int + 1);
                        }
                        return Err(e);
                    },
                }
                i = i + 1;
            }
            assert(views.take(items.len() as int) =~= views);
            let r = PlutusData::Array(out);
            assert(r@->Array_0 =~= data_views(out@));
            Ok(r)
        },
        UplcConstant::ProtoPair(_, _, left, right) => {
            let l = convert_constant_to_data(left);
            let r = convert_constant_to_data(right);
            match (l, r) {
                (Ok(l), Ok(r)) => {
                    let mut pairs: Vec<(PlutusData, PlutusData)> = Vec::new();
                    let ghost lv = l@;
                    let ghost rv = r@;
                    pairs.push((l, r));
                    let d = PlutusData::Mapping(pairs);
                    assert(d@->Mapping_0 =~= seq![(lv, rv)]);
                    Ok(d)
                },
                (Err(e), _) => Err(e),
                (_, Err(e)) => Err(e),
            }
        },
        UplcConstant::Data(d) => Ok(d.duplicate()),
        UplcConstant::Unit => Err(Halt::ImpossibleShape),
    }
}

/// Converts constants to data constants, one for one.
pub fn convert_constants_to_data(constants: &Vec<UplcConstant>) -> (r: Result<
    Vec<UplcConstant>,
    Halt,
>)
    ensures
        match r {
            Ok(out) => constants_to_data(constant_views(constants@)) == Ok::<
                Seq<PlutusDataView>,
                Halt,
            >(Seq::new(out@.len(), |i: int| out@[i]@->Data_0)) && out@.len() == constants@.len()
                && forall|i: int| 0 <= i < out@.len() ==> (#[trigger] out@[i]@) is Data,
            Err(e) => constants_to_data(constant_views(constants@)) == Err::<
                Seq<PlutusDataView>,
                Halt,
            >(e),
        },
{
    let ghost views = constant_views(constants@);
    let mut out: Vec<UplcConstant> = Vec::new();
    let mut i: usize = 0;
    assert(views.take(0) =~= Seq::empty());
    assert(Seq::new(out@.len(), |i: int| out@[i]@->Data_0) =~= Seq::<PlutusDataView>::empty());
    while i < constants.len()
        invariant
            i <= constants.len(),
            views == constant_views(constants@),
            out@.len() == i,
            constants_to_data(views.take(i as int)) == Ok::<Seq<PlutusDataView>, Halt>(
                Seq::new(out@.len(), |i: int| out@[i]@->Data_0),
            ),
            forall|j: int| 0 <= j < out@.len() ==> (#[trigger] out@[j]@) is Data,
        decreases constants.len() - i,
    {
        proof {
            lemma_constants_prefix(views, i as int);
        }
        match convert_constant_to_data(&constants[i]) {
            Ok(d) => {
                let ghost before = Seq::new(out@.len(), |i: int| out@[i]@->Data_0);
                let ghost dv = d@;
                out.push(UplcConstant::Data(d));
                assert(Seq::new(out@.len(), |i: int| out@[i]@->Data_0) =~= before.push(dv));
            },
            Err(e) => {
                proof {
                    lemma_constants_fail(views, i as int + 1);
                }
                return Err(e);
            },
        }
        i = i + 1;
    }
    assert(views.take(constants.len() as int) =~= views);
    Ok(out)
}

/// The name under which the rest of a list is bound while its items are
/// taken one by one.
pub open spec fn tail_index_name(index: nat, id: u64) -> Seq<char> {
    "tail_index_"@ + decimal(index) + "_"@ + decimal(id as nat)
}

/// The function that takes the rest of a list and binds its items to
/// `names`, one after the other, before it goes on with `term`. With `tail`,
/// the last name is bound to what is left of the list.
pub open spec fn list_access(
    names: Seq<Seq<char>>,
    ids: Seq<u64>,
    tail: bool,
    index: nat,
    term: TermView,
    tipo: TypeView,
) -> Result<TermView, Halt>
    decreases names.len(),
{
    if names.len() == 0 || index >= ids.len() {
        Err(Halt::Malformed)
    } else if !tipo.is_map() && tipo.inner_types().len() == 0 {
        Err(Halt::ImpossibleShape)
    } else {
        let rest_name = tail_index_name(index, ids[index as int]);
        let head = if tipo.is_map() {
            TermView::head_list(TermView::var(rest_name))
        } else {
            TermView::head_list(TermView::var(rest_name)).from_data(tipo.inner_types()[0])
        };
        let rest = names.drop_first();
        if rest.len() == 1 && tail {
            Ok(
                TermView::lambda(
                    rest_name,
                    TermView::bind(
                        names[0],
                        head,
                        TermView::bind(
                            rest[0],
                            TermView::tail_list(TermView::var(rest_name)),
                            term,
                        ),
                    ),
                ),
            )
        } else if rest.len() == 0 {
            Ok(TermView::lambda(rest_name, TermView::bind(names[0], head, term)))
        } else {
            match list_access(rest, ids, tail, index + 1, term, tipo) {
                Ok(inner) => Ok(
                    TermView::lambda(
                        rest_name,
                        TermView::bind(
                            names[0],
                            head,
                            inner.apply(TermView::tail_list(TermView::var(rest_name))),
                        ),
                    ),
                ),
                Err(e) => Err(e),
            }
        }
    }
}

fn tail_index_text(index: usize, id: u64) -> (r: String)
    ensures
        r@ == tail_index_name(index as nat, id),
{
    let r = String::from_str("tail_index_").concat(number_text(index as u64).as_str()).concat(
        "_",
    ).concat(number_text(id).as_str());
    r
}

/// Builds the function that binds the items of a list to the names from
/// position `start` on.
pub fn list_access_to_uplc(
    names: &Vec<String>,
    start: usize,
    id_list: &Vec<u64>,
    tail: bool,
    current_index: usize,
    term: Term,
    tipo: &Type,
) -> (r: Result<Term, Halt>)
    requires
        start <= names.len(),
    ensures
        match r {
            Ok(t) => list_access(
                name_views(names@).skip(start as int),
                id_list@,
                tail,
                current_index as nat,
                term@,
                tipo@,
            ) == Ok::<TermView, Halt>(t@),
            Err(e) => list_access(
                name_views(names@).skip(start as int),
                id_list@,
                tail,
                current_index as nat,
                term@,
                tipo@,
            ) == Err::<TermView, Halt>(e),
        },
    decreases names.len() - start,
{
    let ghost all = name_views(names@).skip(start as int);
    if start == names.len() || current_index >= id_list.len() {
        return Err(Halt::Malformed);
    }
    let is_map = tipo.is_map();
    let inner = tipo.get_inner_types();
    if !is_map && inner.len() == 0 {
        return Err(Halt::ImpossibleShape);
    }
    assert(all[0] == names@[start as int]@);
    assert(all.drop_first() =~= name_views(names@).skip(start as int + 1));
    let id = id_list[current_index];
    let head = if is_map {
        Term::head_list(Term::var(tail_index_text(current_index, id)))
    } else {
        assert(crate::tipo::type_views(inner@)[0] == inner@[0]@);
        convert_data_to_type(
            Term::head_list(Term::var(tail_index_text(current_index, id))),
            &inner[0],
        )
    };
    let rest_len = names.len() - start - 1;
    if rest_len == 1 && tail {
        assert(all.drop_first()[0] == names@[start as int + 1]@);
        Ok(
            Term::lambda(
                tail_index_text(current_index, id),
                Term::bind(
                    names[start].clone(),
                    head,
                    Term::bind(
                        names[start + 1].clone(),
                        Term::tail_list(Term::var(tail_index_text(current_index, id))),
                        term,
                    ),
                ),
            ),
        )
    } else if rest_len == 0 {
        Ok(
            Term::lambda(
                tail_index_text(current_index, id),
                Term::bind(names[start].clone(), head, term),
            ),
        )
    } else {
        if current_index == usize::MAX {
            return Err(Halt::Malformed);
        }
        match list_access_to_uplc(names, start + 1, id_list, tail, current_index + 1, term, tipo) {
            Ok(inner_term) => Ok(
                Term::lambda(
                    tail_index_text(current_index, id),
                    Term::bind(
                        names[start].clone(),
                        head,
                        inner_term.apply(
                            Term::tail_list(Term::var(tail_index_text(current_index, id))),
                        ),
                    ),
                ),
            ),
            Err(e) => Err(e),
        }
    }
}

} // verus!
