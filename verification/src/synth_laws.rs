use vstd::prelude::*;
use crate::air::AirView;
use crate::convert::constants_to_data;
use crate::synth_spec::{
    all_constants,
    constant_map,
    constants_of,
    popped,
    synth_step,
    SynthEnv,
    SynthState,
};
use crate::term::{ConstantView, TermView, UplcType};
use crate::tipo::TypeView;

verus! {

/// A list literal without a tail whose items are all constants becomes a
/// constant list, not a chain of `MkCons`: where the instruction succeeds,
/// the term that it leaves on top of the stack is a list constant.
pub proof fn lemma_constant_list_is_folded(
    scope: Seq<u64>,
    count: usize,
    tipo: TypeView,
    st: SynthState,
    env: SynthEnv,
)
    requires
        count <= st.stack.len(),
        all_constants(popped(st.stack, count as nat)),
        synth_step(AirView::List { scope, count, tipo, tail: false }, st, env) is Ok,
    ensures
        synth_step(AirView::List { scope, count, tipo, tail: false }, st, env).unwrap().stack.last()
            matches TermView::Constant(ConstantView::ProtoList(_, items)) && items.len() == count,
        synth_step(AirView::List { scope, count, tipo, tail: false }, st, env).unwrap().stack.len()
            == st.stack.len() - count + 1,
{
    reveal(synth_step);
    let items = popped(st.stack, count as nat);
    if tipo.is_map() {
        assert(constant_map(constants_of(items)) is Ok);
    } else {
        assert(constants_to_data(constants_of(items)) is Ok);
        lemma_constants_to_data_length(constants_of(items));
    }
}

/// The data values that stand for a list of constants are as many as the
/// constants.
pub proof fn lemma_constants_to_data_length(items: Seq<ConstantView>)
    requires
        constants_to_data(items) is Ok,
    ensures
        constants_to_data(items).unwrap().len() == items.len(),
    decreases items.len(),
{
    if items.len() > 0 {
        lemma_constants_to_data_length(items.drop_last());
    }
}

/// A tuple literal of two constants becomes a constant pair, not a call of
/// `MkPairData`: where the instruction succeeds, the term that it leaves on
/// top of the stack is a pair constant of two data values.
pub proof fn lemma_constant_pair_is_folded(
    scope: Seq<u64>,
    tipo: TypeView,
    st: SynthState,
    env: SynthEnv,
)
    requires
        2 <= st.stack.len(),
        all_constants(popped(st.stack, 2)),
        synth_step(AirView::Tuple { scope, tipo, count: 2 }, st, env) is Ok,
    ensures
        synth_step(AirView::Tuple { scope, tipo, count: 2 }, st, env).unwrap().stack.last()
            matches TermView::Constant(
            ConstantView::ProtoPair(UplcType::Data, UplcType::Data, fst, snd),
        ) && *fst is Data && *snd is Data,
{
    reveal(synth_step);
}

/// A tuple literal of constants that is no pair becomes a constant list.
pub proof fn lemma_constant_tuple_is_folded(
    scope: Seq<u64>,
    tipo: TypeView,
    count: usize,
    st: SynthState,
    env: SynthEnv,
)
    requires
        count != 2,
        count <= st.stack.len(),
        all_constants(popped(st.stack, count as nat)),
        synth_step(AirView::Tuple { scope, tipo, count }, st, env) is Ok,
    ensures
        synth_step(AirView::Tuple { scope, tipo, count }, st, env).unwrap().stack.last()
            matches TermView::Constant(ConstantView::ProtoList(UplcType::Data, items))
            && items.len() == count,
{
    reveal(synth_step);
    lemma_constants_to_data_length(constants_of(popped(st.stack, count as nat)));
}

} // verus!
