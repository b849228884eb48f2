use vstd::prelude::*;
use crate::term::{
    constant_views,
    ConstantView,
    DefaultFunction,
    Name,
    NameView,
    Term,
    TermView,
    UplcConstant,
    UplcType,
};


verus! {

impl TermView {
    /// A variable that the interner has not numbered yet.
    pub open spec fn var(text: Seq<char>) -> TermView {
        TermView::Var(NameView { text, unique: 0 })
    }

    pub open spec fn lambda(parameter: Seq<char>, body: TermView) -> TermView {
        TermView::Lambda {
            parameter_name: NameView { text: parameter, unique: 0 },
            body: Box::new(body),
        }
    }

    pub open spec fn apply(self, argument: TermView) -> TermView {
        TermView::Apply { function: Box::new(self), argument: Box::new(argument) }
    }

    pub open spec fn force(self) -> TermView {
        TermView::Force(Box::new(self))
    }

    pub open spec fn delay(self) -> TermView {
        TermView::Delay(Box::new(self))
    }

    pub open spec fn builtin(function: DefaultFunction) -> TermView {
        TermView::Builtin(function)
    }

    /// A built-in, forced as often as `times` says.
    pub open spec fn forced(function: DefaultFunction, times: nat) -> TermView
        decreases times,
    {
        if times == 0 {
            TermView::Builtin(function)
        } else {
            TermView::forced(function, (times - 1) as nat).force()
        }
    }

    /// A built-in, forced as often as it needs before it takes arguments.
    pub open spec fn ready(function: DefaultFunction) -> TermView {
        TermView::forced(function, function.spec_force_count() as nat)
    }

    pub open spec fn integer(value: int) -> TermView {
        TermView::Constant(ConstantView::Integer(value))
    }

    pub open spec fn boolean(value: bool) -> TermView {
        TermView::Constant(ConstantView::Bool(value))
    }

    pub open spec fn unit() -> TermView {
        TermView::Constant(ConstantView::Unit)
    }

    pub open spec fn string(value: Seq<char>) -> TermView {
        TermView::Constant(ConstantView::String(value))
    }

    pub open spec fn byte_string(value: Seq<u8>) -> TermView {
        TermView::Constant(ConstantView::ByteString(value))
    }

    /// The empty list of data values.
    pub open spec fn empty_list() -> TermView {
        TermView::Constant(ConstantView::ProtoList(UplcType::Data, Seq::empty()))
    }

    /// The empty list of pairs of data values.
    pub open spec fn empty_map() -> TermView {
        TermView::Constant(ConstantView::ProtoList(UplcType::data_pair(), Seq::empty()))
    }

    /// The list with `head` in front of `tail`.
    pub open spec fn cons(head: TermView, tail: TermView) -> TermView {
        TermView::builtin(DefaultFunction::MkCons).force().apply(head).apply(tail)
    }

    /// The first item of a list.
    pub open spec fn head_list(list: TermView) -> TermView {
        TermView::builtin(DefaultFunction::HeadList).force().apply(list)
    }

    /// A list without its first item.
    pub open spec fn tail_list(list: TermView) -> TermView {
        TermView::builtin(DefaultFunction::TailList).force().apply(list)
    }

    /// The first component of a pair.
    pub open spec fn fst_pair(pair: TermView) -> TermView {
        TermView::builtin(DefaultFunction::FstPair).force().force().apply(pair)
    }

    /// The second component of a pair.
    pub open spec fn snd_pair(pair: TermView) -> TermView {
        TermView::builtin(DefaultFunction::SndPair).force().force().apply(pair)
    }

    /// A built-in applied to two arguments.
    pub open spec fn binary(function: DefaultFunction, left: TermView, right: TermView) -> TermView {
        TermView::builtin(function).apply(left).apply(right)
    }

    /// `body` with `name` bound to `value`.
    pub open spec fn bind(name: Seq<char>, value: TermView, body: TermView) -> TermView {
        TermView::lambda(name, body).apply(value)
    }

    /// A conditional that evaluates both branches.
    pub open spec fn if_else(condition: TermView, then: TermView, otherwise: TermView) -> TermView {
        TermView::builtin(DefaultFunction::IfThenElse).force().apply(condition).apply(then).apply(
            otherwise,
        )
    }

    /// A conditional that evaluates only the branch it takes.
    pub open spec fn delayed_if_else(
        condition: TermView,
        then: TermView,
        otherwise: TermView,
    ) -> TermView {
        TermView::if_else(condition, then.delay(), otherwise.delay()).force()
    }

    /// A choice on whether a list is empty that evaluates both branches.
    pub open spec fn choose_list(list: TermView, if_empty: TermView, otherwise: TermView) -> TermView {
        TermView::builtin(DefaultFunction::ChooseList).force().force().apply(list).apply(
            if_empty,
        ).apply(otherwise)
    }

    /// A choice on whether a list is empty that evaluates only the branch it
    /// takes.
    pub open spec fn delayed_choose_list(
        list: TermView,
        if_empty: TermView,
        otherwise: TermView,
    ) -> TermView {
        TermView::choose_list(list, if_empty.delay(), otherwise.delay()).force()
    }

    /// A list without its first `times` items.
    pub open spec fn repeat_tail_list(list: TermView, times: nat) -> TermView
        decreases times,
    {
        if times == 0 {
            list
        } else {
            TermView::tail_list(TermView::repeat_tail_list(list, (times - 1) as nat))
        }
    }

    /// The constructor tag of a data value.
    pub open spec fn constr_index_exposer(value: TermView) -> TermView {
        TermView::fst_pair(TermView::builtin(DefaultFunction::UnConstrData).apply(value))
    }

    /// `body` with the helper bound that hands out the fields of a
    /// constructor value.
    pub open spec fn constr_fields_exposer(body: TermView) -> TermView {
        TermView::bind(
            "__constr_fields_exposer"@,
            TermView::lambda(
                "__constr_var"@,
                TermView::snd_pair(
                    TermView::builtin(DefaultFunction::UnConstrData).apply(
                        TermView::var("__constr_var"@),
                    ),
                ),
            ),
            body,
        )
    }

    /// `body` with the helper bound that hands out the item of a list at a
    /// given position: it walks down the list, counting up from zero.
    pub open spec fn constr_get_field(body: TermView) -> TermView {
        let step = TermView::lambda(
            "__current_list_of_constr_args"@,
            TermView::var("__self_recursor"@).apply(TermView::var("__self_recursor"@)).apply(
                TermView::binary(
                    DefaultFunction::AddInteger,
                    TermView::var("__current_arg_number"@),
                    TermView::integer(1),
                ),
            ).apply(TermView::tail_list(TermView::var("__current_list_of_constr_args"@))),
        );
        let walker = TermView::lambda(
            "__self_recursor"@,
            TermView::lambda(
                "__current_arg_number"@,
                TermView::lambda(
                    "__list_of_constr_args"@,
                    TermView::if_else(
                        TermView::binary(
                            DefaultFunction::EqualsInteger,
                            TermView::var("__arg_number"@),
                            TermView::var("__current_arg_number"@),
                        ),
                        TermView::builtin(DefaultFunction::HeadList).force(),
                        step,
                    ).apply(TermView::var("__list_of_constr_args"@)),
                ),
            ),
        );
        let start = TermView::lambda(
            "__recurse"@,
            TermView::var("__recurse"@).apply(TermView::var("__recurse"@)).apply(
                TermView::integer(0),
            ).apply(TermView::var("__constr_list"@)),
        );
        TermView::bind(
            "__constr_get_field"@,
            TermView::lambda(
                "__constr_list"@,
                TermView::lambda("__arg_number"@, start.apply(walker)),
            ),
            body,
        )
    }

    /// The body of a validator: it succeeds with unit where `body` is true
    /// and fails where it is false.
    pub open spec fn final_wrapper(body: TermView) -> TermView {
        TermView::if_else(body, TermView::unit().delay(), TermView::Error.delay()).force()
    }
}

impl Term {
    pub fn var(text: String) -> (r: Term)
        ensures
            r@ == TermView::var(text@),
    {
        Term::Var(Name::fresh(text))
    }

    /// A variable named by a literal.
    pub fn named(text: &str) -> (r: Term)
        ensures
            r@ == TermView::var(text@),
    {
        Term::Var(Name::fresh(String::from_str(text)))
    }

    pub fn lambda(parameter: String, body: Term) -> (r: Term)
        ensures
            r@ == TermView::lambda(parameter@, body@),
    {
        Term::Lambda { parameter_name: Name::fresh(parameter), body: Box::new(body) }
    }

    pub fn apply(self, argument: Term) -> (r: Term)
        ensures
            r@ == self@.apply(argument@),
    {
        Term::Apply { function: Box::new(self), argument: Box::new(argument) }
    }

    pub fn force_wrap(self) -> (r: Term)
        ensures
            r@ == self@.force(),
    {
        Term::Force(Box::new(self))
    }

    pub fn delay(self) -> (r: Term)
        ensures
            r@ == self@.delay(),
    {
        Term::Delay(Box::new(self))
    }

    pub fn builtin(function: DefaultFunction) -> (r: Term)
        ensures
            r@ == TermView::builtin(function),
    {
        Term::Builtin(function)
    }

    /// A built-in, forced as often as it needs before it takes arguments.
    pub fn ready(function: DefaultFunction) -> (r: Term)
        ensures
            r@ == TermView::ready(function),
    {
        let mut term = Term::Builtin(function);
        let count = function.force_count();
        let mut i: u32 = 0;
        while i < count
            invariant
                i <= count,
                term@ == TermView::forced(function, i as nat),
            decreases count - i,
        {
            term = term.force_wrap();
            i = i + 1;
        }
        term
    }

    pub fn integer(value: i128) -> (r: Term)
        ensures
            r@ == TermView::integer(value as int),
    {
        Term::Constant(UplcConstant::Integer(value))
    }

    pub fn boolean(value: bool) -> (r: Term)
        ensures
            r@ == TermView::boolean(value),
    {
        Term::Constant(UplcConstant::Bool(value))
    }

    pub fn unit() -> (r: Term)
        ensures
            r@ == TermView::unit(),
    {
        Term::Constant(UplcConstant::Unit)
    }

    pub fn string(value: String) -> (r: Term)
        ensures
            r@ == TermView::string(value@),
    {
        Term::Constant(UplcConstant::String(value))
    }

    pub fn byte_string(value: Vec<u8>) -> (r: Term)
        ensures
            r@ == TermView::byte_string(value@),
    {
        Term::Constant(UplcConstant::ByteString(value))
    }

    pub fn empty_list() -> (r: Term)
        ensures
            r@ == TermView::empty_list(),
    {
        let c = UplcConstant::proto_list(UplcType::Data, Vec::new());
        assert(constant_views(Seq::<UplcConstant>::empty()) =~= Seq::empty());
        Term::Constant(c)
    }

    pub fn empty_map() -> (r: Term)
        ensures
            r@ == TermView::empty_map(),
    {
        let c = UplcConstant::proto_list(UplcType::pair_of_data(), Vec::new());
        assert(constant_views(Seq::<UplcConstant>::empty()) =~= Seq::empty());
        Term::Constant(c)
    }

    pub fn cons(head: Term, tail: Term) -> (r: Term)
        ensures
            r@ == TermView::cons(head@, tail@),
    {
        Term::Builtin(DefaultFunction::MkCons).force_wrap().apply(head).apply(tail)
    }

    pub fn head_list(list: Term) -> (r: Term)
        ensures
            r@ == TermView::head_list(list@),
    {
        Term::Builtin(DefaultFunction::HeadList).force_wrap().apply(list)
    }

    pub fn tail_list(list: Term) -> (r: Term)
        ensures
            r@ == TermView::tail_list(list@),
    {
        Term::Builtin(DefaultFunction::TailList).force_wrap().apply(list)
    }

    pub fn fst_pair(pair: Term) -> (r: Term)
        ensures
            r@ == TermView::fst_pair(pair@),
    {
        Term::Builtin(DefaultFunction::FstPair).force_wrap().force_wrap().apply(pair)
    }

    pub fn snd_pair(pair: Term) -> (r: Term)
        ensures
            r@ == TermView::snd_pair(pair@),
    {
        Term::Builtin(DefaultFunction::SndPair).force_wrap().force_wrap().apply(pair)
    }

    pub fn binary(function: DefaultFunction, left: Term, right: Term) -> (r: Term)
        ensures
            r@ == TermView::binary(function, left@, right@),
    {
        Term::Builtin(function).apply(left).apply(right)
    }

    pub fn bind(name: String, value: Term, body: Term) -> (r: Term)
        ensures
            r@ == TermView::bind(name@, value@, body@),
    {
        Term::lambda(name, body).apply(value)
    }
}

pub fn if_else(condition: Term, then: Term, otherwise: Term) -> (r: Term)
    ensures
        r@ == TermView::if_else(condition@, then@, otherwise@),
{
    Term::Builtin(DefaultFunction::IfThenElse).force_wrap().apply(condition).apply(then).apply(
        otherwise,
    )
}

pub fn delayed_if_else(condition: Term, then: Term, otherwise: Term) -> (r: Term)
    ensures
        r@ == TermView::delayed_if_else(condition@, then@, otherwise@),
{
    if_else(condition, then.delay(), otherwise.delay()).force_wrap()
}

pub fn choose_list(list: Term, if_empty: Term, otherwise: Term) -> (r: Term)
    ensures
        r@ == TermView::choose_list(list@, if_empty@, otherwise@),
{
    Term::Builtin(DefaultFunction::ChooseList).force_wrap().force_wrap().apply(list).apply(
        if_empty,
    ).apply(otherwise)
}

pub fn delayed_choose_list(list: Term, if_empty: Term, otherwise: Term) -> (r: Term)
    ensures
        r@ == TermView::delayed_choose_list(list@, if_empty@, otherwise@),
{
    choose_list(list, if_empty.delay(), otherwise.delay()).force_wrap()
}

pub fn repeat_tail_list(list: Term, times: usize) -> (r: Term)
    ensures
        r@ == TermView::repeat_tail_list(list@, times as nat),
{
    let mut term = list;
    let mut i: usize = 0;
    while i < times
        invariant
            i <= times,
            term@ == TermView::repeat_tail_list(list@, i as nat),
        decreases times - i,
    {
        term = Term::tail_list(term);
        i = i + 1;
    }
    term
}

pub fn constr_index_exposer(value: Term) -> (r: Term)
    ensures
        r@ == TermView::constr_index_exposer(value@),
{
    Term::fst_pair(Term::Builtin(DefaultFunction::UnConstrData).apply(value))
}

pub fn constr_fields_exposer(body: Term) -> (r: Term)
    ensures
        r@ == TermView::constr_fields_exposer(body@),
{
    Term::bind(
        String::from_str("__constr_fields_exposer"),
        Term::lambda(
            String::from_str("__constr_var"),
            Term::snd_pair(
                Term::Builtin(DefaultFunction::UnConstrData).apply(Term::named("__constr_var")),
            ),
        ),
        body,
    )
}

pub fn constr_get_field(body: Term) -> (r: Term)
    ensures
        r@ == TermView::constr_get_field(body@),
{
    let step = Term::lambda(
        String::from_str("__current_list_of_constr_args"),
        Term::named("__self_recursor").apply(Term::named("__self_recursor")).apply(
            Term::binary(
                DefaultFunction::AddInteger,
                Term::named("__current_arg_number"),
                Term::integer(1),
            ),
        ).apply(Term::tail_list(Term::named("__current_list_of_constr_args"))),
    );
    let walker = Term::lambda(
        String::from_str("__self_recursor"),
        Term::lambda(
            String::from_str("__current_arg_number"),
            Term::lambda(
                String::from_str("__list_of_constr_args"),
                if_else(
                    Term::binary(
                        DefaultFunction::EqualsInteger,
                        Term::named("__arg_number"),
                        Term::named("__current_arg_number"),
                    ),
                    Term::Builtin(DefaultFunction::HeadList).force_wrap(),
                    step,
                ).apply(Term::named("__list_of_constr_args")),
            ),
        ),
    );
    let start = Term::lambda(
        String::from_str("__recurse"),
        Term::named("__recurse").apply(Term::named("__recurse")).apply(Term::integer(0)).apply(
            Term::named("__constr_list"),
        ),
    );
    Term::bind(
        String::from_str("__constr_get_field"),
        Term::lambda(
            String::from_str("__constr_list"),
            Term::lambda(String::from_str("__arg_number"), start.apply(walker)),
        ),
        body,
    )
}

pub fn final_wrapper(body: Term) -> (r: Term)
    ensures
        r@ == TermView::final_wrapper(body@),
{
    if_else(body, Term::unit().delay(), Term::Error.delay()).force_wrap()
}

} // verus!
