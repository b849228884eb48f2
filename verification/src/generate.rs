use vstd::prelude::*;
use crate::air::{air_views, clone_air, Air, AirView};
use crate::ast::TypedArg;
use crate::convert::convert_data_to_type;
use crate::error::Halt;
use crate::expr::TypedExpr;
use crate::expr_spec::{lower_expr, LowerEnv, LowerState};
use crate::generator::CodeGenerator;
use crate::id_gen::succ;
use crate::interner::{interned, Interner};
use crate::plan_spec::{plan_definitions, Planned, Registry};
use crate::synth::{zero_arg_views, ZeroArgFunction};
use crate::synth_spec::{synthesis, SynthEnv, SynthState, ZeroArgView};
use crate::term::{Program, Term, TermView, UplcType};
use crate::term_builder::{constr_fields_exposer, constr_get_field, final_wrapper};

verus! {

/// `term` as a function of the arguments from position `from` on, the first
/// outermost. An argument that is not held as data is unwrapped under its
/// own name first.
pub open spec fn with_arguments(arguments: Seq<TypedArg>, from: nat, term: TermView) -> TermView
    decreases arguments.len() - from,
{
    if from >= arguments.len() {
        term
    } else {
        let arg = arguments[from as int];
        let name = arg.arg_name.bound_name();
        let inner = with_arguments(arguments, from + 1, term);
        TermView::lambda(
            name,
            if arg.tipo@.uplc_type() is Data {
                inner
            } else {
                TermView::bind(name, TermView::var(name).from_data(arg.tipo@), inner)
            },
        )
    }
}

/// Turns a term into a function of the arguments of a validator.
pub fn wrap_validator_args(term: Term, arguments: &Vec<TypedArg>) -> (r: Term)
    ensures
        r@ == with_arguments(arguments@, 0, term@),
{
    let mut term = term;
    let ghost body = term@;
    let mut k: usize = arguments.len();
    while k > 0
        invariant
            k <= arguments@.len(),
            term@ == with_arguments(arguments@, k as nat, body),
        decreases k,
    {
        k = k - 1;
        let arg = &arguments[k];
        let is_data = match arg.tipo.get_uplc_type() {
            UplcType::Data => true,
            _ => false,
        };
        if !is_data {
            term =
            Term::bind(
                arg.arg_name.variable_name(),
                convert_data_to_type(Term::var(arg.arg_name.variable_name()), &arg.tipo),
                term,
            );
        }
        term = Term::lambda(arg.arg_name.variable_name(), term);
    }
    term
}

/// The term of a program: the synthesized term, with the helpers that read
/// fields bound around it where the program reads fields, made a validator
/// where that is asked for, as a function of the arguments.
pub open spec fn program_term(
    term: TermView,
    needs_field_access: bool,
    arguments: Seq<TypedArg>,
    wrap_as_validator: bool,
) -> TermView {
    let with_helpers = if needs_field_access {
        TermView::constr_fields_exposer(TermView::constr_get_field(term))
    } else {
        term
    };
    with_arguments(
        arguments,
        0,
        if wrap_as_validator {
            TermView::final_wrapper(with_helpers)
        } else {
            with_helpers
        },
    )
}

/// What a list of instructions becomes when it is assembled into a program:
/// the term of the program with its names numbered, and the state of the
/// synthesizer afterwards.
pub open spec fn assembled(
    ir: Seq<AirView>,
    arguments: Seq<TypedArg>,
    wrap_as_validator: bool,
    st: SynthState,
    env: SynthEnv,
) -> Result<(TermView, SynthState), Halt> {
    match synthesis(ir, st, env) {
        Err(e) => Err(e),
        Ok((term, end)) => Ok(
            (
                interned(
                    program_term(term, end.needs_field_access, arguments, wrap_as_validator),
                    Seq::empty(),
                ).0,
                end,
            ),
        ),
    }
}

/// What the lowering of a program gives: the instructions with every
/// definition in its place, what the generator knows afterwards, and the
/// state of the lowering.
pub open spec fn lowered_program(
    body: TypedExpr,
    registry: Registry,
    st: LowerState,
    env: LowerEnv,
) -> Result<Planned, Halt> {
    match lower_expr(
        body,
        seq![st.next_id],
        LowerState { next_id: succ(st.next_id), ..st },
        env,
    ) {
        Err(e) => Err(e),
        Ok(l) => plan_definitions(l.ir, registry, l.st, env),
    }
}

impl<'a> CodeGenerator<'a> {
    /// Assembles a program from a list of instructions. The list stays as
    /// it is, so that the program can be assembled again once the value of a
    /// function without parameters has been supplied.
    pub fn assemble(&mut self, ir: &Vec<Air>, arguments: &Vec<TypedArg>, wrap_as_validator: bool) -> (r:
        Result<Program, Halt>)
        ensures
            old(self).same_tables(final(self)),
            match r {
                Ok(program) => program.version == (1usize, 0usize, 0usize) && match assembled(
                    air_views(ir@),
                    arguments@,
                    wrap_as_validator,
                    old(self).synth_state(Seq::empty()),
                    old(self).synth_env(),
                ) {
                    Ok((term, end)) => term == program.term@ && end.next_id == final(self).id_gen.peek() && end.needs_field_access == final(self).needs_field_access,
                    Err(_) => false,
                },
                Err(e) => assembled(
                    air_views(ir@),
                    arguments@,
                    wrap_as_validator,
                    old(self).synth_state(Seq::empty()),
                    old(self).synth_env(),
                ) == Err::<(TermView, SynthState), Halt>(e),
            },
    {
        let mut work = clone_air(ir);
        let mut term = self.uplc_code_gen(&mut work)?;
        if self.needs_field_access {
            term = constr_get_field(term);
            term = constr_fields_exposer(term);
        }
        if wrap_as_validator {
            term = final_wrapper(term);
        }
        term = wrap_validator_args(term, arguments);
        let mut interner = Interner::new();
        assert(crate::text::name_views(interner.identifiers@) =~= Seq::empty());
        Ok(interner.program(Program { version: (1, 0, 0), term }))
    }

    /// Lowers the body of a function or validator into instructions and
    /// puts the definitions of the functions it needs into them.
    pub fn lower(&mut self, body: &TypedExpr) -> (r: Result<Vec<Air>, Halt>)
        ensures
            old(self).same_inputs(final(self)),
            match r {
                Ok(ir) => lowered_program(
                    *body,
                    old(self).registry(),
                    old(self).lower_state(),
                    old(self).lower_env(),
                ) == Ok::<Planned, Halt>(
                    Planned {
                        ir: air_views(ir@),
                        registry: final(self).registry(),
                        st: final(self).lower_state(),
                    },
                ),
                Err(e) => lowered_program(
                    *body,
                    old(self).registry(),
                    old(self).lower_state(),
                    old(self).lower_env(),
                ) == Err::<Planned, Halt>(e),
            },
    {
        let mut ir_stack: Vec<Air> = Vec::new();
        assert(air_views(ir_stack@) =~= Seq::empty());
        let id = self.id_gen.next();
        let mut scope: Vec<u64> = Vec::new();
        scope.push(id);
        assert(scope@ =~= seq![id]);
        self.build_ir(body, &mut ir_stack, scope)?;
        assert(Seq::<AirView>::empty() + air_views(ir_stack@) =~= air_views(ir_stack@));
        self.define_ir(&mut ir_stack)?;
        Ok(ir_stack)
    }

    /// Generates the program of a function or validator: the body is
    /// lowered, the definitions it needs are put in, and the instructions are
    /// assembled. Where the value of a function without parameters is
    /// needed, the outcome is the request for it; the caller then lowers and
    /// assembles in steps of its own.
    pub fn generate(&mut self, body: TypedExpr, arguments: Vec<TypedArg>, wrap_as_validator: bool) -> (r:
        Result<Program, Halt>)
        ensures
            old(self).same_inputs(final(self)),
            match lowered_program(
                body,
                old(self).registry(),
                old(self).lower_state(),
                old(self).lower_env(),
            ) {
                Err(e) => r == Err::<Program, Halt>(e),
                Ok(planned) => match assembled(
                    planned.ir,
                    arguments@,
                    wrap_as_validator,
                    SynthState {
                        stack: Seq::empty(),
                        next_id: planned.st.next_id,
                        needs_field_access: planned.st.needs_field_access,
                    },
                    SynthEnv { data_types: old(self).data_types@, zero_arg: planned.registry.zero_arg },
                ) {
                    Err(e) => r == Err::<Program, Halt>(e),
                    Ok((term, end)) => r is Ok && r.unwrap().term@ == term && r.unwrap().version == (
                        1usize,
                        0usize,
                        0usize,
                    ) && final(self).registry() == planned.registry && final(self).id_gen.peek()
                        == end.next_id && final(self).needs_field_access == end.needs_field_access,
                },
            },
    {
        let ir = self.lower(&body)?;
        assert(crate::term::term_views(Seq::<Term>::empty()) =~= Seq::empty());
        self.assemble(&ir, &arguments, wrap_as_validator)
    }

    /// The program that computes the value of a function without
    /// parameters: its instructions assembled, with the helpers that read
    /// fields bound around the term.
    pub fn zero_arg_program(&mut self, function: usize) -> (r: Result<Program, Halt>)
        requires
            function < old(self).zero_arg_functions@.len(),
        ensures
            old(self).same_tables(final(self)),
            match r {
                Ok(program) => program.version == (1usize, 0usize, 0usize) && match synthesis(
                    air_views(old(self).zero_arg_functions@[function as int].ir@),
                    old(self).synth_state(Seq::empty()),
                    old(self).synth_env(),
                ) {
                    Ok((term, end)) => program.term@ == interned(
                        TermView::constr_fields_exposer(TermView::constr_get_field(term)),
                        Seq::empty(),
                    ).0 && end.next_id == final(self).id_gen.peek() && end.needs_field_access
                        == final(self).needs_field_access,
                    Err(_) => false,
                },
                Err(e) => synthesis(
                    air_views(old(self).zero_arg_functions@[function as int].ir@),
                    old(self).synth_state(Seq::empty()),
                    old(self).synth_env(),
                ) == Err::<(TermView, SynthState), Halt>(e),
            },
    {
        let mut work = clone_air(&self.zero_arg_functions[function].ir);
        let mut term = self.uplc_code_gen(&mut work)?;
        term = constr_get_field(term);
        term = constr_fields_exposer(term);
        let mut interner = Interner::new();
        assert(crate::text::name_views(interner.identifiers@) =~= Seq::empty());
        Ok(interner.program(Program { version: (1, 0, 0), term }))
    }

    /// Supplies the value of a function without parameters.
    pub fn set_zero_arg_value(&mut self, function: usize, value: Term)
        requires
            function < old(self).zero_arg_functions@.len(),
        ensures
            old(self).same_inputs(final(self)),
            final(self).defined_functions == old(self).defined_functions,
            final(self).id_gen == old(self).id_gen,
            final(self).needs_field_access == old(self).needs_field_access,
            zero_arg_views(final(self).zero_arg_functions@) == zero_arg_views(
                old(self).zero_arg_functions@,
            ).update(
                function as int,
                ZeroArgView {
                    value: Some(value@),
                    ..zero_arg_views(old(self).zero_arg_functions@)[function as int]
                },
            ),
    {
        let ghost before = zero_arg_views(self.zero_arg_functions@);
        let entry = &self.zero_arg_functions[function];
        let updated = ZeroArgFunction {
            key: entry.key.duplicate(),
            ir: clone_air(&entry.ir),
            value: Some(value),
        };
        let ghost uv = updated@;
        self.zero_arg_functions.set(function, updated);
        assert(zero_arg_views(self.zero_arg_functions@) =~= before.update(function as int, uv));
    }
}

} // verus!
