use vstd::prelude::*;
use crate::air::{air_views, Air};
use crate::error::Halt;
use crate::generator::CodeGenerator;
use crate::synth::{
    agrees,
    binop,
    call,
    define_func,
    definition_text,
    error_with_trace,
    fn_step,
    label_text,
    pop_term,
    push_term,
    unop,
    var_to_term,
    bind_subject,
};
use crate::synth_data::{
    builtin,
    clause,
    clause_guard,
    fields_expose,
    list,
    list_accessor,
    list_clause,
    list_expose,
    tuple,
    tuple_accessor,
    tuple_clause,
    tuple_index,
};
use crate::synth_spec::{synth_from, synth_step, synthesis, SynthState};
use crate::term::{term_views, DefaultFunction, Term, TermView};
use crate::term_builder::delayed_if_else;
use crate::convert::convert_data_to_type;
use crate::text::parse_integer;

verus! {

impl<'a> CodeGenerator<'a> {
    /// Takes one instruction: its operands leave the operand stack and the
    /// term it stands for takes their place. The outcome is what
    /// `synth_step` says, failures included.
    pub fn gen_uplc(&mut self, ir: Air, arg_stack: &mut Vec<Term>) -> (r: Result<(), Halt>)
        ensures
            agrees(
                r,
                synth_step(ir@, old(self).synth_state(old(arg_stack)@), old(self).synth_env()),
                final(self).synth_state(final(arg_stack)@),
            ),
            old(self).same_tables(final(self)),
    {
        let ghost st = self.synth_state(arg_stack@);
        let ghost env = self.synth_env();
        proof {
            reveal(synth_step);
        }
        match ir {
            Air::Int { value, .. } => match parse_integer(value.as_str()) {
                Some(v) => {
                    push_term(arg_stack, Term::integer(v));
                    Ok(())
                },
                None => Err(Halt::Malformed),
            },
            Air::String { value, .. } => {
                push_term(arg_stack, Term::string(value));
                Ok(())
            },
            Air::ByteArray { bytes, .. } => {
                push_term(arg_stack, Term::byte_string(bytes));
                Ok(())
            },
            Air::Var { constructor, name, variant_name, .. } => {
                let term = var_to_term(
                    &constructor,
                    name,
                    &variant_name,
                    self.data_types,
                    Ghost(env),
                )?;
                push_term(arg_stack, term);
                Ok(())
            },
            Air::Discard { .. } => {
                push_term(arg_stack, Term::unit());
                Ok(())
            },
            Air::List { count, tipo, tail, .. } => list(count, &tipo, tail, arg_stack, Ghost(st)),
            Air::ListAccessor { names, tail, tipo, .. } => list_accessor(
                &names,
                tail,
                &tipo,
                arg_stack,
                &mut self.id_gen,
                Ghost(st),
            ),
            Air::ListExpose { tail_head_names, tail, tipo, .. } => list_expose(
                &tail_head_names,
                &tail,
                &tipo,
                arg_stack,
                Ghost(st),
            ),
            Air::Fn { params, .. } => fn_step(&params, arg_stack),
            Air::Call { count, .. } => call(
                count,
                arg_stack,
                &self.zero_arg_functions,
                Ghost(st),
                Ghost(env),
            ),
            Air::Builtin { func, tipo, .. } => builtin(
                func,
                &tipo,
                arg_stack,
                &mut self.id_gen,
                Ghost(st),
            ),
            Air::BinOp { name, tipo, .. } => {
                let left = pop_term(arg_stack)?;
                let right = pop_term(arg_stack)?;
                push_term(arg_stack, binop(name, &tipo, left, right));
                Ok(())
            },
            Air::Assignment { name, .. } => {
                let value = pop_term(arg_stack)?;
                let body = pop_term(arg_stack)?;
                push_term(arg_stack, Term::bind(name, value, body));
                Ok(())
            },
            Air::DefineFunc { func_name, module_name, params, recursive, variant_name, .. } => {
                let name = definition_text(&func_name, &module_name, &variant_name);
                let func_body = pop_term(arg_stack)?;
                let term = pop_term(arg_stack)?;
                push_term(arg_stack, define_func(name, &params, recursive, func_body, term));
                Ok(())
            },
            Air::Lam { name, .. } => {
                let value = pop_term(arg_stack)?;
                let body = pop_term(arg_stack)?;
                push_term(arg_stack, Term::bind(name, value, body));
                Ok(())
            },
            Air::When { subject_name, tipo, .. } => {
                let subject = pop_term(arg_stack)?;
                let term = pop_term(arg_stack)?;
                push_term(arg_stack, bind_subject(subject_name, &tipo, subject, term));
                Ok(())
            },
            Air::Clause { tipo, subject_name, complex_clause, .. } => clause(
                &tipo,
                subject_name,
                complex_clause,
                arg_stack,
                Ghost(st),
            ),
            Air::ListClause {
                tail_name,
                next_tail_name,
                complex_clause,
                inverse,
                ..
            } => list_clause(
                tail_name,
                next_tail_name,
                complex_clause,
                inverse,
                arg_stack,
                Ghost(st),
            ),
            Air::ClauseGuard { subject_name, tipo, .. } => clause_guard(
                subject_name,
                &tipo,
                arg_stack,
                Ghost(st),
            ),
            Air::Finally { .. } => {
                let _ = pop_term(arg_stack)?;
                Ok(())
            },
            Air::If { .. } => {
                let condition = pop_term(arg_stack)?;
                let then = pop_term(arg_stack)?;
                let otherwise = pop_term(arg_stack)?;
                push_term(arg_stack, delayed_if_else(condition, then, otherwise));
                Ok(())
            },
            Air::RecordAccess { index, tipo, .. } => {
                let record = pop_term(arg_stack)?;
                let term = Term::named("__constr_get_field").apply(
                    Term::named("__constr_fields_exposer").apply(record),
                ).apply(Term::integer(index as i128));
                push_term(arg_stack, convert_data_to_type(term, &tipo));
                Ok(())
            },
            Air::FieldsExpose { indices, .. } => fields_expose(
                &indices,
                arg_stack,
                &mut self.id_gen,
                &mut self.needs_field_access,
                Ghost(st),
            ),
            Air::Tuple { tipo, count, .. } => tuple(&tipo, count, arg_stack, Ghost(st)),
            Air::Todo { label, .. } => {
                push_term(arg_stack, error_with_trace(label_text(label, "aiken::todo")));
                Ok(())
            },
            Air::UnOp { op, .. } => {
                let value = pop_term(arg_stack)?;
                push_term(arg_stack, unop(op, value));
                Ok(())
            },
            Air::TupleIndex { tipo, index, .. } => tuple_index(
                &tipo,
                index,
                arg_stack,
                &mut self.needs_field_access,
                Ghost(st),
            ),
            Air::TupleAccessor { tipo, names, .. } => tuple_accessor(
                &names,
                &tipo,
                arg_stack,
                &mut self.id_gen,
                Ghost(st),
            ),
            Air::Trace { text, .. } => {
                let then = pop_term(arg_stack)?;
                push_term(
                    arg_stack,
                    Term::Builtin(DefaultFunction::Trace).force_wrap().apply(
                        Term::string(label_text(text, "aiken::trace")),
                    ).apply(then),
                );
                Ok(())
            },
            Air::ErrorTerm { label, .. } => match label {
                Some(l) => {
                    push_term(arg_stack, error_with_trace(l));
                    Ok(())
                },
                None => {
                    push_term(arg_stack, Term::Error);
                    Ok(())
                },
            },
            Air::TupleClause { tipo, indices, subject_name, complex_clause, .. } => tuple_clause(
                &tipo,
                &indices,
                &subject_name,
                complex_clause,
                arg_stack,
                Ghost(st),
            ),
        }
    }

    /// Turns a list of instructions into the term it stands for. The
    /// instructions are taken from the last to the first; the term is what
    /// is at the bottom of the operand stack in the end. On success no
    /// instruction is left.
    pub fn uplc_code_gen(&mut self, ir_stack: &mut Vec<Air>) -> (r: Result<Term, Halt>)
        ensures
            match r {
                Ok(t) => synthesis(
                    air_views(old(ir_stack)@),
                    old(self).synth_state(Seq::empty()),
                    old(self).synth_env(),
                ) == Ok::<(TermView, SynthState), Halt>(
                    (
                        t@,
                        SynthState {
                            stack: synthesis(
                                air_views(old(ir_stack)@),
                                old(self).synth_state(Seq::empty()),
                                old(self).synth_env(),
                            ).unwrap().1.stack,
                            next_id: final(self).id_gen.peek(),
                            needs_field_access: final(self).needs_field_access,
                        },
                    ),
                ) && final(ir_stack)@.len() == 0,
                Err(e) => synthesis(
                    air_views(old(ir_stack)@),
                    old(self).synth_state(Seq::empty()),
                    old(self).synth_env(),
                ) == Err::<(TermView, SynthState), Halt>(e),
            },
            old(self).same_tables(final(self)),
    {
        let ghost all = air_views(ir_stack@);
        let ghost start = self.synth_state(Seq::empty());
        let ghost env = self.synth_env();
        let mut arg_stack: Vec<Term> = Vec::new();
        assert(term_views(arg_stack@) =~= Seq::empty());
        while ir_stack.len() > 0
            invariant
                ir_stack@.len() <= all.len(),
                air_views(ir_stack@) == all.take(ir_stack@.len() as int),
                env == self.synth_env(),
                env == old(self).synth_env(),
                all == air_views(old(ir_stack)@),
                start == old(self).synth_state(Seq::empty()),
                old(self).same_tables(self),
                synth_from(all, all.len(), start, env) == synth_from(
                    all,
                    ir_stack@.len() as nat,
                    self.synth_state(arg_stack@),
                    env,
                ),
            decreases ir_stack@.len(),
        {
            let ghost before = air_views(ir_stack@);
            let ir = ir_stack.pop().unwrap();
            assert(ir@ == before.last());
            assert(air_views(ir_stack@) =~= all.take(ir_stack@.len() as int));
            assert(ir@ == all[ir_stack@.len() as int]);
            let ghost before_step = self.synth_state(arg_stack@);
            let ghost left = ir_stack@.len() as nat;
            match self.gen_uplc(ir, &mut arg_stack) {
                Ok(()) => {},
                Err(e) => {
                    assert(synth_from(all, left + 1, before_step, env) == Err::<SynthState, Halt>(
                        e,
                    ));
                    return Err(e);
                },
            }
        }
        if arg_stack.len() == 0 {
            return Err(Halt::Malformed);
        }
        assert(term_views(arg_stack@)[0] == arg_stack@[0]@);
        Ok(arg_stack[0].duplicate())
    }
}

} // verus!
