use vstd::prelude::*;

pub mod air;
pub mod ast;
pub mod builder;
pub mod convert;
pub mod error;
pub mod evaluation;
pub mod expr;
pub mod expr_spec;
pub mod generate;
pub mod generator;
pub mod id_gen;
pub mod interner;
pub mod lower_expr;
pub mod lower_laws;
pub mod lower_pattern;
pub mod lower_when;
pub mod map_laws;
pub mod maps;
pub mod mono;
pub mod pattern_spec;
pub mod plan;
pub mod plan_define;
pub mod plan_hoist;
pub mod plan_known;
pub mod plan_laws;
pub mod plan_run;
pub mod plan_spec;
pub mod project;
pub mod search;
pub mod sorting;
pub mod synth;
pub mod synth_data;
pub mod synth_laws;
pub mod synth_spec;
pub mod synthesize;
pub mod term;
pub mod term_builder;
pub mod text;
pub mod tipo;
pub mod untyped;

verus! {

} // verus!
