use aiken_lang::air::Air;
use aiken_lang::ast::{ArgName, CallArg, Span, TypedArg, TypedFunction};
use aiken_lang::builder::{DataTypeKey, FunctionAccessKey};
use aiken_lang::ast::TypedDataType;
use aiken_lang::error::Halt;
use aiken_lang::evaluation::{after_evaluation, after_halt, is_waiting, GenerationError, Next};
use aiken_lang::expr::TypedExpr;
use aiken_lang::generate::wrap_validator_args;
use aiken_lang::generator::CodeGenerator;
use aiken_lang::interner::Interner;
use aiken_lang::term::{
    DefaultFunction, Name, PlutusData, Program, Term, Unique, UplcConstant, UplcType,
};
use aiken_lang::term_builder::{constr_fields_exposer, constr_get_field};
use aiken_lang::tipo::{Type, TypeInfo, ValueConstructor, ValueConstructorVariant};

fn span() -> Span {
    Span { start: 0, end: 0 }
}

fn int_type() -> Type {
    Type::plain("Int")
}

fn bool_type() -> Type {
    Type::plain("Bool")
}

fn data_type() -> Type {
    Type::plain("Data")
}

fn list_of(item: Type) -> Type {
    Type::App { public: true, module: String::new(), name: "List".to_string(), args: vec![item] }
}

fn named(name: &str, unique: isize) -> Name {
    Name { text: name.to_string(), unique: Unique(unique) }
}

fn var(name: &str, unique: isize) -> Term {
    Term::Var(named(name, unique))
}

fn apply(function: Term, argument: Term) -> Term {
    Term::Apply { function: Box::new(function), argument: Box::new(argument) }
}

fn lambda(name: &str, unique: isize, body: Term) -> Term {
    Term::Lambda { parameter_name: named(name, unique), body: Box::new(body) }
}

fn force(term: Term) -> Term {
    Term::Force(Box::new(term))
}

fn delay(term: Term) -> Term {
    Term::Delay(Box::new(term))
}

fn builtin(function: DefaultFunction) -> Term {
    Term::Builtin(function)
}

fn integer(value: i128) -> Term {
    Term::Constant(UplcConstant::Integer(value))
}

fn int_data(value: i128) -> UplcConstant {
    UplcConstant::Data(PlutusData::BigInt(value))
}

fn int_air(value: &str) -> Air {
    Air::Int { scope: vec![0], value: value.to_string() }
}

fn local_air(name: &str, tipo: Type) -> Air {
    Air::Var {
        scope: vec![0],
        constructor: ValueConstructor::local(tipo),
        name: name.to_string(),
        variant_name: String::new(),
    }
}

fn synthesize(mut ir: Vec<Air>) -> Result<Term, Halt> {
    let functions = vec![];
    let data_types = vec![];
    let module_types = vec![];
    let mut generator = CodeGenerator::new(&functions, &data_types, &module_types);
    generator.uplc_code_gen(&mut ir)
}

fn argument(name: &str, tipo: Type) -> TypedArg {
    TypedArg {
        arg_name: ArgName::Named { name: name.to_string(), location: span() },
        location: span(),
        tipo,
    }
}

fn truth() -> TypedExpr {
    TypedExpr::Var {
        location: span(),
        constructor: ValueConstructor::public(
            bool_type(),
            ValueConstructorVariant::Record {
                name: "True".to_string(),
                arity: 0,
                field_map: None,
                location: span(),
                module: String::new(),
                constructors_count: 2,
            },
        ),
        name: "True".to_string(),
    }
}

#[test]
fn a_list_of_constants_is_one_constant() {
    let ir = vec![
        Air::List { scope: vec![0], count: 2, tipo: list_of(int_type()), tail: false },
        int_air("1"),
        int_air("2"),
    ];
    assert_eq!(
        synthesize(ir),
        Ok(Term::Constant(UplcConstant::ProtoList(
            UplcType::Data,
            vec![int_data(1), int_data(2)]
        )))
    );
}

#[test]
fn an_empty_list_is_the_empty_constant() {
    let ir = vec![Air::List { scope: vec![0], count: 0, tipo: list_of(int_type()), tail: false }];
    assert_eq!(
        synthesize(ir),
        Ok(Term::Constant(UplcConstant::ProtoList(UplcType::Data, vec![])))
    );
}

#[test]
fn a_pair_of_constants_is_one_constant() {
    let ir = vec![
        Air::Tuple {
            scope: vec![0],
            tipo: Type::Tuple { elems: vec![int_type(), int_type()] },
            count: 2,
        },
        int_air("1"),
        int_air("2"),
    ];
    assert_eq!(
        synthesize(ir),
        Ok(Term::Constant(UplcConstant::ProtoPair(
            UplcType::Data,
            UplcType::Data,
            Box::new(int_data(1)),
            Box::new(int_data(2))
        )))
    );
}

#[test]
fn a_triple_of_constants_is_a_constant_list() {
    let ir = vec![
        Air::Tuple {
            scope: vec![0],
            tipo: Type::Tuple { elems: vec![int_type(), int_type(), int_type()] },
            count: 3,
        },
        int_air("1"),
        int_air("2"),
        int_air("3"),
    ];
    assert_eq!(
        synthesize(ir),
        Ok(Term::Constant(UplcConstant::ProtoList(
            UplcType::Data,
            vec![int_data(1), int_data(2), int_data(3)]
        )))
    );
}

#[test]
fn a_list_with_a_variable_is_built_item_by_item() {
    let ir = vec![
        Air::Fn { scope: vec![0], params: vec!["x".to_string()] },
        Air::List { scope: vec![0], count: 2, tipo: list_of(int_type()), tail: false },
        local_air("x", int_type()),
        int_air("2"),
    ];
    let item = |value: Term| apply(builtin(DefaultFunction::IData), value);
    let cons = |head: Term, tail: Term| {
        apply(apply(force(builtin(DefaultFunction::MkCons)), head), tail)
    };
    assert_eq!(
        synthesize(ir),
        Ok(lambda(
            "x",
            0,
            cons(
                item(var("x", 0)),
                cons(
                    item(integer(2)),
                    Term::Constant(UplcConstant::ProtoList(UplcType::Data, vec![]))
                )
            )
        ))
    );
}

#[test]
fn validator_arguments_are_unwrapped_under_their_names() {
    let term = wrap_validator_args(
        var("x", 0),
        &vec![argument("x", int_type()), argument("ctx", data_type())],
    );
    assert_eq!(
        term,
        lambda(
            "x",
            0,
            apply(
                lambda("x", 0, lambda("ctx", 0, var("x", 0))),
                apply(builtin(DefaultFunction::UnIData), var("x", 0))
            )
        )
    );
}

#[test]
fn a_validator_ends_in_unit_or_error() {
    let functions = vec![];
    let data_types = vec![];
    let module_types: Vec<(String, TypeInfo)> = vec![];
    let mut generator = CodeGenerator::new(&functions, &data_types, &module_types);
    let program = generator.generate(truth(), vec![argument("ctx", data_type())], true).unwrap();
    assert_eq!(program.version, (1, 0, 0));
    assert_eq!(
        program.term,
        lambda(
            "ctx",
            0,
            force(apply(
                apply(
                    apply(
                        force(builtin(DefaultFunction::IfThenElse)),
                        Term::Constant(UplcConstant::Bool(true))
                    ),
                    delay(Term::Constant(UplcConstant::Unit))
                ),
                delay(Term::Error)
            ))
        )
    );
}

fn answer_function() -> (FunctionAccessKey, TypedFunction) {
    (
        FunctionAccessKey {
            module_name: "m".to_string(),
            function_name: "answer".to_string(),
            variant_name: String::new(),
        },
        TypedFunction {
            name: "answer".to_string(),
            arguments: vec![],
            body: TypedExpr::Int { location: span(), tipo: int_type(), value: "42".to_string() },
            public: true,
            location: span(),
            return_type: int_type(),
        },
    )
}

fn call_answer() -> TypedExpr {
    TypedExpr::Call {
        location: span(),
        tipo: int_type(),
        fun: Box::new(TypedExpr::Var {
            location: span(),
            constructor: ValueConstructor::public(
                Type::Fn { args: vec![], ret: Box::new(int_type()) },
                ValueConstructorVariant::ModuleFn {
                    name: "answer".to_string(),
                    field_map: None,
                    module: "m".to_string(),
                    arity: 0,
                    location: span(),
                    builtin: None,
                },
            ),
            name: "answer".to_string(),
        }),
        args: Vec::<CallArg>::new(),
    }
}

#[test]
fn a_function_without_parameters_is_asked_for_and_then_used() {
    let functions = vec![answer_function()];
    let data_types: Vec<(DataTypeKey, TypedDataType)> = vec![];
    let module_types: Vec<(String, TypeInfo)> = vec![];
    let mut generator = CodeGenerator::new(&functions, &data_types, &module_types);
    let ir = generator.lower(&call_answer()).unwrap();
    assert!(ir.iter().all(|air| !matches!(air, Air::DefineFunc { .. })));
    assert_eq!(generator.zero_arg_functions.len(), 1);
    assert_eq!(generator.zero_arg_functions[0].key.function_name, "answer");
    assert_eq!(generator.zero_arg_functions[0].value, None);

    assert_eq!(generator.assemble(&ir, &vec![], false), Err(Halt::Evaluate { function: 0 }));

    let mut interner = Interner::new();
    let expected = interner.program(Program {
        version: (1, 0, 0),
        term: constr_fields_exposer(constr_get_field(integer(42))),
    });
    assert_eq!(generator.zero_arg_program(0), Ok(expected));

    generator.set_zero_arg_value(0, integer(42));
    assert_eq!(generator.zero_arg_functions[0].value, Some(integer(42)));
    let program = generator.assemble(&ir, &vec![], false).unwrap();
    assert_eq!(program.term, integer(42));
}

#[test]
fn generating_in_one_step_reports_the_function_that_is_needed() {
    let functions = vec![answer_function()];
    let data_types: Vec<(DataTypeKey, TypedDataType)> = vec![];
    let module_types: Vec<(String, TypeInfo)> = vec![];
    let mut generator = CodeGenerator::new(&functions, &data_types, &module_types);
    assert_eq!(
        generator.generate(call_answer(), vec![], false),
        Err(Halt::Evaluate { function: 0 })
    );
}

#[test]
fn a_conditional_evaluates_only_the_branch_it_takes() {
    let ir = vec![
        Air::Fn { scope: vec![0], params: vec!["c".to_string()] },
        Air::If { scope: vec![0] },
        local_air("c", bool_type()),
        int_air("1"),
        int_air("2"),
    ];
    assert_eq!(
        synthesize(ir),
        Ok(lambda(
            "c",
            0,
            force(apply(
                apply(
                    apply(force(builtin(DefaultFunction::IfThenElse)), var("c", 0)),
                    delay(integer(1))
                ),
                delay(integer(2))
            ))
        ))
    );
}

#[test]
fn an_error_without_a_label_is_the_error_term() {
    let ir = vec![Air::ErrorTerm { scope: vec![0], tipo: int_type(), label: None }];
    assert_eq!(synthesize(ir), Ok(Term::Error));
}

#[test]
fn a_trace_logs_its_text_and_goes_on() {
    let ir = vec![
        Air::Trace { scope: vec![0], text: Some("hi".to_string()), tipo: int_type() },
        int_air("1"),
    ];
    assert_eq!(
        synthesize(ir),
        Ok(apply(
            apply(
                force(builtin(DefaultFunction::Trace)),
                Term::Constant(UplcConstant::String("hi".to_string()))
            ),
            integer(1)
        ))
    );
}

#[test]
fn a_trace_without_a_text_logs_the_default_text() {
    let ir = vec![Air::Trace { scope: vec![0], text: None, tipo: int_type() }, int_air("1")];
    assert_eq!(
        synthesize(ir),
        Ok(apply(
            apply(
                force(builtin(DefaultFunction::Trace)),
                Term::Constant(UplcConstant::String("aiken::trace".to_string()))
            ),
            integer(1)
        ))
    );
}

#[test]
fn a_program_that_reads_a_field_binds_the_helpers_around_it() {
    let functions = vec![];
    let data_types = vec![];
    let module_types: Vec<(String, TypeInfo)> = vec![];
    let mut generator = CodeGenerator::new(&functions, &data_types, &module_types);
    let record_type = Type::App {
        public: true,
        module: "m".to_string(),
        name: "Thing".to_string(),
        args: vec![],
    };
    let body = TypedExpr::Fn {
        location: span(),
        tipo: Type::Fn { args: vec![record_type.duplicate()], ret: Box::new(int_type()) },
        is_capture: false,
        args: vec![argument("r", record_type.duplicate())],
        body: Box::new(TypedExpr::RecordAccess {
            location: span(),
            tipo: int_type(),
            label: "second".to_string(),
            index: 1,
            record: Box::new(TypedExpr::Var {
                location: span(),
                constructor: ValueConstructor::local(record_type),
                name: "r".to_string(),
            }),
        }),
    };
    let program = generator.generate(body, vec![], false).unwrap();
    assert!(generator.needs_field_access);

    let read = apply(
        builtin(DefaultFunction::UnIData),
        apply(
            apply(
                var("__constr_get_field", 0),
                apply(var("__constr_fields_exposer", 0), var("r", 0)),
            ),
            integer(1),
        ),
    );
    let mut interner = Interner::new();
    let expected = interner.program(Program {
        version: (1, 0, 0),
        term: constr_fields_exposer(constr_get_field(lambda("r", 0, read))),
    });
    assert_eq!(program, expected);
    match &program.term {
        Term::Apply { function, .. } => match &**function {
            Term::Lambda { parameter_name, .. } => {
                assert_eq!(parameter_name.text, "__constr_fields_exposer");
                assert_eq!(parameter_name.unique, Unique(0));
            }
            other => panic!("no binding: {other:?}"),
        },
        other => panic!("no binding: {other:?}"),
    }
}

#[test]
fn a_request_for_a_value_is_followed_by_building_the_program() {
    let mut waiting = vec![];
    assert_eq!(
        after_halt(&mut waiting, Halt::Evaluate { function: 1 }, 3),
        Next::Build { function: 1 }
    );
    assert_eq!(waiting, vec![1]);
    assert_eq!(
        after_halt(&mut waiting, Halt::Evaluate { function: 2 }, 3),
        Next::Build { function: 2 }
    );
    assert_eq!(waiting, vec![1, 2]);
    assert!(is_waiting(&waiting, 2));
    assert!(!is_waiting(&waiting, 0));
}

#[test]
fn a_function_that_waits_for_itself_is_given_up() {
    let mut waiting = vec![1, 2];
    assert_eq!(
        after_halt(&mut waiting, Halt::Evaluate { function: 1 }, 3),
        Next::Fail(GenerationError::Halted(Halt::ImpossibleShape))
    );
    assert_eq!(waiting, vec![1, 2]);
}

#[test]
fn a_request_for_an_unknown_function_is_given_up() {
    let mut waiting = vec![];
    assert_eq!(
        after_halt(&mut waiting, Halt::Evaluate { function: 3 }, 3),
        Next::Fail(GenerationError::Halted(Halt::Missing))
    );
    assert!(waiting.is_empty());
}

#[test]
fn every_other_stop_is_final() {
    let mut waiting = vec![0];
    for halt in [Halt::Unsupported, Halt::ImpossibleShape, Halt::Missing, Halt::Malformed] {
        assert_eq!(
            after_halt(&mut waiting, halt, 3),
            Next::Fail(GenerationError::Halted(halt))
        );
        assert_eq!(waiting, vec![0]);
    }
}

#[test]
fn a_value_is_supplied_and_the_outer_program_comes_next() {
    let mut waiting = vec![1, 2];
    assert_eq!(
        after_evaluation(&mut waiting, Ok(integer(7))),
        Ok((2, integer(7), Next::Build { function: 1 }))
    );
    assert_eq!(waiting, vec![1]);
    assert_eq!(
        after_evaluation(&mut waiting, Ok(integer(8))),
        Ok((1, integer(8), Next::Assemble))
    );
    assert!(waiting.is_empty());
}

#[test]
fn a_failed_evaluation_carries_what_the_evaluator_said() {
    let mut waiting = vec![1, 2];
    assert_eq!(
        after_evaluation(&mut waiting, Err("budget exceeded".to_string())),
        Err(GenerationError::Evaluation { function: 2, message: "budget exceeded".to_string() })
    );
    assert_eq!(waiting, vec![1, 2]);
}

#[test]
fn a_value_that_nothing_waits_for_is_refused() {
    let mut waiting = vec![];
    assert_eq!(
        after_evaluation(&mut waiting, Ok(integer(7))),
        Err(GenerationError::Halted(Halt::Malformed))
    );
}

#[test]
fn lists_that_differ_are_the_negation_of_lists_that_are_equal() {
    let operands = || vec![local_air("l", list_of(int_type())), local_air("r", list_of(int_type()))];
    let mut equal = vec![Air::BinOp {
        scope: vec![0],
        name: aiken_lang::ast::BinOp::Eq,
        count: 2,
        tipo: list_of(int_type()),
    }];
    equal.extend(operands());
    let mut differ = vec![Air::BinOp {
        scope: vec![0],
        name: aiken_lang::ast::BinOp::NotEq,
        count: 2,
        tipo: list_of(int_type()),
    }];
    differ.extend(operands());
    let wrapped = |name: &str| apply(builtin(DefaultFunction::ListData), var(name, 0));
    let equality =
        apply(apply(builtin(DefaultFunction::EqualsData), wrapped("l")), wrapped("r"));
    assert_eq!(synthesize(equal), Ok(equality));
    let equality =
        apply(apply(builtin(DefaultFunction::EqualsData), wrapped("l")), wrapped("r"));
    assert_eq!(
        synthesize(differ),
        Ok(apply(
            apply(
                apply(force(builtin(DefaultFunction::IfThenElse)), equality),
                Term::Constant(UplcConstant::Bool(false))
            ),
            Term::Constant(UplcConstant::Bool(true))
        ))
    );
}

#[test]
fn pairs_that_differ_are_the_negation_of_pairs_that_are_equal() {
    let pair = || Type::Tuple { elems: vec![int_type(), int_type()] };
    let ir = vec![
        Air::BinOp { scope: vec![0], name: aiken_lang::ast::BinOp::NotEq, count: 2, tipo: pair() },
        local_air("l", pair()),
        local_air("r", pair()),
    ];
    let empty_map = || {
        Term::Constant(UplcConstant::ProtoList(
            UplcType::Pair(Box::new(UplcType::Data), Box::new(UplcType::Data)),
            vec![],
        ))
    };
    let as_map = |name: &str| {
        apply(
            builtin(DefaultFunction::MapData),
            apply(apply(force(builtin(DefaultFunction::MkCons)), var(name, 0)), empty_map()),
        )
    };
    let equality = apply(apply(builtin(DefaultFunction::EqualsData), as_map("l")), as_map("r"));
    assert_eq!(
        synthesize(ir),
        Ok(apply(
            apply(
                apply(force(builtin(DefaultFunction::IfThenElse)), equality),
                Term::Constant(UplcConstant::Bool(false))
            ),
            Term::Constant(UplcConstant::Bool(true))
        ))
    );
}

#[test]
fn a_call_without_arguments_of_what_is_no_such_function_is_the_callee() {
    let ir = vec![
        Air::Fn { scope: vec![0], params: vec!["f".to_string()] },
        Air::Call { scope: vec![0], count: 0 },
        local_air("f", Type::Fn { args: vec![], ret: Box::new(int_type()) }),
    ];
    assert_eq!(synthesize(ir), Ok(lambda("f", 0, var("f", 0))));
    let ir = vec![Air::Call { scope: vec![0], count: 0 }, int_air("5")];
    assert_eq!(synthesize(ir), Ok(integer(5)));
}
