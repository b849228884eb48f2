use aiken_lang::air::Air;
use aiken_lang::ast::{
    ArgName, AssignmentKind, BinOp, CallArg, Clause, Pattern, PatternArg, RecordConstructor,
    RecordConstructorArg, Span, TypedArg, TypedDataType, TypedFunction,
};
use aiken_lang::builder::{DataTypeKey, FunctionAccessKey};
use aiken_lang::error::Halt;
use aiken_lang::expr::TypedExpr;
use aiken_lang::generator::CodeGenerator;
use aiken_lang::term::{DefaultFunction, Name, Program, Term, Unique, UplcConstant};
use aiken_lang::tipo::{
    PatternConstructor, Type, TypeInfo, TypeVar, ValueConstructor, ValueConstructorVariant,
};

fn span() -> Span {
    Span { start: 0, end: 0 }
}

fn int_type() -> Type {
    Type::plain("Int")
}

fn bytes_type() -> Type {
    Type::plain("ByteArray")
}

fn list_of(item: Type) -> Type {
    Type::App { public: true, module: String::new(), name: "List".to_string(), args: vec![item] }
}

fn int_expr(value: &str) -> TypedExpr {
    TypedExpr::Int { location: span(), tipo: int_type(), value: value.to_string() }
}

fn local(name: &str, tipo: Type) -> TypedExpr {
    TypedExpr::Var {
        location: span(),
        constructor: ValueConstructor::local(tipo),
        name: name.to_string(),
    }
}

fn named(name: &str, unique: isize) -> Name {
    Name { text: name.to_string(), unique: Unique(unique) }
}

fn var(name: &str, unique: isize) -> Term {
    Term::Var(named(name, unique))
}

fn apply(function: Term, argument: Term) -> Term {
    Term::Apply { function: Box::new(function), argument: Box::new(argument) }
}

fn lambda(name: &str, unique: isize, body: Term) -> Term {
    Term::Lambda { parameter_name: named(name, unique), body: Box::new(body) }
}

fn force(term: Term) -> Term {
    Term::Force(Box::new(term))
}

fn delay(term: Term) -> Term {
    Term::Delay(Box::new(term))
}

fn builtin(function: DefaultFunction) -> Term {
    Term::Builtin(function)
}

fn integer(value: i128) -> Term {
    Term::Constant(UplcConstant::Integer(value))
}

fn generate_plain(
    body: TypedExpr,
    functions: &Vec<(FunctionAccessKey, TypedFunction)>,
    data_types: &Vec<(DataTypeKey, TypedDataType)>,
) -> Result<Program, Halt> {
    let module_types: Vec<(String, TypeInfo)> = vec![];
    let mut generator = CodeGenerator::new(functions, data_types, &module_types);
    generator.generate(body, vec![], false)
}

fn term_of(body: TypedExpr) -> Result<Term, Halt> {
    generate_plain(body, &vec![], &vec![]).map(|p| p.term)
}

#[test]
fn integer_literal_program() {
    let program = generate_plain(int_expr("42"), &vec![], &vec![]).unwrap();
    assert_eq!(program.version, (1, 0, 0));
    assert_eq!(program.term, integer(42));
}

#[test]
fn addition_program() {
    let body = TypedExpr::BinOp {
        location: span(),
        tipo: int_type(),
        name: BinOp::AddInt,
        left: Box::new(int_expr("1")),
        right: Box::new(int_expr("2")),
    };
    assert_eq!(
        term_of(body),
        Ok(apply(apply(builtin(DefaultFunction::AddInteger), integer(1)), integer(2)))
    );
}

#[test]
fn identity_function_applied_program() {
    let function = TypedExpr::Fn {
        location: span(),
        tipo: Type::Fn { args: vec![int_type()], ret: Box::new(int_type()) },
        is_capture: false,
        args: vec![TypedArg {
            arg_name: ArgName::Named { name: "x".to_string(), location: span() },
            location: span(),
            tipo: int_type(),
        }],
        body: Box::new(local("x", int_type())),
    };
    let body = TypedExpr::Call {
        location: span(),
        tipo: int_type(),
        fun: Box::new(function),
        args: vec![CallArg { label: None, location: span(), value: int_expr("7") }],
    };
    assert_eq!(term_of(body), Ok(apply(lambda("x", 0, var("x", 0)), integer(7))));
}

fn bool2() -> (DataTypeKey, TypedDataType) {
    (
        DataTypeKey { module_name: "m".to_string(), defined_type: "Bool2".to_string() },
        TypedDataType {
            name: "Bool2".to_string(),
            constructors: vec![
                RecordConstructor { name: "A".to_string(), arguments: vec![] },
                RecordConstructor { name: "B".to_string(), arguments: vec![] },
            ],
        },
    )
}

fn bool2_type() -> Type {
    Type::App { public: true, module: "m".to_string(), name: "Bool2".to_string(), args: vec![] }
}

fn constructor_pattern(name: &str) -> Pattern {
    Pattern::Constructor {
        is_record: false,
        location: span(),
        name: name.to_string(),
        arguments: vec![],
        module: None,
        constructor: PatternConstructor::Record { name: name.to_string(), field_map: None },
        with_spread: false,
        tipo: bool2_type(),
    }
}

fn if_then_else(condition: Term, then: Term, otherwise: Term) -> Term {
    apply(apply(apply(force(builtin(DefaultFunction::IfThenElse)), condition), then), otherwise)
}

#[test]
fn match_on_a_two_constructor_enum() {
    let body = TypedExpr::When {
        location: span(),
        tipo: int_type(),
        subjects: vec![local("b", bool2_type())],
        clauses: vec![
            Clause { location: span(), pattern: vec![constructor_pattern("A")], body: int_expr("1") },
            Clause { location: span(), pattern: vec![constructor_pattern("B")], body: int_expr("2") },
        ],
    };
    let term = generate_plain(body, &vec![], &vec![bool2()]).map(|p| p.term);
    let tag = apply(
        force(force(builtin(DefaultFunction::FstPair))),
        apply(builtin(DefaultFunction::UnConstrData), var("b", 1)),
    );
    let first_test = apply(
        apply(builtin(DefaultFunction::EqualsInteger), var("__subject_name_1", 0)),
        integer(0),
    );
    let expected = apply(
        lambda(
            "__subject_name_1",
            0,
            force(if_then_else(first_test, delay(integer(1)), delay(integer(2)))),
        ),
        tag,
    );
    assert_eq!(term, Ok(expected));
}

#[test]
fn list_head_and_tail_destructuring() {
    let xs_type = list_of(int_type());
    let body = TypedExpr::When {
        location: span(),
        tipo: int_type(),
        subjects: vec![local("xs", list_of(int_type()))],
        clauses: vec![
            Clause {
                location: span(),
                pattern: vec![Pattern::List { location: span(), elements: vec![], tail: None }],
                body: int_expr("0"),
            },
            Clause {
                location: span(),
                pattern: vec![Pattern::List {
                    location: span(),
                    elements: vec![Pattern::Var { location: span(), name: "x".to_string() }],
                    tail: Some(Box::new(Pattern::Var {
                        location: span(),
                        name: "rest".to_string(),
                    })),
                }],
                body: local("x", int_type()),
            },
        ],
    };
    let _ = xs_type;
    let subject = "__subject_name_1";
    let head = apply(
        builtin(DefaultFunction::UnIData),
        apply(force(builtin(DefaultFunction::HeadList)), var(subject, 0)),
    );
    let tail = apply(force(builtin(DefaultFunction::TailList)), var(subject, 0));
    let cons_case = apply(
        lambda("x", 1, apply(lambda("rest", 2, var("x", 1)), tail)),
        head,
    );
    let choose = apply(
        apply(
            apply(force(force(builtin(DefaultFunction::ChooseList))), var(subject, 0)),
            delay(integer(0)),
        ),
        delay(cons_case),
    );
    let expected = apply(lambda(subject, 0, force(choose)), var("xs", 3));
    assert_eq!(term_of(body), Ok(expected));
}

#[test]
fn record_update_is_unsupported() {
    let body = TypedExpr::RecordUpdate {
        location: span(),
        tipo: int_type(),
        spread: Box::new(int_expr("1")),
        args: vec![],
    };
    assert_eq!(term_of(body), Err(Halt::Unsupported));
}

#[test]
fn string_pattern_is_unsupported() {
    let body = TypedExpr::When {
        location: span(),
        tipo: int_type(),
        subjects: vec![local("s", Type::plain("String"))],
        clauses: vec![Clause {
            location: span(),
            pattern: vec![Pattern::String { location: span(), value: "a".to_string() }],
            body: int_expr("1"),
        }],
    };
    assert_eq!(term_of(body), Err(Halt::Unsupported));
}

#[test]
fn var_usage_pattern_is_unsupported() {
    let body = TypedExpr::Assignment {
        location: span(),
        tipo: int_type(),
        value: Box::new(int_expr("1")),
        pattern: Pattern::VarUsage { location: span(), name: "a".to_string(), tipo: int_type() },
        kind: AssignmentKind::Let,
    };
    assert_eq!(term_of(body), Err(Halt::Unsupported));
}

#[test]
fn match_without_clauses_is_impossible() {
    let body = TypedExpr::When {
        location: span(),
        tipo: int_type(),
        subjects: vec![int_expr("1")],
        clauses: vec![],
    };
    assert_eq!(term_of(body), Err(Halt::ImpossibleShape));
}

#[test]
fn constructor_of_unknown_data_type_is_missing() {
    let body = TypedExpr::When {
        location: span(),
        tipo: int_type(),
        subjects: vec![local("b", bool2_type())],
        clauses: vec![Clause {
            location: span(),
            pattern: vec![constructor_pattern("A")],
            body: int_expr("1"),
        }],
    };
    assert_eq!(term_of(body), Err(Halt::Missing));
}

fn generic(id: u64) -> Type {
    Type::Var { tipo: TypeVar::Generic { id } }
}

fn identity_function() -> (FunctionAccessKey, TypedFunction) {
    (
        FunctionAccessKey {
            module_name: "m".to_string(),
            function_name: "id".to_string(),
            variant_name: String::new(),
        },
        TypedFunction {
            name: "id".to_string(),
            arguments: vec![TypedArg {
                arg_name: ArgName::Named { name: "a".to_string(), location: span() },
                location: span(),
                tipo: generic(0),
            }],
            body: local("a", generic(0)),
            public: true,
            location: span(),
            return_type: generic(0),
        },
    )
}

fn call_id(argument: TypedExpr, tipo: Type) -> TypedExpr {
    let function_type = Type::Fn { args: vec![copy_type(&tipo)], ret: Box::new(copy_type(&tipo)) };
    TypedExpr::Call {
        location: span(),
        tipo,
        fun: Box::new(TypedExpr::Var {
            location: span(),
            constructor: ValueConstructor::public(
                function_type,
                ValueConstructorVariant::ModuleFn {
                    name: "id".to_string(),
                    field_map: None,
                    module: "m".to_string(),
                    arity: 1,
                    location: span(),
                    builtin: None,
                },
            ),
            name: "id".to_string(),
        }),
        args: vec![CallArg { label: None, location: span(), value: argument }],
    }
}

fn copy_type(tipo: &Type) -> Type {
    tipo.duplicate()
}

#[test]
fn polymorphic_function_used_at_two_types() {
    let functions = vec![identity_function()];
    let data_types = vec![];
    let module_types: Vec<(String, TypeInfo)> = vec![];
    let mut generator = CodeGenerator::new(&functions, &data_types, &module_types);
    let body = TypedExpr::Sequence {
        location: span(),
        expressions: vec![
            call_id(int_expr("1"), int_type()),
            call_id(
                TypedExpr::ByteArray { location: span(), tipo: bytes_type(), bytes: vec![1, 2] },
                bytes_type(),
            ),
        ],
    };
    let ir = generator.lower(&body).unwrap();
    let definitions: Vec<String> = ir
        .iter()
        .filter_map(|air| match air {
            Air::DefineFunc { variant_name, .. } => Some(variant_name.clone()),
            _ => None,
        })
        .collect();
    let uses: Vec<String> = ir
        .iter()
        .filter_map(|air| match air {
            Air::Var { constructor, variant_name, .. } => match constructor.variant {
                ValueConstructorVariant::ModuleFn { .. } => Some(variant_name.clone()),
                _ => None,
            },
            _ => None,
        })
        .collect();
    assert_eq!(definitions.len(), 2);
    assert_ne!(definitions[0], definitions[1]);
    assert!(definitions.contains(&"_int".to_string()));
    assert!(definitions.contains(&"_data".to_string()));
    assert_eq!(uses, vec!["_int".to_string(), "_data".to_string()]);
}

fn lowered_with_identity() -> Vec<Air> {
    let functions = vec![identity_function()];
    let data_types = vec![];
    let module_types: Vec<(String, TypeInfo)> = vec![];
    let mut generator = CodeGenerator::new(&functions, &data_types, &module_types);
    let body = TypedExpr::Sequence {
        location: span(),
        expressions: vec![
            call_id(int_expr("1"), int_type()),
            call_id(int_expr("2"), int_type()),
            call_id(
                TypedExpr::ByteArray { location: span(), tipo: bytes_type(), bytes: vec![1, 2] },
                bytes_type(),
            ),
        ],
    };
    generator.lower(&body).unwrap()
}

#[test]
fn every_definition_encloses_the_uses_of_its_function() {
    let ir = lowered_with_identity();
    let mut definitions = 0;
    for air in &ir {
        if let Air::DefineFunc { scope, func_name, module_name, variant_name, .. } = air {
            definitions += 1;
            let mut uses = 0;
            for other in &ir {
                if let Air::Var { scope: used_in, constructor, variant_name: used_variant, .. } =
                    other
                {
                    if let ValueConstructorVariant::ModuleFn { name, module, builtin: None, .. } =
                        &constructor.variant
                    {
                        if name == func_name && module == module_name && used_variant == variant_name
                        {
                            uses += 1;
                            assert!(used_in.starts_with(scope), "{scope:?} {used_in:?}");
                        }
                    }
                }
            }
            assert!(uses > 0);
        }
    }
    assert_eq!(definitions, 2);
}

#[test]
fn every_instruction_stands_below_the_root_scope() {
    let ir = lowered_with_identity();
    assert!(!ir.is_empty());
    let root = ir[0].scope()[0];
    for air in &ir {
        let scope = air.scope();
        assert!(!scope.is_empty());
        assert_eq!(scope[0], root);
    }
}

#[test]
fn every_function_that_is_used_is_known_afterwards() {
    let functions = vec![identity_function()];
    let data_types = vec![];
    let module_types: Vec<(String, TypeInfo)> = vec![];
    let mut generator = CodeGenerator::new(&functions, &data_types, &module_types);
    let body = TypedExpr::Sequence {
        location: span(),
        expressions: vec![
            call_id(int_expr("1"), int_type()),
            call_id(
                TypedExpr::ByteArray { location: span(), tipo: bytes_type(), bytes: vec![1, 2] },
                bytes_type(),
            ),
        ],
    };
    let ir = generator.lower(&body).unwrap();
    let mut uses = 0;
    for air in &ir {
        if let Air::Var { constructor, variant_name, .. } = air {
            if let ValueConstructorVariant::ModuleFn { name, module, builtin: None, .. } =
                &constructor.variant
            {
                uses += 1;
                let defined = generator.defined_functions.iter().any(|key| {
                    &key.function_name == name
                        && &key.module_name == module
                        && &key.variant_name == variant_name
                });
                let without_parameters = generator.zero_arg_functions.iter().any(|function| {
                    &function.key.function_name == name
                        && &function.key.module_name == module
                        && &function.key.variant_name == variant_name
                });
                assert!(defined || without_parameters);
                let definitions = ir
                    .iter()
                    .filter(|other| match other {
                        Air::DefineFunc { func_name, module_name, variant_name: defined, .. } => {
                            func_name == name && module_name == module && defined == variant_name
                        }
                        _ => false,
                    })
                    .count();
                assert_eq!(definitions, 1);
            }
        }
    }
    assert_eq!(uses, 2);
}
