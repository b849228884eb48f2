use aiken_lang::air::Air;
use aiken_lang::ast::BinOp;
use aiken_lang::error::Halt;
use aiken_lang::generator::CodeGenerator;
use aiken_lang::term::{DefaultFunction, Name, Term, Unique, UplcConstant};
use aiken_lang::tipo::{Type, ValueConstructor};

fn int_type() -> Type {
    Type::plain("Int")
}

fn var(text: &str) -> Term {
    Term::Var(Name { text: text.to_string(), unique: Unique(0) })
}

fn apply(function: Term, argument: Term) -> Term {
    Term::Apply { function: Box::new(function), argument: Box::new(argument) }
}

fn lambda(name: &str, body: Term) -> Term {
    Term::Lambda {
        parameter_name: Name { text: name.to_string(), unique: Unique(0) },
        body: Box::new(body),
    }
}

fn integer(value: i128) -> Term {
    Term::Constant(UplcConstant::Integer(value))
}

fn synthesize(mut ir: Vec<Air>) -> Result<Term, Halt> {
    let functions = vec![];
    let data_types = vec![];
    let module_types = vec![];
    let mut generator = CodeGenerator::new(&functions, &data_types, &module_types);
    generator.uplc_code_gen(&mut ir)
}

#[test]
fn integer_literal_becomes_a_constant() {
    let ir = vec![Air::Int { scope: vec![0], value: "42".to_string() }];
    assert_eq!(synthesize(ir), Ok(integer(42)));
}

#[test]
fn negative_integer_literal() {
    let ir = vec![Air::Int { scope: vec![0], value: "-7".to_string() }];
    assert_eq!(synthesize(ir), Ok(integer(-7)));
}

#[test]
fn unreadable_integer_literal_is_malformed() {
    let ir = vec![Air::Int { scope: vec![0], value: "4x".to_string() }];
    assert_eq!(synthesize(ir), Err(Halt::Malformed));
}

#[test]
fn addition_applies_the_builtin_to_both_operands() {
    let ir = vec![
        Air::BinOp { scope: vec![0], name: BinOp::AddInt, count: 2, tipo: int_type() },
        Air::Int { scope: vec![0, 1], value: "1".to_string() },
        Air::Int { scope: vec![0, 2], value: "2".to_string() },
    ];
    assert_eq!(
        synthesize(ir),
        Ok(apply(apply(Term::Builtin(DefaultFunction::AddInteger), integer(1)), integer(2)))
    );
}

#[test]
fn identity_function_applied() {
    let ir = vec![
        Air::Call { scope: vec![0], count: 1 },
        Air::Fn { scope: vec![0, 1], params: vec!["x".to_string()] },
        Air::Var {
            scope: vec![0, 1, 2],
            constructor: ValueConstructor::local(int_type()),
            name: "x".to_string(),
            variant_name: String::new(),
        },
        Air::Int { scope: vec![0, 3], value: "7".to_string() },
    ];
    assert_eq!(synthesize(ir), Ok(apply(lambda("x", var("x")), integer(7))));
}

#[test]
fn operand_missing_is_malformed() {
    let ir = vec![
        Air::BinOp { scope: vec![0], name: BinOp::AddInt, count: 2, tipo: int_type() },
        Air::Int { scope: vec![0, 1], value: "1".to_string() },
    ];
    assert_eq!(synthesize(ir), Err(Halt::Malformed));
}

#[test]
fn empty_program_is_malformed() {
    assert_eq!(synthesize(vec![]), Err(Halt::Malformed));
}
