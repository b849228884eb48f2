use aiken_lang::ast::{AssignmentKind, DefinitionLocation, IfBranch, Pattern, Span};
use aiken_lang::expr::TypedExpr;
use aiken_lang::tipo::{ModuleValueConstructor, Type, ValueConstructor, ValueConstructorVariant};

fn at(start: usize, end: usize) -> Span {
    Span { start, end }
}

fn int_type() -> Type {
    Type::plain("Int")
}

fn number(value: &str, location: Span) -> TypedExpr {
    TypedExpr::Int { location, tipo: int_type(), value: value.to_string() }
}

fn text(value: &str, location: Span) -> TypedExpr {
    TypedExpr::String { location, tipo: Type::plain("String"), value: value.to_string() }
}

fn local(name: &str, tipo: Type, used: Span, defined: Span) -> TypedExpr {
    TypedExpr::Var {
        location: used,
        constructor: ValueConstructor::public(
            tipo,
            ValueConstructorVariant::LocalVariable { location: defined },
        ),
        name: name.to_string(),
    }
}

#[test]
fn an_expression_has_the_type_it_carries() {
    assert_eq!(number("1", at(0, 1)).tipo(), int_type());
    assert_eq!(text("a", at(0, 3)).tipo(), Type::plain("String"));
    assert_eq!(local("x", Type::plain("Bool"), at(0, 1), at(5, 6)).tipo(), Type::plain("Bool"));
}

#[test]
fn a_block_has_the_type_of_its_last_expression() {
    let block = TypedExpr::Sequence {
        location: at(0, 9),
        expressions: vec![number("1", at(0, 1)), text("a", at(3, 6))],
    };
    assert_eq!(block.tipo(), Type::plain("String"));
    let empty = TypedExpr::Sequence { location: at(0, 0), expressions: vec![] };
    assert_eq!(empty.tipo(), Type::plain("Void"));
}

#[test]
fn a_trace_has_the_type_of_what_follows() {
    let trace = TypedExpr::Trace {
        location: at(0, 9),
        tipo: Type::plain("Void"),
        then: Box::new(number("1", at(8, 9))),
        text: None,
    };
    assert_eq!(trace.tipo(), int_type());
}

#[test]
fn literals_are_told_from_other_expressions() {
    assert!(number("1", at(0, 1)).is_literal());
    assert!(text("a", at(0, 3)).is_literal());
    assert!(TypedExpr::ByteArray { location: at(0, 1), tipo: Type::plain("ByteArray"), bytes: vec![] }
        .is_literal());
    assert!(TypedExpr::Tuple { location: at(0, 1), tipo: Type::Tuple { elems: vec![] }, elems: vec![] }
        .is_literal());
    assert!(TypedExpr::List {
        location: at(0, 1),
        tipo: int_type(),
        elements: vec![],
        tail: None
    }
    .is_literal());
    assert!(!local("x", int_type(), at(0, 1), at(5, 6)).is_literal());
}

#[test]
fn assignments_are_told_from_other_expressions() {
    let assignment = TypedExpr::Assignment {
        location: at(0, 9),
        tipo: int_type(),
        value: Box::new(number("1", at(8, 9))),
        pattern: Pattern::Var { location: at(4, 5), name: "x".to_string() },
        kind: AssignmentKind::Let,
    };
    assert!(assignment.is_assignment());
    assert!(!assignment.is_literal());
    assert!(!number("1", at(0, 1)).is_assignment());
}

#[test]
fn an_expression_is_located_where_it_stands() {
    assert_eq!(number("1", at(4, 5)).location(), at(4, 5));
    let block = TypedExpr::Sequence {
        location: at(0, 9),
        expressions: vec![number("1", at(0, 1)), text("a", at(3, 6))],
    };
    assert_eq!(block.location(), at(0, 9));
}

#[test]
fn a_block_gets_its_type_from_its_last_expression() {
    let block = TypedExpr::Sequence {
        location: at(0, 9),
        expressions: vec![number("1", at(0, 1)), text("a", at(3, 6))],
    };
    assert_eq!(block.type_defining_location(), at(3, 6));
    let empty = TypedExpr::Sequence { location: at(2, 2), expressions: vec![] };
    assert_eq!(empty.type_defining_location(), at(2, 2));
    assert_eq!(number("1", at(4, 5)).type_defining_location(), at(4, 5));
}

#[test]
fn a_conditional_gets_its_type_from_its_first_branch() {
    let inner = TypedExpr::Sequence {
        location: at(10, 20),
        expressions: vec![number("1", at(11, 12)), number("2", at(14, 15))],
    };
    let conditional = TypedExpr::If {
        location: at(0, 40),
        branches: vec![
            IfBranch {
                condition: local("c", Type::plain("Bool"), at(3, 4), at(0, 0)),
                body: inner,
                location: at(3, 20),
            },
            IfBranch {
                condition: local("d", Type::plain("Bool"), at(23, 24), at(0, 0)),
                body: number("3", at(26, 27)),
                location: at(23, 28),
            },
        ],
        final_else: Box::new(number("4", at(35, 36))),
        tipo: int_type(),
    };
    assert_eq!(conditional.type_defining_location(), at(14, 15));
    assert_eq!(conditional.location(), at(0, 40));
}

#[test]
fn a_local_variable_is_defined_in_no_module() {
    let variable = local("x", int_type(), at(9, 10), at(4, 5));
    assert_eq!(
        variable.definition_location(),
        Some(DefinitionLocation { module: None, span: at(4, 5) })
    );
}

#[test]
fn a_function_of_a_module_is_defined_in_that_module() {
    let function = TypedExpr::Var {
        location: at(9, 10),
        constructor: ValueConstructor::public(
            int_type(),
            ValueConstructorVariant::ModuleFn {
                name: "f".to_string(),
                field_map: None,
                module: "m".to_string(),
                arity: 0,
                location: at(40, 45),
                builtin: None,
            },
        ),
        name: "f".to_string(),
    };
    assert_eq!(
        function.definition_location(),
        Some(DefinitionLocation { module: Some("m"), span: at(40, 45) })
    );
}

#[test]
fn a_selected_name_is_defined_in_the_module_it_is_selected_from() {
    let selected = TypedExpr::ModuleSelect {
        location: at(0, 7),
        tipo: int_type(),
        label: "f".to_string(),
        module_name: "a/b".to_string(),
        module_alias: "b".to_string(),
        constructor: ModuleValueConstructor::Fn {
            location: at(70, 75),
            module: "a/b".to_string(),
            name: "f".to_string(),
        },
    };
    assert_eq!(
        selected.definition_location(),
        Some(DefinitionLocation { module: Some("a/b"), span: at(70, 75) })
    );
}

#[test]
fn a_literal_has_no_definition() {
    assert_eq!(number("1", at(0, 1)).definition_location(), None);
}
