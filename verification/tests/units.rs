use aiken_lang::ast::{BinOp, Span, TypedDataType, TypedFunction};
use aiken_lang::builder::{get_common_ancestor, DataTypeKey, FunctionAccessKey};
use aiken_lang::expr::TypedExpr;
use aiken_lang::generator::{
    data_types_are_distinct, functions_are_distinct, module_values_are_distinct,
    modules_are_distinct, CodeGenerator,
};
use aiken_lang::id_gen::IdGenerator;
use aiken_lang::interner::Interner;
use aiken_lang::maps::KeyedMap;
use aiken_lang::synth::labels_in_order;
use aiken_lang::term::{Name, Program, Term, Unique, UplcType};
use aiken_lang::text::{join, join3, number_text, numbered, parse_integer};
use aiken_lang::tipo::{Field, Type, TypeInfo, TypeVar, ValueConstructor};
use aiken_lang::untyped::UntypedExpr;

fn key(function: &str) -> FunctionAccessKey {
    FunctionAccessKey {
        module_name: "m".to_string(),
        function_name: function.to_string(),
        variant_name: String::new(),
    }
}

fn keys_of(map: &KeyedMap<u64>) -> Vec<String> {
    (0..map.len()).map(|at| map.key_at(at).function_name).collect()
}

fn values_of(map: &KeyedMap<u64>) -> Vec<u64> {
    (0..map.len()).map(|at| *map.value_at(at)).collect()
}

fn three_entries() -> KeyedMap<u64> {
    let mut map: KeyedMap<u64> = KeyedMap::new();
    map.insert(&key("a"), 10);
    map.insert(&key("b"), 20);
    map.insert(&key("c"), 30);
    map
}

#[test]
fn a_new_map_is_empty() {
    let map: KeyedMap<u64> = KeyedMap::new();
    assert_eq!(map.len(), 0);
    assert_eq!(map.get(&key("a")), None);
    assert!(!map.contains_key(&key("a")));
}

#[test]
fn a_map_keeps_the_order_of_insertion() {
    let map = three_entries();
    assert_eq!(map.len(), 3);
    assert_eq!(keys_of(&map), vec!["a", "b", "c"]);
    assert_eq!(values_of(&map), vec![10, 20, 30]);
    assert_eq!(map.get(&key("b")), Some(&20));
    assert!(map.contains_key(&key("c")));
    assert!(!map.contains_key(&key("d")));
}

#[test]
fn a_second_insert_replaces_the_value_in_place() {
    let mut map = three_entries();
    map.insert(&key("a"), 11);
    assert_eq!(map.len(), 3);
    assert_eq!(keys_of(&map), vec!["a", "b", "c"]);
    assert_eq!(values_of(&map), vec![11, 20, 30]);
}

#[test]
fn keys_differ_by_each_of_their_parts() {
    let mut map: KeyedMap<u64> = KeyedMap::new();
    map.insert(&key("f"), 1);
    map.insert(
        &FunctionAccessKey {
            module_name: "m".to_string(),
            function_name: "f".to_string(),
            variant_name: "_int".to_string(),
        },
        2,
    );
    map.insert(
        &FunctionAccessKey {
            module_name: "n".to_string(),
            function_name: "f".to_string(),
            variant_name: String::new(),
        },
        3,
    );
    assert_eq!(map.len(), 3);
    assert_eq!(map.get(&key("f")), Some(&1));
    assert_eq!(map.key_at(1).variant_name, "_int");
    assert_eq!(map.key_at(2).module_name, "n");
}

#[test]
fn shift_remove_moves_the_later_entries_up() {
    let mut map = three_entries();
    map.shift_remove(&key("a"));
    assert_eq!(keys_of(&map), vec!["b", "c"]);
    assert_eq!(values_of(&map), vec![20, 30]);
    assert_eq!(map.get(&key("a")), None);
}

#[test]
fn remove_puts_the_last_entry_in_the_gap() {
    let mut map = three_entries();
    map.remove(&key("a"));
    assert_eq!(keys_of(&map), vec!["c", "b"]);
    assert_eq!(values_of(&map), vec![30, 20]);
    assert_eq!(map.get(&key("c")), Some(&30));
}

#[test]
fn removing_an_absent_key_changes_nothing() {
    let mut map = three_entries();
    map.remove(&key("z"));
    map.shift_remove(&key("z"));
    assert_eq!(keys_of(&map), vec!["a", "b", "c"]);
    assert_eq!(values_of(&map), vec![10, 20, 30]);
}

#[test]
fn a_map_can_be_filled_again_after_removals() {
    let mut map = three_entries();
    map.remove(&key("b"));
    map.insert(&key("d"), 40);
    map.shift_remove(&key("a"));
    map.insert(&key("a"), 50);
    assert_eq!(keys_of(&map), vec!["c", "d", "a"]);
    assert_eq!(values_of(&map), vec![30, 40, 50]);
}

fn field(label: &str, index: usize) -> Field {
    Field { label: label.to_string(), index, location: Span { start: 0, end: 0 } }
}

#[test]
fn labels_come_in_the_order_of_their_positions() {
    let fields = vec![field("c", 2), field("a", 0), field("b", 1)];
    assert_eq!(labels_in_order(&fields), vec!["a", "b", "c"]);
}

#[test]
fn labels_at_one_position_keep_their_order() {
    let fields = vec![field("x", 1), field("first", 0), field("second", 0)];
    assert_eq!(labels_in_order(&fields), vec!["first", "second", "x"]);
}

#[test]
fn identifiers_count_up_from_zero() {
    let mut ids = IdGenerator::new();
    assert_eq!(ids.next(), 0);
    assert_eq!(ids.next(), 1);
    assert_eq!(ids.take(3), vec![2, 3, 4]);
    assert_eq!(ids.next(), 5);
}

#[test]
fn taking_no_identifier_leaves_the_generator_alone() {
    let mut ids = IdGenerator::new();
    assert_eq!(ids.take(0), Vec::<u64>::new());
    assert_eq!(ids.next(), 0);
}

#[test]
fn common_ancestor_is_the_longest_common_prefix() {
    assert_eq!(get_common_ancestor(&vec![0, 1, 2], &vec![0, 1, 3, 4]), vec![0, 1]);
    assert_eq!(get_common_ancestor(&vec![0, 1], &vec![0, 1, 5]), vec![0, 1]);
    assert_eq!(get_common_ancestor(&vec![0, 1], &vec![0, 1]), vec![0, 1]);
    assert_eq!(get_common_ancestor(&vec![1, 2], &vec![3, 2]), Vec::<u64>::new());
    assert_eq!(get_common_ancestor(&vec![], &vec![3, 2]), Vec::<u64>::new());
}

#[test]
fn common_ancestor_does_not_depend_on_the_order() {
    let a = vec![0, 4, 7, 9];
    let b = vec![0, 4, 8];
    assert_eq!(get_common_ancestor(&a, &b), get_common_ancestor(&b, &a));
}

fn name(text: &str) -> Name {
    Name { text: text.to_string(), unique: Unique(0) }
}

fn numbered_name(text: &str, unique: isize) -> Name {
    Name { text: text.to_string(), unique: Unique(unique) }
}

#[test]
fn names_are_numbered_in_the_order_they_are_met() {
    let mut interner = Interner::new();
    assert_eq!(interner.intern(name("x")), numbered_name("x", 0));
    assert_eq!(interner.intern(name("y")), numbered_name("y", 1));
    assert_eq!(interner.intern(name("x")), numbered_name("x", 0));
    assert_eq!(interner.intern(name("z")), numbered_name("z", 2));
}

#[test]
fn a_term_has_equal_names_numbered_alike() {
    let term = Term::Lambda {
        parameter_name: name("f"),
        body: Box::new(Term::Lambda {
            parameter_name: name("x"),
            body: Box::new(Term::Apply {
                function: Box::new(Term::Var(name("f"))),
                argument: Box::new(Term::Var(name("x"))),
            }),
        }),
    };
    let mut interner = Interner::new();
    let program = interner.program(Program { version: (1, 0, 0), term });
    assert_eq!(program.version, (1, 0, 0));
    assert_eq!(
        program.term,
        Term::Lambda {
            parameter_name: numbered_name("f", 0),
            body: Box::new(Term::Lambda {
                parameter_name: numbered_name("x", 1),
                body: Box::new(Term::Apply {
                    function: Box::new(Term::Var(numbered_name("f", 0))),
                    argument: Box::new(Term::Var(numbered_name("x", 1))),
                }),
            }),
        }
    );
}

#[test]
fn numbers_are_written_in_base_ten() {
    assert_eq!(number_text(0), "0");
    assert_eq!(number_text(7), "7");
    assert_eq!(number_text(10), "10");
    assert_eq!(number_text(4096), "4096");
    assert_eq!(number_text(u64::MAX), "18446744073709551615");
    assert_eq!(numbered("__tail_", 12), "__tail_12");
}

#[test]
fn texts_are_joined_in_order() {
    assert_eq!(join("ab", "cd"), "abcd");
    assert_eq!(join3("a", "_", "b"), "a_b");
    assert_eq!(join("", ""), "");
}

#[test]
fn integer_literals_are_read_with_their_sign() {
    assert_eq!(parse_integer("0"), Some(0));
    assert_eq!(parse_integer("42"), Some(42));
    assert_eq!(parse_integer("-42"), Some(-42));
    assert_eq!(parse_integer("+42"), Some(42));
    assert_eq!(parse_integer("007"), Some(7));
    assert_eq!(
        parse_integer("170141183460469231731687303715884105727"),
        Some(i128::MAX)
    );
    assert_eq!(
        parse_integer("-170141183460469231731687303715884105728"),
        Some(i128::MIN)
    );
}

#[test]
fn what_is_no_integer_literal_is_not_read() {
    assert_eq!(parse_integer(""), None);
    assert_eq!(parse_integer("-"), None);
    assert_eq!(parse_integer("+"), None);
    assert_eq!(parse_integer("4x"), None);
    assert_eq!(parse_integer("1 "), None);
    assert_eq!(parse_integer("--1"), None);
    assert_eq!(parse_integer("170141183460469231731687303715884105728"), None);
    assert_eq!(parse_integer("-170141183460469231731687303715884105729"), None);
}

fn app(name: &str, args: Vec<Type>) -> Type {
    Type::App { public: true, module: String::new(), name: name.to_string(), args }
}

#[test]
fn types_are_told_apart_by_name() {
    assert!(Type::plain("Int").is_int());
    assert!(!Type::plain("Int").is_bool());
    assert!(Type::plain("ByteArray").is_bytearray());
    assert!(Type::plain("String").is_string());
    assert!(Type::plain("Bool").is_bool());
    assert!(Type::plain("Void").is_void());
    assert!(app("List", vec![Type::plain("Int")]).is_list());
    assert!(!app("List", vec![Type::plain("Int")]).is_map());
    assert!(Type::Tuple { elems: vec![Type::plain("Int"), Type::plain("Int")] }.is_tuple());
    assert!(!Type::plain("Int").is_tuple());
}

#[test]
fn a_list_of_pairs_is_a_map() {
    let pair = Type::Tuple { elems: vec![Type::plain("Int"), Type::plain("ByteArray")] };
    let triple = Type::Tuple {
        elems: vec![Type::plain("Int"), Type::plain("Int"), Type::plain("Int")],
    };
    assert!(pair.is_pair());
    assert!(!triple.is_pair());
    assert!(app("List", vec![pair]).is_map());
    assert!(!app("List", vec![triple]).is_map());
}

#[test]
fn generic_types_are_found_inside_other_types() {
    let generic = Type::Var { tipo: TypeVar::Generic { id: 3 } };
    assert!(generic.is_generic());
    assert_eq!(generic.get_generic(), Some(3));
    assert!(app("List", vec![Type::Var { tipo: TypeVar::Generic { id: 3 } }]).is_generic());
    assert!(!app("List", vec![Type::plain("Int")]).is_generic());
    assert_eq!(Type::plain("Int").get_generic(), None);
    let linked = Type::Var {
        tipo: TypeVar::Link { tipo: Box::new(Type::Var { tipo: TypeVar::Generic { id: 9 } }) },
    };
    assert!(linked.is_generic());
    assert_eq!(linked.get_generic(), Some(9));
}

#[test]
fn types_map_to_the_types_of_the_machine() {
    assert_eq!(Type::plain("Int").get_uplc_type(), UplcType::Integer);
    assert_eq!(Type::plain("ByteArray").get_uplc_type(), UplcType::ByteString);
    assert_eq!(Type::plain("String").get_uplc_type(), UplcType::String);
    assert_eq!(Type::plain("Bool").get_uplc_type(), UplcType::Bool);
    assert_eq!(Type::plain("Void").get_uplc_type(), UplcType::Data);
    assert_eq!(Type::plain("Thing").get_uplc_type(), UplcType::Data);
    assert_eq!(
        app("List", vec![Type::plain("Int")]).get_uplc_type(),
        UplcType::List(Box::new(UplcType::Data))
    );
    assert_eq!(
        app(
            "List",
            vec![Type::Tuple { elems: vec![Type::plain("Int"), Type::plain("Int")] }]
        )
        .get_uplc_type(),
        UplcType::List(Box::new(UplcType::Pair(
            Box::new(UplcType::Data),
            Box::new(UplcType::Data)
        )))
    );
    assert_eq!(
        Type::Tuple { elems: vec![Type::plain("Int"), Type::plain("Int")] }.get_uplc_type(),
        UplcType::Pair(Box::new(UplcType::Data), Box::new(UplcType::Data))
    );
    assert_eq!(
        Type::Tuple {
            elems: vec![Type::plain("Int"), Type::plain("Int"), Type::plain("Int")]
        }
        .get_uplc_type(),
        UplcType::List(Box::new(UplcType::Data))
    );
}

fn at(start: usize, end: usize) -> Span {
    Span { start, end }
}

fn number(value: &str, start: usize, end: usize) -> UntypedExpr {
    UntypedExpr::Int { location: at(start, end), value: value.to_string() }
}

#[test]
fn two_expressions_make_a_block() {
    let block = number("1", 0, 1).append_in_sequence(number("2", 3, 4));
    assert_eq!(
        block,
        UntypedExpr::Sequence {
            location: at(0, 4),
            expressions: vec![number("1", 0, 1), number("2", 3, 4)],
        }
    );
}

// A block is located where its last expression is, so a block that starts
// with a block starts where the last expression of that block does.
#[test]
fn two_blocks_make_one_block() {
    let first = number("1", 0, 1).append_in_sequence(number("2", 3, 4));
    let second = number("3", 6, 7).append_in_sequence(number("4", 9, 10));
    assert_eq!(
        first.append_in_sequence(second),
        UntypedExpr::Sequence {
            location: at(3, 10),
            expressions: vec![
                number("1", 0, 1),
                number("2", 3, 4),
                number("3", 6, 7),
                number("4", 9, 10),
            ],
        }
    );
}

#[test]
fn an_expression_goes_in_front_of_a_block() {
    let second = number("3", 6, 7).append_in_sequence(number("4", 9, 10));
    assert_eq!(
        number("1", 0, 1).append_in_sequence(second),
        UntypedExpr::Sequence {
            location: at(0, 10),
            expressions: vec![number("1", 0, 1), number("3", 6, 7), number("4", 9, 10)],
        }
    );
}

#[test]
fn a_block_followed_by_an_expression_is_nested() {
    let first = number("1", 0, 1).append_in_sequence(number("2", 3, 4));
    let inner = number("1", 0, 1).append_in_sequence(number("2", 3, 4));
    assert_eq!(
        first.append_in_sequence(number("3", 6, 7)),
        UntypedExpr::Sequence { location: at(3, 7), expressions: vec![inner, number("3", 6, 7)] }
    );
}

#[test]
fn operators_bind_as_tightly_as_their_kind() {
    let sum = UntypedExpr::BinOp {
        location: at(0, 5),
        name: BinOp::AddInt,
        left: Box::new(number("1", 0, 1)),
        right: Box::new(number("2", 4, 5)),
    };
    assert_eq!(sum.binop_precedence(), 6);
    assert_eq!(UntypedExpr::PipeLine { expressions: vec![number("1", 0, 1)] }.binop_precedence(), 5);
    assert_eq!(number("1", 0, 1).binop_precedence(), u8::MAX);
    assert_eq!(BinOp::Or.precedence(), 1);
    assert_eq!(BinOp::And.precedence(), 2);
    assert_eq!(BinOp::Eq.precedence(), 3);
    assert_eq!(BinOp::NotEq.precedence(), 3);
    assert_eq!(BinOp::LtInt.precedence(), 4);
    assert_eq!(BinOp::GtEqInt.precedence(), 4);
    assert_eq!(BinOp::SubInt.precedence(), 6);
    assert_eq!(BinOp::MultInt.precedence(), 7);
    assert_eq!(BinOp::ModInt.precedence(), 7);
}

#[test]
fn literals_are_simple_constants() {
    assert!(number("1", 0, 1).is_simple_constant());
    assert!(UntypedExpr::String { location: at(0, 3), value: "a".to_string() }
        .is_simple_constant());
    assert!(UntypedExpr::ByteArray { location: at(0, 3), bytes: vec![1] }.is_simple_constant());
    assert!(!UntypedExpr::Var { location: at(0, 1), name: "x".to_string() }.is_simple_constant());
}

#[test]
fn an_expression_starts_where_its_first_part_starts() {
    let sum = UntypedExpr::BinOp {
        location: at(4, 9),
        name: BinOp::AddInt,
        left: Box::new(number("1", 2, 3)),
        right: Box::new(number("2", 8, 9)),
    };
    assert_eq!(sum.location(), at(4, 9));
    assert_eq!(sum.start_byte_index(), 4);
    assert_eq!(number("1", 2, 3).start_byte_index(), 2);
    let block = number("1", 2, 3).append_in_sequence(number("2", 8, 9));
    assert_eq!(block.start_byte_index(), 2);
    assert_eq!(block.location(), at(8, 9));
}

#[test]
fn tables_with_a_key_twice_are_told_apart() {
    let function = || TypedFunction {
        name: "f".to_string(),
        arguments: vec![],
        body: TypedExpr::Int {
            location: Span { start: 0, end: 0 },
            tipo: Type::plain("Int"),
            value: "1".to_string(),
        },
        public: true,
        location: Span { start: 0, end: 0 },
        return_type: Type::plain("Int"),
    };
    assert!(functions_are_distinct(&vec![]));
    assert!(functions_are_distinct(&vec![(key("f"), function()), (key("g"), function())]));
    assert!(!functions_are_distinct(&vec![
        (key("f"), function()),
        (key("g"), function()),
        (key("f"), function())
    ]));

    let data_type = |module: &str, name: &str| {
        (
            DataTypeKey { module_name: module.to_string(), defined_type: name.to_string() },
            TypedDataType { name: name.to_string(), constructors: vec![] },
        )
    };
    assert!(data_types_are_distinct(&vec![data_type("m", "A"), data_type("n", "A")]));
    assert!(data_types_are_distinct(&vec![data_type("m", "A"), data_type("m", "B")]));
    assert!(!data_types_are_distinct(&vec![data_type("m", "A"), data_type("m", "A")]));

    let module = |name: &str| (name.to_string(), TypeInfo { name: name.to_string(), values: vec![] });
    assert!(modules_are_distinct(&vec![module("a"), module("b")]));
    assert!(!modules_are_distinct(&vec![module("a"), module("b"), module("a")]));

    let value = |name: &str| (name.to_string(), ValueConstructor::local(Type::plain("Int")));
    let with_values = |names: &[&str]| {
        (
            "m".to_string(),
            TypeInfo { name: "m".to_string(), values: names.iter().map(|n| value(n)).collect() },
        )
    };
    assert!(module_values_are_distinct(&vec![module("a"), with_values(&["x", "y"])]));
    assert!(!module_values_are_distinct(&vec![module("a"), with_values(&["x", "y", "x"])]));

    let functions = vec![(key("f"), function()), (key("f"), function())];
    let data_types = vec![];
    let modules = vec![];
    assert!(CodeGenerator::checked(&functions, &data_types, &modules)
        .is_none());
    let functions = vec![(key("f"), function()), (key("g"), function())];
    assert!(CodeGenerator::checked(&functions, &data_types, &modules)
        .is_some());
}
