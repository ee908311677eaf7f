use iona::compiler_errors::ProblemClass;
use iona::function_table::FunctionTable;
use iona::lex::lex;
use iona::parse::{FunctionData, PrimitiveDataType, Variable};
use iona::parse_expressions::{
    is_float_literal, parse_expression, parse_int, push_fn_to_stack, Expression, Literal, Object,
    Operator,
};

fn table_with(names: &[(&str, usize)]) -> FunctionTable {
    let mut t = FunctionTable::new();
    for (name, arity) in names {
        let mut d = FunctionData::new();
        for i in 0..*arity {
            d.args.push(Variable {
                name: format!("p{}", i),
                data_type: PrimitiveDataType::Int,
                value: None,
            });
        }
        t.insert(name.to_string(), d);
    }
    t
}

fn call_name(o: &Object) -> String {
    match o {
        Object::Operation(Expression::Prefix { op: Operator::Function { name }, args }) => {
            assert!(args.is_empty());
            name.clone()
        }
        _ => panic!("expected a call"),
    }
}

#[test]
fn prefix_addition_of_locals() {
    let table = table_with(&[("a", 0), ("b", 0)]);
    let tokens = lex("+ a b");
    match parse_expression(&tokens, &table).unwrap() {
        Object::Operation(Expression::Prefix { op: Operator::Add, args }) => {
            assert_eq!(args.len(), 2);
            assert_eq!(call_name(&args[0]), "a");
            assert_eq!(call_name(&args[1]), "b");
        }
        _ => panic!("expected an addition"),
    }
}

#[test]
fn missing_operand() {
    let table = table_with(&[("a", 0), ("b", 0)]);
    let e = parse_expression(&lex("+ a"), &table).err().unwrap();
    assert_eq!(e.class, ProblemClass::Error);
    assert!(e.message.starts_with("not enough arguments"));
    assert_eq!(e.message, "not enough arguments when calling function +");
    assert_eq!((e.line, e.word_index), (0, 0));
    let infix = parse_expression(&lex("a + b"), &table).err().unwrap();
    assert!(infix.message.starts_with("not enough arguments"));
}

#[test]
fn nested_calls_and_literals() {
    let table = table_with(&[("max", 2)]);
    let tokens = lex("max * 2 3 - 10 4.5");
    match parse_expression(&tokens, &table).unwrap() {
        Object::Operation(Expression::Prefix { op: Operator::Function { name }, args }) => {
            assert_eq!(name, "max");
            assert_eq!(args.len(), 2);
            match &args[0] {
                Object::Operation(Expression::Prefix { op: Operator::Multiply, args }) => {
                    assert!(matches!(args[0], Object::Value(Literal::Int(2))));
                    assert!(matches!(args[1], Object::Value(Literal::Int(3))));
                }
                _ => panic!("expected a product"),
            }
            match &args[1] {
                Object::Operation(Expression::Prefix { op: Operator::Subtract, args }) => {
                    assert!(matches!(args[0], Object::Value(Literal::Int(10))));
                    match &args[1] {
                        Object::Value(Literal::Float(t)) => assert_eq!(t, "4.5"),
                        _ => panic!("expected a float"),
                    }
                }
                _ => panic!("expected a difference"),
            }
        }
        _ => panic!("expected a call"),
    }
}

#[test]
fn expression_errors() {
    let table = table_with(&[]);
    let empty = parse_expression(&Vec::new(), &table).err().unwrap();
    assert_eq!(empty.message, "empty expression");
    let many = parse_expression(&lex("1 2"), &table).err().unwrap();
    assert_eq!(many.message, "too many arguments: objects left on the expression stack after parsing");
    assert_eq!(many.word_index, 1);
    let unknown = parse_expression(&lex("+ 1 zed"), &table).err().unwrap();
    assert_eq!(unknown.message, "unrecognized value zed");
    assert_eq!((unknown.line, unknown.word_index), (0, 2));
    let sym = parse_expression(&lex("1 < 2"), &table).err().unwrap();
    assert_eq!(sym.message, "unimplemented symbol found in expression");
    let value = parse_expression(&lex("true"), &table).unwrap();
    assert!(matches!(value, Object::Value(Literal::Bool(true))));
}

#[test]
fn literal_forms() {
    assert!(matches!(Literal::from_str("false"), Ok(Literal::Bool(false))));
    match Literal::from_str("\"hi\"") {
        Ok(Literal::Str(s)) => assert_eq!(s, "\"hi\""),
        _ => panic!("expected a string"),
    }
    assert_eq!(
        Literal::from_str("\"hi").err().unwrap().message,
        "a string literal had an unclosed parenthesis"
    );
    match Literal::from_str("\"") {
        Ok(Literal::Str(s)) => assert_eq!(s, "\""),
        _ => panic!("expected a string"),
    }
    let unopened = Literal::from_str("hi\"").err().unwrap();
    assert_eq!(unopened.message, "a string literal had an unopened parenthesis");
    assert_eq!(
        unopened.hint,
        "if this isn't a string, remove the closing parenthesis, otherwise, close the parenthesis"
    );
    assert!(matches!(Literal::from_str("-42"), Ok(Literal::Int(-42))));
    assert!(matches!(Literal::from_str("+7"), Ok(Literal::Int(7))));
    assert!(matches!(Literal::from_str("1e3"), Ok(Literal::Float(_))));
    assert!(matches!(Literal::from_str("x1"), Err(_)));
}

#[test]
fn integer_and_float_syntax() {
    assert_eq!(parse_int("9223372036854775807"), Some(i64::MAX));
    assert_eq!(parse_int("-9223372036854775808"), Some(i64::MIN));
    assert_eq!(parse_int("9223372036854775808"), None);
    assert_eq!(parse_int("-9223372036854775809"), None);
    assert_eq!(parse_int("99999999999999999999999"), None);
    assert_eq!(parse_int("0"), Some(0));
    assert_eq!(parse_int("-"), None);
    assert_eq!(parse_int(""), None);
    assert_eq!(parse_int("12a"), None);
    for text in ["1.5", ".5", "5.", "-2.5e-3", "1E10", "inf", "-Infinity", "NaN", "+3"] {
        assert!(is_float_literal(text), "{}", text);
        assert!(text.parse::<f64>().is_ok(), "{}", text);
    }
    for text in [".", "e5", "1e", "1.2.3", "abc", "", "1e+", "--1", "in"] {
        assert!(!is_float_literal(text), "{}", text);
        assert!(text.parse::<f64>().is_err(), "{}", text);
    }
}

#[test]
fn operators_and_binding_power() {
    assert_eq!(Operator::Add.binding_power(), 20);
    assert_eq!(Operator::Subtract.binding_power(), 20);
    assert_eq!(Operator::Multiply.binding_power(), 30);
    assert_eq!(Operator::Divide.binding_power(), 30);
    assert_eq!(Operator::Negate.binding_power(), 40);
    assert_eq!(Operator::Inverse.binding_power(), 40);
    assert_eq!(Operator::Function { name: "f".to_string() }.binding_power(), 10);
    assert_eq!(Operator::from_symbol(iona::lex::Symbol::OpDiv), Some(Operator::Divide));
    assert_eq!(Operator::from_symbol(iona::lex::Symbol::OpExp), None);
    let e = Expression::Prefix { op: Operator::Multiply, args: Vec::new() };
    assert_eq!(e.get_bp(), 30);
}

#[test]
fn push_fn_to_stack_pops_in_source_order() {
    let tokens = lex("-");
    let mut stack = vec![Object::Value(Literal::Int(2)), Object::Value(Literal::Int(1))];
    assert!(push_fn_to_stack(&tokens[0], Operator::Subtract, 2, &mut stack).is_none());
    assert_eq!(stack.len(), 1);
    match &stack[0] {
        Object::Operation(Expression::Prefix { op: Operator::Subtract, args }) => {
            assert!(matches!(args[0], Object::Value(Literal::Int(1))));
            assert!(matches!(args[1], Object::Value(Literal::Int(2))));
        }
        _ => panic!("expected a difference"),
    }
    let e = push_fn_to_stack(&tokens[0], Operator::Subtract, 2, &mut stack).unwrap();
    assert_eq!(e.message, "not enough arguments when calling function -");
    assert_eq!(stack.len(), 1);
}
