use n3::ast::fmt::FmtGuard;
use n3::ast::types::Operator;
use n3::ast::uses::{Use, UseBy};
use n3::ast::value::{Expr, RefVariable, Value, Variable};
use n3::ast::value_text::format_i64;

#[test]
fn values_as_text() {
    assert_eq!(Value::Bool(true).to_text(), "yes");
    assert_eq!(Value::Bool(false).to_text(), "no");
    assert_eq!(Value::UInt(42).to_text(), "42");
    assert_eq!(Value::Int(-42).to_text(), "-42");
    assert_eq!(Value::String("a\"b".to_string()).to_text(), "\"a\\\"b\"");
    assert_eq!(Value::Node("LeNet5".to_string()).to_text(), "LeNet5");
    let list = Value::List(vec![Value::UInt(1), Value::Int(-2)]);
    assert_eq!(list.to_text(), "[1, -2, ]");
    let dict = Value::Dict(vec![("a".to_string(), Some(Value::UInt(1))), ("b".to_string(), None)]);
    assert_eq!(dict.to_text(), "{a: 1, b, }");
    let var = Variable::with_name_value("w".to_string(), Some(Value::UInt(3)));
    assert_eq!(Value::Variable(RefVariable(Box::new(var))).to_text(), "w=3");
    let sum = Expr { op: Operator::Add, lhs: Value::UInt(1), rhs: Some(Value::UInt(2)) };
    assert_eq!(Value::Expr(Box::new(sum)).to_text(), "(1 + 2)");
    let neg = Expr { op: Operator::Neg, lhs: Value::UInt(5), rhs: None };
    assert_eq!(Value::Expr(Box::new(neg)).to_text(), "-5");
}

#[test]
fn numbers_round_trip_through_text() {
    for x in [0i64, 7, -7, i64::MIN, i64::MAX] {
        assert_eq!(format_i64(x), x.to_string());
        assert_eq!(n3::text::parse_i64(&format_i64(x)), Some(x));
    }
    for x in [0u64, 10, u64::MAX] {
        assert_eq!(n3::text::parse_u64(&Value::UInt(x).to_text()), Some(x));
    }
}

#[test]
fn uses_as_text() {
    let local = Use { name: "Conv2d".to_string(), by: UseBy::Local };
    assert_eq!(local.to_text(), "use Conv2d\n");
    let repo = Use { name: "Conv2d".to_string(), by: UseBy::Repo { author: "kerryeon".to_string() } };
    assert_eq!(repo.to_text(), "use Conv2d by kerryeon\n");
    let web = Use { name: "Conv2d".to_string(), by: UseBy::Web { source: "http://x".to_string() } };
    assert_eq!(web.to_text(), "use Conv2d by \"http://x\"\n");
}

#[test]
fn indents_grow_with_depth() {
    let value = 1u8;
    let top = FmtGuard::new(&value);
    assert_eq!(top.indent(), "");
    let child = top.child(&value);
    let grandchild = child.child(&value);
    assert_eq!(child.indent(), "    ");
    assert_eq!(grandchild.indent(), "        ");
    assert_eq!(*grandchild.inner(), 1);
}
