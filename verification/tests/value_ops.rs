use n3::ast::types::Operator;
use n3::ast::value::Value;

fn text(v: &Value) -> String {
    v.to_text()
}

#[test]
fn negation() {
    assert!(matches!(Value::Bool(true).neg(), Value::Int(-1)));
    assert!(matches!(Value::UInt(5).neg(), Value::Int(5)));
    assert!(matches!(Value::Int(5).neg(), Value::Int(-5)));
    assert_eq!(text(&Value::Node("x".to_string()).neg()), "-x");
}

#[test]
fn arithmetic() {
    assert!(matches!(Value::UInt(2).add(Value::UInt(3)), Value::UInt(5)));
    assert!(matches!(Value::Bool(true).add(Value::Bool(true)), Value::Int(2)));
    assert!(matches!(Value::UInt(2).sub(Value::Int(5)), Value::Int(-3)));
    assert!(matches!(Value::Int(-4).mul(Value::UInt(3)), Value::Int(-12)));
    assert!(matches!(Value::Bool(true).mul(Value::UInt(7)), Value::UInt(7)));
    let e = Value::Node("w".to_string()).add(Value::UInt(1));
    assert_eq!(text(&e), "(w + 1)");
}

#[test]
fn logic() {
    assert!(matches!(Value::Bool(true).logical(Operator::And, Value::Bool(false)), Value::Bool(false)));
    assert!(matches!(Value::Bool(true).logical(Operator::Xor, Value::Bool(false)), Value::Bool(true)));
    assert!(matches!(Value::UInt(6).logical(Operator::And, Value::UInt(3)), Value::UInt(2)));
    assert!(matches!(Value::Int(-1).logical(Operator::Or, Value::UInt(8)), Value::Int(-1)));
    assert!(matches!(Value::UInt(5).logical(Operator::Xor, Value::Bool(true)), Value::UInt(4)));
}

#[test]
fn powers() {
    assert!(matches!(Value::UInt(2).pow(Value::UInt(10)), Value::UInt(1024)));
    assert!(matches!(Value::Int(-2).pow(Value::UInt(3)), Value::Int(-8)));
    assert!(matches!(Value::Int(-2).pow(Value::UInt(63)), Value::Int(i64::MIN)));
    assert!(matches!(Value::Bool(false).pow(Value::Bool(false)), Value::UInt(1)));
    assert!(matches!(Value::UInt(7).pow(Value::Bool(false)), Value::UInt(1)));
    assert!(matches!(Value::UInt(3).pow(Value::UInt(1u64 << 32)), Value::UInt(1)));
    assert_eq!(text(&Value::Node("d".to_string()).pow(Value::UInt(2))), "(d ** 2)");
}

#[test]
fn sums_and_products() {
    let xs = vec![Value::UInt(2), Value::Node("h".to_string())];
    assert_eq!(text(&Value::sum(&xs)), "((0 + 2) + h)");
    assert_eq!(text(&Value::product(&xs)), "((1 * 2) * h)");
    assert_eq!(text(&Value::sum(&vec![])), "0");
}

#[test]
fn equality_is_reflexive_and_symmetric() {
    let values = vec![
        Value::Bool(true),
        Value::UInt(1),
        Value::Int(1),
        Value::Int(-1),
        Value::String("a".to_string()),
        Value::List(vec![Value::UInt(1), Value::Bool(false)]),
        Value::Dict(vec![("k".to_string(), Some(Value::Int(2))), ("z".to_string(), None)]),
    ];
    for a in &values {
        assert!(a.eq_value(a));
        for b in &values {
            assert_eq!(a.eq_value(b), b.eq_value(a));
        }
    }
    assert!(Value::Bool(true).eq_value(&Value::UInt(1)));
    assert!(Value::UInt(u64::MAX).eq_value(&Value::Int(-1)));
    assert!(!Value::UInt(2).eq_value(&Value::Int(1)));
}
