use n3::ast::types::{LetNodeType, LetType};
use n3::ast::value::{Value, Variable};
use n3::builder::error::{Error, GraphError};
use n3::builder::strmap::StrMap;
use n3::builder::vars::{bool_from_word, GlobalVars, Query as VarQuery, Vars};

fn query<'a>(name: &'a str, ty: LetType, value: Option<&str>, fn_value: Option<&str>) -> VarQuery<'a> {
    VarQuery {
        name,
        ty,
        value: value.map(|x| x.to_string()),
        fn_value: fn_value.map(|x| x.to_string()),
    }
}

fn sample() -> Vars {
    Vars::load(vec![
        query("epoch", LetType::UInt, Some("10"), None),
        query("lr", LetType::Int, None, Some("-3")),
        query("verbose", LetType::Bool, Some("YES"), None),
        query("name", LetType::String, Some("mnist"), None),
        query("model", LetType::Node(Some(LetNodeType::Default)), Some("LeNet5"), None),
        query("empty", LetType::String, None, None),
    ])
    .unwrap()
}

#[test]
fn loads_and_reads_each_type() {
    let vars = sample();
    assert!(matches!(vars.get("epoch").unwrap().value, Some(Value::UInt(10))));
    assert!(matches!(vars.get("lr").unwrap().value, Some(Value::Int(-3))));
    assert!(matches!(vars.get("verbose").unwrap().value, Some(Value::Bool(true))));
    assert_eq!(vars.get_string("name").unwrap(), "mnist");
    assert_eq!(vars.get_node_name("model", LetNodeType::Default).unwrap(), "LeNet5");
    let epoch = vars.get("epoch").unwrap();
    assert_eq!(epoch.id, Some(0));
    assert_eq!(epoch.id_old, Some(0));
    assert!(epoch.ty.as_ref().unwrap().same_as(&LetType::UInt));
}

#[test]
fn load_reports_the_first_unparsable_text() {
    let r = Vars::load(vec![
        query("a", LetType::UInt, Some("1"), None),
        query("b", LetType::UInt, Some("x"), None),
        query("c", LetType::Int, Some("y"), None),
    ]);
    match r {
        Err(Error::GraphError(GraphError::UnparsableString { name, value, ty })) => {
            assert_eq!(name, "b");
            assert_eq!(value, "x");
            assert!(ty.unwrap().same_as(&LetType::UInt));
        }
        other => panic!("unexpected {:?}", other),
    }
}

#[test]
fn missing_variable_lists_the_candidates() {
    let vars = sample();
    match vars.get("nope") {
        Err(Error::GraphError(GraphError::NoSuchVariable { name, candidates })) => {
            assert_eq!(name, "nope");
            assert_eq!(candidates, vec!["empty", "epoch", "lr", "model", "name", "verbose"]);
        }
        other => panic!("unexpected {:?}", other),
    }
}

#[test]
fn checked_reads() {
    let vars = sample();
    assert!(vars.try_get_checked("nope", LetType::UInt).unwrap().is_none());
    assert!(vars.try_get_checked("epoch", LetType::UInt).unwrap().is_some());
    match vars.try_get_checked("epoch", LetType::Int) {
        Err(Error::GraphError(GraphError::MismatchedType { name, expected, given })) => {
            assert_eq!(name, "epoch");
            assert!(expected.same_as(&LetType::Int));
            assert!(given.unwrap().same_as(&LetType::UInt));
        }
        other => panic!("unexpected {:?}", other),
    }
    match vars.try_get_checked("empty", LetType::String) {
        Err(Error::GraphError(GraphError::EmptyValue { name, .. })) => assert_eq!(name, "empty"),
        other => panic!("unexpected {:?}", other),
    }
    match vars.get_string("epoch") {
        Err(Error::GraphError(GraphError::MismatchedType { name, .. })) => assert_eq!(name, "epoch"),
        other => panic!("unexpected {:?}", other),
    }
    match vars.get_string("empty") {
        Err(Error::GraphError(GraphError::EmptyValue { name, .. })) => assert_eq!(name, "empty"),
        other => panic!("unexpected {:?}", other),
    }
}

#[test]
fn set_then_get_gives_the_value_back() {
    let mut vars = sample();
    vars.set("epoch", "25").unwrap();
    assert!(matches!(vars.get("epoch").unwrap().value, Some(Value::UInt(25))));
    vars.set("verbose", "No").unwrap();
    assert!(matches!(vars.get("verbose").unwrap().value, Some(Value::Bool(false))));
    vars.set("empty", "now set").unwrap();
    assert_eq!(vars.get_string("empty").unwrap(), "now set");
    match vars.set("epoch", "-1") {
        Err(Error::GraphError(GraphError::UnparsableString { name, value, .. })) => {
            assert_eq!(name, "epoch");
            assert_eq!(value, "-1");
        }
        other => panic!("unexpected {:?}", other),
    }
    assert!(matches!(vars.get("epoch").unwrap().value, Some(Value::UInt(25))));
    assert!(vars.set("nope", "1").is_err());
}

#[test]
fn set_as_value_checks_the_type() {
    let mut vars = sample();
    vars.set_as_value("lr", Value::Int(7)).unwrap();
    assert!(matches!(vars.get("lr").unwrap().value, Some(Value::Int(7))));
    match vars.set_as_value("lr", Value::UInt(7)) {
        Err(Error::GraphError(GraphError::MismatchedType { name, .. })) => assert_eq!(name, "lr"),
        other => panic!("unexpected {:?}", other),
    }
    assert!(matches!(vars.get("lr").unwrap().value, Some(Value::Int(7))));
}

#[test]
fn booleans_read_in_any_case() {
    assert_eq!(bool_from_word("yes"), Some(true));
    assert_eq!(bool_from_word("1"), Some(true));
    assert_eq!(bool_from_word("false"), Some(false));
    assert_eq!(bool_from_word("YES"), None);
    let v = Vars::convert("flag", "TRUE".to_string(), Some(LetType::Bool)).unwrap();
    assert!(matches!(v, Value::Bool(true)));
    let v = Vars::convert("flag", "nO".to_string(), Some(LetType::Bool)).unwrap();
    assert!(matches!(v, Value::Bool(false)));
    assert!(Vars::convert("flag", "maybe".to_string(), Some(LetType::Bool)).is_err());
}

#[test]
fn global_root_dir() {
    let mut inner = StrMap::new();
    let mut var = Variable::with_name_value("root".to_string(), Some(Value::String("/tmp/n3".to_string())));
    var.ty = Some(LetType::String);
    inner.insert("root".to_string(), var);
    let env = GlobalVars::from_vars(Vars::from_variables(inner));
    assert_eq!(env.root_dir(), "/tmp/n3");
}
