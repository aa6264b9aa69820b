use n3::ast::graph_node::NodeLet;
use n3::ast::types::{LetNodeType, LetType};
use n3::ast::value::{RefVariable, Value, Variable};
use n3::builder::error::{Error, GraphError};
use n3::builder::graph::Graph;
use n3::builder::seed::Seed;

fn var_let(name: &str, shortcut: Option<&str>, ty: LetType, value: Option<Value>) -> (String, NodeLet) {
    (
        name.to_string(),
        NodeLet { name: name.to_string(), shortcut: shortcut.map(|s| s.to_string()), ty, value },
    )
}

fn sample() -> Graph {
    Graph::try_with_variables(
        3,
        vec![
            var_let("input channels", Some("Ic"), LetType::UInt, Some(Value::UInt(3))),
            var_let("width", Some("W"), LetType::Dim, None),
            var_let("bias", None, LetType::Bool, Some(Value::Bool(true))),
        ],
        false,
    )
    .unwrap()
}

#[test]
fn seeds_hand_out_fresh_ids() {
    let mut seed = Seed::default();
    assert_eq!(seed.generate(), 1);
    assert_eq!(seed.allocate(3), 2);
    assert_eq!(seed.generate(), 5);
    let g = Graph::new(&mut seed);
    assert_eq!(g.id, 6);
}

#[test]
fn graphs_from_declarations() {
    let g = sample();
    assert_eq!(g.id, 3);
    let v = g.get("input channels").unwrap();
    assert_eq!(v.id, Some(3));
    assert!(matches!(v.value, Some(Value::UInt(3))));
    match g.get("depth") {
        Err(Error::GraphError(GraphError::NoSuchVariable { name, candidates })) => {
            assert_eq!(name, "depth");
            assert_eq!(candidates, vec!["bias", "input channels", "width"]);
        }
        other => panic!("unexpected {:?}", other),
    }
    let node_var = Graph::try_with_variables(
        1,
        vec![
            var_let("a", None, LetType::UInt, None),
            var_let("m", None, LetType::Node(Some(LetNodeType::Default)), None),
        ],
        false,
    );
    match node_var {
        Err(Error::GraphError(GraphError::UnexpectedNodeVariable { name })) => assert_eq!(name, "m"),
        other => panic!("unexpected {:?}", other.map(|g| g.id)),
    }
    assert!(Graph::try_with_variables(
        1,
        vec![var_let("m", None, LetType::Node(Some(LetNodeType::Default)), None)],
        true
    )
    .is_ok());
}

#[test]
fn adding_twice_is_refused() {
    let mut seed = Seed::default();
    let mut g = Graph::with_one_var(&mut seed, "x", Some(Value::Int(1)));
    match g.add(Variable::with_name("x".to_string())) {
        Err(Error::GraphError(GraphError::DuplicatedVariable { name })) => assert_eq!(name, "x"),
        other => panic!("unexpected {:?}", other),
    }
    g.add(Variable::with_name("y".to_string())).unwrap();
    assert_eq!(g.get("y").unwrap().id, Some(g.id));
}

#[test]
fn applying_values_through_shortcuts() {
    let mut g = sample();
    g.apply(vec![("Ic".to_string(), Some(Value::UInt(16)))], true).unwrap();
    assert!(matches!(g.get("input channels").unwrap().value, Some(Value::UInt(16))));
    g.apply(vec![("bias".to_string(), Some(Value::Bool(false)))], false).unwrap();
    assert!(matches!(g.get("bias").unwrap().value, Some(Value::Bool(false))));
    match g.apply(
        vec![("W".to_string(), Some(Value::UInt(4))), ("nope".to_string(), None), ("Ic".to_string(), None)],
        true,
    ) {
        Err(Error::GraphError(GraphError::NoSuchVariable { name, .. })) => assert_eq!(name, "nope"),
        other => panic!("unexpected {:?}", other),
    }
    // the values before the unknown name were given, those after were not
    assert!(matches!(g.get("width").unwrap().value, Some(Value::UInt(4))));
    assert!(matches!(g.get("input channels").unwrap().value, Some(Value::UInt(16))));
}

#[test]
fn replacing_shortcut_variables() {
    let g = sample();
    let reference = Value::Variable(RefVariable(Box::new(Variable::with_name("Ic".to_string()))));
    let replaced = g.replace_to(Some(reference)).unwrap().unwrap();
    match replaced {
        Value::Variable(v) => {
            assert_eq!(v.0.name, "input channels");
            assert!(matches!(v.0.value, Some(Value::UInt(3))));
        }
        other => panic!("unexpected {:?}", other),
    }
    assert!(g.replace_to(None).unwrap().is_none());
}

#[test]
fn unloading_and_reloading_dims() {
    let mut g = sample();
    g.apply(vec![("W".to_string(), Some(Value::UInt(28)))], true).unwrap();
    let dims = g.unload_dims();
    assert_eq!(dims.len(), 1);
    assert_eq!(dims[0].0, "width");
    assert!(g.get("width").unwrap().value.is_none());
    assert!(matches!(g.get("bias").unwrap().value, Some(Value::Bool(true))));
    g.load_dims_weakly(dims);
    assert!(matches!(g.get("width").unwrap().value, Some(Value::UInt(28))));
    let table = g.into_table();
    assert_eq!(table.id, 3);
    assert_eq!(table.variables.len(), 3);
}
