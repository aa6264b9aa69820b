use n3::ast::graph_node::{GraphCall, GraphInputs, GraphNode, Out, Shape, Shapes};
use n3::ast::types::ExternNodeType;
use n3::ast::value::Value;
use n3::builder::condition::ExternTensorGraphCondition;
use n3::builder::error::{Error, GraphCallError, GraphNodeError};
use n3::builder::nodes::{
    builder_of, check_tensor_id, concat_axis, get_links, match_shape_keys, test_builtin,
    test_extern_tensor_graph, unwrap_dict, unwrap_value, NodeBuilder,
};
use n3::builder::tensor::ExternIRShapes;

fn call(name: &str) -> GraphCall {
    GraphCall { name: name.to_string(), inputs: None, args: None, repeat: None }
}

fn node(id: u64, calls: Vec<GraphCall>, shapes: Option<Shapes>) -> GraphNode {
    GraphNode { id, calls, shapes }
}

fn shapes(names: &[&str]) -> Shapes {
    Shapes(names.iter().map(|n| (n.to_string(), Some(Shape(vec![Value::UInt(3)])))).collect())
}

#[test]
fn chooses_the_builder() {
    assert_eq!(builder_of(&node(0, vec![], None)), NodeBuilder::Input);
    assert_eq!(builder_of(&node(1, vec![call("Transform")], None)), NodeBuilder::Transform);
    assert_eq!(builder_of(&node(2, vec![call("ToLinear")], None)), NodeBuilder::ToLinear);
    assert_eq!(builder_of(&node(3, vec![call("Concat")], None)), NodeBuilder::Concat);
    assert_eq!(builder_of(&node(4, vec![call("Conv2d")], None)), NodeBuilder::Default);
}

#[test]
fn builtin_checks() {
    let input = node(0, vec![call("Input")], Some(shapes(&["x"])));
    assert!(test_builtin(&input, NodeBuilder::Input).is_ok());

    let unsized_input = node(0, vec![call("Input")], None);
    match test_builtin(&unsized_input, NodeBuilder::Input) {
        Err(Error::GraphNodeError(GraphNodeError::MismatchedShapesExistence { expected, given })) => {
            assert!(expected);
            assert!(!given);
        }
        other => panic!("unexpected {:?}", other),
    }

    let misnumbered = node(1, vec![call("Input")], Some(shapes(&["x"])));
    match test_builtin(&misnumbered, NodeBuilder::Input) {
        Err(Error::GraphNodeError(GraphNodeError::MismatchedId { expected, given })) => {
            assert_eq!((expected, given), (0, 1));
        }
        other => panic!("unexpected {:?}", other),
    }

    let linear = node(3, vec![call("ToLinear")], None);
    assert!(test_builtin(&linear, NodeBuilder::ToLinear).is_ok());

    let mut concat_call = call("Concat");
    concat_call.inputs = Some(GraphInputs::List(vec![Out::with_name("a".to_string())]));
    concat_call.args = Some(vec![("axis".to_string(), Value::Int(1))]);
    let concat = node(2, vec![concat_call], None);
    assert!(test_builtin(&concat, NodeBuilder::Concat).is_ok());

    let bare_concat = node(2, vec![call("Concat")], None);
    match test_builtin(&bare_concat, NodeBuilder::Concat) {
        Err(Error::GraphCallError(GraphCallError::MismatchedInputsType { .. })) => {}
        other => panic!("unexpected {:?}", other),
    }

    let two_calls = node(2, vec![call("Transform"), call("Transform")], Some(shapes(&["x"])));
    match test_builtin(&two_calls, NodeBuilder::Transform) {
        Err(Error::GraphCallError(GraphCallError::MismatchedSize { expected, given })) => {
            assert_eq!(expected, vec!["Transform"]);
            assert_eq!(given, 2);
        }
        other => panic!("unexpected {:?}", other),
    }
}

#[test]
fn condition_checks_the_node_count() {
    let nodes = vec![(0, node(0, vec![call("Input")], None))];
    let cond = ExternTensorGraphCondition {
        nodes: &nodes,
        names: vec!["Input".to_string(), "Output".to_string()],
        ty_inputs: None,
        args: None,
        is_sized: None,
        repeatable: None,
        is_id_zero: true,
    };
    match cond.test() {
        Err(Error::GraphNodeError(GraphNodeError::MismatchedSize { expected, given })) => {
            assert_eq!(expected, vec!["Input", "Output"]);
            assert_eq!(given, 1);
        }
        other => panic!("unexpected {:?}", other),
    }
}

#[test]
fn extern_tensor_graphs() {
    let graph = vec![
        (0, node(0, vec![call("Input")], Some(shapes(&["x"])))),
        (1, node(1, vec![call("Output")], Some(shapes(&["x"])))),
    ];
    assert!(test_extern_tensor_graph(ExternNodeType::Default, &graph).is_ok());
    match test_extern_tensor_graph(ExternNodeType::Data, &graph) {
        Err(Error::GraphNodeError(GraphNodeError::MismatchedSize { expected, given })) => {
            assert_eq!(expected, vec!["Output"]);
            assert_eq!(given, 2);
        }
        other => panic!("unexpected {:?}", other),
    }
    let swapped = vec![
        (0, node(0, vec![call("Output")], None)),
        (1, node(1, vec![call("Input")], None)),
    ];
    match test_extern_tensor_graph(ExternNodeType::Default, &swapped) {
        Err(Error::GraphCallError(GraphCallError::MismatchedName { expected, given })) => {
            assert_eq!(expected, vec!["Input"]);
            assert_eq!(given, "Output");
        }
        other => panic!("unexpected {:?}", other),
    }
    assert!(test_extern_tensor_graph(ExternNodeType::Optim, &vec![]).is_ok());
}

#[test]
fn extern_shapes_follow_the_node_type() {
    let mut s = ExternIRShapes { input: None, output: None };
    s.add_tensor_graph(ExternNodeType::Default, node(0, vec![], Some(shapes(&["a"]))));
    s.add_tensor_graph(ExternNodeType::Default, node(1, vec![], Some(shapes(&["b"]))));
    assert_eq!(s.input.as_ref().unwrap().0[0].0, "a");
    assert_eq!(s.output.as_ref().unwrap().0[0].0, "b");
    let mut d = ExternIRShapes { input: None, output: None };
    d.add_tensor_graph(ExternNodeType::Data, node(0, vec![], Some(shapes(&["c"]))));
    assert!(d.input.is_none());
    assert_eq!(d.output.as_ref().unwrap().0[0].0, "c");
}

#[test]
fn tensor_ids_follow_each_other() {
    assert!(check_tensor_id(0, 0).is_ok());
    assert!(check_tensor_id(0, 1).is_ok());
    assert!(check_tensor_id(4, 5).is_ok());
    match check_tensor_id(4, 7) {
        Err(Error::GraphNodeError(GraphNodeError::MismatchedId { expected, given })) => {
            assert_eq!((expected, given), (5, 7));
        }
        other => panic!("unexpected {:?}", other),
    }
    assert!(check_tensor_id(4, 3).is_err());
    assert!(check_tensor_id(4, 4).is_err());
}

#[test]
fn exec_links() {
    let graph = vec![
        (1, node(1, vec![call("Load"), call("Train")], None)),
        (2, node(2, vec![call("Eval")], None)),
    ];
    let links = get_links(graph).unwrap();
    assert_eq!(links, vec![vec!["Load".to_string(), "Train".to_string()], vec!["Eval".to_string()]]);

    let bad_id = vec![(2, node(2, vec![call("Load")], None))];
    match get_links(bad_id) {
        Err(Error::GraphNodeError(GraphNodeError::MismatchedId { expected, given })) => {
            assert_eq!((expected, given), (1, 2));
        }
        other => panic!("unexpected {:?}", other),
    }
    let shaped = vec![(1, node(1, vec![call("Load")], Some(shapes(&["x"]))))];
    assert!(matches!(get_links(shaped), Err(Error::GraphNodeError(GraphNodeError::UnexpectedShapes))));
    let empty = vec![(1, node(1, vec![], None))];
    assert!(matches!(get_links(empty), Err(Error::GraphNodeError(GraphNodeError::EmptyCalls))));
    let mut with_args = call("Load");
    with_args.args = Some(vec![]);
    let args = vec![(1, node(1, vec![call("Ok"), with_args], None))];
    assert!(matches!(get_links(args), Err(Error::GraphCallError(GraphCallError::UnexpectedArgs))));
    let mut with_repeat = call("Load");
    with_repeat.repeat = Some(Value::UInt(2));
    let repeat = vec![(1, node(1, vec![with_repeat], None))];
    assert!(matches!(get_links(repeat), Err(Error::GraphCallError(GraphCallError::UnexpectedRepeat))));
    let mut with_inputs = call("Load");
    with_inputs.inputs = Some(GraphInputs::List(vec![]));
    let inputs = vec![(1, node(1, vec![with_inputs], None))];
    assert!(matches!(get_links(inputs), Err(Error::GraphCallError(GraphCallError::UnexpectedInputs))));
}

#[test]
fn concat_axes() {
    assert_eq!(concat_axis(0, 3).unwrap(), 0);
    assert_eq!(concat_axis(2, 3).unwrap(), 2);
    assert_eq!(concat_axis(-4, 3).unwrap(), 1);
    match concat_axis(-1, 3) {
        Err(Error::GraphCallError(GraphCallError::MismatchedAxis { val_min, val_max, given })) => {
            assert_eq!((val_min, val_max, given), (0, 2, -2));
        }
        other => panic!("unexpected {:?}", other),
    }
    assert!(concat_axis(3, 3).is_err());
}

#[test]
fn shape_keys_must_match() {
    let a = vec!["x".to_string(), "y".to_string()];
    let b = vec!["y".to_string(), "x".to_string()];
    assert!(match_shape_keys(&a, &b).is_ok());
    let c = vec!["x".to_string(), "z".to_string()];
    match match_shape_keys(&a, &c) {
        Err(Error::GraphCallError(GraphCallError::MismatchedShapeKeys { expected, given })) => {
            assert_eq!(expected, a);
            assert_eq!(given, c);
        }
        other => panic!("unexpected {:?}", other),
    }
    assert!(match_shape_keys(&a, &vec!["x".to_string()]).is_err());
}

#[test]
fn unwrapping_inputs_and_shapes() {
    let outs = vec![("x".to_string(), Out::new(1, "y".to_string()))];
    let dict = unwrap_dict(GraphInputs::Dict(outs)).unwrap();
    assert_eq!(dict[0].1.id, Some(1));
    assert!(matches!(
        unwrap_dict(GraphInputs::List(vec![])),
        Err(Error::GraphCallError(GraphCallError::MismatchedInputsType { .. }))
    ));
    assert_eq!(unwrap_value("x", Some(3)).unwrap(), 3);
    match unwrap_value::<u8>("x", None) {
        Err(Error::GraphCallError(GraphCallError::GenericShape { name })) => assert_eq!(name, "x"),
        other => panic!("unexpected {:?}", other),
    }
}
