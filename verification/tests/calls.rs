use n3::ast::graph_node::{GraphCall, GraphInputs, NodeLet, Out, Shape, Shapes};
use n3::ast::types::{ExternNodeType, LetNodeType, LetType};
use n3::ast::value::{RefVariable, Value, Variable};
use n3::builder::calls::build_call;
use n3::builder::error::{Error, GraphCallError, GraphError, GraphNodeError};
use n3::builder::graph::Graph;
use n3::builder::tensor::{ExternIR, IRData};
use n3::builder::tensor_graph::{NodeIR, TensorGraph, TensorNode};

fn linear_callee() -> NodeIR {
    let graph = Graph::try_with_variables(
        7,
        vec![(
            "output channels".to_string(),
            NodeLet {
                name: "output channels".to_string(),
                shortcut: Some("Oc".to_string()),
                ty: LetType::UInt,
                value: None,
            },
        )],
        false,
    )
    .unwrap();
    let mut data = IRData::with_no_shapes("Linear".to_string(), graph);
    data.input = vec![("x".to_string(), Out::with_name("x".to_string()))];
    data.output = vec![("x".to_string(), Out::new(1, "x".to_string()))];
    NodeIR { data, ty: LetNodeType::Default, tensor_graph: TensorGraph::empty(), repeat: None }
}

fn calling_graph() -> Graph {
    Graph::try_with_variables(
        2,
        vec![(
            "width".to_string(),
            NodeLet { name: "width".to_string(), shortcut: Some("W".to_string()), ty: LetType::UInt, value: Some(Value::UInt(16)) },
        )],
        false,
    )
    .unwrap()
}

fn input_node() -> TensorNode {
    let shapes = Shapes(vec![("x".to_string(), Some(Shape(vec![Value::UInt(4)])))]);
    let mut ir = ExternIR::new_first(ExternNodeType::Default, "AssertShape".to_string(), Graph::with_id(1), None, Some(shapes));
    ir.data.id = 0;
    TensorNode::Extern(ir)
}

fn last_node(graph: &TensorGraph) -> &NodeIR {
    match graph.0.last() {
        Some(TensorNode::Node(n)) => n,
        _ => panic!("no node"),
    }
}

#[test]
fn a_call_numbers_and_links_its_callee() {
    let mut tg = TensorGraph(vec![input_node()]);
    let graph = calling_graph();
    let width = Value::Variable(RefVariable(Box::new(Variable::with_name_value("W".to_string(), None))));
    let call = GraphCall {
        name: "Linear".to_string(),
        inputs: None,
        args: Some(vec![("Oc".to_string(), width)]),
        repeat: None,
    };
    build_call(&mut tg, &graph, linear_callee(), call, 1).unwrap();
    let n = last_node(&tg);
    assert_eq!(n.data.id, 1);
    // the input x is given by the input node
    assert_eq!(n.data.input[0].0, "x");
    assert_eq!(n.data.input[0].1.id, Some(0));
    assert_eq!(n.data.output[0].1.id, Some(2));
    // the argument went to the callee's variable through its shortcut,
    // with the calling graph's variable in place of `W`
    let var = n.data.graph.get("output channels").unwrap();
    match &var.value {
        Some(Value::Variable(v)) => assert_eq!(v.0.name, "width"),
        other => panic!("unexpected {:?}", other),
    }
}

#[test]
fn a_call_on_an_empty_tensor_graph_takes_the_first_outputs() {
    let mut tg = TensorGraph::empty();
    build_call(&mut tg, &calling_graph(), linear_callee(), GraphCall { name: "Linear".to_string(), inputs: None, args: None, repeat: None }, 1).unwrap();
    assert_eq!(last_node(&tg).data.input[0].1.id, Some(1));
}

#[test]
fn call_errors() {
    let graph = calling_graph();
    let mut tg = TensorGraph(vec![input_node()]);
    let call = GraphCall {
        name: "Linear".to_string(),
        inputs: None,
        args: Some(vec![("depth".to_string(), Value::UInt(3))]),
        repeat: None,
    };
    match build_call(&mut tg, &graph, linear_callee(), call, 1) {
        Err(Error::GraphError(GraphError::NoSuchVariable { name, candidates })) => {
            assert_eq!(name, "depth");
            assert_eq!(candidates, vec!["Oc".to_string()]);
        }
        other => panic!("unexpected {:?}", other),
    }
    let call = GraphCall { name: "Linear".to_string(), inputs: Some(GraphInputs::List(vec![])), args: None, repeat: None };
    match build_call(&mut tg, &graph, linear_callee(), call, 1) {
        Err(Error::GraphCallError(GraphCallError::MismatchedInputsType { .. })) => {}
        other => panic!("unexpected {:?}", other),
    }
    let given = vec![("x".to_string(), Out::with_name("y".to_string()))];
    let call = GraphCall { name: "Linear".to_string(), inputs: Some(GraphInputs::Dict(given)), args: None, repeat: None };
    match build_call(&mut tg, &graph, linear_callee(), call, 1) {
        Err(Error::GraphNodeError(GraphNodeError::NoSuchInput { out })) => assert_eq!(out.name, "y"),
        other => panic!("unexpected {:?}", other),
    }
    assert_eq!(tg.0.len(), 1);
}
