use n3::api::{BoolResult, ObjResult};
use n3::ast::graph_node::{Out, Shape, Shapes};
use n3::ast::types::{ExternNodeType, FinalNodeType, LetNodeType};
use n3::ast::value::Value;
use n3::builder::error::{Error, GraphNodeError, TensorNodeError};
use n3::builder::graph::Graph;
use n3::builder::nodes::{arrange_inputs, arrange_outputs};
use n3::builder::tensor::{ExternIR, IRData};
use n3::builder::tensor_graph::{ExecIR, NodeIR, TensorGraph, TensorNode};

fn shapes(entries: &[(&str, Option<u64>)]) -> Shapes {
    Shapes(entries.iter().map(|(n, d)| (n.to_string(), d.map(|d| Shape(vec![Value::UInt(d)])))).collect())
}

fn ext(id: u64, name: &str, input: Option<Shapes>, output: Option<Shapes>) -> TensorNode {
    let mut ir = ExternIR::new_first(ExternNodeType::Default, name.to_string(), Graph::with_id(id), input, output);
    ir.data.id = id;
    TensorNode::Extern(ir)
}

#[test]
fn shapes_of_tensor_graphs() {
    let graph = TensorGraph(vec![
        ext(0, "AssertShape", None, Some(shapes(&[("x", Some(4))]))),
        ext(1, "Linear", Some(shapes(&[("x", Some(4))])), Some(shapes(&[("x", Some(8))]))),
        ext(2, "Dropout", Some(shapes(&[("x", None)])), Some(shapes(&[("x", None)]))),
    ]);
    assert!(graph.is_some());
    assert!(graph.0[0].is_input());
    let input = graph.get_input_shapes().unwrap();
    assert!(matches!(input.0[0].1.as_ref().unwrap().0[0], Value::UInt(4)));
    // the generic output of the last node is passed over
    let output = graph.get_output_shapes().unwrap();
    assert!(matches!(output.0[0].1.as_ref().unwrap().0[0], Value::UInt(8)));
    // the last node with shapes, generic or not
    let last = graph.last_output_shapes().unwrap();
    assert!(last.0[0].1.is_none());
    assert!(graph.try_borrow_extern_node().is_none());
    let one = TensorGraph::new_one(ext(1, "Linear", None, None));
    assert!(one.try_borrow_extern_node().is_some());
    assert!(!TensorGraph::empty().is_some());
    let data = IRData::with_tensor_graph("Net".to_string(), Graph::with_id(9), &graph);
    assert_eq!(data.input[0].0, "x");
    assert_eq!(data.output[0].1.id, Some(1));
}

#[test]
fn fetching_shapes_of_outputs() {
    let graph = TensorGraph(vec![
        ext(0, "AssertShape", None, Some(shapes(&[("x", Some(4))]))),
        ext(1, "Linear", None, Some(shapes(&[("y", Some(8))]))),
        ext(2, "Linear", None, Some(shapes(&[("x", Some(16))]))),
    ]);
    let mut out = Out::with_name("x".to_string());
    let shape = graph.fetch_shape(&mut out).unwrap().unwrap();
    assert!(matches!(shape.0[0], Value::UInt(16)));
    assert_eq!(out.id, Some(2));
    let mut out = Out::new(1, "x".to_string());
    match graph.fetch_shape(&mut out) {
        Err(Error::GraphNodeError(GraphNodeError::NoSuchInput { out })) => assert_eq!(out.id, Some(1)),
        other => panic!("unexpected {:?}", other),
    }
    let mut out = Out::new(0, "x".to_string());
    let shape = graph.fetch_shape(&mut out).unwrap().unwrap();
    assert!(matches!(shape.0[0], Value::UInt(4)));
}

#[test]
fn unwrapping_tensor_nodes() {
    let exec = TensorNode::Exec(ExecIR { data: IRData::with_no_shapes("Train".to_string(), Graph::with_id(1)), links: vec![] });
    assert_eq!(exec.ty(), FinalNodeType::Exec);
    match exec.unwrap_node() {
        Err(Error::TensorNodeError(TensorNodeError::MismatchedType { expected, given })) => {
            assert_eq!((expected, given), (FinalNodeType::Default, FinalNodeType::Exec));
        }
        other => panic!("unexpected {:?}", other.map(|n| n.ty)),
    }
    let mut node = TensorNode::Node(NodeIR {
        data: IRData::with_no_shapes("Net".to_string(), Graph::with_id(2)),
        ty: LetNodeType::Default,
        tensor_graph: TensorGraph::empty(),
        repeat: None,
    });
    node.set_id(5);
    node.set_repeat(Some(Value::UInt(3)));
    assert_eq!(node.get_id(), 5);
    assert_eq!(node.name(), "Net");
    let ir = node.unwrap_node().unwrap();
    assert!(matches!(ir.repeat, Some(Value::UInt(3))));
    assert!(ext(1, "Linear", None, None).unwrap_extern().is_ok());
    assert!(ext(1, "Linear", None, None).unwrap_exec().is_err());
}

#[test]
fn arranging_inputs_and_outputs() {
    let expected = vec![
        ("a".to_string(), Out::with_name("a".to_string())),
        ("b".to_string(), Out::with_name("b".to_string())),
    ];
    let given = vec![("b".to_string(), Out::new(3, "z".to_string()))];
    let inputs = arrange_inputs(&expected, &given).into_entries();
    assert_eq!(inputs.len(), 2);
    assert_eq!(inputs[0].0, "a");
    assert_eq!(inputs[0].1.id, None);
    assert_eq!(inputs[1].0, "z");
    assert_eq!(inputs[1].1.id, Some(3));
    let outputs = arrange_outputs(4, &vec!["y".to_string(), "x".to_string()]).into_entries();
    assert_eq!(outputs[0].0, "x");
    assert_eq!(outputs[0].1.id, Some(5));
    assert_eq!(outputs[1].1.name, "y");
}

#[test]
fn api_results() {
    let ok = BoolResult::from_result(Ok(()));
    assert!(ok.success && ok.error_msg.is_none());
    let err = BoolResult::from_result(Err("NoSuchWork".to_string()));
    assert!(!err.success);
    assert_eq!(err.error_msg.as_deref(), Some("NoSuchWork"));
    assert!(BoolResult::from_bool(true).success);
    let data: ObjResult<u32> = ObjResult::from_result(Ok(3));
    assert_eq!(data.data, Some(3));
    let none: ObjResult<u32> = ObjResult::from_result(Err("x".to_string()));
    assert!(none.data.is_none() && !none.success);
}
