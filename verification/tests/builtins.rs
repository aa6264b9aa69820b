use n3::ast::graph_node::{GraphCall, GraphInputs, GraphNode, Out, Shape, Shapes};
use n3::ast::types::{ExternNodeType, LetType, Operator};
use n3::ast::value::Value;
use n3::builder::builtins::{build_input_node, build_transform, linear_shapes, shapes_value};
use n3::builder::concat::{build_concat, concat_shapes, list_input_shapes};
use n3::builder::error::{Error, GraphCallError, GraphNodeError};
use n3::builder::graph::Graph;
use n3::builder::seed::Seed;
use n3::builder::tensor::ExternIR;
use n3::builder::tensor_graph::{TensorGraph, TensorNode};

fn dims(ds: &[u64]) -> Shape {
    Shape(ds.iter().map(|d| Value::UInt(*d)).collect())
}

fn shapes(entries: &[(&str, Option<&[u64]>)]) -> Shapes {
    Shapes(entries.iter().map(|(n, d)| (n.to_string(), d.map(dims))).collect())
}

fn call(name: &str) -> GraphCall {
    GraphCall { name: name.to_string(), inputs: None, args: None, repeat: None }
}

fn ext(id: u64, output: Option<Shapes>) -> TensorNode {
    let mut ir = ExternIR::new_first(ExternNodeType::Default, "Linear".to_string(), Graph::with_id(id), None, output);
    ir.data.id = id;
    TensorNode::Extern(ir)
}

fn uint(v: &Value) -> u64 {
    match v {
        Value::UInt(x) => *x,
        other => panic!("not a number: {:?}", other),
    }
}

fn last_extern(graph: &TensorGraph) -> &ExternIR {
    match graph.0.last() {
        Some(TensorNode::Extern(e)) => e,
        _ => panic!("no external node"),
    }
}

#[test]
fn the_input_node_asserts_its_shapes() {
    let mut graph = TensorGraph::empty();
    let mut seed = Seed::default();
    let node = GraphNode { id: 0, calls: vec![call("Input")], shapes: Some(shapes(&[("x", Some(&[3, 32]))])) };
    build_input_node(&mut graph, node, &mut seed).unwrap();
    let e = last_extern(&graph);
    assert_eq!(e.data.name, "AssertShape");
    assert_eq!(e.data.id, 0);
    assert_eq!(e.data.graph.id, 1);
    assert!(e.shapes.input.is_none());
    assert_eq!(e.data.output[0].0, "x");
    assert_eq!(e.data.output[0].1.id, Some(1));
    assert_eq!(seed.generate(), 2);
}

#[test]
fn an_unsized_input_node_is_refused() {
    let mut graph = TensorGraph::empty();
    let mut seed = Seed::default();
    let node = GraphNode { id: 0, calls: vec![call("Input")], shapes: None };
    match build_input_node(&mut graph, node, &mut seed) {
        Err(Error::GraphNodeError(GraphNodeError::MismatchedShapesExistence { expected, given })) => {
            assert!(expected && !given)
        }
        other => panic!("unexpected {:?}", other),
    }
    assert!(graph.0.is_empty());
    assert_eq!(seed.generate(), 1);
}

#[test]
fn to_linear_flattens_the_last_shapes() {
    let mut graph = TensorGraph(vec![ext(1, Some(shapes(&[("x", Some(&[2, 3]))])))]);
    let mut seed = Seed::default();
    let node = GraphNode { id: 2, calls: vec![call("ToLinear")], shapes: None };
    build_transform(&mut graph, node, true, &mut seed).unwrap();
    assert_eq!(graph.0.len(), 2);
    let e = last_extern(&graph);
    assert_eq!(e.data.name, "AssertShape");
    assert_eq!(e.data.id, 2);
    assert_eq!(e.data.input[0].1.id, Some(1));
    assert_eq!(e.data.output[0].1.id, Some(3));
    let out = e.shapes.output.as_ref().unwrap();
    let dim = &out.0[0].1.as_ref().unwrap().0;
    assert_eq!(dim.len(), 1);
    // ((1 * 2) * 3), as an expression
    match &dim[0] {
        Value::Expr(e) => {
            assert_eq!(e.op, Operator::Mul);
            assert_eq!(uint(e.rhs.as_ref().unwrap()), 3);
        }
        other => panic!("unexpected {:?}", other),
    }
    let var = e.data.graph.get("output shapes").unwrap();
    assert!(matches!(var.value, Some(Value::Dict(_))));
}

#[test]
fn transform_keeps_the_names_of_the_tensors() {
    let mut graph = TensorGraph(vec![ext(1, Some(shapes(&[("x", Some(&[6]))])))]);
    let mut seed = Seed::default();
    let node = GraphNode { id: 2, calls: vec![call("Transform")], shapes: Some(shapes(&[("y", Some(&[2, 3]))])) };
    match build_transform(&mut graph, node, false, &mut seed) {
        Err(Error::GraphCallError(GraphCallError::MismatchedShapeKeys { expected, given })) => {
            assert_eq!(expected, vec!["x".to_string()]);
            assert_eq!(given, vec!["y".to_string()]);
        }
        other => panic!("unexpected {:?}", other),
    }
    assert_eq!(graph.0.len(), 1);

    let node = GraphNode { id: 2, calls: vec![call("Transform")], shapes: Some(shapes(&[("x", None)])) };
    match build_transform(&mut graph, node, false, &mut seed) {
        Err(Error::GraphCallError(GraphCallError::GenericShape { name })) => assert_eq!(name, "x"),
        other => panic!("unexpected {:?}", other),
    }

    let node = GraphNode { id: 2, calls: vec![call("Transform")], shapes: Some(shapes(&[("x", Some(&[2, 3]))])) };
    build_transform(&mut graph, node, false, &mut seed).unwrap();
    let out = last_extern(&graph).shapes.output.as_ref().unwrap();
    assert_eq!(uint(&out.0[0].1.as_ref().unwrap().0[1]), 3);
}

#[test]
fn a_transformation_needs_shapes_before_it() {
    let mut graph = TensorGraph(vec![ext(1, None)]);
    let mut seed = Seed::default();
    let node = GraphNode { id: 2, calls: vec![call("ToLinear")], shapes: None };
    match build_transform(&mut graph, node, true, &mut seed) {
        Err(Error::GraphCallError(GraphCallError::GenericShapes)) => {}
        other => panic!("unexpected {:?}", other),
    }
}

#[test]
fn linear_and_value_shapes() {
    let s = shapes(&[("a", Some(&[4, 5])), ("b", None)]);
    let l = linear_shapes(&s);
    assert_eq!(l.0[0].1.as_ref().unwrap().0.len(), 1);
    assert!(l.0[1].1.is_none());
    match shapes_value(&s) {
        Value::Dict(entries) => {
            assert_eq!(entries[0].0, "a");
            match &entries[0].1 {
                Some(Value::List(ds)) => assert_eq!(uint(&ds[1]), 5),
                other => panic!("unexpected {:?}", other),
            }
            assert!(entries[1].1.is_none());
        }
        other => panic!("unexpected {:?}", other),
    }
}

#[test]
fn concat_joins_along_an_axis() {
    let inputs = vec![Some(dims(&[2, 3])), Some(dims(&[2, 5]))];
    let out = concat_shapes(&inputs, 1).unwrap();
    assert_eq!(out.0.len(), 2);
    assert_eq!(uint(&out.0[0]), 2);
    // ((0 + 3) + 5), as an expression
    match &out.0[1] {
        Value::Expr(e) => {
            assert_eq!(e.op, Operator::Add);
            assert_eq!(uint(e.rhs.as_ref().unwrap()), 5);
        }
        other => panic!("unexpected {:?}", other),
    }
    // a negative axis -a stands for -a less the number of dimensions
    assert!(concat_shapes(&inputs, -3).is_ok());
    match concat_shapes(&inputs, 2) {
        Err(Error::GraphCallError(GraphCallError::MismatchedAxis { val_min, val_max, given })) => {
            assert_eq!((val_min, val_max, given), (0, 1, 2))
        }
        other => panic!("unexpected {:?}", other),
    }
}

#[test]
fn concat_errors() {
    match concat_shapes(&vec![], 0) {
        Err(Error::GraphCallError(GraphCallError::EmptyInputs)) => {}
        other => panic!("unexpected {:?}", other),
    }
    match concat_shapes(&vec![None, Some(dims(&[1]))], 0) {
        Err(Error::GraphCallError(GraphCallError::GenericShapes)) => {}
        other => panic!("unexpected {:?}", other),
    }
    match concat_shapes(&vec![Some(dims(&[1])), Some(dims(&[1])), None], 0) {
        Err(Error::GraphCallError(GraphCallError::GenericListInputShape { index })) => assert_eq!(index, 2),
        other => panic!("unexpected {:?}", other),
    }
    match concat_shapes(&vec![Some(dims(&[1, 2])), Some(dims(&[1]))], 0) {
        Err(Error::GraphCallError(GraphCallError::MismatchedShapes { expected, given })) => {
            assert_eq!((expected, given), (2, 1))
        }
        other => panic!("unexpected {:?}", other),
    }
}

#[test]
fn concat_names_its_inputs_by_position() {
    let none: Vec<Option<Shape>> = (0..12).map(|_| None).collect();
    let names = list_input_shapes(&none);
    assert_eq!(names.0[0].0, "0");
    assert_eq!(names.0[11].0, "11");
}

#[test]
fn building_a_concat_node() {
    let mut graph = TensorGraph(vec![
        ext(1, Some(shapes(&[("a", Some(&[2, 3]))]))),
        ext(2, Some(shapes(&[("b", Some(&[2, 4]))]))),
    ]);
    let mut seed = Seed::default();
    let mut c = call("Concat");
    c.inputs = Some(GraphInputs::List(vec![Out::new(1, "a".to_string()), Out::new(2, "b".to_string())]));
    c.args = Some(vec![("axis".to_string(), Value::Int(-1))]);
    let node = GraphNode { id: 3, calls: vec![c], shapes: None };
    // the axis -1 stands for 1 - 2
    match build_concat(&mut graph, node, &Value::Int(-1), &mut seed) {
        Err(Error::GraphCallError(GraphCallError::MismatchedAxis { given, .. })) => assert_eq!(given, -1),
        other => panic!("unexpected {:?}", other),
    }
    let mut c = call("Concat");
    c.inputs = Some(GraphInputs::List(vec![Out::new(1, "a".to_string()), Out::new(2, "b".to_string())]));
    c.args = Some(vec![("axis".to_string(), Value::UInt(1))]);
    let node = GraphNode { id: 3, calls: vec![c], shapes: None };
    build_concat(&mut graph, node, &Value::UInt(1), &mut seed).unwrap();
    let e = last_extern(&graph);
    assert_eq!(e.data.name, "Concat");
    assert_eq!(e.data.input.len(), 2);
    assert_eq!(e.data.output[0].0, "x");
    assert_eq!(e.data.output[0].1.id, Some(4));
    let ins = e.shapes.input.as_ref().unwrap();
    assert_eq!(ins.0[1].0, "1");
    let axis = e.data.graph.get("axis").unwrap();
    assert!(matches!(axis.value, Some(Value::Int(1))));

    let mut c = call("Concat");
    c.inputs = Some(GraphInputs::List(vec![Out::with_name("z".to_string())]));
    c.args = Some(vec![("axis".to_string(), Value::UInt(0))]);
    let node = GraphNode { id: 5, calls: vec![c], shapes: None };
    match build_concat(&mut graph, node, &Value::String("x".to_string()), &mut seed) {
        Err(Error::GraphCallError(GraphCallError::MismatchedArgType { expected, given })) => {
            assert!(matches!(expected, LetType::UInt));
            assert!(matches!(given, Some(LetType::String)));
        }
        other => panic!("unexpected {:?}", other),
    }
}
