use n3::ast::graph_node::{Out, Shape, Shapes};
use n3::ast::types::ExternNodeType;
use n3::ast::value::Value;
use n3::builder::compact::{ArrangeId, CodeData, DecompactContext, IRData as CompactIRData, VarAsValue, VariableValue};
use n3::builder::graph::Graph;
use n3::builder::seed::Seed;
use n3::builder::tensor::{shapes_to_outs, ExternIR, ExternIRShapes, IRData};
use std::collections::BTreeMap;

fn shapes(names: &[&str]) -> Shapes {
    Shapes(names.iter().map(|n| (n.to_string(), Some(Shape(vec![Value::UInt(8)])))).collect())
}

#[test]
fn outs_of_shapes() {
    let outs = shapes_to_outs(3, Some(&shapes(&["a", "b"])));
    assert_eq!(outs.len(), 2);
    assert_eq!(outs[0].0, "a");
    assert_eq!(outs[0].1.id, Some(3));
    assert_eq!(outs[1].1.name, "b");
    let outs = shapes_to_outs(5, None);
    assert_eq!(outs.len(), 1);
    assert_eq!(outs[0].0, "x");
    assert_eq!(outs[0].1.id, Some(5));
}

#[test]
fn extern_ir_from_shapes() {
    let ir = ExternIR::new_first(
        ExternNodeType::Default,
        "Linear".to_string(),
        Graph::with_id(7),
        Some(shapes(&["x"])),
        None,
    );
    assert_eq!(ir.data.id, 0);
    assert_eq!(ir.data.input[0].1.id, Some(1));
    assert_eq!(ir.data.output[0].0, "x");
    assert!(ir.get_input_shapes().is_some());
    assert!(ir.get_output_shapes().is_none());
    let code = ir.build().unwrap();
    assert_eq!(code.data.name, "Linear");
    assert_eq!(code.data.graph.id, 7);
}

#[test]
fn generic_shapes_from_data() {
    let mut seed = Seed::default();
    let data = IRData::with_shapes("Conv".to_string(), Graph::new(&mut seed), Some(&shapes(&["p", "q"])), None);
    let s = ExternIRShapes::from_data(&data);
    let input = s.input.unwrap();
    assert_eq!(input.0.len(), 2);
    assert_eq!(input.0[1].0, "q");
    assert!(input.0[1].1.is_none());
    assert_eq!(s.output.unwrap().0[0].0, "x");
    let none = IRData::with_no_shapes("Exec".to_string(), Graph::with_id(1));
    assert!(none.input.is_empty() && none.output.is_empty());
}

#[test]
fn arranging_graph_ids() {
    let mut ids = BTreeMap::new();
    ids.insert(10u64, 0u64);
    ids.insert(20u64, 1u64);
    let mut data = CompactIRData {
        id: 2,
        name: "n".to_string(),
        graph: 20,
        input: vec![],
        output: vec![("x".to_string(), Out::new(2, "x".to_string()))],
    };
    data.arrange_id(&ids);
    assert_eq!(data.graph, 1);
    let mut code = CodeData { name: "c".to_string(), graph: 10, input: vec![], output: vec![] };
    code.arrange_id(&ids);
    assert_eq!(code.graph, 0);
    let mut var = VariableValue { id: 20, name: "v".to_string() };
    var.arrange_id(&ids);
    assert_eq!(var.id, 1);
}

#[test]
fn decompacting_variables() {
    let mut seed = Seed::default();
    let graph = Graph::with_one_var(&mut seed, "width", Some(Value::UInt(3)));
    let table = graph.into_table();
    let id = table.id;
    let mut ctx = DecompactContext::new();
    ctx.insert_graph(id, table);
    assert_eq!(ctx.get_graph(id).id, id);
    let v = ctx.get_variable(id, "width");
    assert!(matches!(v.value, Some(Value::UInt(3))));
    ctx.apply_variables(vec![(id, vec![("width".to_string(), Some(Value::UInt(9)))])]);
    assert!(matches!(ctx.get_variable(id, "width").value, Some(Value::UInt(9))));
    let reference = VarAsValue(&v).compact();
    assert_eq!(reference.id, id);
    assert_eq!(reference.name, "width");
    let back = reference.decompact(&ctx);
    assert!(matches!(back.value, Some(Value::UInt(9))));
}

#[test]
fn node_data_are_compared_without_their_ids() {
    let mut a = IRData::with_no_shapes("Linear".to_string(), Graph::with_id(1));
    let b = IRData::with_no_shapes("Linear".to_string(), Graph::with_id(2));
    a.id = 5;
    assert!(a.eq_data(&b));
    let c = IRData::with_no_shapes("Conv".to_string(), Graph::with_id(1));
    assert!(!a.eq_data(&c));
}
