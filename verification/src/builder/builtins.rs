use vstd::prelude::*;

use super::condition::{node_fault, reports_fault, NodeFault};
use super::error::{strs, Error, GraphCallError, GraphNodeError, Result};
use super::graph::Graph;
use super::nodes::{
    arrange_outputs, builtin_constraints, builtin_name, collect_outs, keys_match, out_map_view,
    test_builtin, NodeBuilder,
};
use super::seed::Seed;
use super::strmap::{lookup, sorted_keys, StrMap};
use super::tensor::{shapes_outs, ExternIR, ExternIRShapes, IRData};
use super::tensor_graph::{
    assert_shape_name, clone_shape, fetch_scan, find_shape, last_out, node_data, node_out,
    opt_shape_model, shape_index, shape_model, TensorGraph, TensorNode,
};
use crate::ast::graph_node::{
    out_keys, outs_view, shape_keys, GraphNode, Out, OutModel, Outs, Shape, Shapes,
};
use crate::ast::types::{ExternNodeType, Operator};
use crate::ast::value::{values_model, Value, ValueModel, VariableModel};
use crate::ast::value_ops::{fold_args, fold_expr, lemma_fold_keeps_values};

verus! {

broadcast use vstd::std_specs::vec::group_vec_axioms;

/// The model of the shapes of named tensors.
pub open spec fn shapes_model(s: Shapes) -> Seq<(Seq<char>, Option<Seq<ValueModel>>)> {
    s.0@.map_values(|e: (String, Option<Shape>)| (e.0@, opt_shape_model(e.1)))
}

/// The dimensions of a shape, as the values of a list.
pub proof fn lemma_values_of_shape(s: Shape)
    ensures
        values_model(s.0) == shape_model(s),
{
    assert(values_model(s.0) =~= shape_model(s));
}

/// A copy of the shapes.
pub fn clone_shapes(s: &Shapes) -> (r: Shapes)
    ensures
        shapes_model(r) == shapes_model(*s),
{
    let mut v: Vec<(String, Option<Shape>)> = Vec::new();
    for i in 0..s.0.len()
        invariant
            v@.len() == i,
            i <= s.0@.len(),
            forall|k: int|
                0 <= k < i ==> (#[trigger] v@[k]).0@ == s.0@[k].0@ && opt_shape_model(v@[k].1)
                    == opt_shape_model(s.0@[k].1),
    {
        let shape = match &s.0[i].1 {
            Some(x) => Some(clone_shape(x)),
            None => None,
        };
        v.push((s.0[i].0.clone(), shape));
    }
    let r = Shapes(v);
    proof {
        assert(shapes_model(r) =~= shapes_model(*s));
    }
    r
}

/// The shape that `ToLinear` gives a tensor: one dimension, the product of
/// its dimensions; a generic shape stays generic.
pub open spec fn linear_of(d: Option<Seq<ValueModel>>) -> Option<Seq<ValueModel>> {
    match d {
        Some(x) => Some(seq![fold_expr(Operator::Mul, ValueModel::UInt(1), x)]),
        None => None,
    }
}

/// The shapes of the tensors once each is flattened to one dimension.
pub fn linear_shapes(s: &Shapes) -> (r: Shapes)
    ensures
        shapes_model(r) == shapes_model(*s).map_values(
            |e: (Seq<char>, Option<Seq<ValueModel>>)| (e.0, linear_of(e.1)),
        ),
{
    let mut v: Vec<(String, Option<Shape>)> = Vec::new();
    for i in 0..s.0.len()
        invariant
            v@.len() == i,
            i <= s.0@.len(),
            forall|k: int|
                0 <= k < i ==> (#[trigger] v@[k]).0@ == s.0@[k].0@ && opt_shape_model(v@[k].1)
                    == linear_of(opt_shape_model(s.0@[k].1)),
    {
        let shape = match &s.0[i].1 {
            Some(x) => {
                let p = Value::product(&x.0);
                proof {
                    lemma_values_of_shape(*x);
                }
                let mut dims: Vec<Value> = Vec::new();
                dims.push(p);
                let r = Shape(dims);
                proof {
                    assert(shape_model(r) =~= seq![fold_expr(Operator::Mul, ValueModel::UInt(1), shape_model(*x))]);
                }
                Some(r)
            },
            None => None,
        };
        v.push((s.0[i].0.clone(), shape));
    }
    let r = Shapes(v);
    proof {
        assert(shapes_model(r) =~= shapes_model(*s).map_values(
            |e: (Seq<char>, Option<Seq<ValueModel>>)| (e.0, linear_of(e.1)),
        ));
    }
    r
}

/// The value that holds a shape: the list of its dimensions.
pub open spec fn dims_value(d: Option<Seq<ValueModel>>) -> Option<ValueModel> {
    match d {
        Some(x) => Some(ValueModel::List(x)),
        None => None,
    }
}

/// The shapes as a value: a dictionary from the names of the tensors to the
/// lists of their dimensions.
pub fn shapes_value(s: &Shapes) -> (r: Value)
    ensures
        r@ == ValueModel::Dict(
            shapes_model(*s).map_values(
                |e: (Seq<char>, Option<Seq<ValueModel>>)| (e.0, dims_value(e.1)),
            ),
        ),
{
    let mut v: Vec<(String, Option<Value>)> = Vec::new();
    for i in 0..s.0.len()
        invariant
            v@.len() == i,
            i <= s.0@.len(),
            forall|k: int|
                0 <= k < i ==> (#[trigger] v@[k]).0@ == s.0@[k].0@ && match v@[k].1 {
                    Some(x) => x@ == ValueModel::List(shape_model(s.0@[k].1->0)) && s.0@[k].1 is Some,
                    None => s.0@[k].1 is None,
                },
    {
        let value = match &s.0[i].1 {
            Some(x) => {
                let d = clone_shape(x);
                proof {
                    lemma_values_of_shape(d);
                }
                Some(Value::List(d.0))
            },
            None => None,
        };
        v.push((s.0[i].0.clone(), value));
    }
    let r = Value::Dict(v);
    proof {
        let m = shapes_model(*s).map_values(
            |e: (Seq<char>, Option<Seq<ValueModel>>)| (e.0, dims_value(e.1)),
        );
        assert forall|k: int| 0 <= k < v@.len() implies #[trigger] crate::ast::value::entries_model(v)[k] == m[k] by {
            match v@[k].1 {
                Some(x) => {},
                None => {},
            }
        }
        assert(crate::ast::value::entries_model(v) =~= m);
    }
    r
}


/// Whether the size of the input tensor `k` cannot be compared: its shape,
/// or that of the output tensor of its name, is generic.
pub open spec fn size_unknown(ins: Shapes, outs: Shapes, k: int) -> bool {
    ins.0@[k].1 is None || match shape_index(outs, ins.0@[k].0@) {
        Some(j) => outs.0@[j].1 is None,
        None => true,
    }
}

/// The first input tensor, from the `k`-th on, whose size cannot be
/// compared.
pub open spec fn first_size_unknown(ins: Shapes, outs: Shapes, k: int) -> Option<int>
    decreases ins.0@.len() - k,
{
    if k < 0 || k >= ins.0@.len() {
        None
    } else if size_unknown(ins, outs, k) {
        Some(k)
    } else {
        first_size_unknown(ins, outs, k + 1)
    }
}

/// Checks that every input tensor, and the output tensor of its name, has a
/// shape: the first that has none is reported by its name.
pub fn check_sizes(ins: &Shapes, outs: &Shapes) -> (r: Result<()>)
    ensures
        match first_size_unknown(*ins, *outs, 0) {
            Some(k) => r matches Err(Error::GraphCallError(GraphCallError::GenericShape { name }))
                && name@ == ins.0@[k].0@,
            None => r is Ok,
        },
{
    let mut k: usize = 0;
    while k < ins.0.len()
        invariant
            k <= ins.0@.len(),
            first_size_unknown(*ins, *outs, 0) == first_size_unknown(*ins, *outs, k as int),
        decreases ins.0@.len() - k,
    {
        let name = &ins.0[k].0;
        let known = match find_shape(outs, name.as_str()) {
            Some(j) => ins.0[k].1.is_some() && outs.0[j].1.is_some(),
            None => false,
        };
        if !known {
            proof {
                assert(size_unknown(*ins, *outs, k as int));
            }
            return Err(Error::GraphCallError(GraphCallError::GenericShape { name: name.clone() }));
        }
        k = k + 1;
    }
    Ok(())
}

/// Whether no node of a tensor graph is an exec node, whose shapes cannot
/// be asked for.
pub open spec fn no_exec(nodes: Seq<TensorNode>) -> bool {
    forall|k: int| 0 <= k < nodes.len() ==> (#[trigger] node_out(nodes[k])) is Some
}

/// Without exec nodes, the last output shapes and every output can be
/// looked for.
pub proof fn lemma_no_exec_scans(nodes: Seq<TensorNode>, i: int, out: OutModel)
    requires
        no_exec(nodes),
    ensures
        last_out(nodes, i) is Some,
        fetch_scan(nodes, i, out) is Some,
    decreases i,
{
    if 0 < i <= nodes.len() {
        assert(node_out(nodes[i - 1]) is Some);
        lemma_no_exec_scans(nodes, i - 1, out);
    }
}

/// The output named `k`, as the last node of a tensor graph that has it
/// gives it, if one has.
pub open spec fn fetched_out(nodes: Seq<TensorNode>, k: Seq<char>) -> Option<OutModel> {
    match fetch_scan(nodes, nodes.len() as int, OutModel { id: None, name: k }) {
        Some(Some(i)) => Some(OutModel { id: Some(node_data(nodes[i]).id), name: k }),
        _ => None,
    }
}

/// The outputs of a tensor graph that the named inputs take, gathered by
/// name; the first name that no node gives is reported.
pub fn fetch_inputs(tensor_graph: &TensorGraph, names: &Vec<String>) -> (r: Result<StrMap<Out>>)
    requires
        no_exec(tensor_graph.0@),
    ensures
        first_unfetched(tensor_graph.0@, strs(names@), 0) matches Some(k) ==> (r matches Err(
            Error::GraphNodeError(GraphNodeError::NoSuchInput { out }),
        ) && out@ == OutModel { id: None, name: names@[k]@ }),
        first_unfetched(tensor_graph.0@, strs(names@), 0) is None ==> (r matches Ok(m) && m.wf()
            && out_map_view(m) == io_inputs(tensor_graph.0@, strs(names@))),
{
    let ghost nodes = tensor_graph.0@;
    let ghost outs = strs(names@).map_values(|k: Seq<char>| fetched_out(nodes, k)->0);
    let mut r: StrMap<Out> = StrMap::new();
    let mut i: usize = 0;
    proof {
        assert(out_map_view(r) =~= collect_outs(outs.take(0)));
    }
    while i < names.len()
        invariant
            i <= names@.len(),
            nodes == tensor_graph.0@,
            no_exec(nodes),
            outs == strs(names@).map_values(|k: Seq<char>| fetched_out(nodes, k)->0),
            first_unfetched(nodes, strs(names@), 0) == first_unfetched(nodes, strs(names@), i as int),
            r.wf(),
            out_map_view(r) == collect_outs(outs.take(i as int)),
        decreases names@.len() - i,
    {
        let mut out = Out::with_name(names[i].clone());
        let ghost o = out@;
        proof {
            lemma_no_exec_scans(nodes, nodes.len() as int, o);
            assert(o == OutModel { id: None, name: names@[i as int]@ });
        }
        match tensor_graph.fetch_shape(&mut out) {
            Ok(_) => {},
            Err(e) => {
                return Err(e);
            },
        }
        proof {
            assert(strs(names@)[i as int] == names@[i as int]@);
            assert(fetched_out(nodes, names@[i as int]@) is Some);
            assert(outs[i as int] == out@);
            assert(outs.take(i + 1).drop_last() =~= outs.take(i as int));
            assert(outs.take(i + 1).last() == outs[i as int]);
        }
        let ghost old_r = r;
        let ghost xm = out@;
        r.insert(out.name.clone(), out);
        proof {
            assert(out_map_view(r) =~= out_map_view(old_r).insert(xm.name, xm));
        }
        i = i + 1;
    }
    proof {
        assert(outs.take(names@.len() as int) =~= outs);
    }
    Ok(r)
}


/// The outputs, by name, that entries hold.
pub open spec fn outs_map(o: Seq<(String, Out)>) -> Map<Seq<char>, OutModel> {
    Map::new(
        |k: Seq<char>| out_keys(o).contains(k),
        |k: Seq<char>| lookup(out_keys(o), o.map_values(|e: (String, Out)| e.1@), k),
    )
}

/// The entries of a map of outputs, in ascending name order.
pub fn out_entries(m: StrMap<Out>) -> (r: Outs)
    requires
        m.wf(),
    ensures
        sorted_keys(out_keys(r@)),
        outs_map(r@) == out_map_view(m),
{
    let ghost keys = m.key_seq();
    let ghost vals = m.val_seq();
    let ghost mv = out_map_view(m);
    let r = m.into_entries();
    proof {
        assert(out_keys(r@) =~= keys);
        let vs = r@.map_values(|e: (String, Out)| e.1@);
        assert forall|k: Seq<char>| #[trigger] outs_map(r@).contains_key(k) implies outs_map(r@)[k]
            == mv[k] by {
            let j = super::strmap::key_index(keys, k);
            assert(vs[j] == vals[j]@);
        }
        assert(outs_map(r@) =~= mv);
    }
    r
}

/// The inputs that an external node takes, by name, from the outputs of a
/// tensor graph.
pub open spec fn io_inputs(nodes: Seq<TensorNode>, names: Seq<Seq<char>>) -> Map<Seq<char>, OutModel> {
    collect_outs(names.map_values(|k: Seq<char>| fetched_out(nodes, k)->0))
}

/// The outputs, by name, that the node `id` gives the next node.
pub open spec fn io_outputs(id: u64, names: Seq<Seq<char>>) -> Map<Seq<char>, OutModel> {
    collect_outs(names.map_values(|k: Seq<char>| OutModel { id: Some((id + 1) as u64), name: k }))
}

/// Whether `e` is the external node `id` named `name`, with the given
/// shapes, and the given inputs and outputs by name.
pub open spec fn is_extern_ir(
    e: ExternIR,
    id: u64,
    name: Seq<char>,
    input: Seq<(Seq<char>, Option<Seq<ValueModel>>)>,
    output: Seq<(Seq<char>, Option<Seq<ValueModel>>)>,
    ins: Map<Seq<char>, OutModel>,
    outs: Map<Seq<char>, OutModel>,
) -> bool {
    &&& e.ty == ExternNodeType::Default
    &&& e.data.id == id
    &&& e.data.name@ == name
    &&& sorted_keys(out_keys(e.data.input@))
    &&& outs_map(e.data.input@) == ins
    &&& sorted_keys(out_keys(e.data.output@))
    &&& outs_map(e.data.output@) == outs
    &&& e.shapes.input matches Some(s) && shapes_model(s) == input
    &&& e.shapes.output matches Some(s) && shapes_model(s) == output
}

/// An external node `id` of the given shapes, whose inputs are the outputs
/// of the tensor graph named `io_input` and whose outputs, named
/// `io_output`, go to the next node; the first input that no node gives is
/// reported.
pub fn build_extern(
    id: u64,
    tensor_graph: &TensorGraph,
    name: String,
    graph: Graph,
    input: Shapes,
    io_input: &Vec<String>,
    output: Shapes,
    io_output: &Vec<String>,
) -> (r: Result<ExternIR>)
    requires
        no_exec(tensor_graph.0@),
        id < u64::MAX,
    ensures
        first_unfetched(tensor_graph.0@, strs(io_input@), 0) matches Some(k) ==> (r matches Err(
            Error::GraphNodeError(GraphNodeError::NoSuchInput { out }),
        ) && out@ == OutModel { id: None, name: io_input@[k]@ }),
        first_unfetched(tensor_graph.0@, strs(io_input@), 0) is None ==> (r matches Ok(e)
            && e.data.graph == graph && is_extern_ir(
            e,
            id,
            name@,
            shapes_model(input),
            shapes_model(output),
            io_inputs(tensor_graph.0@, strs(io_input@)),
            io_outputs(id, strs(io_output@)),
        )),
{
    let ins = match fetch_inputs(tensor_graph, io_input) {
        Ok(m) => m,
        Err(e) => {
            return Err(e);
        },
    };
    let outs = arrange_outputs(id, io_output);
    let data = IRData { id, name, graph, input: out_entries(ins), output: out_entries(outs) };
    Ok(
        ExternIR {
            ty: ExternNodeType::Default,
            data,
            shapes: ExternIRShapes { input: Some(input), output: Some(output) },
        },
    )
}


/// The error that a node of a built-in kind gives where it does not look
/// like one, if it does not.
pub open spec fn builtin_fault(node: GraphNode, b: NodeBuilder) -> Option<NodeFault> {
    node_fault(builtin_constraints(b), seq![builtin_name(b)], 0, node)
}

/// Whether `e` reports the fault `f` of a node of a built-in kind.
pub open spec fn reports_builtin_fault(e: Error, f: NodeFault, node: GraphNode, b: NodeBuilder) -> bool {
    reports_fault(e, f, builtin_constraints(b), seq![builtin_name(b)], 0, node)
}

/// Whether `g` is a new graph numbered `gid` without variables.
pub open spec fn is_empty_graph(g: Graph, gid: u64) -> bool {
    &&& g.wf()
    &&& g.gid() == gid
    &&& g.vars() == Map::<Seq<char>, VariableModel>::empty()
    &&& g.var_keys() == Seq::<Seq<char>>::empty()
    &&& g.table() == Map::<Seq<char>, Seq<char>>::empty()
}

/// Whether `g` is a new graph numbered `gid` with one variable, `name`,
/// of the value `value`.
pub open spec fn is_one_var_graph(g: Graph, gid: u64, name: Seq<char>, value: Option<ValueModel>) -> bool {
    &&& g.wf()
    &&& g.gid() == gid
    &&& g.vars() == Map::<Seq<char>, VariableModel>::empty().insert(
        name,
        VariableModel { id: Some(gid), id_old: Some(gid), name, shortcut: None, ty: None, value },
    )
    &&& g.var_keys() == seq![name]
    &&& g.table() == Map::<Seq<char>, Seq<char>>::empty()
}

/// Builds the input node of a tensor graph, numbered 0: it asserts the
/// shapes that the node declares, and has no variables.
pub fn build_input_node(tensor_graph: &mut TensorGraph, node: GraphNode, seed: &mut Seed) -> (r: Result<()>)
    requires
        node.wf(),
        old(seed).next() < u64::MAX,
    ensures
        builtin_fault(node, NodeBuilder::Input) matches Some(f) ==> r is Err && reports_builtin_fault(
            r->Err_0,
            f,
            node,
            NodeBuilder::Input,
        ) && *final(tensor_graph) == *old(tensor_graph) && final(seed).next() == old(seed).next(),
        builtin_fault(node, NodeBuilder::Input) is None ==> {
            &&& r is Ok
            &&& final(seed).next() == old(seed).next() + 1
            &&& final(tensor_graph).0@.len() == old(tensor_graph).0@.len() + 1
            &&& final(tensor_graph).0@.drop_last() == old(tensor_graph).0@
            &&& final(tensor_graph).0@.last() matches TensorNode::Extern(e) && {
                &&& e.ty == ExternNodeType::Default
                &&& e.data.id == 0
                &&& e.data.name@ == assert_shape_name()
                &&& is_empty_graph(e.data.graph, old(seed).next())
                &&& outs_view(e.data.input@) == shapes_outs(1, None)
                &&& outs_view(e.data.output@) == shapes_outs(1, node.shapes)
                &&& e.shapes.input is None
                &&& e.shapes.output == node.shapes
            }
        },
{
    match test_builtin(&node, NodeBuilder::Input) {
        Ok(()) => {},
        Err(e) => {
            return Err(e);
        },
    }
    let graph = Graph::new(seed);
    let name = String::from_str("AssertShape");
    proof {
        reveal_strlit("AssertShape");
        assert(name@ =~= assert_shape_name());
    }
    let ir = ExternIR::new_first(ExternNodeType::Default, name, graph, None, node.shapes);
    tensor_graph.0.push(TensorNode::Extern(ir));
    Ok(())
}


/// The names of the tensors that shapes describe.
pub fn shape_names(s: &Shapes) -> (r: Vec<String>)
    ensures
        strs(r@) == shape_keys(*s),
{
    let mut r: Vec<String> = Vec::new();
    for i in 0..s.0.len()
        invariant
            r@.len() == i,
            i <= s.0@.len(),
            forall|k: int| 0 <= k < i ==> (#[trigger] r@[k])@ == s.0@[k].0@,
    {
        r.push(s.0[i].0.clone());
    }
    proof {
        assert(strs(r@) =~= shape_keys(*s));
    }
    r
}

/// The name of the variable that holds the shapes a transformation gives.
pub open spec fn output_shapes_name() -> Seq<char> {
    seq!['o', 'u', 't', 'p', 'u', 't', ' ', 's', 'h', 'a', 'p', 'e', 's']
}

/// The shapes that `Transform` declares, or that `ToLinear` makes of the
/// input shapes.
pub open spec fn transform_outputs(node: GraphNode, ins: Shapes, linear: bool) -> Seq<
    (Seq<char>, Option<Seq<ValueModel>>),
> {
    if linear {
        shapes_model(ins).map_values(
            |e: (Seq<char>, Option<Seq<ValueModel>>)| (e.0, linear_of(e.1)),
        )
    } else {
        shapes_model(node.shapes->0)
    }
}

/// The built-in node of a transformation.
pub open spec fn transform_builder(linear: bool) -> NodeBuilder {
    if linear {
        NodeBuilder::ToLinear
    } else {
        NodeBuilder::Transform
    }
}

/// Whether the transformation passes its checks up to the building of its
/// node: the node looks like a transformation, the tensor graph has output
/// shapes, and `Transform` keeps the names of the tensors and gives every
/// one a shape.
pub open spec fn transform_checked(nodes: Seq<TensorNode>, node: GraphNode, linear: bool) -> bool {
    let ins = last_out(nodes, nodes.len() as int)->0->0;
    &&& builtin_fault(node, transform_builder(linear)) is None
    &&& last_out(nodes, nodes.len() as int)->0 is Some
    &&& !linear ==> keys_match(shape_keys(ins), shape_keys(node.shapes->0))
    &&& !linear ==> first_size_unknown(ins, node.shapes->0, 0) is None
}

/// The shapes that a transformation gives the input shapes: `ToLinear`
/// flattens each tensor; `Transform` gives those that the node declares,
/// which must name the same tensors, each of which, in the input and in the
/// output, must have a shape.
pub fn transform_shapes(ins: &Shapes, given: Option<Shapes>, linear: bool) -> (r: Result<Shapes>)
    requires
        linear || given is Some,
    ensures
        linear ==> (r matches Ok(o) && shapes_model(o) == shapes_model(*ins).map_values(
            |e: (Seq<char>, Option<Seq<ValueModel>>)| (e.0, linear_of(e.1)),
        )),
        !linear && !keys_match(shape_keys(*ins), shape_keys(given->0)) ==> (r matches Err(
            Error::GraphCallError(GraphCallError::MismatchedShapeKeys { expected, given: g }),
        ) && strs(expected@) == shape_keys(*ins) && strs(g@) == shape_keys(given->0)),
        !linear && keys_match(shape_keys(*ins), shape_keys(given->0)) ==> match first_size_unknown(
            *ins,
            given->0,
            0,
        ) {
            Some(k) => r matches Err(Error::GraphCallError(GraphCallError::GenericShape { name }))
                && name@ == ins.0@[k].0@,
            None => r == Ok::<Shapes, Error>(given->0),
        },
{
    if linear {
        return Ok(linear_shapes(ins));
    }
    let given = match given {
        Some(s) => s,
        None => {
            return Err(Error::GraphCallError(GraphCallError::GenericShapes));
        },
    };
    let names = shape_names(ins);
    let given_names = shape_names(&given);
    match super::nodes::match_shape_keys(&names, &given_names) {
        Ok(()) => {},
        Err(e) => {
            return Err(e);
        },
    }
    match check_sizes(ins, &given) {
        Ok(()) => {},
        Err(e) => {
            return Err(e);
        },
    }
    Ok(given)
}

/// The checks of a transformation before its node is built: the input
/// shapes (the last output shapes of the tensor graph), the shapes it gives,
/// and the names of the input shapes.
pub fn transform_prepare(tensor_graph: &TensorGraph, node: GraphNode, linear: bool) -> (r: Result<
    (Shapes, Shapes, Vec<String>),
>)
    requires
        no_exec(tensor_graph.0@),
        node.wf(),
    ensures
        builtin_fault(node, transform_builder(linear)) matches Some(f) ==> r is Err && reports_builtin_fault(
            r->Err_0,
            f,
            node,
            transform_builder(linear),
        ),
        builtin_fault(node, transform_builder(linear)) is None && last_out(
            tensor_graph.0@,
            tensor_graph.0@.len() as int,
        )->0 is None ==> r == Err::<(Shapes, Shapes, Vec<String>), Error>(
            Error::GraphCallError(GraphCallError::GenericShapes),
        ),
        ({
            let ins = last_out(tensor_graph.0@, tensor_graph.0@.len() as int)->0->0;
            let given = node.shapes->0;
            builtin_fault(node, transform_builder(linear)) is None && last_out(
                tensor_graph.0@,
                tensor_graph.0@.len() as int,
            )->0 is Some && !linear && !keys_match(shape_keys(ins), shape_keys(given)) ==> (r matches Err(
                Error::GraphCallError(GraphCallError::MismatchedShapeKeys { expected, given: g }),
            ) && strs(expected@) == shape_keys(ins) && strs(g@) == shape_keys(given))
        }),
        ({
            let ins = last_out(tensor_graph.0@, tensor_graph.0@.len() as int)->0->0;
            let given = node.shapes->0;
            builtin_fault(node, transform_builder(linear)) is None && last_out(
                tensor_graph.0@,
                tensor_graph.0@.len() as int,
            )->0 is Some && !linear && keys_match(shape_keys(ins), shape_keys(given)) ==> (
            first_size_unknown(ins, given, 0) matches Some(j) ==> (r matches Err(
                Error::GraphCallError(GraphCallError::GenericShape { name }),
            ) && name@ == ins.0@[j].0@))
        }),
        r is Ok <==> transform_checked(tensor_graph.0@, node, linear),
        r matches Ok((i, o, n)) ==> ({
            let ins = last_out(tensor_graph.0@, tensor_graph.0@.len() as int)->0->0;
            shapes_model(i) == shapes_model(ins) && shapes_model(o)
                == transform_outputs(node, ins, linear) && strs(n@) == shape_keys(ins)
        }),
{
    let ghost nodes = tensor_graph.0@;
    let ghost node0 = node;
    let builder = if linear {
        NodeBuilder::ToLinear
    } else {
        NodeBuilder::Transform
    };
    match test_builtin(&node, builder) {
        Ok(()) => {},
        Err(e) => {
            return Err(e);
        },
    }
    proof {
        lemma_no_exec_scans(nodes, nodes.len() as int, OutModel { id: None, name: Seq::empty() });
    }
    let last = match tensor_graph.last_output_shapes() {
        Some(s) => s,
        None => {
            return Err(Error::GraphCallError(GraphCallError::GenericShapes));
        },
    };
    let outputs = match transform_shapes(last, node.shapes, linear) {
        Ok(o) => o,
        Err(e) => {
            return Err(e);
        },
    };
    let names = shape_names(last);
    let inputs = clone_shapes(last);
    Ok((inputs, outputs, names))
}

/// Builds the node of a transformation of the last output shapes of a
/// tensor graph: `Transform` to the shapes that the node declares, which
/// must name the same tensors, `ToLinear` to the shapes of one dimension,
/// the product of the dimensions of each tensor. The node asserts the output
/// shapes, which its one variable holds, and takes the outputs of the tensor
/// graph of the names of the input shapes.
pub fn build_transform(tensor_graph: &mut TensorGraph, node: GraphNode, linear: bool, seed: &mut Seed) -> (r:
    Result<()>)
    requires
        no_exec(old(tensor_graph).0@),
        old(seed).next() < u64::MAX,
        node.id < u64::MAX,
        node.wf(),
    ensures
        ({
            let b = transform_builder(linear);
            let nodes = old(tensor_graph).0@;
            let last = last_out(nodes, nodes.len() as int)->0;
            let ins = last->0;
            let given = node.shapes->0;
            let names = shape_keys(ins);
            let outs = transform_outputs(node, ins, linear);
            &&& builtin_fault(node, b) matches Some(f) ==> r is Err && reports_builtin_fault(
                r->Err_0,
                f,
                node,
                b,
            )
            &&& builtin_fault(node, b) is None && last is None ==> r == Err::<(), Error>(
                Error::GraphCallError(GraphCallError::GenericShapes),
            )
            &&& builtin_fault(node, b) is None && last is Some && !linear && !keys_match(
                names,
                shape_keys(given),
            ) ==> (r matches Err(
                Error::GraphCallError(GraphCallError::MismatchedShapeKeys { expected, given: g }),
            ) && strs(expected@) == names && strs(g@) == shape_keys(given))
            &&& builtin_fault(node, b) is None && last is Some && !linear && keys_match(
                names,
                shape_keys(given),
            ) ==> (first_size_unknown(ins, given, 0) matches Some(k) ==> (r matches Err(
                Error::GraphCallError(GraphCallError::GenericShape { name }),
            ) && name@ == ins.0@[k].0@))
            &&& !transform_checked(nodes, node, linear) ==> *final(tensor_graph) == *old(tensor_graph)
                && final(seed).next() == old(seed).next()
            &&& transform_checked(nodes, node, linear) ==> {
                &&& final(seed).next() == old(seed).next() + 1
                &&& first_unfetched(nodes, names, 0) matches Some(k) ==> (r matches Err(
                    Error::GraphNodeError(GraphNodeError::NoSuchInput { out }),
                ) && out@ == OutModel { id: None, name: names[k] }) && *final(tensor_graph) == *old(
                    tensor_graph,
                )
                &&& first_unfetched(nodes, names, 0) is None ==> {
                    &&& r is Ok
                    &&& final(tensor_graph).0@.len() == nodes.len() + 1
                    &&& final(tensor_graph).0@.drop_last() == nodes
                    &&& final(tensor_graph).0@.last() matches TensorNode::Extern(e) && is_extern_ir(
                        e,
                        node.id,
                        assert_shape_name(),
                        shapes_model(ins),
                        outs,
                        io_inputs(nodes, names),
                        io_outputs(node.id, names),
                    ) && is_one_var_graph(
                        e.data.graph,
                        old(seed).next(),
                        output_shapes_name(),
                        Some(
                            ValueModel::Dict(
                                outs.map_values(
                                    |e: (Seq<char>, Option<Seq<ValueModel>>)| (e.0, dims_value(e.1)),
                                ),
                            ),
                        ),
                    )
                }
            }
        }),
{
    let ghost nodes = tensor_graph.0@;
    let id = node.id;
    let (inputs, outputs, names) = match transform_prepare(tensor_graph, node, linear) {
        Ok(t) => t,
        Err(e) => {
            return Err(e);
        },
    };
    let value = shapes_value(&outputs);
    let graph = Graph::with_one_var(seed, "output shapes", Some(value));
    proof {
        reveal_strlit("output shapes");
        assert("output shapes"@ =~= output_shapes_name());
    }
    let name = String::from_str("AssertShape");
    proof {
        reveal_strlit("AssertShape");
        assert(name@ =~= assert_shape_name());
    }
    proof {
        lemma_first_unfetched(tensor_graph.0@, strs(names@), 0);
        assert forall|k: int| 0 <= k < names@.len() implies #[trigger] strs(names@)[k] == names@[k]@ by {}
    }
    let r = push_extern(tensor_graph, id, name, graph, inputs, &names, outputs, &names);
    r
}



/// The first name, from the `k`-th on, whose output no node of the tensor
/// graph gives.
pub open spec fn first_unfetched(nodes: Seq<TensorNode>, names: Seq<Seq<char>>, k: int) -> Option<int>
    decreases names.len() - k,
{
    if k < 0 || k >= names.len() {
        None
    } else if fetched_out(nodes, names[k]) is None {
        Some(k)
    } else {
        first_unfetched(nodes, names, k + 1)
    }
}

/// The first name whose output no node gives is the first such name.
pub proof fn lemma_first_unfetched(nodes: Seq<TensorNode>, names: Seq<Seq<char>>, k: int)
    requires
        0 <= k <= names.len(),
    ensures
        first_unfetched(nodes, names, k) matches Some(i) ==> k <= i < names.len() && fetched_out(
            nodes,
            names[i],
        ) is None && forall|j: int| k <= j < i ==> (#[trigger] fetched_out(nodes, names[j])) is Some,
        first_unfetched(nodes, names, k) is None ==> forall|j: int|
            k <= j < names.len() ==> (#[trigger] fetched_out(nodes, names[j])) is Some,
    decreases names.len() - k,
{
    if k < names.len() {
        lemma_first_unfetched(nodes, names, k + 1);
    }
}

/// Adds to the tensor graph the external node that [`build_extern`] makes.
pub fn push_extern(
    tensor_graph: &mut TensorGraph,
    id: u64,
    name: String,
    graph: Graph,
    input: Shapes,
    io_input: &Vec<String>,
    output: Shapes,
    io_output: &Vec<String>,
) -> (r: Result<()>)
    requires
        no_exec(old(tensor_graph).0@),
        id < u64::MAX,
    ensures
        r is Err ==> *final(tensor_graph) == *old(tensor_graph),
        first_unfetched(old(tensor_graph).0@, strs(io_input@), 0) matches Some(k) ==> (r matches Err(
            Error::GraphNodeError(GraphNodeError::NoSuchInput { out }),
        ) && out@ == OutModel { id: None, name: io_input@[k]@ }),
        first_unfetched(old(tensor_graph).0@, strs(io_input@), 0) is None ==> {
            &&& r is Ok
            &&& final(tensor_graph).0@.len() == old(tensor_graph).0@.len() + 1
            &&& final(tensor_graph).0@.drop_last() == old(tensor_graph).0@
            &&& final(tensor_graph).0@.last() matches TensorNode::Extern(e) && e.data.graph == graph
                && is_extern_ir(
                e,
                id,
                name@,
                shapes_model(input),
                shapes_model(output),
                io_inputs(old(tensor_graph).0@, strs(io_input@)),
                io_outputs(id, strs(io_output@)),
            )
        },
{
    let ir = match build_extern(id, tensor_graph, name, graph, input, io_input, output, io_output) {
        Ok(ir) => ir,
        Err(e) => {
            return Err(e);
        },
    };
    tensor_graph.0.push(TensorNode::Extern(ir));
    Ok(())
}

/// Flattening a tensor gives it one dimension, the product of all of its
/// dimensions, each once and in order, starting from 1; a generic shape
/// stays generic.
pub proof fn lemma_linear_is_product(x: Seq<ValueModel>)
    ensures
        linear_of(Some(x)) matches Some(d) && d.len() == 1 && fold_args(Operator::Mul, d[0], x.len())
            == seq![ValueModel::UInt(1)] + x,
        linear_of(None) is None,
{
    lemma_fold_keeps_values(Operator::Mul, ValueModel::UInt(1), x);
}

} // verus!
