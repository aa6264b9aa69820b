use vstd::prelude::*;

use super::builtins::{
    builtin_fault, first_unfetched, io_inputs, io_outputs, is_extern_ir, is_one_var_graph,
    lemma_first_unfetched, lemma_no_exec_scans, no_exec, push_extern, reports_builtin_fault,
    shapes_model,
};
use super::error::{strs, Error, GraphCallError, GraphNodeError, Result};
use super::graph::Graph;
use super::nodes::{concat_axis, concat_axis_of, test_builtin, NodeBuilder};
use super::seed::Seed;
use super::tensor_graph::{
    clone_shape, fetch_scan, node_out, opt_shape_model, shape_index, shape_model, TensorGraph,
    TensorNode,
};
use crate::ast::graph_node::{GraphInputs, GraphNode, Out, OutModel, Shape, Shapes};
use crate::ast::types::{LetType, Operator};
use crate::ast::value::{as_int, has_type, type_of, values_model, Value, ValueModel};
use crate::ast::value_ops::{fold_args, fold_expr, lemma_fold_keeps_values};
use crate::text::{decimal_of, format_u128};

verus! {

broadcast use vstd::std_specs::vec::group_vec_axioms;

/// The models of the optional shapes of the inputs of `Concat`.
pub open spec fn input_models(inputs: Seq<Option<Shape>>) -> Seq<Option<Seq<ValueModel>>> {
    inputs.map_values(|s: Option<Shape>| opt_shape_model(s))
}

/// Whether the input `k` cannot be joined to a first input of `dims`
/// dimensions: its shape is generic, or it has another number of them.
pub open spec fn concat_mismatch(ms: Seq<Option<Seq<ValueModel>>>, dims: int, k: int) -> bool {
    match ms[k] {
        None => true,
        Some(s) => s.len() != dims,
    }
}

/// The error that the input `k` gives when it cannot be joined.
pub open spec fn concat_error(ms: Seq<Option<Seq<ValueModel>>>, dims: int, k: int) -> Error {
    match ms[k] {
        None => Error::GraphCallError(GraphCallError::GenericListInputShape { index: k as usize }),
        Some(s) => Error::GraphCallError(
            GraphCallError::MismatchedShapes { expected: dims as usize, given: s.len() as usize },
        ),
    }
}

/// The dimension along `axis` of the joined tensor: the sum of the inputs'
/// dimensions along it, in order.
pub open spec fn concat_dim(ms: Seq<Option<Seq<ValueModel>>>, axis: int) -> ValueModel {
    fold_expr(Operator::Add, ValueModel::UInt(0), Seq::new(ms.len(), |k: int| ms[k]->0[axis]))
}

/// The first input, from the `k`-th on, that cannot be joined to a first
/// input of `dims` dimensions.
pub open spec fn first_concat_mismatch(ms: Seq<Option<Seq<ValueModel>>>, dims: int, k: int) -> Option<int>
    decreases ms.len() - k,
{
    if k < 0 || k >= ms.len() {
        None
    } else if concat_mismatch(ms, dims, k) {
        Some(k)
    } else {
        first_concat_mismatch(ms, dims, k + 1)
    }
}

/// What `Concat` makes of tensors of the given shapes, joined along `axis`
/// (a negative axis `a` stands for `-a` less the number of dimensions): the
/// first input must have a shape, and the others as many dimensions; the
/// joined dimension is the sum of theirs, and each other dimension is that
/// of the first input.
pub open spec fn concat_spec(ms: Seq<Option<Seq<ValueModel>>>, axis: i64) -> std::result::Result<
    Seq<ValueModel>,
    Error,
> {
    if ms.len() == 0 {
        Err(Error::GraphCallError(GraphCallError::EmptyInputs))
    } else if ms[0] is None {
        Err(Error::GraphCallError(GraphCallError::GenericShapes))
    } else {
        let base = ms[0]->0;
        let dims = base.len() as int;
        let ax = concat_axis_of(axis, dims);
        if !(0 <= ax < dims) {
            Err(
                Error::GraphCallError(
                    GraphCallError::MismatchedAxis { val_min: 0, val_max: (dims - 1) as i64, given: ax as i64 },
                ),
            )
        } else {
            match first_concat_mismatch(ms, dims, 1) {
                Some(k) => Err(concat_error(ms, dims, k)),
                None => Ok(base.update(ax, concat_dim(ms, ax))),
            }
        }
    }
}

/// The shape of the tensor that `Concat` makes of tensors of the given
/// shapes, joined along `axis`.
pub fn concat_shapes(inputs: &Vec<Option<Shape>>, axis: i64) -> (r: Result<Shape>)
    requires
        axis != i64::MIN,
        inputs@.len() > 0 && inputs@[0] is Some ==> shape_model(inputs@[0]->0).len() <= i64::MAX,
    ensures
        match concat_spec(input_models(inputs@), axis) {
            Ok(d) => r matches Ok(s) && shape_model(s) == d,
            Err(e) => r == Err::<Shape, Error>(e),
        },
{
    let ghost ms = input_models(inputs@);
    if inputs.len() == 0 {
        return Err(Error::GraphCallError(GraphCallError::EmptyInputs));
    }
    let base: &Shape = match &inputs[0] {
        Some(s) => s,
        None => {
            return Err(Error::GraphCallError(GraphCallError::GenericShapes));
        },
    };
    let tensor_dims = base.0.len();
    let ghost dims = tensor_dims as int;
    proof {
        assert(ms[0] == Some(shape_model(*base)));
    }
    let ax = match concat_axis(axis, tensor_dims) {
        Ok(a) => a,
        Err(e) => {
            return Err(e);
        },
    };
    let mut target: Vec<Value> = Vec::new();
    target.push(base.0[ax].deep_clone());
    let mut k: usize = 1;
    while k < inputs.len()
        invariant
            1 <= k <= inputs@.len(),
            ms == input_models(inputs@),
            ms[0] == Some(shape_model(*base)),
            dims == base.0@.len(),
            tensor_dims == base.0@.len(),
            0 <= ax < dims,
            ax as int == concat_axis_of(axis, dims),
            first_concat_mismatch(ms, dims, 1) == first_concat_mismatch(ms, dims, k as int),
            target@.len() == k,
            forall|j: int| 0 <= j < k ==> (#[trigger] target@[j])@ == ms[j]->0[ax as int],
        decreases inputs@.len() - k,
    {
        let shape: &Shape = match &inputs[k] {
            Some(s) => s,
            None => {
                proof {
                    assert(ms[k as int] == opt_shape_model(inputs@[k as int]));
                    assert(concat_mismatch(ms, dims, k as int));
                }
                return Err(Error::GraphCallError(GraphCallError::GenericListInputShape { index: k }));
            },
        };
        proof {
            assert(ms[k as int] == Some(shape_model(*shape)));
        }
        if shape.0.len() != tensor_dims {
            proof {
                assert(shape_model(*shape).len() == shape.0@.len());
                assert(concat_mismatch(ms, dims, k as int));
            }
            return Err(
                Error::GraphCallError(
                    GraphCallError::MismatchedShapes { expected: tensor_dims, given: shape.0.len() },
                ),
            );
        }
        target.push(shape.0[ax].deep_clone());
        k = k + 1;
    }
    let dim = Value::sum(&target);
    proof {
        assert(values_model(target).len() == ms.len());
        assert(values_model(target) =~= Seq::new(ms.len(), |j: int| ms[j]->0[ax as int]));
    }
    let mut out: Vec<Value> = Vec::new();
    let mut i: usize = 0;
    while i < tensor_dims
        invariant
            i <= tensor_dims,
            tensor_dims == base.0@.len(),
            0 <= ax < tensor_dims,
            out@.len() == i,
            forall|j: int|
                0 <= j < i ==> (#[trigger] out@[j])@ == (if j == ax {
                    dim@
                } else {
                    base.0@[j]@
                }),
        decreases tensor_dims - i,
    {
        if i == ax {
            out.push(dim.deep_clone());
        } else {
            out.push(base.0[i].deep_clone());
        }
        i = i + 1;
    }
    let r = Shape(out);
    proof {
        assert(shape_model(r) =~= shape_model(*base).update(ax as int, concat_dim(ms, ax as int)));
    }
    Ok(r)
}


/// The first of the outputs, from the `k`-th on, that no node of the tensor
/// graph gives.
pub open spec fn first_unfound(nodes: Seq<TensorNode>, outs: Seq<OutModel>, k: int) -> Option<int>
    decreases outs.len() - k,
{
    if k < 0 || k >= outs.len() {
        None
    } else if fetch_scan(nodes, nodes.len() as int, outs[k])->0 is None {
        Some(k)
    } else {
        first_unfound(nodes, outs, k + 1)
    }
}

/// The shape that the tensor graph gives an output that one of its nodes
/// gives.
pub open spec fn fetched_shape(nodes: Seq<TensorNode>, out: OutModel) -> Option<Seq<ValueModel>> {
    let k = fetch_scan(nodes, nodes.len() as int, out)->0->0;
    let s = node_out(nodes[k])->0->0;
    opt_shape_model(s.0@[shape_index(s, out.name)->0].1)
}

/// The shapes that the tensor graph gives the outputs, in order; the first
/// output that no node gives is reported.
pub fn fetch_list_shapes(tensor_graph: &TensorGraph, outs: &Vec<Out>) -> (r: Result<Vec<Option<Shape>>>)
    requires
        no_exec(tensor_graph.0@),
    ensures
        ({
            let nodes = tensor_graph.0@;
            let os = outs@.map_values(|o: Out| o@);
            match first_unfound(nodes, os, 0) {
                Some(k) => r matches Err(Error::GraphNodeError(GraphNodeError::NoSuchInput { out }))
                    && out@ == os[k],
                None => r matches Ok(v) && input_models(v@) == os.map_values(
                    |o: OutModel| fetched_shape(nodes, o),
                ),
            }
        }),
{
    let ghost nodes = tensor_graph.0@;
    let ghost os = outs@.map_values(|o: Out| o@);
    let mut v: Vec<Option<Shape>> = Vec::new();
    let mut i: usize = 0;
    while i < outs.len()
        invariant
            i <= outs@.len(),
            nodes == tensor_graph.0@,
            no_exec(nodes),
            os == outs@.map_values(|o: Out| o@),
            first_unfound(nodes, os, 0) == first_unfound(nodes, os, i as int),
            v@.len() == i,
            forall|k: int| 0 <= k < i ==> opt_shape_model(#[trigger] v@[k]) == fetched_shape(nodes, os[k]),
        decreases outs@.len() - i,
    {
        let mut out = Out { id: outs[i].id, name: outs[i].name.clone() };
        proof {
            lemma_no_exec_scans(nodes, nodes.len() as int, out@);
            assert(out@ == os[i as int]);
        }
        match tensor_graph.fetch_shape(&mut out) {
            Ok(shape) => {
                v.push(shape);
            },
            Err(e) => {
                return Err(e);
            },
        }
        i = i + 1;
    }
    proof {
        assert(input_models(v@) =~= os.map_values(|o: OutModel| fetched_shape(nodes, o)));
    }
    Ok(v)
}

/// The input shapes of `Concat`, named by their positions.
pub fn list_input_shapes(shapes: &Vec<Option<Shape>>) -> (r: Shapes)
    ensures
        shapes_model(r) == Seq::new(
            shapes@.len(),
            |k: int| (decimal_of(k as nat), input_models(shapes@)[k]),
        ),
{
    let ghost ms = input_models(shapes@);
    let mut v: Vec<(String, Option<Shape>)> = Vec::new();
    for i in 0..shapes.len()
        invariant
            ms == input_models(shapes@),
            v@.len() == i,
            forall|k: int|
                0 <= k < i ==> (#[trigger] v@[k]).0@ == decimal_of(k as nat) && opt_shape_model(v@[k].1)
                    == ms[k],
    {
        let shape = match &shapes[i] {
            Some(x) => Some(clone_shape(x)),
            None => None,
        };
        let name = format_u128(i as u128);
        v.push((name, shape));
    }
    let r = Shapes(v);
    proof {
        assert(shapes_model(r) =~= Seq::new(ms.len(), |k: int| (decimal_of(k as nat), ms[k])));
    }
    r
}


/// The input and output shapes of the node of a call of `Concat` that joins
/// the listed outputs along `axis`, and the axis counted from the first
/// dimension.
pub fn concat_layout(tensor_graph: &TensorGraph, list: &Vec<Out>, axis: i64) -> (r: Result<
    (Shapes, Shapes, usize),
>)
    requires
        no_exec(tensor_graph.0@),
        axis != i64::MIN,
        forall|o: OutModel|
            (#[trigger] fetched_shape(tensor_graph.0@, o)) matches Some(d) ==> d.len() <= i64::MAX,
    ensures
        ({
            let nodes = tensor_graph.0@;
            let os = list@.map_values(|o: Out| o@);
            let ms = os.map_values(|o: OutModel| fetched_shape(nodes, o));
            &&& first_unfound(nodes, os, 0) matches Some(k) ==> (r matches Err(
                Error::GraphNodeError(GraphNodeError::NoSuchInput { out }),
            ) && out@ == os[k])
            &&& first_unfound(nodes, os, 0) is None ==> match concat_spec(ms, axis) {
                Err(e) => r == Err::<(Shapes, Shapes, usize), Error>(e),
                Ok(d) => r matches Ok((i, o, ax)) && shapes_model(i) == Seq::new(
                    ms.len(),
                    |k: int| (decimal_of(k as nat), ms[k]),
                ) && shapes_model(o) == seq![(seq!['x'], Some(d))] && ax as int == concat_axis_of(
                    axis,
                    ms[0]->0.len() as int,
                ),
            }
        }),
{
    let ghost nodes = tensor_graph.0@;
    let shapes = match fetch_list_shapes(tensor_graph, list) {
        Ok(v) => v,
        Err(e) => {
            return Err(e);
        },
    };
    let ghost ms = input_models(shapes@);
    proof {
        if shapes@.len() > 0 && shapes@[0] is Some {
            assert(ms[0] == opt_shape_model(shapes@[0]));
        }
    }
    let output = match concat_shapes(&shapes, axis) {
        Ok(s) => s,
        Err(e) => {
            return Err(e);
        },
    };
    let tensor_dims = match &shapes[0] {
        Some(s) => s.0.len(),
        None => 0,
    };
    proof {
        assert(ms[0] == opt_shape_model(shapes@[0]));
    }
    let ax = match concat_axis(axis, tensor_dims) {
        Ok(a) => a,
        Err(e) => {
            return Err(e);
        },
    };
    let inputs = list_input_shapes(&shapes);
    let mut outputs_v: Vec<(String, Option<Shape>)> = Vec::new();
    let x = String::from_str("x");
    proof {
        reveal_strlit("x");
        assert(x@ =~= seq!['x']);
    }
    outputs_v.push((x, Some(output)));
    let outputs = Shapes(outputs_v);
    proof {
        assert(shapes_model(outputs) =~= seq![(seq!['x'], Some(concat_spec(ms, axis)->Ok_0))]);
    }
    Ok((inputs, outputs, ax))
}

/// The outputs that a call of `Concat` joins, given as a list.
pub open spec fn concat_list(node: GraphNode) -> Seq<OutModel> {
    node.calls@[0].inputs->0->List_0@.map_values(|o: Out| o@)
}

/// The shapes of the outputs that a call of `Concat` joins.
pub open spec fn concat_inputs(nodes: Seq<TensorNode>, node: GraphNode) -> Seq<Option<Seq<ValueModel>>> {
    concat_list(node).map_values(|o: OutModel| fetched_shape(nodes, o))
}

/// The name of the variable that holds the axis of `Concat`.
pub open spec fn axis_name() -> Seq<char> {
    seq!['a', 'x', 'i', 's']
}

/// Whether `Concat` passes its checks up to the building of its node: the
/// node looks like a call of `Concat`, the axis is a number, the tensor
/// graph gives every joined output, and their shapes can be joined.
pub open spec fn concat_checked(nodes: Seq<TensorNode>, node: GraphNode, axis: ValueModel) -> bool {
    &&& builtin_fault(node, NodeBuilder::Concat) is None
    &&& as_int(axis) is Some
    &&& first_unfound(nodes, concat_list(node), 0) is None
    &&& concat_spec(concat_inputs(nodes, node), as_int(axis)->0) is Ok
}

/// The checks of a call of `Concat` before its node is built: the input and
/// output shapes of the node, the axis counted from the first dimension,
/// and the names of the joined outputs.
pub fn concat_prepare(tensor_graph: &TensorGraph, node: &GraphNode, axis: &Value) -> (r: Result<
    (Shapes, Shapes, usize, Vec<String>),
>)
    requires
        no_exec(tensor_graph.0@),
        node.wf(),
        as_int(axis@) is Some || has_type(axis@),
        as_int(axis@) != Some(i64::MIN),
        forall|o: OutModel|
            (#[trigger] fetched_shape(tensor_graph.0@, o)) matches Some(d) ==> d.len() <= i64::MAX,
    ensures
        builtin_fault(*node, NodeBuilder::Concat) matches Some(f) ==> r is Err && reports_builtin_fault(
            r->Err_0,
            f,
            *node,
            NodeBuilder::Concat,
        ),
        builtin_fault(*node, NodeBuilder::Concat) is None && as_int(axis@) is None ==> r == Err::<
            (Shapes, Shapes, usize, Vec<String>),
            Error,
        >(
            Error::GraphCallError(
                GraphCallError::MismatchedArgType { expected: LetType::UInt, given: type_of(axis@) },
            ),
        ),
        builtin_fault(*node, NodeBuilder::Concat) is None && as_int(axis@) is Some ==> (first_unfound(
            tensor_graph.0@,
            concat_list(*node),
            0,
        ) matches Some(k) ==> (r matches Err(Error::GraphNodeError(GraphNodeError::NoSuchInput { out }))
            && out@ == concat_list(*node)[k])),
        builtin_fault(*node, NodeBuilder::Concat) is None && as_int(axis@) is Some && first_unfound(
            tensor_graph.0@,
            concat_list(*node),
            0,
        ) is None ==> (concat_spec(concat_inputs(tensor_graph.0@, *node), as_int(axis@)->0) matches Err(
            e,
        ) ==> r == Err::<(Shapes, Shapes, usize, Vec<String>), Error>(e)),
        r is Ok <==> concat_checked(tensor_graph.0@, *node, axis@),
        r matches Ok((i, o, ax, n)) ==> ({
            let ms = concat_inputs(tensor_graph.0@, *node);
            &&& shapes_model(i) == Seq::new(ms.len(), |k: int| (decimal_of(k as nat), ms[k]))
            &&& shapes_model(o) == seq![(seq!['x'], Some(concat_spec(ms, as_int(axis@)->0)->Ok_0))]
            &&& ax as int == concat_axis_of(as_int(axis@)->0, ms[0]->0.len() as int)
            &&& strs(n@) == concat_list(*node).map_values(|o: OutModel| o.name)
        }),
{
    match test_builtin(node, NodeBuilder::Concat) {
        Ok(()) => {},
        Err(e) => {
            return Err(e);
        },
    }
    let axis = match axis.unwrap_int() {
        Some(a) => a,
        None => {
            return Err(
                Error::GraphCallError(
                    GraphCallError::MismatchedArgType { expected: LetType::UInt, given: axis.ty() },
                ),
            );
        },
    };
    let call = &node.calls[0];
    let list: &Vec<Out> = match &call.inputs {
        Some(GraphInputs::List(l)) => l,
        _ => {
            return Err(Error::GraphCallError(GraphCallError::EmptyInputs));
        },
    };
    let (inputs, outputs, ax) = match concat_layout(tensor_graph, list, axis) {
        Ok(t) => t,
        Err(e) => {
            return Err(e);
        },
    };
    let mut names: Vec<String> = Vec::new();
    for i in 0..list.len()
        invariant
            names@.len() == i,
            forall|k: int| 0 <= k < i ==> (#[trigger] names@[k])@ == list@[k].name@,
    {
        names.push(list[i].name.clone());
    }
    proof {
        assert(strs(names@) =~= concat_list(*node).map_values(|o: OutModel| o.name));
    }
    Ok((inputs, outputs, ax, names))
}

/// Builds the node of a call of `Concat`, which joins the listed outputs of
/// the tensor graph along `axis`, the call's argument once its variables are
/// replaced and it is evaluated. The node, named as the call, takes the
/// outputs of those names and gives one output `x`; its inputs are named by
/// their positions, and its one variable holds the axis, counted from the
/// first dimension.
pub fn build_concat(tensor_graph: &mut TensorGraph, node: GraphNode, axis: &Value, seed: &mut Seed) -> (r:
    Result<()>)
    requires
        no_exec(old(tensor_graph).0@),
        old(seed).next() < u64::MAX,
        node.id < u64::MAX,
        node.wf(),
        as_int(axis@) is Some || has_type(axis@),
        as_int(axis@) != Some(i64::MIN),
        forall|o: OutModel|
            (#[trigger] fetched_shape(old(tensor_graph).0@, o)) matches Some(d) ==> d.len() <= i64::MAX,
    ensures
        ({
            let nodes = old(tensor_graph).0@;
            let list = concat_list(node);
            let ms = concat_inputs(nodes, node);
            let a = as_int(axis@)->0;
            let names = list.map_values(|o: OutModel| o.name);
            &&& builtin_fault(node, NodeBuilder::Concat) matches Some(f) ==> r is Err
                && reports_builtin_fault(r->Err_0, f, node, NodeBuilder::Concat)
            &&& builtin_fault(node, NodeBuilder::Concat) is None && as_int(axis@) is None ==> r
                == Err::<(), Error>(
                Error::GraphCallError(
                    GraphCallError::MismatchedArgType { expected: LetType::UInt, given: type_of(axis@) },
                ),
            )
            &&& builtin_fault(node, NodeBuilder::Concat) is None && as_int(axis@) is Some ==> (
            first_unfound(nodes, list, 0) matches Some(k) ==> (r matches Err(
                Error::GraphNodeError(GraphNodeError::NoSuchInput { out }),
            ) && out@ == list[k]))
            &&& builtin_fault(node, NodeBuilder::Concat) is None && as_int(axis@) is Some
                && first_unfound(nodes, list, 0) is None ==> (concat_spec(ms, a) matches Err(e) ==> r
                == Err::<(), Error>(e))
            &&& !concat_checked(nodes, node, axis@) ==> *final(tensor_graph) == *old(tensor_graph)
                && final(seed).next() == old(seed).next()
            &&& concat_checked(nodes, node, axis@) ==> {
                &&& final(seed).next() == old(seed).next() + 1
                &&& first_unfetched(nodes, names, 0) matches Some(k) ==> (r matches Err(
                    Error::GraphNodeError(GraphNodeError::NoSuchInput { out }),
                ) && out@ == OutModel { id: None, name: names[k] }) && *final(tensor_graph) == *old(
                    tensor_graph,
                )
                &&& first_unfetched(nodes, names, 0) is None ==> {
                    &&& r is Ok
                    &&& final(tensor_graph).0@.len() == nodes.len() + 1
                    &&& final(tensor_graph).0@.drop_last() == nodes
                    &&& final(tensor_graph).0@.last() matches TensorNode::Extern(e) && is_extern_ir(
                        e,
                        node.id,
                        node.calls@[0].name@,
                        Seq::new(ms.len(), |k: int| (decimal_of(k as nat), ms[k])),
                        seq![(seq!['x'], Some(concat_spec(ms, a)->Ok_0))],
                        io_inputs(nodes, names),
                        io_outputs(node.id, seq![seq!['x']]),
                    ) && is_one_var_graph(
                        e.data.graph,
                        old(seed).next(),
                        axis_name(),
                        Some(ValueModel::Int(concat_axis_of(a, ms[0]->0.len() as int) as i64)),
                    )
                }
            }
        }),
{
    let (inputs, outputs, ax, names) = match concat_prepare(tensor_graph, &node, axis) {
        Ok(t) => t,
        Err(e) => {
            return Err(e);
        },
    };
    let graph = Graph::with_one_var(seed, "axis", Some(Value::Int(ax as i64)));
    proof {
        reveal_strlit("axis");
        assert("axis"@ =~= axis_name());
    }
    let x = String::from_str("x");
    proof {
        reveal_strlit("x");
        assert(x@ =~= seq!['x']);
    }
    let mut io_outputs: Vec<String> = Vec::new();
    io_outputs.push(x);
    proof {
        assert(strs(io_outputs@) =~= seq![seq!['x']]);
        lemma_first_unfetched(tensor_graph.0@, strs(names@), 0);
        assert forall|k: int| 0 <= k < names@.len() implies #[trigger] strs(names@)[k] == names@[k]@ by {}
    }
    let name = node.calls[0].name.clone();
    push_extern(tensor_graph, node.id, name, graph, inputs, &names, outputs, &io_outputs)
}

/// Where no input from the `k`-th on fails to join, each has a shape of
/// `dims` dimensions.
proof fn lemma_no_mismatch(ms: Seq<Option<Seq<ValueModel>>>, dims: int, k: int)
    requires
        0 <= k,
        first_concat_mismatch(ms, dims, k) is None,
    ensures
        forall|j: int| k <= j < ms.len() ==> (#[trigger] ms[j]) is Some && ms[j]->0.len() == dims,
    decreases ms.len() - k,
{
    if k < ms.len() {
        lemma_no_mismatch(ms, dims, k + 1);
    }
}

/// What `Concat` makes of its inputs: a shape of as many dimensions as the
/// first input, which every input has; along the axis, the sum, from 0, of
/// the inputs' dimensions there, each once and in order; elsewhere the first
/// input's dimensions.
pub proof fn lemma_concat_joins(ms: Seq<Option<Seq<ValueModel>>>, axis: i64)
    requires
        concat_spec(ms, axis) is Ok,
    ensures
        ({
            let d = concat_spec(ms, axis)->Ok_0;
            let base = ms[0]->0;
            let ax = concat_axis_of(axis, base.len() as int);
            &&& ms.len() > 0 && ms[0] is Some
            &&& 0 <= ax < base.len()
            &&& d.len() == base.len()
            &&& forall|i: int| 0 <= i < d.len() && i != ax ==> d[i] == base[i]
            &&& forall|k: int| 0 <= k < ms.len() ==> (#[trigger] ms[k]) is Some && ms[k]->0.len() == base.len()
            &&& fold_args(Operator::Add, d[ax], ms.len()) == seq![ValueModel::UInt(0)] + Seq::new(
                ms.len(),
                |k: int| ms[k]->0[ax],
            )
        }),
{
    let base = ms[0]->0;
    let ax = concat_axis_of(axis, base.len() as int);
    lemma_no_mismatch(ms, base.len() as int, 1);
    lemma_fold_keeps_values(Operator::Add, ValueModel::UInt(0), Seq::new(ms.len(), |k: int| ms[k]->0[ax]));
}

} // verus!
