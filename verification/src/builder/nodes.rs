use vstd::prelude::*;

use super::condition::{
    ascending_ids, node_fault, node_passes, reports_fault, Constraints, ExternTensorGraphCondition,
};
use super::error::{clone_strings, strs, Error, GraphCallError, GraphNodeError, Result};
use super::strmap::{str_equal, StrMap};
use super::tensor::ExternIRShapes;
use crate::ast::graph_node::{
    out_keys, outs_view, GraphCall, GraphInputs, GraphInputsType, GraphNode, Out, OutModel, Outs,
};
use crate::ast::types::ExternNodeType;

verus! {

broadcast use vstd::std_specs::vec::group_vec_axioms;

/// The ways a node of a tensor graph is built.
#[derive(Copy, Clone, Debug, PartialEq, Eq, Structural)]
pub enum NodeBuilder {
    Input,
    Default,
    Transform,
    ToLinear,
    Concat,
}

/// The name of the input node.
pub open spec fn input_name() -> Seq<char> {
    seq!['I', 'n', 'p', 'u', 't']
}

/// The name that calls the built-in node `b`.
pub open spec fn builtin_name(b: NodeBuilder) -> Seq<char> {
    match b {
        NodeBuilder::Input => input_name(),
        NodeBuilder::Transform => seq!['T', 'r', 'a', 'n', 's', 'f', 'o', 'r', 'm'],
        NodeBuilder::ToLinear => seq!['T', 'o', 'L', 'i', 'n', 'e', 'a', 'r'],
        NodeBuilder::Concat => seq!['C', 'o', 'n', 'c', 'a', 't'],
        NodeBuilder::Default => Seq::empty(),
    }
}

/// How a node is built: the node numbered 0 is the input; a node whose
/// first call names a built-in node is built as that node; any other node
/// calls other nodes.
pub open spec fn builder_for(node: GraphNode) -> NodeBuilder {
    if node.id == 0 {
        NodeBuilder::Input
    } else {
        let name = node.calls@[0].name@;
        if name == builtin_name(NodeBuilder::Transform) {
            NodeBuilder::Transform
        } else if name == builtin_name(NodeBuilder::ToLinear) {
            NodeBuilder::ToLinear
        } else if name == builtin_name(NodeBuilder::Concat) {
            NodeBuilder::Concat
        } else {
            NodeBuilder::Default
        }
    }
}

/// How the node is built.
pub fn builder_of(node: &GraphNode) -> (r: NodeBuilder)
    requires
        node.id == 0 || node.calls@.len() > 0,
    ensures
        r == builder_for(*node),
{
    if node.id == 0 {
        return NodeBuilder::Input;
    }
    let name = node.calls[0].name.as_str();
    proof {
        reveal_strlit("Transform");
        reveal_strlit("ToLinear");
        reveal_strlit("Concat");
        assert("Transform"@ =~= builtin_name(NodeBuilder::Transform));
        assert("ToLinear"@ =~= builtin_name(NodeBuilder::ToLinear));
        assert("Concat"@ =~= builtin_name(NodeBuilder::Concat));
    }
    if str_equal(name, "Transform") {
        NodeBuilder::Transform
    } else if str_equal(name, "ToLinear") {
        NodeBuilder::ToLinear
    } else if str_equal(name, "Concat") {
        NodeBuilder::Concat
    } else {
        NodeBuilder::Default
    }
}

/// What a built-in node must look like: one call of its name, inputs
/// given as the last outputs (a list for `Concat`), no arguments but the
/// axis of `Concat`, no repeat, and shapes exactly for the input node and
/// `Transform`; the input node must also be numbered 0.
pub open spec fn builtin_constraints(b: NodeBuilder) -> Constraints {
    match b {
        NodeBuilder::Concat => Constraints {
            ty_inputs: Some(GraphInputsType::List),
            args: Some(seq![seq!['a', 'x', 'i', 's']]),
            is_sized: Some(false),
            repeatable: Some(false),
            is_id_zero: false,
        },
        _ => Constraints {
            ty_inputs: Some(GraphInputsType::UseLast),
            args: Some(Seq::empty()),
            is_sized: Some(b is Input || b is Transform),
            repeatable: Some(false),
            is_id_zero: b is Input,
        },
    }
}

/// Checks a node against what its built-in node must look like.
pub fn test_builtin(node: &GraphNode, builder: NodeBuilder) -> (r: Result<()>)
    requires
        node.wf(),
        !(builder is Default),
    ensures
        node_fault(builtin_constraints(builder), seq![builtin_name(builder)], 0, *node) is None
            ==> r is Ok,
        node_fault(builtin_constraints(builder), seq![builtin_name(builder)], 0, *node) matches Some(f)
            ==> r is Err && reports_fault(
            r->Err_0,
            f,
            builtin_constraints(builder),
            seq![builtin_name(builder)],
            0,
            *node,
        ),
{
    proof {
        reveal_strlit("Input");
        reveal_strlit("Transform");
        reveal_strlit("ToLinear");
        reveal_strlit("Concat");
        reveal_strlit("axis");
    }
    let name = match builder {
        NodeBuilder::Input => String::from_str("Input"),
        NodeBuilder::Transform => String::from_str("Transform"),
        NodeBuilder::ToLinear => String::from_str("ToLinear"),
        _ => String::from_str("Concat"),
    };
    let mut args: Vec<String> = Vec::new();
    if builder == NodeBuilder::Concat {
        args.push(String::from_str("axis"));
    }
    let mut names: Vec<String> = Vec::new();
    names.push(name);
    let nodes: Vec<(u64, GraphNode)> = Vec::new();
    let cond = ExternTensorGraphCondition {
        nodes: &nodes,
        names: Vec::new(),
        ty_inputs: Some(
            if builder == NodeBuilder::Concat {
                GraphInputsType::List
            } else {
                GraphInputsType::UseLast
            },
        ),
        args: Some(args),
        is_sized: Some(builder == NodeBuilder::Input || builder == NodeBuilder::Transform),
        repeatable: Some(false),
        is_id_zero: builder == NodeBuilder::Input,
    };
    proof {
        assert("Input"@ =~= input_name());
        assert("Transform"@ =~= builtin_name(NodeBuilder::Transform));
        assert("ToLinear"@ =~= builtin_name(NodeBuilder::ToLinear));
        assert("Concat"@ =~= builtin_name(NodeBuilder::Concat));
        assert("axis"@ =~= seq!['a', 'x', 'i', 's']);
        assert(strs(names@) =~= seq![builtin_name(builder)]);
        if builder == NodeBuilder::Concat {
            assert(strs(cond.args->0@) =~= seq![seq!['a', 'x', 'i', 's']]);
        } else {
            assert(strs(cond.args->0@) =~= Seq::<Seq<char>>::empty());
        }
        assert(cond.constraints() =~= builtin_constraints(builder));
    }
    cond.test_each_node(&names, 0, node)
}

/// The names a tensor graph of an external node must call: an input and an
/// output for a plain node, an output for a data loader, none for an
/// optimizer.
pub open spec fn extern_names(ty: ExternNodeType) -> Seq<Seq<char>> {
    match ty {
        ExternNodeType::Default => seq![input_name(), seq!['O', 'u', 't', 'p', 'u', 't']],
        ExternNodeType::Data => seq![seq!['O', 'u', 't', 'p', 'u', 't']],
        ExternNodeType::Optim => Seq::empty(),
    }
}

/// What each node of the tensor graph of an external node must look like:
/// numbered by its position, inputs given as the last outputs, no
/// arguments and no repeat.
pub open spec fn extern_constraints() -> Constraints {
    Constraints {
        ty_inputs: Some(GraphInputsType::UseLast),
        args: Some(Seq::empty()),
        is_sized: None,
        repeatable: Some(false),
        is_id_zero: true,
    }
}

/// Whether the node at position `i` passes the check of the tensor graph
/// of an external node.
pub open spec fn extern_node_passes(ty: ExternNodeType, nodes: Seq<(u64, GraphNode)>, i: int) -> bool {
    node_fault(extern_constraints(), seq![extern_names(ty)[i]], i as u64, nodes[i].1) is None
}

/// Checks the tensor graph of an external node of type `ty`: one node per
/// name, in order, each calling its name.
pub fn test_extern_tensor_graph(ty: ExternNodeType, nodes: &Vec<(u64, GraphNode)>) -> (r: Result<()>)
    requires
        ascending_ids(nodes@),
        forall|i: int| 0 <= i < nodes@.len() ==> (#[trigger] nodes@[i]).1.wf(),
    ensures
        r is Ok <==> (nodes@.len() == extern_names(ty).len() && forall|i: int|
            0 <= i < nodes@.len() ==> #[trigger] extern_node_passes(ty, nodes@, i)),
        nodes@.len() != extern_names(ty).len() ==> (r matches Err(
            Error::GraphNodeError(GraphNodeError::MismatchedSize { expected, given }),
        ) && strs(expected@) == extern_names(ty) && given == nodes@.len()),
        nodes@.len() == extern_names(ty).len() && r is Err ==> exists|i: int|
            #![trigger nodes@[i]]
            0 <= i < nodes@.len() && (forall|j: int|
                0 <= j < i ==> #[trigger] extern_node_passes(ty, nodes@, j)) && (node_fault(
                extern_constraints(),
                seq![extern_names(ty)[i]],
                i as u64,
                nodes@[i].1,
            ) matches Some(f) && reports_fault(
                r->Err_0,
                f,
                extern_constraints(),
                seq![extern_names(ty)[i]],
                i as u64,
                nodes@[i].1,
            )),
{
    proof {
        reveal_strlit("Input");
        reveal_strlit("Output");
    }
    let mut names: Vec<String> = Vec::new();
    match ty {
        ExternNodeType::Default => {
            names.push(String::from_str("Input"));
            names.push(String::from_str("Output"));
        },
        ExternNodeType::Data => {
            names.push(String::from_str("Output"));
        },
        ExternNodeType::Optim => {},
    }
    let cond = ExternTensorGraphCondition {
        nodes,
        names,
        ty_inputs: Some(GraphInputsType::UseLast),
        args: Some(Vec::new()),
        is_sized: None,
        repeatable: Some(false),
        is_id_zero: true,
    };
    proof {
        assert("Input"@ =~= input_name());
        assert("Output"@ =~= seq!['O', 'u', 't', 'p', 'u', 't']);
        assert(strs(cond.args->0@) =~= Seq::<Seq<char>>::empty());
        assert(strs(cond.names@) =~= extern_names(ty));
        assert(cond.constraints() =~= extern_constraints());
        assert forall|i: int| 0 <= i < cond.names@.len() implies cond.names@[i]@ == extern_names(
            ty,
        )[i] by {
            assert(strs(cond.names@)[i] == cond.names@[i]@);
        }
    }
    let ghost g = cond;
    let r = cond.test();
    proof {
        assert forall|i: int| 0 <= i < nodes@.len() && i < g.names@.len() implies node_passes(g, i)
            == extern_node_passes(ty, nodes@, i) by {
            assert(g.names@[i]@ == extern_names(ty)[i]);
        }
        assert(g.names@.len() == extern_names(ty).len()) by {
            assert(strs(g.names@).len() == g.names@.len());
        }
        if nodes@.len() == extern_names(ty).len() {
            if r is Ok {
                assert forall|i: int| 0 <= i < nodes@.len() implies #[trigger] extern_node_passes(
                    ty,
                    nodes@,
                    i,
                ) by {
                    assert(node_passes(g, i));
                }
            } else {
                if forall|i: int| 0 <= i < nodes@.len() ==> #[trigger] extern_node_passes(ty, nodes@, i) {
                    assert forall|i: int| 0 <= i < g.nodes@.len() implies #[trigger] node_passes(g, i) by {
                        assert(extern_node_passes(ty, nodes@, i));
                    }
                }
            }
        }
        if nodes@.len() == extern_names(ty).len() && r is Err {
            let i = choose|i: int|
                0 <= i < g.nodes@.len() && (forall|j: int|
                    0 <= j < i ==> #[trigger] node_passes(g, j)) && reports_fault(
                    r->Err_0,
                    node_fault(g.constraints(), seq![g.names@[i]@], i as u64, g.nodes@[i].1)->0,
                    g.constraints(),
                    seq![g.names@[i]@],
                    i as u64,
                    g.nodes@[i].1,
                ) && node_fault(g.constraints(), seq![g.names@[i]@], i as u64, g.nodes@[i].1) is Some;
            assert(g.names@[i]@ == extern_names(ty)[i]);
            assert(forall|j: int| 0 <= j < i ==> #[trigger] extern_node_passes(ty, nodes@, j) == node_passes(g, j));
            assert(nodes@[i] == nodes@[i]);
        }
    }
    r
}

/// Checks the number of the next node of a tensor graph, after the node
/// `last_id`: it must come right after it, where the first node, numbered
/// 0, may follow 0.
pub fn check_tensor_id(last_id: u64, given: u64) -> (r: Result<()>)
    requires
        last_id < u64::MAX,
    ensures
        (given == last_id + 1 || (last_id == 0 && given == 0)) ==> r is Ok,
        !(given == last_id + 1 || (last_id == 0 && given == 0)) ==> r == Err::<(), Error>(
            Error::GraphNodeError(GraphNodeError::MismatchedId { expected: (last_id + 1) as u64, given }),
        ),
{
    if given < last_id || given - last_id != 1 && !(last_id == 0 && given == 0) {
        Err(Error::GraphNodeError(GraphNodeError::MismatchedId { expected: last_id + 1, given }))
    } else {
        Ok(())
    }
}

/// The first check that a node of an exec graph fails.
#[derive(Copy, Clone, Debug, PartialEq, Eq, Structural)]
pub enum LinkFault {
    Id,
    Shapes,
    EmptyCalls,
    Inputs,
    Args,
    Repeat,
}

/// The first check that a call of an exec graph fails: it may give no
/// inputs, no arguments and no repeat.
pub open spec fn call_fault(c: GraphCall) -> Option<LinkFault> {
    if c.inputs is Some {
        Some(LinkFault::Inputs)
    } else if c.args is Some {
        Some(LinkFault::Args)
    } else if c.repeat is Some {
        Some(LinkFault::Repeat)
    } else {
        None
    }
}

/// The first check that one of the calls fails, in order.
pub open spec fn first_call_fault(calls: Seq<GraphCall>) -> Option<LinkFault>
    decreases calls.len(),
{
    if calls.len() == 0 {
        None
    } else {
        match call_fault(calls[0]) {
            Some(f) => Some(f),
            None => first_call_fault(calls.drop_first()),
        }
    }
}

proof fn lemma_call_fault_kind(calls: Seq<GraphCall>)
    ensures
        first_call_fault(calls) matches Some(f) ==> (f is Inputs || f is Args || f is Repeat),
    decreases calls.len(),
{
    if calls.len() > 0 {
        lemma_call_fault_kind(calls.drop_first());
    }
}

/// The first check that the node `given` at position `index` of an exec
/// graph fails: it must be numbered `index + 1`, have no shapes and make
/// calls that pass their check.
pub open spec fn link_fault(index: int, given: u64, node: GraphNode) -> Option<LinkFault> {
    if given != index + 1 {
        Some(LinkFault::Id)
    } else if node.shapes is Some {
        Some(LinkFault::Shapes)
    } else if node.calls@.len() == 0 {
        Some(LinkFault::EmptyCalls)
    } else {
        first_call_fault(node.calls@)
    }
}

/// The error that reports a fault of the node `given` at position `index`.
pub open spec fn reports_link_fault(e: Error, f: LinkFault, index: int, given: u64) -> bool {
    match f {
        LinkFault::Id => e == Error::GraphNodeError(
            GraphNodeError::MismatchedId { expected: (index + 1) as u64, given },
        ),
        LinkFault::Shapes => e == Error::GraphNodeError(GraphNodeError::UnexpectedShapes),
        LinkFault::EmptyCalls => e == Error::GraphNodeError(GraphNodeError::EmptyCalls),
        LinkFault::Inputs => e == Error::GraphCallError(GraphCallError::UnexpectedInputs),
        LinkFault::Args => e == Error::GraphCallError(GraphCallError::UnexpectedArgs),
        LinkFault::Repeat => e == Error::GraphCallError(GraphCallError::UnexpectedRepeat),
    }
}

/// The names that the calls name, in order.
pub open spec fn call_names(calls: Seq<GraphCall>) -> Seq<Seq<char>> {
    calls.map_values(|c: GraphCall| c.name@)
}

/// The names of the calls of a node, or the first fault of its calls.
fn call_links(calls: &Vec<GraphCall>) -> (r: Result<Vec<String>>)
    ensures
        first_call_fault(calls@) is None ==> (r matches Ok(v) && strs(v@) == call_names(calls@)),
        first_call_fault(calls@) matches Some(f) ==> r is Err && reports_link_fault(
            r->Err_0,
            f,
            0,
            0,
        ),
        r is Err ==> first_call_fault(calls@) is Some,
{
    let mut names: Vec<String> = Vec::new();
    let mut i: usize = 0;
    proof {
        assert(calls@.skip(0) =~= calls@);
    }
    while i < calls.len()
        invariant
            i <= calls@.len(),
            names@.len() == i,
            forall|k: int| 0 <= k < i ==> (#[trigger] names@[k])@ == calls@[k].name@,
            first_call_fault(calls@) == first_call_fault(calls@.skip(i as int)),
        decreases calls@.len() - i,
    {
        let call = &calls[i];
        proof {
            assert(calls@.skip(i as int)[0] == calls@[i as int]);
            assert(calls@.skip(i as int).drop_first() =~= calls@.skip(i + 1));
        }
        if call.inputs.is_some() {
            return Err(Error::GraphCallError(GraphCallError::UnexpectedInputs));
        }
        if call.args.is_some() {
            return Err(Error::GraphCallError(GraphCallError::UnexpectedArgs));
        }
        if call.repeat.is_some() {
            return Err(Error::GraphCallError(GraphCallError::UnexpectedRepeat));
        }
        names.push(call.name.clone());
        i = i + 1;
    }
    proof {
        assert(calls@.skip(i as int) =~= Seq::<GraphCall>::empty());
        assert(strs(names@) =~= call_names(calls@));
    }
    Ok(names)
}

/// The calls of the node `given` at position `index` of an exec graph, by
/// name, or its first fault.
fn node_links(index: usize, given: u64, node: &GraphNode) -> (r: Result<Vec<String>>)
    requires
        index < u64::MAX,
    ensures
        link_fault(index as int, given, *node) is None ==> (r matches Ok(v) && strs(v@)
            == call_names(node.calls@)),
        link_fault(index as int, given, *node) matches Some(f) ==> r is Err && reports_link_fault(
            r->Err_0,
            f,
            index as int,
            given,
        ),
{
    let expected: u64 = (index as u64) + 1;
    if expected != given {
        return Err(Error::GraphNodeError(GraphNodeError::MismatchedId { expected, given }));
    }
    if node.shapes.is_some() {
        return Err(Error::GraphNodeError(GraphNodeError::UnexpectedShapes));
    }
    if node.calls.len() == 0 {
        return Err(Error::GraphNodeError(GraphNodeError::EmptyCalls));
    }
    proof {
        lemma_call_fault_kind(node.calls@);
    }
    call_links(&node.calls)
}

/// The calls of each node of an exec graph, by name, in order; the nodes
/// must be numbered from 1 on, have no shapes, make calls, and each call
/// give no inputs, arguments or repeat. The first failure is reported.
pub fn get_links(tensor_graph: Vec<(u64, GraphNode)>) -> (r: Result<Vec<Vec<String>>>)
    requires
        ascending_ids(tensor_graph@),
    ensures
        r is Ok <==> forall|i: int|
            0 <= i < tensor_graph@.len() ==> #[trigger] link_fault(
                i,
                tensor_graph@[i].0,
                tensor_graph@[i].1,
            ) is None,
        (forall|i: int|
            0 <= i < tensor_graph@.len() ==> #[trigger] link_fault(
                i,
                tensor_graph@[i].0,
                tensor_graph@[i].1,
            ) is None) ==> (r matches Ok(links) && links@.len() == tensor_graph@.len() && forall|
            i: int,
        | 0 <= i < links@.len() ==> strs((#[trigger] links@[i])@) == call_names(
            tensor_graph@[i].1.calls@,
        )),
        r is Err ==> exists|i: int|
            #![trigger tensor_graph@[i]]
            0 <= i < tensor_graph@.len() && (forall|j: int|
                0 <= j < i ==> #[trigger] link_fault(j, tensor_graph@[j].0, tensor_graph@[j].1)
                    is None) && (link_fault(i, tensor_graph@[i].0, tensor_graph@[i].1) matches Some(f)
                && reports_link_fault(r->Err_0, f, i, tensor_graph@[i].0)),
{
    let mut links: Vec<Vec<String>> = Vec::new();
    let mut i: usize = 0;
    while i < tensor_graph.len()
        invariant
            i <= tensor_graph@.len(),
            links@.len() == i,
            forall|k: int|
                0 <= k < i ==> #[trigger] link_fault(k, tensor_graph@[k].0, tensor_graph@[k].1) is None,
            forall|k: int|
                0 <= k < i ==> strs((#[trigger] links@[k])@) == call_names(
                    tensor_graph@[k].1.calls@,
                ),
        decreases tensor_graph@.len() - i,
    {
        let res = node_links(i, tensor_graph[i].0, &tensor_graph[i].1);
        match res {
            Ok(names) => {
                links.push(names);
            },
            Err(e) => {
                proof {
                    assert(tensor_graph@[i as int] == tensor_graph@[i as int]);
                }
                return Err(e);
            },
        }
        i = i + 1;
    }
    Ok(links)
}

/// The axis along which `Concat` joins tensors of `dims` dimensions, as it
/// reads a given axis: a negative axis `a` stands for `-a - dims`.
pub open spec fn concat_axis_of(axis: i64, dims: int) -> int {
    if axis < 0 {
        -axis - dims
    } else {
        axis as int
    }
}

/// The axis along which `Concat` joins tensors of `tensor_dims` dimensions;
/// it must be one of their dimensions.
pub fn concat_axis(axis: i64, tensor_dims: usize) -> (r: Result<usize>)
    requires
        axis != i64::MIN,
        tensor_dims <= i64::MAX,
    ensures
        0 <= concat_axis_of(axis, tensor_dims as int) < tensor_dims ==> r == Ok::<usize, Error>(
            concat_axis_of(axis, tensor_dims as int) as usize,
        ),
        !(0 <= concat_axis_of(axis, tensor_dims as int) < tensor_dims) ==> r == Err::<usize, Error>(
            Error::GraphCallError(
                GraphCallError::MismatchedAxis {
                    val_min: 0,
                    val_max: (tensor_dims - 1) as i64,
                    given: concat_axis_of(axis, tensor_dims as int) as i64,
                },
            ),
        ),
{
    let tensor_dims: i64 = tensor_dims as i64;
    let mut axis = axis;
    if axis < 0 {
        axis = -axis - tensor_dims;
    }
    if axis < 0 || axis >= tensor_dims {
        return Err(
            Error::GraphCallError(
                GraphCallError::MismatchedAxis { val_min: 0, val_max: tensor_dims - 1, given: axis },
            ),
        );
    }
    Ok(axis as usize)
}

/// Whether the output names are the input names: as many, and each input
/// name among them.
pub open spec fn keys_match(inputs: Seq<Seq<char>>, outputs: Seq<Seq<char>>) -> bool {
    inputs.len() == outputs.len() && forall|i: int| 0 <= i < inputs.len() ==> outputs.contains(
        #[trigger] inputs[i],
    )
}

/// Whether `s` is one of `names`.
fn contains_str(names: &Vec<String>, s: &String) -> (r: bool)
    ensures
        r == strs(names@).contains(s@),
{
    let mut i: usize = 0;
    while i < names.len()
        invariant
            i <= names@.len(),
            forall|k: int| 0 <= k < i ==> names@[k]@ != s@,
        decreases names.len() - i,
    {
        if names[i].eq(s) {
            proof {
                assert(strs(names@)[i as int] == s@);
            }
            return true;
        }
        i = i + 1;
    }
    proof {
        if strs(names@).contains(s@) {
            let k = choose|k: int| 0 <= k < strs(names@).len() && strs(names@)[k] == s@;
            assert(names@[k]@ == s@);
        }
    }
    false
}

/// Checks that a transformation keeps the names of the tensors.
pub fn match_shape_keys(inputs: &Vec<String>, outputs: &Vec<String>) -> (r: Result<()>)
    ensures
        keys_match(strs(inputs@), strs(outputs@)) ==> r is Ok,
        !keys_match(strs(inputs@), strs(outputs@)) ==> (r matches Err(
            Error::GraphCallError(GraphCallError::MismatchedShapeKeys { expected, given }),
        ) && strs(expected@) == strs(inputs@) && strs(given@) == strs(outputs@)),
{
    let mut ok = inputs.len() == outputs.len();
    let mut i: usize = 0;
    while ok && i < inputs.len()
        invariant
            i <= inputs@.len() + 1,
            ok ==> i <= inputs@.len(),
            ok ==> inputs@.len() == outputs@.len(),
            ok ==> forall|k: int| 0 <= k < i ==> strs(outputs@).contains(#[trigger] strs(inputs@)[k]),
            !ok ==> !keys_match(strs(inputs@), strs(outputs@)),
        decreases inputs@.len() + 1 - i,
    {
        if !contains_str(outputs, &inputs[i]) {
            proof {
                assert(strs(inputs@)[i as int] == inputs@[i as int]@);
            }
            ok = false;
        }
        i = i + 1;
    }
    if ok {
        Ok(())
    } else {
        Err(
            Error::GraphCallError(
                GraphCallError::MismatchedShapeKeys {
                    expected: clone_strings(inputs),
                    given: clone_strings(outputs),
                },
            ),
        )
    }
}

/// The named inputs, where the inputs are given by name.
pub fn unwrap_dict(inputs: GraphInputs) -> (r: Result<Outs>)
    ensures
        match inputs {
            GraphInputs::Dict(v) => r == Ok::<Outs, Error>(v),
            GraphInputs::List(_) => r == Err::<Outs, Error>(
                Error::GraphCallError(
                    GraphCallError::MismatchedInputsType {
                        expected: GraphInputsType::Dict,
                        given: GraphInputsType::List,
                    },
                ),
            ),
        },
{
    match inputs {
        GraphInputs::Dict(v) => Ok(v),
        GraphInputs::List(_) => Err(
            Error::GraphCallError(
                GraphCallError::MismatchedInputsType {
                    expected: GraphInputsType::Dict,
                    given: GraphInputsType::List,
                },
            ),
        ),
    }
}

/// The shape of the tensor `name`, which must be known.
pub fn unwrap_value<T>(name: &str, value: Option<T>) -> (r: Result<T>)
    ensures
        match value {
            Some(v) => r == Ok::<T, Error>(v),
            None => r matches Err(Error::GraphCallError(GraphCallError::GenericShape { name: n }))
                && n@ == name@,
        },
{
    match value {
        Some(v) => Ok(v),
        None => Err(Error::GraphCallError(GraphCallError::GenericShape { name: String::from_str(name) })),
    }
}

impl ExternIRShapes {
    /// Takes the shapes of a node of the tensor graph of an external node of
    /// type `ty`: a plain node's node 0 gives its input shapes, and any other
    /// node its output shapes.
    pub fn add_tensor_graph(&mut self, ty: ExternNodeType, node: GraphNode)
        requires
            !(ty is Optim),
        ensures
            (ty is Default && node.id == 0) ==> (final(self).input == node.shapes
                && final(self).output == old(self).output),
            !(ty is Default && node.id == 0) ==> (final(self).output == node.shapes
                && final(self).input == old(self).input),
    {
        match ty {
            ExternNodeType::Default => {
                if node.id == 0 {
                    self.input = node.shapes;
                } else {
                    self.output = node.shapes;
                }
            },
            _ => {
                self.output = node.shapes;
            },
        }
    }
}

/// Outputs gathered by name, a later output replacing an earlier one of the
/// same name.
pub open spec fn collect_outs(s: Seq<OutModel>) -> Map<Seq<char>, OutModel>
    decreases s.len(),
{
    if s.len() == 0 {
        Map::empty()
    } else {
        collect_outs(s.drop_last()).insert(s.last().name, s.last())
    }
}

/// The first output given under the name `k`.
pub open spec fn lookup_out(given: Seq<(Seq<char>, OutModel)>, k: Seq<char>) -> Option<OutModel>
    decreases given.len(),
{
    if given.len() == 0 {
        None
    } else if given[0].0 == k {
        Some(given[0].1)
    } else {
        lookup_out(given.drop_first(), k)
    }
}

/// The output that an input named `k` takes: the one given for it, else
/// one of that name still to be found.
pub open spec fn chosen_input(given: Seq<(Seq<char>, OutModel)>, k: Seq<char>) -> OutModel {
    match lookup_out(given, k) {
        Some(o) => o,
        None => OutModel { id: None, name: k },
    }
}

/// The models of a map of outputs.
pub open spec fn out_map_view(m: StrMap<Out>) -> Map<Seq<char>, OutModel> {
    m.as_map().map_values(|o: Out| o@)
}

/// The output given under the name `k`, if any.
fn find_out(given: &Outs, k: &str) -> (r: Option<Out>)
    ensures
        match lookup_out(outs_view(given@), k@) {
            Some(o) => r matches Some(x) && x@ == o,
            None => r is None,
        },
{
    let mut i: usize = 0;
    proof {
        assert(outs_view(given@).skip(0) =~= outs_view(given@));
    }
    while i < given.len()
        invariant
            i <= given@.len(),
            lookup_out(outs_view(given@), k@) == lookup_out(outs_view(given@).skip(i as int), k@),
        decreases given@.len() - i,
    {
        proof {
            assert(outs_view(given@).skip(i as int)[0] == (given@[i as int].0@, given@[i as int].1@));
            assert(outs_view(given@).skip(i as int).drop_first() =~= outs_view(given@).skip(i + 1));
        }
        if str_equal(given[i].0.as_str(), k) {
            return Some(Out { id: given[i].1.id, name: given[i].1.name.clone() });
        }
        i = i + 1;
    }
    proof {
        assert(outs_view(given@).skip(i as int).len() == 0);
    }
    None
}

/// The inputs that a callee takes in a call: each of its inputs takes the
/// output given for it by name, else an output of the same name still to be
/// found; they are gathered by the names of those outputs.
pub fn arrange_inputs(expected: &Outs, given: &Outs) -> (r: StrMap<Out>)
    ensures
        r.wf(),
        out_map_view(r) == collect_outs(
            out_keys(expected@).map_values(|k: Seq<char>| chosen_input(outs_view(given@), k)),
        ),
{
    let ghost chosen = out_keys(expected@).map_values(
        |k: Seq<char>| chosen_input(outs_view(given@), k),
    );
    let mut r: StrMap<Out> = StrMap::new();
    let mut i: usize = 0;
    proof {
        assert(out_map_view(r) =~= collect_outs(chosen.take(0)));
    }
    while i < expected.len()
        invariant
            i <= expected@.len(),
            chosen == out_keys(expected@).map_values(
                |k: Seq<char>| chosen_input(outs_view(given@), k),
            ),
            r.wf(),
            out_map_view(r) == collect_outs(chosen.take(i as int)),
        decreases expected@.len() - i,
    {
        let k = expected[i].0.as_str();
        let x = match find_out(given, k) {
            Some(o) => o,
            None => Out::with_name(String::from_str(k)),
        };
        proof {
            assert(chosen[i as int] == chosen_input(outs_view(given@), expected@[i as int].0@));
            assert(x@ == chosen[i as int]);
            assert(chosen.take(i + 1).drop_last() =~= chosen.take(i as int));
            assert(chosen.take(i + 1).last() == chosen[i as int]);
        }
        let ghost old_r = r;
        let ghost xm = x@;
        r.insert(x.name.clone(), x);
        proof {
            assert(out_map_view(r) =~= out_map_view(old_r).insert(xm.name, xm));
        }
        i = i + 1;
    }
    proof {
        assert(chosen.take(expected@.len() as int) =~= chosen);
    }
    r
}

/// The outputs of the node `id` that a callee gives, one per name, each an
/// output of the next node.
pub fn arrange_outputs(id: u64, names: &Vec<String>) -> (r: StrMap<Out>)
    requires
        id < u64::MAX,
    ensures
        r.wf(),
        out_map_view(r) == collect_outs(
            strs(names@).map_values(|k: Seq<char>| OutModel { id: Some((id + 1) as u64), name: k }),
        ),
{
    let ghost outs = strs(names@).map_values(
        |k: Seq<char>| OutModel { id: Some((id + 1) as u64), name: k },
    );
    let mut r: StrMap<Out> = StrMap::new();
    let mut i: usize = 0;
    proof {
        assert(out_map_view(r) =~= collect_outs(outs.take(0)));
    }
    while i < names.len()
        invariant
            i <= names@.len(),
            id < u64::MAX,
            outs == strs(names@).map_values(
                |k: Seq<char>| OutModel { id: Some((id + 1) as u64), name: k },
            ),
            r.wf(),
            out_map_view(r) == collect_outs(outs.take(i as int)),
        decreases names@.len() - i,
    {
        let x = Out::new(id + 1, names[i].clone());
        proof {
            assert(outs[i as int] == x@);
            assert(outs.take(i + 1).drop_last() =~= outs.take(i as int));
            assert(outs.take(i + 1).last() == outs[i as int]);
        }
        let ghost old_r = r;
        let ghost xm = x@;
        r.insert(x.name.clone(), x);
        proof {
            assert(out_map_view(r) =~= out_map_view(old_r).insert(xm.name, xm));
        }
        i = i + 1;
    }
    proof {
        assert(outs.take(names@.len() as int) =~= outs);
    }
    r
}

} // verus!
