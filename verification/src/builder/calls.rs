use vstd::prelude::*;

use super::builtins::{io_outputs, lemma_no_exec_scans, no_exec, out_entries, outs_map};
use super::error::{strs, Error, GraphCallError, GraphNodeError, Result};
use super::graph::{apply_all, no_such_variable, replaced, values_model, Graph, Values};
use super::nodes::{arrange_inputs, arrange_outputs, chosen_input, collect_outs, unwrap_dict};
use super::strmap::{
    key_index, lemma_str_lt_asymmetric, lemma_str_lt_irreflexive, lookup, sorted_keys, str_lt,
};
use super::tensor_graph::{fetch_scan, node_data, NodeIR, TensorGraph, TensorNode};
use crate::ast::graph_node::{
    out_keys, outs_view, GraphCall, GraphInputs, GraphInputsType, Out, OutModel, Outs,
};
use crate::ast::value::{opt_value_model, Value, ValueModel, VariableModel};

verus! {

broadcast use vstd::std_specs::vec::group_vec_axioms;

/// The position of a key among keys in ascending order is the one that
/// holds it.
pub proof fn lemma_sorted_key_index(keys: Seq<Seq<char>>, i: int)
    requires
        sorted_keys(keys),
        0 <= i < keys.len(),
    ensures
        keys.contains(keys[i]),
        key_index(keys, keys[i]) == i,
{
    assert(keys[i] == keys[i]);
    let j = key_index(keys, keys[i]);
    if j < i {
        assert(str_lt(keys[j], keys[i]));
        lemma_str_lt_irreflexive(keys[i]);
    } else if j > i {
        assert(str_lt(keys[i], keys[j]));
        lemma_str_lt_irreflexive(keys[i]);
    }
}

/// The arguments of a call, each with its variables replaced as the graph
/// of the calling node replaces them.
pub fn replace_args(graph: &Graph, args: &Vec<(String, Value)>) -> (r: Values)
    requires
        graph.wf(),
    ensures
        values_model(r@) == args@.map_values(
            |e: (String, Value)| (e.0@, Some(replaced(graph.table(), graph.vars(), e.1@))),
        ),
{
    let ghost m = args@.map_values(
        |e: (String, Value)| (e.0@, Some(replaced(graph.table(), graph.vars(), e.1@))),
    );
    let mut r: Values = Vec::new();
    for i in 0..args.len()
        invariant
            graph.wf(),
            m == args@.map_values(
                |e: (String, Value)| (e.0@, Some(replaced(graph.table(), graph.vars(), e.1@))),
            ),
            r@.len() == i,
            forall|k: int| 0 <= k < i ==> (#[trigger] r@[k]).0@ == m[k].0 && opt_value_model(r@[k].1) == m[k].1,
    {
        let value = graph.replace_to(Some(args[i].1.deep_clone())).unwrap();
        r.push((args[i].0.clone(), value));
    }
    proof {
        assert(values_model(r@) =~= m);
    }
    r
}

/// The output that the tensor graph gives for `o`, numbered by the node
/// that gives it, if one does.
pub open spec fn found_out(nodes: Seq<TensorNode>, o: OutModel) -> Option<OutModel> {
    match fetch_scan(nodes, nodes.len() as int, o) {
        Some(Some(i)) => Some(OutModel { id: Some(node_data(nodes[i]).id), name: o.name }),
        _ => None,
    }
}

/// Numbers each of the named inputs, in ascending name order, by the node
/// of the tensor graph that gives it; the first that no node gives is
/// reported.
pub fn fetch_input_ids(tensor_graph: &TensorGraph, outs: Outs) -> (r: Result<Outs>)
    requires
        no_exec(tensor_graph.0@),
        sorted_keys(out_keys(outs@)),
    ensures
        ({
            let nodes = tensor_graph.0@;
            let m = outs_map(outs@);
            &&& (forall|k: Seq<char>| #[trigger] m.contains_key(k) ==> found_out(nodes, m[k]) is Some)
                ==> (r matches Ok(o) && out_keys(o@) == out_keys(outs@) && outs_map(o@) == m.map_values(
                |x: OutModel| found_out(nodes, x)->0,
            ))
            &&& r is Ok ==> forall|k: Seq<char>| #[trigger] m.contains_key(k) ==> found_out(nodes, m[k]) is Some
            &&& r is Err ==> exists|k: Seq<char>|
                #[trigger] m.contains_key(k) && found_out(nodes, m[k]) is None && (forall|k2: Seq<char>|
                    #[trigger] m.contains_key(k2) && str_lt(k2, k) ==> found_out(nodes, m[k2]) is Some)
                    && (r matches Err(Error::GraphNodeError(GraphNodeError::NoSuchInput { out })) && out@
                    == m[k])
        }),
{
    let ghost nodes = tensor_graph.0@;
    let ghost keys = out_keys(outs@);
    let ghost vals = outs@.map_values(|e: (String, Out)| e.1@);
    let ghost m = outs_map(outs@);
    let mut r: Outs = Vec::new();
    let mut i: usize = 0;
    while i < outs.len()
        invariant
            i <= outs@.len(),
            nodes == tensor_graph.0@,
            no_exec(nodes),
            keys == out_keys(outs@),
            vals == outs@.map_values(|e: (String, Out)| e.1@),
            sorted_keys(keys),
            m == outs_map(outs@),
            r@.len() == i,
            forall|j: int|
                0 <= j < i ==> (#[trigger] r@[j]).0@ == outs@[j].0@ && found_out(nodes, vals[j]) is Some
                    && r@[j].1@ == found_out(nodes, vals[j])->0,
        decreases outs@.len() - i,
    {
        let mut out = Out { id: outs[i].1.id, name: outs[i].1.name.clone() };
        proof {
            lemma_no_exec_scans(nodes, nodes.len() as int, out@);
            assert(out@ == vals[i as int]);
        }
        match tensor_graph.fetch_shape(&mut out) {
            Ok(_) => {},
            Err(e) => {
                proof {
                    let k = keys[i as int];
                    lemma_sorted_key_index(keys, i as int);
                    assert(m.contains_key(k));
                    assert(m[k] == vals[i as int]);
                    assert forall|k2: Seq<char>| #[trigger] m.contains_key(k2) && str_lt(k2, k) implies found_out(
                        nodes,
                        m[k2],
                    ) is Some by {
                        let j = key_index(keys, k2);
                        assert(keys[j] == k2);
                        assert(keys.contains(k2));
                        assert(0 <= j < keys.len());
                        if j == i {
                            lemma_str_lt_irreflexive(k);
                        } else if j > i {
                            assert(str_lt(keys[i as int], keys[j]));
                            lemma_str_lt_asymmetric(k, k2);
                        } else {
                            assert(r@[j].0@ == outs@[j].0@);
                        }
                        assert(m[k2] == vals[j]);
                    }
                }
                return Err(e);
            },
        }
        r.push((outs[i].0.clone(), out));
        i = i + 1;
    }
    proof {
        assert(out_keys(r@) =~= keys);
        let rv = r@.map_values(|e: (String, Out)| e.1@);
        assert forall|k: Seq<char>| #[trigger] outs_map(r@).contains_key(k) implies outs_map(r@)[k]
            == m.map_values(|x: OutModel| found_out(nodes, x)->0)[k] by {
            let j = key_index(keys, k);
            assert(rv[j] == found_out(nodes, vals[j])->0);
        }
        assert(outs_map(r@) =~= m.map_values(|x: OutModel| found_out(nodes, x)->0));
        assert forall|k: Seq<char>| #[trigger] m.contains_key(k) implies found_out(nodes, m[k]) is Some by {
            let j = key_index(keys, k);
            assert(r@[j].0@ == outs@[j].0@);
        }
    }
    Ok(r)
}

/// Numbers each of the named inputs as an output of the first node, where
/// the tensor graph has no node yet.
pub fn first_input_ids(outs: Outs) -> (r: Outs)
    ensures
        out_keys(r@) == out_keys(outs@),
        outs_map(r@) == outs_map(outs@).map_values(|x: OutModel| OutModel { id: Some(1), name: x.name }),
{
    let ghost keys = out_keys(outs@);
    let ghost vals = outs@.map_values(|e: (String, Out)| e.1@);
    let mut r: Outs = Vec::new();
    for i in 0..outs.len()
        invariant
            keys == out_keys(outs@),
            vals == outs@.map_values(|e: (String, Out)| e.1@),
            r@.len() == i,
            forall|j: int|
                0 <= j < i ==> (#[trigger] r@[j]).0@ == outs@[j].0@ && r@[j].1@ == (OutModel {
                    id: Some(1),
                    name: vals[j].name,
                }),
    {
        r.push((outs[i].0.clone(), Out { id: Some(1), name: outs[i].1.name.clone() }));
    }
    proof {
        assert(out_keys(r@) =~= keys);
        let rv = r@.map_values(|e: (String, Out)| e.1@);
        assert forall|k: Seq<char>| #[trigger] outs_map(r@).contains_key(k) implies outs_map(r@)[k]
            == outs_map(outs@).map_values(|x: OutModel| OutModel { id: Some(1), name: x.name })[k] by {
            let j = key_index(keys, k);
            assert(rv[j] == OutModel { id: Some(1), name: vals[j].name });
        }
        assert(outs_map(r@) =~= outs_map(outs@).map_values(
            |x: OutModel| OutModel { id: Some(1), name: x.name },
        ));
    }
    r
}


/// The outputs that a call gives its callee by name; a call without inputs
/// gives none.
pub open spec fn given_outs(call: GraphCall) -> Seq<(Seq<char>, OutModel)> {
    match call.inputs {
        Some(GraphInputs::Dict(v)) => outs_view(v@),
        _ => Seq::empty(),
    }
}

/// Whether a call gives its inputs as a list.
pub open spec fn inputs_listed(call: GraphCall) -> bool {
    call.inputs matches Some(GraphInputs::List(_))
}

/// The values that a call gives the variables of its callee: its arguments
/// with their variables replaced by the calling graph.
pub open spec fn call_values(graph: Graph, call: GraphCall) -> Seq<(Seq<char>, Option<ValueModel>)> {
    call.args->0@.map_values(
        |e: (String, Value)| (e.0@, Some(replaced(graph.table(), graph.vars(), e.1@))),
    )
}

/// The variables of the callee once the call's arguments are given, through
/// its shortcuts, and the position of the first argument that reaches none.
pub open spec fn call_applied(graph: Graph, callee: NodeIR, call: GraphCall) -> (
    Map<Seq<char>, VariableModel>,
    Option<int>,
) {
    if call.args is Some {
        apply_all(
            callee.data.graph.vars(),
            callee.data.graph.table(),
            true,
            call_values(graph, call),
        )
    } else {
        (callee.data.graph.vars(), None)
    }
}

/// The inputs that the callee takes, by name, before they are numbered.
pub open spec fn call_inputs(callee: NodeIR, call: GraphCall) -> Map<Seq<char>, OutModel> {
    collect_outs(
        out_keys(callee.data.input@).map_values(|k: Seq<char>| chosen_input(given_outs(call), k)),
    )
}

/// The inputs of the callee, numbered: by the nodes of the tensor graph that
/// give them, or as outputs of the first node where there is none yet.
pub open spec fn numbered_inputs(nodes: Seq<TensorNode>, m: Map<Seq<char>, OutModel>) -> Map<
    Seq<char>,
    OutModel,
> {
    if nodes.len() > 0 {
        m.map_values(|x: OutModel| found_out(nodes, x)->0)
    } else {
        m.map_values(|x: OutModel| OutModel { id: Some(1), name: x.name })
    }
}

/// Whether some input, the first in name order that the tensor graph does
/// not give, is reported by `e`.
pub open spec fn reports_missing_input(e: Error, nodes: Seq<TensorNode>, m: Map<Seq<char>, OutModel>) -> bool {
    exists|k: Seq<char>|
        #[trigger] m.contains_key(k) && found_out(nodes, m[k]) is None && (forall|k2: Seq<char>|
            #[trigger] m.contains_key(k2) && str_lt(k2, k) ==> found_out(nodes, m[k2]) is Some) && (e matches Error::GraphNodeError(
            GraphNodeError::NoSuchInput { out },
        ) && out@ == m[k])
}

/// Whether the tensor graph gives every input.
pub open spec fn all_found(nodes: Seq<TensorNode>, m: Map<Seq<char>, OutModel>) -> bool {
    nodes.len() > 0 ==> forall|k: Seq<char>| #[trigger] m.contains_key(k) ==> found_out(nodes, m[k]) is Some
}

/// Builds one call of a node that calls other nodes, numbered `id`:
/// `callee` is the node that the call names, as the nodes known by name
/// give it. The callee takes the number of the node, the call's repeat and
/// arguments (their variables replaced by the calling graph `graph`; the
/// arguments go to the callee's variables through its shortcuts), and the
/// inputs that the call gives by name, the others taken by their own names;
/// each input is numbered by the node of the tensor graph that gives it,
/// and each output of the callee, one per input name, goes to the next
/// node. The callee is then added to the tensor graph.
pub fn build_call(tensor_graph: &mut TensorGraph, graph: &Graph, callee: NodeIR, call: GraphCall, id: u64) -> (r:
    Result<()>)
    requires
        graph.wf(),
        callee.data.graph.wf(),
        no_exec(old(tensor_graph).0@),
        id < u64::MAX,
        call.wf(),
    ensures
        ({
            let nodes = old(tensor_graph).0@;
            let applied = call_applied(*graph, callee, call);
            let m = call_inputs(callee, call);
            &&& r is Err ==> *final(tensor_graph) == *old(tensor_graph)
            &&& applied.1 matches Some(i) ==> r is Err && no_such_variable(
                r->Err_0,
                call_values(*graph, call)[i].0,
                callee.data.graph.table_keys(),
            )
            &&& applied.1 is None && inputs_listed(call) ==> r == Err::<
                (),
                Error,
            >(
                Error::GraphCallError(
                    GraphCallError::MismatchedInputsType {
                        expected: GraphInputsType::Dict,
                        given: GraphInputsType::List,
                    },
                ),
            )
            &&& applied.1 is None && !inputs_listed(call) && !all_found(
                nodes,
                m,
            ) ==> r is Err && reports_missing_input(r->Err_0, nodes, m)
            &&& applied.1 is None && !inputs_listed(call) && all_found(
                nodes,
                m,
            ) ==> {
                &&& r is Ok
                &&& final(tensor_graph).0@.len() == nodes.len() + 1
                &&& final(tensor_graph).0@.drop_last() == nodes
                &&& final(tensor_graph).0@.last() matches TensorNode::Node(n) && {
                    &&& n.data.id == id
                    &&& n.data.name == callee.data.name
                    &&& n.ty == callee.ty
                    &&& n.tensor_graph == callee.tensor_graph
                    &&& opt_value_model(n.repeat) == match opt_value_model(call.repeat) {
                        Some(x) => Some(replaced(graph.table(), graph.vars(), x)),
                        None => None,
                    }
                    &&& n.data.graph.wf()
                    &&& n.data.graph.gid() == callee.data.graph.gid()
                    &&& n.data.graph.table() == callee.data.graph.table()
                    &&& n.data.graph.var_keys() == callee.data.graph.var_keys()
                    &&& n.data.graph.vars() == applied.0
                    &&& sorted_keys(out_keys(n.data.input@))
                    &&& outs_map(n.data.input@) == numbered_inputs(nodes, m)
                    &&& sorted_keys(out_keys(n.data.output@))
                    &&& outs_map(n.data.output@) == io_outputs(id, out_keys(n.data.input@))
                }
            }
        }),
{
    let ghost nodes = tensor_graph.0@;
    let mut callee = callee;
    callee.data.id = id;
    callee.repeat = match graph.replace_to(call.repeat) {
        Ok(v) => v,
        Err(e) => {
            return Err(e);
        },
    };
    match &call.args {
        Some(args) => {
            let values = replace_args(graph, args);
            match callee.data.graph.apply(values, true) {
                Ok(()) => {},
                Err(e) => {
                    return Err(e);
                },
            }
        },
        None => {},
    }
    let given: Outs = match call.inputs {
        Some(inputs) => match unwrap_dict(inputs) {
            Ok(v) => v,
            Err(e) => {
                return Err(e);
            },
        },
        None => Vec::new(),
    };
    proof {
        assert(outs_view(given@) == given_outs(call));
    }
    let inputs = out_entries(arrange_inputs(&callee.data.input, &given));
    let mut names: Vec<String> = Vec::new();
    for i in 0..inputs.len()
        invariant
            names@.len() == i,
            forall|k: int| 0 <= k < i ==> (#[trigger] names@[k])@ == inputs@[k].0@,
    {
        names.push(inputs[i].0.clone());
    }
    proof {
        assert(strs(names@) =~= out_keys(inputs@));
    }
    let outputs = out_entries(arrange_outputs(id, &names));
    let inputs = if tensor_graph.is_some() {
        match fetch_input_ids(tensor_graph, inputs) {
            Ok(v) => v,
            Err(e) => {
                return Err(e);
            },
        }
    } else {
        first_input_ids(inputs)
    };
    callee.data.input = inputs;
    callee.data.output = outputs;
    tensor_graph.0.push(TensorNode::Node(callee));
    Ok(())
}

} // verus!
