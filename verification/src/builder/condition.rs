use vstd::prelude::*;

use super::error::{clone_strings, strs, Error, GraphCallError, GraphNodeError, Result};
use crate::ast::graph_node::{inputs_type, GraphCall, GraphInputsType, GraphNode};
use crate::ast::value::Value;

verus! {

broadcast use vstd::std_specs::vec::group_vec_axioms;

/// What a tensor graph of an external node must look like: a node for each
/// of `names`, in order, each with one call to that name, and the optional
/// constraints on the inputs, the arguments, the shapes and repeats.
pub struct ExternTensorGraphCondition<'a> {
    // the nodes by id, in ascending id order
    pub nodes: &'a Vec<(u64, GraphNode)>,
    pub names: Vec<String>,
    pub ty_inputs: Option<GraphInputsType>,
    // the expected argument names, in ascending order
    pub args: Option<Vec<String>>,
    pub is_sized: Option<bool>,
    pub repeatable: Option<bool>,
    pub is_id_zero: bool,
}

/// Whether nodes are held by id in strictly ascending id order, each id
/// once.
pub open spec fn ascending_ids(nodes: Seq<(u64, GraphNode)>) -> bool {
    forall|i: int, j: int| 0 <= i < j < nodes.len() ==> #[trigger] nodes[i].0 < #[trigger] nodes[j].0
}

/// The constraints of a condition, as plain values.
#[verifier::ext_equal]
pub struct Constraints {
    pub ty_inputs: Option<GraphInputsType>,
    pub args: Option<Seq<Seq<char>>>,
    pub is_sized: Option<bool>,
    pub repeatable: Option<bool>,
    pub is_id_zero: bool,
}

impl<'a> ExternTensorGraphCondition<'a> {
    /// The constraints that this condition puts on each node.
    pub open spec fn constraints(&self) -> Constraints {
        Constraints {
            ty_inputs: self.ty_inputs,
            args: match self.args {
                Some(a) => Some(strs(a@)),
                None => None,
            },
            is_sized: self.is_sized,
            repeatable: self.repeatable,
            is_id_zero: self.is_id_zero,
        }
    }
}

/// The first check that a node fails.
pub enum NodeFault {
    Calls,
    Id,
    Name,
    InputsType,
    Repeat,
    Args,
    Sized,
}

/// The keyword names of a call, in order.
pub open spec fn arg_keys(call: GraphCall) -> Seq<Seq<char>> {
    match call.args {
        Some(a) => a@.map_values(|e: (String, Value)| e.0@),
        None => Seq::empty(),
    }
}

/// The first check that `node` fails, at position `id`, against the names
/// `names`: the number of calls (one), the id, the callee's name, the way the
/// inputs are given, the repeat, the argument names and the shapes.
pub open spec fn node_fault(
    c: Constraints,
    names: Seq<Seq<char>>,
    id: u64,
    node: GraphNode,
) -> Option<NodeFault> {
    if node.calls@.len() != 1 {
        Some(NodeFault::Calls)
    } else if c.is_id_zero && id != node.id {
        Some(NodeFault::Id)
    } else if !names.contains(node.calls@[0].name@) {
        Some(NodeFault::Name)
    } else if c.ty_inputs is Some && inputs_type(node.calls@[0].inputs) != c.ty_inputs->0 {
        Some(NodeFault::InputsType)
    } else if c.repeatable is Some && (node.calls@[0].repeat is Some) != c.repeatable->0 {
        Some(NodeFault::Repeat)
    } else if c.args is Some && arg_keys(node.calls@[0]) != c.args->0 {
        Some(NodeFault::Args)
    } else if c.is_sized is Some && (node.shapes is Some) != c.is_sized->0 {
        Some(NodeFault::Sized)
    } else {
        None
    }
}

/// The error that reports a fault of `node` at position `id`.
pub open spec fn reports_fault(
    e: Error,
    f: NodeFault,
    c: Constraints,
    names: Seq<Seq<char>>,
    id: u64,
    node: GraphNode,
) -> bool {
    match f {
        NodeFault::Calls => e matches Error::GraphCallError(
            GraphCallError::MismatchedSize { expected, given },
        ) && strs(expected@) == names && given == node.calls@.len(),
        NodeFault::Id => e == Error::GraphNodeError(
            GraphNodeError::MismatchedId { expected: id, given: node.id },
        ),
        NodeFault::Name => e matches Error::GraphCallError(
            GraphCallError::MismatchedName { expected, given },
        ) && strs(expected@) == names && given@ == node.calls@[0].name@,
        NodeFault::InputsType => e == Error::GraphCallError(
            GraphCallError::MismatchedInputsType {
                expected: c.ty_inputs->0,
                given: inputs_type(node.calls@[0].inputs),
            },
        ),
        NodeFault::Repeat => e == Error::GraphCallError(
            GraphCallError::MismatchedRepeat {
                expected: c.repeatable->0,
                given: node.calls@[0].repeat is Some,
            },
        ),
        NodeFault::Args => e matches Error::GraphCallError(
            GraphCallError::MismatchedArgs { expected, given },
        ) && strs(expected@) == c.args->0 && strs(given@) == arg_keys(node.calls@[0]),
        NodeFault::Sized => e == Error::GraphNodeError(
            GraphNodeError::MismatchedShapesExistence {
                expected: c.is_sized->0,
                given: node.shapes is Some,
            },
        ),
    }
}

/// The node at position `i` passes its check.
pub open spec fn node_passes(c: ExternTensorGraphCondition, i: int) -> bool {
    node_fault(c.constraints(), seq![c.names@[i]@], i as u64, c.nodes@[i].1) is None
}

/// Whether `s` is one of `names`, with its position.
fn position_of(names: &Vec<String>, s: &String) -> (r: bool)
    ensures
        r == strs(names@).contains(s@),
{
    let mut i: usize = 0;
    while i < names.len()
        invariant
            i <= names@.len(),
            forall|k: int| 0 <= k < i ==> names@[k]@ != s@,
        decreases names.len() - i,
    {
        if names[i].eq(s) {
            proof {
                assert(strs(names@)[i as int] == s@);
            }
            return true;
        }
        i = i + 1;
    }
    proof {
        if strs(names@).contains(s@) {
            let k = choose|k: int| 0 <= k < strs(names@).len() && strs(names@)[k] == s@;
            assert(names@[k]@ == s@);
        }
    }
    false
}

/// The keyword names of a call, copied.
fn keys_of(call: &GraphCall) -> (r: Vec<String>)
    ensures
        strs(r@) == arg_keys(*call),
{
    let mut r: Vec<String> = Vec::new();
    match &call.args {
        Some(args) => {
            for i in 0..args.len()
                invariant
                    r@.len() == i,
                    i <= args@.len(),
                    forall|k: int| 0 <= k < i ==> (#[trigger] r@[k])@ == args@[k].0@,
            {
                r.push(args[i].0.clone());
            }
            assert(strs(r@) =~= arg_keys(*call));
        },
        None => {
            assert(strs(r@) =~= arg_keys(*call));
        },
    }
    r
}

/// Whether two vectors of strings are equal, element by element.
fn strings_eq(a: &Vec<String>, b: &Vec<String>) -> (r: bool)
    ensures
        r == (strs(a@) == strs(b@)),
{
    if a.len() != b.len() {
        proof {
            assert(strs(a@).len() != strs(b@).len());
        }
        return false;
    }
    let mut i: usize = 0;
    while i < a.len()
        invariant
            i <= a@.len() == b@.len(),
            forall|k: int| 0 <= k < i ==> a@[k]@ == b@[k]@,
        decreases a.len() - i,
    {
        if !a[i].eq(&b[i]) {
            proof {
                assert(strs(a@)[i as int] != strs(b@)[i as int]);
            }
            return false;
        }
        i = i + 1;
    }
    assert(strs(a@) =~= strs(b@));
    true
}

impl<'a> ExternTensorGraphCondition<'a> {
    /// Checks the tensor graph: as many nodes as names, and each node the
    /// check of its name at its position. The first failure is reported.
    pub fn test(self) -> (r: Result<()>)
        requires
            ascending_ids(self.nodes@),
            forall|i: int| 0 <= i < self.nodes@.len() ==> (#[trigger] self.nodes@[i]).1.wf(),
        ensures
            r is Ok <==> (self.nodes@.len() == self.names@.len() && forall|i: int|
                0 <= i < self.nodes@.len() ==> #[trigger] node_passes(self, i)),
            self.nodes@.len() != self.names@.len() ==> (r matches Err(
                Error::GraphNodeError(GraphNodeError::MismatchedSize { expected, given }),
            ) && strs(expected@) == strs(self.names@) && given == self.nodes@.len()),
            self.nodes@.len() == self.names@.len() && r is Err ==> exists|i: int|
                0 <= i < self.nodes@.len() && (forall|j: int|
                    0 <= j < i ==> #[trigger] node_passes(self, j)) && reports_fault(
                    r->Err_0,
                    node_fault(self.constraints(), seq![self.names@[i]@], i as u64, self.nodes@[i].1)->0,
                    self.constraints(),
                    seq![self.names@[i]@],
                    i as u64,
                    self.nodes@[i].1,
                ) && node_fault(self.constraints(), seq![self.names@[i]@], i as u64, self.nodes@[i].1) is Some,
    {
        if self.nodes.len() != self.names.len() {
            return Err(
                Error::GraphNodeError(
                    GraphNodeError::MismatchedSize {
                        expected: clone_strings(&self.names),
                        given: self.nodes.len(),
                    },
                ),
            );
        }
        let n = self.nodes.len();
        let mut i: usize = 0;
        while i < n
            invariant
                n == self.nodes@.len() == self.names@.len(),
                i <= n,
                forall|k: int| 0 <= k < self.nodes@.len() ==> (#[trigger] self.nodes@[k]).1.wf(),
                forall|j: int| 0 <= j < i ==> #[trigger] node_passes(self, j),
            decreases n - i,
        {
            let mut names: Vec<String> = Vec::new();
            names.push(self.names[i].clone());
            proof {
                assert(strs(names@) =~= seq![self.names@[i as int]@]);
            }
            let res = self.test_each_node(&names, i as u64, &self.nodes[i].1);
            match res {
                Ok(()) => {},
                Err(e) => {
                    proof {
                        assert(!node_passes(self, i as int));
                    }
                    return Err(e);
                },
            }
            i = i + 1;
        }
        Ok(())
    }

    /// Checks one node against the names that may be called there.
    pub fn test_each_node(&self, names: &Vec<String>, id: u64, node: &GraphNode) -> (r: Result<
        (),
    >)
        requires
            node.wf(),
        ensures
            r is Ok <==> node_fault(self.constraints(), strs(names@), id, *node) is None,
            r is Err ==> reports_fault(
                r->Err_0,
                node_fault(self.constraints(), strs(names@), id, *node)->0,
                self.constraints(),
                strs(names@),
                id,
                *node,
            ),
    {
        // Step 1. test the number of calls (should be 1)
        let given = node.calls.len();
        if given != 1 {
            return Err(
                Error::GraphCallError(
                    GraphCallError::MismatchedSize { expected: clone_strings(names), given },
                ),
            );
        }
        // Step 2. test the node id
        if self.is_id_zero && id != node.id {
            return Err(
                Error::GraphNodeError(GraphNodeError::MismatchedId { expected: id, given: node.id }),
            );
        }
        let call = &node.calls[0];
        // Step 3. test the name
        if !position_of(names, &call.name) {
            return Err(
                Error::GraphCallError(
                    GraphCallError::MismatchedName {
                        expected: clone_strings(names),
                        given: call.name.clone(),
                    },
                ),
            );
        }
        // Step 4. test inputs
        if let Some(expected) = self.ty_inputs {
            let given = call.get_inputs_ty();
            if expected != given {
                return Err(
                    Error::GraphCallError(GraphCallError::MismatchedInputsType { expected, given }),
                );
            }
        }
        // Step 5. test repeat
        if let Some(expected) = self.repeatable {
            let given = call.repeat.is_some();
            if expected != given {
                return Err(Error::GraphCallError(GraphCallError::MismatchedRepeat { expected, given }));
            }
        }
        // Step 6. test the args
        if let Some(expected) = &self.args {
            let given = keys_of(call);
            if !strings_eq(&given, expected) {
                return Err(
                    Error::GraphCallError(
                        GraphCallError::MismatchedArgs { expected: clone_strings(expected), given },
                    ),
                );
            }
        }
        // Step 7. test the size
        if let Some(expected) = self.is_sized {
            let given = node.shapes.is_some();
            if expected != given {
                return Err(
                    Error::GraphNodeError(
                        GraphNodeError::MismatchedShapesExistence { expected, given },
                    ),
                );
            }
        }
        Ok(())
    }
}

} // verus!
