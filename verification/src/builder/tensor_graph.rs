use vstd::prelude::*;

use super::error::{Error, GraphNodeError, Result, TensorNodeError};
use super::graph::Graph;
use super::strmap::str_equal;
use super::tensor::{shapes_outs, ExternIR, IRData};
use crate::ast::graph_node::{outs_view, Out, OutModel, Outs, Shape, Shapes};
use crate::ast::types::{FinalNodeType, LetNodeType};
use crate::ast::value::{value_model, Value, ValueModel};

verus! {

broadcast use vstd::std_specs::vec::group_vec_axioms;

/// A node made of a tensor graph of other nodes, possibly repeated.
#[derive(Debug)]
pub struct NodeIR {
    pub data: IRData,
    pub ty: LetNodeType,
    pub tensor_graph: TensorGraph,
    pub repeat: Option<Value>,
}

/// A node that runs a program: each of its steps calls nodes by name.
#[derive(Debug)]
pub struct ExecIR {
    pub data: IRData,
    pub links: Vec<Vec<String>>,
}

/// A node of a tensor graph.
#[derive(Debug)]
pub enum TensorNode {
    Node(NodeIR),
    Extern(ExternIR),
    Exec(ExecIR),
}

/// The nodes of a tensor graph, in order.
#[derive(Debug)]
pub struct TensorGraph(pub Vec<TensorNode>);

/// The name of the node that asserts the input shapes of a graph.
pub open spec fn assert_shape_name() -> Seq<char> {
    seq!['A', 's', 's', 'e', 'r', 't', 'S', 'h', 'a', 'p', 'e']
}

/// The data of a node.
pub open spec fn node_data(n: TensorNode) -> IRData {
    match n {
        TensorNode::Node(x) => x.data,
        TensorNode::Extern(x) => x.data,
        TensorNode::Exec(x) => x.data,
    }
}

/// Whether a node is the input node of its graph.
pub open spec fn node_is_input(n: TensorNode) -> bool {
    node_data(n).name@ == assert_shape_name()
}

/// Whether a generic output named `x` is all that the shapes hold.
pub open spec fn only_generic_x(s: Shapes) -> bool {
    s.0@.len() == 1 && s.0@[0].0@ == seq!['x'] && s.0@[0].1 is None
}

/// The output shapes of a node: `None` where finding them would reach an
/// exec node, which has none.
pub open spec fn node_out(n: TensorNode) -> Option<Option<Shapes>>
    decreases n, 0int,
{
    match n {
        TensorNode::Node(x) => graph_out(x.tensor_graph),
        TensorNode::Extern(x) => Some(x.shapes.output),
        TensorNode::Exec(_) => None,
    }
}

/// The output shapes of a tensor graph: those of its last node that has
/// shapes other than a generic `x`, else those of its last node; `None`
/// where finding them would reach an exec node.
pub open spec fn graph_out(g: TensorGraph) -> Option<Option<Shapes>>
    decreases g, 1int,
{
    scan_out(g.0@, g.0@.len() as int)
}

/// The output shapes among the first `i` nodes, searched from the last.
pub open spec fn scan_out(nodes: Seq<TensorNode>, i: int) -> Option<Option<Shapes>>
    decreases nodes, i,
{
    if i <= 0 || i > nodes.len() {
        if nodes.len() == 0 {
            Some(None)
        } else {
            node_out(nodes.last())
        }
    } else {
        match node_out(nodes[i - 1]) {
            None => None,
            Some(Some(s)) => if only_generic_x(s) {
                scan_out(nodes, i - 1)
            } else {
                Some(Some(s))
            },
            Some(None) => scan_out(nodes, i - 1),
        }
    }
}

/// The input shapes of a node: `None` where finding them would reach an
/// exec node or an empty graph.
pub open spec fn node_in(n: TensorNode) -> Option<Option<Shapes>>
    decreases n, 0int,
{
    match n {
        TensorNode::Node(x) => graph_in(x.tensor_graph),
        TensorNode::Extern(x) => Some(x.shapes.input),
        TensorNode::Exec(_) => None,
    }
}

/// The input shapes of a tensor graph: the outputs of its input node, or
/// the inputs of its first node; `None` where the graph is empty or an exec
/// node is reached.
pub open spec fn graph_in(g: TensorGraph) -> Option<Option<Shapes>>
    decreases g, 1int,
{
    if g.0@.len() == 0 {
        None
    } else if node_is_input(g.0@[0]) {
        node_out(g.0@[0])
    } else {
        node_in(g.0@[0])
    }
}

/// The option of a reference, as an option of the value.
pub open spec fn deref_opt(o: Option<&Shapes>) -> Option<Shapes> {
    match o {
        Some(s) => Some(*s),
        None => None,
    }
}

impl TensorNode {
    /// Whether this is the input node of its graph.
    pub fn is_input(&self) -> (r: bool)
        ensures
            r == node_is_input(*self),
    {
        proof {
            reveal_strlit("AssertShape");
            assert("AssertShape"@ =~= assert_shape_name());
        }
        str_equal(self.name(), "AssertShape")
    }

    /// The name of the node.
    pub fn name(&self) -> (r: &str)
        ensures
            r@ == node_data(*self).name@,
    {
        self.get_data().name.as_str()
    }

    /// The id of the node.
    pub fn get_id(&self) -> (r: u64)
        ensures
            r == node_data(*self).id,
    {
        self.get_data().id
    }

    /// The data of the node.
    pub fn get_data(&self) -> (r: &IRData)
        ensures
            *r == node_data(*self),
    {
        match self {
            Self::Node(node) => &node.data,
            Self::Extern(node) => &node.data,
            Self::Exec(node) => &node.data,
        }
    }

    /// The variables of the node.
    pub fn get_graph(&self) -> (r: &Graph)
        ensures
            *r == node_data(*self).graph,
    {
        &self.get_data().graph
    }

    /// The named inputs of the node.
    pub fn get_inputs(&self) -> (r: &Outs)
        ensures
            *r == node_data(*self).input,
    {
        &self.get_data().input
    }

    /// Numbers the node.
    pub fn set_id(&mut self, id: u64)
        ensures
            node_data(*final(self)).id == id,
            node_data(*final(self)).name == node_data(*old(self)).name,
            node_data(*final(self)).graph == node_data(*old(self)).graph,
            node_data(*final(self)).input == node_data(*old(self)).input,
            node_data(*final(self)).output == node_data(*old(self)).output,
            *final(self) is Node <==> *old(self) is Node,
            *final(self) is Extern <==> *old(self) is Extern,
            *final(self) is Exec <==> *old(self) is Exec,
    {
        match self {
            Self::Node(node) => node.data.id = id,
            Self::Extern(node) => node.data.id = id,
            Self::Exec(node) => node.data.id = id,
        }
    }

    /// Sets how often the node repeats; only nodes made of other nodes
    /// repeat.
    pub fn set_repeat(&mut self, value: Option<Value>)
        requires
            *old(self) is Node,
        ensures
            *final(self) matches TensorNode::Node(n) && n.repeat == value && n.data == old(
                self,
            )->Node_0.data && n.ty == old(self)->Node_0.ty && n.tensor_graph == old(
                self,
            )->Node_0.tensor_graph,
    {
        match self {
            Self::Node(node) => node.repeat = value,
            _ => {},
        }
    }

    /// The input shapes of the node.
    pub fn get_input_shapes(&self) -> (r: Option<&Shapes>)
        requires
            node_in(*self) is Some,
        ensures
            deref_opt(r) == node_in(*self)->0,
        decreases self, 0int,
    {
        match self {
            Self::Node(node) => node.tensor_graph.get_input_shapes(),
            Self::Extern(node) => node.get_input_shapes(),
            Self::Exec(_) => None,
        }
    }

    /// The output shapes of the node.
    pub fn get_output_shapes(&self) -> (r: Option<&Shapes>)
        requires
            node_out(*self) is Some,
        ensures
            deref_opt(r) == node_out(*self)->0,
        decreases self, 0int,
    {
        match self {
            Self::Node(node) => node.tensor_graph.get_output_shapes(),
            Self::Extern(node) => node.get_output_shapes(),
            Self::Exec(_) => None,
        }
    }

    /// The kind of the node once built.
    pub fn ty(&self) -> (r: FinalNodeType)
        ensures
            r == (if *self is Exec {
                FinalNodeType::Exec
            } else {
                FinalNodeType::Default
            }),
    {
        match self {
            Self::Node(_) | Self::Extern(_) => FinalNodeType::Default,
            Self::Exec(_) => FinalNodeType::Exec,
        }
    }

    /// The node made of other nodes that this is.
    pub fn unwrap_node(self) -> (r: Result<NodeIR>)
        ensures
            match self {
                TensorNode::Node(n) => r == Ok::<NodeIR, Error>(n),
                _ => r == Err::<NodeIR, Error>(
                    Error::TensorNodeError(
                        TensorNodeError::MismatchedType {
                            expected: FinalNodeType::Default,
                            given: if self is Exec {
                                FinalNodeType::Exec
                            } else {
                                FinalNodeType::Default
                            },
                        },
                    ),
                ),
            },
    {
        let given = self.ty();
        match self {
            Self::Node(node) => Ok(node),
            _ => Err(
                Error::TensorNodeError(
                    TensorNodeError::MismatchedType { expected: FinalNodeType::Default, given },
                ),
            ),
        }
    }

    /// The external node that this is.
    pub fn unwrap_extern(self) -> (r: Result<ExternIR>)
        ensures
            match self {
                TensorNode::Extern(n) => r == Ok::<ExternIR, Error>(n),
                _ => r == Err::<ExternIR, Error>(
                    Error::TensorNodeError(
                        TensorNodeError::MismatchedType {
                            expected: FinalNodeType::Default,
                            given: if self is Exec {
                                FinalNodeType::Exec
                            } else {
                                FinalNodeType::Default
                            },
                        },
                    ),
                ),
            },
    {
        let given = self.ty();
        match self {
            Self::Extern(node) => Ok(node),
            _ => Err(
                Error::TensorNodeError(
                    TensorNodeError::MismatchedType { expected: FinalNodeType::Default, given },
                ),
            ),
        }
    }

    /// The exec node that this is.
    pub fn unwrap_exec(self) -> (r: Result<ExecIR>)
        ensures
            match self {
                TensorNode::Exec(n) => r == Ok::<ExecIR, Error>(n),
                _ => r == Err::<ExecIR, Error>(
                    Error::TensorNodeError(
                        TensorNodeError::MismatchedType {
                            expected: FinalNodeType::Exec,
                            given: FinalNodeType::Default,
                        },
                    ),
                ),
            },
    {
        let given = self.ty();
        match self {
            Self::Exec(node) => Ok(node),
            _ => Err(
                Error::TensorNodeError(
                    TensorNodeError::MismatchedType { expected: FinalNodeType::Exec, given },
                ),
            ),
        }
    }

    /// The external node that this is, if it is one.
    pub fn try_borrow_extern(&self) -> (r: Option<&ExternIR>)
        ensures
            match *self {
                TensorNode::Extern(n) => r == Some(&n),
                _ => r is None,
            },
    {
        match self {
            Self::Extern(node) => Some(node),
            _ => None,
        }
    }
}

impl TensorGraph {
    /// A graph without nodes.
    pub fn empty() -> (r: Self)
        ensures
            r.0@.len() == 0,
    {
        Self(Vec::new())
    }

    /// A graph of one node.
    pub fn new_one(node: TensorNode) -> (r: Self)
        ensures
            r.0@ == seq![node],
    {
        let mut v = Vec::new();
        v.push(node);
        Self(v)
    }

    /// Whether the graph has nodes.
    pub fn is_some(&self) -> (r: bool)
        ensures
            r == (self.0@.len() > 0),
    {
        self.0.len() > 0
    }

    /// The input shapes of the graph.
    pub fn get_input_shapes(&self) -> (r: Option<&Shapes>)
        requires
            graph_in(*self) is Some,
        ensures
            deref_opt(r) == graph_in(*self)->0,
        decreases self, 1int,
    {
        let input_node = &self.0[0];
        if input_node.is_input() {
            input_node.get_output_shapes()
        } else {
            input_node.get_input_shapes()
        }
    }

    /// The output shapes of the graph.
    pub fn get_output_shapes(&self) -> (r: Option<&Shapes>)
        requires
            graph_out(*self) is Some,
        ensures
            deref_opt(r) == graph_out(*self)->0,
        decreases self, 1int,
    {
        let n = self.0.len();
        let mut i: usize = n;
        while i > 0
            invariant
                n == self.0@.len(),
                i <= n,
                scan_out(self.0@, n as int) == scan_out(self.0@, i as int),
                scan_out(self.0@, i as int) is Some,
            decreases i,
        {
            let node = &self.0[i - 1];
            proof {
                assert(node_out(self.0@[i - 1]) is Some);
            }
            match node.get_output_shapes() {
                Some(shapes) => {
                    if !is_only_generic_x(shapes) {
                        return Some(shapes);
                    }
                },
                None => {},
            }
            i = i - 1;
        }
        if n == 0 {
            None
        } else {
            self.0[n - 1].get_output_shapes()
        }
    }

    /// The external node that the graph is made of, if it is made of one.
    pub fn try_borrow_extern_node(&self) -> (r: Option<&ExternIR>)
        ensures
            (self.0@.len() == 1 && self.0@[0] is Extern) ==> r == Some(&self.0@[0]->Extern_0),
            !(self.0@.len() == 1 && self.0@[0] is Extern) ==> r is None,
    {
        if self.0.len() == 1 {
            self.0[0].try_borrow_extern()
        } else {
            None
        }
    }
}

/// Whether a generic output named `x` is all that the shapes hold.
fn is_only_generic_x(s: &Shapes) -> (r: bool)
    ensures
        r == only_generic_x(*s),
{
    proof {
        reveal_strlit("x");
        assert("x"@ =~= seq!['x']);
    }
    s.0.len() == 1 && str_equal(s.0[0].0.as_str(), "x") && s.0[0].1.is_none()
}

impl NodeIR {
    /// The input shapes of the node.
    pub fn get_input_shapes(&self) -> (r: Option<&Shapes>)
        requires
            graph_in(self.tensor_graph) is Some,
        ensures
            deref_opt(r) == graph_in(self.tensor_graph)->0,
    {
        self.tensor_graph.get_input_shapes()
    }

    /// The output shapes of the node.
    pub fn get_output_shapes(&self) -> (r: Option<&Shapes>)
        requires
            graph_out(self.tensor_graph) is Some,
        ensures
            deref_opt(r) == graph_out(self.tensor_graph)->0,
    {
        self.tensor_graph.get_output_shapes()
    }
}

impl IRData {
    /// A node named `name` with the variables `graph`, whose inputs and
    /// outputs are those of the tensor graph.
    pub fn with_tensor_graph(name: String, graph: Graph, tensor_graph: &TensorGraph) -> (r: Self)
        requires
            graph_in(*tensor_graph) is Some,
            graph_out(*tensor_graph) is Some,
        ensures
            r.id == 0,
            r.name@ == name@,
            r.graph == graph,
            outs_view(r.input@) == shapes_outs(1, graph_in(*tensor_graph)->0),
            outs_view(r.output@) == shapes_outs(1, graph_out(*tensor_graph)->0),
    {
        Self::with_shapes(
            name,
            graph,
            tensor_graph.get_input_shapes(),
            tensor_graph.get_output_shapes(),
        )
    }
}

/// The output shapes of the last node, among the first `i`, that has some;
/// `None` where finding them would reach an exec node.
pub open spec fn last_out(nodes: Seq<TensorNode>, i: int) -> Option<Option<Shapes>>
    decreases i,
{
    if i <= 0 || i > nodes.len() {
        Some(None)
    } else {
        match node_out(nodes[i - 1]) {
            None => None,
            Some(Some(s)) => Some(Some(s)),
            Some(None) => last_out(nodes, i - 1),
        }
    }
}

/// The position of the first shape named `name`.
pub open spec fn shape_index(s: Shapes, name: Seq<char>) -> Option<int> {
    if exists|k: int| 0 <= k < s.0@.len() && (#[trigger] s.0@[k]).0@ == name {
        Some(
            choose|k: int|
                0 <= k < s.0@.len() && (#[trigger] s.0@[k]).0@ == name && forall|j: int|
                    0 <= j < k ==> (#[trigger] s.0@[j]).0@ != name,
        )
    } else {
        None
    }
}

/// Where the output `out` is found among the first `i` nodes, searched from
/// the last: nodes numbered above its id are passed over, and the search
/// stops at a node numbered below it. `Some(None)` where it is not found,
/// `None` where the search would reach an exec node.
pub open spec fn fetch_scan(nodes: Seq<TensorNode>, i: int, out: OutModel) -> Option<Option<int>>
    decreases i,
{
    if i <= 0 || i > nodes.len() {
        Some(None)
    } else {
        let n = nodes[i - 1];
        let nid = node_data(n).id;
        if out.id is Some && nid > out.id->0 {
            fetch_scan(nodes, i - 1, out)
        } else if out.id is Some && nid < out.id->0 {
            Some(None)
        } else {
            match node_out(n) {
                None => None,
                Some(Some(s)) => if shape_index(s, out.name) is Some {
                    Some(Some(i - 1))
                } else {
                    fetch_scan(nodes, i - 1, out)
                },
                Some(None) => fetch_scan(nodes, i - 1, out),
            }
        }
    }
}

/// The models of the dimensions of a shape.
pub open spec fn shape_model(s: Shape) -> Seq<ValueModel> {
    s.0@.map_values(|v: Value| v@)
}

/// The model of an optional shape.
pub open spec fn opt_shape_model(s: Option<Shape>) -> Option<Seq<ValueModel>> {
    match s {
        Some(x) => Some(shape_model(x)),
        None => None,
    }
}

/// A copy of a shape.
pub fn clone_shape(s: &Shape) -> (r: Shape)
    ensures
        shape_model(r) == shape_model(*s),
{
    let mut v: Vec<Value> = Vec::new();
    for i in 0..s.0.len()
        invariant
            v@.len() == i,
            i <= s.0@.len(),
            forall|k: int| 0 <= k < i ==> (#[trigger] v@[k])@ == s.0@[k]@,
    {
        v.push(s.0[i].deep_clone());
    }
    let r = Shape(v);
    proof {
        assert(shape_model(r) =~= shape_model(*s));
    }
    r
}

/// The position of the first shape named `name`.
pub(crate) fn find_shape(s: &Shapes, name: &str) -> (r: Option<usize>)
    ensures
        r matches Some(k) ==> k < s.0@.len(),
        match shape_index(*s, name@) {
            Some(k) => r matches Some(x) && x as int == k,
            None => r is None,
        },
{
    let mut k: usize = 0;
    while k < s.0.len()
        invariant
            k <= s.0@.len(),
            forall|j: int| 0 <= j < k ==> (#[trigger] s.0@[j]).0@ != name@,
        decreases s.0@.len() - k,
    {
        if str_equal(s.0[k].0.as_str(), name) {
            proof {
                let c = choose|c: int|
                    0 <= c < s.0@.len() && (#[trigger] s.0@[c]).0@ == name@ && forall|j: int|
                        0 <= j < c ==> (#[trigger] s.0@[j]).0@ != name@;
                if c < k {
                } else if c > k {
                    assert(s.0@[k as int].0@ == name@);
                }
                assert(c == k);
            }
            return Some(k);
        }
        k = k + 1;
    }
    None
}

/// A copy of an output.
fn clone_out(out: &Out) -> (r: Out)
    ensures
        r@ == out@,
{
    Out { id: out.id, name: out.name.clone() }
}

impl TensorGraph {
    /// The output shapes of the last node that has some.
    pub fn last_output_shapes(&self) -> (r: Option<&Shapes>)
        requires
            last_out(self.0@, self.0@.len() as int) is Some,
        ensures
            deref_opt(r) == last_out(self.0@, self.0@.len() as int)->0,
    {
        let n = self.0.len();
        let mut i: usize = n;
        while i > 0
            invariant
                n == self.0@.len(),
                i <= n,
                last_out(self.0@, n as int) == last_out(self.0@, i as int),
                last_out(self.0@, i as int) is Some,
            decreases i,
        {
            let node = &self.0[i - 1];
            if let Some(shapes) = node.get_output_shapes() {
                return Some(shapes);
            }
            i = i - 1;
        }
        None
    }

    /// Where the output `out` is found among the first `i` nodes (see
    /// [`fetch_scan`]): the id of the node that has it, and its shape.
    fn fetch_from(&self, i: usize, out: &Out) -> (r: Option<(u64, Option<Shape>)>)
        requires
            i <= self.0@.len(),
            fetch_scan(self.0@, i as int, out@) is Some,
        ensures
            match fetch_scan(self.0@, i as int, out@)->0 {
                Some(k) => {
                    let s = node_out(self.0@[k])->0->0;
                    &&& 0 <= k < self.0@.len()
                    &&& node_out(self.0@[k]) matches Some(Some(_))
                    &&& shape_index(s, out@.name) is Some
                    &&& r matches Some((id, shape)) && id == node_data(self.0@[k]).id
                        && opt_shape_model(shape) == opt_shape_model(
                        s.0@[shape_index(s, out@.name)->0].1,
                    )
                },
                None => r is None,
            },
        decreases i,
    {
        if i == 0 {
            return None;
        }
        let node = &self.0[i - 1];
        let node_id = node.get_id();
        if let Some(id) = out.id {
            if node_id > id {
                return self.fetch_from(i - 1, out);
            } else if node_id < id {
                return None;
            }
        }
        match node.get_output_shapes() {
            Some(shapes) => match find_shape(shapes, out.name.as_str()) {
                Some(k) => {
                    let shape = match &shapes.0[k].1 {
                        Some(x) => Some(clone_shape(x)),
                        None => None,
                    };
                    proof {
                        let ghost nodes = self.0@;
                        assert(node_out(nodes[i - 1]) == Some(Some(*shapes)));
                        assert(shape_index(*shapes, out@.name) == Some(k as int));
                        assert(fetch_scan(nodes, i as int, out@) == Some(Some(i - 1)));
                    }
                    Some((node_id, shape))
                },
                None => self.fetch_from(i - 1, out),
            },
            None => self.fetch_from(i - 1, out),
        }
    }

    /// The shape of the output `out`, found from the last node on: the
    /// output takes the id of the node that has it.
    pub fn fetch_shape(&self, out: &mut Out) -> (r: Result<Option<Shape>>)
        requires
            fetch_scan(self.0@, self.0@.len() as int, old(out)@) is Some,
        ensures
            match fetch_scan(self.0@, self.0@.len() as int, old(out)@)->0 {
                Some(k) => {
                    let s = node_out(self.0@[k])->0->0;
                    &&& r matches Ok(shape) && opt_shape_model(shape) == opt_shape_model(
                        s.0@[shape_index(s, old(out)@.name)->0].1,
                    )
                    &&& final(out)@ == (OutModel { id: Some(node_data(self.0@[k]).id), name: old(out)@.name })
                },
                None => {
                    &&& r matches Err(Error::GraphNodeError(GraphNodeError::NoSuchInput { out: o }))
                        && o@ == old(out)@
                    &&& final(out)@ == old(out)@
                },
            },
    {
        match self.fetch_from(self.0.len(), out) {
            Some((id, shape)) => {
                out.id = Some(id);
                Ok(shape)
            },
            None => Err(Error::GraphNodeError(GraphNodeError::NoSuchInput { out: clone_out(out) })),
        }
    }
}

} // verus!
