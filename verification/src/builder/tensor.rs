use vstd::prelude::*;

use super::error::Result;
use super::graph::{graphs_equal, var_models, Graph, Table};
use crate::ast::graph_node::{
    out_keys, outs_of, outs_view, shape_keys, Out, OutModel, Outs, Shape, Shapes,
};
use crate::ast::types::ExternNodeType;

verus! {

broadcast use vstd::std_specs::vec::group_vec_axioms;

/// What every node of a tensor graph holds: its id, its name, its
/// variables and its named inputs and outputs.
#[derive(Debug)]
pub struct IRData {
    pub id: u64,
    pub name: String,
    pub graph: Graph,
    pub input: Outs,
    pub output: Outs,
}

/// The outputs that optional shapes give the node `id`: one per shape, or a
/// single output `x` where there are no shapes.
pub open spec fn shapes_outs(id: u64, shapes: Option<Shapes>) -> Seq<(Seq<char>, OutModel)> {
    match shapes {
        Some(s) => outs_of(id, shape_keys(s)),
        None => outs_of(id, seq![seq!['x']]),
    }
}

/// The outputs that optional shapes give the node `id`.
pub fn shapes_to_outs(id: u64, shapes: Option<&Shapes>) -> (r: Outs)
    ensures
        outs_view(r@) == shapes_outs(
            id,
            match shapes {
                Some(s) => Some(*s),
                None => None,
            },
        ),
{
    match shapes {
        Some(shapes) => shapes.to_outs(id),
        None => {
            let mut r: Outs = Vec::new();
            let name = String::from_str("x");
            proof {
                reveal_strlit("x");
                assert(name@ =~= seq!['x']);
            }
            r.push((name.clone(), Out::new(id, name)));
            proof {
                assert(outs_view(r@) =~= outs_of(id, seq![seq!['x']]));
            }
            r
        },
    }
}

impl IRData {
    /// A node named `name` with the variables `graph`, whose inputs and
    /// outputs are those that the shapes name.
    pub fn with_shapes(name: String, graph: Graph, input: Option<&Shapes>, output: Option<&Shapes>) -> (r:
        Self)
        ensures
            r.id == 0,
            r.name@ == name@,
            r.graph == graph,
            outs_view(r.input@) == shapes_outs(
                1,
                match input {
                    Some(s) => Some(*s),
                    None => None,
                },
            ),
            outs_view(r.output@) == shapes_outs(
                1,
                match output {
                    Some(s) => Some(*s),
                    None => None,
                },
            ),
    {
        Self {
            id: 0,
            name,
            graph,
            input: shapes_to_outs(1, input),
            output: shapes_to_outs(1, output),
        }
    }

    /// A node named `name` with the variables `graph` and no inputs or
    /// outputs.
    pub fn with_no_shapes(name: String, graph: Graph) -> (r: Self)
        ensures
            r.id == 0,
            r.name@ == name@,
            r.graph == graph,
            r.input@.len() == 0,
            r.output@.len() == 0,
    {
        Self { id: 0, name, graph, input: Vec::new(), output: Vec::new() }
    }
}

/// The declared shapes of the inputs and outputs of an external node.
#[derive(Debug)]
pub struct ExternIRShapes {
    pub input: Option<Shapes>,
    pub output: Option<Shapes>,
}

/// Generic shapes for the given names.
fn generic_shapes(outs: &Outs) -> (r: Shapes)
    ensures
        shape_keys(r) == out_keys(outs@),
        forall|i: int| 0 <= i < r.0@.len() ==> (#[trigger] r.0@[i]).1 is None,
{
    let mut v: Vec<(String, Option<Shape>)> = Vec::new();
    for i in 0..outs.len()
        invariant
            v@.len() == i,
            i <= outs@.len(),
            forall|k: int| 0 <= k < i ==> (#[trigger] v@[k]).0@ == outs@[k].0@ && v@[k].1 is None,
    {
        v.push((outs[i].0.clone(), None));
    }
    let r = Shapes(v);
    proof {
        assert(shape_keys(r) =~= out_keys(outs@));
    }
    r
}

impl ExternIRShapes {
    /// Generic shapes for the inputs and outputs of a node.
    pub fn from_data(data: &IRData) -> (r: Self)
        ensures
            r.input matches Some(s) && shape_keys(s) == out_keys(data.input@) && forall|i: int|
                0 <= i < s.0@.len() ==> (#[trigger] s.0@[i]).1 is None,
            r.output matches Some(s) && shape_keys(s) == out_keys(data.output@) && forall|i: int|
                0 <= i < s.0@.len() ==> (#[trigger] s.0@[i]).1 is None,
    {
        Self { input: Some(generic_shapes(&data.input)), output: Some(generic_shapes(&data.output)) }
    }
}

/// A node of a tensor graph that an external script implements.
#[derive(Debug)]
pub struct ExternIR {
    pub ty: ExternNodeType,
    pub data: IRData,
    pub shapes: ExternIRShapes,
}

impl ExternIR {
    /// A new external node named `name` with the given shapes.
    pub fn new_first(
        ty: ExternNodeType,
        name: String,
        graph: Graph,
        input: Option<Shapes>,
        output: Option<Shapes>,
    ) -> (r: Self)
        ensures
            r.ty == ty,
            r.data.id == 0,
            r.data.name@ == name@,
            r.data.graph == graph,
            outs_view(r.data.input@) == shapes_outs(1, input),
            outs_view(r.data.output@) == shapes_outs(1, output),
            r.shapes.input == input,
            r.shapes.output == output,
    {
        let data = IRData::with_shapes(name, graph, input.as_ref(), output.as_ref());
        Self { ty, data, shapes: ExternIRShapes { input, output } }
    }

    /// The declared input shapes.
    pub fn get_input_shapes(&self) -> (r: Option<&Shapes>)
        ensures
            match self.shapes.input {
                Some(s) => r == Some(&s),
                None => r is None,
            },
    {
        self.shapes.input.as_ref()
    }

    /// The declared output shapes.
    pub fn get_output_shapes(&self) -> (r: Option<&Shapes>)
        ensures
            match self.shapes.output {
                Some(s) => r == Some(&s),
                None => r is None,
            },
    {
        self.shapes.output.as_ref()
    }

    /// The code of this node.
    pub fn build(self) -> (r: Result<ExternCode>)
        ensures
            r matches Ok(c) && c.ty == self.ty && c.data.name@ == self.data.name@
                && c.data.graph.id == self.data.graph.gid() && var_models(c.data.graph.variables)
                == self.data.graph.vars() && c.data.input == self.data.input && c.data.output
                == self.data.output,
    {
        Ok(ExternCode { ty: self.ty, data: CodeData::from_ir(self.data) })
    }
}

/// What the code of every node holds: its name, its variables and its
/// named inputs and outputs.
#[derive(Debug)]
pub struct CodeData {
    pub name: String,
    pub graph: Table,
    pub input: Outs,
    pub output: Outs,
}

impl CodeData {
    /// The code data of a node.
    pub fn from_ir(data: IRData) -> (r: Self)
        ensures
            r.name@ == data.name@,
            r.graph.id == data.graph.gid(),
            var_models(r.graph.variables) == data.graph.vars(),
            r.graph.variables.key_seq() == data.graph.var_keys(),
            r.input == data.input,
            r.output == data.output,
    {
        Self { name: data.name, graph: data.graph.into_table(), input: data.input, output: data.output }
    }
}

/// The code of an external node.
#[derive(Debug)]
pub struct ExternCode {
    pub ty: ExternNodeType,
    pub data: CodeData,
}

/// The code of a node made of other nodes.
#[derive(Debug)]
pub struct NodeCode {
    pub data: CodeData,
    pub tensor_graph: Vec<Code>,
}

/// The code of a node.
#[derive(Debug)]
pub enum Code {
    Node(NodeCode),
    Extern(ExternCode),
}

/// Whether two sets of named outputs are equal.
pub fn outs_eq(a: &Outs, b: &Outs) -> (r: bool)
    ensures
        r == (outs_view(a@) == outs_view(b@)),
{
    if a.len() != b.len() {
        proof {
            assert(outs_view(a@).len() != outs_view(b@).len());
        }
        return false;
    }
    let mut i: usize = 0;
    while i < a.len()
        invariant
            a@.len() == b@.len(),
            i <= a@.len(),
            forall|k: int| 0 <= k < i ==> outs_view(a@)[k] == outs_view(b@)[k],
        decreases a@.len() - i,
    {
        if !a[i].0.eq(&b[i].0) || a[i].1.id != b[i].1.id || !a[i].1.name.eq(&b[i].1.name) {
            proof {
                assert(outs_view(a@)[i as int] != outs_view(b@)[i as int]);
            }
            return false;
        }
        i = i + 1;
    }
    proof {
        assert(outs_view(a@) =~= outs_view(b@));
    }
    true
}

impl IRData {
    /// Nodes are equal when their names, variables, inputs and outputs are;
    /// their ids are not compared.
    pub fn eq_data(&self, other: &Self) -> (r: bool)
        requires
            self.graph.wf(),
            other.graph.wf(),
        ensures
            r == (self.name@ == other.name@ && graphs_equal(self.graph, other.graph) && outs_view(
                self.input@,
            ) == outs_view(other.input@) && outs_view(self.output@) == outs_view(other.output@)),
    {
        self.name.eq(&other.name) && self.graph.eq_graph(&other.graph) && outs_eq(
            &self.input,
            &other.input,
        ) && outs_eq(&self.output, &other.output)
    }
}

} // verus!
