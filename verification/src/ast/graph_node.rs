use vstd::prelude::*;

use super::types::LetType;
use super::value::Value;
use crate::builder::strmap::sorted_keys;

verus! {

/// An output of a graph node, named and optionally tied to the node's id.
#[derive(Debug)]
pub struct Out {
    pub id: Option<u64>,
    pub name: String,
}

/// The model of an [`Out`].
pub struct OutModel {
    pub id: Option<u64>,
    pub name: Seq<char>,
}

impl View for Out {
    type V = OutModel;

    open spec fn view(&self) -> OutModel {
        OutModel { id: self.id, name: self.name@ }
    }
}

/// Named outputs, in ascending name order, each name once.
pub type Outs = Vec<(String, Out)>;

/// The model of named outputs.
pub open spec fn outs_view(o: Seq<(String, Out)>) -> Seq<(Seq<char>, OutModel)> {
    o.map_values(|e: (String, Out)| (e.0@, e.1@))
}

/// The outputs of the node `id` named by `keys`, in order.
pub open spec fn outs_of(id: u64, keys: Seq<Seq<char>>) -> Seq<(Seq<char>, OutModel)> {
    keys.map_values(|k: Seq<char>| (k, OutModel { id: Some(id), name: k }))
}

/// The names of the outputs.
pub open spec fn out_keys(o: Seq<(String, Out)>) -> Seq<Seq<char>> {
    o.map_values(|e: (String, Out)| e.0@)
}

impl Out {
    /// The output `name` of the node `id`.
    pub fn new(id: u64, name: String) -> (r: Self)
        ensures
            r.id == Some(id),
            r.name@ == name@,
    {
        Self { id: Some(id), name }
    }

    /// The output `name` of a node still to be found.
    pub fn with_name(name: String) -> (r: Self)
        ensures
            r.id is None,
            r.name@ == name@,
    {
        Self { id: None, name }
    }
}

/// How the inputs of a call are given.
#[derive(Copy, Clone, Debug, PartialEq, Eq, Structural)]
pub enum GraphInputsType {
    UseLast,
    Dict,
    List,
}

/// The inputs of a call: named, or a list.
#[derive(Debug)]
pub enum GraphInputs {
    // entries in ascending key order, each key once
    Dict(Vec<(String, Out)>),
    List(Vec<Out>),
}

impl GraphInputs {
    /// The way these inputs are given.
    pub fn ty(&self) -> (r: GraphInputsType)
        ensures
            r == inputs_type(Some(*self)),
    {
        match self {
            Self::Dict(_) => GraphInputsType::Dict,
            Self::List(_) => GraphInputsType::List,
        }
    }
}

/// The way optional inputs are given: missing inputs use the last outputs.
pub open spec fn inputs_type(inputs: Option<GraphInputs>) -> GraphInputsType {
    match inputs {
        None => GraphInputsType::UseLast,
        Some(GraphInputs::Dict(_)) => GraphInputsType::Dict,
        Some(GraphInputs::List(_)) => GraphInputsType::List,
    }
}

/// One call of a graph node: the callee's name, its inputs, its keyword
/// arguments and how often it repeats.
#[derive(Debug)]
pub struct GraphCall {
    pub name: String,
    pub inputs: Option<GraphInputs>,
    // keyword arguments in ascending key order, each key once
    pub args: Option<Vec<(String, Value)>>,
    pub repeat: Option<Value>,
}

impl GraphCall {
    /// The keyword arguments, and the inputs given by name, are in ascending
    /// name order, each name once.
    pub open spec fn wf(&self) -> bool {
        &&& match self.args {
            Some(a) => sorted_keys(a@.map_values(|e: (String, Value)| e.0@)),
            None => true,
        }
        &&& match self.inputs {
            Some(GraphInputs::Dict(v)) => sorted_keys(out_keys(v@)),
            _ => true,
        }
    }

    /// The way the inputs of this call are given.
    pub fn get_inputs_ty(&self) -> (r: GraphInputsType)
        ensures
            r == inputs_type(self.inputs),
    {
        match &self.inputs {
            Some(inputs) => inputs.ty(),
            None => GraphInputsType::UseLast,
        }
    }
}

/// The shape of a tensor, one value per dimension.
#[derive(Debug)]
pub struct Shape(pub Vec<Value>);

/// The shapes of named tensors; a missing shape is generic.
#[derive(Debug)]
pub struct Shapes(pub Vec<(String, Option<Shape>)>);

/// The names of the tensors that shapes describe, in order.
pub open spec fn shape_keys(s: Shapes) -> Seq<Seq<char>> {
    s.0@.map_values(|e: (String, Option<Shape>)| e.0@)
}

impl Shapes {
    /// The outputs of the node `id` that these shapes name.
    pub fn to_outs(&self, id: u64) -> (r: Outs)
        ensures
            outs_view(r@) == outs_of(id, shape_keys(*self)),
    {
        let mut r: Outs = Vec::new();
        for i in 0..self.0.len()
            invariant
                r@.len() == i,
                i <= self.0@.len(),
                forall|k: int|
                    0 <= k < i ==> (#[trigger] r@[k]).0@ == self.0@[k].0@ && r@[k].1@ == (OutModel {
                        id: Some(id),
                        name: self.0@[k].0@,
                    }),
        {
            let name = self.0[i].0.clone();
            r.push((name.clone(), Out::new(id, name)));
        }
        proof {
            assert(outs_view(r@) =~= outs_of(id, shape_keys(*self)));
        }
        r
    }
}

/// A numbered node of a tensor graph, with its calls and optional shapes.
#[derive(Debug)]
pub struct GraphNode {
    pub id: u64,
    pub calls: Vec<GraphCall>,
    pub shapes: Option<Shapes>,
}

impl GraphNode {
    /// Each call of the node is well formed.
    pub open spec fn wf(&self) -> bool {
        forall|i: int| 0 <= i < self.calls@.len() ==> (#[trigger] self.calls@[i]).wf()
    }
}

/// A variable declared by a node.
#[derive(Debug)]
pub struct NodeLet {
    pub name: String,
    pub shortcut: Option<String>,
    pub ty: LetType,
    pub value: Option<Value>,
}

} // verus!
