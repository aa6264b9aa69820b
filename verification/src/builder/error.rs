use vstd::prelude::*;

use crate::ast::graph_node::{GraphInputsType, Out};
use crate::ast::types::{FinalNodeType, LetType};

verus! {

/// Errors about the variables of a graph.
#[derive(Debug)]
pub enum GraphError {
    UnexpectedNodeVariable { name: String },
    DuplicatedVariable { name: String },
    NoSuchVariable { name: String, candidates: Vec<String> },
    MismatchedType { name: String, expected: LetType, given: Option<LetType> },
    EmptyValue { name: String, expected: LetType },
    UnparsableString { name: String, value: String, ty: Option<LetType> },
}

/// Errors about the nodes of a tensor graph.
#[derive(Debug)]
pub enum GraphNodeError {
    MismatchedId { expected: u64, given: u64 },
    MismatchedSize { expected: Vec<String>, given: usize },
    MismatchedShapesExistence { expected: bool, given: bool },
    UnexpectedShapes,
    EmptyCalls,
    NoSuchInput { out: Out },
}

/// Errors about the calls of a tensor graph node.
#[derive(Debug)]
pub enum GraphCallError {
    MismatchedSize { expected: Vec<String>, given: usize },
    MismatchedName { expected: Vec<String>, given: String },
    MismatchedInputsType { expected: GraphInputsType, given: GraphInputsType },
    MismatchedRepeat { expected: bool, given: bool },
    MismatchedArgs { expected: Vec<String>, given: Vec<String> },
    MismatchedArgType { expected: LetType, given: Option<LetType> },
    UnexpectedInputs,
    UnexpectedArgs,
    UnexpectedRepeat,
    GenericShape { name: String },
    GenericShapes,
    GenericListInputShape { index: usize },
    MismatchedShapeKeys { expected: Vec<String>, given: Vec<String> },
    MismatchedShapes { expected: usize, given: usize },
    MismatchedAxis { val_min: i64, val_max: i64, given: i64 },
    EmptyInputs,
}

/// Errors about the nodes of a tensor graph once built.
#[derive(Debug)]
pub enum TensorNodeError {
    MismatchedType { expected: FinalNodeType, given: FinalNodeType },
    MismatchedName { expected: String, given: String },
    NoSuchNode { name: String },
}

/// The errors of the node builder.
#[derive(Debug)]
pub enum Error {
    GraphError(GraphError),
    GraphNodeError(GraphNodeError),
    GraphCallError(GraphCallError),
    TensorNodeError(TensorNodeError),
}

pub type Result<T> = std::result::Result<T, Error>;

/// The views of a vector of strings.
pub open spec fn strs(v: Seq<String>) -> Seq<Seq<char>> {
    v.map_values(|s: String| s@)
}

/// A copy of a vector of strings.
pub fn clone_strings(v: &Vec<String>) -> (r: Vec<String>)
    ensures
        strs(r@) == strs(v@),
{
    let mut r: Vec<String> = Vec::new();
    for i in 0..v.len()
        invariant
            r@.len() == i,
            i <= v@.len(),
            forall|k: int| 0 <= k < i ==> (#[trigger] r@[k])@ == v@[k]@,
    {
        r.push(v[i].clone());
    }
    assert(strs(r@) =~= strs(v@));
    r
}

} // verus!
