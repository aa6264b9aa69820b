use vstd::prelude::*;

verus! {

/// The kinds of external nodes: plain models, data loaders and optimizers.
#[derive(Copy, Clone, Debug, PartialEq, Eq, Structural)]
pub enum ExternNodeType {
    Default,
    Data,
    Optim,
}

/// The type of a node-valued variable.
#[derive(Copy, Clone, Debug, PartialEq, Eq, Structural)]
pub enum LetNodeType {
    Default,
    Extern(ExternNodeType),
}

/// The kinds of nodes once built: nodes that compute tensors, and nodes
/// that run programs.
#[derive(Copy, Clone, Debug, PartialEq, Eq, Structural)]
pub enum FinalNodeType {
    Default,
    Exec,
}

/// The declared type of a variable.
#[derive(Debug)]
pub enum LetType {
    Bool,
    UInt,
    Int,
    Real,
    String,
    Node(Option<LetNodeType>),
    Dim,
    List(Box<LetType>),
    // the keys of a map are strings
    Dict(Box<LetType>),
}

impl LetType {
    /// Whether this is a node type.
    pub fn is_node(&self) -> (r: bool)
        ensures
            r == (self is Node),
    {
        matches!(self, Self::Node(_))
    }

    /// A copy of this type.
    pub fn deep_clone(&self) -> (r: Self)
        ensures
            r == *self,
        decreases self,
    {
        match self {
            Self::Bool => Self::Bool,
            Self::UInt => Self::UInt,
            Self::Int => Self::Int,
            Self::Real => Self::Real,
            Self::String => Self::String,
            Self::Node(t) => Self::Node(*t),
            Self::Dim => Self::Dim,
            Self::List(t) => Self::List(Box::new((**t).deep_clone())),
            Self::Dict(t) => Self::Dict(Box::new((**t).deep_clone())),
        }
    }

    /// Whether two types are the same.
    pub fn same_as(&self, other: &Self) -> (r: bool)
        ensures
            r == (*self == *other),
        decreases self,
    {
        match (self, other) {
            (Self::Bool, Self::Bool) => true,
            (Self::UInt, Self::UInt) => true,
            (Self::Int, Self::Int) => true,
            (Self::Real, Self::Real) => true,
            (Self::String, Self::String) => true,
            (Self::Node(a), Self::Node(b)) => *a == *b,
            (Self::Dim, Self::Dim) => true,
            (Self::List(a), Self::List(b)) => (**a).same_as(&**b),
            (Self::Dict(a), Self::Dict(b)) => (**a).same_as(&**b),
            _ => false,
        }
    }
}

impl Clone for LetType {
    fn clone(&self) -> (r: Self)
        ensures
            r == *self,
    {
        self.deep_clone()
    }
}

/// Whether two optional types are the same.
pub fn same_opt_type(a: &Option<LetType>, b: &Option<LetType>) -> (r: bool)
    ensures
        r == (*a == *b),
{
    match (a, b) {
        (Some(x), Some(y)) => x.same_as(y),
        (None, None) => true,
        _ => false,
    }
}

/// A copy of an optional type.
pub fn clone_opt_type(a: &Option<LetType>) -> (r: Option<LetType>)
    ensures
        r == *a,
{
    match a {
        Some(x) => Some(x.deep_clone()),
        None => None,
    }
}

/// The operators of expressions.
#[derive(Copy, Clone, Debug, PartialEq, Eq, Structural)]
pub enum Operator {
    // unary
    Pos,
    Neg,
    // binary
    Add,
    Sub,
    Mul,
    MulInt,
    Div,
    Mod,
    Pow,
    // logical
    And,
    Or,
    Xor,
}

pub open spec fn operator_symbol(op: Operator) -> Seq<char> {
    match op {
        Operator::Pos | Operator::Add => seq!['+'],
        Operator::Neg | Operator::Sub => seq!['-'],
        Operator::Mul | Operator::MulInt => seq!['*'],
        Operator::Div => seq!['/'],
        Operator::Mod => seq!['%'],
        Operator::Pow => seq!['*', '*'],
        Operator::And => seq!['&'],
        Operator::Or => seq!['|'],
        Operator::Xor => seq!['^'],
    }
}

impl Operator {
    /// The symbol with which the operator is written.
    pub fn symbol(&self) -> (r: &'static str)
        ensures
            r@ == operator_symbol(*self),
    {
        match self {
            Self::Pos | Self::Add => {
                proof {
                    reveal_strlit("+");
                }
                "+"
            },
            Self::Neg | Self::Sub => {
                proof {
                    reveal_strlit("-");
                }
                "-"
            },
            Self::Mul | Self::MulInt => {
                proof {
                    reveal_strlit("*");
                }
                "*"
            },
            Self::Div => {
                proof {
                    reveal_strlit("/");
                }
                "/"
            },
            Self::Mod => {
                proof {
                    reveal_strlit("%");
                }
                "%"
            },
            Self::Pow => {
                proof {
                    reveal_strlit("**");
                }
                "**"
            },
            Self::And => {
                proof {
                    reveal_strlit("&");
                }
                "&"
            },
            Self::Or => {
                proof {
                    reveal_strlit("|");
                }
                "|"
            },
            Self::Xor => {
                proof {
                    reveal_strlit("^");
                }
                "^"
            },
        }
    }
}

} // verus!
