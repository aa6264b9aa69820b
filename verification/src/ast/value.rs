use vstd::prelude::*;

use super::types::{clone_opt_type, LetType, Operator};

verus! {

broadcast use {vstd::std_specs::vec::group_vec_axioms, vstd::seq::group_seq_axioms};

/// A variable of a node: its owner graph, its name, an optional shortcut, an
/// optional declared type and an optional value.
#[derive(Debug)]
pub struct Variable {
    pub id: Option<u64>,
    pub id_old: Option<u64>,
    pub name: String,
    pub shortcut: Option<String>,
    pub ty: Option<LetType>,
    pub value: Option<Value>,
}

/// A variable that a value refers to. It is held by value: the value sees
/// the variable as it was when the reference was taken.
#[derive(Debug)]
pub struct RefVariable(pub Box<Variable>);

/// The value of a variable or of a node argument.
#[derive(Debug)]
pub enum Value {
    Bool(bool),
    UInt(u64),
    Int(i64),
    String(String),
    Node(String),
    Variable(RefVariable),
    Expr(Box<Expr>),
    List(Vec<Value>),
    // entries in ascending key order, each key once
    Dict(Vec<(String, Option<Value>)>),
}

/// An expression that could not be evaluated yet.
#[derive(Debug)]
pub struct Expr {
    pub op: Operator,
    pub lhs: Value,
    pub rhs: Option<Value>,
}

/// The mathematical model of a [`Value`].
#[verifier::ext_equal]
pub enum ValueModel {
    Bool(bool),
    UInt(u64),
    Int(i64),
    String(Seq<char>),
    Node(Seq<char>),
    Variable(Box<VariableModel>),
    Expr(Box<ExprModel>),
    List(Seq<ValueModel>),
    Dict(Seq<(Seq<char>, Option<ValueModel>)>),
}

/// The mathematical model of a [`Variable`].
#[verifier::ext_equal]
pub struct VariableModel {
    pub id: Option<u64>,
    pub id_old: Option<u64>,
    pub name: Seq<char>,
    pub shortcut: Option<Seq<char>>,
    pub ty: Option<LetType>,
    pub value: Option<ValueModel>,
}

/// The mathematical model of an [`Expr`].
#[verifier::ext_equal]
pub struct ExprModel {
    pub op: Operator,
    pub lhs: ValueModel,
    pub rhs: Option<ValueModel>,
}

pub open spec fn str_opt(o: Option<String>) -> Option<Seq<char>> {
    match o {
        Some(s) => Some(s@),
        None => None,
    }
}

pub open spec fn value_model(v: Value) -> ValueModel
    decreases v,
{
    match v {
        Value::Bool(b) => ValueModel::Bool(b),
        Value::UInt(x) => ValueModel::UInt(x),
        Value::Int(x) => ValueModel::Int(x),
        Value::String(s) => ValueModel::String(s@),
        Value::Node(s) => ValueModel::Node(s@),
        Value::Variable(r) => ValueModel::Variable(Box::new(variable_model(*r.0))),
        Value::Expr(e) => ValueModel::Expr(Box::new(expr_model(*e))),
        Value::List(xs) => ValueModel::List(values_model(xs)),
        Value::Dict(xs) => ValueModel::Dict(entries_model(xs)),
    }
}

pub open spec fn opt_value_model(o: Option<Value>) -> Option<ValueModel>
    decreases o,
{
    match o {
        Some(v) => Some(value_model(v)),
        None => None,
    }
}

pub open spec fn variable_model(v: Variable) -> VariableModel
    decreases v,
{
    VariableModel {
        id: v.id,
        id_old: v.id_old,
        name: v.name@,
        shortcut: str_opt(v.shortcut),
        ty: v.ty,
        value: opt_value_model(v.value),
    }
}

pub open spec fn expr_model(e: Expr) -> ExprModel
    decreases e,
{
    ExprModel { op: e.op, lhs: value_model(e.lhs), rhs: opt_value_model(e.rhs) }
}

pub open spec fn values_model(xs: Vec<Value>) -> Seq<ValueModel>
    decreases xs,
{
    Seq::new(
        xs@.len(),
        |i: int|
            if 0 <= i < xs.len() {
                value_model(xs[i])
            } else {
                ValueModel::Bool(false)
            },
    )
}

pub open spec fn entries_model(xs: Vec<(String, Option<Value>)>) -> Seq<
    (Seq<char>, Option<ValueModel>),
>
    decreases xs,
{
    Seq::new(
        xs@.len(),
        |i: int|
            if 0 <= i < xs.len() {
                (xs[i].0@, opt_value_model(xs[i].1))
            } else {
                (Seq::empty(), None)
            },
    )
}

impl View for Value {
    type V = ValueModel;

    open spec fn view(&self) -> ValueModel {
        value_model(*self)
    }
}

impl View for Variable {
    type V = VariableModel;

    open spec fn view(&self) -> VariableModel {
        variable_model(*self)
    }
}

impl View for RefVariable {
    type V = VariableModel;

    open spec fn view(&self) -> VariableModel {
        variable_model(*self.0)
    }
}

impl View for Expr {
    type V = ExprModel;

    open spec fn view(&self) -> ExprModel {
        expr_model(*self)
    }
}

// ------------------------------------------------------------------
//  Predicates on the model
// ------------------------------------------------------------------
/// Whether a value depends on a dimension that is only known later.
pub open spec fn value_is_hint(v: ValueModel) -> bool
    decreases v,
{
    match v {
        ValueModel::Variable(var) => var_is_hint(*var),
        ValueModel::Expr(e) => value_is_hint(e.lhs) || match e.rhs {
            Some(r) => value_is_hint(r),
            None => false,
        },
        _ => false,
    }
}

/// A variable is a hint when it is declared a dimension or its value is one.
pub open spec fn var_is_hint(v: VariableModel) -> bool
    decreases v,
{
    v.ty == Some(LetType::Dim) || match v.value {
        Some(x) => value_is_hint(x),
        None => false,
    }
}

/// The variable at the end of a chain of variables whose values are
/// variables.
pub open spec fn hint_target(v: VariableModel) -> VariableModel
    decreases v,
{
    match v.value {
        Some(ValueModel::Variable(w)) => hint_target(*w),
        _ => v,
    }
}

pub open spec fn value_is_numeric(v: ValueModel) -> bool {
    v is Bool || v is UInt || v is Int || v is Variable || v is Expr
}

pub open spec fn bool_num(b: bool) -> int {
    if b {
        1
    } else {
        0
    }
}

/// Equality of values: numbers of different kinds compare by value (an
/// unsigned number is read as a signed one of the same bits), variables by
/// name and value, lists and maps element by element; two other numeric
/// values (variables or expressions) are taken as equal.
pub open spec fn value_eq(a: ValueModel, b: ValueModel) -> bool
    decreases a,
{
    match (a, b) {
        (ValueModel::Bool(x), ValueModel::Bool(y)) => x == y,
        (ValueModel::Bool(x), ValueModel::UInt(y)) => bool_num(x) == y,
        (ValueModel::Bool(x), ValueModel::Int(y)) => bool_num(x) == y,
        (ValueModel::UInt(x), ValueModel::Bool(y)) => x == bool_num(y),
        (ValueModel::UInt(x), ValueModel::UInt(y)) => x == y,
        (ValueModel::UInt(x), ValueModel::Int(y)) => (x as i64) == y,
        (ValueModel::Int(x), ValueModel::Bool(y)) => x == bool_num(y),
        (ValueModel::Int(x), ValueModel::UInt(y)) => x == (y as i64),
        (ValueModel::Int(x), ValueModel::Int(y)) => x == y,
        (ValueModel::String(x), ValueModel::String(y)) => x == y,
        (ValueModel::Node(x), ValueModel::Node(y)) => x == y,
        (ValueModel::Variable(x), ValueModel::Variable(y)) => var_eq(*x, *y),
        (ValueModel::List(xs), ValueModel::List(ys)) => list_eq(xs, ys),
        (ValueModel::Dict(xs), ValueModel::Dict(ys)) => map_eq(xs, ys),
        _ => value_is_numeric(a) && value_is_numeric(b),
    }
}

/// Variables compare by name and value.
pub open spec fn var_eq(a: VariableModel, b: VariableModel) -> bool
    decreases a,
{
    a.name == b.name && opt_eq(a.value, b.value)
}

pub open spec fn opt_eq(a: Option<ValueModel>, b: Option<ValueModel>) -> bool
    decreases a,
{
    match (a, b) {
        (Some(x), Some(y)) => value_eq(x, y),
        (None, None) => true,
        _ => false,
    }
}

pub open spec fn list_eq(xs: Seq<ValueModel>, ys: Seq<ValueModel>) -> bool
    decreases xs,
{
    xs.len() == ys.len() && (xs.len() == 0 || (list_eq(xs.drop_last(), ys.drop_last())
        && value_eq(xs.last(), ys.last())))
}

pub open spec fn map_eq(
    xs: Seq<(Seq<char>, Option<ValueModel>)>,
    ys: Seq<(Seq<char>, Option<ValueModel>)>,
) -> bool
    decreases xs,
{
    xs.len() == ys.len() && (xs.len() == 0 || (map_eq(xs.drop_last(), ys.drop_last())
        && xs.last().0 == ys.last().0 && opt_eq(xs.last().1, ys.last().1)))
}

/// Equality of values is reflexive: every value equals itself.
pub proof fn lemma_value_eq_reflexive(a: ValueModel)
    ensures
        value_eq(a, a),
    decreases a,
{
    match a {
        ValueModel::Variable(x) => lemma_var_eq_reflexive(*x),
        ValueModel::List(xs) => lemma_list_eq_reflexive(xs),
        ValueModel::Dict(xs) => lemma_map_eq_reflexive(xs),
        _ => {},
    }
}

proof fn lemma_var_eq_reflexive(a: VariableModel)
    ensures
        var_eq(a, a),
    decreases a,
{
    match a.value {
        Some(v) => lemma_value_eq_reflexive(v),
        None => {},
    }
}

proof fn lemma_list_eq_reflexive(xs: Seq<ValueModel>)
    ensures
        list_eq(xs, xs),
    decreases xs,
{
    if xs.len() > 0 {
        lemma_list_eq_reflexive(xs.drop_last());
        lemma_value_eq_reflexive(xs.last());
    }
}

proof fn lemma_map_eq_reflexive(xs: Seq<(Seq<char>, Option<ValueModel>)>)
    ensures
        map_eq(xs, xs),
    decreases xs,
{
    if xs.len() > 0 {
        lemma_map_eq_reflexive(xs.drop_last());
        match xs.last().1 {
            Some(v) => lemma_value_eq_reflexive(v),
            None => {},
        }
        assert(opt_eq(xs.last().1, xs.last().1));
    }
}

/// Equality of values is symmetric.
pub proof fn lemma_value_eq_symmetric(a: ValueModel, b: ValueModel)
    ensures
        value_eq(a, b) == value_eq(b, a),
    decreases a,
{
    match (a, b) {
        (ValueModel::Variable(x), ValueModel::Variable(y)) => lemma_var_eq_symmetric(*x, *y),
        (ValueModel::List(xs), ValueModel::List(ys)) => lemma_list_eq_symmetric(xs, ys),
        (ValueModel::Dict(xs), ValueModel::Dict(ys)) => lemma_map_eq_symmetric(xs, ys),
        _ => {},
    }
}

proof fn lemma_var_eq_symmetric(a: VariableModel, b: VariableModel)
    ensures
        var_eq(a, b) == var_eq(b, a),
    decreases a,
{
    match (a.value, b.value) {
        (Some(x), Some(y)) => lemma_value_eq_symmetric(x, y),
        _ => {},
    }
}

proof fn lemma_list_eq_symmetric(xs: Seq<ValueModel>, ys: Seq<ValueModel>)
    ensures
        list_eq(xs, ys) == list_eq(ys, xs),
    decreases xs,
{
    if xs.len() > 0 && xs.len() == ys.len() {
        lemma_list_eq_symmetric(xs.drop_last(), ys.drop_last());
        lemma_value_eq_symmetric(xs.last(), ys.last());
    }
}

proof fn lemma_map_eq_symmetric(
    xs: Seq<(Seq<char>, Option<ValueModel>)>,
    ys: Seq<(Seq<char>, Option<ValueModel>)>,
)
    ensures
        map_eq(xs, ys) == map_eq(ys, xs),
    decreases xs,
{
    if xs.len() > 0 && xs.len() == ys.len() {
        lemma_map_eq_symmetric(xs.drop_last(), ys.drop_last());
        match (xs.last().1, ys.last().1) {
            (Some(x), Some(y)) => lemma_value_eq_symmetric(x, y),
            _ => {},
        }
        assert(opt_eq(xs.last().1, ys.last().1) == opt_eq(ys.last().1, xs.last().1));
    }
}

proof fn lemma_list_eq(xs: Seq<ValueModel>, ys: Seq<ValueModel>)
    ensures
        list_eq(xs, ys) <==> (xs.len() == ys.len() && forall|i: int|
            0 <= i < xs.len() ==> value_eq(#[trigger] xs[i], ys[i])),
    decreases xs.len(),
{
    if xs.len() > 0 && xs.len() == ys.len() {
        lemma_list_eq(xs.drop_last(), ys.drop_last());
        if list_eq(xs, ys) {
            assert forall|i: int| 0 <= i < xs.len() implies value_eq(#[trigger] xs[i], ys[i]) by {
                if i < xs.len() - 1 {
                    assert(xs.drop_last()[i] == xs[i]);
                    assert(ys.drop_last()[i] == ys[i]);
                }
            }
        }
        if forall|i: int| 0 <= i < xs.len() ==> value_eq(#[trigger] xs[i], ys[i]) {
            assert forall|i: int| 0 <= i < xs.drop_last().len() implies value_eq(
                #[trigger] xs.drop_last()[i],
                ys.drop_last()[i],
            ) by {
                assert(xs.drop_last()[i] == xs[i]);
                assert(ys.drop_last()[i] == ys[i]);
            }
            assert(value_eq(xs[xs.len() - 1], ys[ys.len() - 1]));
        }
    }
}

proof fn lemma_map_eq(
    xs: Seq<(Seq<char>, Option<ValueModel>)>,
    ys: Seq<(Seq<char>, Option<ValueModel>)>,
)
    ensures
        map_eq(xs, ys) <==> (xs.len() == ys.len() && forall|i: int|
            0 <= i < xs.len() ==> (#[trigger] xs[i]).0 == ys[i].0 && opt_eq(xs[i].1, ys[i].1)),
    decreases xs.len(),
{
    if xs.len() > 0 && xs.len() == ys.len() {
        lemma_map_eq(xs.drop_last(), ys.drop_last());
        if map_eq(xs, ys) {
            assert forall|i: int| 0 <= i < xs.len() implies (#[trigger] xs[i]).0 == ys[i].0
                && opt_eq(xs[i].1, ys[i].1) by {
                if i < xs.len() - 1 {
                    assert(xs.drop_last()[i] == xs[i]);
                    assert(ys.drop_last()[i] == ys[i]);
                }
            }
        }
        if forall|i: int|
            0 <= i < xs.len() ==> (#[trigger] xs[i]).0 == ys[i].0 && opt_eq(xs[i].1, ys[i].1) {
            assert forall|i: int| 0 <= i < xs.drop_last().len() implies (
            #[trigger] xs.drop_last()[i]).0 == ys.drop_last()[i].0 && opt_eq(
                xs.drop_last()[i].1,
                ys.drop_last()[i].1,
            ) by {
                assert(xs.drop_last()[i] == xs[i]);
                assert(ys.drop_last()[i] == ys[i]);
            }
            assert(xs[xs.len() - 1] == xs.last());
        }
    }
}

// ------------------------------------------------------------------
//  Variables
// ------------------------------------------------------------------
impl Default for Variable {
    fn default() -> (r: Self)
        ensures
            r.id is None,
            r.id_old is None,
            r.name@ == Seq::<char>::empty(),
            r.shortcut is None,
            r.ty is None,
            r.value is None,
    {
        Variable {
            id: None,
            id_old: None,
            name: String::new(),
            shortcut: None,
            ty: None,
            value: None,
        }
    }
}

/// A copy of an optional string.
pub fn clone_opt_str(o: &Option<String>) -> (r: Option<String>)
    ensures
        str_opt(r) == str_opt(*o),
{
    match o {
        Some(s) => Some(s.clone()),
        None => None,
    }
}

impl Variable {
    /// A variable with only a name.
    pub fn with_name(name: String) -> (r: Self)
        ensures
            r@ == (VariableModel {
                id: None,
                id_old: None,
                name: name@,
                shortcut: None,
                ty: None,
                value: None,
            }),
    {
        Self { id: None, id_old: None, name, shortcut: None, ty: None, value: None }
    }

    /// A variable with a name and an optional value.
    pub fn with_name_value(name: String, value: Option<Value>) -> (r: Self)
        ensures
            r.id is None,
            r.id_old is None,
            r.name@ == name@,
            r.shortcut is None,
            r.ty is None,
            r.value == value,
    {
        Self { id: None, id_old: None, name, shortcut: None, ty: None, value }
    }

    /// Whether the variable is declared a dimension or holds a value that
    /// depends on one.
    pub fn is_hint(&self) -> (r: bool)
        ensures
            r == var_is_hint(self@),
        decreases self,
    {
        let by_type = match &self.ty {
            Some(LetType::Dim) => true,
            _ => false,
        };
        by_type || opt_is_hint(&self.value)
    }

    /// Whether the variable is declared a node.
    pub fn is_node(&self) -> (r: bool)
        ensures
            r == match self.ty {
                Some(t) => t is Node,
                None => false,
            },
    {
        match &self.ty {
            Some(t) => t.is_node(),
            None => false,
        }
    }

    /// A copy of the variable.
    pub fn deep_clone(&self) -> (r: Self)
        ensures
            r@ == self@,
        decreases self,
    {
        Variable {
            id: self.id,
            id_old: self.id_old,
            name: self.name.clone(),
            shortcut: clone_opt_str(&self.shortcut),
            ty: clone_opt_type(&self.ty),
            value: clone_opt_value(&self.value),
        }
    }

    /// Variables are equal when their names and values are.
    pub fn eq_variable(&self, other: &Self) -> (r: bool)
        ensures
            r == var_eq(self@, other@),
        decreases self,
    {
        if self.name != other.name {
            return false;
        }
        match (&self.value, &other.value) {
            (Some(a), Some(b)) => a.eq_value(b),
            (None, None) => true,
            _ => false,
        }
    }
}

/// A copy of an optional value.
pub fn clone_opt_value(o: &Option<Value>) -> (r: Option<Value>)
    ensures
        opt_value_model(r) == opt_value_model(*o),
    decreases o,
{
    match o {
        Some(v) => Some(v.deep_clone()),
        None => None,
    }
}

/// Whether an optional value is present and a hint.
fn opt_is_hint(o: &Option<Value>) -> (r: bool)
    ensures
        r == match opt_value_model(*o) {
            Some(v) => value_is_hint(v),
            None => false,
        },
    decreases o,
{
    match o {
        Some(v) => v.is_hint(),
        None => false,
    }
}

impl RefVariable {
    /// The variable at the end of the chain of variables whose values are
    /// variables, starting here.
    pub fn get_hint(&self) -> (r: Option<Self>)
        ensures
            r matches Some(v) && v@ == hint_target(self@),
        decreases self,
    {
        let inner = match &self.0.value {
            Some(v) => v.get_hint(),
            None => None,
        };
        if let Some(value) = inner {
            Some(value)
        } else {
            Some(RefVariable(Box::new(self.0.deep_clone())))
        }
    }
}

impl Clone for Variable {
    fn clone(&self) -> (r: Self)
        ensures
            r@ == self@,
    {
        self.deep_clone()
    }
}

impl Clone for RefVariable {
    fn clone(&self) -> (r: Self)
        ensures
            r@ == self@,
    {
        RefVariable(Box::new(self.0.deep_clone()))
    }
}

impl Clone for Value {
    fn clone(&self) -> (r: Self)
        ensures
            r@ == self@,
    {
        self.deep_clone()
    }
}

// ------------------------------------------------------------------
//  Values
// ------------------------------------------------------------------
pub open spec fn has_type(v: ValueModel) -> bool {
    v is Bool || v is UInt || v is Int || v is String || v is Variable || v is Node
}

/// The type of a value: a variable's is its declared type.
pub open spec fn type_of(v: ValueModel) -> Option<LetType>
    recommends
        has_type(v),
{
    match v {
        ValueModel::Bool(_) => Some(LetType::Bool),
        ValueModel::UInt(_) => Some(LetType::UInt),
        ValueModel::Int(_) => Some(LetType::Int),
        ValueModel::String(_) => Some(LetType::String),
        ValueModel::Variable(var) => var.ty,
        ValueModel::Node(_) => Some(LetType::Node(None)),
        _ => None,
    }
}

/// A value read as an unsigned number, where it is one.
pub open spec fn as_uint(v: ValueModel) -> Option<u64> {
    match v {
        ValueModel::Bool(b) => Some(bool_num(b) as u64),
        ValueModel::UInt(x) => Some(x),
        ValueModel::Int(x) => if x >= 0 {
            Some(x as u64)
        } else {
            None
        },
        _ => None,
    }
}

/// A value read as a signed number, where it is one.
pub open spec fn as_int(v: ValueModel) -> Option<i64> {
    match v {
        ValueModel::Bool(b) => Some(bool_num(b) as i64),
        ValueModel::UInt(x) => if x <= i64::MAX {
            Some(x as i64)
        } else {
            None
        },
        ValueModel::Int(x) => Some(x),
        _ => None,
    }
}

impl Value {
    /// A copy of the value.
    pub fn deep_clone(&self) -> (r: Self)
        ensures
            r@ == self@,
        decreases self,
    {
        match self {
            Value::Bool(b) => Value::Bool(*b),
            Value::UInt(x) => Value::UInt(*x),
            Value::Int(x) => Value::Int(*x),
            Value::String(s) => Value::String(s.clone()),
            Value::Node(s) => Value::Node(s.clone()),
            Value::Variable(r) => Value::Variable(RefVariable(Box::new(r.0.deep_clone()))),
            Value::Expr(e) => {
                let lhs = e.lhs.deep_clone();
                let rhs = clone_opt_value(&e.rhs);
                let r = Expr { op: e.op, lhs, rhs };
                proof {
                    assert(expr_model(r) == expr_model(**e));
                }
                Value::Expr(Box::new(r))
            },
            Value::List(xs) => {
                let mut r: Vec<Value> = Vec::new();
                #[verifier::loop_isolation(false)]
                for i in 0..xs.len()
                    invariant
                        r@.len() == i,
                        i <= xs.len(),
                        forall|k: int| 0 <= k < i ==> value_model(#[trigger] r@[k]) == value_model(xs@[k]),
                {
                    r.push(xs[i].deep_clone());
                }
                assert(values_model(r) =~= values_model(*xs));
                Value::List(r)
            },
            Value::Dict(xs) => {
                let mut r: Vec<(String, Option<Value>)> = Vec::new();
                #[verifier::loop_isolation(false)]
                for i in 0..xs.len()
                    invariant
                        r@.len() == i,
                        i <= xs.len(),
                        forall|k: int|
                            0 <= k < i ==> (#[trigger] r@[k]).0@ == xs@[k].0@ && opt_value_model(
                                r@[k].1,
                            ) == opt_value_model(xs@[k].1),
                {
                    let v = match &xs[i].1 {
                        Some(v) => Some(v.deep_clone()),
                        None => None,
                    };
                    r.push((xs[i].0.clone(), v));
                }
                assert(entries_model(r) =~= entries_model(*xs));
                Value::Dict(r)
            },
        }
    }

    /// The type of the value.
    pub fn ty(&self) -> (r: Option<LetType>)
        requires
            has_type(self@),
        ensures
            r == type_of(self@),
    {
        match self {
            Self::Bool(_) => Some(LetType::Bool),
            Self::UInt(_) => Some(LetType::UInt),
            Self::Int(_) => Some(LetType::Int),
            Self::String(_) => Some(LetType::String),
            Self::Variable(var) => clone_opt_type(&var.0.ty),
            Self::Node(_) => Some(LetType::Node(None)),
            _ => None,
        }
    }

    /// Whether the value is a plain number or boolean.
    pub fn is_atomic(&self) -> (r: bool)
        ensures
            r == (self is Bool || self is UInt || self is Int),
    {
        matches!(self, Self::Bool(_) | Self::UInt(_) | Self::Int(_))
    }

    /// Whether the value is a number, a boolean, a variable or an expression.
    pub fn is_numeric(&self) -> (r: bool)
        ensures
            r == value_is_numeric(self@),
    {
        matches!(self, Self::Bool(_) | Self::UInt(_) | Self::Int(_) | Self::Variable(_) | Self::Expr(_))
    }

    /// Whether the value depends on a dimension that is only known later.
    pub fn is_hint(&self) -> (r: bool)
        ensures
            r == value_is_hint(self@),
        decreases self,
    {
        match self {
            Self::Variable(var) => var.0.is_hint(),
            Self::Expr(expr) => {
                proof {
                    assert(expr_model(**expr).rhs == opt_value_model(expr.rhs));
                }
                expr.lhs.is_hint() || opt_is_hint(&expr.rhs)
            },
            _ => false,
        }
    }

    /// The variable that a variable value finally refers to.
    pub fn get_hint(&self) -> (r: Option<RefVariable>)
        ensures
            match self@ {
                ValueModel::Variable(var) => r matches Some(v) && v@ == hint_target(*var),
                _ => r is None,
            },
        decreases self,
    {
        match self {
            Self::Variable(var) => var.get_hint(),
            _ => None,
        }
    }

    /// The value read as an unsigned number.
    pub fn unwrap_uint(&self) -> (r: Option<u64>)
        ensures
            r == as_uint(self@),
    {
        match self {
            Self::Bool(value) => Some(if *value { 1 } else { 0 }),
            Self::UInt(value) => Some(*value),
            Self::Int(value) => if *value >= 0 {
                Some(*value as u64)
            } else {
                None
            },
            _ => None,
        }
    }

    /// The value read as a signed number.
    pub fn unwrap_int(&self) -> (r: Option<i64>)
        ensures
            r == as_int(self@),
    {
        match self {
            Self::Bool(value) => Some(if *value { 1 } else { 0 }),
            Self::UInt(value) => if *value <= i64::MAX as u64 {
                Some(*value as i64)
            } else {
                None
            },
            Self::Int(value) => Some(*value),
            _ => None,
        }
    }

    /// The name of a node value.
    pub fn unwrap_node_name(&self) -> (r: Option<&str>)
        ensures
            match self@ {
                ValueModel::Node(s) => r matches Some(x) && x@ == s,
                _ => r is None,
            },
    {
        match self {
            Self::Node(value) => Some(value.as_str()),
            _ => None,
        }
    }

    /// The text of a string value.
    pub fn unwrap_string(&self) -> (r: Option<&str>)
        ensures
            match self@ {
                ValueModel::String(s) => r matches Some(x) && x@ == s,
                _ => r is None,
            },
    {
        match self {
            Self::String(value) => Some(value.as_str()),
            _ => None,
        }
    }

    /// The variable of a variable value.
    pub fn as_variable(&self) -> (r: &RefVariable)
        requires
            self is Variable,
        ensures
            self@ == ValueModel::Variable(Box::new(r@)),
    {
        match self {
            Self::Variable(var) => var,
            _ => vstd::pervasive::unreached(),
        }
    }

    /// The variable of a variable value declared a dimension.
    pub fn try_as_dim(&self) -> (r: Option<&RefVariable>)
        ensures
            match self@ {
                ValueModel::Variable(var) => if var.ty == Some(LetType::Dim) {
                    r matches Some(x) && x@ == *var
                } else {
                    r is None
                },
                _ => r is None,
            },
    {
        match self {
            Self::Variable(var) => {
                let is_dim = match &var.0.ty {
                    Some(LetType::Dim) => true,
                    _ => false,
                };
                if is_dim {
                    Some(var)
                } else {
                    None
                }
            },
            _ => None,
        }
    }

    /// Whether two values are equal (see [`value_eq`]).
    pub fn eq_value(&self, other: &Self) -> (r: bool)
        ensures
            r == value_eq(self@, other@),
        decreases self,
    {
        match (self, other) {
            (Self::Bool(x), Self::Bool(y)) => *x == *y,
            (Self::Bool(x), Self::UInt(y)) => (if *x { 1u64 } else { 0u64 }) == *y,
            (Self::Bool(x), Self::Int(y)) => (if *x { 1i64 } else { 0i64 }) == *y,
            (Self::UInt(x), Self::Bool(y)) => *x == (if *y { 1u64 } else { 0u64 }),
            (Self::UInt(x), Self::UInt(y)) => *x == *y,
            (Self::UInt(x), Self::Int(y)) => (*x as i64) == *y,
            (Self::Int(x), Self::Bool(y)) => *x == (if *y { 1i64 } else { 0i64 }),
            (Self::Int(x), Self::UInt(y)) => *x == (*y as i64),
            (Self::Int(x), Self::Int(y)) => *x == *y,
            (Self::String(x), Self::String(y)) => x.eq(y),
            (Self::Node(x), Self::Node(y)) => x.eq(y),
            (Self::Variable(x), Self::Variable(y)) => x.0.eq_variable(&y.0),
            (Self::List(xs), Self::List(ys)) => {
                proof {
                    lemma_list_eq(values_model(*xs), values_model(*ys));
                }
                if xs.len() != ys.len() {
                    return false;
                }
                let mut i: usize = 0;
                #[verifier::loop_isolation(false)]
                while i < xs.len()
                    invariant
                        i <= xs.len() == ys.len(),
                        forall|k: int|
                            0 <= k < i ==> value_eq(
                                #[trigger] values_model(*xs)[k],
                                values_model(*ys)[k],
                            ),
                    decreases xs.len() - i,
                {
                    proof {
                        assert(values_model(*xs)[i as int] == value_model(xs@[i as int]));
                        assert(values_model(*ys)[i as int] == value_model(ys@[i as int]));
                    }
                    if !xs[i].eq_value(&ys[i]) {
                        return false;
                    }
                    i = i + 1;
                }
                true
            },
            (Self::Dict(xs), Self::Dict(ys)) => {
                proof {
                    lemma_map_eq(entries_model(*xs), entries_model(*ys));
                }
                if xs.len() != ys.len() {
                    return false;
                }
                let mut i: usize = 0;
                #[verifier::loop_isolation(false)]
                while i < xs.len()
                    invariant
                        i <= xs.len() == ys.len(),
                        forall|k: int|
                            0 <= k < i ==> (#[trigger] entries_model(*xs)[k]).0 == entries_model(
                                *ys,
                            )[k].0 && opt_eq(entries_model(*xs)[k].1, entries_model(*ys)[k].1),
                    decreases xs.len() - i,
                {
                    proof {
                        assert(entries_model(*xs)[i as int] == (xs@[i as int].0@, opt_value_model(
                            xs@[i as int].1,
                        )));
                        assert(entries_model(*ys)[i as int] == (ys@[i as int].0@, opt_value_model(
                            ys@[i as int].1,
                        )));
                    }
                    if xs[i].0 != ys[i].0 {
                        return false;
                    }
                    let same = match (&xs[i].1, &ys[i].1) {
                        (Some(a), Some(b)) => a.eq_value(b),
                        (None, None) => true,
                        _ => false,
                    };
                    if !same {
                        return false;
                    }
                    i = i + 1;
                }
                true
            },
            _ => self.is_numeric() && other.is_numeric(),
        }
    }
}

} // verus!
