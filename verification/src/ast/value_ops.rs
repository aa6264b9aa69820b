use vstd::prelude::*;

use vstd::arithmetic::power::pow;

use super::types::Operator;
use super::value::{bool_num, values_model, ExprModel, Expr, Value, ValueModel};

verus! {

broadcast use {vstd::std_specs::vec::group_vec_axioms, vstd::seq::group_seq_axioms};

/// The expression `op lhs`, or `lhs op rhs`, that cannot be computed yet.
pub open spec fn expr_of(op: Operator, lhs: ValueModel, rhs: Option<ValueModel>) -> ValueModel {
    ValueModel::Expr(Box::new(ExprModel { op, lhs, rhs }))
}

/// The negation of a value: a boolean becomes the signed number it
/// negates; an unsigned number becomes the signed number of the same bits,
/// not negated; a signed number is negated; any other value becomes an
/// expression.
pub open spec fn neg_of(v: ValueModel) -> ValueModel {
    match v {
        ValueModel::Bool(b) => ValueModel::Int((-bool_num(b)) as i64),
        ValueModel::UInt(x) => ValueModel::Int(x as i64),
        ValueModel::Int(x) => ValueModel::Int((-x) as i64),
        _ => expr_of(Operator::Neg, v, None),
    }
}

/// Whether the negation of a value overflows.
pub open spec fn neg_overflows(v: ValueModel) -> bool {
    v matches ValueModel::Int(x) && x == i64::MIN
}

/// The arithmetic operators that values compute at once.
pub open spec fn is_arith(op: Operator) -> bool {
    op is Add || op is Sub || op is Mul
}

/// The logical operators that values compute at once.
pub open spec fn is_logical(op: Operator) -> bool {
    op is And || op is Or || op is Xor
}

/// An arithmetic operator applied to two integers.
pub open spec fn arith_int(op: Operator, a: int, b: int) -> int {
    match op {
        Operator::Add => a + b,
        Operator::Sub => a - b,
        _ => a * b,
    }
}

/// Where two values are numbers: whether the result is unsigned, and the
/// two operands as the numbers the operation takes (a boolean is 0 or 1,
/// an unsigned number mixed with a signed one keeps its bits as a signed
/// one).
pub open spec fn arith_operands(a: ValueModel, b: ValueModel) -> Option<(bool, int, int)> {
    match (a, b) {
        (ValueModel::Bool(x), ValueModel::Bool(y)) => Some((false, bool_num(x), bool_num(y))),
        (ValueModel::Bool(x), ValueModel::UInt(y)) => Some((true, bool_num(x), y as int)),
        (ValueModel::Bool(x), ValueModel::Int(y)) => Some((false, bool_num(x), y as int)),
        (ValueModel::UInt(x), ValueModel::Bool(y)) => Some((true, x as int, bool_num(y))),
        (ValueModel::UInt(x), ValueModel::UInt(y)) => Some((true, x as int, y as int)),
        (ValueModel::UInt(x), ValueModel::Int(y)) => Some((false, (x as i64) as int, y as int)),
        (ValueModel::Int(x), ValueModel::Bool(y)) => Some((false, x as int, bool_num(y))),
        (ValueModel::Int(x), ValueModel::UInt(y)) => Some((false, x as int, (y as i64) as int)),
        (ValueModel::Int(x), ValueModel::Int(y)) => Some((false, x as int, y as int)),
        _ => None,
    }
}

/// Whether an arithmetic operation on two values overflows its result.
pub open spec fn arith_overflows(op: Operator, a: ValueModel, b: ValueModel) -> bool {
    match arith_operands(a, b) {
        Some((unsigned, x, y)) => if unsigned {
            !(0 <= arith_int(op, x, y) <= u64::MAX)
        } else {
            !(i64::MIN <= arith_int(op, x, y) <= i64::MAX)
        },
        None => false,
    }
}

/// An arithmetic operation on two values: computed where both are numbers,
/// else an expression.
pub open spec fn arith_of(op: Operator, a: ValueModel, b: ValueModel) -> ValueModel {
    match arith_operands(a, b) {
        Some((unsigned, x, y)) => if unsigned {
            ValueModel::UInt(arith_int(op, x, y) as u64)
        } else {
            ValueModel::Int(arith_int(op, x, y) as i64)
        },
        None => expr_of(op, a, Some(b)),
    }
}

/// A logical operator applied to unsigned numbers.
pub open spec fn logical_u64(op: Operator, a: u64, b: u64) -> u64 {
    match op {
        Operator::And => a & b,
        Operator::Or => a | b,
        _ => a ^ b,
    }
}

/// A logical operator applied to signed numbers.
pub open spec fn logical_i64(op: Operator, a: i64, b: i64) -> i64 {
    match op {
        Operator::And => a & b,
        Operator::Or => a | b,
        _ => a ^ b,
    }
}

/// A logical operator applied to booleans.
pub open spec fn logical_bool(op: Operator, a: bool, b: bool) -> bool {
    match op {
        Operator::And => a && b,
        Operator::Or => a || b,
        _ => a != b,
    }
}

/// A logical operation on two values: computed bit by bit where both are
/// numbers (two booleans give a boolean), else an expression.
pub open spec fn logical_of(op: Operator, a: ValueModel, b: ValueModel) -> ValueModel {
    match (a, b) {
        (ValueModel::Bool(x), ValueModel::Bool(y)) => ValueModel::Bool(logical_bool(op, x, y)),
        (ValueModel::Bool(x), ValueModel::UInt(y)) => ValueModel::UInt(
            logical_u64(op, bool_num(x) as u64, y),
        ),
        (ValueModel::Bool(x), ValueModel::Int(y)) => ValueModel::Int(
            logical_i64(op, bool_num(x) as i64, y),
        ),
        (ValueModel::UInt(x), ValueModel::Bool(y)) => ValueModel::UInt(
            logical_u64(op, x, bool_num(y) as u64),
        ),
        (ValueModel::UInt(x), ValueModel::UInt(y)) => ValueModel::UInt(logical_u64(op, x, y)),
        (ValueModel::UInt(x), ValueModel::Int(y)) => ValueModel::Int(logical_i64(op, x as i64, y)),
        (ValueModel::Int(x), ValueModel::Bool(y)) => ValueModel::Int(
            logical_i64(op, x, bool_num(y) as i64),
        ),
        (ValueModel::Int(x), ValueModel::UInt(y)) => ValueModel::Int(logical_i64(op, x, y as i64)),
        (ValueModel::Int(x), ValueModel::Int(y)) => ValueModel::Int(logical_i64(op, x, y)),
        _ => expr_of(op, a, Some(b)),
    }
}

/// A power of two values: the base's kind is kept for unsigned or signed
/// bases with exponents that are booleans or unsigned numbers (the
/// exponent is taken as its low 32 bits); any other pair but those with a
/// signed exponent becomes an expression.
pub open spec fn pow_of(a: ValueModel, b: ValueModel) -> ValueModel {
    match (a, b) {
        (ValueModel::Bool(x), ValueModel::Bool(y)) => ValueModel::UInt(
            pow(bool_num(x), bool_num(y) as nat) as u64,
        ),
        (ValueModel::Bool(x), ValueModel::UInt(y)) => ValueModel::UInt(
            pow(bool_num(x), (y as u32) as nat) as u64,
        ),
        (ValueModel::UInt(x), ValueModel::Bool(y)) => ValueModel::UInt(
            pow(x as int, bool_num(y) as nat) as u64,
        ),
        (ValueModel::UInt(x), ValueModel::UInt(y)) => ValueModel::UInt(
            pow(x as int, (y as u32) as nat) as u64,
        ),
        (ValueModel::Int(x), ValueModel::Bool(y)) => ValueModel::Int(
            pow(x as int, bool_num(y) as nat) as i64,
        ),
        (ValueModel::Int(x), ValueModel::UInt(y)) => ValueModel::Int(
            pow(x as int, (y as u32) as nat) as i64,
        ),
        _ => expr_of(Operator::Pow, a, Some(b)),
    }
}

/// Whether a power of two values gives a real number, which values here do
/// not hold: a number raised to a signed number.
pub open spec fn pow_is_real(a: ValueModel, b: ValueModel) -> bool {
    (a is Bool || a is UInt || a is Int) && b is Int
}

/// Whether a power of two values overflows its result.
pub open spec fn pow_overflows(a: ValueModel, b: ValueModel) -> bool {
    match (a, b) {
        (ValueModel::UInt(x), ValueModel::Bool(y)) => pow(x as int, bool_num(y) as nat) > u64::MAX,
        (ValueModel::UInt(x), ValueModel::UInt(y)) => pow(x as int, (y as u32) as nat) > u64::MAX,
        (ValueModel::Int(x), ValueModel::Bool(y)) => !(i64::MIN <= pow(x as int, bool_num(y) as nat)
            <= i64::MAX),
        (ValueModel::Int(x), ValueModel::UInt(y)) => !(i64::MIN <= pow(x as int, (y as u32) as nat)
            <= i64::MAX),
        _ => false,
    }
}

/// The absolute value of an integer.
pub open spec fn abs(x: int) -> int {
    if x < 0 {
        -x
    } else {
        x
    }
}

proof fn lemma_pow_abs_mono(b: int, i: nat, e: nat)
    requires
        b != 0,
        i <= e,
    ensures
        abs(pow(b, i)) <= abs(pow(b, e)),
    decreases e,
{
    reveal(pow);
    if i < e {
        lemma_pow_abs_mono(b, i, (e - 1) as nat);
        let p = pow(b, (e - 1) as nat);
        assert(pow(b, e) == b * p);
        assert(abs(b * p) == abs(b) * abs(p)) by (nonlinear_arith);
        assert(abs(b) * abs(p) >= abs(p)) by (nonlinear_arith)
            requires
                abs(b) >= 1,
                abs(p) >= 0,
        ;
    }
}

/// `b` to the power `e`, in unsigned numbers.
fn pow_u64(b: u64, e: u32) -> (r: u64)
    requires
        pow(b as int, e as nat) <= u64::MAX,
    ensures
        r == pow(b as int, e as nat),
{
    let mut acc: u128 = 1;
    let mut i: u32 = 0;
    proof {
        assert(pow(b as int, 0) == 1) by {
            reveal(pow);
        }
    }
    while i < e
        invariant
            i <= e,
            acc == pow(b as int, i as nat),
            pow(b as int, e as nat) <= u64::MAX,
        decreases e - i,
    {
        proof {
            let p = pow(b as int, i as nat);
            assert(pow(b as int, (i + 1) as nat) == b * p) by {
                reveal(pow);
            }
            if b == 0 {
                assert(b * p == 0) by (nonlinear_arith)
                    requires
                        b == 0,
                ;
            } else {
                lemma_pow_abs_mono(b as int, (i + 1) as nat, e as nat);
                vstd::arithmetic::power::lemma_pow_positive(b as int, (i + 1) as nat);
                vstd::arithmetic::power::lemma_pow_positive(b as int, e as nat);
            }
            assert(acc * b == b * p) by (nonlinear_arith)
                requires
                    acc == p,
            ;
        }
        acc = acc * (b as u128);
        i = i + 1;
    }
    acc as u64
}

/// `b` to the power `e`, in signed numbers.
fn pow_i64(b: i64, e: u32) -> (r: i64)
    requires
        i64::MIN <= pow(b as int, e as nat) <= i64::MAX,
    ensures
        r == pow(b as int, e as nat),
{
    let mut acc: i128 = 1;
    let mut i: u32 = 0;
    proof {
        assert(pow(b as int, 0) == 1) by {
            reveal(pow);
        }
    }
    while i < e
        invariant
            i <= e,
            acc == pow(b as int, i as nat),
            i64::MIN <= pow(b as int, e as nat) <= i64::MAX,
        decreases e - i,
    {
        proof {
            let p = pow(b as int, i as nat);
            assert(pow(b as int, (i + 1) as nat) == b * p) by {
                reveal(pow);
            }
            if b == 0 {
                assert(b * p == 0) by (nonlinear_arith)
                    requires
                        b == 0,
                ;
            } else {
                lemma_pow_abs_mono(b as int, (i + 1) as nat, e as nat);
            }
            assert(acc * b == b * p) by (nonlinear_arith)
                requires
                    acc == p,
            ;
        }
        acc = acc * (b as i128);
        i = i + 1;
    }
    acc as i64
}

/// The number of a boolean.
fn bool_u64(b: bool) -> (r: u64)
    ensures
        r == bool_num(b),
{
    if b {
        1
    } else {
        0
    }
}

/// The number of a boolean.
fn bool_i64(b: bool) -> (r: i64)
    ensures
        r == bool_num(b),
{
    if b {
        1
    } else {
        0
    }
}

impl Value {
    /// The negation of the value (see [`neg_of`]).
    pub fn neg(self) -> (r: Value)
        requires
            !neg_overflows(self@),
        ensures
            r@ == neg_of(self@),
    {
        match self {
            Value::Bool(b) => Value::Int(-bool_i64(b)),
            Value::UInt(x) => Value::Int(x as i64),
            Value::Int(x) => Value::Int(-x),
            v => {
                let ghost m = v@;
                let ex = Expr { op: Operator::Neg, lhs: v, rhs: None };
                proof {
                    assert(ex@ == ExprModel { op: Operator::Neg, lhs: m, rhs: None });
                }
                let r = Value::Expr(Box::new(ex));
                proof {
                    assert(r@ == expr_of(Operator::Neg, m, None));
                }
                r
            },
        }
    }

    /// An arithmetic operation (`+`, `-` or `*`) on two values (see
    /// [`arith_of`]).
    pub fn arith(self, op: Operator, rhs: Value) -> (r: Value)
        requires
            is_arith(op),
            !arith_overflows(op, self@, rhs@),
        ensures
            r@ == arith_of(op, self@, rhs@),
    {
        let ghost a = self@;
        let ghost b = rhs@;
        match (self, rhs) {
            (Value::Bool(x), Value::Bool(y)) => Value::Int(arith_i64(op, bool_i64(x), bool_i64(y))),
            (Value::Bool(x), Value::UInt(y)) => Value::UInt(arith_u64(op, bool_u64(x), y)),
            (Value::Bool(x), Value::Int(y)) => Value::Int(arith_i64(op, bool_i64(x), y)),
            (Value::UInt(x), Value::Bool(y)) => Value::UInt(arith_u64(op, x, bool_u64(y))),
            (Value::UInt(x), Value::UInt(y)) => Value::UInt(arith_u64(op, x, y)),
            (Value::UInt(x), Value::Int(y)) => Value::Int(arith_i64(op, x as i64, y)),
            (Value::Int(x), Value::Bool(y)) => Value::Int(arith_i64(op, x, bool_i64(y))),
            (Value::Int(x), Value::UInt(y)) => Value::Int(arith_i64(op, x, y as i64)),
            (Value::Int(x), Value::Int(y)) => Value::Int(arith_i64(op, x, y)),
            (l, r) => {
                let ex = Expr { op, lhs: l, rhs: Some(r) };
                proof {
                    assert(ex@ == ExprModel { op, lhs: a, rhs: Some(b) });
                }
                let e = Value::Expr(Box::new(ex));
                proof {
                    assert(e@ == expr_of(op, a, Some(b)));
                }
                e
            },
        }
    }

    /// The sum of two values.
    pub fn add(self, rhs: Value) -> (r: Value)
        requires
            !arith_overflows(Operator::Add, self@, rhs@),
        ensures
            r@ == arith_of(Operator::Add, self@, rhs@),
    {
        self.arith(Operator::Add, rhs)
    }

    /// The difference of two values.
    pub fn sub(self, rhs: Value) -> (r: Value)
        requires
            !arith_overflows(Operator::Sub, self@, rhs@),
        ensures
            r@ == arith_of(Operator::Sub, self@, rhs@),
    {
        self.arith(Operator::Sub, rhs)
    }

    /// The product of two values.
    pub fn mul(self, rhs: Value) -> (r: Value)
        requires
            !arith_overflows(Operator::Mul, self@, rhs@),
        ensures
            r@ == arith_of(Operator::Mul, self@, rhs@),
    {
        self.arith(Operator::Mul, rhs)
    }

    /// A logical operation (`&`, `|` or `^`) on two values (see
    /// [`logical_of`]).
    pub fn logical(self, op: Operator, rhs: Value) -> (r: Value)
        requires
            is_logical(op),
        ensures
            r@ == logical_of(op, self@, rhs@),
    {
        let ghost a = self@;
        let ghost b = rhs@;
        match (self, rhs) {
            (Value::Bool(x), Value::Bool(y)) => Value::Bool(
                match op {
                    Operator::And => x && y,
                    Operator::Or => x || y,
                    _ => x != y,
                },
            ),
            (Value::Bool(x), Value::UInt(y)) => Value::UInt(logic_u64(op, bool_u64(x), y)),
            (Value::Bool(x), Value::Int(y)) => Value::Int(logic_i64(op, bool_i64(x), y)),
            (Value::UInt(x), Value::Bool(y)) => Value::UInt(logic_u64(op, x, bool_u64(y))),
            (Value::UInt(x), Value::UInt(y)) => Value::UInt(logic_u64(op, x, y)),
            (Value::UInt(x), Value::Int(y)) => Value::Int(logic_i64(op, x as i64, y)),
            (Value::Int(x), Value::Bool(y)) => Value::Int(logic_i64(op, x, bool_i64(y))),
            (Value::Int(x), Value::UInt(y)) => Value::Int(logic_i64(op, x, y as i64)),
            (Value::Int(x), Value::Int(y)) => Value::Int(logic_i64(op, x, y)),
            (l, r) => {
                let ex = Expr { op, lhs: l, rhs: Some(r) };
                proof {
                    assert(ex@ == ExprModel { op, lhs: a, rhs: Some(b) });
                }
                let e = Value::Expr(Box::new(ex));
                proof {
                    assert(e@ == expr_of(op, a, Some(b)));
                }
                e
            },
        }
    }

    /// The value raised to the power `rhs` (see [`pow_of`]).
    pub fn pow(self, rhs: Value) -> (r: Value)
        requires
            !pow_is_real(self@, rhs@),
            !pow_overflows(self@, rhs@),
        ensures
            r@ == pow_of(self@, rhs@),
    {
        let ghost a = self@;
        let ghost b = rhs@;
        proof {
            vstd::arithmetic::power::lemma_pow0(0);
            vstd::arithmetic::power::lemma_pow0(1);
            vstd::arithmetic::power::lemma1_pow(0);
            vstd::arithmetic::power::lemma1_pow(1);
            vstd::arithmetic::power::lemma_pow1(0);
        }
        match (self, rhs) {
            (Value::Bool(x), Value::Bool(y)) => {
                proof {
                    vstd::arithmetic::power::lemma0_pow(1);
                }
                Value::UInt(pow_u64(bool_u64(x), bool_u64(y) as u32))
            },
            (Value::Bool(x), Value::UInt(y)) => {
                proof {
                    if (y as u32) > 0 {
                        vstd::arithmetic::power::lemma0_pow((y as u32) as nat);
                    }
                    vstd::arithmetic::power::lemma1_pow((y as u32) as nat);
                }
                Value::UInt(pow_u64(bool_u64(x), y as u32))
            },
            (Value::UInt(x), Value::Bool(y)) => Value::UInt(pow_u64(x, bool_u64(y) as u32)),
            (Value::UInt(x), Value::UInt(y)) => Value::UInt(pow_u64(x, y as u32)),
            (Value::Int(x), Value::Bool(y)) => Value::Int(pow_i64(x, bool_u64(y) as u32)),
            (Value::Int(x), Value::UInt(y)) => Value::Int(pow_i64(x, y as u32)),
            (l, r) => {
                let ex = Expr { op: Operator::Pow, lhs: l, rhs: Some(r) };
                proof {
                    assert(ex@ == ExprModel { op: Operator::Pow, lhs: a, rhs: Some(b) });
                }
                let e = Value::Expr(Box::new(ex));
                proof {
                    assert(e@ == expr_of(Operator::Pow, a, Some(b)));
                }
                e
            },
        }
    }
}

/// An arithmetic operator on unsigned numbers.
fn arith_u64(op: Operator, a: u64, b: u64) -> (r: u64)
    requires
        is_arith(op),
        0 <= arith_int(op, a as int, b as int) <= u64::MAX,
    ensures
        r == arith_int(op, a as int, b as int),
{
    match op {
        Operator::Add => a + b,
        Operator::Sub => a - b,
        _ => {
            proof {
                assert(0 <= a * b <= u64::MAX);
            }
            a * b
        },
    }
}

/// An arithmetic operator on signed numbers.
fn arith_i64(op: Operator, a: i64, b: i64) -> (r: i64)
    requires
        is_arith(op),
        i64::MIN <= arith_int(op, a as int, b as int) <= i64::MAX,
    ensures
        r == arith_int(op, a as int, b as int),
{
    match op {
        Operator::Add => a + b,
        Operator::Sub => a - b,
        _ => a * b,
    }
}

/// A logical operator on unsigned numbers.
fn logic_u64(op: Operator, a: u64, b: u64) -> (r: u64)
    ensures
        is_logical(op) ==> r == logical_u64(op, a, b),
{
    match op {
        Operator::And => a & b,
        Operator::Or => a | b,
        _ => a ^ b,
    }
}

/// A logical operator on signed numbers.
fn logic_i64(op: Operator, a: i64, b: i64) -> (r: i64)
    ensures
        is_logical(op) ==> r == logical_i64(op, a, b),
{
    match op {
        Operator::And => a & b,
        Operator::Or => a | b,
        _ => a ^ b,
    }
}

/// The values folded from the left by `op`, starting from `init`: each step
/// an expression of the values so far and the next value.
pub open spec fn fold_expr(op: Operator, init: ValueModel, xs: Seq<ValueModel>) -> ValueModel
    decreases xs.len(),
{
    if xs.len() == 0 {
        init
    } else {
        expr_of(op, fold_expr(op, init, xs.drop_last()), Some(xs.last()))
    }
}

impl Value {
    /// The sum of the values, as an expression that starts from 0.
    pub fn sum(values: &Vec<Value>) -> (r: Value)
        ensures
            r@ == fold_expr(Operator::Add, ValueModel::UInt(0), values_model(*values)),
    {
        Self::fold(values, Operator::Add, Value::UInt(0))
    }

    /// The product of the values, as an expression that starts from 1.
    pub fn product(values: &Vec<Value>) -> (r: Value)
        ensures
            r@ == fold_expr(Operator::Mul, ValueModel::UInt(1), values_model(*values)),
    {
        Self::fold(values, Operator::Mul, Value::UInt(1))
    }

    fn fold(values: &Vec<Value>, op: Operator, init: Value) -> (r: Value)
        ensures
            r@ == fold_expr(op, init@, values_model(*values)),
    {
        let ghost vs = values_model(*values);
        let ghost i0 = init@;
        let mut acc = init;
        let mut i: usize = 0;
        proof {
            assert(vs.take(0) =~= Seq::<ValueModel>::empty());
        }
        while i < values.len()
            invariant
                i <= values@.len(),
                vs == values_model(*values),
                acc@ == fold_expr(op, i0, vs.take(i as int)),
            decreases values@.len() - i,
        {
            proof {
                assert(vs.take(i + 1).drop_last() =~= vs.take(i as int));
                assert(vs.take(i + 1).last() == vs[i as int]);
                assert(vs[i as int] == values@[i as int]@);
            }
            let next = values[i].deep_clone();
            let ghost before = acc@;
            let ex = Expr { op, lhs: acc, rhs: Some(next) };
            proof {
                assert(ex@ == ExprModel { op, lhs: before, rhs: Some(vs[i as int]) });
            }
            acc = Value::Expr(Box::new(ex));
            proof {
                assert(acc@ == expr_of(op, before, Some(vs[i as int])));
            }
            i = i + 1;
        }
        proof {
            assert(vs.take(values@.len() as int) =~= vs);
        }
        acc
    }
}

/// The logical operators act bit by bit on numbers of one kind, and as the
/// connectives on booleans: `&` is and, `|` is or, `^` is exclusive or.
pub proof fn lemma_logical_bitwise(a: u64, b: u64, x: i64, y: i64, p: bool, q: bool)
    ensures
        logical_of(Operator::And, ValueModel::UInt(a), ValueModel::UInt(b)) == ValueModel::UInt(a & b),
        logical_of(Operator::Or, ValueModel::UInt(a), ValueModel::UInt(b)) == ValueModel::UInt(a | b),
        logical_of(Operator::Xor, ValueModel::UInt(a), ValueModel::UInt(b)) == ValueModel::UInt(a ^ b),
        logical_of(Operator::And, ValueModel::Int(x), ValueModel::Int(y)) == ValueModel::Int(x & y),
        logical_of(Operator::Or, ValueModel::Int(x), ValueModel::Int(y)) == ValueModel::Int(x | y),
        logical_of(Operator::Xor, ValueModel::Int(x), ValueModel::Int(y)) == ValueModel::Int(x ^ y),
        logical_of(Operator::And, ValueModel::Bool(p), ValueModel::Bool(q)) == ValueModel::Bool(p && q),
        logical_of(Operator::Or, ValueModel::Bool(p), ValueModel::Bool(q)) == ValueModel::Bool(p || q),
        logical_of(Operator::Xor, ValueModel::Bool(p), ValueModel::Bool(q)) == ValueModel::Bool(p != q),
{
}

/// Sums, differences and products of two numbers of one kind are computed
/// in that kind: the exact result, where it fits.
pub proof fn lemma_arith_numbers(a: u64, b: u64, x: i64, y: i64)
    ensures
        0 <= a + b <= u64::MAX ==> arith_of(Operator::Add, ValueModel::UInt(a), ValueModel::UInt(b))
            == ValueModel::UInt((a + b) as u64),
        0 <= a - b ==> arith_of(Operator::Sub, ValueModel::UInt(a), ValueModel::UInt(b))
            == ValueModel::UInt((a - b) as u64),
        0 <= a * b <= u64::MAX ==> arith_of(Operator::Mul, ValueModel::UInt(a), ValueModel::UInt(b))
            == ValueModel::UInt((a * b) as u64),
        i64::MIN <= x + y <= i64::MAX ==> arith_of(Operator::Add, ValueModel::Int(x), ValueModel::Int(y))
            == ValueModel::Int((x + y) as i64),
        i64::MIN <= x - y <= i64::MAX ==> arith_of(Operator::Sub, ValueModel::Int(x), ValueModel::Int(y))
            == ValueModel::Int((x - y) as i64),
        i64::MIN <= x * y <= i64::MAX ==> arith_of(Operator::Mul, ValueModel::Int(x), ValueModel::Int(y))
            == ValueModel::Int((x * y) as i64),
        arith_overflows(Operator::Add, ValueModel::UInt(a), ValueModel::UInt(b)) <==> a + b > u64::MAX,
        arith_overflows(Operator::Sub, ValueModel::UInt(a), ValueModel::UInt(b)) <==> a < b,
        arith_overflows(Operator::Mul, ValueModel::UInt(a), ValueModel::UInt(b)) <==> a * b > u64::MAX,
{
}

/// Negation: a signed number becomes its opposite, a boolean the opposite
/// of its number (0 or 1), and an unsigned number the signed number of the
/// same bits.
pub proof fn lemma_neg_numbers(a: u64, x: i64, p: bool)
    ensures
        x != i64::MIN ==> neg_of(ValueModel::Int(x)) == ValueModel::Int((-x) as i64),
        neg_of(ValueModel::Bool(p)) == ValueModel::Int(if p { -1i64 } else { 0i64 }),
        neg_of(ValueModel::UInt(a)) == ValueModel::Int(a as i64),
{
}

/// Powers of unsigned numbers are the powers, where they fit.
pub proof fn lemma_pow_numbers(a: u64, b: u64)
    ensures
        b <= u32::MAX && pow(a as int, b as nat) <= u64::MAX ==> pow_of(ValueModel::UInt(a), ValueModel::UInt(b))
            == ValueModel::UInt(pow(a as int, b as nat) as u64),
{
    if b <= u32::MAX {
        assert((b as u32) as nat == b as nat);
    }
}

/// Where a value folded from `init` by `op` over values is unfolded as deep
/// as there are values, the arguments in order: `init`, then each value.
pub open spec fn fold_args(op: Operator, v: ValueModel, n: nat) -> Seq<ValueModel>
    decreases n,
{
    if n == 0 {
        seq![v]
    } else {
        match v {
            ValueModel::Expr(e) => if e.op == op && e.rhs is Some {
                fold_args(op, e.lhs, (n - 1) as nat).push(e.rhs->0)
            } else {
                Seq::empty()
            },
            _ => Seq::empty(),
        }
    }
}

/// A fold keeps every value, in order, after the start: unfolding it as
/// deep as there are values gives back the start and the values.
pub proof fn lemma_fold_keeps_values(op: Operator, init: ValueModel, xs: Seq<ValueModel>)
    ensures
        fold_args(op, fold_expr(op, init, xs), xs.len()) == seq![init] + xs,
    decreases xs.len(),
{
    if xs.len() == 0 {
        assert(seq![init] + xs =~= seq![init]);
    } else {
        lemma_fold_keeps_values(op, init, xs.drop_last());
        assert(seq![init] + xs =~= (seq![init] + xs.drop_last()).push(xs.last()));
    }
}

} // verus!
