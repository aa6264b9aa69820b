use vstd::prelude::*;

use vstd::string::StringExecFns;

use super::types::operator_symbol;
use super::value::{entries_model, opt_value_model, value_model, values_model, Value, ValueModel, VariableModel, Variable};
use crate::text::{
    all_digits, decimal_of, digit_char, digit_value, digits_value, format_u128, is_digit, parse_i64_spec,
    parse_u64_spec,
};

verus! {

broadcast use {vstd::std_specs::vec::group_vec_axioms, vstd::seq::group_seq_axioms};

/// What `Debug` writes for a string: the string quoted, with its special
/// characters escaped.
pub uninterp spec fn debug_text_of(s: Seq<char>) -> Seq<char>;

/// `<str as Debug>::fmt`, through `format!("{:?}")`: the string in double
/// quotes with quotes, backslashes and non-printable characters escaped.
/// The contract names the result and states nothing more of it.
#[verifier::external_body]
fn debug_str(s: &str) -> (r: String)
    ensures
        r@ == debug_text_of(s@),
{
    format!("{:?}", s)
}

/// The decimal text of a signed number: a `-` before the digits of its
/// magnitude where it is negative.
pub open spec fn int_text(x: i64) -> Seq<char> {
    if x < 0 {
        seq!['-'] + decimal_of((-x) as nat)
    } else {
        decimal_of(x as nat)
    }
}

/// The text of a value: `yes` or `no` for a boolean, decimal numbers, a
/// string quoted, a node by its name, a variable by its name and value, an
/// expression with its operator, a list and a map with a `, ` after each
/// element.
pub open spec fn value_text(v: ValueModel) -> Seq<char>
    decreases v,
{
    match v {
        ValueModel::Bool(b) => if b {
            seq!['y', 'e', 's']
        } else {
            seq!['n', 'o']
        },
        ValueModel::UInt(x) => decimal_of(x as nat),
        ValueModel::Int(x) => int_text(x),
        ValueModel::String(s) => debug_text_of(s),
        ValueModel::Node(s) => s,
        ValueModel::Variable(var) => var_text(*var),
        ValueModel::Expr(e) => match e.rhs {
            Some(rhs) => seq!['('] + value_text(e.lhs) + seq![' '] + operator_symbol(e.op) + seq![' ']
                + value_text(rhs) + seq![')'],
            None => operator_symbol(e.op) + value_text(e.lhs),
        },
        ValueModel::List(xs) => seq!['['] + list_text(xs) + seq![']'],
        ValueModel::Dict(es) => seq!['{'] + dict_text(es) + seq!['}'],
    }
}

/// The text of a variable: its name, and `=` and its value where it has
/// one.
pub open spec fn var_text(var: VariableModel) -> Seq<char>
    decreases var,
{
    match var.value {
        Some(v) => var.name + seq!['='] + value_text(v),
        None => var.name,
    }
}

/// The texts of the values, each followed by `, `.
pub open spec fn list_text(xs: Seq<ValueModel>) -> Seq<char>
    decreases xs,
{
    if xs.len() == 0 {
        Seq::empty()
    } else {
        list_text(xs.drop_last()) + value_text(xs.last()) + seq![',', ' ']
    }
}

/// The texts of the entries of a map, each its key, `: ` and its value
/// where it has one, and `, `.
pub open spec fn dict_text(es: Seq<(Seq<char>, Option<ValueModel>)>) -> Seq<char>
    decreases es,
{
    if es.len() == 0 {
        Seq::empty()
    } else {
        dict_text(es.drop_last()) + entry_text(es.last()) + seq![',', ' ']
    }
}

/// The text of one map entry: its key, and `: ` and its value where it has
/// one.
pub open spec fn entry_text(e: (Seq<char>, Option<ValueModel>)) -> Seq<char>
    decreases e,
{
    match e.1 {
        Some(v) => e.0 + seq![':', ' '] + value_text(v),
        None => e.0,
    }
}

/// The decimal text of a signed number.
pub fn format_i64(x: i64) -> (r: String)
    ensures
        r@ == int_text(x),
{
    if x < 0 {
        proof {
            reveal_strlit("-");
        }
        let m: i128 = x as i128;
        let mut r = String::from_str("-");
        r.append(format_u128((-m) as u128).as_str());
        proof {
            assert(r@ =~= int_text(x));
        }
        r
    } else {
        format_u128(x as u128)
    }
}

impl Variable {
    /// The text of the variable (see [`var_text`]).
    pub fn to_text(&self) -> (r: String)
        ensures
            r@ == var_text(self@),
        decreases self,
    {
        proof {
            reveal_strlit("=");
        }
        let mut r = self.name.clone();
        match &self.value {
            Some(v) => {
                r.append("=");
                r.append(v.to_text().as_str());
                proof {
                    assert(r@ =~= var_text(self@));
                }
            },
            None => {},
        }
        r
    }
}

impl Value {
    /// The text of the value (see [`value_text`]).
    pub fn to_text(&self) -> (r: String)
        ensures
            r@ == value_text(self@),
        decreases self,
    {
        proof {
            reveal_strlit("yes");
            reveal_strlit("no");
            reveal_strlit("(");
            reveal_strlit(")");
            reveal_strlit(" ");
            reveal_strlit("[");
            reveal_strlit("]");
            reveal_strlit("{");
            reveal_strlit("}");
            reveal_strlit(", ");
            reveal_strlit(": ");
        }
        match self {
            Value::Bool(b) => {
                let r = if *b {
                    String::from_str("yes")
                } else {
                    String::from_str("no")
                };
                proof {
                    assert(r@ =~= value_text(self@));
                }
                r
            },
            Value::UInt(x) => format_u128(*x as u128),
            Value::Int(x) => format_i64(*x),
            Value::String(s) => debug_str(s.as_str()),
            Value::Node(s) => s.clone(),
            Value::Variable(var) => var.0.to_text(),
            Value::Expr(e) => match &e.rhs {
                Some(rhs) => {
                    proof {
                        assert(self@ == ValueModel::Expr(Box::new((**e)@)));
                        assert((**e)@.lhs == e.lhs@);
                        assert((**e)@.rhs == Some(rhs@));
                    }
                    let mut r = String::from_str("(");
                    r.append(e.lhs.to_text().as_str());
                    r.append(" ");
                    r.append(e.op.symbol());
                    r.append(" ");
                    r.append(rhs.to_text().as_str());
                    r.append(")");
                    proof {
                        assert(r@ =~= value_text(self@));
                    }
                    r
                },
                None => {
                    proof {
                        assert(self@ == ValueModel::Expr(Box::new((**e)@)));
                        assert((**e)@.lhs == e.lhs@);
                        assert((**e)@.rhs is None);
                    }
                    let mut r = String::from_str(e.op.symbol());
                    r.append(e.lhs.to_text().as_str());
                    proof {
                        assert(r@ =~= value_text(self@));
                    }
                    r
                },
            },
            Value::List(xs) => {
                let ghost vs = values_model(*xs);
                let mut r = String::from_str("[");
                let mut i: usize = 0;
                proof {
                    assert(vs.take(0) =~= Seq::<ValueModel>::empty());
                    assert(r@ =~= seq!['['] + list_text(vs.take(0)));
                }
                #[verifier::loop_isolation(false)]
                while i < xs.len()
                    invariant
                        i <= xs.len(),
                        vs == values_model(*xs),
                        r@ == seq!['['] + list_text(vs.take(i as int)),
                    decreases xs.len() - i,
                {
                    proof {
                        assert(vs[i as int] == value_model(xs@[i as int]));
                        assert(vs.take(i + 1).drop_last() =~= vs.take(i as int));
                        assert(vs.take(i + 1).last() == vs[i as int]);
                    }
                    r.append(xs[i].to_text().as_str());
                    r.append(", ");
                    proof {
                        assert(", "@ =~= seq![',', ' ']);
                        assert(r@ =~= seq!['['] + list_text(vs.take(i + 1)));
                    }
                    i = i + 1;
                }
                r.append("]");
                proof {
                    assert(vs.take(xs.len() as int) =~= vs);
                    assert(r@ =~= value_text(self@));
                }
                r
            },
            Value::Dict(es) => {
                let ghost ms = entries_model(*es);
                let mut r = String::from_str("{");
                let mut i: usize = 0;
                proof {
                    assert(ms.take(0) =~= Seq::<(Seq<char>, Option<ValueModel>)>::empty());
                    assert(r@ =~= seq!['{'] + dict_text(ms.take(0)));
                }
                #[verifier::loop_isolation(false)]
                while i < es.len()
                    invariant
                        i <= es.len(),
                        ms == entries_model(*es),
                        r@ == seq!['{'] + dict_text(ms.take(i as int)),
                    decreases es.len() - i,
                {
                    proof {
                        assert(ms[i as int] == (es@[i as int].0@, opt_value_model(es@[i as int].1)));
                        assert(ms.take(i + 1).drop_last() =~= ms.take(i as int));
                        assert(ms.take(i + 1).last() == ms[i as int]);
                    }
                    let ghost before = r@;
                    r.append(es[i].0.as_str());
                    match &es[i].1 {
                        Some(v) => {
                            r.append(": ");
                            r.append(v.to_text().as_str());
                            proof {
                                assert(": "@ =~= seq![':', ' ']);
                            }
                        },
                        None => {},
                    }
                    r.append(", ");
                    proof {
                        assert(", "@ =~= seq![',', ' ']);
                        assert(r@ =~= before + entry_text(ms[i as int]) + seq![',', ' ']);
                        assert(r@ =~= seq!['{'] + dict_text(ms.take(i + 1)));
                    }
                    i = i + 1;
                }
                r.append("}");
                proof {
                    assert(ms.take(es.len() as int) =~= ms);
                    assert(r@ =~= value_text(self@));
                }
                r
            },
        }
    }
}

proof fn lemma_decimal_digits(n: nat)
    ensures
        all_digits(decimal_of(n)),
        digits_value(decimal_of(n)) == n,
    decreases n,
{
    if n < 10 {
        assert(digit_value(digit_char(n)) == n);
        let d = decimal_of(n);
        assert(d.drop_last() =~= Seq::<char>::empty());
        assert(digits_value(Seq::<char>::empty()) == 0);
        assert(digits_value(d) == digits_value(d.drop_last()) * 10 + digit_value(d.last()));
    } else {
        lemma_decimal_digits(n / 10);
        let d = decimal_of(n);
        assert(d.drop_last() =~= decimal_of(n / 10));
        assert(digit_value(digit_char(n % 10)) == n % 10);
        assert(d.last() == digit_char(n % 10));
        assert((n / 10) * 10 + n % 10 == n) by (nonlinear_arith);
        assert(digits_value(d) == digits_value(d.drop_last()) * 10 + digit_value(d.last()));
        assert forall|i: int| 0 <= i < d.len() implies is_digit(#[trigger] d[i]) by {
            if i < d.len() - 1 {
                assert(d[i] == decimal_of(n / 10)[i]);
            }
        }
    }
}

/// Reading the text of an unsigned number gives the number back: what a
/// value's text writes, a variable of type `uint` reads.
pub proof fn lemma_uint_text_roundtrip(x: u64)
    ensures
        parse_u64_spec(value_text(ValueModel::UInt(x))) == Some(x),
{
    lemma_decimal_digits(x as nat);
    assert(is_digit(decimal_of(x as nat)[0]));
}

/// Reading the text of a signed number gives the number back: what a
/// value's text writes, a variable of type `int` reads.
pub proof fn lemma_int_text_roundtrip(x: i64)
    ensures
        parse_i64_spec(value_text(ValueModel::Int(x))) == Some(x),
{
    if x < 0 {
        lemma_decimal_digits((-x) as nat);
        let t = int_text(x);
        assert(t.drop_first() =~= decimal_of((-x) as nat));
    } else {
        lemma_decimal_digits(x as nat);
        assert(is_digit(decimal_of(x as nat)[0]));
    }
}

} // verus!
