use vstd::prelude::*;

use super::error::{strs, Error, GraphError, Result};
use super::graph::{no_such_variable, set_var_value, var_models, with_value, Variables};
use super::strmap::{str_equal, StrMap};
use crate::ast::types::{clone_opt_type, LetNodeType, LetType};
use crate::ast::value::{
    has_type, opt_value_model, type_of, Value, ValueModel, Variable, VariableModel,
};
use crate::text::{parse_i64, parse_i64_spec, parse_u64, parse_u64_spec};

verus! {

broadcast use vstd::std_specs::vec::group_vec_axioms;

/// What `str::to_lowercase` gives for a text.
pub uninterp spec fn lowercase_of(s: Seq<char>) -> Seq<char>;

/// `str::to_lowercase`: the text with each character mapped to its
/// lowercase form by the Unicode tables of std. The contract names the
/// result and states nothing more of it.
#[verifier::external_body]
fn to_lowercase(s: &str) -> (r: String)
    ensures
        r@ == lowercase_of(s@),
{
    s.to_lowercase()
}

/// The boolean that a lowercase word stands for.
pub open spec fn bool_word(s: Seq<char>) -> Option<bool> {
    if s == seq!['y', 'e', 's'] || s == seq!['t', 'r', 'u', 'e'] || s == seq!['1'] {
        Some(true)
    } else if s == seq!['n', 'o'] || s == seq!['f', 'a', 'l', 's', 'e'] || s == seq!['0'] {
        Some(false)
    } else {
        None
    }
}

/// Reads a lowercase word as a boolean: `yes`, `true` and `1` are true,
/// `no`, `false` and `0` are false.
pub fn bool_from_word(word: &str) -> (r: Option<bool>)
    ensures
        r == bool_word(word@),
{
    proof {
        reveal_strlit("yes");
        reveal_strlit("true");
        reveal_strlit("1");
        reveal_strlit("no");
        reveal_strlit("false");
        reveal_strlit("0");
        assert("yes"@ =~= seq!['y', 'e', 's']);
        assert("true"@ =~= seq!['t', 'r', 'u', 'e']);
        assert("1"@ =~= seq!['1']);
        assert("no"@ =~= seq!['n', 'o']);
        assert("false"@ =~= seq!['f', 'a', 'l', 's', 'e']);
        assert("0"@ =~= seq!['0']);
    }
    if str_equal(word, "yes") || str_equal(word, "true") || str_equal(word, "1") {
        Some(true)
    } else if str_equal(word, "no") || str_equal(word, "false") || str_equal(word, "0") {
        Some(false)
    } else {
        None
    }
}

/// The types that a text can be read as.
pub open spec fn readable(ty: LetType) -> bool {
    ty is Bool || ty is UInt || ty is Int || ty is String || ty is Node
}

/// The value that a text stands for as a value of type `ty`; `None` where
/// the text does not read as one.
pub open spec fn read_as(value: Seq<char>, ty: LetType) -> Option<ValueModel>
    recommends
        readable(ty),
{
    match ty {
        LetType::Bool => match bool_word(lowercase_of(value)) {
            Some(b) => Some(ValueModel::Bool(b)),
            None => None,
        },
        LetType::UInt => match parse_u64_spec(value) {
            Some(x) => Some(ValueModel::UInt(x)),
            None => None,
        },
        LetType::Int => match parse_i64_spec(value) {
            Some(x) => Some(ValueModel::Int(x)),
            None => None,
        },
        LetType::String => Some(ValueModel::String(value)),
        _ => Some(ValueModel::Node(value)),
    }
}

/// The error that `value` does not read as a value of type `ty`.
pub open spec fn unparsable(e: Error, name: Seq<char>, value: Seq<char>, ty: Option<LetType>) -> bool {
    e matches Error::GraphError(GraphError::UnparsableString { name: n, value: v, ty: t })
        && n@ == name && v@ == value && t == ty
}

/// The error that a variable holds no value.
pub open spec fn empty_value(e: Error, name: Seq<char>, expected: LetType) -> bool {
    e matches Error::GraphError(GraphError::EmptyValue { name: n, expected: t }) && n@ == name
        && t == expected
}

/// The error that a variable holds a value of another type.
pub open spec fn mismatched_type(
    e: Error,
    name: Seq<char>,
    expected: LetType,
    given: Option<LetType>,
) -> bool {
    e matches Error::GraphError(GraphError::MismatchedType { name: n, expected: t, given: g })
        && n@ == name && t == expected && g == given
}

/// The error that `value` does not read as a value of type `ty`.
pub fn unparsable_string<T>(name: &str, value: String, ty: Option<LetType>) -> (r: Result<T>)
    ensures
        r is Err && unparsable(r->Err_0, name@, value@, ty),
{
    Err(
        Error::GraphError(
            GraphError::UnparsableString { name: name.to_string(), value, ty },
        ),
    )
}

/// A variable to load: its name, its type, the text of its value if one was
/// given, and the text that the fallback gives where none was.
pub struct Query<'a> {
    pub name: &'a str,
    pub ty: LetType,
    pub value: Option<String>,
    pub fn_value: Option<String>,
}

/// The text a query holds: its value, else its fallback.
pub open spec fn query_text(q: Query) -> Option<Seq<char>> {
    match q.value {
        Some(v) => Some(v@),
        None => match q.fn_value {
            Some(v) => Some(v@),
            None => None,
        },
    }
}

/// Whether the query holds a text of a readable type that does not read.
pub open spec fn query_fails(q: Query) -> bool {
    query_text(q) matches Some(t) && readable(q.ty) && read_as(t, q.ty) is None
}

/// Whether the query holds a text that cannot be read here: one of a type
/// that no reading is defined for.
pub open spec fn query_unreadable(q: Query) -> bool {
    query_text(q) is Some && !readable(q.ty)
}

/// The variable a query loads.
pub open spec fn query_var(q: Query) -> VariableModel {
    VariableModel {
        id: Some(0),
        id_old: Some(0),
        name: q.name@,
        shortcut: None,
        ty: Some(q.ty),
        value: match query_text(q) {
            Some(t) => read_as(t, q.ty),
            None => None,
        },
    }
}

/// The variables that the queries load, a later name replacing an earlier.
pub open spec fn loaded(qs: Seq<Query>) -> Map<Seq<char>, VariableModel>
    decreases qs.len(),
{
    if qs.len() == 0 {
        Map::empty()
    } else {
        loaded(qs.drop_last()).insert(qs.last().name@, query_var(qs.last()))
    }
}

/// The first query that fails to read, if any.
pub open spec fn first_failure(qs: Seq<Query>) -> Option<int> {
    if exists|i: int| 0 <= i < qs.len() && query_fails(#[trigger] qs[i]) {
        Some(
            choose|i: int|
                0 <= i < qs.len() && query_fails(#[trigger] qs[i]) && forall|j: int|
                    0 <= j < i ==> !query_fails(#[trigger] qs[j]),
        )
    } else {
        None
    }
}

/// Variables read from texts, such as the environment of a program.
#[derive(Debug)]
pub struct Vars {
    inner: Variables,
}

impl Vars {
    /// The variables are a map with ascending keys.
    pub closed spec fn wf(&self) -> bool {
        self.inner.wf()
    }

    /// The variables by name.
    pub closed spec fn vars(&self) -> Map<Seq<char>, VariableModel> {
        var_models(self.inner)
    }

    /// The names, in ascending order.
    pub closed spec fn keys(&self) -> Seq<Seq<char>> {
        self.inner.key_seq()
    }

    /// Takes the variables as they are.
    pub fn from_variables(inner: Variables) -> (r: Self)
        requires
            inner.wf(),
        ensures
            r.wf(),
            r.vars() == var_models(inner),
            r.keys() == inner.key_seq(),
    {
        Self { inner }
    }

    /// Reads `value` as a value of type `ty`.
    pub fn convert(name: &str, value: String, ty: Option<LetType>) -> (r: Result<Value>)
        requires
            ty matches Some(t) && readable(t),
        ensures
            read_as(value@, ty->0) matches Some(v) ==> r matches Ok(x) && x@ == v,
            read_as(value@, ty->0) is None ==> r is Err && unparsable(r->Err_0, name@, value@, ty),
    {
        match ty {
            Some(LetType::Bool) => {
                let lower = to_lowercase(value.as_str());
                match bool_from_word(lower.as_str()) {
                    Some(b) => Ok(Value::Bool(b)),
                    None => unparsable_string(name, value, Some(LetType::Bool)),
                }
            },
            Some(LetType::UInt) => match parse_u64(value.as_str()) {
                Some(x) => Ok(Value::UInt(x)),
                None => unparsable_string(name, value, Some(LetType::UInt)),
            },
            Some(LetType::Int) => match parse_i64(value.as_str()) {
                Some(x) => Ok(Value::Int(x)),
                None => unparsable_string(name, value, Some(LetType::Int)),
            },
            Some(LetType::String) => Ok(Value::String(value)),
            _ => Ok(Value::Node(value)),
        }
    }

    /// Loads one variable per query, of the query's type, with the query's
    /// text read as its value; the first text that does not read fails the
    /// load.
    pub fn load(query: Vec<Query>) -> (r: Result<Self>)
        requires
            forall|i: int|
                0 <= i < query@.len() && query_unreadable(#[trigger] query@[i]) ==> exists|j: int|
                    0 <= j < i && query_fails(#[trigger] query@[j]),
        ensures
            first_failure(query@) matches Some(i) ==> r is Err && unparsable(
                r->Err_0,
                query@[i].name@,
                query_text(query@[i])->0,
                Some(query@[i].ty),
            ),
            first_failure(query@) is None ==> (r matches Ok(v) && v.wf() && v.vars() == loaded(
                query@,
            )),
    {
        let mut inner: Variables = StrMap::new();
        proof {
            assert(var_models(inner) =~= loaded(query@.take(0)));
        }
        let mut i: usize = 0;
        while i < query.len()
            invariant
                i <= query@.len(),
                inner.wf(),
                var_models(inner) == loaded(query@.take(i as int)),
                forall|j: int| 0 <= j < i ==> !query_fails(#[trigger] query@[j]),
                forall|k: int|
                    0 <= k < query@.len() && query_unreadable(#[trigger] query@[k]) ==> exists|
                        j: int,
                    | 0 <= j < k && query_fails(#[trigger] query@[j]),
            decreases query@.len() - i,
        {
            let q = &query[i];
            let text: Option<String> = match &q.value {
                Some(v) => Some(v.clone()),
                None => match &q.fn_value {
                    Some(v) => Some(v.clone()),
                    None => None,
                },
            };
            let value = match text {
                Some(t) => {
                    proof {
                        if !readable(q.ty) {
                            assert(query_unreadable(query@[i as int]));
                        }
                    }
                    match Self::convert(q.name, t, Some(q.ty.clone())) {
                        Ok(v) => Some(v),
                        Err(e) => {
                            proof {
                                assert(query_fails(query@[i as int]));
                                let c = choose|c: int|
                                    0 <= c < query@.len() && query_fails(#[trigger] query@[c])
                                        && forall|j: int|
                                        0 <= j < c ==> !query_fails(#[trigger] query@[j]);
                                assert(c == i);
                            }
                            return Err(e);
                        },
                    }
                },
                None => None,
            };
            let mut var = Variable::with_name_value(String::from_str(q.name), value);
            var.id = Some(0);
            var.id_old = Some(0);
            var.ty = Some(q.ty.clone());
            proof {
                assert(var@ == query_var(query@[i as int]));
                assert(query@.take(i + 1).drop_last() =~= query@.take(i as int));
                assert(query@.take(i + 1).last() == query@[i as int]);
            }
            let ghost old_inner = inner;
            inner.insert(String::from_str(q.name), var);
            proof {
                assert(var_models(inner) =~= var_models(old_inner).insert(q.name@, var@));
            }
            i = i + 1;
        }
        proof {
            assert(query@.take(query@.len() as int) =~= query@);
        }
        Ok(Self { inner })
    }

    /// The variable named `name`.
    pub fn get(&self, name: &str) -> (r: Result<&Variable>)
        requires
            self.wf(),
        ensures
            r is Ok <==> self.vars().contains_key(name@),
            r matches Ok(v) ==> v@ == self.vars()[name@],
            r is Err ==> no_such_variable(r->Err_0, name@, self.keys()),
    {
        match self.inner.get(name) {
            Some(v) => Ok(v),
            None => {
                let candidates = self.inner.keys();
                proof {
                    assert(strs(candidates@) =~= self.keys());
                }
                Err(
                    Error::GraphError(
                        GraphError::NoSuchVariable { name: String::from_str(name), candidates },
                    ),
                )
            },
        }
    }

    /// The variable named `name`, where there is one: it must hold a value
    /// of type `expected`.
    pub fn try_get_checked(&self, name: &str, expected: LetType) -> (r: Result<Option<&Variable>>)
        requires
            self.wf(),
            self.vars().contains_key(name@) && self.vars()[name@].value is Some ==> has_type(
                self.vars()[name@].value->0,
            ),
        ensures
            !self.vars().contains_key(name@) ==> r matches Ok(None),
            self.vars().contains_key(name@) ==> match self.vars()[name@].value {
                None => r is Err && empty_value(r->Err_0, name@, expected),
                Some(v) => if type_of(v) == Some(expected) {
                    r matches Ok(Some(x)) && x@ == self.vars()[name@]
                } else {
                    r is Err && mismatched_type(r->Err_0, name@, expected, type_of(v))
                },
            },
    {
        match self.inner.get(name) {
            Some(var) => match &var.value {
                Some(value) => {
                    let value_ty = value.ty();
                    let same = match &value_ty {
                        Some(t) => t.same_as(&expected),
                        None => false,
                    };
                    if same {
                        Ok(Some(var))
                    } else {
                        Err(
                            Error::GraphError(
                                GraphError::MismatchedType {
                                    name: String::from_str(name),
                                    expected,
                                    given: value_ty,
                                },
                            ),
                        )
                    }
                },
                None => Err(
                    Error::GraphError(
                        GraphError::EmptyValue { name: String::from_str(name), expected },
                    ),
                ),
            },
            None => Ok(None),
        }
    }

    /// The value of the variable named `name`, which must hold one.
    fn get_value(&self, name: &str, expected: LetType) -> (r: Result<&Value>)
        requires
            self.wf(),
        ensures
            !self.vars().contains_key(name@) ==> r is Err && no_such_variable(
                r->Err_0,
                name@,
                self.keys(),
            ),
            self.vars().contains_key(name@) ==> match self.vars()[name@].value {
                None => r is Err && empty_value(r->Err_0, name@, expected),
                Some(v) => r matches Ok(x) && x@ == v,
            },
    {
        let var = self.get(name)?;
        match &var.value {
            Some(value) => Ok(value),
            None => Err(
                Error::GraphError(
                    GraphError::EmptyValue { name: String::from_str(name), expected },
                ),
            ),
        }
    }

    /// The name of the node that the variable named `name` holds.
    pub fn get_node_name(&self, name: &str, ty: LetNodeType) -> (r: Result<String>)
        requires
            self.wf(),
            self.vars().contains_key(name@) && self.vars()[name@].value is Some && !(
            self.vars()[name@].value->0 is Node) ==> has_type(self.vars()[name@].value->0),
        ensures
            !self.vars().contains_key(name@) ==> r is Err && no_such_variable(
                r->Err_0,
                name@,
                self.keys(),
            ),
            self.vars().contains_key(name@) ==> match self.vars()[name@].value {
                None => r is Err && empty_value(r->Err_0, name@, LetType::Node(Some(ty))),
                Some(ValueModel::Node(s)) => r matches Ok(x) && x@ == s,
                Some(v) => r is Err && mismatched_type(
                    r->Err_0,
                    name@,
                    LetType::Node(Some(ty)),
                    type_of(v),
                ),
            },
    {
        let value = self.get_value(name, LetType::Node(Some(ty)))?;
        match value.unwrap_node_name() {
            Some(x) => Ok(String::from_str(x)),
            None => Err(
                Error::GraphError(
                    GraphError::MismatchedType {
                        name: String::from_str(name),
                        expected: LetType::Node(Some(ty)),
                        given: value.ty(),
                    },
                ),
            ),
        }
    }

    /// The text that the variable named `name` holds.
    pub fn get_string(&self, name: &str) -> (r: Result<String>)
        requires
            self.wf(),
            self.vars().contains_key(name@) && self.vars()[name@].value is Some && !(
            self.vars()[name@].value->0 is String) ==> has_type(self.vars()[name@].value->0),
        ensures
            !self.vars().contains_key(name@) ==> r is Err && no_such_variable(
                r->Err_0,
                name@,
                self.keys(),
            ),
            self.vars().contains_key(name@) ==> match self.vars()[name@].value {
                None => r is Err && empty_value(r->Err_0, name@, LetType::String),
                Some(ValueModel::String(s)) => r matches Ok(x) && x@ == s,
                Some(v) => r is Err && mismatched_type(r->Err_0, name@, LetType::String, type_of(v)),
            },
    {
        let value = self.get_value(name, LetType::String)?;
        match value.unwrap_string() {
            Some(x) => Ok(String::from_str(x)),
            None => Err(
                Error::GraphError(
                    GraphError::MismatchedType {
                        name: String::from_str(name),
                        expected: LetType::String,
                        given: value.ty(),
                    },
                ),
            ),
        }
    }

    /// Gives the variable named `name` the value that `value` reads as, in
    /// the variable's type.
    pub fn set(&mut self, name: &str, value: &str) -> (r: Result<()>)
        requires
            old(self).wf(),
            old(self).vars().contains_key(name@) ==> (old(self).vars()[name@].ty matches Some(t)
                && readable(t)),
        ensures
            final(self).wf(),
            final(self).keys() == old(self).keys(),
            !old(self).vars().contains_key(name@) ==> r is Err && no_such_variable(
                r->Err_0,
                name@,
                old(self).keys(),
            ) && final(self).vars() == old(self).vars(),
            old(self).vars().contains_key(name@) ==> match read_as(
                value@,
                old(self).vars()[name@].ty->0,
            ) {
                Some(v) => r is Ok && final(self).vars() == old(self).vars().insert(
                    name@,
                    with_value(old(self).vars()[name@], Some(v)),
                ),
                None => r is Err && unparsable(
                    r->Err_0,
                    name@,
                    value@,
                    old(self).vars()[name@].ty,
                ) && final(self).vars() == old(self).vars(),
            },
    {
        let ty = clone_opt_type(&self.get(name)?.ty);
        let v = Self::convert(name, String::from_str(value), ty)?;
        set_var_value(&mut self.inner, name, Some(v));
        Ok(())
    }

    /// Gives the variable named `name` the value `value`, which must be of
    /// the variable's type.
    pub fn set_as_value(&mut self, name: &str, value: Value) -> (r: Result<()>)
        requires
            old(self).wf(),
            has_type(value@),
            old(self).vars().contains_key(name@) && old(self).vars()[name@].ty is None ==> type_of(
                value@,
            ) is None,
        ensures
            final(self).wf(),
            final(self).keys() == old(self).keys(),
            !old(self).vars().contains_key(name@) ==> r is Err && no_such_variable(
                r->Err_0,
                name@,
                old(self).keys(),
            ) && final(self).vars() == old(self).vars(),
            old(self).vars().contains_key(name@) ==> if old(self).vars()[name@].ty == type_of(
                value@,
            ) {
                r is Ok && final(self).vars() == old(self).vars().insert(
                    name@,
                    with_value(old(self).vars()[name@], Some(value@)),
                )
            } else {
                r is Err && mismatched_type(
                    r->Err_0,
                    name@,
                    old(self).vars()[name@].ty->0,
                    type_of(value@),
                ) && final(self).vars() == old(self).vars()
            },
    {
        let expected = clone_opt_type(&self.get(name)?.ty);
        let given = value.ty();
        if !crate::ast::types::same_opt_type(&expected, &given) {
            return Err(
                Error::GraphError(
                    GraphError::MismatchedType {
                        name: String::from_str(name),
                        expected: expected.unwrap(),
                        given,
                    },
                ),
            );
        }
        set_var_value(&mut self.inner, name, Some(value));
        Ok(())
    }
}

/// Setting a variable and then reading it gives the value set, and leaves
/// the other variables as they were: what [`Vars::set`] and
/// [`Vars::set_as_value`] write, [`Vars::get`] reads back.
pub proof fn lemma_set_then_get(vars: Map<Seq<char>, VariableModel>, name: Seq<char>, v: ValueModel)
    requires
        vars.contains_key(name),
    ensures
        vars.insert(name, with_value(vars[name], Some(v))).contains_key(name),
        vars.insert(name, with_value(vars[name], Some(v)))[name].value == Some(v),
        vars.insert(name, with_value(vars[name], Some(v)))[name].name == vars[name].name,
        vars.insert(name, with_value(vars[name], Some(v)))[name].ty == vars[name].ty,
        forall|k: Seq<char>|
            k != name ==> #[trigger] vars.insert(name, with_value(vars[name], Some(v))).contains_key(k)
                == vars.contains_key(k) && (vars.contains_key(k) ==> vars.insert(
                name,
                with_value(vars[name], Some(v)),
            )[k] == vars[k]),
{
}

/// The variables of the environment of the toolkit.
#[derive(Debug)]
pub struct GlobalVars {
    inner: Vars,
}

impl GlobalVars {
    /// The environment variables.
    pub closed spec fn vars(&self) -> Map<Seq<char>, VariableModel> {
        self.inner.vars()
    }

    /// The environment variables are well formed.
    pub closed spec fn wf(&self) -> bool {
        self.inner.wf()
    }

    /// The environment made of the given variables.
    pub fn from_vars(inner: Vars) -> (r: Self)
        requires
            inner.wf(),
        ensures
            r.wf(),
            r.vars() == inner.vars(),
    {
        Self { inner }
    }

    /// The environment variables.
    pub fn vars_ref(&self) -> (r: &Vars)
        ensures
            r.vars() == self.vars(),
            r.wf() == self.wf(),
    {
        &self.inner
    }

    /// The local directory of the toolkit: the text of the variable `root`.
    pub fn root_dir(&self) -> (r: String)
        requires
            self.wf(),
            self.vars().contains_key("root"@),
            self.vars()["root"@].value matches Some(ValueModel::String(_)),
        ensures
            Some(ValueModel::String(r@)) == self.vars()["root"@].value,
    {
        match self.inner.get_string("root") {
            Ok(s) => s,
            Err(_) => {
                proof {
                    assert(false);
                }
                String::new()
            },
        }
    }
}

} // verus!
