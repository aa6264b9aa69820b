use vstd::prelude::*;

use super::error::{strs, Error, GraphError, Result};
use super::seed::Seed;
use super::strmap::{lemma_str_lt_irreflexive, str_lt, StrMap};
use crate::ast::graph_node::NodeLet;
use crate::ast::types::LetType;
use crate::ast::value::{
    clone_opt_value,
    var_eq,
    opt_value_model,
    str_opt,
    value_model,
    Expr,
    RefVariable,
    Value,
    ValueModel,
    Variable,
    VariableModel,
};

verus! {

broadcast use vstd::std_specs::vec::group_vec_axioms;

/// The variables of a graph, by name.
pub type Variables = StrMap<Variable>;

/// Values to give to variables, by name, in ascending name order.
pub type Values = Vec<(String, Option<Value>)>;

/// The variables of a node, with a table from shortcut names to the
/// variables they stand for.
#[derive(Debug)]
pub struct Graph {
    pub id: u64,
    shortcuts: StrMap<String>,
    variables: Variables,
}

/// The variables of a graph once built.
#[derive(Debug)]
pub struct Table {
    pub id: u64,
    pub variables: Variables,
}

/// The models of the variables, by name.
pub open spec fn var_models(m: Variables) -> Map<Seq<char>, VariableModel> {
    m.as_map().map_values(|v: Variable| v@)
}

/// The name under which a variable is reached from outside: its shortcut
/// if it has one, else its name.
pub open spec fn label(v: VariableModel) -> Seq<char> {
    match v.shortcut {
        Some(s) => s,
        None => v.name,
    }
}

/// The table from the labels of the variables, taken in the order of
/// `keys`, to their keys; where two variables share a label, the later key
/// wins.
pub open spec fn label_table(keys: Seq<Seq<char>>, vars: Map<Seq<char>, VariableModel>) -> Map<
    Seq<char>,
    Seq<char>,
>
    decreases keys.len(),
{
    if keys.len() == 0 {
        Map::empty()
    } else {
        label_table(keys.drop_last(), vars).insert(label(vars[keys.last()]), keys.last())
    }
}

proof fn lemma_label_table_targets(keys: Seq<Seq<char>>, vars: Map<Seq<char>, VariableModel>)
    ensures
        forall|l: Seq<char>| #[trigger]
            label_table(keys, vars).contains_key(l) ==> keys.contains(label_table(keys, vars)[l]),
    decreases keys.len(),
{
    if keys.len() > 0 {
        lemma_label_table_targets(keys.drop_last(), vars);
        assert forall|l: Seq<char>| #[trigger]
            label_table(keys, vars).contains_key(l) implies keys.contains(
            label_table(keys, vars)[l],
        ) by {
            if l != label(vars[keys.last()]) {
                let t = label_table(keys.drop_last(), vars)[l];
                let j = choose|j: int| 0 <= j < keys.drop_last().len() && keys.drop_last()[j] == t;
                assert(keys[j] == t);
            } else {
                assert(keys[keys.len() - 1] == keys.last());
            }
        }
    }
}

/// A variable model with another value.
pub open spec fn with_value(v: VariableModel, value: Option<ValueModel>) -> VariableModel {
    VariableModel { value, ..v }
}

/// The variables after giving `value` to the variable reached by `name`,
/// through the shortcut table or directly; `None` when `name` reaches none.
pub open spec fn apply_one(
    vars: Map<Seq<char>, VariableModel>,
    table: Map<Seq<char>, Seq<char>>,
    shortcut: bool,
    name: Seq<char>,
    value: Option<ValueModel>,
) -> Option<Map<Seq<char>, VariableModel>> {
    if shortcut {
        if table.contains_key(name) {
            Some(vars.insert(table[name], with_value(vars[table[name]], value)))
        } else {
            None
        }
    } else {
        if vars.contains_key(name) {
            Some(vars.insert(name, with_value(vars[name], value)))
        } else {
            None
        }
    }
}

/// The variables after giving the values in order, and the position of the
/// first name that reaches no variable, where applying stopped.
pub open spec fn apply_all(
    vars: Map<Seq<char>, VariableModel>,
    table: Map<Seq<char>, Seq<char>>,
    shortcut: bool,
    entries: Seq<(Seq<char>, Option<ValueModel>)>,
) -> (Map<Seq<char>, VariableModel>, Option<int>)
    decreases entries.len(),
{
    if entries.len() == 0 {
        (vars, None)
    } else {
        let (m, failed) = apply_all(vars, table, shortcut, entries.drop_last());
        if failed is Some {
            (m, failed)
        } else {
            match apply_one(m, table, shortcut, entries.last().0, entries.last().1) {
                Some(m2) => (m2, None),
                None => (m, Some(entries.len() - 1)),
            }
        }
    }
}

/// The models of named values.
pub open spec fn values_model(v: Seq<(String, Option<Value>)>) -> Seq<
    (Seq<char>, Option<ValueModel>),
> {
    v.map_values(|e: (String, Option<Value>)| (e.0@, opt_value_model(e.1)))
}

/// A value with every variable that is named in the shortcut table replaced
/// by the variable the table names.
pub open spec fn replaced(
    table: Map<Seq<char>, Seq<char>>,
    vars: Map<Seq<char>, VariableModel>,
    v: ValueModel,
) -> ValueModel
    decreases v,
{
    match v {
        ValueModel::Variable(var) => if table.contains_key(var.name) {
            ValueModel::Variable(Box::new(vars[table[var.name]]))
        } else {
            v
        },
        ValueModel::Expr(e) => ValueModel::Expr(
            Box::new(
                crate::ast::value::ExprModel {
                    op: e.op,
                    lhs: replaced(table, vars, e.lhs),
                    rhs: match e.rhs {
                        Some(r) => Some(replaced(table, vars, r)),
                        None => None,
                    },
                },
            ),
        ),
        _ => v,
    }
}

/// The dimension variables, in key order, with their values.
pub open spec fn dim_entries(keys: Seq<Seq<char>>, vars: Map<Seq<char>, VariableModel>) -> Seq<
    (Seq<char>, Option<ValueModel>),
>
    decreases keys.len(),
{
    if keys.len() == 0 {
        Seq::empty()
    } else {
        let init = dim_entries(keys.drop_last(), vars);
        let k = keys.last();
        if vars[k].ty == Some(LetType::Dim) {
            init.push((k, vars[k].value))
        } else {
            init
        }
    }
}

/// A variable with its value taken out if it is a dimension.
pub open spec fn unloaded(v: VariableModel) -> VariableModel {
    if v.ty == Some(LetType::Dim) {
        with_value(v, None)
    } else {
        v
    }
}

/// The variables after giving each of the values, in order, to its
/// variable where that variable has none.
pub open spec fn load_weakly(
    vars: Map<Seq<char>, VariableModel>,
    entries: Seq<(Seq<char>, Option<ValueModel>)>,
) -> Map<Seq<char>, VariableModel>
    decreases entries.len(),
{
    if entries.len() == 0 {
        vars
    } else {
        let m = load_weakly(vars, entries.drop_last());
        let (k, v) = entries.last();
        if m[k].value is None {
            m.insert(k, with_value(m[k], v))
        } else {
            m
        }
    }
}

/// The variable a declaration gives in the graph `id`.
pub open spec fn let_model(id: u64, l: NodeLet) -> VariableModel {
    VariableModel {
        id: Some(id),
        id_old: Some(id),
        name: l.name@,
        shortcut: str_opt(l.shortcut),
        ty: Some(l.ty),
        value: opt_value_model(l.value),
    }
}

/// The variables that the declarations give, by key; a later key wins.
pub open spec fn lets_model(id: u64, lets: Seq<(String, NodeLet)>) -> Map<Seq<char>, VariableModel>
    decreases lets.len(),
{
    if lets.len() == 0 {
        Map::empty()
    } else {
        lets_model(id, lets.drop_last()).insert(lets.last().0@, let_model(id, lets.last().1))
    }
}

/// Whether a declaration declares a node.
pub open spec fn declares_node(l: NodeLet) -> bool {
    l.ty is Node
}

/// The label table of the variables.
pub fn to_shortcuts(variables: &Variables) -> (r: StrMap<String>)
    requires
        variables.wf(),
    ensures
        r.wf(),
        r.as_map().map_values(|s: String| s@) == label_table(
            variables.key_seq(),
            var_models(*variables),
        ),
{
    let mut r: StrMap<String> = StrMap::new();
    let n = variables.len();
    let mut i: usize = 0;
    let ghost vars = var_models(*variables);
    proof {
        assert(r.as_map() =~= Map::empty());
        assert(variables.key_seq().take(0) =~= Seq::<Seq<char>>::empty());
        assert(r.as_map().map_values(|s: String| s@) =~= label_table(
            variables.key_seq().take(0),
            vars,
        ));
    }
    while i < n
        invariant
            n == variables.key_seq().len(),
            variables.wf(),
            vars == var_models(*variables),
            i <= n,
            r.wf(),
            r.as_map().map_values(|s: String| s@) == label_table(
                variables.key_seq().take(i as int),
                vars,
            ),
        decreases n - i,
    {
        let var = variables.value_at(i);
        let key = variables.key_at(i).clone();
        proof {
            variables.lemma_index(i as int);
        }
        let name = match &var.shortcut {
            Some(s) => s.clone(),
            None => var.name.clone(),
        };
        r.insert(name, key);
        proof {
            assert(variables.key_seq().take(i + 1).drop_last() =~= variables.key_seq().take(
                i as int,
            ));
            assert(variables.key_seq().take(i + 1).last() == variables.key_seq()[i as int]);
            assert(r.as_map().map_values(|s: String| s@) =~= label_table(
                variables.key_seq().take(i + 1),
                vars,
            ));
        }
        i = i + 1;
    }
    proof {
        assert(variables.key_seq().take(n as int) =~= variables.key_seq());
    }
    r
}

/// Gives `value` to the variable with key `key`.
pub(crate) fn set_var_value(variables: &mut Variables, key: &str, value: Option<Value>)
    requires
        old(variables).wf(),
        var_models(*old(variables)).contains_key(key@),
    ensures
        final(variables).wf(),
        final(variables).key_seq() == old(variables).key_seq(),
        var_models(*final(variables)) == var_models(*old(variables)).insert(
            key@,
            with_value(var_models(*old(variables))[key@], opt_value_model(value)),
        ),
{
    let i = variables.find(key).unwrap();
    let mut var = variables.value_at(i).deep_clone();
    var.value = value;
    proof {
        variables.lemma_index(i as int);
        assert(var@ == with_value(variables.val_seq()[i as int]@, opt_value_model(value)));
    }
    let ghost old_vars = *variables;
    let ghost gvar = var;
    variables.set_value_at(i, var);
    proof {
        variables.lemma_len();
        old_vars.lemma_len();
        assert forall|k: Seq<char>| #[trigger] variables.as_map().contains_key(k)
            == old_vars.as_map().contains_key(k) by {}
        assert forall|k: Seq<char>| #[trigger]
            variables.as_map().contains_key(k) && k != key@ implies variables.as_map()[k]
            == old_vars.as_map()[k] by {
            let j = crate::builder::strmap::key_index(variables.key_seq(), k);
            assert(variables.key_seq().contains(k));
            assert(0 <= j < variables.key_seq().len() && variables.key_seq()[j] == k);
            assert(j != i);
            variables.lemma_index(j);
            old_vars.lemma_index(j);
            assert(variables.val_seq()[j] == old_vars.val_seq()[j]);
        }
        variables.lemma_index(i as int);
        assert(variables.as_map()[key@] == gvar);
        assert forall|k: Seq<char>| #[trigger] var_models(*variables).contains_key(k) implies var_models(*variables)[k]
            == var_models(old_vars).insert(
            key@,
            with_value(var_models(old_vars)[key@], opt_value_model(value)),
        )[k] by {
            if k != key@ {
                assert(variables.as_map()[k] == old_vars.as_map()[k]);
            }
        }
        assert(var_models(*variables) =~= var_models(old_vars).insert(
            key@,
            with_value(var_models(old_vars)[key@], opt_value_model(value)),
        ));
    }
}

/// The error that no variable is named `name`, with the keys in order.
pub open spec fn no_such_variable(e: Error, name: Seq<char>, keys: Seq<Seq<char>>) -> bool {
    e matches Error::GraphError(GraphError::NoSuchVariable { name: n, candidates }) && n@ == name
        && strs(candidates@) == keys
}

impl Graph {
    /// The variables and the shortcut table are maps with ascending keys,
    /// and each shortcut names a variable.
    pub closed spec fn wf(&self) -> bool {
        &&& self.shortcuts.wf()
        &&& self.variables.wf()
        &&& forall|k: Seq<char>| #[trigger]
            self.shortcuts.as_map().contains_key(k) ==> self.variables.as_map().contains_key(
                self.shortcuts.as_map()[k]@,
            )
    }

    /// The id of the graph.
    pub closed spec fn gid(&self) -> u64 {
        self.id
    }

    /// The names of the variables, in ascending order.
    pub closed spec fn var_keys(&self) -> Seq<Seq<char>> {
        self.variables.key_seq()
    }

    /// The variables by name.
    pub closed spec fn vars(&self) -> Map<Seq<char>, VariableModel> {
        var_models(self.variables)
    }

    /// The shortcut table: from a label to the name of its variable.
    pub closed spec fn table(&self) -> Map<Seq<char>, Seq<char>> {
        self.shortcuts.as_map().map_values(|s: String| s@)
    }

    /// The labels of the shortcut table, in ascending order.
    pub closed spec fn table_keys(&self) -> Seq<Seq<char>> {
        self.shortcuts.key_seq()
    }

    proof fn lemma_var_keys(&self)
        requires
            self.wf(),
        ensures
            forall|k: Seq<char>| self.vars().contains_key(k) <==> self.var_keys().contains(k),
            forall|k: Seq<char>|
                self.table().contains_key(k) ==> #[trigger] self.vars().contains_key(
                    self.table()[k],
                ),
    {
    }

    /// A graph with no variable.
    pub fn with_id(id: u64) -> (r: Self)
        ensures
            r.wf(),
            r.gid() == id,
            r.vars() == Map::<Seq<char>, VariableModel>::empty(),
            r.var_keys() == Seq::<Seq<char>>::empty(),
            r.table() == Map::<Seq<char>, Seq<char>>::empty(),
    {
        let r = Self { id, shortcuts: StrMap::new(), variables: StrMap::new() };
        proof {
            assert(r.vars() =~= Map::<Seq<char>, VariableModel>::empty());
            assert(r.table() =~= Map::<Seq<char>, Seq<char>>::empty());
        }
        r
    }

    /// A graph with no variable and a fresh id.
    pub fn new(seed: &mut Seed) -> (r: Self)
        requires
            old(seed).next() < u64::MAX,
        ensures
            r.wf(),
            r.gid() == old(seed).next(),
            final(seed).next() == old(seed).next() + 1,
            r.vars() == Map::<Seq<char>, VariableModel>::empty(),
            r.var_keys() == Seq::<Seq<char>>::empty(),
            r.table() == Map::<Seq<char>, Seq<char>>::empty(),
    {
        Self::with_id(seed.generate())
    }

    /// A graph with a fresh id and one variable.
    pub fn with_one_var(seed: &mut Seed, name: &str, value: Option<Value>) -> (r: Self)
        requires
            old(seed).next() < u64::MAX,
        ensures
            r.wf(),
            r.gid() == old(seed).next(),
            final(seed).next() == old(seed).next() + 1,
            r.vars() == Map::<Seq<char>, VariableModel>::empty().insert(
                name@,
                VariableModel {
                    id: Some(r.gid()),
                    id_old: Some(r.gid()),
                    name: name@,
                    shortcut: None,
                    ty: None,
                    value: opt_value_model(value),
                },
            ),
            r.var_keys() == seq![name@],
            r.table() == Map::<Seq<char>, Seq<char>>::empty(),
    {
        let mut graph = Self::new(seed);
        let mut var = Variable::with_name_value(String::from_str(name), value);
        var.id = Some(graph.id);
        var.id_old = Some(graph.id);
        let ghost m = var@;
        let res = graph.add(var);
        proof {
            assert(graph.vars() =~= Map::<Seq<char>, VariableModel>::empty().insert(name@, m));
            if graph.var_keys().len() != 1 || graph.var_keys()[0] != name@ {
                graph.lemma_var_keys();
                graph.variables.lemma_len();
                if graph.var_keys().len() == 0 {
                    assert(graph.vars().contains_key(name@));
                    assert(graph.var_keys().contains(name@));
                } else if graph.var_keys().len() > 1 {
                    assert(graph.vars().contains_key(graph.var_keys()[0]));
                    assert(graph.vars().contains_key(graph.var_keys()[1]));
                    crate::builder::strmap::lemma_str_lt_irreflexive(graph.var_keys()[0]);
                } else {
                    assert(graph.vars().contains_key(graph.var_keys()[0]));
                }
            }
            assert(graph.var_keys() =~= seq![name@]);
        }
        graph
    }

    /// Adds a variable, owned by this graph from now on; a name can be added
    /// once.
    pub fn add(&mut self, variable: Variable) -> (r: Result<()>)
        requires
            old(self).wf(),
        ensures
            final(self).wf(),
            final(self).gid() == old(self).gid(),
            final(self).table() == old(self).table(),
            final(self).table_keys() == old(self).table_keys(),
            old(self).vars().contains_key(variable.name@) ==> (r matches Err(
                Error::GraphError(GraphError::DuplicatedVariable { name }),
            ) && name@ == variable.name@ && final(self).vars() == old(self).vars()
                && final(self).var_keys() == old(self).var_keys()),
            !old(self).vars().contains_key(variable.name@) ==> (r is Ok && final(self).vars()
                == old(self).vars().insert(
                variable.name@,
                VariableModel { id: Some(old(self).gid()), id_old: Some(old(self).gid()), ..variable@ },
            )),
    {
        let mut var = variable;
        let name = var.name.clone();
        if self.variables.find(name.as_str()).is_some() {
            return Err(Error::GraphError(GraphError::DuplicatedVariable { name }));
        }
        var.id = Some(self.id);
        var.id_old = Some(self.id);
        let ghost old_map = self.variables.as_map();
        self.variables.insert(name, var);
        proof {
            assert(self.vars() =~= old(self).vars().insert(
                variable.name@,
                VariableModel { id: Some(old(self).gid()), id_old: Some(old(self).gid()), ..variable@ },
            ));
        }
        Ok(())
    }

    /// The variable named `name`.
    pub fn get(&self, name: &str) -> (r: Result<&Variable>)
        requires
            self.wf(),
        ensures
            r is Ok <==> self.vars().contains_key(name@),
            r matches Ok(v) ==> v@ == self.vars()[name@],
            r is Err ==> no_such_variable(r->Err_0, name@, self.var_keys()),
    {
        match self.variables.get(name) {
            Some(v) => Ok(v),
            None => Err(
                Error::GraphError(
                    GraphError::NoSuchVariable {
                        name: String::from_str(name),
                        candidates: self.variables.keys(),
                    },
                ),
            ),
        }
    }

    /// Gives `value` to the variable with key `key`.
    fn set_value(&mut self, key: &str, value: Option<Value>)
        requires
            old(self).wf(),
            old(self).vars().contains_key(key@),
        ensures
            final(self).wf(),
            final(self).gid() == old(self).gid(),
            final(self).table() == old(self).table(),
            final(self).table_keys() == old(self).table_keys(),
            final(self).var_keys() == old(self).var_keys(),
            final(self).vars() == old(self).vars().insert(
                key@,
                with_value(old(self).vars()[key@], opt_value_model(value)),
            ),
    {
        set_var_value(&mut self.variables, key, value);
    }

    /// Gives each of the values, in order, to the variable its name reaches:
    /// through the shortcut table when `shortcut`, else directly. Stops at
    /// the first name that reaches no variable, with the values before it
    /// given.
    pub fn apply(&mut self, variables: Values, shortcut: bool) -> (r: Result<()>)
        requires
            old(self).wf(),
        ensures
            final(self).wf(),
            final(self).gid() == old(self).gid(),
            final(self).table() == old(self).table(),
            final(self).table_keys() == old(self).table_keys(),
            final(self).var_keys() == old(self).var_keys(),
            final(self).vars() == apply_all(
                old(self).vars(),
                old(self).table(),
                shortcut,
                values_model(variables@),
            ).0,
            r is Ok <==> apply_all(
                old(self).vars(),
                old(self).table(),
                shortcut,
                values_model(variables@),
            ).1 is None,
            r is Err ==> no_such_variable(
                r->Err_0,
                values_model(variables@)[apply_all(
                    old(self).vars(),
                    old(self).table(),
                    shortcut,
                    values_model(variables@),
                ).1->0].0,
                if shortcut {
                    old(self).table_keys()
                } else {
                    old(self).var_keys()
                },
            ),
    {
        let ghost entries = values_model(variables@);
        let mut rest = variables;
        let n = rest.len();
        let mut i: usize = 0;
        proof {
            assert(entries.take(0) =~= Seq::<(Seq<char>, Option<ValueModel>)>::empty());
            assert(rest@ =~= variables@.skip(0));
        }
        while i < n
            invariant
                n == variables@.len(),
                i <= n,
                rest@ == variables@.skip(i as int),
                entries == values_model(variables@),
                self.wf(),
                self.gid() == old(self).gid(),
                self.table() == old(self).table(),
                self.table_keys() == old(self).table_keys(),
                self.var_keys() == old(self).var_keys(),
                apply_all(old(self).vars(), old(self).table(), shortcut, entries.take(i as int))
                    == (self.vars(), None::<int>),
            decreases n - i,
        {
            let (name, value) = rest.remove(0);
            proof {
                assert(variables@[i as int] == (name, value));
                assert(entries.take(i + 1).drop_last() =~= entries.take(i as int));
                assert(entries[i as int] == (name@, opt_value_model(value)));
            }
            let key = if shortcut {
                match self.shortcuts.get(name.as_str()) {
                    Some(k) => Some(k.clone()),
                    None => None,
                }
            } else {
                match self.variables.get(name.as_str()) {
                    Some(_) => Some(name.clone()),
                    None => None,
                }
            };
            match key {
                Some(k) => {
                    self.set_value(k.as_str(), value);
                },
                None => {
                    proof {
                        assert(entries.take(i + 1)[i as int] == entries[i as int]);
                        assert(apply_all(
                            old(self).vars(),
                            old(self).table(),
                            shortcut,
                            entries.take(i + 1),
                        ).1 == Some(i as int));
                        lemma_apply_stops(
                            old(self).vars(),
                            old(self).table(),
                            shortcut,
                            entries,
                            i as int + 1,
                        );
                        assert(entries.take(n as int) =~= entries);
                    }
                    let candidates = if shortcut {
                        self.shortcuts.keys()
                    } else {
                        self.variables.keys()
                    };
                    return Err(
                        Error::GraphError(GraphError::NoSuchVariable { name, candidates }),
                    );
                },
            }
            i = i + 1;
        }
        proof {
            assert(entries.take(n as int) =~= entries);
        }
        Ok(())
    }

    /// The value with every variable named in the shortcut table replaced
    /// by the variable of this graph that the table names.
    pub fn replace_to(&self, variable: Option<Value>) -> (r: Result<Option<Value>>)
        requires
            self.wf(),
        ensures
            r matches Ok(v) && opt_value_model(v) == match opt_value_model(variable) {
                Some(x) => Some(replaced(self.table(), self.vars(), x)),
                None => None,
            },
    {
        match variable {
            Some(v) => Ok(Some(self.replace_value(v))),
            None => Ok(None),
        }
    }

    fn replace_value(&self, variable: Value) -> (r: Value)
        requires
            self.wf(),
        ensures
            r@ == replaced(self.table(), self.vars(), variable@),
        decreases variable,
    {
        match variable {
            Value::Variable(var) => {
                match self.shortcuts.get(var.0.name.as_str()) {
                    Some(key) => {
                        proof {
                            assert(self.table().contains_key(var.0.name@));
                            assert(self.variables.as_map().contains_key(key@));
                        }
                        let target = self.variables.get(key.as_str()).unwrap();
                        let r = Value::Variable(RefVariable(Box::new(target.deep_clone())));
                        proof {
                            assert(self.table()[var.0.name@] == key@);
                            assert(self.vars()[key@] == target@);
                            assert(r@ == ValueModel::Variable(Box::new(target@)));
                        }
                        r
                    },
                    None => Value::Variable(var),
                }
            },
            Value::Expr(expr) => {
                let ghost orig = *expr;
                let Expr { op, lhs, rhs } = *expr;
                let lhs = self.replace_value(lhs);
                let rhs = match rhs {
                    Some(x) => {
                        let y = self.replace_value(x);
                        proof {
                            assert(opt_value_model(Some(x)) == Some(value_model(x)));
                            assert(opt_value_model(Some(y)) == Some(value_model(y)));
                        }
                        Some(y)
                    },
                    None => None,
                };
                let e = Expr { op, lhs, rhs };
                proof {
                    assert(crate::ast::value::expr_model(e).rhs == opt_value_model(e.rhs));
                    assert(crate::ast::value::expr_model(orig).rhs == opt_value_model(orig.rhs));
                }
                Value::Expr(Box::new(e))
            },
            _ => variable,
        }
    }

    /// Takes the values out of the dimension variables; returns them, in
    /// key order.
    pub fn unload_dims(&mut self) -> (r: Values)
        requires
            old(self).wf(),
        ensures
            final(self).wf(),
            final(self).gid() == old(self).gid(),
            final(self).table() == old(self).table(),
            final(self).table_keys() == old(self).table_keys(),
            final(self).var_keys() == old(self).var_keys(),
            final(self).vars() == old(self).vars().map_values(|v: VariableModel| unloaded(v)),
            values_model(r@) == dim_entries(old(self).var_keys(), old(self).vars()),
    {
        let mut out: Values = Vec::new();
        let n = self.variables.len();
        let mut i: usize = 0;
        proof {
            assert(values_model(out@) =~= dim_entries(
                old(self).var_keys().take(0),
                old(self).vars(),
            ));
        }
        while i < n
            invariant
                n == self.var_keys().len(),
                i <= n,
                self.wf(),
                self.gid() == old(self).gid(),
                self.table() == old(self).table(),
                self.table_keys() == old(self).table_keys(),
                self.var_keys() == old(self).var_keys(),
                forall|k: Seq<char>| #[trigger]
                    self.vars().contains_key(k) == old(self).vars().contains_key(k),
                forall|j: int|
                    0 <= j < n ==> #[trigger] self.vars()[self.var_keys()[j]] == if j < i {
                        unloaded(old(self).vars()[self.var_keys()[j]])
                    } else {
                        old(self).vars()[self.var_keys()[j]]
                    },
                values_model(out@) == dim_entries(
                    old(self).var_keys().take(i as int),
                    old(self).vars(),
                ),
            decreases n - i,
        {
            proof {
                self.variables.lemma_index(i as int);
                old(self).variables.lemma_index(i as int);
            }
            let is_dim = match &self.variables.value_at(i).ty {
                Some(LetType::Dim) => true,
                _ => false,
            };
            let ghost k = self.var_keys()[i as int];
            proof {
                assert(self.vars()[k].ty == self.variables.val_seq()[i as int].ty);
                assert(is_dim == (old(self).vars()[k].ty == Some(LetType::Dim)));
                assert(old(self).var_keys().take(i + 1).last() == k);
                assert(old(self).var_keys().take(i + 1).drop_last() =~= old(self).var_keys().take(
                    i as int,
                ));
            }
            if is_dim {
                let key = self.variables.key_at(i).clone();
                let value = clone_opt_value(&self.variables.value_at(i).value);
                let ghost before = self.vars();
                self.set_value(key.as_str(), None);
                let ghost out_before = out@;
                out.push((key, value));
                proof {
                    assert(values_model(out@) =~= values_model(out_before).push(
                        (k, old(self).vars()[k].value),
                    ));
                    assert forall|j: int| 0 <= j < n implies #[trigger] self.vars()[self.var_keys()[j]]
                        == if j < i + 1 {
                        unloaded(old(self).vars()[self.var_keys()[j]])
                    } else {
                        old(self).vars()[self.var_keys()[j]]
                    } by {
                        if j != i {
                            self.variables.lemma_index(j);
                            if self.var_keys()[j] == k {
                                if j < i {
                                    assert(crate::builder::strmap::str_lt(
                                        self.var_keys()[j],
                                        self.var_keys()[i as int],
                                    ));
                                } else {
                                    assert(crate::builder::strmap::str_lt(
                                        self.var_keys()[i as int],
                                        self.var_keys()[j],
                                    ));
                                }
                                crate::builder::strmap::lemma_str_lt_irreflexive(k);
                            }
                        }
                    }
                }
            }
            i = i + 1;
        }
        proof {
            assert(old(self).var_keys().take(n as int) =~= old(self).var_keys());
            assert forall|k: Seq<char>| #[trigger] self.vars().contains_key(k) implies self.vars()[k]
                == unloaded(old(self).vars()[k]) by {
                let j = crate::builder::strmap::key_index(self.variables.key_seq(), k);
                self.variables.lemma_index(j);
            }
            assert(self.vars() =~= old(self).vars().map_values(|v: VariableModel| unloaded(v)));
        }
        out
    }

    /// Gives each of the values, in order, to its variable where that
    /// variable has no value.
    pub fn load_dims_weakly(&mut self, values: Values)
        requires
            old(self).wf(),
            forall|i: int|
                0 <= i < values@.len() ==> old(self).vars().contains_key(
                    #[trigger] values@[i].0@,
                ),
        ensures
            final(self).wf(),
            final(self).gid() == old(self).gid(),
            final(self).table() == old(self).table(),
            final(self).table_keys() == old(self).table_keys(),
            final(self).var_keys() == old(self).var_keys(),
            final(self).vars() == load_weakly(old(self).vars(), values_model(values@)),
    {
        let ghost entries = values_model(values@);
        let mut rest = values;
        let n = rest.len();
        let mut i: usize = 0;
        proof {
            assert(entries.take(0) =~= Seq::<(Seq<char>, Option<ValueModel>)>::empty());
            assert(rest@ =~= values@.skip(0));
        }
        while i < n
            invariant
                n == values@.len(),
                i <= n,
                rest@ == values@.skip(i as int),
                entries == values_model(values@),
                forall|j: int|
                    0 <= j < values@.len() ==> old(self).vars().contains_key(
                        #[trigger] values@[j].0@,
                    ),
                self.wf(),
                self.gid() == old(self).gid(),
                self.table() == old(self).table(),
                self.table_keys() == old(self).table_keys(),
                self.var_keys() == old(self).var_keys(),
                forall|k: Seq<char>| #[trigger]
                    self.vars().contains_key(k) == old(self).vars().contains_key(k),
                self.vars() == load_weakly(old(self).vars(), entries.take(i as int)),
            decreases n - i,
        {
            let (name, value) = rest.remove(0);
            proof {
                assert(values@[i as int] == (name, value));
                assert(entries.take(i + 1).drop_last() =~= entries.take(i as int));
                assert(entries[i as int] == (name@, opt_value_model(value)));
                assert(old(self).vars().contains_key(values@[i as int].0@));
            }
            let is_empty = match self.variables.get(name.as_str()) {
                Some(var) => var.value.is_none(),
                None => false,
            };
            if is_empty {
                self.set_value(name.as_str(), value);
            }
            i = i + 1;
        }
        proof {
            assert(entries.take(n as int) =~= entries);
        }
    }

    /// Builds the shortcut table from the variables.
    fn build(&mut self) -> (r: Result<()>)
        requires
            old(self).variables.wf(),
        ensures
            r is Ok,
            final(self).wf(),
            final(self).gid() == old(self).gid(),
            final(self).vars() == old(self).vars(),
            final(self).var_keys() == old(self).var_keys(),
            final(self).table() == label_table(old(self).var_keys(), old(self).vars()),
    {
        self.shortcuts = to_shortcuts(&self.variables);
        proof {
            lemma_label_table_targets(self.var_keys(), self.vars());
            assert forall|k: Seq<char>| #[trigger]
                self.shortcuts.as_map().contains_key(k) implies self.variables.as_map().contains_key(
                self.shortcuts.as_map()[k]@,
            ) by {
                assert(self.table().contains_key(k));
                assert(self.table()[k] == self.shortcuts.as_map()[k]@);
                let t = self.table()[k];
                let j = choose|j: int| 0 <= j < self.var_keys().len() && self.var_keys()[j] == t;
                self.variables.lemma_index(j);
            }
        }
        Ok(())
    }

    /// A graph of the given variables.
    pub fn with_variables(id: u64, variables: Variables) -> (r: Self)
        requires
            variables.wf(),
        ensures
            r.wf(),
            r.gid() == id,
            r.vars() == var_models(variables),
            r.var_keys() == variables.key_seq(),
            r.table() == label_table(variables.key_seq(), var_models(variables)),
    {
        let mut graph = Graph { id, shortcuts: StrMap::new(), variables };
        let _ = graph.build();
        graph
    }

    /// A graph of the declared variables, each owned by the graph `id`. Node
    /// variables are refused unless the graph is an executable's.
    pub fn try_with_variables(id: u64, variables: Vec<(String, NodeLet)>, is_exec: bool) -> (r:
        Result<Self>)
        ensures
            (!is_exec && exists|i: int|
                0 <= i < variables@.len() && declares_node(#[trigger] variables@[i].1)) ==> (
            r matches Err(Error::GraphError(GraphError::UnexpectedNodeVariable { name }))
                && exists|i: int|
                0 <= i < variables@.len() && declares_node(variables@[i].1) && name@
                    == variables@[i].0@ && forall|j: int|
                    0 <= j < i ==> !declares_node(#[trigger] variables@[j].1)),
            (is_exec || forall|i: int|
                0 <= i < variables@.len() ==> !declares_node(#[trigger] variables@[i].1)) ==> (
            r matches Ok(g) && g.wf() && g.gid() == id && g.vars() == lets_model(id, variables@)
                && g.table() == label_table(g.var_keys(), g.vars())),
    {
        let mut map: Variables = StrMap::new();
        let mut rest = variables;
        let n = rest.len();
        let mut i: usize = 0;
        proof {
            assert(var_models(map) =~= lets_model(id, variables@.take(0)));
            assert(rest@ =~= variables@.skip(0));
        }
        while i < n
            invariant
                n == variables@.len(),
                i <= n,
                rest@ == variables@.skip(i as int),
                map.wf(),
                var_models(map) == lets_model(id, variables@.take(i as int)),
                !is_exec ==> forall|j: int| 0 <= j < i ==> !declares_node(#[trigger] variables@[j].1),
            decreases n - i,
        {
            let (k, v) = rest.remove(0);
            proof {
                assert(variables@[i as int] == (k, v));
            }
            if !is_exec && v.ty.is_node() {
                return Err(Error::GraphError(GraphError::UnexpectedNodeVariable { name: k }));
            }
            let ghost gk = k@;
            let ghost gv = v;
            let var = Variable {
                id: Some(id),
                id_old: Some(id),
                name: v.name,
                shortcut: v.shortcut,
                ty: Some(v.ty),
                value: v.value,
            };
            proof {
                assert(var@ == let_model(id, gv));
            }
            map.insert(k, var);
            proof {
                assert(variables@.take(i + 1).drop_last() =~= variables@.take(i as int));
                assert(variables@.take(i + 1).last().0@ == gk && variables@.take(i + 1).last().1 == gv);
                assert(var_models(map) =~= lets_model(id, variables@.take(i + 1)));
            }
            i = i + 1;
        }
        proof {
            assert(variables@.take(n as int) =~= variables@);
        }
        let mut graph = Graph { id, shortcuts: StrMap::new(), variables: map };
        let _ = graph.build();
        Ok(graph)
    }

    /// The variables.
    pub fn variables(&self) -> (r: &Variables)
        ensures
            var_models(*r) == self.vars(),
            r.key_seq() == self.var_keys(),
    {
        &self.variables
    }

    /// The variables, taking the graph apart.
    pub fn into_variables(self) -> (r: Variables)
        ensures
            var_models(r) == self.vars(),
            r.key_seq() == self.var_keys(),
    {
        self.variables
    }

    /// The table of the variables, taking the graph apart.
    pub fn into_table(self) -> (r: Table)
        ensures
            r.id == self.gid(),
            var_models(r.variables) == self.vars(),
            r.variables.key_seq() == self.var_keys(),
    {
        Table { id: self.id, variables: self.variables }
    }
}

/// Once a name reaches no variable, applying stops there.
proof fn lemma_apply_stops(
    vars: Map<Seq<char>, VariableModel>,
    table: Map<Seq<char>, Seq<char>>,
    shortcut: bool,
    entries: Seq<(Seq<char>, Option<ValueModel>)>,
    m: int,
)
    requires
        0 < m <= entries.len(),
        apply_all(vars, table, shortcut, entries.take(m)).1 is Some,
    ensures
        apply_all(vars, table, shortcut, entries) == apply_all(
            vars,
            table,
            shortcut,
            entries.take(m),
        ),
    decreases entries.len() - m,
{
    if m < entries.len() {
        assert(entries.take(m + 1).drop_last() =~= entries.take(m));
        lemma_apply_stops(vars, table, shortcut, entries, m + 1);
    } else {
        assert(entries.take(m) =~= entries);
    }
}

/// The variables after reloading the dimensions of `keys` into the
/// unloaded variables: each dimension among `keys` has its value back.
pub open spec fn reloaded_at(
    keys: Seq<Seq<char>>,
    vars: Map<Seq<char>, VariableModel>,
    k: Seq<char>,
) -> VariableModel {
    if keys.contains(k) && vars[k].ty == Some(LetType::Dim) {
        vars[k]
    } else {
        unloaded(vars[k])
    }
}

proof fn lemma_reload_prefix(keys: Seq<Seq<char>>, vars: Map<Seq<char>, VariableModel>)
    requires
        keys.no_duplicates(),
        forall|i: int| 0 <= i < keys.len() ==> vars.contains_key(#[trigger] keys[i]),
    ensures
        load_weakly(vars.map_values(|v: VariableModel| unloaded(v)), dim_entries(keys, vars)).dom()
            == vars.dom(),
        forall|k: Seq<char>| #[trigger]
            vars.contains_key(k) ==> load_weakly(
                vars.map_values(|v: VariableModel| unloaded(v)),
                dim_entries(keys, vars),
            )[k] == reloaded_at(keys, vars, k),
    decreases keys.len(),
{
    let u = vars.map_values(|v: VariableModel| unloaded(v));
    if keys.len() == 0 {
        assert(dim_entries(keys, vars) =~= Seq::<(Seq<char>, Option<ValueModel>)>::empty());
        assert(u.dom() =~= vars.dom());
    } else {
        let init = keys.drop_last();
        let last = keys.last();
        assert forall|i: int| 0 <= i < init.len() implies vars.contains_key(#[trigger] init[i]) by {
            assert(init[i] == keys[i]);
        }
        assert(init.no_duplicates()) by {
            assert forall|i: int, j: int| 0 <= i < j < init.len() implies init[i] != init[j] by {
                assert(init[i] == keys[i] && init[j] == keys[j]);
            }
        }
        lemma_reload_prefix(init, vars);
        assert(vars.contains_key(keys[keys.len() - 1]));
        assert(!init.contains(last)) by {
            if init.contains(last) {
                let i = choose|i: int| 0 <= i < init.len() && init[i] == last;
                assert(keys[i] == keys[keys.len() - 1]);
            }
        }
        let prev = load_weakly(u, dim_entries(init, vars));
        assert forall|k: Seq<char>| #[trigger] keys.contains(k) == (init.contains(k) || k == last) by {
            if keys.contains(k) {
                let i = choose|i: int| 0 <= i < keys.len() && keys[i] == k;
                if i < keys.len() - 1 {
                    assert(init[i] == k);
                }
            }
            if init.contains(k) {
                let i = choose|i: int| 0 <= i < init.len() && init[i] == k;
                assert(keys[i] == k);
            }
            if k == last {
                assert(keys[keys.len() - 1] == k);
            }
        }
        if vars[last].ty == Some(LetType::Dim) {
            let entries = dim_entries(keys, vars);
            assert(entries == dim_entries(init, vars).push((last, vars[last].value)));
            assert(entries.drop_last() =~= dim_entries(init, vars));
            assert(prev[last] == unloaded(vars[last]));
            assert(prev[last].value is None);
            assert(with_value(prev[last], vars[last].value) == vars[last]);
        } else {
            assert(dim_entries(keys, vars) == dim_entries(init, vars));
        }
    }
}

/// Reloading the values of the dimensions that were unloaded gives the
/// variables back: [`Graph::unload_dims`] and then
/// [`Graph::load_dims_weakly`] with what it returned leave the variables as
/// they were.
pub proof fn lemma_unload_then_reload(keys: Seq<Seq<char>>, vars: Map<Seq<char>, VariableModel>)
    requires
        keys.no_duplicates(),
        forall|k: Seq<char>| vars.contains_key(k) <==> keys.contains(k),
    ensures
        load_weakly(vars.map_values(|v: VariableModel| unloaded(v)), dim_entries(keys, vars)) == vars,
{
    assert forall|i: int| 0 <= i < keys.len() implies vars.contains_key(#[trigger] keys[i]) by {
        assert(keys.contains(keys[i]));
    }
    lemma_reload_prefix(keys, vars);
    let r = load_weakly(vars.map_values(|v: VariableModel| unloaded(v)), dim_entries(keys, vars));
    assert forall|k: Seq<char>| #[trigger] vars.contains_key(k) implies r[k] == vars[k] by {
        assert(keys.contains(k));
        if vars[k].ty != Some(LetType::Dim) {
            assert(unloaded(vars[k]) == vars[k]);
        }
    }
    assert(r =~= vars);
}

/// Each dimension entry names one of the keys.
proof fn lemma_dim_entries_keys(keys: Seq<Seq<char>>, vars: Map<Seq<char>, VariableModel>)
    ensures
        forall|i: int|
            0 <= i < dim_entries(keys, vars).len() ==> keys.contains(
                #[trigger] dim_entries(keys, vars)[i].0,
            ),
    decreases keys.len(),
{
    if keys.len() > 0 {
        let init = keys.drop_last();
        lemma_dim_entries_keys(init, vars);
        assert forall|i: int| 0 <= i < dim_entries(keys, vars).len() implies keys.contains(
            #[trigger] dim_entries(keys, vars)[i].0,
        ) by {
            if i < dim_entries(init, vars).len() {
                let k = dim_entries(init, vars)[i].0;
                assert(init.contains(k));
                let j = choose|j: int| 0 <= j < init.len() && init[j] == k;
                assert(keys[j] == k);
            } else {
                assert(keys[keys.len() - 1] == keys.last());
            }
        }
    }
}

impl Graph {
    /// Unloading the dimensions of a graph and then loading back, weakly,
    /// the values that were unloaded gives the variables back: the values
    /// name variables of the graph, and each variable has its value again.
    pub proof fn lemma_unload_reload(&self)
        requires
            self.wf(),
        ensures
            forall|i: int|
                0 <= i < dim_entries(self.var_keys(), self.vars()).len() ==> self.vars().contains_key(
                    #[trigger] dim_entries(self.var_keys(), self.vars())[i].0,
                ),
            load_weakly(
                self.vars().map_values(|v: VariableModel| unloaded(v)),
                dim_entries(self.var_keys(), self.vars()),
            ) == self.vars(),
    {
        self.lemma_var_keys();
        let keys = self.var_keys();
        assert(keys.no_duplicates()) by {
            assert forall|i: int, j: int| 0 <= i < keys.len() && 0 <= j < keys.len() && i != j implies keys[i]
                != keys[j] by {
                if i < j {
                    assert(str_lt(keys[i], keys[j]));
                } else {
                    assert(str_lt(keys[j], keys[i]));
                }
                lemma_str_lt_irreflexive(keys[i]);
            }
        }
        lemma_dim_entries_keys(keys, self.vars());
        lemma_unload_then_reload(keys, self.vars());
    }
}

/// Whether two sets of variables are equal: the same names, in order, and
/// equal variables under each.
pub open spec fn vars_equal(a: Variables, b: Variables) -> bool {
    &&& a.key_seq() == b.key_seq()
    &&& a.val_seq().len() == b.val_seq().len()
    &&& forall|i: int| 0 <= i < a.val_seq().len() ==> var_eq(#[trigger] a.val_seq()[i]@, b.val_seq()[i]@)
}

/// Whether two sets of variables are equal.
pub fn variables_eq(a: &Variables, b: &Variables) -> (r: bool)
    ensures
        r == vars_equal(*a, *b),
{
    proof {
        a.lemma_len();
        b.lemma_len();
    }
    if a.len() != b.len() {
        return false;
    }
    let n = a.len();
    let mut i: usize = 0;
    while i < n
        invariant
            n == a.key_seq().len() == b.key_seq().len() == a.val_seq().len() == b.val_seq().len(),
            i <= n,
            forall|k: int| 0 <= k < i ==> a.key_seq()[k] == b.key_seq()[k],
            forall|k: int| 0 <= k < i ==> var_eq(#[trigger] a.val_seq()[k]@, b.val_seq()[k]@),
        decreases n - i,
    {
        if !a.key_at(i).eq(b.key_at(i)) || !a.value_at(i).eq_variable(b.value_at(i)) {
            proof {
                assert(!vars_equal(*a, *b)) by {
                    if a.key_seq() == b.key_seq() {
                        assert(a.key_seq()[i as int] == b.key_seq()[i as int]);
                    }
                }
            }
            return false;
        }
        i = i + 1;
    }
    proof {
        assert(a.key_seq() =~= b.key_seq());
    }
    true
}

/// Whether two graphs have equal variables: the same names, and equal
/// variables under each.
pub open spec fn graphs_equal(a: Graph, b: Graph) -> bool {
    a.var_keys() == b.var_keys() && forall|k: Seq<char>|
        #[trigger] a.vars().contains_key(k) ==> var_eq(a.vars()[k], b.vars()[k])
}

impl Graph {
    /// Graphs are equal when their variables are; their ids are not
    /// compared.
    pub fn eq_graph(&self, other: &Self) -> (r: bool)
        requires
            self.wf(),
            other.wf(),
        ensures
            r == graphs_equal(*self, *other),
    {
        let r = variables_eq(&self.variables, &other.variables);
        proof {
            let a = self.variables;
            let b = other.variables;
            a.lemma_len();
            b.lemma_len();
            if r {
                assert forall|k: Seq<char>| #[trigger] self.vars().contains_key(k) implies var_eq(
                    self.vars()[k],
                    other.vars()[k],
                ) by {
                    let j = super::strmap::key_index(a.key_seq(), k);
                    a.lemma_index(j);
                    b.lemma_index(j);
                }
            } else if self.var_keys() == other.var_keys() && forall|k: Seq<char>|
                #[trigger] self.vars().contains_key(k) ==> var_eq(self.vars()[k], other.vars()[k]) {
                assert forall|i: int| 0 <= i < a.val_seq().len() implies var_eq(
                    #[trigger] a.val_seq()[i]@,
                    b.val_seq()[i]@,
                ) by {
                    a.lemma_index(i);
                    b.lemma_index(i);
                    assert(self.vars().contains_key(a.key_seq()[i]));
                }
                assert(vars_equal(a, b));
            }
        }
        r
    }
}

impl Table {
    /// Tables are equal when their variables are; their ids are not
    /// compared.
    pub fn eq_table(&self, other: &Self) -> (r: bool)
        ensures
            r == vars_equal(self.variables, other.variables),
    {
        variables_eq(&self.variables, &other.variables)
    }
}

/// The variables that stand as operands of a value's expressions, left to
/// right (a variable alone is its own operand).
pub open spec fn operand_vars(v: ValueModel) -> Seq<VariableModel>
    decreases v,
{
    match v {
        ValueModel::Variable(x) => seq![*x],
        ValueModel::Expr(e) => operand_vars(e.lhs) + match e.rhs {
            Some(r) => operand_vars(r),
            None => Seq::empty(),
        },
        _ => Seq::empty(),
    }
}

/// The variable that an operand variable becomes: the graph's variable
/// that its name reaches through the shortcut table, or itself.
pub open spec fn shortcut_target(
    table: Map<Seq<char>, Seq<char>>,
    vars: Map<Seq<char>, VariableModel>,
    x: VariableModel,
) -> VariableModel {
    if table.contains_key(x.name) {
        vars[table[x.name]]
    } else {
        x
    }
}

/// Replacing reaches every operand of a value's expressions, on both sides:
/// each operand variable that a shortcut names becomes the graph's variable
/// the shortcut reaches, every other stays, and none is added or lost.
pub proof fn lemma_replaced_operands(
    table: Map<Seq<char>, Seq<char>>,
    vars: Map<Seq<char>, VariableModel>,
    v: ValueModel,
)
    ensures
        operand_vars(replaced(table, vars, v)) == operand_vars(v).map_values(
            |x: VariableModel| shortcut_target(table, vars, x),
        ),
    decreases v,
{
    match v {
        ValueModel::Variable(x) => {
            assert(operand_vars(replaced(table, vars, v)) =~= operand_vars(v).map_values(
                |x: VariableModel| shortcut_target(table, vars, x),
            ));
        },
        ValueModel::Expr(e) => {
            lemma_replaced_operands(table, vars, e.lhs);
            match e.rhs {
                Some(r) => {
                    lemma_replaced_operands(table, vars, r);
                },
                None => {},
            }
            let f = |x: VariableModel| shortcut_target(table, vars, x);
            let l = operand_vars(e.lhs);
            let rr = match e.rhs {
                Some(r) => operand_vars(r),
                None => Seq::empty(),
            };
            assert((l + rr).map_values(f) =~= l.map_values(f) + rr.map_values(f));
            assert(operand_vars(replaced(table, vars, v)) =~= operand_vars(v).map_values(f));
        },
        _ => {
            assert(operand_vars(v).map_values(|x: VariableModel| shortcut_target(table, vars, x))
                =~= Seq::<VariableModel>::empty());
        },
    }
}

} // verus!
