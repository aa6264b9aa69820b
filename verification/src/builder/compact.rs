use vstd::prelude::*;

use std::collections::BTreeMap;

use super::graph::{set_var_value, values_model, var_models, with_value, Table, Values};
use crate::ast::graph_node::Outs;
use crate::ast::value::{clone_opt_value, opt_value_model, ValueModel, Variable, VariableModel};

verus! {

broadcast use {vstd::std_specs::vec::group_vec_axioms, vstd::std_specs::btree::group_btree_axioms};

/// The variables of graphs, by graph id and variable name.
pub type GraphVars = Map<u64, Map<Seq<char>, VariableModel>>;

/// The variables of the given tables.
pub open spec fn tables_vars(graphs: Map<u64, Table>) -> GraphVars {
    graphs.map_values(|t: Table| var_models(t.variables))
}

/// The graph variables after giving the value `v` to the variable `name`
/// of the graph `id`.
pub open spec fn set_in(m: GraphVars, id: u64, name: Seq<char>, v: Option<ValueModel>) -> GraphVars {
    m.insert(id, m[id].insert(name, with_value(m[id][name], v)))
}

/// The graph variables after giving each value, in order, to its variable
/// of the graph `id`.
pub open spec fn set_all_in(m: GraphVars, id: u64, vals: Seq<(Seq<char>, Option<ValueModel>)>) -> GraphVars
    decreases vals.len(),
{
    if vals.len() == 0 {
        m
    } else {
        set_in(set_all_in(m, id, vals.drop_last()), id, vals.last().0, vals.last().1)
    }
}

/// The model of values grouped by graph id.
pub open spec fn graph_values_model(v: Seq<(u64, Values)>) -> Seq<
    (u64, Seq<(Seq<char>, Option<ValueModel>)>),
> {
    v.map_values(|e: (u64, Values)| (e.0, values_model(e.1@)))
}

/// The graph variables after giving each group of values, in order, to the
/// variables of its graph.
pub open spec fn apply_graphs(m: GraphVars, entries: Seq<(u64, Seq<(Seq<char>, Option<ValueModel>)>)>) -> GraphVars
    decreases entries.len(),
{
    if entries.len() == 0 {
        m
    } else {
        set_all_in(
            apply_graphs(m, entries.drop_last()),
            entries.last().0,
            entries.last().1,
        )
    }
}

/// Whether each value of the group names a variable of a graph of `m`.
pub open spec fn group_known(m: GraphVars, id: u64, vals: Seq<(Seq<char>, Option<ValueModel>)>) -> bool {
    forall|j: int| 0 <= j < vals.len() ==> m.contains_key(id) && m[id].contains_key(#[trigger] vals[j].0)
}

/// Whether each group of values names a graph of `m` and only variables
/// of that graph.
pub open spec fn names_known(m: GraphVars, entries: Seq<(u64, Seq<(Seq<char>, Option<ValueModel>)>)>) -> bool {
    forall|i: int| 0 <= i < entries.len() ==> group_known(m, (#[trigger] entries[i]).0, entries[i].1)
}

proof fn lemma_set_all_in_domains(m: GraphVars, id: u64, vals: Seq<(Seq<char>, Option<ValueModel>)>)
    requires
        m.contains_key(id),
        forall|j: int| 0 <= j < vals.len() ==> m[id].contains_key(#[trigger] vals[j].0),
    ensures
        set_all_in(m, id, vals).dom() == m.dom(),
        forall|k: u64| #[trigger]
            m.contains_key(k) ==> set_all_in(m, id, vals)[k].dom() == m[k].dom(),
    decreases vals.len(),
{
    if vals.len() > 0 {
        let p = vals.drop_last();
        assert forall|j: int| 0 <= j < p.len() implies m[id].contains_key(#[trigger] p[j].0) by {
            assert(p[j] == vals[j]);
        }
        lemma_set_all_in_domains(m, id, p);
        let prev = set_all_in(m, id, p);
        assert(vals.last() == vals[vals.len() - 1]);
        assert(prev.insert(id, prev[id].insert(vals.last().0, with_value(prev[id][vals.last().0], vals.last().1))).dom() =~= m.dom());
        assert forall|k: u64| #[trigger] m.contains_key(k) implies set_all_in(m, id, vals)[k].dom()
            == m[k].dom() by {
            if k == id {
                assert(prev[id].insert(vals.last().0, with_value(prev[id][vals.last().0], vals.last().1)).dom() =~= m[id].dom());
            }
        }
    }
}

proof fn lemma_apply_graphs_domains(m: GraphVars, entries: Seq<(u64, Seq<(Seq<char>, Option<ValueModel>)>)>)
    requires
        names_known(m, entries),
    ensures
        apply_graphs(m, entries).dom() == m.dom(),
        forall|k: u64| #[trigger]
            m.contains_key(k) ==> apply_graphs(m, entries)[k].dom() == m[k].dom(),
    decreases entries.len(),
{
    if entries.len() > 0 {
        let p = entries.drop_last();
        assert forall|i: int| 0 <= i < p.len() implies group_known(m, (#[trigger] p[i]).0, p[i].1) by {
            assert(p[i] == entries[i]);
        }
        lemma_apply_graphs_domains(m, p);
        let last = entries.last();
        assert(last == entries[entries.len() - 1]);
        assert(group_known(m, last.0, last.1));
        if last.1.len() > 0 {
            assert(m[last.0].contains_key(last.1[0].0));
            assert forall|j: int| 0 <= j < last.1.len() implies apply_graphs(m, p)[last.0].contains_key(
                #[trigger] last.1[j].0,
            ) by {}
            lemma_set_all_in_domains(apply_graphs(m, p), last.0, last.1);
        }
    }
}

/// The graphs being rebuilt from their compact form, by id.
pub struct DecompactContext {
    graphs: BTreeMap<u64, Table>,
}

impl DecompactContext {
    /// Every graph holds a map of variables with ascending names.
    pub closed spec fn wf(&self) -> bool {
        forall|id: u64| #[trigger] self.graphs@.contains_key(id) ==> self.graphs@[id].variables.wf()
    }

    /// The graphs, by id.
    pub closed spec fn graphs(&self) -> Map<u64, Table> {
        self.graphs@
    }

    /// No graph yet.
    pub fn new() -> (r: Self)
        ensures
            r.wf(),
            r.graphs() == Map::<u64, Table>::empty(),
    {
        Self { graphs: BTreeMap::new() }
    }

    /// Keeps `graph` as the graph `id`, in place of any graph kept so.
    pub fn insert_graph(&mut self, id: u64, graph: Table)
        requires
            old(self).wf(),
            graph.variables.wf(),
        ensures
            final(self).wf(),
            final(self).graphs() == old(self).graphs().insert(id, graph),
    {
        self.graphs.insert(id, graph);
    }

    /// The graph `id`.
    pub fn get_graph(&self, id: u64) -> (r: &Table)
        requires
            self.graphs().contains_key(id),
        ensures
            *r == self.graphs()[id],
    {
        self.graphs.get(&id).unwrap()
    }

    /// A copy of the variable `name` of the graph `id`.
    pub fn get_variable(&self, id: u64, name: &str) -> (r: Variable)
        requires
            self.wf(),
            self.graphs().contains_key(id),
            var_models(self.graphs()[id].variables).contains_key(name@),
        ensures
            r@ == var_models(self.graphs()[id].variables)[name@],
    {
        let table = self.get_graph(id);
        table.variables.get(name).unwrap().deep_clone()
    }

    /// Gives each value, in order, to the variable it names in the graph its
    /// group names.
    pub fn apply_variables(&mut self, variables: Vec<(u64, Values)>)
        requires
            old(self).wf(),
            names_known(tables_vars(old(self).graphs()), graph_values_model(variables@)),
        ensures
            final(self).wf(),
            final(self).graphs().dom() == old(self).graphs().dom(),
            tables_vars(final(self).graphs()) == apply_graphs(
                tables_vars(old(self).graphs()),
                graph_values_model(variables@),
            ),
    {
        let ghost m0 = tables_vars(self.graphs@);
        let ghost entries = graph_values_model(variables@);
        let mut i: usize = 0;
        proof {
            assert(entries.take(0) =~= Seq::<(u64, Seq<(Seq<char>, Option<ValueModel>)>)>::empty());
        }
        while i < variables.len()
            invariant
                i <= variables@.len(),
                entries == graph_values_model(variables@),
                names_known(m0, entries),
                self.wf(),
                self.graphs@.dom() == m0.dom(),
                tables_vars(self.graphs@) == apply_graphs(m0, entries.take(i as int)),
            decreases variables@.len() - i,
        {
            let id = variables[i].0;
            let vals = &variables[i].1;
            let ghost before = tables_vars(self.graphs@);
            let ghost vm = values_model(vals@);
            proof {
                assert(entries[i as int] == (id, vm));
                let p = entries.take(i as int);
                assert forall|a: int| 0 <= a < p.len() implies group_known(m0, (#[trigger] p[a]).0, p[a].1) by {
                    assert(p[a] == entries[a]);
                }
                lemma_apply_graphs_domains(m0, p);
            }
            let mut j: usize = 0;
            proof {
                assert(vm.take(0) =~= Seq::<(Seq<char>, Option<ValueModel>)>::empty());
            }
            while j < vals.len()
                invariant
                    0 <= i < variables@.len(),
                    *vals == variables@[i as int].1,
                    vm == values_model(vals@),
                    entries == graph_values_model(variables@),
                    entries[i as int] == (id, vm),
                    names_known(m0, entries),
                    j <= vals@.len(),
                    self.wf(),
                    self.graphs@.dom() == m0.dom(),
                    before.dom() == m0.dom(),
                    forall|k: u64| #[trigger] m0.contains_key(k) ==> before[k].dom() == m0[k].dom(),
                    tables_vars(self.graphs@) == set_all_in(before, id, vm.take(j as int)),
                decreases vals@.len() - j,
            {
                let name = vals[j].0.as_str();
                let value = clone_opt_value(&vals[j].1);
                proof {
                    assert(vm[j as int] == (name@, opt_value_model(vals@[j as int].1)));
                    assert(group_known(m0, id, vm));
                    assert(vm.len() == vals@.len());
                    assert(m0[id].contains_key(vm[j as int].0));
                    let pj = vm.take(j as int);
                    assert forall|b: int| 0 <= b < pj.len() implies before[id].contains_key(#[trigger] pj[b].0) by {
                        assert(pj[b] == vm[b]);
                        assert(m0[id].contains_key(vm[b].0));
                    }
                    if pj.len() > 0 {
                        lemma_set_all_in_domains(before, id, pj);
                    }
                    assert(self.graphs@.contains_key(id));
                }
                let mut table = self.graphs.remove(&id).unwrap();
                let ghost g0 = self.graphs@;
                proof {
                    assert(var_models(table.variables).contains_key(name@));
                }
                set_var_value(&mut table.variables, name, value);
                self.graphs.insert(id, table);
                proof {
                    assert(vm.take(j + 1).drop_last() =~= vm.take(j as int));
                    assert(vm.take(j + 1).last() == vm[j as int]);
                    assert(tables_vars(self.graphs@) =~= set_in(
                        set_all_in(before, id, vm.take(j as int)),
                        id,
                        name@,
                        opt_value_model(value),
                    ));
                    assert(self.graphs@.dom() =~= m0.dom());
                }
                j = j + 1;
            }
            proof {
                assert(vm.take(vals@.len() as int) =~= vm);
                assert(entries.take(i + 1).drop_last() =~= entries.take(i as int));
                assert(entries.take(i + 1).last() == entries[i as int]);
            }
            i = i + 1;
        }
        proof {
            assert(entries.take(variables@.len() as int) =~= entries);
        }
    }
}

/// A variable referred to by the id of its graph and its name.
#[derive(Debug)]
pub struct VariableValue {
    pub id: u64,
    pub name: String,
}

/// A variable seen as a reference to it.
pub struct VarAsValue<'a>(pub &'a Variable);

impl<'a> VarAsValue<'a> {
    /// The reference to the variable: its graph id and its name.
    pub fn compact(&self) -> (r: VariableValue)
        requires
            self.0.id is Some,
        ensures
            r.id == self.0.id->0,
            r.name@ == self.0.name@,
    {
        VariableValue { id: self.0.id.unwrap(), name: self.0.name.clone() }
    }
}

impl VariableValue {
    /// The variable referred to.
    pub fn decompact(self, ctx: &DecompactContext) -> (r: Variable)
        requires
            ctx.wf(),
            ctx.graphs().contains_key(self.id),
            var_models(ctx.graphs()[self.id].variables).contains_key(self.name@),
        ensures
            r@ == var_models(ctx.graphs()[self.id].variables)[self.name@],
    {
        ctx.get_variable(self.id, self.name.as_str())
    }
}

/// Values that refer to graphs by id, and can take new ids.
pub trait ArrangeId: Sized {
    /// Whether `ids` gives a new id to each graph this value refers to.
    spec fn ids_known(&self, ids: Map<u64, u64>) -> bool;

    /// This value with each graph id replaced by the one `ids` gives it.
    spec fn arranged(&self, ids: Map<u64, u64>) -> Self;

    /// Replaces each graph id by the one `ids` gives it.
    fn arrange_id(&mut self, ids: &BTreeMap<u64, u64>)
        requires
            old(self).ids_known(ids@),
        ensures
            *final(self) == old(self).arranged(ids@),
    ;
}

impl ArrangeId for VariableValue {
    open spec fn ids_known(&self, ids: Map<u64, u64>) -> bool {
        ids.contains_key(self.id)
    }

    open spec fn arranged(&self, ids: Map<u64, u64>) -> Self {
        VariableValue { id: ids[self.id], name: self.name }
    }

    fn arrange_id(&mut self, ids: &BTreeMap<u64, u64>) {
        self.id = *ids.get(&self.id).unwrap();
    }
}

/// The compact form of a node's data: its graph is referred to by id.
#[derive(Debug)]
pub struct IRData {
    pub id: u64,
    pub name: String,
    pub graph: u64,
    pub input: Outs,
    pub output: Outs,
}

impl ArrangeId for IRData {
    open spec fn ids_known(&self, ids: Map<u64, u64>) -> bool {
        ids.contains_key(self.graph)
    }

    open spec fn arranged(&self, ids: Map<u64, u64>) -> Self {
        IRData { graph: ids[self.graph], ..*self }
    }

    fn arrange_id(&mut self, ids: &BTreeMap<u64, u64>) {
        self.graph = *ids.get(&self.graph).unwrap();
    }
}

/// The compact form of a node's code data: its graph is referred to by id.
#[derive(Debug)]
pub struct CodeData {
    pub name: String,
    pub graph: u64,
    pub input: Outs,
    pub output: Outs,
}

impl ArrangeId for CodeData {
    open spec fn ids_known(&self, ids: Map<u64, u64>) -> bool {
        ids.contains_key(self.graph)
    }

    open spec fn arranged(&self, ids: Map<u64, u64>) -> Self {
        CodeData { graph: ids[self.graph], ..*self }
    }

    fn arrange_id(&mut self, ids: &BTreeMap<u64, u64>) {
        self.graph = *ids.get(&self.graph).unwrap();
    }
}

} // verus!
