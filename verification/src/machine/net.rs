use vstd::prelude::*;

use super::error::Error;
use super::program::{MachineId, WorkId, WorkStatus};
use super::query::{clone_opt, opt_view, parse_accepts, parse_model, Query, QueryError, QueryModel};
use crate::builder::strmap::{
    lemma_str_lt_asymmetric,
    lemma_str_lt_irreflexive,
    lemma_str_lt_total,
    lemma_str_lt_transitive,
    str_equal,
    str_less,
    str_lt,
};

verus! {

broadcast use vstd::std_specs::vec::group_vec_axioms;

/// A host that serves machines: a provider and a domain, each optional.
#[derive(Debug)]
pub struct NetHost {
    pub provider: Option<String>,
    pub domain: Option<String>,
}

/// The model of a host.
pub type HostModel = (Option<Seq<char>>, Option<Seq<char>>);

impl View for NetHost {
    type V = HostModel;

    open spec fn view(&self) -> HostModel {
        (opt_view(self.provider), opt_view(self.domain))
    }
}

/// The host that serves the machines of a query.
pub open spec fn host_of(q: QueryModel) -> HostModel {
    (q.provider, q.domain)
}

/// The order of optional strings: none first, then by string.
pub open spec fn opt_str_lt(a: Option<Seq<char>>, b: Option<Seq<char>>) -> bool {
    match (a, b) {
        (None, Some(_)) => true,
        (Some(x), Some(y)) => str_lt(x, y),
        _ => false,
    }
}

/// The order of hosts: by provider, then by domain.
pub open spec fn host_lt(a: HostModel, b: HostModel) -> bool {
    opt_str_lt(a.0, b.0) || (a.0 == b.0 && opt_str_lt(a.1, b.1))
}

proof fn lemma_opt_str_lt_facts(a: Option<Seq<char>>, b: Option<Seq<char>>, c: Option<Seq<char>>)
    ensures
        !opt_str_lt(a, a),
        opt_str_lt(a, b) ==> !opt_str_lt(b, a),
        opt_str_lt(a, b) && opt_str_lt(b, c) ==> opt_str_lt(a, c),
        a != b ==> opt_str_lt(a, b) || opt_str_lt(b, a),
{
    if let Some(x) = a {
        lemma_str_lt_irreflexive(x);
        if let Some(y) = b {
            if str_lt(x, y) {
                lemma_str_lt_asymmetric(x, y);
            }
            if x != y {
                lemma_str_lt_total(x, y);
            }
            if let Some(z) = c {
                if str_lt(x, y) && str_lt(y, z) {
                    lemma_str_lt_transitive(x, y, z);
                }
            }
        }
    }
}

/// The order of hosts is a strict total order.
pub proof fn lemma_host_lt_order(a: HostModel, b: HostModel, c: HostModel)
    ensures
        !host_lt(a, a),
        host_lt(a, b) ==> !host_lt(b, a),
        host_lt(a, b) && host_lt(b, c) ==> host_lt(a, c),
        a != b ==> host_lt(a, b) || host_lt(b, a),
{
    lemma_opt_str_lt_facts(a.0, b.0, c.0);
    lemma_opt_str_lt_facts(a.1, b.1, c.1);
    lemma_opt_str_lt_facts(b.0, a.0, c.0);
    lemma_opt_str_lt_facts(b.1, a.1, c.1);
}

/// Whether `a` comes before `b`.
fn opt_str_less(a: &Option<String>, b: &Option<String>) -> (r: bool)
    ensures
        r == opt_str_lt(opt_view(*a), opt_view(*b)),
{
    match (a, b) {
        (None, Some(_)) => true,
        (Some(x), Some(y)) => str_less(x.as_str(), y.as_str()),
        _ => false,
    }
}

/// Whether two optional strings are equal.
fn opt_str_equal(a: &Option<String>, b: &Option<String>) -> (r: bool)
    ensures
        r == (opt_view(*a) == opt_view(*b)),
{
    match (a, b) {
        (None, None) => true,
        (Some(x), Some(y)) => str_equal(x.as_str(), y.as_str()),
        _ => false,
    }
}

impl NetHost {
    /// The host that serves the machines of a query.
    pub fn of_query(q: &Query) -> (r: Self)
        ensures
            r@ == host_of(q@),
    {
        NetHost { provider: clone_opt(&q.provider), domain: clone_opt(&q.domain) }
    }

    /// Whether this host comes before `other`.
    pub fn less(&self, other: &Self) -> (r: bool)
        ensures
            r == host_lt(self@, other@),
    {
        opt_str_less(&self.provider, &other.provider) || (opt_str_equal(
            &self.provider,
            &other.provider,
        ) && opt_str_less(&self.domain, &other.domain))
    }

    /// Whether this host is `other`.
    pub fn same(&self, other: &Self) -> (r: bool)
        ensures
            r == (self@ == other@),
    {
        opt_str_equal(&self.provider, &other.provider) && opt_str_equal(&self.domain, &other.domain)
    }
}

/// A copy of a query.
pub fn copy_query(q: &Query) -> (r: Query)
    ensures
        r@ == q@,
{
    Query {
        provider: clone_opt(&q.provider),
        domain: clone_opt(&q.domain),
        device: clone_opt(&q.device),
        id: clone_opt(&q.id),
    }
}

/// The models of queries.
pub open spec fn queries_model(v: Seq<Query>) -> Seq<QueryModel> {
    v.map_values(|q: Query| q@)
}

/// The queries, in order, that the host `h` serves.
pub open spec fn host_queries(qs: Seq<QueryModel>, h: HostModel) -> Seq<QueryModel> {
    qs.filter(|q: QueryModel| host_of(q) == h)
}

/// Whether `groups` gathers the queries by host: the hosts in ascending
/// order, each with the queries it serves, in their order, and each query's
/// host among them.
pub open spec fn grouped(groups: Seq<(NetHost, Vec<Query>)>, qs: Seq<QueryModel>) -> bool {
    &&& forall|i: int, j: int|
        0 <= i < j < groups.len() ==> host_lt(#[trigger] groups[i].0@, #[trigger] groups[j].0@)
    &&& forall|i: int|
        0 <= i < groups.len() ==> queries_model((#[trigger] groups[i]).1@) == host_queries(
            qs,
            groups[i].0@,
        )
    &&& forall|k: int|
        0 <= k < qs.len() ==> exists|i: int|
            0 <= i < groups.len() && (#[trigger] groups[i]).0@ == host_of(#[trigger] qs[k])
}

proof fn lemma_host_queries_push(qs: Seq<QueryModel>, q: QueryModel, h: HostModel)
    ensures
        host_queries(qs.push(q), h) == (if host_of(q) == h {
            host_queries(qs, h).push(q)
        } else {
            host_queries(qs, h)
        }),
{
    reveal(Seq::filter);
    assert(qs.push(q).drop_last() =~= qs);
    assert(qs.push(q).last() == q);
}

proof fn lemma_host_queries_none(qs: Seq<QueryModel>, h: HostModel)
    requires
        forall|k: int| 0 <= k < qs.len() ==> host_of(#[trigger] qs[k]) != h,
    ensures
        host_queries(qs, h) == Seq::<QueryModel>::empty(),
    decreases qs.len(),
{
    reveal(Seq::filter);
    if qs.len() > 0 {
        assert forall|k: int| 0 <= k < qs.drop_last().len() implies host_of(
            #[trigger] qs.drop_last()[k],
        ) != h by {
            assert(qs.drop_last()[k] == qs[k]);
        }
        lemma_host_queries_none(qs.drop_last(), h);
        assert(host_of(qs[qs.len() - 1]) != h);
    }
}

/// Gathers the queries by the host that serves them, hosts in ascending
/// order and queries in their order.
#[verifier::spinoff_prover]
pub fn group_by_host(query: Vec<Query>) -> (r: Vec<(NetHost, Vec<Query>)>)
    ensures
        grouped(r@, queries_model(query@)),
{
    let ghost qs = queries_model(query@);
    let mut groups: Vec<(NetHost, Vec<Query>)> = Vec::new();
    let mut i: usize = 0;
    while i < query.len()
        invariant
            i <= query@.len(),
            qs == queries_model(query@),
            grouped(groups@, qs.take(i as int)),
        decreases query@.len() - i,
    {
        let q = &query[i];
        let h = NetHost::of_query(q);
        let ghost pre = qs.take(i as int);
        let ghost qm = q@;
        proof {
            assert(qs[i as int] == qm);
            assert(qs.take(i + 1) =~= pre.push(qm));
        }
        let mut p: usize = 0;
        while p < groups.len() && groups[p].0.less(&h)
            invariant
                p <= groups@.len(),
                forall|k: int| 0 <= k < p ==> host_lt(#[trigger] groups@[k].0@, h@),
            decreases groups@.len() - p,
        {
            p = p + 1;
        }
        let ghost old_groups = groups@;
        if p < groups.len() && groups[p].0.same(&h) {
            let (gh, mut gq) = groups.remove(p);
            let ghost old_gq = gq@;
            gq.push(copy_query(q));
            groups.insert(p, (gh, gq));
            proof {
                assert(groups@ =~= old_groups.update(p as int, (gh, gq)));
                assert(queries_model(gq@) =~= queries_model(old_gq).push(qm));
                assert forall|j: int| 0 <= j < groups@.len() implies (#[trigger] groups@[j]).0@
                    == old_groups[j].0@ by {}
                assert forall|a: int, b: int| 0 <= a < b < groups@.len() implies host_lt(
                    #[trigger] groups@[a].0@,
                    #[trigger] groups@[b].0@,
                ) by {
                    assert(host_lt(old_groups[a].0@, old_groups[b].0@));
                }
                assert forall|j: int| 0 <= j < groups@.len() implies queries_model(
                    (#[trigger] groups@[j]).1@,
                ) == host_queries(pre.push(qm), groups@[j].0@) by {
                    lemma_host_queries_push(pre, qm, groups@[j].0@);
                    assert(queries_model(old_groups[j].1@) == host_queries(pre, old_groups[j].0@));
                }
                assert forall|k: int| 0 <= k < pre.push(qm).len() implies exists|j: int|
                    0 <= j < groups@.len() && (#[trigger] groups@[j]).0@ == host_of(
                        #[trigger] pre.push(qm)[k],
                    ) by {
                    if k < pre.len() {
                        assert(pre.push(qm)[k] == pre[k]);
                        let j = choose|j: int|
                            0 <= j < old_groups.len() && (#[trigger] old_groups[j]).0@ == host_of(
                                #[trigger] pre[k],
                            );
                        assert(groups@[j].0@ == old_groups[j].0@);
                    } else {
                        assert(groups@[p as int].0@ == host_of(qm));
                    }
                }
                assert(grouped(groups@, pre.push(qm)));
            }
        } else {
            let mut gq: Vec<Query> = Vec::new();
            gq.push(copy_query(q));
            let ghost hm = h@;
            groups.insert(p, (h, gq));
            proof {
                assert(groups@ =~= old_groups.insert(p as int, (groups@[p as int].0, gq)));
                assert(groups@[p as int].0@ == hm);
                // the new host is not among the old ones
                assert forall|k: int| 0 <= k < old_groups.len() implies (#[trigger] old_groups[k]).0@
                    != hm by {
                    if k < p {
                        lemma_host_lt_order(old_groups[k].0@, hm, hm);
                    } else {
                        lemma_host_lt_order(old_groups[p as int].0@, hm, old_groups[k].0@);
                        if p < old_groups.len() {
                            assert(!host_lt(old_groups[p as int].0@, hm));
                            assert(old_groups[p as int].0@ != hm);
                            assert(host_lt(hm, old_groups[p as int].0@));
                            if k > p {
                                assert(host_lt(old_groups[p as int].0@, old_groups[k].0@));
                                lemma_host_lt_order(hm, old_groups[p as int].0@, old_groups[k].0@);
                                lemma_host_lt_order(hm, hm, hm);
                            }
                        }
                    }
                }
                assert forall|k: int| 0 <= k < pre.len() implies host_of(#[trigger] pre[k]) != hm by {
                    let j = choose|j: int|
                        0 <= j < old_groups.len() && (#[trigger] old_groups[j]).0@ == host_of(
                            #[trigger] pre[k],
                        );
                    assert(old_groups[j].0@ != hm);
                }
                lemma_host_queries_none(pre, hm);
                assert(queries_model(gq@) =~= seq![qm]);
                assert(seq![qm] =~= Seq::<QueryModel>::empty().push(qm));
                assert forall|a: int, b: int| 0 <= a < b < groups@.len() implies host_lt(
                    #[trigger] groups@[a].0@,
                    #[trigger] groups@[b].0@,
                ) by {
                    if p < old_groups.len() {
                        assert(!host_lt(old_groups[p as int].0@, hm));
                        lemma_host_lt_order(old_groups[p as int].0@, hm, hm);
                    }
                    if a < p && b == p {
                    } else if a == p && b > p {
                        if b - 1 > p {
                            lemma_host_lt_order(hm, old_groups[p as int].0@, old_groups[b - 1].0@);
                        }
                    } else if a < p && b > p {
                        lemma_host_lt_order(old_groups[a].0@, hm, old_groups[b - 1].0@);
                        if b - 1 > p {
                            lemma_host_lt_order(hm, old_groups[p as int].0@, old_groups[b - 1].0@);
                        }
                    } else if a > p {
                        assert(groups@[a] == old_groups[a - 1]);
                        assert(groups@[b] == old_groups[b - 1]);
                    }
                }
                assert forall|j: int| 0 <= j < groups@.len() implies queries_model(
                    (#[trigger] groups@[j]).1@,
                ) == host_queries(pre.push(qm), groups@[j].0@) by {
                    lemma_host_queries_push(pre, qm, groups@[j].0@);
                    if j < p {
                        assert(groups@[j] == old_groups[j]);
                    } else if j > p {
                        assert(groups@[j] == old_groups[j - 1]);
                    }
                }
                assert forall|k: int| 0 <= k < pre.push(qm).len() implies exists|j: int|
                    0 <= j < groups@.len() && (#[trigger] groups@[j]).0@ == host_of(
                        #[trigger] pre.push(qm)[k],
                    ) by {
                    if k < pre.len() {
                        assert(pre.push(qm)[k] == pre[k]);
                        let j = choose|j: int|
                            0 <= j < old_groups.len() && (#[trigger] old_groups[j]).0@ == host_of(
                                #[trigger] pre[k],
                            );
                        if j < p {
                            assert(groups@[j] == old_groups[j]);
                        } else {
                            assert(groups@[j + 1] == old_groups[j]);
                        }
                    } else {
                        assert(groups@[p as int].0@ == host_of(qm));
                    }
                }
                assert(grouped(groups@, pre.push(qm)));
            }
        }
        i = i + 1;
    }
    proof {
        assert(qs.take(query@.len() as int) =~= qs);
    }
    groups
}

/// The first query text that does not parse, if any.
pub open spec fn first_unparsable(texts: Seq<String>) -> Option<int> {
    if exists|i: int| 0 <= i < texts.len() && !parse_accepts(#[trigger] texts[i]@) {
        Some(
            choose|i: int|
                0 <= i < texts.len() && !parse_accepts(#[trigger] texts[i]@) && forall|j: int|
                    0 <= j < i ==> parse_accepts(#[trigger] texts[j]@),
        )
    } else {
        None
    }
}

/// The queries that the texts parse to.
pub open spec fn parsed_all(texts: Seq<String>) -> Seq<QueryModel> {
    texts.map_values(|t: String| parse_model(t@))
}

/// The hosts to load a work on, each with the queries it serves: the query
/// texts must be some, and each must parse; the first that does not is
/// reported.
pub fn plan_load(query: &Vec<String>) -> (r: Result<Vec<(NetHost, Vec<Query>)>, Error>)
    ensures
        query@.len() == 0 ==> r matches Err(Error::QueryError(QueryError::EmptyMachines)),
        query@.len() > 0 && first_unparsable(query@) is Some ==> (r matches Err(
            Error::QueryError(QueryError::UnexpectedTokens { query: t }),
        ) && t@ == query@[first_unparsable(query@)->0]@),
        query@.len() > 0 && first_unparsable(query@) is None ==> (r matches Ok(groups) && grouped(
            groups@,
            parsed_all(query@),
        )),
{
    if query.len() == 0 {
        return Err(Error::QueryError(QueryError::EmptyMachines));
    }
    let mut parsed: Vec<Query> = Vec::new();
    let mut i: usize = 0;
    while i < query.len()
        invariant
            i <= query@.len(),
            parsed@.len() == i,
            forall|k: int| 0 <= k < i ==> parse_accepts(#[trigger] query@[k]@),
            forall|k: int| 0 <= k < i ==> (#[trigger] parsed@[k])@ == parse_model(query@[k]@),
        decreases query@.len() - i,
    {
        match Query::parse(query[i].as_str()) {
            Ok(q) => {
                parsed.push(q);
            },
            Err(e) => {
                proof {
                    assert(!parse_accepts(query@[i as int]@));
                    let c = choose|c: int|
                        0 <= c < query@.len() && !parse_accepts(#[trigger] query@[c]@) && forall|j: int|
                            0 <= j < c ==> parse_accepts(#[trigger] query@[j]@);
                    assert(c == i);
                }
                return Err(Error::QueryError(e));
            },
        }
        i = i + 1;
    }
    proof {
        assert(queries_model(parsed@) =~= parsed_all(query@));
    }
    Ok(group_by_host(parsed))
}

/// Where to reach a host.
#[derive(Debug)]
pub enum HostAddress {
    /// The host's own domain.
    Domain(String),
    /// The public address of this machine, where the work spans hosts.
    Public,
    /// This machine alone.
    Local,
}

/// Where to reach a host without a provider, among `num_hosts` hosts: at
/// its domain, else at the public address of this machine when the work
/// spans several hosts, else locally.
pub fn host_address(host: &NetHost, num_hosts: usize) -> (r: HostAddress)
    requires
        host.provider is None,
    ensures
        match host.domain {
            Some(d) => r matches HostAddress::Domain(a) && a@ == d@,
            None => if num_hosts > 1 {
                r is Public
            } else {
                r is Local
            },
        },
{
    match &host.domain {
        Some(addr) => HostAddress::Domain(addr.clone()),
        None => if num_hosts > 1 {
            HostAddress::Public
        } else {
            HostAddress::Local
        },
    }
}

/// The sum of the numbers.
pub open spec fn sum_of(v: Seq<u64>) -> nat
    decreases v.len(),
{
    if v.len() == 0 {
        0
    } else {
        sum_of(v.drop_last()) + (v.last() as nat)
    }
}

/// The ids `start`, `start + 1`, ... up to `end`, excluded.
pub open spec fn id_range(start: int, end: int) -> Seq<u64> {
    Seq::new((end - start) as nat, |k: int| (start + k) as u64)
}

/// The ids of the machines of each host: consecutive ranges, in order of
/// the hosts, with as many ids as the host has machines, that together make
/// `0..world`, where `world` is the number of all machines.
pub fn spawn_ranges(num_machines: &Vec<MachineId>) -> (r: (MachineId, Vec<Vec<MachineId>>))
    requires
        sum_of(num_machines@) <= u64::MAX,
    ensures
        r.0 == sum_of(num_machines@),
        r.1@.len() == num_machines@.len(),
        forall|i: int|
            0 <= i < num_machines@.len() ==> (#[trigger] r.1@[i])@ == id_range(
                sum_of(num_machines@.take(i)) as int,
                sum_of(num_machines@.take(i + 1)) as int,
            ),
{
    let mut ranges: Vec<Vec<MachineId>> = Vec::new();
    let mut seed: u64 = 0;
    let mut i: usize = 0;
    proof {
        assert(num_machines@.take(0) =~= Seq::<u64>::empty());
    }
    while i < num_machines.len()
        invariant
            i <= num_machines@.len(),
            sum_of(num_machines@) <= u64::MAX,
            seed == sum_of(num_machines@.take(i as int)),
            ranges@.len() == i,
            forall|k: int|
                0 <= k < i ==> (#[trigger] ranges@[k])@ == id_range(
                    sum_of(num_machines@.take(k)) as int,
                    sum_of(num_machines@.take(k + 1)) as int,
                ),
        decreases num_machines@.len() - i,
    {
        proof {
            assert(num_machines@.take(i + 1).drop_last() =~= num_machines@.take(i as int));
            lemma_sum_prefix(num_machines@, i + 1);
        }
        let id_end = seed + num_machines[i];
        let mut ids: Vec<MachineId> = Vec::new();
        let mut x = seed;
        while x < id_end
            invariant
                seed <= x <= id_end,
                ids@ == id_range(seed as int, x as int),
            decreases id_end - x,
        {
            ids.push(x);
            proof {
                assert(ids@ =~= id_range(seed as int, x + 1));
            }
            x = x + 1;
        }
        ranges.push(ids);
        seed = id_end;
        i = i + 1;
    }
    proof {
        assert(num_machines@.take(num_machines@.len() as int) =~= num_machines@);
    }
    (seed, ranges)
}

/// A prefix sums to no more than the whole.
proof fn lemma_sum_prefix(v: Seq<u64>, n: int)
    requires
        0 <= n <= v.len(),
    ensures
        sum_of(v.take(n)) <= sum_of(v),
    decreases v.len() - n,
{
    if n < v.len() {
        lemma_sum_prefix(v, n + 1);
        assert(v.take(n + 1).drop_last() =~= v.take(n));
    } else {
        assert(v.take(n) =~= v);
    }
}

/// The ranges of machine ids cover `0..world` in order, each id once.
pub proof fn lemma_spawn_ranges_partition(num_machines: Seq<u64>, ranges: Seq<Seq<u64>>)
    requires
        ranges.len() == num_machines.len(),
        forall|i: int|
            0 <= i < num_machines.len() ==> #[trigger] ranges[i] == id_range(
                sum_of(num_machines.take(i)) as int,
                sum_of(num_machines.take(i + 1)) as int,
            ),
    ensures
        ranges.flatten() == id_range(0, sum_of(num_machines) as int),
    decreases num_machines.len(),
{
    if num_machines.len() == 0 {
        assert(ranges.flatten() =~= id_range(0, 0));
    } else {
        let n = num_machines.len() - 1;
        let nm = num_machines.drop_last();
        let rs = ranges.drop_last();
        assert forall|i: int| 0 <= i < nm.len() implies #[trigger] rs[i] == id_range(
            sum_of(nm.take(i)) as int,
            sum_of(nm.take(i + 1)) as int,
        ) by {
            assert(nm.take(i) =~= num_machines.take(i));
            assert(nm.take(i + 1) =~= num_machines.take(i + 1));
            assert(rs[i] == ranges[i]);
        }
        lemma_spawn_ranges_partition(nm, rs);
        assert(num_machines.take(n) =~= nm);
        assert(num_machines.take(n + 1) =~= num_machines);
        assert(ranges =~= rs.push(ranges[n]));
        rs.lemma_flatten_push(ranges[n]);
        assert(id_range(0, sum_of(nm) as int) + id_range(sum_of(nm) as int, sum_of(num_machines) as int)
            =~= id_range(0, sum_of(num_machines) as int));
    }
}

/// What a host answers.
#[derive(Debug)]
pub enum Response {
    Error { message: String },
    Load { num_machines: MachineId },
    Status { status: WorkStatus },
}

impl Response {
    /// The number of machines that a host loaded, or its failure.
    pub fn load(self) -> (r: std::result::Result<MachineId, String>)
        requires
            !(self is Status),
        ensures
            match self {
                Response::Load { num_machines } => r == Ok::<MachineId, String>(num_machines),
                Response::Error { message } => r == Err::<MachineId, String>(message),
                _ => false,
            },
    {
        match self {
            Self::Load { num_machines } => Ok(num_machines),
            Self::Error { message } => Err(message),
            _ => {
                proof {
                    assert(false);
                }
                Ok(0)
            },
        }
    }

    /// The status of a work that a host reported, or its failure.
    pub fn status(self) -> (r: std::result::Result<WorkStatus, String>)
        requires
            !(self is Load),
        ensures
            match self {
                Response::Status { status } => r == Ok::<WorkStatus, String>(status),
                Response::Error { message } => r == Err::<WorkStatus, String>(message),
                _ => false,
            },
    {
        match self {
            Self::Status { status } => Ok(status),
            Self::Error { message } => Err(message),
            _ => {
                proof {
                    assert(false);
                }
                Err(String::new())
            },
        }
    }
}

/// What is asked of a host.
#[derive(Debug)]
pub enum Request {
    Load { work: WorkId, query: Vec<Query> },
    Spawn { id_primaries: Vec<MachineId>, program: super::program::Program },
    Status { work: WorkId },
    Join { work: WorkId },
    Terminate { work: WorkId },
}

} // verus!
