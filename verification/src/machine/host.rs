use vstd::prelude::*;

use super::error::Error as MachineError;
use std::collections::BTreeMap;

use super::program::{MachineId, Program, WorkId, WorkStatus};
use super::query::{matches_weakly, Query, QueryError};

verus! {

broadcast use {vstd::std_specs::vec::group_vec_axioms, vstd::std_specs::btree::group_btree_axioms};

/// The errors of loading a work.
#[derive(Debug)]
pub enum LoadError {
    NoSuchMachine { query: Query },
}

/// The errors about a work.
#[derive(Debug)]
pub enum WorkError {
    NoSuchWork { id: WorkId },
}

/// The errors of a host.
#[derive(Debug)]
pub enum Error {
    LoadError(LoadError),
    WorkError(WorkError),
    MachineError(MachineError),
}

pub type Result<T> = std::result::Result<T, Error>;

impl From<LoadError> for Error {
    fn from(error: LoadError) -> (r: Self) {
        Self::LoadError(error)
    }
}

impl vstd::std_specs::convert::FromSpecImpl<LoadError> for Error {
    open spec fn obeys_from_spec() -> bool {
        true
    }

    open spec fn from_spec(error: LoadError) -> Self {
        Error::LoadError(error)
    }
}

impl From<WorkError> for Error {
    fn from(error: WorkError) -> (r: Self) {
        Self::WorkError(error)
    }
}

impl vstd::std_specs::convert::FromSpecImpl<WorkError> for Error {
    open spec fn obeys_from_spec() -> bool {
        true
    }

    open spec fn from_spec(error: WorkError) -> Self {
        Error::WorkError(error)
    }
}

impl From<MachineError> for Error {
    fn from(error: MachineError) -> (r: Self) {
        Self::MachineError(error)
    }
}

impl vstd::std_specs::convert::FromSpecImpl<MachineError> for Error {
    open spec fn obeys_from_spec() -> bool {
        true
    }

    open spec fn from_spec(error: MachineError) -> Self {
        Error::MachineError(error)
    }
}

impl From<QueryError> for Error {
    fn from(error: QueryError) -> (r: Self) {
        Self::MachineError(MachineError::QueryError(error))
    }
}

impl vstd::std_specs::convert::FromSpecImpl<QueryError> for Error {
    open spec fn obeys_from_spec() -> bool {
        true
    }

    open spec fn from_spec(error: QueryError) -> Self {
        Error::MachineError(MachineError::QueryError(error))
    }
}

/// The positions, in order, of the patterns that match the query weakly:
/// the generators that may make machines for it, to be tried in this order.
pub fn matching_generators(patterns: &Vec<Query>, query: &Query) -> (r: Vec<usize>)
    ensures
        r@ == Seq::new(patterns@.len(), |i: int| i).filter(
            |i: int| matches_weakly(patterns@[i]@, query@),
        ).map_values(|i: int| i as usize),
{
    let mut r: Vec<usize> = Vec::new();
    let ghost all = Seq::new(patterns@.len(), |i: int| i);
    let mut i: usize = 0;
    proof {
        reveal(Seq::filter);
        assert(all.take(0).filter(|i: int| matches_weakly(patterns@[i]@, query@)) =~= Seq::<int>::empty());
    }
    while i < patterns.len()
        invariant
            i <= patterns@.len(),
            all == Seq::new(patterns@.len(), |i: int| i),
            r@ == all.take(i as int).filter(|i: int| matches_weakly(patterns@[i]@, query@)).map_values(
                |i: int| i as usize,
            ),
        decreases patterns@.len() - i,
    {
        proof {
            reveal(Seq::filter);
            assert(all.take(i + 1).drop_last() =~= all.take(i as int));
            assert(all.take(i + 1).last() == i as int);
        }
        if patterns[i].eq_weakly(query) {
            r.push(i);
            proof {
                let f = all.take(i as int).filter(|i: int| matches_weakly(patterns@[i]@, query@));
                assert(f.push(i as int).map_values(|i: int| i as usize) =~= f.map_values(
                    |i: int| i as usize,
                ).push(i));
            }
        }
        i = i + 1;
    }
    proof {
        assert(all.take(patterns@.len() as int) =~= all);
    }
    r
}

/// A machine that runs the programs of works, given the handler `H` of
/// the signals of its host. What each call returns is the machine's own
/// report of the work.
pub trait Machine<H> {
    fn spawn(&mut self, program: &mut Program, handler: &H) -> WorkStatus;

    fn status(&mut self) -> WorkStatus;

    fn join(&mut self) -> WorkStatus;

    fn terminate(&mut self) -> WorkStatus;
}

/// Whether `s` is a status that a machine of type `M` reported when it was
/// spawned.
pub open spec fn reported_by_spawn<M: Machine<H>, H>(s: WorkStatus) -> bool {
    exists|a: (&mut M, &mut Program, &H)| call_ensures(<M as Machine<H>>::spawn, a, s)
}

/// Whether `s` is a status that a machine of type `M` reported when asked
/// for the status of its work.
pub open spec fn reported_by_status<M: Machine<H>, H>(s: WorkStatus) -> bool {
    exists|a: (&mut M,)| call_ensures(<M as Machine<H>>::status, a, s)
}

/// Whether `s` is a status that a machine of type `M` reported when its
/// work was joined.
pub open spec fn reported_by_join<M: Machine<H>, H>(s: WorkStatus) -> bool {
    exists|a: (&mut M,)| call_ensures(<M as Machine<H>>::join, a, s)
}

/// Whether `s` is a status that a machine of type `M` reported when its
/// work was stopped.
pub open spec fn reported_by_terminate<M: Machine<H>, H>(s: WorkStatus) -> bool {
    exists|a: (&mut M,)| call_ensures(<M as Machine<H>>::terminate, a, s)
}

/// The machines found for the queries, joined in order.
pub open spec fn found_machines<M>(found: Seq<(Query, Option<Vec<M>>)>) -> Seq<M>
    decreases found.len(),
{
    if found.len() == 0 {
        Seq::empty()
    } else {
        found_machines(found.drop_last()) + found.last().1->0@
    }
}

/// The model of a work status.
pub type StatusModel = (bool, Option<Seq<char>>, Option<i64>, Option<i64>);

/// The model of a work status.
pub open spec fn status_model(s: WorkStatus) -> StatusModel {
    (
        s.is_running,
        match s.error_msg {
            Some(m) => Some(m@),
            None => None,
        },
        s.date_begin,
        s.date_end,
    )
}

/// A copy of a work status.
pub fn copy_status(s: &WorkStatus) -> (r: WorkStatus)
    ensures
        status_model(r) == status_model(*s),
{
    WorkStatus {
        is_running: s.is_running,
        error_msg: match &s.error_msg {
            Some(m) => Some(m.clone()),
            None => None,
        },
        date_begin: s.date_begin,
        date_end: s.date_end,
    }
}

/// What a host knows of a work.
pub enum WorkAnswer {
    /// The work runs: its first machine reports its status.
    Running,
    /// The work ended with this status.
    Ended(StatusModel),
    /// The host knows no such work.
    NoSuchWork,
}

/// The machines of a host and the works they run and ran.
pub struct HostMachine<M, H> {
    pub handler: H,
    works_running: BTreeMap<WorkId, Vec<M>>,
    works_ended: BTreeMap<WorkId, WorkStatus>,
    // what the machines of each ended work reported when it was ended, in
    // the order of its machines
    end_reports: Ghost<Map<WorkId, Seq<WorkStatus>>>,
}

/// What a host knows of the work `id`, from its running and ended works.
pub open spec fn answer_of<M>(running: Map<WorkId, Vec<M>>, ended: Map<WorkId, WorkStatus>, id: WorkId) -> WorkAnswer {
    if running.contains_key(id) {
        WorkAnswer::Running
    } else if ended.contains_key(id) {
        WorkAnswer::Ended(status_model(ended[id]))
    } else {
        WorkAnswer::NoSuchWork
    }
}

impl<M: Machine<H>, H> HostMachine<M, H> {
    /// The works that run, with their machines.
    pub closed spec fn running(&self) -> Map<WorkId, Vec<M>> {
        self.works_running@
    }

    /// The works that ended, with their last status.
    pub closed spec fn ended(&self) -> Map<WorkId, WorkStatus> {
        self.works_ended@
    }

    /// What the machines of each ended work reported when it was ended, in
    /// the order of its machines.
    pub closed spec fn end_reports(&self) -> Map<WorkId, Seq<WorkStatus>> {
        self.end_reports@
    }

    /// The handler of the signals of the host.
    pub closed spec fn signals(&self) -> H {
        self.handler
    }

    /// A host with no work.
    pub fn new(handler: H) -> (r: Self)
        ensures
            r.running() == Map::<WorkId, Vec<M>>::empty(),
            r.ended() == Map::<WorkId, WorkStatus>::empty(),
            r.signals() == handler,
    {
        Self {
            handler,
            works_running: BTreeMap::new(),
            works_ended: BTreeMap::new(),
            end_reports: Ghost(Map::empty()),
        }
    }

    /// Loads the work `work` on the machines found for its queries, in
    /// order; the first query for which none was found fails the load, and
    /// nothing is loaded.
    pub fn load(&mut self, work: WorkId, found: Vec<(Query, Option<Vec<M>>)>) -> (r: Result<u64>)
        ensures
            final(self).ended() == old(self).ended(),
            final(self).signals() == old(self).signals(),
            r is Ok <==> forall|i: int| 0 <= i < found@.len() ==> (#[trigger] found@[i]).1 is Some,
            (forall|i: int| 0 <= i < found@.len() ==> (#[trigger] found@[i]).1 is Some) ==> (
            r matches Ok(n) && final(self).running().contains_key(work) && final(self).running()[work]@
                == found_machines(found@) && n
                == final(self).running()[work]@.len() && final(self).running()
                == old(self).running().insert(work, final(self).running()[work])),
            r is Err ==> final(self).running() == old(self).running() && exists|i: int|
                #![trigger found@[i]]
                0 <= i < found@.len() && found@[i].1 is None && (forall|j: int|
                    0 <= j < i ==> (#[trigger] found@[j]).1 is Some) && (r matches Err(
                    Error::LoadError(LoadError::NoSuchMachine { query: q }),
                ) && q@ == found@[i].0@),
    {
        let mut machines: Vec<M> = Vec::new();
        let ghost all = found@;
        let total = found.len();
        let mut rest = found;
        let mut i: usize = 0;
        proof {
            assert(all.skip(0) =~= all);
        }
        while rest.len() > 0
            invariant
                i + rest@.len() == all.len(),
                all.len() == total,
                rest@ == all.skip(i as int),
                all == found@,
                self.works_running@ == old(self).works_running@,
                self.works_ended@ == old(self).works_ended@,
                forall|k: int| 0 <= k < i ==> (#[trigger] all[k]).1 is Some,
                machines@ == found_machines(all.take(i as int)),
            decreases rest@.len(),
        {
            let (query, ms) = rest.remove(0);
            proof {
                assert(all[i as int] == (query, ms));
                assert(rest@ =~= all.skip(i + 1));
                assert(all.take(i + 1).drop_last() =~= all.take(i as int));
                assert(all.take(i + 1).last() == all[i as int]);
            }
            match ms {
                Some(mut ms) => {
                    machines.append(&mut ms);
                },
                None => {
                    proof {
                        assert(all[i as int].1 is None);
                        assert(all[i as int].0 == query);
                    }
                    return Err(Error::LoadError(LoadError::NoSuchMachine { query }));
                },
            }
            i = i + 1;
        }
        proof {
            assert(all.take(i as int) =~= all);
        }
        let num_machines = machines.len();
        self.works_running.insert(work, machines);
        Ok(num_machines as u64)
    }

    /// The number of machines of the work `id`, where it runs.
    pub fn running_machines(&self, id: WorkId) -> (r: Option<usize>)
        ensures
            self.running().contains_key(id) ==> r == Some(self.running()[id]@.len() as usize),
            !self.running().contains_key(id) ==> r is None,
    {
        match self.works_running.get(&id) {
            Some(work) => Some(work.len()),
            None => None,
        }
    }

    /// Whether the work `id` ended.
    pub fn has_ended(&self, id: WorkId) -> (r: bool)
        ensures
            r == self.ended().contains_key(id),
    {
        self.works_ended.contains_key(&id)
    }

    /// What the host knows of the work `id`: the status that its first
    /// machine reports while it runs, else the status it ended with.
    pub fn status(&mut self, id: WorkId) -> (r: Result<WorkStatus>)
        requires
            old(self).running().contains_key(id) ==> old(self).running()[id]@.len() > 0,
        ensures
            final(self).ended() == old(self).ended(),
            final(self).running().dom() == old(self).running().dom(),
            final(self).signals() == old(self).signals(),
            match answer_of(old(self).running(), old(self).ended(), id) {
                WorkAnswer::Running => r matches Ok(s) && reported_by_status::<M, H>(s),
                WorkAnswer::Ended(m) => r matches Ok(s) && status_model(s) == m,
                WorkAnswer::NoSuchWork => r matches Err(
                    Error::WorkError(WorkError::NoSuchWork { id: x }),
                ) && x == id,
            },
    {
        if let Some(mut work) = self.works_running.remove(&id) {
            let ask = <M as Machine<H>>::status;
            let s = ask(&mut work[0]);
            proof {
                assert(reported_by_status::<M, H>(s));
            }
            let ghost before = self.works_running@;
            self.works_running.insert(id, work);
            proof {
                assert(self.works_running@.dom() =~= old(self).works_running@.dom());
            }
            Ok(s)
        } else {
            match self.works_ended.get(&id) {
                Some(status) => Ok(copy_status(status)),
                None => Err(Error::WorkError(WorkError::NoSuchWork { id })),
            }
        }
    }

    /// Waits for the machines of the work `id` to end, and records the
    /// status that the first reports; a work that does not run is answered
    /// as by [`Self::status`].
    pub fn join(&mut self, id: WorkId) -> (r: Result<WorkStatus>)
        requires
            old(self).running().contains_key(id) ==> (old(self).running()[id]@.len() > 0 || old(self).ended().contains_key(id)),
        ensures
            final(self).signals() == old(self).signals(),
            old(self).running().contains_key(id) ==> (final(self).running() == old(self).running().remove(id) && final(self).ended().dom() == old(self).ended().dom().insert(id)
                && (forall|k: WorkId| k != id && #[trigger] old(self).ended().contains_key(k) ==> final(self).ended()[k] == old(self).ended()[k]) && (r matches Ok(s) && answer_of(
                final(self).running(),
                final(self).ended(),
                id,
            ) == WorkAnswer::Ended(status_model(s)))),
            !old(self).running().contains_key(id) ==> (final(self).ended() == old(self).ended()
                && final(self).running() == old(self).running() && match answer_of(
                old(self).running(),
                old(self).ended(),
                id,
            ) {
                WorkAnswer::Ended(m) => r matches Ok(s) && status_model(s) == m,
                _ => r matches Err(Error::WorkError(WorkError::NoSuchWork { id: x })) && x == id,
            }),
            old(self).running().contains_key(id) && old(self).running()[id]@.len() > 0
                ==> reported_by_join::<M, H>(final(self).ended()[id]),
            old(self).running().contains_key(id) && old(self).running()[id]@.len() > 0 ==> ({
                let reports = final(self).end_reports()[id];
                &&& final(self).end_reports().contains_key(id)
                &&& reports.len() == old(self).running()[id]@.len()
                &&& forall|k: int| 0 <= k < reports.len() ==> reported_by_join::<M, H>(#[trigger] reports[k])
                &&& final(self).ended()[id] == reports[0]
            }),
    {
        self.finish(id, false)
    }

    /// Stops the machines of the work `id`, and records the status that the
    /// first reports; a work that does not run is answered as by
    /// [`Self::status`].
    pub fn terminate(&mut self, id: WorkId) -> (r: Result<WorkStatus>)
        requires
            old(self).running().contains_key(id) ==> (old(self).running()[id]@.len() > 0 || old(self).ended().contains_key(id)),
        ensures
            final(self).signals() == old(self).signals(),
            old(self).running().contains_key(id) ==> (final(self).running() == old(self).running().remove(id) && final(self).ended().dom() == old(self).ended().dom().insert(id)
                && (forall|k: WorkId| k != id && #[trigger] old(self).ended().contains_key(k) ==> final(self).ended()[k] == old(self).ended()[k]) && (r matches Ok(s) && answer_of(
                final(self).running(),
                final(self).ended(),
                id,
            ) == WorkAnswer::Ended(status_model(s)))),
            !old(self).running().contains_key(id) ==> (final(self).ended() == old(self).ended()
                && final(self).running() == old(self).running() && match answer_of(
                old(self).running(),
                old(self).ended(),
                id,
            ) {
                WorkAnswer::Ended(m) => r matches Ok(s) && status_model(s) == m,
                _ => r matches Err(Error::WorkError(WorkError::NoSuchWork { id: x })) && x == id,
            }),
            old(self).running().contains_key(id) && old(self).running()[id]@.len() > 0
                ==> reported_by_terminate::<M, H>(final(self).ended()[id]),
            old(self).running().contains_key(id) && old(self).running()[id]@.len() > 0 ==> ({
                let reports = final(self).end_reports()[id];
                &&& final(self).end_reports().contains_key(id)
                &&& reports.len() == old(self).running()[id]@.len()
                &&& forall|k: int| 0 <= k < reports.len() ==> reported_by_terminate::<M, H>(#[trigger] reports[k])
                &&& final(self).ended()[id] == reports[0]
            }),
    {
        self.finish(id, true)
    }

    /// Ends the work `id`, by stopping its machines or waiting for them.
    fn finish(&mut self, id: WorkId, stop: bool) -> (r: Result<WorkStatus>)
        requires
            old(self).running().contains_key(id) ==> (old(self).running()[id]@.len() > 0 || old(self).ended().contains_key(id)),
        ensures
            final(self).signals() == old(self).signals(),
            old(self).running().contains_key(id) ==> (final(self).running() == old(self).running().remove(id) && final(self).ended().dom() == old(self).ended().dom().insert(id)
                && (forall|k: WorkId| k != id && #[trigger] old(self).ended().contains_key(k) ==> final(self).ended()[k] == old(self).ended()[k]) && (r matches Ok(s) && answer_of(
                final(self).running(),
                final(self).ended(),
                id,
            ) == WorkAnswer::Ended(status_model(s)))),
            !old(self).running().contains_key(id) ==> (final(self).ended() == old(self).ended()
                && final(self).running() == old(self).running() && match answer_of(
                old(self).running(),
                old(self).ended(),
                id,
            ) {
                WorkAnswer::Ended(m) => r matches Ok(s) && status_model(s) == m,
                _ => r matches Err(Error::WorkError(WorkError::NoSuchWork { id: x })) && x == id,
            }),
            old(self).running().contains_key(id) && old(self).running()[id]@.len() > 0 ==> (if stop {
                reported_by_terminate::<M, H>(final(self).ended()[id])
            } else {
                reported_by_join::<M, H>(final(self).ended()[id])
            }),
            old(self).running().contains_key(id) && old(self).running()[id]@.len() > 0 ==> ({
                let reports = final(self).end_reports()[id];
                &&& final(self).end_reports().contains_key(id)
                &&& reports.len() == old(self).running()[id]@.len()
                &&& forall|k: int|
                    0 <= k < reports.len() ==> (if stop {
                        reported_by_terminate::<M, H>(#[trigger] reports[k])
                    } else {
                        reported_by_join::<M, H>(reports[k])
                    })
                &&& final(self).ended()[id] == reports[0]
            }),
    {
        match self.works_running.remove(&id) {
            Some(mut work) => {
                let ghost ended0 = self.works_ended@;
                let ghost mut reports: Seq<WorkStatus> = Seq::empty();
                let mut k: usize = 0;
                while k < work.len()
                    invariant
                        work@.len() > 0 || ended0.contains_key(id),
                        work@.len() == old(self).works_running@[id]@.len(),
                        k <= work@.len(),
                        k == 0 ==> self.works_ended@ == ended0,
                        k > 0 ==> self.works_ended@.dom() == ended0.dom().insert(id),
                        k > 0 ==> forall|x: WorkId|
                            x != id && #[trigger] ended0.contains_key(x) ==> self.works_ended@[x]
                                == ended0[x],
                        self.works_running@ == old(self).works_running@.remove(id),
                        self.handler == old(self).handler,
                        k > 0 ==> (if stop {
                            reported_by_terminate::<M, H>(self.works_ended@[id])
                        } else {
                            reported_by_join::<M, H>(self.works_ended@[id])
                        }),
                        reports.len() == k,
                        k > 0 ==> self.works_ended@[id] == reports[0],
                        forall|j: int|
                            0 <= j < k ==> (if stop {
                                reported_by_terminate::<M, H>(#[trigger] reports[j])
                            } else {
                                reported_by_join::<M, H>(reports[j])
                            }),
                        self.end_reports@ == old(self).end_reports@,
                    decreases work@.len() - k,
                {
                    let status = if stop {
                        let stop_machine = <M as Machine<H>>::terminate;
                        let s = stop_machine(&mut work[k]);
                        proof {
                            assert(reported_by_terminate::<M, H>(s));
                        }
                        s
                    } else {
                        let join_machine = <M as Machine<H>>::join;
                        let s = join_machine(&mut work[k]);
                        proof {
                            assert(reported_by_join::<M, H>(s));
                        }
                        s
                    };
                    proof {
                        reports = reports.push(status);
                    }
                    if k == 0 {
                        self.works_ended.insert(id, status);
                        proof {
                            assert(self.works_ended@.dom() =~= ended0.dom().insert(id));
                        }
                    }
                    k = k + 1;
                }
                proof {
                    self.end_reports = Ghost(self.end_reports@.insert(id, reports));
                }
                let s = copy_status(self.works_ended.get(&id).unwrap());
                Ok(s)
            },
            None => {
                match self.works_ended.get(&id) {
                    Some(status) => Ok(copy_status(status)),
                    None => Err(Error::WorkError(WorkError::NoSuchWork { id })),
                }
            },
        }
    }

    /// Waits for the machines of every running work to end, and forgets
    /// the works.
    pub fn join_all(&mut self)
        ensures
            final(self).running() == Map::<WorkId, Vec<M>>::empty(),
            final(self).ended() == old(self).ended(),
            final(self).signals() == old(self).signals(),
    {
        self.finish_all(false);
    }

    /// Stops the machines of every running work, and forgets the works.
    pub fn terminate_all(&mut self)
        ensures
            final(self).running() == Map::<WorkId, Vec<M>>::empty(),
            final(self).ended() == old(self).ended(),
            final(self).signals() == old(self).signals(),
    {
        self.finish_all(true);
    }

    /// Ends every running work, by stopping its machines or waiting for
    /// them, and forgets the works.
    fn finish_all(&mut self, stop: bool)
        ensures
            final(self).running() == Map::<WorkId, Vec<M>>::empty(),
            final(self).ended() == old(self).ended(),
            final(self).signals() == old(self).signals(),
    {
        let mut ids: Vec<WorkId> = Vec::new();
        for id in self.works_running.keys() {
            ids.push(*id);
        }
        let mut i: usize = 0;
        while i < ids.len()
            invariant
                i <= ids@.len(),
                self.works_ended@ == old(self).works_ended@,
                self.handler == old(self).handler,
            decreases ids@.len() - i,
        {
            if let Some(mut work) = self.works_running.remove(&ids[i]) {
                let mut k: usize = 0;
                while k < work.len()
                    invariant
                        k <= work@.len(),
                    decreases work@.len() - k,
                {
                    if stop {
                        work[k].terminate();
                    } else {
                        work[k].join();
                    }
                    k = k + 1;
                }
            }
            i = i + 1;
        }
        self.works_running.clear();
    }

    /// Starts the program of the work on the machines of the work, the
    /// machine at position `i` as the one numbered `id_primaries[i]`; the
    /// status that the machine numbered 0 reports is returned, else a
    /// default status.
    pub fn spawn(&mut self, id_primaries: Vec<MachineId>, program: Program, local_signal: String) -> (r: WorkStatus)
        requires
            old(self).running().contains_key(program.id.work),
        ensures
            final(self).running().dom() == old(self).running().dom(),
            final(self).ended() == old(self).ended(),
            final(self).signals() == old(self).signals(),
            !(exists|i: int|
                0 <= i < id_primaries@.len() && i < old(self).running()[program.id.work]@.len()
                    && #[trigger] id_primaries@[i] == 0) ==> status_model(r) == status_model(
                WorkStatus::default_status(),
            ),
            (exists|i: int|
                0 <= i < id_primaries@.len() && i < old(self).running()[program.id.work]@.len()
                    && #[trigger] id_primaries@[i] == 0) ==> reported_by_spawn::<M, H>(r),
    {
        let mut program = program;
        program.id.local_signal = local_signal;
        let mut status = WorkStatus::default();
        let work_id = program.id.work;
        let mut work = self.works_running.remove(&work_id).unwrap();
        let ghost machines = work@;
        let mut k: usize = 0;
        while k < id_primaries.len() && k < work.len()
            invariant
                k <= id_primaries@.len(),
                k <= work@.len(),
                work@.len() == machines.len(),
                !(exists|i: int| 0 <= i < k && #[trigger] id_primaries@[i] == 0) ==> status_model(status)
                    == status_model(WorkStatus::default_status()),
                (exists|i: int| 0 <= i < k && #[trigger] id_primaries@[i] == 0) ==> reported_by_spawn::<
                    M,
                    H,
                >(status),
            decreases id_primaries@.len() - k,
        {
            let id_primary = id_primaries[k];
            program.id.primary = id_primary;
            program.id.local = k as MachineId;
            let spawn_machine = <M as Machine<H>>::spawn;
            let s = spawn_machine(&mut work[k], &mut program, &self.handler);
            proof {
                assert(reported_by_spawn::<M, H>(s));
            }
            if id_primary == 0 {
                status = s;
            }
            k = k + 1;
        }
        self.works_running.insert(work_id, work);
        proof {
            assert(self.works_running@.dom() =~= old(self).works_running@.dom());
        }
        status
    }
}

} // verus!
