use vstd::prelude::*;

use vstd::string::StringExecFns;

use crate::text::{decimal_of, format_u128};

verus! {

/// The id of a work.
pub type WorkId = u128;

/// The id of a machine within a work.
pub type MachineId = u64;

/// Where a machine stands in a work: the work, its number among all the
/// machines of the work and among those of its host, how many machines the
/// work has, the address of the master and the signal of its host.
#[derive(Debug)]
pub struct MachineIdSet {
    pub work: WorkId,
    pub primary: MachineId,
    pub local: MachineId,
    pub world: MachineId,
    pub master_addr: String,
    pub local_signal: String,
}

impl Default for MachineIdSet {
    fn default() -> (r: Self)
        ensures
            r.work == 0,
            r.primary == 0,
            r.local == 0,
            r.world == 0,
            r.master_addr@.len() == 0,
            r.local_signal@.len() == 0,
    {
        Self {
            work: 0,
            primary: 0,
            local: 0,
            world: 0,
            master_addr: String::new(),
            local_signal: String::new(),
        }
    }
}

/// A program to run on a machine: where it stands, the machine, the command
/// and the program's text.
#[derive(Debug)]
pub struct Program {
    pub id: MachineIdSet,
    pub machine: String,
    pub command: String,
    pub text: Vec<u8>,
}

/// The name of the file that carries the program of a machine:
/// `n3-program-{work}-{primary}.bin`.
pub open spec fn program_file_name_of(id: MachineIdSet) -> Seq<char> {
    seq!['n', '3', '-', 'p', 'r', 'o', 'g', 'r', 'a', 'm', '-'] + decimal_of(id.work as nat) + seq!['-']
        + decimal_of(id.primary as nat) + seq!['.', 'b', 'i', 'n']
}

impl Program {
    /// The name of the file, in the temporary directory, that carries the
    /// program of the machine `id`.
    pub fn file_name(id: &MachineIdSet) -> (r: String)
        ensures
            r@ == program_file_name_of(*id),
    {
        proof {
            reveal_strlit("n3-program-");
            reveal_strlit("-");
            reveal_strlit(".bin");
        }
        let mut r = String::from_str("n3-program-");
        r.append(format_u128(id.work).as_str());
        r.append("-");
        r.append(format_u128(id.primary as u128).as_str());
        r.append(".bin");
        proof {
            assert(r@ =~= program_file_name_of(*id));
        }
        r
    }
}

/// The name of the shared status of a work: `work-{work}`.
pub open spec fn work_name_of(id: MachineIdSet) -> Seq<char> {
    seq!['w', 'o', 'r', 'k', '-'] + decimal_of(id.work as nat)
}

/// The name of the shared status of the work of a machine.
pub fn id_to_name(id: &MachineIdSet) -> (r: String)
    ensures
        r@ == work_name_of(*id),
{
    proof {
        reveal_strlit("work-");
    }
    let mut r = String::from_str("work-");
    r.append(format_u128(id.work).as_str());
    proof {
        assert(r@ =~= work_name_of(*id));
    }
    r
}

/// The status of a work: whether it runs, the message of its failure, and
/// when it began and ended, in nanoseconds since the Unix epoch.
#[derive(Debug)]
pub struct WorkStatus {
    pub is_running: bool,
    pub error_msg: Option<String>,
    pub date_begin: Option<i64>,
    pub date_end: Option<i64>,
}

impl Default for WorkStatus {
    fn default() -> (r: Self)
        ensures
            !r.is_running,
            r.error_msg is None,
            r.date_begin is None,
            r.date_end is None,
    {
        Self { is_running: false, error_msg: None, date_begin: None, date_end: None }
    }
}

impl WorkStatus {
    /// The status of a work that has not begun.
    pub open spec fn default_status() -> WorkStatus {
        WorkStatus { is_running: false, error_msg: None, date_begin: None, date_end: None }
    }

    /// Sets the end of the work `total_secs` seconds after its beginning.
    pub fn update_time(&mut self, total_secs: i64)
        requires
            old(self).date_begin is Some,
            i64::MIN <= total_secs * 1_000_000_000 <= i64::MAX,
            i64::MIN <= old(self).date_begin->0 + total_secs * 1_000_000_000 <= i64::MAX,
        ensures
            final(self).date_end == Some((old(self).date_begin->0 + total_secs * 1_000_000_000) as i64),
            final(self).is_running == old(self).is_running,
            final(self).error_msg == old(self).error_msg,
            final(self).date_begin == old(self).date_begin,
    {
        let begin = self.date_begin.unwrap();
        self.date_end = Some(begin + total_secs * 1_000_000_000);
    }

    /// Marks the work running since `now`.
    pub fn start(&mut self, now: i64)
        ensures
            final(self).is_running,
            final(self).date_begin == Some(now),
            final(self).error_msg == old(self).error_msg,
            final(self).date_end == old(self).date_end,
    {
        self.is_running = true;
        self.date_begin = Some(now);
    }

    /// Marks the work ended well at `now`.
    pub fn end_ok(&mut self, now: i64)
        ensures
            !final(self).is_running,
            final(self).date_end == Some(now),
            final(self).error_msg == old(self).error_msg,
            final(self).date_begin == old(self).date_begin,
    {
        self.is_running = false;
        self.date_end = Some(now);
    }

    /// Marks the work ended at `now` by the failure `msg`.
    pub fn end_err(&mut self, msg: &str, now: i64)
        ensures
            !final(self).is_running,
            final(self).error_msg matches Some(m) && m@ == msg@,
            final(self).date_end == Some(now),
            final(self).date_begin == old(self).date_begin,
    {
        self.is_running = false;
        self.error_msg = Some(String::from_str(msg));
        self.date_end = Some(now);
    }
}

/// Whether the processes of a host should keep running.
#[derive(Debug)]
pub struct SignalData {
    pub running: bool,
}

impl Default for SignalData {
    fn default() -> (r: Self)
        ensures
            r.running,
    {
        Self { running: true }
    }
}

} // verus!
