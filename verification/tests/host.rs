use n3::machine::host::{Error, HostMachine, LoadError, Machine, WorkError};
use n3::machine::program::{Program, WorkStatus};
use n3::machine::query::Query;

struct Fake {
    id: u64,
    joined: bool,
}

impl Machine<String> for Fake {
    fn spawn(&mut self, program: &mut Program, handler: &String) -> WorkStatus {
        WorkStatus {
            is_running: true,
            error_msg: Some(format!("{}:{}:{}:{}", handler, program.id.primary, program.id.local, self.id)),
            date_begin: Some(1),
            date_end: None,
        }
    }

    fn status(&mut self) -> WorkStatus {
        WorkStatus { is_running: !self.joined, error_msg: None, date_begin: Some(1), date_end: None }
    }

    fn join(&mut self) -> WorkStatus {
        self.joined = true;
        WorkStatus {
            is_running: false,
            error_msg: Some(format!("joined {}", self.id)),
            date_begin: Some(1),
            date_end: Some(2),
        }
    }

    fn terminate(&mut self) -> WorkStatus {
        WorkStatus { is_running: false, error_msg: Some("stopped".to_string()), date_begin: None, date_end: None }
    }
}

fn fakes(ids: &[u64]) -> Option<Vec<Fake>> {
    Some(ids.iter().map(|&id| Fake { id, joined: false }).collect())
}

#[test]
fn loads_and_answers_for_works() {
    let mut host: HostMachine<Fake, String> = HostMachine::new("signal".to_string());
    let n = host
        .load(7, vec![(Query::parse("cpu").unwrap(), fakes(&[10, 11])), (Query::parse("cuda").unwrap(), fakes(&[12]))])
        .unwrap();
    assert_eq!(n, 3);
    assert!(host.status(7).unwrap().is_running);
    match host.status(8) {
        Err(Error::WorkError(WorkError::NoSuchWork { id })) => assert_eq!(id, 8),
        other => panic!("unexpected {:?}", other.map(|s| s.is_running)),
    }
    match host.load(9, vec![(Query::parse("cpu").unwrap(), fakes(&[1])), (Query::parse("tpu").unwrap(), None)]) {
        Err(Error::LoadError(LoadError::NoSuchMachine { query })) => assert_eq!(query, Query::parse("tpu").unwrap()),
        other => panic!("unexpected {:?}", other.map(|n| n)),
    }
    assert!(host.status(9).is_err());
}

#[test]
fn spawn_reports_the_primary_machine() {
    let mut host: HostMachine<Fake, String> = HostMachine::new("sig".to_string());
    host.load(1, vec![(Query::parse("cpu").unwrap(), fakes(&[10, 11]))]).unwrap();
    let mut program = Program { id: Default::default(), machine: String::new(), command: "train".to_string(), text: vec![] };
    program.id.work = 1;
    let status = host.spawn(vec![4, 0], program, "sig".to_string());
    assert_eq!(status.error_msg.as_deref(), Some("sig:0:1:11"));
    let mut program = Program { id: Default::default(), machine: String::new(), command: "train".to_string(), text: vec![] };
    program.id.work = 1;
    let status = host.spawn(vec![4, 5], program, "sig".to_string());
    assert!(!status.is_running);
    assert!(status.error_msg.is_none());
}

#[test]
fn status_after_join_is_the_joined_status() {
    let mut host: HostMachine<Fake, String> = HostMachine::new("sig".to_string());
    host.load(3, vec![(Query::parse("cpu").unwrap(), fakes(&[20, 21]))]).unwrap();
    let joined = host.join(3).unwrap();
    assert_eq!(joined.error_msg.as_deref(), Some("joined 20"));
    let again = host.status(3).unwrap();
    assert_eq!(again.error_msg.as_deref(), Some("joined 20"));
    assert_eq!(host.join(3).unwrap().error_msg.as_deref(), Some("joined 20"));
    host.load(4, vec![(Query::parse("cpu").unwrap(), fakes(&[30]))]).unwrap();
    assert_eq!(host.terminate(4).unwrap().error_msg.as_deref(), Some("stopped"));
    host.load(5, vec![(Query::parse("cpu").unwrap(), fakes(&[40]))]).unwrap();
    host.join_all();
    assert!(host.status(5).is_err());
    assert_eq!(host.status(4).unwrap().error_msg.as_deref(), Some("stopped"));
}

#[test]
fn loaded_machines_keep_their_order() {
    let mut host: HostMachine<Fake, String> = HostMachine::new("sig".to_string());
    host.load(5, vec![(Query::parse("cpu").unwrap(), fakes(&[31, 32])), (Query::parse("cuda").unwrap(), fakes(&[33]))])
        .unwrap();
    let mut program = Program { id: Default::default(), machine: String::new(), command: "train".to_string(), text: vec![] };
    program.id.work = 5;
    // the third machine loaded is the one at position 2
    let status = host.spawn(vec![7, 8, 0], program, "sig".to_string());
    assert_eq!(status.error_msg.as_deref(), Some("sig:0:2:33"));
    // the terminated work records what its first machine reported
    let stopped = host.terminate(5).unwrap();
    assert_eq!(stopped.error_msg.as_deref(), Some("stopped"));
    assert_eq!(host.status(5).unwrap().error_msg.as_deref(), Some("stopped"));
}
