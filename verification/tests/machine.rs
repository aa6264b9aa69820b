use n3::machine::error::{Error, NetError};
use n3::machine::host::{matching_generators, Error as HostError, LoadError};
use n3::machine::net::{group_by_host, host_address, plan_load, spawn_ranges, HostAddress, NetHost, Response};
use n3::machine::program::{id_to_name, MachineIdSet, Program, SignalData, WorkStatus};
use n3::machine::query::{Query, QueryError};

fn q(s: &str) -> Query {
    Query::parse(s).unwrap()
}

#[test]
fn groups_queries_by_host() {
    let groups = group_by_host(vec![q("b.org:cuda:0"), q("cpu"), q("a.org:cuda:1"), q("b.org:cpu:0"), q("cuda:1")]);
    let hosts: Vec<Option<String>> = groups.iter().map(|(h, _)| h.domain.clone()).collect();
    assert_eq!(hosts, vec![None, Some("a.org".to_string()), Some("b.org".to_string())]);
    assert_eq!(groups[0].1, vec![q("cpu"), q("cuda:1")]);
    assert_eq!(groups[2].1, vec![q("b.org:cuda:0"), q("b.org:cpu:0")]);
}

#[test]
fn plans_a_load() {
    match plan_load(&vec![]) {
        Err(Error::QueryError(QueryError::EmptyMachines)) => {}
        other => panic!("unexpected {:?}", other),
    }
    match plan_load(&vec!["cpu".to_string(), "a:b:c:d:e".to_string(), "x:y:z:w:v".to_string()]) {
        Err(Error::QueryError(QueryError::UnexpectedTokens { query })) => assert_eq!(query, "a:b:c:d:e"),
        other => panic!("unexpected {:?}", other),
    }
    let groups = plan_load(&vec!["cpu:0".to_string(), "cpu:1".to_string()]).unwrap();
    assert_eq!(groups.len(), 1);
    assert_eq!(groups[0].1.len(), 2);
}

#[test]
fn chooses_host_addresses() {
    let local = NetHost { provider: None, domain: None };
    assert!(matches!(host_address(&local, 1), HostAddress::Local));
    assert!(matches!(host_address(&local, 2), HostAddress::Public));
    let remote = NetHost { provider: None, domain: Some("example.org".to_string()) };
    match host_address(&remote, 2) {
        HostAddress::Domain(d) => assert_eq!(d, "example.org"),
        other => panic!("unexpected {:?}", other),
    }
}

#[test]
fn machine_ids_cover_the_world() {
    let (world, ranges) = spawn_ranges(&vec![2, 0, 3]);
    assert_eq!(world, 5);
    assert_eq!(ranges, vec![vec![0, 1], vec![], vec![2, 3, 4]]);
    let flat: Vec<u64> = ranges.into_iter().flatten().collect();
    assert_eq!(flat, (0..5).collect::<Vec<u64>>());
}

#[test]
fn responses() {
    assert_eq!(Response::Load { num_machines: 4 }.load(), Ok(4));
    assert_eq!(Response::Error { message: "down".to_string() }.load(), Err("down".to_string()));
    let status = Response::Status { status: WorkStatus::default() }.status().unwrap();
    assert!(!status.is_running);
    assert!(Response::Error { message: "down".to_string() }.status().is_err());
}

#[test]
fn names_of_works_and_programs() {
    let id = MachineIdSet { work: 1234, primary: 5, ..Default::default() };
    assert_eq!(id_to_name(&id), "work-1234");
    assert_eq!(Program::file_name(&id), "n3-program-1234-5.bin");
}

#[test]
fn work_status_transitions() {
    let mut s = WorkStatus::default();
    s.start(1_000);
    assert!(s.is_running);
    s.update_time(3);
    assert_eq!(s.date_end, Some(3_000_001_000));
    s.end_err("boom", 9_000);
    assert!(!s.is_running);
    assert_eq!(s.error_msg.as_deref(), Some("boom"));
    assert_eq!(s.date_end, Some(9_000));
    let mut t = WorkStatus::default();
    t.start(5);
    t.end_ok(6);
    assert_eq!((t.is_running, t.date_begin, t.date_end), (false, Some(5), Some(6)));
    assert!(SignalData::default().running);
}

#[test]
fn generators_that_match() {
    let patterns = vec![q("cuda"), q("cpu"), q("cuda:0")];
    assert_eq!(matching_generators(&patterns, &q("localhost:cuda:0")), vec![0, 2]);
    assert_eq!(matching_generators(&patterns, &q("cpu:3")), vec![1]);
    assert!(matching_generators(&patterns, &q("tpu")).is_empty());
}

#[test]
fn errors_convert() {
    let e: Error = QueryError::EmptyMachines.into();
    assert!(matches!(e, Error::QueryError(QueryError::EmptyMachines)));
    let e: Error = NetError("lost".to_string()).into();
    assert!(matches!(e, Error::NetError(_)));
    let e: HostError = LoadError::NoSuchMachine { query: q("tpu") }.into();
    assert!(matches!(e, HostError::LoadError(_)));
}
