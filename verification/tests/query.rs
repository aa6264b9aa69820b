use n3::machine::query::{LocalQuery, Query, QueryError};

fn test_parse_with(machine_struct: Query, query: &str) {
    let machine_query = Query::parse(query).unwrap();
    let query_recon = machine_query.to_string();
    let machine_query_recon = Query::parse(&query_recon).unwrap();

    assert_eq!(&machine_struct, &machine_query);
    assert_eq!(&machine_struct, &machine_query_recon);
}

#[test]
fn test_parse_with_local() {
    test_parse_with(Default::default(), "");
    test_parse_with(
        Query {
            device: Some("cpu".to_string()),
            ..Default::default()
        },
        "cpu",
    );
    test_parse_with(
        Query {
            device: Some("cpu".to_string()),
            id: Some("0".to_string()),
            ..Default::default()
        },
        "cpu:0",
    );
}

#[test]
fn test_parse_with_domain() {
    test_parse_with(
        Query {
            domain: Some("localhost".to_string()),
            device: Some("cpu".to_string()),
            ..Default::default()
        },
        "localhost:cpu:",
    );
    test_parse_with(
        Query {
            domain: Some("localhost".to_string()),
            device: Some("cpu".to_string()),
            id: Some("0".to_string()),
            ..Default::default()
        },
        "localhost:cpu:0",
    );
}

#[test]
fn parse_with_provider() {
    let q = Query::parse("aws:example.org:cuda:1").unwrap();
    assert_eq!(q.provider.as_deref(), Some("aws"));
    assert_eq!(q.domain.as_deref(), Some("example.org"));
    assert_eq!(q.device.as_deref(), Some("cuda"));
    assert_eq!(q.id.as_deref(), Some("1"));
    assert_eq!(q.to_string(), "aws:example.org:cuda:1");
}

#[test]
fn parse_refuses_five_pieces() {
    match Query::parse("a:b:c:d:e") {
        Err(QueryError::UnexpectedTokens { query }) => assert_eq!(query, "a:b:c:d:e"),
        other => panic!("unexpected {:?}", other),
    }
}

#[test]
fn text_of_domain_query_keeps_the_trailing_colon() {
    let q = Query {
        domain: Some("localhost".to_string()),
        device: Some("cpu".to_string()),
        ..Default::default()
    };
    assert_eq!(q.to_string(), "localhost:cpu:");
}

#[test]
fn local_query_text() {
    let q = Query::parse("localhost:cuda:3").unwrap();
    assert_eq!(LocalQuery(&q).to_string(), "cuda:3");
    let q = Query::parse("cpu").unwrap();
    assert_eq!(LocalQuery(&q).to_string(), "cpu");
}

#[test]
fn weak_and_device_matching() {
    let pattern = Query::parse("cuda").unwrap();
    let target = Query::parse("localhost:cuda:0").unwrap();
    assert!(pattern.eq_weakly(&target));
    assert!(!target.eq_weakly(&pattern));
    assert!(pattern.eq_weakly(&pattern));
    let other = Query::parse("cpu:0").unwrap();
    assert!(!pattern.eq_weakly(&other));
    assert!(Query::parse("cuda:0").unwrap().eq_device(&target));
    assert!(!Query::parse("cuda:1").unwrap().eq_device(&target));
}
