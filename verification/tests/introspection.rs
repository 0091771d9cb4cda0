use router_core::introspection::DEFAULT_INTROSPECTION_CACHE_CAPACITY;
use router_core::introspection::GraphqlResponse;
use router_core::introspection::Introspection;
use router_core::values::Value;

#[test]
fn test_plan_cache() {
    let query_to_test = "this is a test query";
    let expected_data = GraphqlResponse::with_data(Value::I64(42));

    let cache = vec![(query_to_test.to_string(), expected_data.duplicate())];
    let introspection = Introspection::from_cache(cache);

    let got = introspection.cached(&query_to_test.to_string()).unwrap();
    assert!(matches!(got.data, Some(Value::I64(42))));
    assert!(got.errors.is_empty());
}

#[test]
fn miss_is_settled_by_the_planner_answer() {
    let mut introspection = Introspection::new();
    let query = "query { __schema { types { name } } }".to_string();
    assert!(introspection.cached(&query).is_none());

    let answer = GraphqlResponse::with_data(Value::I64(7));
    let result = introspection.settle(query.clone(), Some(answer));
    let resp = result.unwrap();
    assert!(matches!(resp.data, Some(Value::I64(7))));
    assert!(resp.errors.is_empty());

    // The settled response is now cached.
    let cached = introspection.cached(&query).unwrap();
    assert!(matches!(cached.data, Some(Value::I64(7))));
}

#[test]
fn planner_silence_reports_missing_response() {
    let mut introspection = Introspection::new();
    let result = introspection.settle("query { x }".to_string(), None);
    match result {
        Err(e) => assert_eq!(e.message, "cannot find the introspection response"),
        Ok(_) => panic!("expected an error"),
    }
}

#[test]
fn planner_errors_are_joined_into_one_message() {
    let mut introspection = Introspection::new();
    let answer = GraphqlResponse {
        data: None,
        errors: vec!["first".to_string(), "second".to_string()],
    };
    let result = introspection.settle("query { x }".to_string(), Some(answer));
    match result {
        Err(e) => assert_eq!(e.message, "introspection error : first, second"),
        Ok(_) => panic!("expected an error"),
    }
}

#[test]
fn capacity_is_bounded() {
    let mut introspection = Introspection::with_capacity(2);
    for i in 0..5i64 {
        let q = format!("query number {i}");
        assert!(introspection.cached(&q).is_none());
        let answer = GraphqlResponse::with_data(Value::I64(i));
        introspection.settle(q.clone(), Some(answer)).unwrap();
        let back = introspection.cached(&q).unwrap();
        assert!(matches!(back.data, Some(Value::I64(v)) if v == i));
    }
    // The two most recent entries are held; the oldest were evicted.
    assert!(introspection.cached(&"query number 4".to_string()).is_some());
    assert!(introspection.cached(&"query number 3".to_string()).is_some());
    assert!(introspection.cached(&"query number 0".to_string()).is_none());
}

#[test]
fn default_capacity_matches_constant() {
    assert_eq!(DEFAULT_INTROSPECTION_CACHE_CAPACITY, 5);
    let mut introspection = Introspection::new();
    for i in 0..DEFAULT_INTROSPECTION_CACHE_CAPACITY as i64 {
        let q = format!("q{i}");
        introspection.settle(q, Some(GraphqlResponse::with_data(Value::I64(i)))).unwrap();
    }
    assert!(introspection.cached(&"q0".to_string()).is_some());
}
