use router_core::OperationKind;
use router_core::dedup::CloneSubgraphResponse;
use router_core::dedup::Coordinator;
use router_core::dedup::FollowerAction;
use router_core::dedup::Outcome;
use router_core::dedup::Registration;
use router_core::dedup::Route;
use router_core::dedup::SlotStatus;
use router_core::dedup::broadcast_of;
use router_core::dedup::follower_step;
use router_core::dedup::leader_abandon;
use router_core::dedup::leader_finish;
use router_core::dedup::route_of;
use router_core::http::ExecutionContext;
use router_core::http::FetchError;
use router_core::http::HttpRequestParts;
use router_core::http::HttpResponseParts;
use router_core::http::SubgraphRequest;
use router_core::http::SubgraphResponse;
use router_core::http::clone_fingerprint;
use router_core::http::fingerprint_matches;
use router_core::http::fingerprint_of;

fn request(body: &str, kind: OperationKind, ctx: u64) -> SubgraphRequest {
    SubgraphRequest {
        subgraph_request: HttpRequestParts {
            method: "POST".to_string(),
            target: "https://service/graphql".to_string(),
            headers: vec![("content-type".to_string(), "application/json".to_string())],
            body: body.to_string(),
        },
        operation_kind: kind,
        context: ExecutionContext { id: ctx },
    }
}

fn ok_payload(body: &str, ctx: u64) -> CloneSubgraphResponse {
    CloneSubgraphResponse(SubgraphResponse {
        response: HttpResponseParts {
            status: 200,
            headers: vec![],
            body: body.to_string(),
        },
        context: ExecutionContext { id: ctx },
    })
}

/// Five concurrent identical queries: one leader, four followers, one
/// downstream invocation, and all five callers see the same payload.
#[test]
fn five_concurrent_queries_share_one_call() {
    let mut coordinator = Coordinator::new();
    let requests: Vec<SubgraphRequest> =
        (0..5).map(|i| request(r#"{"query":"{foo}"}"#, OperationKind::Query, i)).collect();
    for r in &requests {
        assert!(matches!(route_of(r), Route::Coalesce));
    }

    let mut invocations = 0;
    let mut leader_slot = None;
    let mut followers = Vec::new();
    for r in &requests {
        let fp = fingerprint_of(r);
        match coordinator.register(&fp) {
            Registration::Leader(slot) => {
                invocations += 1;
                leader_slot = Some((slot, fp, r.context));
            }
            Registration::Follower(slot) => followers.push((slot, r.context)),
        }
    }
    assert_eq!(invocations, 1);
    assert_eq!(followers.len(), 4);

    // The leader performs the single downstream call and publishes.
    let (slot, fp, leader_ctx) = leader_slot.unwrap();
    let result = leader_finish(
        &mut coordinator,
        &fp,
        slot,
        Ok(ok_payload(r#"{"data":{"foo":1}}"#, leader_ctx.id)),
        leader_ctx,
    );
    let leader_response = result.unwrap();
    assert_eq!(leader_response.response.body, r#"{"data":{"foo":1}}"#);

    // Every follower observes the published outcome and gets the same body.
    for (slot, ctx) in followers {
        match follower_step(coordinator.observe(slot), ctx) {
            FollowerAction::Deliver(Ok(resp)) => {
                assert_eq!(resp.response.body, r#"{"data":{"foo":1}}"#);
            }
            _ => panic!("follower expected a published success"),
        }
    }
}

/// A query and a mutation with equal fingerprints never share a call:
/// mutations bypass the coordinator, so two invocations occur.
#[test]
fn query_and_mutation_do_not_coalesce() {
    let query = request(r#"{"query":"mutation{bump}"}"#, OperationKind::Query, 1);
    let mutation = request(r#"{"query":"mutation{bump}"}"#, OperationKind::Mutation, 2);
    assert!(fingerprint_matches(&fingerprint_of(&query), &fingerprint_of(&mutation)));

    let mut coordinator = Coordinator::new();
    let mut invocations = 0;
    match route_of(&query) {
        Route::Coalesce => {
            if let Registration::Leader(_) = coordinator.register(&fingerprint_of(&query)) {
                invocations += 1;
            }
        }
        Route::Bypass => invocations += 1,
    }
    match route_of(&mutation) {
        Route::Coalesce => {
            if let Registration::Leader(_) = coordinator.register(&fingerprint_of(&mutation)) {
                invocations += 1;
            }
        }
        Route::Bypass => invocations += 1,
    }
    assert_eq!(invocations, 2);
}

/// Different fingerprints each trigger their own downstream invocation.
#[test]
fn distinct_fingerprints_do_not_coalesce() {
    let a = request(r#"{"query":"{a}"}"#, OperationKind::Query, 1);
    let b = request(r#"{"query":"{b}"}"#, OperationKind::Query, 2);
    assert!(!fingerprint_matches(&fingerprint_of(&a), &fingerprint_of(&b)));

    let mut coordinator = Coordinator::new();
    assert!(matches!(coordinator.register(&fingerprint_of(&a)), Registration::Leader(_)));
    assert!(matches!(coordinator.register(&fingerprint_of(&b)), Registration::Leader(_)));
}

/// A failed downstream call fans the rendered error out to every follower,
/// while the leader keeps the original structured error.
#[test]
fn failure_fans_out_to_followers() {
    let mut coordinator = Coordinator::new();
    let leader_req = request(r#"{"query":"{boom}"}"#, OperationKind::Query, 0);
    let fp = fingerprint_of(&leader_req);
    let slot = match coordinator.register(&fp) {
        Registration::Leader(slot) => slot,
        _ => panic!("first registration must lead"),
    };

    let mut followers = Vec::new();
    for i in 1..4u64 {
        let fp_i = fingerprint_of(&request(r#"{"query":"{boom}"}"#, OperationKind::Query, i));
        match coordinator.register(&fp_i) {
            Registration::Follower(s) => followers.push((s, ExecutionContext { id: i })),
            _ => panic!("later registrations must follow"),
        }
    }

    let result = leader_finish(
        &mut coordinator,
        &fp,
        slot,
        Err(FetchError { message: "boom".to_string() }),
        leader_req.context,
    );
    match result {
        Err(e) => assert_eq!(e.message, "boom"),
        Ok(_) => panic!("leader must see the original error"),
    }

    for (s, ctx) in followers {
        match follower_step(coordinator.observe(s), ctx) {
            FollowerAction::Deliver(Err(e)) => assert!(e.message.contains("boom")),
            _ => panic!("follower expected a published failure"),
        }
    }
}

/// After a coalesced group resolves, the same fingerprint triggers a brand
/// new downstream invocation: nothing is cached.
#[test]
fn new_invocation_after_completion() {
    let mut coordinator = Coordinator::new();
    let r = request(r#"{"query":"{foo}"}"#, OperationKind::Query, 0);
    let fp = fingerprint_of(&r);

    let mut invocations = 0;
    let slot = match coordinator.register(&fp) {
        Registration::Leader(slot) => {
            invocations += 1;
            slot
        }
        _ => panic!("first registration must lead"),
    };
    let _ = leader_finish(
        &mut coordinator,
        &fp,
        slot,
        Ok(ok_payload(r#"{"data":{"foo":1}}"#, 0)),
        r.context,
    );

    match coordinator.register(&clone_fingerprint(&fp)) {
        Registration::Leader(_) => invocations += 1,
        _ => panic!("a request after completion must lead anew"),
    }
    assert_eq!(invocations, 2);
}

/// A leader cancelled before publishing leaves a closed slot; the waiting
/// follower re-registers, becomes leader itself, and completes the call,
/// for one effective downstream invocation in total.
#[test]
fn cancelled_leader_is_replaced_by_follower() {
    let mut coordinator = Coordinator::new();
    let leader_req = request(r#"{"query":"{foo}"}"#, OperationKind::Query, 0);
    let follower_req = request(r#"{"query":"{foo}"}"#, OperationKind::Query, 7);
    let fp = fingerprint_of(&leader_req);

    let slot = match coordinator.register(&fp) {
        Registration::Leader(slot) => slot,
        _ => panic!("first registration must lead"),
    };
    let follower_slot = match coordinator.register(&fingerprint_of(&follower_req)) {
        Registration::Follower(s) => s,
        _ => panic!("second registration must follow"),
    };

    // The leader's task is aborted before the downstream call returns; its
    // scoped cleanup closes and retires the slot without publishing.
    leader_abandon(&mut coordinator, &fp, slot);

    // The follower observes closure, not a value, and re-registers.
    let ctx = follower_req.context;
    let action = follower_step(coordinator.observe(follower_slot), ctx);
    assert!(matches!(action, FollowerAction::Reregister));

    let mut invocations = 0;
    let new_slot = match coordinator.register(&fingerprint_of(&follower_req)) {
        Registration::Leader(s) => {
            invocations += 1;
            s
        }
        _ => panic!("the re-registration must lead"),
    };
    let result = leader_finish(
        &mut coordinator,
        &fingerprint_of(&follower_req),
        new_slot,
        Ok(ok_payload(r#"{"data":{"foo":1}}"#, ctx.id)),
        ctx,
    );
    let resp = result.unwrap();
    assert_eq!(resp.response.body, r#"{"data":{"foo":1}}"#);
    assert_eq!(resp.context, ctx);
    assert_eq!(invocations, 1);
}

/// Every follower's response carries that follower's own execution context,
/// never the leader's, even though the payload is shared.
#[test]
fn follower_keeps_its_own_context() {
    let leader_ctx = ExecutionContext { id: 1 };
    let follower_ctx = ExecutionContext { id: 2 };
    let payload = ok_payload(r#"{"data":{"foo":1}}"#, leader_ctx.id);
    let outcome = broadcast_of(&Ok(payload));
    let status = SlotStatus::Published(outcome);

    match follower_step(&status, follower_ctx) {
        FollowerAction::Deliver(Ok(resp)) => {
            assert_eq!(resp.context, follower_ctx);
            assert_ne!(resp.context, leader_ctx);
        }
        _ => panic!("expected a delivered success"),
    }
}

/// A pending slot tells a follower to keep waiting (spurious wake).
#[test]
fn pending_slot_means_wait() {
    let action = follower_step(&SlotStatus::Pending, ExecutionContext { id: 3 });
    assert!(matches!(action, FollowerAction::WaitAgain));
}

/// The broadcast of a failure carries the rendered message, so followers
/// can be notified even when the structured error cannot be shared.
#[test]
fn broadcast_downgrades_failure_to_text() {
    let outcome = broadcast_of(&Err(FetchError { message: "boom".to_string() }));
    match outcome {
        Outcome::Failure(m) => assert_eq!(m, "boom"),
        Outcome::Success(_) => panic!("expected a failure broadcast"),
    }
}

/// Structurally identical requests produce equal fingerprints; a change in
/// any identifying field changes the fingerprint.
#[test]
fn fingerprints_follow_identifying_fields() {
    let a = request(r#"{"query":"{foo}"}"#, OperationKind::Query, 1);
    let b = request(r#"{"query":"{foo}"}"#, OperationKind::Query, 2);
    assert!(fingerprint_matches(&fingerprint_of(&a), &fingerprint_of(&b)));

    let mut c = request(r#"{"query":"{foo}"}"#, OperationKind::Query, 1);
    c.subgraph_request.method = "GET".to_string();
    assert!(!fingerprint_matches(&fingerprint_of(&a), &fingerprint_of(&c)));

    let mut d = request(r#"{"query":"{foo}"}"#, OperationKind::Query, 1);
    d.subgraph_request.headers.push(("x-extra".to_string(), "1".to_string()));
    assert!(!fingerprint_matches(&fingerprint_of(&a), &fingerprint_of(&d)));
}

/// Subscriptions bypass the coordinator just as mutations do.
#[test]
fn subscriptions_bypass_coalescing() {
    let s = request(r#"{"query":"subscription{x}"}"#, OperationKind::Subscription, 1);
    assert!(matches!(route_of(&s), Route::Bypass));
    assert!(!s.operation_kind.is_coalescable());
    assert!(OperationKind::Query.is_coalescable());
}
