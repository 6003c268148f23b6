use graph_gateway::gateway::{
    bearer, capped_count, execute_single, execute_websocket, generate_key, handle, rate_limit_windows, schema_version, schema_version_with,
    HookOutcome, HookStatus, MessageKind, RateLimitKey, RequestPlan, RequestShape,
};
use graph_gateway::operation::OperationType;
use graph_gateway::text::{chars_of, concat3, decimal, decimal_of, find_char, same_text, text_of};
use graph_gateway::validation::ErrorCode;

#[test]
fn hooks_are_counted_by_how_they_ended() {
    assert_eq!(HookStatus::of(HookOutcome::Returned { failures: 0 }), HookStatus::Success);
    assert_eq!(HookStatus::of(HookOutcome::Returned { failures: 2 }), HookStatus::GuestError);
    assert_eq!(HookStatus::of(HookOutcome::Internal), HookStatus::HostError);
    assert_eq!(HookStatus::of(HookOutcome::Guest), HookStatus::GuestError);
    assert_eq!(HookStatus::Success.as_str(), "SUCCESS");
    assert_eq!(HookStatus::HostError.as_str(), "HOST_ERROR");
    assert_eq!(HookStatus::GuestError.as_str(), "GUEST_ERROR");
}

#[test]
fn the_keys_of_the_rate_limiter() {
    assert_eq!(generate_key("gw", 1700, &RateLimitKey::Global), "gw:rate_limit:global:1700");
    assert_eq!(
        generate_key("gw", u64::MAX, &RateLimitKey::Subgraph("products".to_string())),
        "gw:subgraph:rate_limit:products:18446744073709551615"
    );
    assert_eq!(rate_limit_windows(1_250, 500), (1_000, 500, 250));
    assert_eq!(rate_limit_windows(500, 500), (500, 0, 0));
    assert_eq!(capped_count(Some(7), 5), 5);
    assert_eq!(capped_count(Some(3), 5), 3);
    assert_eq!(capped_count(None, 5), 0);
}

#[test]
fn the_version_of_a_schema() {
    assert_eq!(schema_version_with(Some(&vec![7, 8]), &vec![9]), vec![0, 7, 8]);
    assert_eq!(schema_version_with(None, &vec![9, 9]), vec![1, 9, 9]);
    assert_eq!(schema_version(Some(&vec![])), vec![0]);
    let fresh = schema_version(None);
    assert_eq!(fresh.len(), 17);
    assert_eq!(fresh[0], 1);
    assert_ne!(fresh, schema_version(None));
}

#[test]
fn how_a_request_is_answered() {
    let batch = RequestShape::Batch { operations: 3 };
    assert_eq!(handle(false, true, batch, true), RequestPlan::NoSubgraphs);
    assert_eq!(handle(true, true, batch, false), RequestPlan::BatchOnStream);
    assert_eq!(handle(true, false, RequestShape::Single, false), RequestPlan::Unauthorized);
    assert_eq!(handle(true, true, RequestShape::Single, false), RequestPlan::UnauthorizedStream);
    assert_eq!(handle(true, false, batch, false), RequestPlan::UnauthorizedBatch { operations: 3 });
    assert_eq!(
        handle(true, true, RequestShape::Batch { operations: 1 }, false),
        RequestPlan::UnauthorizedBatch { operations: 1 }
    );
    assert_eq!(handle(true, false, RequestShape::Single, true), RequestPlan::ExecuteSingle);
    assert_eq!(handle(true, true, RequestShape::Single, true), RequestPlan::ExecuteStream);
    assert_eq!(handle(true, false, batch, true), RequestPlan::ExecuteBatch { operations: 3 });
    assert_eq!(handle(true, true, RequestShape::Batch { operations: 1 }, true), RequestPlan::BatchOnStream);
}

#[test]
fn subscriptions_need_a_stream() {
    assert_eq!(execute_single(OperationType::Subscription, false), Some(ErrorCode::BadRequest));
    assert_eq!(execute_single(OperationType::Subscription, true), None);
    assert_eq!(execute_single(OperationType::Query, false), None);
    assert_eq!(execute_single(OperationType::Mutation, false), None);
    assert_eq!(execute_websocket(true), MessageKind::Error);
    assert_eq!(execute_websocket(false), MessageKind::Next);
    assert_eq!(bearer("token"), "Bearer token");
}

#[test]
fn texts_are_taken_apart_and_put_together() {
    assert_eq!(decimal(0), "0");
    assert_eq!(decimal(9), "9");
    assert_eq!(decimal(10), "10");
    assert_eq!(decimal(1_234_567_890), "1234567890");
    assert_eq!(decimal_of(u64::MAX), "18446744073709551615");
    let chars = chars_of("a/é@b");
    assert_eq!(chars, vec!['a', '/', 'é', '@', 'b']);
    assert_eq!(text_of(&chars), "a/é@b");
    assert_eq!(find_char(&chars, '@', 0), 3);
    assert_eq!(find_char(&chars, '@', 4), 5);
    assert_eq!(concat3("a", "", "c"), "ac");
    assert!(same_text("é", "é"));
    assert!(!same_text("e", "é"));
}
