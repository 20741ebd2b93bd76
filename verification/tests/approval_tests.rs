use orchestra::approval::{
    abandon_approval, approval_notification, conclude_approval, delivery_report, fulfill_approval,
    register_approval, render_response, INTERNAL_SERVER_ERROR,
};
use orchestra::json::{JsonMember, JsonValue};
use orchestra::mcp_manager::{
    ApprovalBehavior, ApprovalResponse, HttpApprovalRequest, PendingHttpApproval,
};
use orchestra::table::Table;
use std::sync::{Arc, Mutex};

fn create_test_state() -> Table<PendingHttpApproval> {
    Table::new()
}

fn object(members: Vec<(&str, JsonValue)>) -> JsonValue {
    JsonValue::object(members.into_iter().map(|(k, v)| JsonMember::new(k, v)).collect())
}

fn strings(items: Vec<&str>) -> JsonValue {
    JsonValue::array(items.into_iter().map(JsonValue::string).collect())
}

fn request(id: &str, tool: &str, input: JsonValue) -> HttpApprovalRequest {
    HttpApprovalRequest {
        request_id: id.to_string(),
        tool_name: tool.to_string(),
        input,
        worktree_id: "test-worktree".to_string(),
        timestamp: chrono::Utc::now().timestamp_millis() as u64,
    }
}

fn allow() -> ApprovalResponse {
    ApprovalResponse { behavior: ApprovalBehavior::Allow, message: None, updated_input: None }
}

#[test]
fn test_approval_behavior_conversion_to_mcp_format() {
    // Test that ApprovalBehavior::Allow converts to lowercase "allow" for MCP protocol
    let mut state = create_test_state();

    // Simulate an approval request
    let request = request("test-123", "execute_command", object(vec![("command", JsonValue::string("ls"))]));

    // Register the request; the receiver is what the handler waits on
    let mut receiver = register_approval(&mut state, request.clone());

    // Simulate user approval with uppercase enum (from Rust backend)
    let approval_response = ApprovalResponse {
        behavior: ApprovalBehavior::Allow, // Uppercase enum variant
        message: None,
        updated_input: None,
    };

    // Send the approval response
    let sent = fulfill_approval(&mut state, "test-123", approval_response);
    assert!(sent.is_ok());

    // The handler completes and gives the HTTP response
    let result = conclude_approval(receiver.try_recv().ok());
    assert!(result.is_ok());

    let response_value = result.unwrap();

    // Verify that the response contains lowercase "allow" for MCP protocol compliance
    assert_eq!(response_value.get("behavior"), Some(&JsonValue::string("allow"))); // Should be lowercase
    assert_eq!(response_value.get("message"), Some(&JsonValue::Null));
    assert_eq!(response_value.get("updatedInput"), Some(&JsonValue::Null));
}

#[test]
fn test_approval_behavior_deny_conversion() {
    let mut state = create_test_state();

    let request = request(
        "test-deny-456",
        "write_file",
        object(vec![("path", JsonValue::string("/test/file.txt")), ("content", JsonValue::string("test"))]),
    );

    let mut receiver = register_approval(&mut state, request.clone());

    // Simulate user denial with uppercase enum
    let approval_response = ApprovalResponse {
        behavior: ApprovalBehavior::Deny, // Uppercase enum variant
        message: Some("User denied the operation".to_string()),
        updated_input: None,
    };

    let _ = fulfill_approval(&mut state, "test-deny-456", approval_response);

    let result = conclude_approval(receiver.try_recv().ok());
    assert!(result.is_ok());

    let response_value = result.unwrap();

    // Verify that the response contains lowercase "deny" for MCP protocol compliance
    assert_eq!(response_value.get("behavior"), Some(&JsonValue::string("deny"))); // Should be lowercase
    assert_eq!(response_value.get("message"), Some(&JsonValue::string("User denied the operation")));
}

#[test]
fn test_approval_with_updated_input() {
    let mut state = create_test_state();

    let original_input = object(vec![
        ("command", JsonValue::string("rm")),
        ("args", strings(vec!["-rf", "/dangerous/path"])),
    ]);

    let request = request("test-update-789", "execute_command", original_input);

    let mut receiver = register_approval(&mut state, request.clone());

    // Simulate user approval with modified input
    let modified_input = object(vec![
        ("command", JsonValue::string("ls")),
        ("args", strings(vec!["-la", "/safe/path"])),
    ]);

    let approval_response = ApprovalResponse {
        behavior: ApprovalBehavior::Allow,
        message: Some("Approved with modifications".to_string()),
        updated_input: Some(modified_input.clone()),
    };

    let _ = fulfill_approval(&mut state, "test-update-789", approval_response);

    let result = conclude_approval(receiver.try_recv().ok());
    assert!(result.is_ok());

    let response_value = result.unwrap();

    // Verify proper conversion and input modification
    assert_eq!(response_value.get("behavior"), Some(&JsonValue::string("allow")));
    assert_eq!(response_value.get("message"), Some(&JsonValue::string("Approved with modifications")));
    assert_eq!(response_value.get("updatedInput"), Some(&modified_input));
}

#[test]
fn test_missing_approval_request() {
    let mut state = create_test_state();

    // A request to which no one will send a response
    let request = request("nonexistent-request", "execute_command", object(vec![("command", JsonValue::string("ls"))]));

    let mut receiver = register_approval(&mut state, request.clone());

    // Nothing has arrived, so the handler is still waiting
    let result = receiver.try_recv();

    // Should be empty, which a caller with a deadline reports as a timeout
    assert!(result.is_err());
    assert_eq!(state.len(), 1);
}

#[test]
fn test_mcp_protocol_compliance() {
    // According to MCP spec, approval responses should use lowercase:
    // {"behavior": "allow"} or {"behavior": "deny"}
    let mcp_allow_response = render_response(&ApprovalResponse {
        behavior: ApprovalBehavior::Allow,
        message: None,
        updated_input: Some(object(vec![("modified", JsonValue::string("input"))])),
    });

    let mcp_deny_response = render_response(&ApprovalResponse {
        behavior: ApprovalBehavior::Deny,
        message: Some("User denied permission".to_string()),
        updated_input: None,
    });

    assert_eq!(mcp_allow_response.get("behavior"), Some(&JsonValue::string("allow")));
    assert_eq!(mcp_deny_response.get("behavior"), Some(&JsonValue::string("deny")));

    // Ensure these are lowercase (MCP compliance)
    assert_ne!(mcp_allow_response.get("behavior"), Some(&JsonValue::string("Allow")));
    assert_ne!(mcp_deny_response.get("behavior"), Some(&JsonValue::string("Deny")));
}

#[test]
fn approval_round_trip_allows() {
    let mut pending = create_test_state();
    let mut receiver = register_approval(&mut pending, request("abc", "execute_command", JsonValue::Null));
    assert!(pending.contains_key("abc"));
    assert!(fulfill_approval(&mut pending, "abc", allow()).is_ok());
    let decision = receiver.try_recv().unwrap();
    assert_eq!(decision.behavior, ApprovalBehavior::Allow);
    assert_eq!(
        render_response(&decision).to_text(),
        r#"{"behavior":"allow","message":null,"updatedInput":null}"#
    );
    assert!(pending.is_empty());
}

#[test]
fn approval_deny_carries_its_message() {
    let mut pending = create_test_state();
    let mut receiver = register_approval(&mut pending, request("abc", "write_file", JsonValue::Null));
    let deny = ApprovalResponse {
        behavior: ApprovalBehavior::Deny,
        message: Some("blocked".to_string()),
        updated_input: None,
    };
    assert_eq!(fulfill_approval(&mut pending, "abc", deny), Ok(()));
    let body = conclude_approval(receiver.try_recv().ok()).unwrap();
    assert_eq!(body.to_text(), r#"{"behavior":"deny","message":"blocked","updatedInput":null}"#);
}

#[test]
fn unknown_id_is_not_found_and_changes_nothing() {
    let mut pending = create_test_state();
    let _receiver = register_approval(&mut pending, request("abc", "t", JsonValue::Null));
    let before = pending.len();
    assert_eq!(
        fulfill_approval(&mut pending, "missing", allow()),
        Err("HTTP approval request not found: missing".to_string())
    );
    assert_eq!(pending.len(), before);
    assert!(pending.contains_key("abc"));

    let mut empty = create_test_state();
    assert_eq!(
        fulfill_approval(&mut empty, "missing", allow()),
        Err("HTTP approval request not found: missing".to_string())
    );
    assert_eq!(empty.len(), 0);
}

#[test]
fn a_second_decision_finds_nothing() {
    let mut pending = create_test_state();
    let mut receiver = register_approval(&mut pending, request("abc", "t", JsonValue::Null));
    assert_eq!(fulfill_approval(&mut pending, "abc", allow()), Ok(()));
    let deny = ApprovalResponse {
        behavior: ApprovalBehavior::Deny,
        message: Some("late".to_string()),
        updated_input: None,
    };
    assert_eq!(
        fulfill_approval(&mut pending, "abc", deny),
        Err("HTTP approval request not found: abc".to_string())
    );
    // The first decision is the one that arrives.
    assert_eq!(receiver.try_recv().unwrap().behavior, ApprovalBehavior::Allow);
}

#[test]
fn a_decision_nobody_waits_for_is_reported_and_its_request_leaves() {
    let mut pending = create_test_state();
    let receiver = register_approval(&mut pending, request("abc", "t", JsonValue::Null));
    drop(receiver);
    assert_eq!(
        fulfill_approval(&mut pending, "abc", allow()),
        Err("Failed to send response to HTTP handler".to_string())
    );
    assert!(pending.is_empty());
}

#[test]
fn registering_an_id_again_replaces_the_request_and_gives_up_its_slot() {
    let mut pending = create_test_state();
    let mut first = register_approval(&mut pending, request("abc", "first_tool", JsonValue::Null));
    let mut second = register_approval(&mut pending, request("abc", "second_tool", JsonValue::Null));
    assert_eq!(pending.len(), 1);
    assert_eq!(pending.get("abc").map(|p| p.request.tool_name.clone()), Some("second_tool".to_string()));
    // The first waiter learns that its slot was given up.
    assert!(matches!(first.try_recv(), Err(tokio::sync::oneshot::error::TryRecvError::Closed)));
    assert_eq!(conclude_approval(None), Err(INTERNAL_SERVER_ERROR));
    assert!(fulfill_approval(&mut pending, "abc", allow()).is_ok());
    assert_eq!(second.try_recv().unwrap().behavior, ApprovalBehavior::Allow);
}

#[test]
fn an_abandoned_slot_is_an_internal_error() {
    assert_eq!(conclude_approval(None), Err(500));
    let mut pending = create_test_state();
    let mut receiver = register_approval(&mut pending, request("abc", "t", JsonValue::Null));
    drop(pending);
    assert!(conclude_approval(receiver.try_recv().ok()).is_err());
}

#[test]
fn a_request_that_is_given_up_leaves_the_table_and_takes_no_decision() {
    let mut pending = create_test_state();
    let mut receiver = register_approval(&mut pending, request("abc", "t", JsonValue::Null));
    let _other = register_approval(&mut pending, request("xyz", "t", JsonValue::Null));
    assert!(abandon_approval(&mut pending, "abc"));
    assert!(!pending.contains_key("abc"));
    assert!(pending.contains_key("xyz"));
    assert_eq!(pending.len(), 1);
    // The waiter learns that its slot is gone, and a late decision finds nothing.
    assert!(matches!(receiver.try_recv(), Err(tokio::sync::oneshot::error::TryRecvError::Closed)));
    assert_eq!(
        fulfill_approval(&mut pending, "abc", allow()),
        Err("HTTP approval request not found: abc".to_string())
    );
    // Giving up again, or giving up what never was pending, changes nothing.
    assert!(!abandon_approval(&mut pending, "abc"));
    assert!(!abandon_approval(&mut pending, "missing"));
    assert_eq!(pending.len(), 1);
}

#[test]
fn a_request_that_was_decided_cannot_be_given_up() {
    let mut pending = create_test_state();
    let mut receiver = register_approval(&mut pending, request("abc", "t", JsonValue::Null));
    assert_eq!(fulfill_approval(&mut pending, "abc", allow()), Ok(()));
    assert!(!abandon_approval(&mut pending, "abc"));
    assert_eq!(receiver.try_recv().unwrap().behavior, ApprovalBehavior::Allow);
    assert!(pending.is_empty());
}

#[test]
fn delivery_reports_tell_success_from_a_handler_that_is_gone() {
    assert_eq!(delivery_report(Ok(())), Ok(()));
    assert_eq!(
        delivery_report(Err(allow())),
        Err("Failed to send response to HTTP handler".to_string())
    );
}

#[test]
fn the_decision_source_is_told_of_a_request() {
    let request = HttpApprovalRequest {
        request_id: "req-1".to_string(),
        tool_name: "execute_command".to_string(),
        input: object(vec![("command", JsonValue::string("ls"))]),
        worktree_id: "wt-1".to_string(),
        timestamp: 1700000000123,
    };
    let payload = approval_notification(&request);
    assert_eq!(payload.get_str("approval_id"), Some("req-1"));
    let described = payload.get("request").unwrap();
    assert_eq!(described.get_str("toolName"), Some("execute_command"));
    assert_eq!(described.get("input"), Some(&request.input));
    assert_eq!(described.get_str("worktreeId"), Some("wt-1"));
    assert_eq!(described.get("timestamp"), Some(&JsonValue::Number("1700000000123".to_string())));
    assert_eq!(
        payload.to_text(),
        r#"{"approval_id":"req-1","request":{"input":{"command":"ls"},"timestamp":1700000000123,"toolName":"execute_command","worktreeId":"wt-1"}}"#
    );
}

#[test]
fn pairs_on_distinct_ids_leave_the_table_empty_in_any_order() {
    let mut pending = create_test_state();
    let mut receivers = Vec::new();
    // Register in one order, decide in another, with registrations in between.
    for i in 0..25 {
        receivers.push((i, register_approval(&mut pending, request(&format!("id-{i}"), "t", JsonValue::Null))));
    }
    for i in (0..25).rev().step_by(2) {
        assert_eq!(fulfill_approval(&mut pending, &format!("id-{i}"), allow()), Ok(()));
    }
    for i in 25..50 {
        receivers.push((i, register_approval(&mut pending, request(&format!("id-{i}"), "t", JsonValue::Null))));
        if i % 2 == 1 && i < 49 {
            assert_eq!(fulfill_approval(&mut pending, &format!("id-{}", i - 24), allow()), Ok(()));
        }
    }
    for i in 25..50 {
        assert_eq!(fulfill_approval(&mut pending, &format!("id-{i}"), allow()), Ok(()));
    }
    assert_eq!(fulfill_approval(&mut pending, "id-25", allow()).is_err(), true);
    assert!(pending.is_empty());
    assert_eq!(receivers.len(), 50);
    for (_, mut receiver) in receivers {
        assert_eq!(receiver.try_recv().unwrap().behavior, ApprovalBehavior::Allow);
    }
}

#[test]
fn concurrent_pairs_on_distinct_ids_lose_nothing() {
    let runtime = tokio::runtime::Builder::new_multi_thread().worker_threads(4).build().unwrap();
    let pending = Arc::new(Mutex::new(create_test_state()));
    let shared = pending.clone();
    let delivered = runtime.block_on(async move {
        let mut handles = vec![];
        for i in 0..50 {
            let pending = shared.clone();
            handles.push(tokio::spawn(async move {
                let id = format!("concurrent-{i}");
                let receiver = register_approval(
                    &mut pending.lock().unwrap(),
                    request(&id, "tool", JsonValue::number(i)),
                );
                tokio::task::yield_now().await;
                let sent = fulfill_approval(&mut pending.lock().unwrap(), &id, allow());
                sent.is_ok() && receiver.await.is_ok()
            }));
        }
        let mut delivered = 0;
        for handle in handles {
            if handle.await.unwrap() {
                delivered += 1;
            }
        }
        delivered
    });
    assert_eq!(delivered, 50);
    assert!(pending.lock().unwrap().is_empty());
}
