use chrono::Utc;
use orchestra::table::Table;
use orchestra::{AppState, ClaudeProcess, ProcessOutput, WorktreeConfig};
use std::sync::{Arc, Mutex};

fn create_test_app_state() -> AppState {
    AppState::new()
}

fn create_test_worktree(id: &str) -> WorktreeConfig {
    WorktreeConfig {
        id: id.to_string(),
        name: format!("test-worktree-{}", id),
        path: format!("/tmp/test-path-{}", id),
        branch: format!("test-branch-{}", id),
        base_repo: "/tmp/test-repo".to_string(),
        is_active: true,
        created_at: Utc::now().to_rfc3339(),
    }
}

fn create_test_process(id: &str, worktree_id: &str) -> ClaudeProcess {
    ClaudeProcess {
        id: id.to_string(),
        worktree_id: worktree_id.to_string(),
        pid: Some(12345),
        status: "running".to_string(),
        task: Some("test task".to_string()),
        started_at: Some(Utc::now().to_rfc3339()),
        last_activity: Some(Utc::now().to_rfc3339()),
    }
}

#[test]
fn test_app_state_default() {
    let state = AppState::default();

    assert!(state.worktrees.is_empty());
    assert!(state.processes.is_empty());
    assert!(state.mcp_manager.servers.is_empty());
    assert!(state.mcp_manager.pending_approvals.is_empty());
    assert!(state.mcp_manager.pending_http_approvals.is_empty());
}

#[test]
fn test_list_worktrees() {
    let mut state = create_test_app_state();

    // Add multiple test worktrees
    let worktree1 = create_test_worktree("1");
    let worktree2 = create_test_worktree("2");

    state.worktrees.insert("1".to_string(), worktree1);
    state.worktrees.insert("2".to_string(), worktree2);

    let result: Vec<WorktreeConfig> = state.list_worktrees();

    assert_eq!(result.len(), 2);

    // Verify worktrees are returned in consistent order
    let ids: Vec<String> = result.iter().map(|w| w.id.clone()).collect();
    assert!(ids.contains(&"1".to_string()));
    assert!(ids.contains(&"2".to_string()));
    assert_eq!(ids, vec!["1".to_string(), "2".to_string()]);
}

#[test]
fn test_process_state_management() {
    let mut state = create_test_app_state();
    let process_id = "test-process-1";

    // Add a running process
    let mut process = create_test_process(process_id, "worktree-1");
    state.processes.insert(process_id.to_string(), process.clone());

    // Test process retrieval
    let retrieved = state.processes.get(process_id).unwrap();
    assert_eq!(retrieved.id, process_id);
    assert_eq!(retrieved.status, "running");

    // Test process status update
    process.status = "stopped".to_string();
    state.processes.insert(process_id.to_string(), process);

    let updated = state.processes.get(process_id).unwrap();
    assert_eq!(updated.status, "stopped");
}

#[test]
fn test_list_processes_logic() {
    let mut state = create_test_app_state();

    // Add multiple processes
    let process1 = create_test_process("process-1", "worktree-1");
    let process2 = create_test_process("process-2", "worktree-2");

    state.processes.insert("process-1".to_string(), process1);
    state.processes.insert("process-2".to_string(), process2);

    let result: Vec<ClaudeProcess> = state.list_processes();

    assert_eq!(result.len(), 2);
    let ids: Vec<String> = result.iter().map(|p| p.id.clone()).collect();
    assert!(ids.contains(&"process-1".to_string()));
    assert!(ids.contains(&"process-2".to_string()));
}

#[test]
fn test_worktree_removal_logic() {
    let mut state = create_test_app_state();
    let worktree_id = "worktree-1";

    // Add worktree and associated process
    let worktree = create_test_worktree(worktree_id);
    let process = create_test_process("process-1", worktree_id);

    state.worktrees.insert(worktree_id.to_string(), worktree);
    state.processes.insert("process-1".to_string(), process);

    // Test removal logic
    state.worktrees.remove(worktree_id);

    // Verify worktree was removed
    assert!(!state.worktrees.contains_key(worktree_id));

    // Associated processes stay until they are cleaned up
    let process_exists = state.list_processes().iter().any(|p| p.worktree_id == worktree_id);
    assert!(process_exists);
}

#[test]
fn test_concurrent_state_access() {
    let runtime = tokio::runtime::Builder::new_multi_thread().worker_threads(4).build().unwrap();
    let state = Arc::new(Mutex::new(create_test_app_state()));
    let mut handles = vec![];

    // Test concurrent access to state
    for i in 0..10 {
        let state_clone = state.clone();
        let handle = runtime.spawn(async move {
            let worktree = create_test_worktree(&i.to_string());
            state_clone.lock().unwrap().worktrees.insert(i.to_string(), worktree);
        });
        handles.push(handle);
    }

    for handle in handles {
        runtime.block_on(handle).unwrap();
    }

    // All worktrees should be added
    assert_eq!(state.lock().unwrap().worktrees.len(), 10);
}

#[test]
fn test_worktree_config_validation() {
    let worktree = WorktreeConfig {
        id: "test-123".to_string(),
        name: "Test Worktree".to_string(),
        path: "/valid/path".to_string(),
        branch: "feature-branch".to_string(),
        base_repo: "/valid/repo".to_string(),
        is_active: true,
        created_at: Utc::now().to_rfc3339(),
    };

    // Test that all required fields are present
    assert!(!worktree.id.is_empty());
    assert!(!worktree.name.is_empty());
    assert!(!worktree.path.is_empty());
    assert!(!worktree.branch.is_empty());
    assert!(!worktree.base_repo.is_empty());
    assert!(worktree.is_active);

    // Test timestamp is valid RFC3339
    assert!(chrono::DateTime::parse_from_rfc3339(&worktree.created_at).is_ok());
}

#[test]
fn test_claude_process_lifecycle() {
    let mut process = ClaudeProcess {
        id: "process-123".to_string(),
        worktree_id: "worktree-456".to_string(),
        pid: None,
        status: "starting".to_string(),
        task: Some("Initial task".to_string()),
        started_at: None,
        last_activity: None,
    };

    // Test process states
    assert_eq!(process.status, "starting");
    assert!(process.pid.is_none());
    assert!(process.started_at.is_none());

    // Simulate process started
    process.pid = Some(12345);
    process.status = "running".to_string();
    process.started_at = Some(Utc::now().to_rfc3339());
    process.last_activity = Some(Utc::now().to_rfc3339());

    assert_eq!(process.status, "running");
    assert_eq!(process.pid, Some(12345));
    assert!(process.started_at.is_some());

    // Simulate process completed
    process.status = "completed".to_string();
    process.last_activity = Some(Utc::now().to_rfc3339());

    assert_eq!(process.status, "completed");
}

#[test]
fn test_app_state_concurrent_modifications() {
    let runtime = tokio::runtime::Builder::new_multi_thread().worker_threads(4).build().unwrap();
    let state = Arc::new(Mutex::new(create_test_app_state()));
    let mut handles = vec![];

    // Test concurrent worktree operations
    for i in 0..50 {
        let state_clone = state.clone();
        let handle = runtime.spawn(async move {
            let worktree = create_test_worktree(&format!("concurrent-{i}"));
            state_clone
                .lock()
                .unwrap()
                .worktrees
                .insert(format!("concurrent-{i}"), worktree);
        });
        handles.push(handle);
    }

    // Test concurrent process operations
    for i in 0..50 {
        let state_clone = state.clone();
        let handle = runtime.spawn(async move {
            let process =
                create_test_process(&format!("process-{i}"), &format!("worktree-{i}"));
            state_clone
                .lock()
                .unwrap()
                .processes
                .insert(format!("process-{i}"), process);
        });
        handles.push(handle);
    }

    // Wait for all operations to complete
    for handle in handles {
        runtime.block_on(handle).unwrap();
    }

    // Verify all items were added
    assert_eq!(state.lock().unwrap().worktrees.len(), 50);
    assert_eq!(state.lock().unwrap().processes.len(), 50);
}

#[test]
fn test_state_cleanup_logic() {
    let mut state = create_test_app_state();

    // Add worktrees and processes
    for i in 0..5 {
        let worktree = create_test_worktree(&i.to_string());
        let process = create_test_process(&format!("process-{i}"), &i.to_string());

        state.worktrees.insert(i.to_string(), worktree);
        state.processes.insert(format!("process-{i}"), process);
    }

    // Verify initial state
    assert_eq!(state.worktrees.len(), 5);
    assert_eq!(state.processes.len(), 5);

    // Simulate cleanup of specific worktree
    let target_worktree = "2";
    state.worktrees.remove(target_worktree);

    // Remove associated processes
    let process_ids_to_remove: Vec<String> = state
        .list_processes()
        .iter()
        .filter(|process| process.worktree_id == target_worktree)
        .map(|process| process.id.clone())
        .collect();

    for id in process_ids_to_remove {
        state.processes.remove(&id);
    }

    // Verify cleanup
    assert_eq!(state.worktrees.len(), 4);
    assert_eq!(state.processes.len(), 4);

    // Verify target was removed
    assert!(!state.worktrees.contains_key(target_worktree));
    let remaining_processes = state.list_processes();
    assert!(!remaining_processes
        .iter()
        .any(|p| p.worktree_id == target_worktree));
}

#[test]
fn test_state_memory_efficiency() {
    let mut state = create_test_app_state();

    // Add many items to test memory usage
    for i in 0..1000 {
        let worktree = create_test_worktree(&i.to_string());
        let process = create_test_process(&format!("process-{i}"), &i.to_string());

        state.worktrees.insert(i.to_string(), worktree);
        state.processes.insert(format!("process-{i}"), process);
    }

    // Verify all items are stored
    assert_eq!(state.worktrees.len(), 1000);
    assert_eq!(state.processes.len(), 1000);

    // Test batch removal
    let worktree_keys: Vec<String> = state.list_worktrees().iter().map(|w| w.id.clone()).collect();
    let process_keys: Vec<String> = state.list_processes().iter().map(|p| p.id.clone()).collect();

    // Remove half of the items
    for (i, key) in worktree_keys.iter().enumerate() {
        if i % 2 == 0 {
            state.worktrees.remove(key);
        }
    }

    for (i, key) in process_keys.iter().enumerate() {
        if i % 2 == 0 {
            state.processes.remove(key);
        }
    }

    // Verify half were removed
    assert_eq!(state.worktrees.len(), 500);
    assert_eq!(state.processes.len(), 500);
}

#[test]
fn test_error_message_formatting() {
    // Test that error messages are properly formatted and don't contain sensitive info
    let process_output = ProcessOutput {
        process_id: "test-process".to_string(),
        content: "Error: File not found".to_string(),
        is_error: true,
        timestamp: Utc::now().to_rfc3339(),
    };

    assert!(process_output.is_error);
    assert!(process_output.content.contains("Error"));
    assert!(!process_output.content.contains("/home/user/secret")); // Should not contain sensitive paths
}

#[test]
fn test_timestamp_consistency() {
    let start_time = Utc::now();

    let worktree = create_test_worktree("timestamp-test");
    let process = create_test_process("process-timestamp", "timestamp-test");

    let end_time = Utc::now();

    // Parse timestamps
    let worktree_time = chrono::DateTime::parse_from_rfc3339(&worktree.created_at).unwrap();
    let process_start_time =
        chrono::DateTime::parse_from_rfc3339(process.started_at.as_ref().unwrap()).unwrap();

    // Verify timestamps are within expected range
    assert!(worktree_time.timestamp() >= start_time.timestamp());
    assert!(worktree_time.timestamp() <= end_time.timestamp());
    assert!(process_start_time.timestamp() >= start_time.timestamp());
    assert!(process_start_time.timestamp() <= end_time.timestamp());
}

#[test]
fn table_keeps_the_order_in_which_keys_came() {
    let mut table: Table<u32> = Table::new();
    assert!(table.is_empty());
    assert_eq!(table.insert("b".to_string(), 1), None);
    assert_eq!(table.insert("a".to_string(), 2), None);
    assert_eq!(table.insert("c".to_string(), 3), None);
    assert_eq!(table.len(), 3);
    assert_eq!(table.key_at(0), "b");
    assert_eq!(table.key_at(1), "a");
    assert_eq!(table.key_at(2), "c");
    // A key that is there keeps its place, and its old value comes back.
    assert_eq!(table.insert("a".to_string(), 20), Some(2));
    assert_eq!(table.len(), 3);
    assert_eq!(table.key_at(1), "a");
    assert_eq!(*table.value_at(1), 20);
    assert_eq!(table.get("a"), Some(&20));
    assert_eq!(table.get("z"), None);
    assert!(table.contains_key("c"));
    assert!(!table.contains_key("C"));
    assert_eq!(table.remove("b"), Some(1));
    assert_eq!(table.remove("b"), None);
    assert_eq!(table.key_at(0), "a");
    assert_eq!(table.len(), 2);
    let entry = table.remove_at(1);
    assert_eq!((entry.key.as_str(), entry.value), ("c", 3));
    assert_eq!(table.len(), 1);
    assert!(!table.is_empty());
}

#[test]
fn created_worktrees_are_recorded_with_fresh_ids() {
    let mut state = AppState::new();
    let first = state.create_worktree(
        "/repo".to_string(),
        "feature".to_string(),
        "one".to_string(),
        "/worktree-one".to_string(),
    );
    let second = state.create_worktree(
        "/repo".to_string(),
        "fix".to_string(),
        "two".to_string(),
        "/worktree-two".to_string(),
    );
    assert_ne!(first.id, second.id);
    assert_eq!(first.id.len(), 36);
    assert_eq!(first.name, "one");
    assert_eq!(first.path, "/worktree-one");
    assert_eq!(first.branch, "feature");
    assert_eq!(first.base_repo, "/repo");
    assert!(first.is_active);
    assert!(chrono::DateTime::parse_from_rfc3339(&first.created_at).is_ok());
    assert_eq!(state.worktrees.len(), 2);
    assert_eq!(state.worktrees.get(&first.id).map(|w| w.name.clone()), Some("one".to_string()));
    let listed: Vec<String> = state.list_worktrees().iter().map(|w| w.name.clone()).collect();
    assert_eq!(listed, vec!["one".to_string(), "two".to_string()]);
}

#[test]
fn removing_a_worktree_forgets_the_first_at_its_path() {
    let mut state = AppState::new();
    let kept = state.create_worktree("/r".into(), "b1".into(), "a".into(), "/p/a".into());
    let gone = state.create_worktree("/r".into(), "b2".into(), "b".into(), "/p/b".into());
    let twin = state.create_worktree("/r".into(), "b3".into(), "c".into(), "/p/b".into());
    assert!(!state.remove_worktree("/p/none"));
    assert_eq!(state.worktrees.len(), 3);
    assert!(state.remove_worktree("/p/b"));
    assert!(!state.worktrees.contains_key(&gone.id));
    assert!(state.worktrees.contains_key(&kept.id));
    assert!(state.worktrees.contains_key(&twin.id));
    assert!(state.remove_worktree("/p/b"));
    assert!(!state.remove_worktree("/p/b"));
    assert_eq!(state.worktrees.len(), 1);
}

#[test]
fn started_processes_run_and_stopping_marks_them() {
    let mut state = AppState::new();
    let process = state.start_claude_process("wt-1".to_string(), "do the thing".to_string(), 4242);
    assert_eq!(process.status, "running");
    assert_eq!(process.pid, Some(4242));
    assert_eq!(process.worktree_id, "wt-1");
    assert_eq!(process.task, Some("do the thing".to_string()));
    assert_eq!(process.started_at, process.last_activity);
    assert!(chrono::DateTime::parse_from_rfc3339(process.started_at.as_ref().unwrap()).is_ok());
    let other = state.start_claude_process("wt-2".to_string(), "other".to_string(), 4243);
    assert_ne!(process.id, other.id);

    assert!(state.stop_claude_process(&process.id));
    let stopped = state.processes.get(&process.id).unwrap();
    assert_eq!(stopped.status, "stopped");
    assert_eq!(stopped.pid, Some(4242));
    assert_eq!(stopped.task, Some("do the thing".to_string()));
    assert_eq!(state.processes.get(&other.id).unwrap().status, "running");
    // The record stays, in its place.
    let ids: Vec<String> = state.list_processes().iter().map(|p| p.id.clone()).collect();
    assert_eq!(ids, vec![process.id.clone(), other.id.clone()]);
    // Stopping again, or stopping what is not there, changes nothing.
    assert!(state.stop_claude_process(&process.id));
    assert!(!state.stop_claude_process("no-such-process"));
    assert_eq!(state.processes.len(), 2);
}

#[test]
fn process_records_follow_their_life() {
    let mut process = ClaudeProcess::starting(
        "p".to_string(),
        "w".to_string(),
        "task".to_string(),
        "2024-01-01T00:00:00Z".to_string(),
    );
    assert_eq!(process.status, "starting");
    assert_eq!(process.pid, None);
    assert_eq!(process.started_at, Some("2024-01-01T00:00:00Z".to_string()));
    assert_eq!(process.last_activity, Some("2024-01-01T00:00:00Z".to_string()));
    process.mark_running(7);
    assert_eq!(process.status, "running");
    assert_eq!(process.pid, Some(7));
    process.mark_stopped();
    assert_eq!(process.status, "stopped");
    assert_eq!(process.pid, Some(7));
    let copy = process.clone();
    assert_eq!(copy.id, "p");
    assert_eq!(copy.status, "stopped");
}
