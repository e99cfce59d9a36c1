use coworkany::supervisor::{
    classify_sidecar_message, IpcCommand, PendingResponses, SidecarMessageKind, TaskContext,
    WatchdogAction, WatchdogState,
};

#[test]
fn classification_by_type_tag() {
    assert_eq!(classify_sidecar_message("get_tasks_response"), SidecarMessageKind::IpcResponse);
    assert_eq!(classify_sidecar_message("request_effect"), SidecarMessageKind::IpcCommand);
    assert_eq!(classify_sidecar_message("propose_patch"), SidecarMessageKind::IpcCommand);
    assert_eq!(classify_sidecar_message("apply_patch"), SidecarMessageKind::IpcCommand);
    assert_eq!(classify_sidecar_message("reject_patch"), SidecarMessageKind::IpcCommand);
    assert_eq!(
        classify_sidecar_message("register_agent_identity"),
        SidecarMessageKind::IpcCommand
    );
    assert_eq!(classify_sidecar_message("task_progress"), SidecarMessageKind::TaskEvent);
    assert_eq!(classify_sidecar_message(""), SidecarMessageKind::TaskEvent);
}

#[test]
fn sidecar_round_trip_delivers_once() {
    // the first response with a matching command id routes to the waiter;
    // any further one is discarded
    let mut pending = PendingResponses::new();
    pending.register("C1".to_string());
    assert!(pending.deliver("C1"));
    assert!(!pending.deliver("C1"));
    assert!(!pending.deliver("C2"));
}

#[test]
fn waiters_are_independent() {
    // confirmations and responses are served out of arrival order
    let mut pending = PendingResponses::new();
    pending.register("A".to_string());
    pending.register("B".to_string());
    assert!(pending.deliver("B"));
    assert!(pending.deliver("A"));
    assert!(!pending.deliver("B"));
}

#[test]
fn start_task_command_carries_its_payload() {
    let cmd = IpcCommand::start_task(
        "t1".to_string(),
        "title".to_string(),
        "query".to_string(),
        TaskContext {
            workspace_path: "/w".to_string(),
            active_file: None,
            selected_text: None,
            open_files: None,
        },
        None,
    );
    match cmd {
        IpcCommand::StartTask { payload, .. } => {
            assert_eq!(payload.task_id, "t1");
            assert_eq!(payload.title, "title");
            assert_eq!(payload.user_query, "query");
            assert_eq!(payload.context.workspace_path, "/w");
        }
        _ => panic!("a start-task command must be built"),
    }
}

#[test]
fn watchdog_backs_off_and_gives_up() {
    let mut dog = WatchdogState::new();
    assert_eq!(dog.tick(1000, true), WatchdogAction::Nothing);
    assert_eq!(dog.tick(1000, false), WatchdogAction::Restart { backoff_secs: 2 });
    assert_eq!(dog.tick(1005, false), WatchdogAction::Restart { backoff_secs: 4 });
    assert_eq!(dog.tick(1010, false), WatchdogAction::Restart { backoff_secs: 8 });
    assert_eq!(dog.tick(1015, false), WatchdogAction::GiveUp { pause_until: 1075 });
    // while pausing, nothing happens
    assert_eq!(dog.tick(1050, false), WatchdogAction::Nothing);
    // once the window has rolled past, it starts over
    assert_eq!(dog.tick(1200, false), WatchdogAction::Restart { backoff_secs: 2 });
}
