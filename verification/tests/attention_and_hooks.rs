//! User-attention lifecycles and the hooks that observe them.

use codex_worktree::attention::{
    begin_user_attention, complete_user_attention, finish_user_attention, AttentionStart,
    ThreadUserAttentionCompleteParams, ThreadUserAttentionStartParams, UserAttentionKey,
    UserAttentionKind, UserAttentionManager, MAX_ACTIVE_USER_ATTENTION_PER_CONNECTION,
};
use codex_worktree::notification::{
    finish_run, notification_input, parse_completed, plan_run, preview, ConfiguredHandler,
    HandlerMatcher, HandlerRunResult, HookEventName, HookRunStatus, NotificationOutcome, NotificationRequest,
    NotificationType,
};
use codex_worktree::rpc::JSONRPCErrorError;

fn text(value: &str) -> String {
    value.to_string()
}

fn start(
    manager: &mut UserAttentionManager<u32>,
    connection_id: u64,
    thread_id: &str,
    attention_id: &str,
) -> Result<UserAttentionKey, JSONRPCErrorError> {
    begin_user_attention(
        manager,
        connection_id,
        &ThreadUserAttentionStartParams {
            thread_id: text(thread_id),
            turn_id: text("turn-1"),
            attention_id: text(attention_id),
            kind: UserAttentionKind::PlanImplementation,
        },
        Ok(text(thread_id)),
    )
}

fn started(
    manager: &mut UserAttentionManager<u32>,
    connection_id: u64,
    thread_id: &str,
    attention_id: &str,
    lifecycle: u32,
) {
    let key = match start(manager, connection_id, thread_id, attention_id) {
        Ok(key) => key,
        Err(error) => panic!("unexpected error: {}", error.message),
    };
    match finish_user_attention(manager, &key, AttentionStart::Started(lifecycle)) {
        Ok((_, unplaced)) => assert_eq!(unplaced, None),
        Err(error) => panic!("unexpected error: {}", error.message),
    }
}

fn complete(
    manager: &mut UserAttentionManager<u32>,
    connection_id: u64,
    thread_id: &str,
    attention_id: &str,
) -> Option<u32> {
    let params = ThreadUserAttentionCompleteParams {
        thread_id: text(thread_id),
        attention_id: text(attention_id),
    };
    match complete_user_attention(manager, connection_id, &params, Ok(text(thread_id))) {
        Ok((_, lifecycle)) => lifecycle,
        Err(error) => panic!("unexpected error: {}", error.message),
    }
}

fn refusal<T>(result: Result<T, JSONRPCErrorError>) -> JSONRPCErrorError {
    match result {
        Ok(_) => panic!("an error was expected"),
        Err(error) => error,
    }
}

#[test]
fn concurrent_attention_ids_reject_duplicates_and_complete_idempotently() {
    let mut manager = UserAttentionManager::new();
    started(&mut manager, 1, "thread", "plan-prompt-1", 10);
    started(&mut manager, 1, "thread", "plan-prompt-2", 20);

    let duplicate = refusal(start(&mut manager, 1, "thread", "plan-prompt-1"));
    assert_eq!(duplicate.code, -32600);
    assert_eq!(duplicate.message, "attentionId is already active");
    assert!(duplicate.data.is_none());

    assert_eq!(complete(&mut manager, 1, "thread", "plan-prompt-1"), Some(10));
    assert_eq!(complete(&mut manager, 1, "thread", "plan-prompt-1"), None);
    assert_eq!(complete(&mut manager, 1, "thread", "plan-prompt-2"), Some(20));
}

#[test]
fn start_rejects_a_turn_that_has_not_completed() {
    let mut manager: UserAttentionManager<u32> = UserAttentionManager::new();
    let key = match start(&mut manager, 1, "thread", "invalid-turn") {
        Ok(key) => key,
        Err(_) => panic!("the place is free"),
    };
    let error = refusal(finish_user_attention(
        &mut manager,
        &key,
        AttentionStart::Refused(text("completed turn hook context is unavailable")),
    ));
    assert_eq!(error.code, -32600);
    assert_eq!(error.message, "completed turn hook context is unavailable");
    started(&mut manager, 1, "thread", "invalid-turn", 1);
}

#[test]
fn a_start_on_a_missing_thread_gives_its_place_up() {
    let mut manager: UserAttentionManager<u32> = UserAttentionManager::new();
    let key = match start(&mut manager, 1, "thread-9", "prompt") {
        Ok(key) => key,
        Err(_) => panic!("the place is free"),
    };
    let error =
        refusal(finish_user_attention(&mut manager, &key, AttentionStart::ThreadNotFound));
    assert_eq!(error.message, "thread not found: thread-9");
    assert_eq!(complete(&mut manager, 1, "thread-9", "prompt"), None);
}

#[test]
fn a_thread_id_that_is_none_is_refused() {
    let mut manager: UserAttentionManager<u32> = UserAttentionManager::new();
    let params = ThreadUserAttentionCompleteParams {
        thread_id: text("x"),
        attention_id: text("prompt"),
    };
    let error =
        refusal(complete_user_attention(&mut manager, 1, &params, Err(text("invalid character"))));
    assert_eq!(error.code, -32600);
    assert_eq!(error.message, "invalid thread id: invalid character");
}

#[test]
fn a_connection_has_a_limited_number_of_lifecycles() {
    let mut manager = UserAttentionManager::new();
    for i in 0..MAX_ACTIVE_USER_ATTENTION_PER_CONNECTION {
        started(&mut manager, 1, "thread", &format!("prompt-{i}"), i as u32);
    }
    let error = refusal(start(&mut manager, 1, "thread", "one-more"));
    assert_eq!(error.message, "too many active user-attention lifecycles");
    started(&mut manager, 2, "thread", "one-more", 99);
    assert_eq!(complete(&mut manager, 1, "thread", "prompt-7"), Some(7));
    started(&mut manager, 1, "thread", "one-more", 100);
}

#[test]
fn a_reservation_counts_and_is_found_before_it_is_committed() {
    let mut manager: UserAttentionManager<u32> = UserAttentionManager::new();
    let key = match start(&mut manager, 1, "thread", "prompt") {
        Ok(key) => key,
        Err(_) => panic!("the place is free"),
    };
    assert_eq!(
        refusal(start(&mut manager, 1, "thread", "prompt")).message,
        "attentionId is already active"
    );
    assert_eq!(complete(&mut manager, 1, "thread", "prompt"), None);
    match finish_user_attention(&mut manager, &key, AttentionStart::Started(5)) {
        Ok((_, unplaced)) => assert_eq!(unplaced, Some(5)),
        Err(_) => panic!("the lifecycle was started"),
    }
    manager.release(&key);
    assert_eq!(complete(&mut manager, 1, "thread", "prompt"), None);
}

#[test]
fn thread_teardown_completes_owned_attention_exactly_once() {
    let mut manager = UserAttentionManager::new();
    started(&mut manager, 1, "archived", "archive-prompt", 1);
    started(&mut manager, 2, "archived", "other-prompt", 2);
    started(&mut manager, 1, "kept", "archive-prompt", 3);
    assert_eq!(manager.complete_thread("archived"), vec![1, 2]);
    assert_eq!(manager.complete_thread("archived"), Vec::<u32>::new());
    assert_eq!(complete(&mut manager, 1, "archived", "archive-prompt"), None);
    assert_eq!(complete(&mut manager, 1, "kept", "archive-prompt"), Some(3));
}

#[test]
fn connection_disconnect_completes_owned_attention_exactly_once() {
    let mut manager = UserAttentionManager::new();
    started(&mut manager, 1, "a", "prompt", 1);
    started(&mut manager, 2, "a", "prompt", 2);
    started(&mut manager, 1, "b", "prompt", 3);
    assert_eq!(manager.complete_connection(1), vec![1, 3]);
    assert_eq!(manager.complete_connection(1), Vec::<u32>::new());
    assert_eq!(manager.complete_connection(2), vec![2]);
}

fn handler(matcher: Option<&str>, display_order: i64) -> ConfiguredHandler {
    ConfiguredHandler {
        event_name: HookEventName::Notification,
        matcher: matcher.map(|names| HandlerMatcher::of_names(names).expect("a list of names")),
        status_message: None,
        display_order,
        command: 1,
    }
}

fn request(notification_type: NotificationType) -> NotificationRequest {
    NotificationRequest {
        session_id: text("0199-thread"),
        turn_id: text("turn-1"),
        cwd: text("/tmp"),
        transcript_path: None,
        model: text("gpt-test"),
        permission_mode: text("default"),
        notification_type,
    }
}

#[test]
fn notification_matcher_selects_notification_type() {
    let handlers = vec![
        handler(Some("elicitation_dialog"), /*display_order*/ 0),
        handler(Some("user_input_request"), /*display_order*/ 1),
        handler(/*matcher*/ None, /*display_order*/ 2),
    ];
    let selected = preview(&handlers, &request(NotificationType::UserInputRequest));

    assert_eq!(
        selected.iter().map(|run| run.display_order).collect::<Vec<_>>(),
        vec![1, 2]
    );
    assert!(selected.iter().all(|run| run.status == HookRunStatus::Running));
}

#[test]
fn a_matcher_may_name_several_notifications() {
    let both = "plan_implementation_request|plan_implementation_complete";
    let mut handlers = vec![handler(Some(both), 0), handler(None, 1)];
    handlers[1].event_name = HookEventName::Stop;
    for (notification_type, count) in [
        (NotificationType::PlanImplementationRequest, 1),
        (NotificationType::PlanImplementationComplete, 1),
        (NotificationType::ElicitationComplete, 0),
    ] {
        assert_eq!(preview(&handlers, &request(notification_type)).len(), count);
    }
}

#[test]
fn a_pattern_selects_what_it_accepts() {
    let mut handlers = vec![handler(None, 0), handler(None, 1)];
    handlers[0].matcher = Some(HandlerMatcher {
        pattern: text("^elicitation_dialog$"),
        accepted: vec![NotificationType::ElicitationDialog],
    });
    handlers[1].matcher = Some(HandlerMatcher {
        pattern: text("_dialog$"),
        accepted: vec![NotificationType::ElicitationDialog, NotificationType::ElicitationUrlDialog],
    });
    for (notification_type, orders) in [
        (NotificationType::ElicitationDialog, vec![0, 1]),
        (NotificationType::ElicitationUrlDialog, vec![1]),
        (NotificationType::ElicitationComplete, vec![]),
    ] {
        let selected = preview(&handlers, &request(notification_type));
        assert_eq!(selected.iter().map(|run| run.display_order).collect::<Vec<_>>(), orders);
    }
    assert!(HandlerMatcher::of_names("^elicitation_dialog$").is_none());
    assert!(HandlerMatcher::of_names("elicitation").is_none());
    assert!(HandlerMatcher::of_names("").is_none());
}

fn result(exit_code: Option<i32>, stdout: &str, stderr: &str, error: Option<&str>) -> HandlerRunResult {
    HandlerRunResult {
        started_at: 1,
        completed_at: 2,
        duration_ms: 1,
        exit_code,
        stdout: text(stdout),
        stderr: text(stderr),
        error: error.map(text),
    }
}

#[test]
fn notification_ignores_successful_control_output() {
    let completed = parse_completed(
        &handler(/*matcher*/ None, /*display_order*/ 0),
        result(
            Some(0),
            r#"{"continue":false,"decision":"block","reason":"ignored"}"#,
            "",
            None,
        ),
        Some("turn-1".to_string()),
    );

    assert_eq!(completed.completed.run.status, HookRunStatus::Completed);
    assert_eq!(completed.completed.run.entries, Vec::new());
    assert_eq!(completed.completed.turn_id, Some(text("turn-1")));
}

#[test]
fn notification_reports_failure_without_control_effects() {
    let completed = parse_completed(
        &handler(/*matcher*/ None, /*display_order*/ 0),
        result(Some(7), "", "observer failed", None),
        Some("turn-1".to_string()),
    );

    assert_eq!(completed.completed.run.status, HookRunStatus::Failed);
    assert_eq!(completed.completed.run.entries[0].text, "observer failed");
}

#[test]
fn every_way_to_fail_is_told() {
    for (run_result, message) in [
        (result(Some(7), "", " \n", None), "hook exited with code 7"),
        (result(Some(-1), "", "", None), "hook exited with code -1"),
        (result(None, "", "noise", None), "hook process terminated without an exit code"),
        (result(Some(0), "", "", Some("no such program")), "no such program"),
    ] {
        let parsed = parse_completed(&handler(None, 3), run_result, None);
        let run = parsed.completed.run;
        assert_eq!(run.status, HookRunStatus::Failed);
        assert_eq!(run.entries.len(), 1);
        assert_eq!(run.entries[0].text, message);
        assert_eq!(run.display_order, 3);
    }
}

#[test]
fn hooks_read_what_concerns_them_and_no_more() {
    let mut opened = request(NotificationType::UserInputRequest);
    opened.transcript_path = Some(text("/tmp/log \"1\""));
    let input = notification_input(&opened);
    assert_eq!(
        input,
        "{\"session_id\":\"0199-thread\",\"transcript_path\":\"/tmp/log \\\"1\\\"\",\
         \"cwd\":\"/tmp\",\"hook_event_name\":\"Notification\",\"model\":\"gpt-test\",\
         \"permission_mode\":\"default\",\"notification_type\":\"user_input_request\",\
         \"message\":\"Codex needs your input\",\"title\":null}"
    );
    assert!(!input.contains("turn-1"));
    let parsed: serde_json::Value = serde_json::from_str(&input).expect("valid JSON");
    assert_eq!(parsed["hook_event_name"], serde_json::Value::String(text("Notification")));
}

#[test]
fn notifications_say_whether_input_is_needed() {
    for (notification_type, name, message) in [
        (NotificationType::UserInputRequest, "user_input_request", "Codex needs your input"),
        (NotificationType::UserInputComplete, "user_input_complete", "Codex input request completed"),
        (NotificationType::ElicitationDialog, "elicitation_dialog", "Codex needs your input"),
        (NotificationType::ElicitationUrlDialog, "elicitation_url_dialog", "Codex needs your input"),
        (
            NotificationType::ElicitationComplete,
            "elicitation_complete",
            "Codex input request completed",
        ),
        (
            NotificationType::PlanImplementationRequest,
            "plan_implementation_request",
            "Codex needs your input",
        ),
        (
            NotificationType::PlanImplementationComplete,
            "plan_implementation_complete",
            "Codex input request completed",
        ),
    ] {
        assert_eq!(notification_type.as_str(), name);
        assert_eq!(notification_type.message(), message);
    }
}

#[test]
fn runs_are_planned_and_finished_in_order() {
    let handlers = vec![handler(None, 4), handler(Some("user_input_complete"), 5), handler(None, 6)];
    assert!(plan_run(&Vec::new(), &request(NotificationType::UserInputRequest)).is_none());
    assert_eq!(NotificationOutcome::default().hook_events.len(), 0);
    let run = plan_run(&handlers, &request(NotificationType::UserInputRequest)).expect("two hooks");
    assert_eq!(run.matched.len(), 2);
    let results = vec![result(Some(0), "", "", None), result(Some(1), "", "bad", None)];
    let outcome = finish_run(&run.matched, results, "turn-1");
    assert_eq!(outcome.hook_events.len(), 2);
    assert_eq!(outcome.hook_events[0].run.display_order, 4);
    assert_eq!(outcome.hook_events[0].run.status, HookRunStatus::Completed);
    assert_eq!(outcome.hook_events[1].run.display_order, 6);
    assert_eq!(outcome.hook_events[1].run.entries[0].text, "bad");
    assert_eq!(outcome.hook_events[1].turn_id, Some(text("turn-1")));
}
