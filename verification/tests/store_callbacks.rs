//! Callback configurations, their page tokens and their deliveries.

use smesh_authority::callbacks::{
    callback_readiness, claim_callback_delivery, commit_callback_delivery, config_state_from_str, create_callback_config,
    delete_callback_config, drawn_id, enqueue_terminal_callbacks, finish_postgres_callback, get_callback_config,
    list_callback_configs, parse_postgres_callback_token, postgres_callback_config, postgres_callback_token,
    read_callback_payload, resolve_callback_enrollment, stored_epoch, CallbackConfigState, CallbackDeleteOutcome,
    CallbackDeliveryState, CallbackLimits, CallbackReadiness, ConfigCreateCommand, ConfigRow, CreateInputs, CreateStep,
    DeliveryNumbers,
};
use smesh_authority::crypto::{content_digest, text_digest};
use smesh_authority::fault::Fault;
use smesh_authority::task::{Task, TaskState, TaskStatus};

const KEY: [u8; 32] = [7; 32];

fn row(id: &str, state: &str) -> ConfigRow {
    ConfigRow {
        config_id: id.to_string(),
        enrollment_id: "e".to_string(),
        enrollment_generation: 2,
        canonical_url: "https://example.com/hook".to_string(),
        url_digest: "u".to_string(),
        state: state.to_string(),
        created_at: 5,
    }
}

#[test]
fn configurations_are_read_back() {
    let config = postgres_callback_config(&row("c", "draining"), "t", "task").unwrap();
    assert_eq!(config.state, CallbackConfigState::Draining);
    assert_eq!(config.tenant_scope, "t");
    assert_eq!(config.enrollment_generation, 2);
    assert_eq!(
        postgres_callback_config(&row("c", "lost"), "t", "task").err(),
        Some(Fault::CallbackConfigStateCorrupt)
    );
    let mut negative = row("c", "active");
    negative.enrollment_generation = -1;
    assert_eq!(postgres_callback_config(&negative, "t", "task").err(), Some(Fault::CallbackEnrollmentCorrupt));
    assert_eq!(config_state_from_str("terminal_closed"), Some(CallbackConfigState::TerminalClosed));
    assert_eq!(config_state_from_str("Active"), None);
}

#[test]
fn page_tokens_lead_back_to_their_page() {
    let token = postgres_callback_token(&KEY, "t", "task", -5, "c");
    assert_eq!(token, "MR90H3Rhc2sfLTUfYw.VaCJz76xWHOalPemzNM4zcuBLDKcxggsN7z9LZ9LaEI");
    let start = parse_postgres_callback_token(&KEY, &token, "t", "task").unwrap();
    assert_eq!(start.created_at, -5);
    assert_eq!(start.config_id, "c");
}

#[test]
fn foreign_page_tokens_are_refused() {
    let refused = |token: &str, tenant: &str, task: &str| parse_postgres_callback_token(&KEY, token, tenant, task).err();
    let token = postgres_callback_token(&KEY, "t", "task", 5, "c");
    assert_eq!(refused(&token, "t", "task"), None);
    let invalid = Some(Fault::InvalidCallbackPageToken);
    assert_eq!(refused(&token, "u", "task"), invalid);
    assert_eq!(refused(&token, "t", "other"), invalid);
    assert_eq!(refused("", "t", "task"), invalid);
    assert_eq!(refused("AAAA", "t", "task"), invalid);
    assert_eq!(refused("!.AAAA", "t", "task"), invalid);
    let forged = postgres_callback_token(&[8; 32], "t", "task", 5, "c");
    assert_eq!(refused(&forged, "t", "task"), invalid);
    assert_eq!(read_callback_payload("2\u{1f}t\u{1f}task\u{1f}5\u{1f}c", "t", "task").err(), invalid);
    assert_eq!(refused(&postgres_callback_token(&KEY, "t", "task", 5, ""), "t", "task"), invalid);
}

fn limits() -> Option<CallbackLimits> {
    Some(CallbackLimits { policy_revision: 3, max_configs_per_task: 1, max_configs_per_tenant: 2 })
}

fn command() -> ConfigCreateCommand {
    ConfigCreateCommand {
        enrollment_id: "e".to_string(),
        enrollment_generation: 2,
        canonical_url: "https://example.com/hook".to_string(),
        url_digest: "u".to_string(),
    }
}

fn inputs() -> CreateInputs {
    CreateInputs { task_open: true, enrolled: true, existing: None, tenant_configs: 0, task_configs: 0 }
}

#[test]
fn callbacks_need_a_policy() {
    assert_eq!(callback_readiness(&limits()), CallbackReadiness::Ready);
    assert_eq!(callback_readiness(&None), CallbackReadiness::Disabled);
}

#[test]
fn registration_is_idempotent() {
    assert!(matches!(
        create_callback_config(&limits(), &command(), &inputs(), "t", "task"),
        Ok(CreateStep::Insert)
    ));
    let again = CreateInputs { existing: Some(row("c", "active")), tenant_configs: 9, ..inputs() };
    match create_callback_config(&limits(), &command(), &again, "t", "task").unwrap() {
        CreateStep::Existing(config) => assert_eq!(config.config_id, "c"),
        CreateStep::Insert => panic!("it was registered"),
    }
}

#[test]
fn registrations_are_bounded() {
    let refused = |c: &ConfigCreateCommand, i: &CreateInputs| create_callback_config(&limits(), c, i, "t", "task").err();
    assert_eq!(
        create_callback_config(&None, &command(), &inputs(), "t", "task").err(),
        Some(Fault::PushNotificationNotSupported)
    );
    let corrupt = Some(CallbackLimits { policy_revision: u64::MAX, max_configs_per_task: 1, max_configs_per_tenant: 1 });
    assert_eq!(
        create_callback_config(&corrupt, &command(), &inputs(), "t", "task").err(),
        Some(Fault::CallbackPolicyCorrupt)
    );
    let wide = ConfigCreateCommand { enrollment_generation: u64::MAX, ..command() };
    assert_eq!(refused(&wide, &inputs()), Some(Fault::InvalidCallbackGeneration));
    assert_eq!(refused(&command(), &CreateInputs { task_open: false, ..inputs() }), Some(Fault::TaskNotFound));
    assert_eq!(
        refused(&command(), &CreateInputs { enrolled: false, ..inputs() }),
        Some(Fault::CallbackEnrollmentNotAuthorized)
    );
    assert_eq!(
        refused(&command(), &CreateInputs { tenant_configs: 2, ..inputs() }),
        Some(Fault::CallbackTenantCapacity)
    );
    assert_eq!(
        refused(&command(), &CreateInputs { task_configs: 1, ..inputs() }),
        Some(Fault::CallbackConfigCapacity)
    );
    let other = ConfigCreateCommand { url_digest: "v".to_string(), ..command() };
    assert_eq!(
        refused(&other, &CreateInputs { existing: Some(row("c", "active")), ..inputs() }),
        Some(Fault::CallbackConfigConflict)
    );
}

#[test]
fn configurations_are_listed_in_pages() {
    let rows = vec![row("a", "active"), row("b", "active"), row("c", "active")];
    let page = list_callback_configs(true, &rows, 2, &KEY, "t", "task").unwrap();
    let ids: Vec<String> = page.configs.iter().map(|c| c.config_id.clone()).collect();
    assert_eq!(ids, vec!["a", "b"]);
    let start = parse_postgres_callback_token(&KEY, &page.next_token.unwrap(), "t", "task").unwrap();
    assert_eq!(start.config_id, "b");
    assert!(list_callback_configs(true, &rows, 3, &KEY, "t", "task").unwrap().next_token.is_none());
    assert_eq!(
        list_callback_configs(false, &rows, 3, &KEY, "t", "task").err(),
        Some(Fault::PushNotificationNotSupported)
    );
    let corrupt = vec![row("a", "lost")];
    assert_eq!(
        list_callback_configs(true, &corrupt, 3, &KEY, "t", "task").err(),
        Some(Fault::CallbackConfigStateCorrupt)
    );
    assert!(get_callback_config(true, &None, "t", "task").unwrap().is_none());
    assert!(get_callback_config(true, &Some(row("c", "active")), "t", "task").unwrap().is_some());
    assert_eq!(get_callback_config(false, &None, "t", "task").err(), Some(Fault::PushNotificationNotSupported));
}

#[test]
fn configurations_drain_before_they_go() {
    let delete = |state: Option<&str>, leased| {
        delete_callback_config(true, true, &state.map(|s| s.to_string()), leased)
    };
    assert_eq!(delete(None, false), Ok(CallbackDeleteOutcome::AlreadyAbsent));
    assert_eq!(delete(Some("revoked"), true), Ok(CallbackDeleteOutcome::AlreadyAbsent));
    assert_eq!(delete(Some("active"), true), Ok(CallbackDeleteOutcome::Draining));
    assert_eq!(delete(Some("active"), false), Ok(CallbackDeleteOutcome::Revoked));
    assert_eq!(delete_callback_config(true, false, &None, false), Err(Fault::TaskNotFound));
    assert_eq!(delete_callback_config(false, true, &None, false), Err(Fault::PushNotificationNotSupported));
}

#[test]
fn enrollments_resolve_to_their_generation() {
    assert_eq!(resolve_callback_enrollment(&limits(), Some(4)), Ok(Some(4)));
    assert_eq!(resolve_callback_enrollment(&limits(), None), Ok(None));
    assert_eq!(resolve_callback_enrollment(&limits(), Some(-1)), Err(Fault::CallbackEnrollmentCorrupt));
    assert_eq!(resolve_callback_enrollment(&None, Some(4)), Err(Fault::PushNotificationNotSupported));
}

#[test]
fn deliveries_are_numbered() {
    assert_eq!(
        claim_callback_delivery(3, 2, 1),
        Ok(DeliveryNumbers { lease_epoch: 3, enrollment_generation: 2, attempt_no: 1 })
    );
    assert_eq!(claim_callback_delivery(-1, 2, 1), Err(Fault::CallbackFenceCorrupt));
    assert_eq!(claim_callback_delivery(3, -1, 1), Err(Fault::CallbackEnrollmentCorrupt));
    assert_eq!(claim_callback_delivery(3, 2, 65_536), Err(Fault::CallbackAttemptCorrupt));
    assert_eq!(stored_epoch(3), 3);
    assert_eq!(stored_epoch(u64::MAX), -1);
}

#[test]
fn deliveries_end_in_a_named_state() {
    for state in [
        CallbackDeliveryState::Delivered,
        CallbackDeliveryState::Retry,
        CallbackDeliveryState::Dead,
        CallbackDeliveryState::Canceled,
    ] {
        assert_eq!(finish_postgres_callback(&Some(state.as_text().to_string())), Ok(state));
        assert_eq!(commit_callback_delivery(state), state == CallbackDeliveryState::Delivered);
    }
    assert_eq!(finish_postgres_callback(&Some("lost".to_string())), Err(Fault::CallbackDeliveryStateCorrupt));
    assert_eq!(finish_postgres_callback(&None), Err(Fault::CallbackFenceStale));
}

fn task(state: TaskState) -> Task {
    Task {
        id: "task".to_string(),
        context_id: "context".to_string(),
        status: TaskStatus { state, message: None, timestamp: None },
        artifacts: None,
        history: None,
        metadata: None,
    }
}

#[test]
fn ended_tasks_call_back() {
    let payload = b"{}";
    let queued = enqueue_terminal_callbacks(true, "t", &task(TaskState::Completed), 4, payload).unwrap().unwrap();
    assert_eq!(queued.payload_digest, content_digest(payload));
    assert_eq!(queued.egress_bytes, 2);
    let named = text_digest(&format!("t\0task\04\0{}", queued.payload_digest));
    assert_eq!(queued.event_id, format!("callback-event-{}", &named[7..39]));
    assert!(enqueue_terminal_callbacks(true, "t", &task(TaskState::Working), 4, payload).unwrap().is_none());
    assert!(enqueue_terminal_callbacks(false, "t", &task(TaskState::Completed), 4, payload).unwrap().is_none());
    assert_eq!(drawn_id("delivery-", b"x"), format!("delivery-{}", &content_digest(b"x")[7..39]));
}
