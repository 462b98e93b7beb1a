//! Task listings and their page tokens.

use smesh_authority::crypto::text_digest;
use smesh_authority::fault::Fault;
use smesh_authority::listing::{
    begin_listing, check_page, continue_listing, decode_page_token_hash, derive_page_token, freeze_tasks, page_hash_of,
    project_snapshot_task, query_key, requested_page, snapshot_metadata_digest, validate_snapshot_request, FrozenTask, ListTasksRequest, ListedRow, Moment,
    ListingRequest, PageExpectation, PageRow, SealEntry, SnapshotHeader, SnapshotRow, SnapshotUsage,
};
use smesh_authority::task::{Artifact, Message, Task, TaskState, TaskStatus};

const KEY: [u8; 32] = [7; 32];
const SNAPSHOT: [u8; 32] = [9; 32];

fn request() -> ListTasksRequest {
    ListTasksRequest {
        context_id: None,
        status: None,
        page_size: None,
        page_token: None,
        history_length: None,
        status_timestamp_after: None,
        include_artifacts: None,
    }
}

fn task(id: &str) -> Task {
    Task {
        id: id.to_string(),
        context_id: "c".to_string(),
        status: TaskStatus { state: TaskState::Working, message: None, timestamp: None },
        artifacts: Some(vec![Artifact { artifact_id: "a".to_string(), body: String::new() }]),
        history: Some(
            ["1", "2", "3"]
                .iter()
                .map(|id| Message {
                    message_id: id.to_string(),
                    task_id: None,
                    context_id: None,
                    body: String::new(),
                })
                .collect(),
        ),
        metadata: None,
    }
}

#[test]
fn requests_are_bounded() {
    let check = |request: ListTasksRequest| validate_snapshot_request(&request);
    assert_eq!(check(request()).map(|accepted| accepted.0), Ok(50));
    assert_eq!(check(ListTasksRequest { page_size: Some(100), ..request() }).map(|accepted| accepted.0), Ok(100));
    for size in [0, -1, 101] {
        assert_eq!(
            check(ListTasksRequest { page_size: Some(size), ..request() }),
            Err(Fault::PageSizeOutOfRange)
        );
    }
    for length in [-1, 101] {
        assert_eq!(
            check(ListTasksRequest { history_length: Some(length), page_size: Some(0), ..request() }),
            Err(Fault::HistoryLengthOutOfRange)
        );
    }
}

#[test]
fn an_empty_token_asks_for_the_first_page() {
    let asked = |token: Option<&str>| ListTasksRequest { page_token: token.map(str::to_string), ..request() };
    assert_eq!(requested_page(&asked(None)), None);
    assert_eq!(requested_page(&asked(Some(""))), None);
    assert_eq!(requested_page(&asked(Some("next"))), Some("next"));
}

#[test]
fn queries_are_known_by_their_digest() {
    let plain = "{\"contextId\":null,\"historyLength\":null,\"includeArtifacts\":false,\"pageSize\":50,\
        \"projectionVersion\":1,\"status\":null,\"statusTimestampAfter\":null}";
    assert_eq!(query_key(&request()).as_deref(), Some(plain));
    assert_eq!(validate_snapshot_request(&request()), Ok((50, text_digest(plain))));
    let same = ListTasksRequest { page_size: Some(50), include_artifacts: Some(false), ..request() };
    assert_eq!(validate_snapshot_request(&same), Ok((50, text_digest(plain))));

    let odd = "a\"b\\c\u{8}\t\n\u{c}\r\u{1f}\u{7f}\u{e9}";
    let query = ListTasksRequest {
        context_id: Some(odd.to_string()),
        status: Some(TaskState::InputRequired),
        page_size: Some(7),
        history_length: Some(0),
        status_timestamp_after: Some(Moment { seconds: 1_767_323_045, nanos: 0 }),
        include_artifacts: Some(true),
        ..request()
    };
    let written = query_key(&query).unwrap();
    assert!(written.starts_with(
        "{\"contextId\":\"a\\\"b\\\\c\\b\\t\\n\\f\\r\\u001f\u{7f}\u{e9}\",\"historyLength\":0,"
    ));
    let mut fields = serde_json::Map::new();
    fields.insert("contextId".to_string(), serde_json::Value::from(odd));
    fields.insert("historyLength".to_string(), serde_json::Value::from(0));
    fields.insert("includeArtifacts".to_string(), serde_json::Value::from(true));
    fields.insert("pageSize".to_string(), serde_json::Value::from(7));
    fields.insert("projectionVersion".to_string(), serde_json::Value::from(1));
    fields.insert("status".to_string(), serde_json::Value::from("TASK_STATE_INPUT_REQUIRED"));
    fields.insert("statusTimestampAfter".to_string(), serde_json::Value::from("2026-01-02T03:04:05Z"));
    assert_eq!(written, serde_json::Value::Object(fields).to_string());
    let later = ListTasksRequest { status_timestamp_after: Some(Moment { seconds: 1_767_323_045, nanos: 5 }), ..query };
    assert!(query_key(&later).unwrap().ends_with("\"statusTimestampAfter\":\"2026-01-02T03:04:05.000000005Z\"}"));
}

#[test]
fn listings_show_what_is_asked_for() {
    let shown = project_snapshot_task(task("t"), &request());
    assert!(shown.artifacts.is_none());
    assert_eq!(shown.history.unwrap().len(), 3);
    let shown = project_snapshot_task(
        task("t"),
        &ListTasksRequest { include_artifacts: Some(true), history_length: Some(2), ..request() },
    );
    assert_eq!(shown.artifacts.unwrap().len(), 1);
    let names: Vec<String> = shown.history.unwrap().into_iter().map(|m| m.message_id).collect();
    assert_eq!(names, vec!["2", "3"]);
    assert!(project_snapshot_task(task("t"), &ListTasksRequest { history_length: Some(0), ..request() })
        .history
        .is_none());
}

#[test]
fn corrupt_records_are_not_listed() {
    let row = |id: &str, task: Option<Task>| ListedRow { task_id: id.to_string(), task };
    let listed = freeze_tasks(vec![row("a", Some(task("a"))), row("b", Some(task("b")))], &request()).unwrap();
    assert_eq!(listed.len(), 2);
    assert!(listed[1].same(&project_snapshot_task(task("b"), &request())));
    let refused = Some(Fault::PersistentTaskCorrupt);
    assert_eq!(freeze_tasks(vec![row("a", Some(task("b")))], &request()).err(), refused);
    assert_eq!(freeze_tasks(vec![row("a", Some(task("a"))), row("b", None)], &request()).err(), refused);
}

fn frozen(n: usize) -> Vec<FrozenTask> {
    (0..n)
        .map(|i| FrozenTask {
            task_id: format!("t{i}"),
            revision: i as i64 + 1,
            encoded: format!("{{\"id\":\"t{i}\"}}"),
            task: task(&format!("t{i}")),
        })
        .collect()
}

fn listing(page_size: i32) -> ListingRequest {
    ListingRequest { scope_digest: "scope".to_string(), query_digest: "query".to_string(), page_size, now: 1_000 }
}

const FREE: SnapshotUsage = SnapshotUsage { active: 0, bytes: 0 };

#[test]
fn a_listing_that_fits_one_page_freezes_nothing() {
    let plan = begin_listing(&KEY, &SNAPSHOT, &listing(3), &frozen(3), FREE).unwrap();
    assert!(plan.snapshot.is_none());
    assert_eq!(plan.page.tasks.len(), 3);
    assert_eq!(plan.page.next_page_token, "");
    assert_eq!(plan.page.total_size, 3);
    assert_eq!(plan.page.page_size, 3);
}

#[test]
fn longer_listings_are_frozen_and_sealed() {
    let plan = begin_listing(&KEY, &SNAPSHOT, &listing(2), &frozen(5), FREE).unwrap();
    let snapshot = plan.snapshot.unwrap();
    assert_eq!(plan.page.tasks.len(), 2);
    assert_eq!(snapshot.header.total, 5);
    assert_eq!(snapshot.header.issued_at, 1_000);
    assert_eq!(snapshot.header.expires_at, 301_000);
    assert_eq!(snapshot.entries.len(), 5);
    assert_eq!(snapshot.entries[4].digest, text_digest("{\"id\":\"t4\"}"));
    let positions: Vec<i64> = snapshot.tokens.iter().map(|t| t.position).collect();
    assert_eq!(positions, vec![2, 4]);
    assert_eq!(plan.page.next_page_token, snapshot.tokens[0].token.token);
    assert_eq!(snapshot.metadata, snapshot_metadata_digest(&KEY, &snapshot.header, &snapshot.entries));
}

#[test]
fn snapshots_share_a_budget() {
    let full = SnapshotUsage { active: 128, bytes: 0 };
    assert_eq!(
        begin_listing(&KEY, &SNAPSHOT, &listing(2), &frozen(5), full).err(),
        Some(Fault::SnapshotCapacityReached)
    );
    assert!(begin_listing(&KEY, &SNAPSHOT, &listing(5), &frozen(5), full).is_ok());
    let heavy = SnapshotUsage { active: 0, bytes: 67_108_864 };
    assert_eq!(
        begin_listing(&KEY, &SNAPSHOT, &listing(2), &frozen(5), heavy).err(),
        Some(Fault::SnapshotCapacityReached)
    );
    let late = ListingRequest { now: i64::MAX, ..listing(2) };
    assert_eq!(
        begin_listing(&KEY, &SNAPSHOT, &late, &frozen(5), FREE).err(),
        Some(Fault::SnapshotClockExhausted)
    );
}

fn page(position: i64) -> (PageRow, Vec<SealEntry>, Vec<String>) {
    let plan = begin_listing(&KEY, &SNAPSHOT, &listing(2), &frozen(5), FREE).unwrap().snapshot.unwrap();
    let tokens = plan.tokens.iter().map(|t| t.token.token.clone()).collect();
    let row = PageRow {
        header: plan.header,
        next_position: position,
        token_version: 1,
        key_generation: 1,
        metadata_digest: plan.metadata.to_vec(),
        owner_account_id: "owner".to_string(),
    };
    (row, plan.entries, tokens)
}

fn expectation() -> PageExpectation {
    PageExpectation {
        scope_digest: "scope".to_string(),
        query_digest: "query".to_string(),
        owner: "owner".to_string(),
        page_size: 2,
        now: 2_000,
    }
}

fn rows(from: usize, to: usize) -> Vec<SnapshotRow> {
    (from..to)
        .map(|i| {
            let encoded = format!("{{\"id\":\"t{i}\"}}");
            SnapshotRow {
                ordinal: i as i64,
                task_id: format!("t{i}"),
                task_digest: text_digest(&encoded),
                encoded,
                task: Some(task(&format!("t{i}"))),
            }
        })
        .collect()
}

#[test]
fn issued_tokens_lead_through_the_whole_listing() {
    let (row, entries, tokens) = page(2);
    assert!(decode_page_token_hash(&tokens[0]).is_ok());
    let second = continue_listing(&KEY, &row, &expectation(), &entries, &rows(2, 4)).unwrap();
    assert_eq!(second.tasks[0].id, "t2");
    assert_eq!(second.next_page_token, tokens[1]);
    assert_eq!(second.total_size, 5);
    let (row, entries, _) = page(4);
    let last = continue_listing(&KEY, &row, &expectation(), &entries, &rows(4, 5)).unwrap();
    assert_eq!(last.tasks.len(), 1);
    assert_eq!(last.next_page_token, "");
}

#[test]
fn pages_join_to_the_listing() {
    let first = begin_listing(&KEY, &SNAPSHOT, &listing(2), &frozen(5), FREE).unwrap().page;
    let mut ids: Vec<String> = first.tasks.iter().map(|t| t.id.clone()).collect();
    for position in [2, 4] {
        let (row, entries, _) = page(position as i64);
        let next = continue_listing(&KEY, &row, &expectation(), &entries, &rows(position, 5.min(position + 2))).unwrap();
        ids.extend(next.tasks.iter().map(|t| t.id.clone()));
    }
    assert_eq!(ids, vec!["t0", "t1", "t2", "t3", "t4"]);
}

#[test]
fn tokens_belong_to_their_caller() {
    let refused = Err(Fault::InvalidPageToken);
    let (row, entries, _) = page(2);
    assert_eq!(check_page(&KEY, &row, &expectation(), &entries), Ok(()));
    for wrong in [
        PageExpectation { scope_digest: "other".to_string(), ..expectation() },
        PageExpectation { query_digest: "other".to_string(), ..expectation() },
        PageExpectation { owner: "other".to_string(), ..expectation() },
        PageExpectation { page_size: 1, ..expectation() },
        PageExpectation { now: 301_000, ..expectation() },
        PageExpectation { now: 999, ..expectation() },
    ] {
        assert_eq!(check_page(&KEY, &row, &wrong, &entries), refused);
    }
    assert_eq!(check_page(&[8; 32], &row, &expectation(), &entries), refused);
}

#[test]
fn changed_snapshots_are_refused() {
    let refused = Err(Fault::InvalidPageToken);
    let (row, mut entries, _) = page(2);
    entries[3].revision += 1;
    assert_eq!(check_page(&KEY, &row, &expectation(), &entries), refused);
    let (row, mut entries, _) = page(2);
    entries.pop();
    assert_eq!(check_page(&KEY, &row, &expectation(), &entries), refused);
    let (row, entries, _) = page(3);
    assert_eq!(check_page(&KEY, &row, &expectation(), &entries), refused);
    let (row, entries, _) = page(2);
    let mut wrong = rows(2, 4);
    wrong[1].encoded = "{}".to_string();
    assert!(continue_listing(&KEY, &row, &expectation(), &entries, &wrong).is_err());
    let mut missing = rows(2, 4);
    missing[0].task = None;
    assert!(continue_listing(&KEY, &row, &expectation(), &entries, &missing).is_err());
    assert!(continue_listing(&KEY, &row, &expectation(), &entries, &rows(2, 3)).is_err());
}

#[test]
fn tokens_have_the_documented_value() {
    let header = SnapshotHeader {
        snapshot_id: vec![1, 2],
        scope_digest: "s".to_string(),
        query_digest: "q".to_string(),
        total: 1,
        page_size: 2,
        issued_at: 3,
        expires_at: 4,
        projection_version: 1,
        frozen_bytes: 5,
    };
    let entries =
        vec![SealEntry { ordinal: 0, task_id: "t".to_string(), revision: -1, digest: "d".to_string() }];
    let metadata = snapshot_metadata_digest(&KEY, &header, &entries);
    assert_eq!(hex(&metadata), "7913b4356fe70209962d7debccf77ad9c396ddb0173784e5ba7698e254efae72");
    let token = derive_page_token(&KEY, &[1, 2], 50, &metadata);
    assert_eq!(token.token, "Q9eqi349cpopCyrmwuN_smyr80kVqQR7CvGz7c7nv-0");
    assert_eq!(hex(&token.hash), "40b2278a5ec97ea5fc1a41396d09e18625fd8ebc3777c15b76227dce56155c1a");
    assert_eq!(decode_page_token_hash(&token.token), Ok(token.hash));
}

fn hex(bytes: &[u8]) -> String {
    bytes.iter().map(|byte| format!("{byte:02x}")).collect()
}

#[test]
fn malformed_tokens_are_refused() {
    for token in ["", "!", "AAAA", &"A".repeat(4097)] {
        assert_eq!(decode_page_token_hash(token), Err(Fault::InvalidPageToken));
    }
    assert!(page_hash_of(vec![0; 32]).is_ok());
    assert_eq!(page_hash_of(vec![0; 31]), Err(Fault::InvalidPageToken));
}
