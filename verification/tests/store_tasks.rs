//! Tasks, their states, and the transcripts of their streams.

use smesh_authority::fault::Fault;
use smesh_authority::task::{
    frame_kind, is_dispatch_closed, last_messages, legal_transition, project_subscription, state_key,
    validate_terminal_public_transcript, Artifact, ArtifactUpdate, Frame, Message, StatusUpdate, Task, TaskState,
    TaskStatus,
};
use smesh_authority::transcript::{
    append_stream_progress, check_progress_frame, is_consistent, is_sealed_as, read_frames, status_update_frame,
    stream_frames_after_scoped, subscription_snapshot_authorized, task_events_after_scoped, transcript_digest,
    transcript_text, EventRow, OpenTranscript, ProgressDecision, StoredFrame, SubscriptionCursor, SubscriptionRow,
    TranscriptRow, TranscriptState,
};
use smesh_authority::crypto::text_digest;

const STATES: [TaskState; 9] = [
    TaskState::Unspecified,
    TaskState::Submitted,
    TaskState::Working,
    TaskState::Completed,
    TaskState::Failed,
    TaskState::Canceled,
    TaskState::InputRequired,
    TaskState::Rejected,
    TaskState::AuthRequired,
];

fn status(state: TaskState) -> TaskStatus {
    TaskStatus { state, message: None, timestamp: Some("2026-01-01T00:00:00Z".to_string()) }
}

fn task(state: TaskState) -> Task {
    Task {
        id: "task-1".to_string(),
        context_id: "context-1".to_string(),
        status: status(state),
        artifacts: None,
        history: None,
        metadata: None,
    }
}

fn artifact(id: &str) -> Artifact {
    Artifact { artifact_id: id.to_string(), body: format!("body of {id}") }
}

fn update(state: TaskState) -> Frame {
    Frame::StatusUpdate(StatusUpdate {
        task_id: "task-1".to_string(),
        context_id: "context-1".to_string(),
        status: status(state),
        metadata: None,
    })
}

fn artifact_update(id: &str) -> Frame {
    Frame::ArtifactUpdate(ArtifactUpdate {
        task_id: "task-1".to_string(),
        context_id: "context-1".to_string(),
        artifact: artifact(id),
        append: Some(false),
        last_chunk: Some(true),
        metadata: None,
    })
}

fn message(id: &str) -> Message {
    Message { message_id: id.to_string(), task_id: None, context_id: None, body: "hello".to_string() }
}

#[test]
fn terminal_states_are_final() {
    for from in [TaskState::Completed, TaskState::Failed, TaskState::Canceled, TaskState::Rejected] {
        assert!(from.is_terminal());
        for to in STATES {
            assert_eq!(legal_transition(from, to), from == to);
        }
    }
}

#[test]
fn waiting_tasks_resume_or_end_unsuccessfully() {
    for from in [TaskState::InputRequired, TaskState::AuthRequired] {
        assert!(!from.is_terminal());
        assert!(is_dispatch_closed(from));
        assert!(legal_transition(from, TaskState::Working));
        assert!(legal_transition(from, TaskState::Canceled));
        assert!(!legal_transition(from, TaskState::Completed));
        assert!(!legal_transition(from, TaskState::Submitted));
    }
    assert!(!legal_transition(TaskState::InputRequired, TaskState::AuthRequired));
}

#[test]
fn work_starts_and_ends() {
    assert!(legal_transition(TaskState::Unspecified, TaskState::Submitted));
    assert!(!legal_transition(TaskState::Unspecified, TaskState::Working));
    assert!(legal_transition(TaskState::Submitted, TaskState::Completed));
    assert!(!legal_transition(TaskState::Working, TaskState::Submitted));
    assert!(!is_dispatch_closed(TaskState::Working));
}

#[test]
fn states_are_stored_under_distinct_names() {
    let keys: Vec<&str> = STATES.iter().map(|state| state_key(&task(*state))).collect();
    assert_eq!(keys[6], "\"TASK_STATE_INPUT_REQUIRED\"");
    for i in 0..keys.len() {
        for j in 0..i {
            assert_ne!(keys[i], keys[j]);
        }
    }
}

#[test]
fn frames_are_stored_by_kind() {
    assert_eq!(frame_kind(&Frame::Task(task(TaskState::Working))), "task");
    assert_eq!(frame_kind(&Frame::Message(message("m"))), "message");
    assert_eq!(frame_kind(&update(TaskState::Working)), "status_update");
    assert_eq!(frame_kind(&artifact_update("a")), "artifact_update");
}

#[test]
fn copies_are_the_same() {
    let mut full = task(TaskState::Working);
    full.artifacts = Some(vec![artifact("a")]);
    full.history = Some(vec![message("m")]);
    assert!(full.same(&full.copy()));
    let mut other = full.copy();
    other.history = None;
    assert!(!full.same(&other));
    assert!(artifact_update("a").same(&artifact_update("a").copy()));
    assert!(!artifact_update("a").same(&artifact_update("b")));
    assert!(!update(TaskState::Working).same(&update(TaskState::Failed)));
}

#[test]
fn the_last_messages_are_kept() {
    let items = vec![message("1"), message("2"), message("3")];
    let kept = last_messages(&items, 2);
    assert_eq!(kept.len(), 2);
    assert_eq!(kept[0].message_id, "2");
    assert!(last_messages(&items, 0).is_empty());
}

#[test]
fn subscribers_see_the_frames_after_the_first() {
    let frames = vec![
        Frame::Task(task(TaskState::Submitted)),
        update(TaskState::Working),
        artifact_update("a"),
        Frame::Message(message("m")),
        artifact_update("b"),
    ];
    let shown = project_subscription(task(TaskState::Submitted), &frames);
    assert_eq!(shown.status.state, TaskState::Working);
    let names: Vec<String> = shown.artifacts.unwrap().into_iter().map(|a| a.artifact_id).collect();
    assert_eq!(names, vec!["a", "b"]);
    assert!(project_subscription(task(TaskState::Working), &Vec::new()).same(&task(TaskState::Working)));
}

fn delivered() -> (Vec<Frame>, Task) {
    let mut done = task(TaskState::Completed);
    done.artifacts = Some(vec![artifact("a")]);
    let frames = vec![
        Frame::Task(task(TaskState::Submitted)),
        update(TaskState::Working),
        artifact_update("a"),
        update(TaskState::Completed),
    ];
    (frames, done)
}

#[test]
fn a_delivered_stream_adds_up_to_its_task() {
    let (frames, done) = delivered();
    assert_eq!(validate_terminal_public_transcript(&frames, &done), Ok(()));
    assert_eq!(validate_terminal_public_transcript(&frames, &task(TaskState::Completed)), Err(Fault::InvalidAgentResponse));
    assert_eq!(validate_terminal_public_transcript(&Vec::new(), &done), Err(Fault::InvalidAgentResponse));
}

#[test]
fn incomplete_streams_are_refused() {
    let refuse = |change: fn(&mut Vec<Frame>)| {
        let (mut frames, done) = delivered();
        change(&mut frames);
        assert_eq!(validate_terminal_public_transcript(&frames, &done), Err(Fault::InvalidAgentResponse));
    };
    refuse(|frames| {
        frames.pop();
    });
    refuse(|frames| {
        frames.remove(0);
    });
    refuse(|frames| frames.push(update(TaskState::Completed)));
    refuse(|frames| frames.insert(2, Frame::Message(message("m"))));
    refuse(|frames| frames[0] = Frame::Task(task(TaskState::InputRequired)));
    refuse(|frames| {
        if let Frame::StatusUpdate(u) = &mut frames[1] {
            u.task_id = "task-2".to_string();
        }
    });
}

fn stored(position: usize, frame: Frame, encoded: &str) -> StoredFrame {
    StoredFrame {
        seq: position as i64 + 1,
        version: 1,
        kind: frame_kind(&frame).to_string(),
        encoded: encoded.to_string(),
        digest: text_digest(encoded),
        frame: Some(frame),
        canonical: encoded.to_string(),
    }
}

fn stored_delivered() -> (Vec<StoredFrame>, String, Task) {
    let (frames, done) = delivered();
    let rows: Vec<StoredFrame> =
        frames.into_iter().enumerate().map(|(i, frame)| stored(i, frame, &format!("{{\"n\":{i}}}"))).collect();
    let digest = transcript_digest(&rows.iter().map(|row| row.canonical.clone()).collect());
    (rows, digest, done)
}

#[test]
fn transcripts_are_digested_as_arrays() {
    let parts = vec!["{\"a\":1}".to_string(), "2".to_string()];
    assert_eq!(transcript_text(&parts), "[{\"a\":1},2]");
    assert_eq!(transcript_text(&Vec::new()), "[]");
    assert_eq!(
        transcript_digest(&Vec::new()),
        "sha256:4f53cda18c2baa0c0354bb5f9a3ecbe5ed12ab4d8e11ba873c2f11161202b945"
    );
    assert_eq!(transcript_digest(&parts), text_digest("[{\"a\":1},2]"));
}

#[test]
fn stored_frames_are_read_back_whole() {
    let (rows, digest, _) = stored_delivered();
    assert_eq!(read_frames(&rows, Fault::StoredStreamFrameCorrupt).unwrap().len(), 4);
    assert!(is_sealed_as(&rows, 4, &digest));
    assert!(!is_sealed_as(&rows, 3, &digest));
    assert!(!is_sealed_as(&rows, -4, &digest));
    assert!(!is_sealed_as(&rows, 4, "sha256:00"));
    for change in [
        (|row: &mut StoredFrame| row.seq = 9) as fn(&mut StoredFrame),
        |row| row.version = 2,
        |row| row.kind = "message".to_string(),
        |row| row.encoded = "{}".to_string(),
        |row| row.frame = None,
    ] {
        let (mut rows, _, _) = stored_delivered();
        change(&mut rows[1]);
        assert_eq!(
            read_frames(&rows, Fault::StoredStreamFrameCorrupt).err(),
            Some(Fault::StoredStreamFrameCorrupt)
        );
    }
}

fn terminal_row(digest: &str) -> TranscriptRow {
    TranscriptRow {
        state: TranscriptState::Terminal,
        frame_count: 4,
        digest: Some(digest.to_string()),
        terminal_seq: Some(4),
        interruption: None,
    }
}

#[test]
fn transcript_records_are_consistent() {
    assert!(is_consistent(&terminal_row("d")));
    assert!(!is_consistent(&TranscriptRow { terminal_seq: Some(3), ..terminal_row("d") }));
    assert!(!is_consistent(&TranscriptRow { state: TranscriptState::Open, ..terminal_row("d") }));
    assert!(!is_consistent(&TranscriptRow { interruption: Some("x".to_string()), ..terminal_row("d") }));
    assert!(!is_consistent(&TranscriptRow { state: TranscriptState::Unknown, terminal_seq: None, ..terminal_row("d") }));
}

#[test]
fn streams_are_replayed_from_a_cursor() {
    let (rows, digest, done) = stored_delivered();
    let batch = stream_frames_after_scoped(&Some(terminal_row(&digest)), &rows, 3, &Some(done.copy())).unwrap();
    assert_eq!(batch.frames.len(), 1);
    assert!(batch.closed);
    assert!(batch.interruption.is_none());
    let end = stream_frames_after_scoped(&Some(terminal_row(&digest)), &rows, 4, &Some(done.copy())).unwrap();
    assert!(end.frames.is_empty());
    assert_eq!(
        stream_frames_after_scoped(&Some(terminal_row(&digest)), &rows, 5, &Some(done.copy())).err(),
        Some(Fault::StreamReplayCursorCorrupt)
    );
    assert_eq!(
        stream_frames_after_scoped(&Some(terminal_row("sha256:00")), &rows, 0, &Some(done.copy())).err(),
        Some(Fault::StreamReplayCursorCorrupt)
    );
    assert_eq!(
        stream_frames_after_scoped(&Some(terminal_row(&digest)), &rows, 0, &None).err(),
        Some(Fault::CanonicalStreamResultCorrupt)
    );
    assert_eq!(
        stream_frames_after_scoped(&Some(terminal_row(&digest)), &rows, 0, &Some(task(TaskState::Failed))).err(),
        Some(Fault::PublicStreamTerminalCorrupt)
    );
    assert_eq!(
        stream_frames_after_scoped(&None, &rows, 0, &Some(done.copy())).err(),
        Some(Fault::StreamNotBound)
    );
    let unmarked = TranscriptRow { terminal_seq: None, ..terminal_row(&digest) };
    assert_eq!(
        stream_frames_after_scoped(&Some(unmarked), &rows, 0, &Some(done)).err(),
        Some(Fault::StreamTranscriptCorrupt)
    );
}

#[test]
fn interrupted_streams_say_why() {
    let (rows, digest, _) = stored_delivered();
    let row = TranscriptRow {
        state: TranscriptState::Interrupted,
        terminal_seq: None,
        interruption: Some("gone".to_string()),
        ..terminal_row(&digest)
    };
    let batch = stream_frames_after_scoped(&Some(row), &rows, 0, &None).unwrap();
    assert_eq!(batch.frames.len(), 4);
    assert!(batch.closed);
    assert_eq!(batch.interruption.as_deref(), Some("gone"));
}

fn open_transcript(rows: &Vec<StoredFrame>) -> OpenTranscript {
    OpenTranscript {
        frame_count: rows.len() as i64,
        digest: transcript_digest(&rows.iter().map(|row| row.canonical.clone()).collect()),
        task_id: "task-1".to_string(),
        context_id: "context-1".to_string(),
    }
}

#[test]
fn progress_is_reported_once() {
    assert_eq!(check_progress_frame(&update(TaskState::Working)), Ok(()));
    assert_eq!(check_progress_frame(&update(TaskState::Completed)), Err(Fault::InvalidProgressFrame));
    assert_eq!(check_progress_frame(&artifact_update("a")), Err(Fault::InvalidProgressFrame));
    let rows = vec![stored(0, Frame::Task(task(TaskState::Submitted)), "{}")];
    let open = open_transcript(&rows);
    match append_stream_progress(&open, &rows, &update(TaskState::Working), "{\"w\":1}").unwrap() {
        ProgressDecision::Append { seq, transcript_digest } => {
            assert_eq!(seq, 2);
            assert_eq!(transcript_digest, text_digest("[{},{\"w\":1}]"));
        }
        ProgressDecision::AlreadyReported(_) => panic!("nothing was reported yet"),
    }
    let reported = vec![
        stored(0, Frame::Task(task(TaskState::Submitted)), "{}"),
        stored(1, update(TaskState::Working), "{\"w\":1}"),
    ];
    match append_stream_progress(&open_transcript(&reported), &reported, &update(TaskState::Working), "{}").unwrap() {
        ProgressDecision::AlreadyReported(frame) => assert!(frame.same(&update(TaskState::Working))),
        ProgressDecision::Append { .. } => panic!("it was reported already"),
    }
}

#[test]
fn progress_belongs_to_its_transcript() {
    let rows = vec![stored(0, Frame::Task(task(TaskState::Submitted)), "{}")];
    let mut open = open_transcript(&rows);
    open.task_id = "task-2".to_string();
    assert_eq!(
        append_stream_progress(&open, &rows, &update(TaskState::Working), "{}").err(),
        Some(Fault::InvalidProgressFrame)
    );
    let mut open = open_transcript(&rows);
    open.digest = "sha256:00".to_string();
    assert_eq!(
        append_stream_progress(&open, &rows, &update(TaskState::Working), "{}").err(),
        Some(Fault::StoredStreamTranscriptCorrupt)
    );
}

#[test]
fn subscriptions_start_from_the_open_transcript() {
    let rows = vec![
        stored(0, Frame::Task(task(TaskState::Submitted)), "{}"),
        stored(1, update(TaskState::Working), "{\"w\":1}"),
    ];
    let open = open_transcript(&rows);
    let row = SubscriptionRow {
        task: Some(task(TaskState::Submitted)),
        revision: 3,
        message_id: Some("m".to_string()),
        frame_count: Some(2),
        digest: Some(open.digest.clone()),
    };
    let (shown, cursor) = subscription_snapshot_authorized(&row, &rows).unwrap();
    assert_eq!(shown.status.state, TaskState::Working);
    assert!(matches!(cursor, SubscriptionCursor::Transcript { message_id, cursor: 2 } if message_id == "m"));
    let partial = SubscriptionRow { digest: None, task: Some(task(TaskState::Submitted)), message_id: Some("m".to_string()), ..row };
    assert_eq!(subscription_snapshot_authorized(&partial, &rows).err(), Some(Fault::SubscriptionCursorCorrupt));
}

#[test]
fn subscriptions_start_from_a_revision() {
    let row = SubscriptionRow {
        task: Some(task(TaskState::Completed)),
        revision: 3,
        message_id: None,
        frame_count: None,
        digest: None,
    };
    let (shown, cursor) = subscription_snapshot_authorized(&row, &Vec::new()).unwrap();
    assert!(shown.same(&task(TaskState::Completed)));
    assert!(matches!(cursor, SubscriptionCursor::TaskRevision(3)));
    let negative = SubscriptionRow { revision: -1, task: Some(task(TaskState::Completed)), ..row };
    assert_eq!(subscription_snapshot_authorized(&negative, &Vec::new()).err(), Some(Fault::TaskRevisionCorrupt));
    let corrupt = SubscriptionRow { task: None, ..negative };
    assert_eq!(subscription_snapshot_authorized(&corrupt, &Vec::new()).err(), Some(Fault::StoredTaskCorrupt));
}

fn event(revision: i64, state: TaskState, artifacts: &[&str]) -> EventRow {
    let mut t = task(state);
    if !artifacts.is_empty() {
        t.artifacts = Some(artifacts.iter().map(|id| artifact(id)).collect());
    }
    EventRow { task: Some(t), revision }
}

#[test]
fn events_tell_what_changed() {
    let rows = vec![event(2, TaskState::Working, &["a"]), event(3, TaskState::Completed, &["a", "b"])];
    let batch = task_events_after_scoped(&Some(event(1, TaskState::Submitted, &[])), &rows, 1).unwrap();
    let kinds: Vec<&str> = batch.frames.iter().map(frame_kind).collect();
    assert_eq!(kinds, vec!["artifact_update", "status_update", "artifact_update", "status_update"]);
    assert!(batch.closed);
    assert_eq!(batch.last_revision, 3);
}

#[test]
fn event_batches_concatenate() {
    let baseline = || Some(event(1, TaskState::Submitted, &[]));
    let first = || event(2, TaskState::Working, &["a"]);
    let second = || event(3, TaskState::Completed, &["a", "b"]);
    let whole = task_events_after_scoped(&baseline(), &vec![first(), second()], 1).unwrap();
    let head = task_events_after_scoped(&baseline(), &vec![first()], 1).unwrap();
    let tail = task_events_after_scoped(&Some(first()), &vec![second()], 2).unwrap();
    let joined: Vec<&Frame> = head.frames.iter().chain(tail.frames.iter()).collect();
    assert_eq!(joined.len(), whole.frames.len());
    for (a, b) in joined.iter().zip(whole.frames.iter()) {
        assert!(a.same(b));
    }
}

#[test]
fn corrupt_events_are_refused() {
    let corrupt = EventRow { task: None, revision: 2 };
    assert_eq!(
        task_events_after_scoped(&Some(corrupt), &Vec::new(), 1).err(),
        Some(Fault::SubscriptionBaselineCorrupt)
    );
    let rows = vec![EventRow { task: None, revision: 2 }];
    assert_eq!(task_events_after_scoped(&None, &rows, 1).err(), Some(Fault::StoredEventCorrupt));
    let empty = task_events_after_scoped(&None, &Vec::new(), 7).unwrap();
    assert!(!empty.closed);
    assert_eq!(empty.last_revision, 7);
    assert!(status_update_frame(&task(TaskState::Working)).same(&update(TaskState::Working)));
}
