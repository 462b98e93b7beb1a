//! Stored stream transcripts: reading them back whole, appending progress, and
//! what a subscriber is shown.

use vstd::prelude::*;

use crate::crypto;
use crate::fault::Fault;
use crate::task;
use crate::task::{ArtifactUpdate, Frame, StatusUpdate, Task, TaskState};
use crate::text;

verus! {

/// The longest stored transcript.
pub const MAX_TRANSCRIPT_FRAMES: usize = 1024;

/// A stored frame. The frame itself is absent where its text is corrupt;
/// `canonical` is the text that it encodes to.
pub struct StoredFrame {
    pub seq: i64,
    pub version: i64,
    pub kind: String,
    pub encoded: String,
    pub digest: String,
    pub frame: Option<Frame>,
    pub canonical: String,
}

/// Whether a stored frame is intact and stands at a position, counted from zero.
pub open spec fn stored_frame_intact(row: StoredFrame, position: int) -> bool {
    &&& row.frame is Some
    &&& row.seq == position + 1
    &&& row.version == 1
    &&& row.kind@ == task::frame_kind_text(row.frame->0@)
    &&& row.digest@ == crypto::content_digest_of(text::utf8(row.encoded@))
}

/// Whether every stored frame is intact and in order.
pub open spec fn stored_frames_intact(rows: Seq<StoredFrame>) -> bool {
    forall|i: int| 0 <= i < rows.len() ==> stored_frame_intact(#[trigger] rows[i], i)
}

/// The frames of a stored transcript.
pub open spec fn stored_views(rows: Seq<StoredFrame>) -> Seq<task::FrameView> {
    Seq::new(rows.len(), |i: int| rows[i].frame->0@)
}

/// Texts joined by commas.
pub open spec fn comma_joined(parts: Seq<Seq<char>>) -> Seq<char>
    decreases parts.len(),
{
    if parts.len() == 0 {
        Seq::empty()
    } else if parts.len() == 1 {
        parts[0]
    } else {
        comma_joined(parts.drop_last()) + ","@ + parts.last()
    }
}

/// The canonical texts of stored frames.
pub open spec fn canonical_texts(rows: Seq<StoredFrame>) -> Seq<Seq<char>> {
    Seq::new(rows.len(), |i: int| rows[i].canonical@)
}

/// The encoded text of a transcript, from that of each of its frames: the array
/// that holds them.
pub open spec fn transcript_text_of(parts: Seq<Seq<char>>) -> Seq<char> {
    "["@ + comma_joined(parts) + "]"@
}

/// The digest of a transcript, from the encoded text of each of its frames.
pub open spec fn transcript_digest_of(parts: Seq<Seq<char>>) -> Seq<char> {
    crypto::content_digest_of(text::utf8(transcript_text_of(parts)))
}

/// Computes the digest of a transcript from the encoded text of each frame.
pub fn transcript_digest(parts: &Vec<String>) -> (r: String)
    ensures
        r@ == transcript_digest_of(text::texts(parts@)),
{
    let whole = transcript_text(parts);
    crypto::text_digest(whole.as_str())
}

/// Joins the encoded text of each frame to that of the transcript.
pub fn transcript_text(parts: &Vec<String>) -> (r: String)
    ensures
        r@ == transcript_text_of(text::texts(parts@)),
{
    let mut out = "[".to_owned();
    let mut i: usize = 0;
    let ghost all = text::texts(parts@);
    assert(all.subrange(0, 0) =~= Seq::<Seq<char>>::empty());
    assert("["@ + comma_joined(all.subrange(0, 0)) =~= "["@);
    while i < parts.len()
        invariant
            i <= parts@.len(),
            all == text::texts(parts@),
            out@ == "["@ + comma_joined(all.subrange(0, i as int)),
        decreases parts@.len() - i,
    {
        if i > 0 {
            out.append(",");
        }
        out.append(parts[i].as_str());
        proof {
            let step = all.subrange(0, i + 1);
            assert(step.drop_last() =~= all.subrange(0, i as int));
            assert(step.last() == parts@[i as int]@);
            if i == 0 {
                assert(step[0] == parts@[0]@);
                assert(out@ =~= "["@ + comma_joined(step));
            } else {
                assert(out@ =~= "["@ + comma_joined(step));
            }
        }
        i += 1;
    }
    assert(all.subrange(0, i as int) =~= all);
    out.append("]");
    out
}

fn canonical_of(rows: &Vec<StoredFrame>) -> (r: Vec<String>)
    ensures
        text::texts(r@) == canonical_texts(rows@),
{
    let mut out: Vec<String> = Vec::new();
    let mut i: usize = 0;
    while i < rows.len()
        invariant
            i <= rows@.len(),
            out@.len() == i,
            forall|j: int| 0 <= j < i ==> (#[trigger] out@[j])@ == rows@[j].canonical@,
        decreases rows@.len() - i,
    {
        out.push(rows[i].canonical.clone());
        i += 1;
    }
    assert(text::texts(out@) =~= canonical_texts(rows@));
    out
}

/// Reads a stored transcript back, or refuses it whole.
pub fn read_frames(rows: &Vec<StoredFrame>, corrupt: Fault) -> (r: Result<Vec<Frame>, Fault>)
    ensures
        match r {
            Ok(frames) => stored_frames_intact(rows@) && task::frame_views(frames@) == stored_views(rows@),
            Err(e) => e == corrupt && !stored_frames_intact(rows@),
        },
{
    let mut out: Vec<Frame> = Vec::new();
    let mut i: usize = 0;
    while i < rows.len()
        invariant
            i <= rows@.len(),
            out@.len() == i,
            forall|j: int| 0 <= j < i ==> stored_frame_intact(#[trigger] rows@[j], j),
            forall|j: int| 0 <= j < i ==> (#[trigger] out@[j])@ == rows@[j].frame->0@,
        decreases rows@.len() - i,
    {
        let row = &rows[i];
        let frame = match &row.frame {
            Some(frame) => frame,
            None => {
                assert(!stored_frame_intact(rows@[i as int], i as int));
                return Err(corrupt);
            },
        };
        let digest = crypto::text_digest(row.encoded.as_str());
        let seq_matches = row.seq > 0 && (row.seq as u128) == (i as u128) + 1;
        if !seq_matches || row.version != 1 || !text::same_text(row.kind.as_str(), task::frame_kind(frame))
            || row.digest != digest {
            assert(!stored_frame_intact(rows@[i as int], i as int));
            return Err(corrupt);
        }
        out.push(frame.copy());
        i += 1;
    }
    assert(task::frame_views(out@) =~= stored_views(rows@));
    Ok(out)
}

/// Whether a stored transcript has the count and digest that are on record for it.
pub open spec fn transcript_sealed(rows: Seq<StoredFrame>, count: i64, digest: Seq<char>) -> bool {
    rows.len() == count && transcript_digest_of(canonical_texts(rows)) == digest
}

/// Whether a stored transcript has the count and digest that are on record for it.
pub fn is_sealed_as(rows: &Vec<StoredFrame>, count: i64, digest: &str) -> (r: bool)
    ensures
        r == transcript_sealed(rows@, count, digest@),
{
    if count < 0 || rows.len() as u128 != count as u128 {
        return false;
    }
    let parts = canonical_of(rows);
    let actual = transcript_digest(&parts);
    text::same_text(actual.as_str(), digest)
}

/// A transcript's stored state.
#[derive(Clone, Copy, Debug, PartialEq, Eq, Structural)]
pub enum TranscriptState {
    Open,
    Terminal,
    Interrupted,
    Unknown,
}

/// What is on record of a transcript beside its frames.
pub struct TranscriptRow {
    pub state: TranscriptState,
    pub frame_count: i64,
    pub digest: Option<String>,
    pub terminal_seq: Option<i64>,
    pub interruption: Option<String>,
}

/// Whether a transcript's record is consistent: terminal exactly where the last
/// frame is marked, interrupted exactly where a reason is given.
pub open spec fn transcript_row_consistent(row: TranscriptRow) -> bool {
    &&& row.state != TranscriptState::Unknown
    &&& (row.state == TranscriptState::Terminal) == (row.terminal_seq == Some(row.frame_count))
    &&& (row.state == TranscriptState::Interrupted) == (row.interruption is Some)
}

/// Whether a transcript's record is consistent.
pub fn is_consistent(row: &TranscriptRow) -> (r: bool)
    ensures
        r == transcript_row_consistent(*row),
{
    let marked = match row.terminal_seq {
        Some(seq) => seq == row.frame_count,
        None => false,
    };
    row.state != TranscriptState::Unknown && (row.state == TranscriptState::Terminal) == marked && (row.state
        == TranscriptState::Interrupted) == row.interruption.is_some()
}

/// The frames after a cursor, and whether the stream is closed.
pub struct StreamTranscriptBatch {
    pub frames: Vec<Frame>,
    pub closed: bool,
    pub interruption: Option<String>,
}

/// Why a transcript cannot be replayed from a cursor. `final_task` is the task
/// that the request was answered with, where it is on record.
pub open spec fn replay_fault(
    row: TranscriptRow,
    rows: Seq<StoredFrame>,
    last: usize,
    final_task: Option<Task>,
) -> Option<Fault> {
    if row.frame_count < 0 || row.frame_count > MAX_TRANSCRIPT_FRAMES || row.digest is None
        || !transcript_row_consistent(row) {
        Some(Fault::StreamTranscriptCorrupt)
    } else if !stored_frames_intact(rows) {
        Some(Fault::StoredStreamFrameCorrupt)
    } else if !transcript_sealed(rows, row.frame_count, row.digest->0@) || last > rows.len() {
        Some(Fault::StreamReplayCursorCorrupt)
    } else if row.state == TranscriptState::Terminal && final_task is None {
        Some(Fault::CanonicalStreamResultCorrupt)
    } else if row.state == TranscriptState::Terminal && !task::complete_transcript(
        stored_views(rows),
        final_task->0@,
    ) {
        Some(Fault::PublicStreamTerminalCorrupt)
    } else {
        None
    }
}

fn frames_from(frames: &Vec<Frame>, from: usize) -> (r: Vec<Frame>)
    requires
        from <= frames@.len(),
    ensures
        task::frame_views(r@) == task::frame_views(frames@).subrange(from as int, frames@.len() as int),
{
    let mut out: Vec<Frame> = Vec::new();
    let mut i: usize = from;
    while i < frames.len()
        invariant
            from <= i <= frames@.len(),
            out@.len() == i - from,
            forall|j: int| 0 <= j < i - from ==> (#[trigger] out@[j])@ == frames@[j + from]@,
        decreases frames@.len() - i,
    {
        out.push(frames[i].copy());
        i += 1;
    }
    assert(task::frame_views(out@) =~= task::frame_views(frames@).subrange(from as int, frames@.len() as int));
    out
}

/// The frames of a stream after a cursor. The whole transcript is read back and
/// checked first, and a terminal one must add up to the task that was delivered.
/// Only a streaming request has a transcript.
pub fn stream_frames_after_scoped(
    row: &Option<TranscriptRow>,
    rows: &Vec<StoredFrame>,
    last: usize,
    final_task: &Option<Task>,
) -> (r: Result<StreamTranscriptBatch, Fault>)
    ensures
        row is None ==> (r matches Err(e) && e == Fault::StreamNotBound),
        row matches Some(row) ==> match r {
            Err(e) => replay_fault(*row, rows@, last, *final_task) == Some(e),
            Ok(batch) => {
                &&& replay_fault(*row, rows@, last, *final_task) is None
                &&& task::frame_views(batch.frames@) == stored_views(rows@).subrange(
                    last as int,
                    rows@.len() as int,
                )
                &&& batch.closed == (row.state != TranscriptState::Open)
                &&& text::opt_text(batch.interruption) == text::opt_text(row.interruption)
            },
        },
        r matches Ok(batch) ==> batch.frames@.len() + last == rows@.len(),
        r is Ok && row is Some ==> (r->Ok_0.closed <==> row->0.state == TranscriptState::Terminal || row->0.state
            == TranscriptState::Interrupted),
{
    let row = match row {
        Some(row) => row,
        None => {
            return Err(Fault::StreamNotBound);
        },
    };
    let digest = match &row.digest {
        Some(digest) => digest,
        None => {
            return Err(Fault::StreamTranscriptCorrupt);
        },
    };
    if row.frame_count < 0 || row.frame_count > 1024 || !is_consistent(row) {
        return Err(Fault::StreamTranscriptCorrupt);
    }
    let all = match read_frames(rows, Fault::StoredStreamFrameCorrupt) {
        Ok(frames) => frames,
        Err(e) => {
            return Err(e);
        },
    };
    proof {
        assert(task::frame_views(all@).len() == all@.len());
        assert(stored_views(rows@).len() == rows@.len());
    }
    if !is_sealed_as(rows, row.frame_count, digest.as_str()) || last > all.len() {
        return Err(Fault::StreamReplayCursorCorrupt);
    }
    if row.state == TranscriptState::Terminal {
        match final_task {
            None => {
                return Err(Fault::CanonicalStreamResultCorrupt);
            },
            Some(t) => {
                if task::validate_terminal_public_transcript(&all, t).is_err() {
                    return Err(Fault::PublicStreamTerminalCorrupt);
                }
            },
        }
    }
    let frames = frames_from(&all, last);
    assert(task::frame_views(frames@).len() == frames@.len());
    Ok(
        StreamTranscriptBatch {
            frames,
            closed: row.state != TranscriptState::Open,
            interruption: text::copy_opt_text(&row.interruption),
        },
    )
}

/// A progress frame: a working status update with usable names.
pub open spec fn is_progress_frame(frame: task::FrameView) -> bool {
    frame matches task::FrameView::StatusUpdate(u) && u.status.state == TaskState::Working && 1 <= text::utf8(
        u.task_id,
    ).len() <= 4096 && 1 <= text::utf8(u.context_id).len() <= 4096
}

/// A status update that reports work in progress.
pub open spec fn reports_working(frame: task::FrameView) -> bool {
    frame matches task::FrameView::StatusUpdate(u) && u.status.state == TaskState::Working
}

/// Whether a frame can be appended as progress at all.
pub fn check_progress_frame(frame: &Frame) -> (r: Result<(), Fault>)
    ensures
        r == (if is_progress_frame(frame@) {
            Ok::<(), Fault>(())
        } else {
            Err(Fault::InvalidProgressFrame)
        }),
{
    match frame {
        Frame::StatusUpdate(u) => {
            let t: usize = text::byte_len(u.task_id.as_str());
            let c: usize = text::byte_len(u.context_id.as_str());
            if u.status.state != TaskState::Working || t == 0 || t > 4096 || c == 0 || c > 4096 {
                Err(Fault::InvalidProgressFrame)
            } else {
                Ok(())
            }
        },
        _ => Err(Fault::InvalidProgressFrame),
    }
}

/// What appending progress does.
pub enum ProgressDecision {
    /// Work was already reported, by this frame.
    AlreadyReported(Frame),
    /// The frame is appended at this sequence number, and the transcript's digest
    /// becomes this one.
    Append { seq: i64, transcript_digest: String },
}

/// The open transcript that progress is appended to, with its task's names.
pub struct OpenTranscript {
    pub frame_count: i64,
    pub digest: String,
    pub task_id: String,
    pub context_id: String,
}

/// The first frame that reports work in progress.
pub open spec fn first_working(frames: Seq<task::FrameView>, i: int) -> bool {
    0 <= i < frames.len() && reports_working(frames[i]) && forall|j: int|
        0 <= j < i ==> !reports_working(#[trigger] frames[j])
}

/// Why progress cannot be appended.
pub open spec fn progress_fault(open: OpenTranscript, rows: Seq<StoredFrame>, frame: task::FrameView) -> Option<
    Fault,
> {
    if frame->StatusUpdate_0.task_id != open.task_id@ || frame->StatusUpdate_0.context_id != open.context_id@ {
        Some(Fault::InvalidProgressFrame)
    } else if !stored_frames_intact(rows) {
        Some(Fault::StoredStreamFrameCorrupt)
    } else if !transcript_sealed(rows, open.frame_count, open.digest@) {
        Some(Fault::StoredStreamTranscriptCorrupt)
    } else {
        None
    }
}

/// Appends the first progress of a stream; later ones are answered with it.
/// `encoded` is the text that the frame encodes to.
pub fn append_stream_progress(open: &OpenTranscript, rows: &Vec<StoredFrame>, frame: &Frame, encoded: &str) -> (r: Result<
    ProgressDecision,
    Fault,
>)
    requires
        is_progress_frame(frame@),
        rows@.len() < i64::MAX,
    ensures
        match r {
            Err(e) => progress_fault(*open, rows@, frame@) == Some(e),
            Ok(ProgressDecision::AlreadyReported(existing)) => {
                &&& progress_fault(*open, rows@, frame@) is None
                &&& exists|i: int| #[trigger]
                    first_working(stored_views(rows@), i) && existing@ == stored_views(rows@)[i]
            },
            Ok(ProgressDecision::Append { seq, transcript_digest }) => {
                &&& progress_fault(*open, rows@, frame@) is None
                &&& forall|i: int|
                    0 <= i < rows@.len() ==> !reports_working(#[trigger] stored_views(rows@)[i])
                &&& seq == rows@.len() + 1
                &&& transcript_digest@ == transcript_digest_of(canonical_texts(rows@).push(encoded@))
            },
        },
        r matches Ok(ProgressDecision::Append { seq, transcript_digest }) ==> seq > rows@.len(),
{
    match frame {
        Frame::StatusUpdate(u) => {
            if u.task_id != open.task_id || u.context_id != open.context_id {
                return Err(Fault::InvalidProgressFrame);
            }
        },
        _ => {
            return Err(Fault::InvalidProgressFrame);
        },
    }
    let all = match read_frames(rows, Fault::StoredStreamFrameCorrupt) {
        Ok(frames) => frames,
        Err(e) => {
            return Err(e);
        },
    };
    if !is_sealed_as(rows, open.frame_count, open.digest.as_str()) {
        return Err(Fault::StoredStreamTranscriptCorrupt);
    }
    let ghost views = stored_views(rows@);
    proof {
        assert(task::frame_views(all@).len() == all@.len());
        assert(views.len() == rows@.len());
    }
    let mut i: usize = 0;
    while i < all.len()
        invariant
            i <= all@.len() == rows@.len(),
            views == stored_views(rows@),
            views == task::frame_views(all@),
            progress_fault(*open, rows@, frame@) is None,
            forall|j: int| 0 <= j < i ==> !reports_working(#[trigger] views[j]),
        decreases all@.len() - i,
    {
        assert(views[i as int] == all@[i as int]@);
        let working = match &all[i] {
            Frame::StatusUpdate(u) => u.status.state == TaskState::Working,
            _ => false,
        };
        if working {
            assert(first_working(views, i as int));
            return Ok(ProgressDecision::AlreadyReported(all[i].copy()));
        }
        i += 1;
    }
    let mut parts = canonical_of(rows);
    let ghost before = text::texts(parts@);
    assert(before.len() == parts@.len() && canonical_texts(rows@).len() == rows@.len());
    parts.push(encoded.to_owned());
    assert(text::texts(parts@) =~= before.push(encoded@));
    let seal = transcript_digest(&parts);
    Ok(ProgressDecision::Append { seq: open.frame_count + 1, transcript_digest: seal })
}

/// Where a subscription goes on from.
pub enum SubscriptionCursor {
    TaskRevision(u64),
    Transcript { message_id: String, cursor: usize },
}

/// What is on record for a subscription: the task, and the open transcript where
/// there is one. The task is absent where its text is corrupt.
pub struct SubscriptionRow {
    pub task: Option<Task>,
    pub revision: i64,
    pub message_id: Option<String>,
    pub frame_count: Option<i64>,
    pub digest: Option<String>,
}

/// Whether a transcript is open for the subscribed task.
pub open spec fn has_transcript(row: SubscriptionRow) -> bool {
    row.message_id is Some && row.frame_count is Some && row.digest is Some
}

/// Whether no transcript is open for the subscribed task.
pub open spec fn has_no_transcript(row: SubscriptionRow) -> bool {
    row.message_id is None && row.frame_count is None && row.digest is None
}

/// Why a subscription cannot start.
pub open spec fn subscription_fault(row: SubscriptionRow, rows: Seq<StoredFrame>) -> Option<Fault> {
    if row.task is None {
        Some(Fault::StoredTaskCorrupt)
    } else if has_transcript(row) {
        if !stored_frames_intact(rows) || !transcript_sealed(rows, row.frame_count->0, row.digest->0@) {
            Some(Fault::SubscriptionTranscriptCorrupt)
        } else {
            None
        }
    } else if has_no_transcript(row) {
        if row.revision < 0 {
            Some(Fault::TaskRevisionCorrupt)
        } else {
            None
        }
    } else {
        Some(Fault::SubscriptionCursorCorrupt)
    }
}

/// The frames of a transcript after its first.
pub open spec fn later_frames(rows: Seq<StoredFrame>) -> Seq<task::FrameView> {
    if rows.len() == 0 {
        Seq::empty()
    } else {
        stored_views(rows).drop_first()
    }
}

/// The task that a subscriber starts from, and the cursor that it goes on from.
pub fn subscription_snapshot_authorized(row: &SubscriptionRow, rows: &Vec<StoredFrame>) -> (r: Result<
    (Task, SubscriptionCursor),
    Fault,
>)
    ensures
        match r {
            Err(e) => subscription_fault(*row, rows@) == Some(e),
            Ok((shown, cursor)) => {
                &&& subscription_fault(*row, rows@) is None
                &&& if has_transcript(*row) {
                    &&& shown@ == task::after_frames(row.task->0@, later_frames(rows@))
                    &&& cursor matches SubscriptionCursor::Transcript { message_id, cursor: at } && message_id@
                        == row.message_id->0@ && at == row.frame_count->0
                } else {
                    &&& shown@ == row.task->0@
                    &&& cursor == SubscriptionCursor::TaskRevision(row.revision as u64)
                }
            },
        },
{
    let stored = match &row.task {
        Some(t) => t,
        None => {
            return Err(Fault::StoredTaskCorrupt);
        },
    };
    match (&row.message_id, &row.frame_count, &row.digest) {
        (Some(message_id), Some(count), Some(digest)) => {
            let frames = match read_frames(rows, Fault::SubscriptionTranscriptCorrupt) {
                Ok(frames) => frames,
                Err(e) => {
                    return Err(e);
                },
            };
            if !is_sealed_as(rows, *count, digest.as_str()) {
                return Err(Fault::SubscriptionTranscriptCorrupt);
            }
            proof {
                assert(task::frame_views(frames@).len() == frames@.len());
                assert(stored_views(rows@).len() == rows@.len());
            }
            let shown = task::project_subscription(stored.copy(), &frames);
            Ok(
                (
                    shown,
                    SubscriptionCursor::Transcript { message_id: message_id.clone(), cursor: rows.len() },
                ),
            )
        },
        (None, None, None) => {
            if row.revision < 0 {
                return Err(Fault::TaskRevisionCorrupt);
            }
            Ok((stored.copy(), SubscriptionCursor::TaskRevision(row.revision as u64)))
        },
        _ => Err(Fault::SubscriptionCursorCorrupt),
    }
}

/// Whether a list of artifacts holds one with an id.
pub open spec fn holds_artifact(items: Seq<task::ArtifactView>, id: Seq<char>) -> bool {
    exists|i: int| 0 <= i < items.len() && (#[trigger] items[i]).artifact_id == id
}

/// The value of an optional task.
pub open spec fn task_view(t: Option<Task>) -> Option<task::TaskView> {
    match t {
        Some(v) => Some(v@),
        None => None,
    }
}

/// The artifacts of a task, none where it has no list.
pub open spec fn artifacts_of(t: Option<task::TaskView>) -> Seq<task::ArtifactView> {
    match t {
        Some(v) => match v.artifacts {
            Some(items) => items,
            None => Seq::empty(),
        },
        None => Seq::empty(),
    }
}

/// The frame that reports a new artifact of a task.
pub open spec fn artifact_frame(t: task::TaskView, artifact: task::ArtifactView) -> task::FrameView {
    task::FrameView::ArtifactUpdate(
        task::ArtifactUpdateView {
            task_id: t.id,
            context_id: t.context_id,
            artifact,
            append: Some(false),
            last_chunk: Some(true),
            metadata: None,
        },
    )
}

/// The frame that reports the status of a task.
pub open spec fn status_frame(t: task::TaskView) -> task::FrameView {
    task::FrameView::StatusUpdate(
        task::StatusUpdateView { task_id: t.id, context_id: t.context_id, status: t.status, metadata: None },
    )
}

/// The frames for those of a task's artifacts that the task before did not have.
pub open spec fn new_artifact_frames(
    before: Seq<task::ArtifactView>,
    t: task::TaskView,
    items: Seq<task::ArtifactView>,
) -> Seq<task::FrameView>
    decreases items.len(),
{
    if items.len() == 0 {
        Seq::empty()
    } else {
        let earlier = new_artifact_frames(before, t, items.drop_last());
        if holds_artifact(before, items.last().artifact_id) {
            earlier
        } else {
            earlier.push(artifact_frame(t, items.last()))
        }
    }
}

/// The frames that lead from one recorded task to the next: its new artifacts,
/// then its status where it changed.
pub open spec fn event_frames(before: Option<task::TaskView>, t: task::TaskView) -> Seq<task::FrameView> {
    let artifacts = new_artifact_frames(artifacts_of(before), t, artifacts_of(Some(t)));
    if before is None || before->0.status != t.status {
        artifacts.push(status_frame(t))
    } else {
        artifacts
    }
}

/// The task before the last of a run.
pub open spec fn task_before(baseline: Option<task::TaskView>, tasks: Seq<task::TaskView>) -> Option<
    task::TaskView,
> {
    if tasks.len() <= 1 {
        baseline
    } else {
        Some(tasks[tasks.len() - 2])
    }
}

/// The frames that lead through a run of recorded tasks.
pub open spec fn events_frames(baseline: Option<task::TaskView>, tasks: Seq<task::TaskView>) -> Seq<
    task::FrameView,
>
    decreases tasks.len(),
{
    if tasks.len() == 0 {
        Seq::empty()
    } else {
        events_frames(baseline, tasks.drop_last()) + event_frames(task_before(baseline, tasks), tasks.last())
    }
}

/// A recorded event: the task after it, absent where its text is corrupt.
pub struct EventRow {
    pub task: Option<Task>,
    pub revision: i64,
}

/// The tasks of recorded events.
pub open spec fn event_tasks(rows: Seq<EventRow>) -> Seq<task::TaskView> {
    Seq::new(rows.len(), |i: int| rows[i].task->0@)
}

/// The frames after a revision.
pub struct TaskEventBatch {
    pub frames: Vec<Frame>,
    pub closed: bool,
    pub last_revision: u64,
}

fn contains_artifact(items: &Vec<task::Artifact>, id: &str) -> (r: bool)
    ensures
        r == holds_artifact(task::artifact_views(items@), id@),
{
    let ghost views = task::artifact_views(items@);
    let mut i: usize = 0;
    while i < items.len()
        invariant
            i <= items@.len(),
            views == task::artifact_views(items@),
            forall|j: int| 0 <= j < i ==> (#[trigger] views[j]).artifact_id != id@,
        decreases items@.len() - i,
    {
        assert(views[i as int] == items@[i as int]@);
        if text::same_text(items[i].artifact_id.as_str(), id) {
            return true;
        }
        i += 1;
    }
    false
}

fn push_artifact_frames(out: &mut Vec<Frame>, before: &Option<Task>, t: &Task)
    ensures
        task::frame_views(final(out)@) == task::frame_views(old(out)@) + new_artifact_frames(
            artifacts_of(task_view(*before)),
            t@,
            artifacts_of(Some(t@)),
        ),
{
    let ghost prior = artifacts_of(task_view(*before));
    let ghost start = task::frame_views(out@);
    let items = match &t.artifacts {
        Some(items) => items,
        None => {
            assert(start + new_artifact_frames(prior, t@, Seq::empty()) =~= start);
            return;
        },
    };
    let ghost all = task::artifact_views(items@);
    let mut i: usize = 0;
    assert(all.subrange(0, 0) =~= Seq::<task::ArtifactView>::empty());
    assert(start + new_artifact_frames(prior, t@, all.subrange(0, 0)) =~= start);
    while i < items.len()
        invariant
            i <= items@.len(),
            all == task::artifact_views(items@),
            prior == artifacts_of(task_view(*before)),
            task::frame_views(out@) == start + new_artifact_frames(prior, t@, all.subrange(0, i as int)),
        decreases items@.len() - i,
    {
        let artifact = &items[i];
        let known = match before {
            Some(b) => match &b.artifacts {
                Some(list) => contains_artifact(list, artifact.artifact_id.as_str()),
                None => false,
            },
            None => false,
        };
        let ghost views = task::frame_views(out@);
        proof {
            let step = all.subrange(0, i + 1);
            assert(step.drop_last() =~= all.subrange(0, i as int));
            assert(step.last() == artifact@);
            assert(known == holds_artifact(prior, artifact@.artifact_id));
        }
        if !known {
            out.push(
                Frame::ArtifactUpdate(
                    ArtifactUpdate {
                        task_id: t.id.clone(),
                        context_id: t.context_id.clone(),
                        artifact: artifact.copy(),
                        append: Some(false),
                        last_chunk: Some(true),
                        metadata: None,
                    },
                ),
            );
            assert(task::frame_views(out@) =~= views.push(artifact_frame(t@, artifact@)));
            assert(task::frame_views(out@) =~= start + new_artifact_frames(prior, t@, all.subrange(0, i + 1)));
        }
        i += 1;
    }
    assert(all.subrange(0, i as int) =~= all);
}

/// The frame that reports the status of a task.
pub fn status_update_frame(t: &Task) -> (r: Frame)
    ensures
        r@ == status_frame(t@),
{
    Frame::StatusUpdate(
        StatusUpdate {
            task_id: t.id.clone(),
            context_id: t.context_id.clone(),
            status: t.status.copy(),
            metadata: None,
        },
    )
}

/// Why events cannot be read. `baseline` is the task at the cursor where there is
/// one, itself absent where its text is corrupt.
pub open spec fn events_fault(baseline: Option<EventRow>, rows: Seq<EventRow>) -> Option<Fault> {
    if baseline matches Some(b) && b.task is None {
        Some(Fault::SubscriptionBaselineCorrupt)
    } else if exists|i: int| 0 <= i < rows.len() && (#[trigger] rows[i]).task is None {
        Some(Fault::StoredEventCorrupt)
    } else {
        None
    }
}

/// The baseline's task.
pub open spec fn baseline_task(baseline: Option<EventRow>) -> Option<task::TaskView> {
    match baseline {
        Some(b) => Some(b.task->0@),
        None => None,
    }
}

/// The revision that a batch ends at.
pub open spec fn batch_revision(last: u64, rows: Seq<EventRow>) -> u64 {
    if rows.len() == 0 {
        if last <= i64::MAX { last } else { 0x7fff_ffff_ffff_ffff }
    } else if rows.last().revision < 0 {
        u64::MAX
    } else {
        rows.last().revision as u64
    }
}

/// The frames that lead a subscriber from a revision to the present.
pub fn task_events_after_scoped(baseline: &Option<EventRow>, rows: &Vec<EventRow>, last: u64) -> (r: Result<
    TaskEventBatch,
    Fault,
>)
    ensures
        match r {
            Err(e) => events_fault(*baseline, rows@) == Some(e),
            Ok(batch) => {
                &&& events_fault(*baseline, rows@) is None
                &&& task::frame_views(batch.frames@) == events_frames(baseline_task(*baseline), event_tasks(rows@))
                &&& batch.closed == (rows@.len() > 0 && task::terminal(rows@.last().task->0.status.state))
                &&& batch.last_revision == batch_revision(last, rows@)
            },
        },
        r matches Ok(batch) ==> (batch.closed ==> rows@.len() > 0),
        r is Ok && rows@.len() > 0 ==> {
            let state = rows@.last().task->0.status.state;
            r->Ok_0.closed <==> state is Completed || state is Failed || state is Canceled || state is Rejected
        },
{
    let mut previous: Option<Task> = match baseline {
        Some(b) => match &b.task {
            Some(t) => Some(t.copy()),
            None => {
                return Err(Fault::SubscriptionBaselineCorrupt);
            },
        },
        None => None,
    };
    let mut frames: Vec<Frame> = Vec::new();
    let mut closed = false;
    let mut i: usize = 0;
    let ghost tasks = event_tasks(rows@);
    proof {
        assert(tasks.subrange(0, 0) =~= Seq::<task::TaskView>::empty());
        assert(task::frame_views(frames@) =~= Seq::<task::FrameView>::empty());
    }
    while i < rows.len()
        invariant
            i <= rows@.len(),
            tasks == event_tasks(rows@),
            baseline matches Some(b) ==> b.task is Some,
            forall|j: int| 0 <= j < i ==> (#[trigger] rows@[j]).task is Some,
            task::frame_views(frames@) == events_frames(baseline_task(*baseline), tasks.subrange(0, i as int)),
            i == 0 ==> task_view(previous) == baseline_task(*baseline),
            i > 0 ==> previous is Some && previous->0@ == tasks[i - 1],
            closed == (i > 0 && task::terminal(rows@[i - 1].task->0.status.state)),
        decreases rows@.len() - i,
    {
        let t = match &rows[i].task {
            Some(t) => t,
            None => {
                return Err(Fault::StoredEventCorrupt);
            },
        };
        let ghost start = task::frame_views(frames@);
        push_artifact_frames(&mut frames, &previous, t);
        let changed = match &previous {
            Some(p) => !p.status.same(&t.status),
            None => true,
        };
        let ghost middle = task::frame_views(frames@);
        if changed {
            frames.push(status_update_frame(t));
            assert(task::frame_views(frames@) =~= middle.push(status_frame(t@)));
        }
        proof {
            let step = tasks.subrange(0, i + 1);
            assert(step.drop_last() =~= tasks.subrange(0, i as int));
            assert(step.last() == t@);
            let before = task_before(baseline_task(*baseline), step);
            assert(before == task_view(previous)) by {
                if i > 0 {
                    assert(step[step.len() - 2] == tasks[i - 1]);
                }
            }
            assert(task::frame_views(frames@) =~= start + event_frames(before, t@));
        }
        closed = t.status.state.is_terminal();
        previous = Some(t.copy());
        i += 1;
    }
    assert(tasks.subrange(0, i as int) =~= tasks);
    let last_revision: u64 = if rows.len() == 0 {
        if last <= 0x7fff_ffff_ffff_ffff {
            last
        } else {
            0x7fff_ffff_ffff_ffff
        }
    } else {
        let revision: i64 = rows[rows.len() - 1].revision;
        if revision < 0 {
            u64::MAX
        } else {
            revision as u64
        }
    };
    Ok(TaskEventBatch { frames, closed, last_revision })
}

/// Subscribers that catch up in two steps see the same frames as one that
/// catches up at once.
pub proof fn law_event_batches_concatenate(
    baseline: Option<task::TaskView>,
    first: Seq<task::TaskView>,
    second: Seq<task::TaskView>,
)
    requires
        first.len() > 0,
    ensures
        events_frames(baseline, first + second) == events_frames(baseline, first) + events_frames(
            Some(first.last()),
            second,
        ),
    decreases second.len(),
{
    let whole = first + second;
    if second.len() == 0 {
        assert(whole =~= first);
        assert(events_frames(baseline, first) + Seq::<task::FrameView>::empty() =~= events_frames(baseline, first));
    } else {
        law_event_batches_concatenate(baseline, first, second.drop_last());
        assert(whole.drop_last() =~= first + second.drop_last());
        assert(whole.last() == second.last());
        assert(task_before(baseline, whole) == task_before(Some(first.last()), second)) by {
            if second.len() == 1 {
                assert(whole[whole.len() - 2] == first.last());
            } else {
                assert(whole[whole.len() - 2] == second[second.len() - 2]);
            }
        }
        assert(events_frames(baseline, whole) =~= events_frames(baseline, first) + events_frames(
            Some(first.last()),
            second,
        ));
    }
}

/// Where each item is one that a task had before or has a new id, the frames for the new
/// ones carry the new items in their order, each once.
proof fn lemma_artifact_frames_carry(before: Seq<task::ArtifactView>, t: task::TaskView, items: Seq<task::ArtifactView>)
    ensures
        forall|k: int|
            0 <= k < new_artifact_frames(before, t, items).len() ==> {
                let frame = #[trigger] new_artifact_frames(before, t, items)[k];
                &&& frame is ArtifactUpdate
                &&& frame->ArtifactUpdate_0.task_id == t.id
                &&& frame->ArtifactUpdate_0.context_id == t.context_id
                &&& frame->ArtifactUpdate_0.append == Some(false)
                &&& frame->ArtifactUpdate_0.last_chunk == Some(true)
                &&& frame->ArtifactUpdate_0.metadata is None
                &&& items.contains(frame->ArtifactUpdate_0.artifact)
                &&& forall|i: int|
                    0 <= i < before.len() ==> (#[trigger] before[i]).artifact_id
                        != frame->ArtifactUpdate_0.artifact.artifact_id
            },
    decreases items.len(),
{
    if items.len() > 0 {
        let shorter = items.drop_last();
        lemma_artifact_frames_carry(before, t, shorter);
        let frames = new_artifact_frames(before, t, items);
        let earlier = new_artifact_frames(before, t, shorter);
        assert forall|k: int| 0 <= k < frames.len() implies {
            let frame = #[trigger] frames[k];
            &&& frame is ArtifactUpdate
            &&& frame->ArtifactUpdate_0.task_id == t.id
            &&& frame->ArtifactUpdate_0.context_id == t.context_id
            &&& frame->ArtifactUpdate_0.append == Some(false)
            &&& frame->ArtifactUpdate_0.last_chunk == Some(true)
            &&& frame->ArtifactUpdate_0.metadata is None
            &&& items.contains(frame->ArtifactUpdate_0.artifact)
            &&& forall|i: int|
                0 <= i < before.len() ==> (#[trigger] before[i]).artifact_id
                    != frame->ArtifactUpdate_0.artifact.artifact_id
        } by {
            if k < earlier.len() {
                assert(frames[k] == earlier[k]);
                let artifact = earlier[k]->ArtifactUpdate_0.artifact;
                assert(shorter.contains(artifact));
                let j = choose|j: int| 0 <= j < shorter.len() && shorter[j] == artifact;
                assert(items[j] == artifact);
            } else {
                assert(items[items.len() - 1] == items.last());
            }
        }
    }
}

/// The frames for the artifacts of a run that follows artifacts a task already had, all
/// with ids that it did not have, lead to the whole run.
proof fn lemma_artifact_frames_apply(
    before: Seq<task::ArtifactView>,
    t: task::TaskView,
    items: Seq<task::ArtifactView>,
    old_task: task::TaskView,
    kept: int,
)
    requires
        0 <= kept <= items.len(),
        kept == before.len(),
        before == items.subrange(0, kept),
        forall|i: int, j: int|
            0 <= i < kept <= j < items.len() ==> (#[trigger] items[i]).artifact_id != (#[trigger] items[j]).artifact_id,
        old_task.artifacts is Some ==> old_task.artifacts->0 == before,
        old_task.artifacts is None ==> kept == 0,
    ensures
        ({
            let after = task::after_frames(old_task, new_artifact_frames(before, t, items));
            &&& after.status == old_task.status
            &&& after.id == old_task.id
            &&& after.context_id == old_task.context_id
            &&& after.history == old_task.history
            &&& after.metadata == old_task.metadata
            &&& items.len() > kept ==> after.artifacts == Some(items)
            &&& items.len() == kept ==> after.artifacts == old_task.artifacts
            &&& new_artifact_frames(before, t, items).len() == items.len() - kept
        }),
    decreases items.len(),
{
    if items.len() > kept {
        let shorter = items.drop_last();
        assert(shorter.subrange(0, kept) =~= before);
        assert forall|i: int, j: int| 0 <= i < kept <= j < shorter.len() implies (#[trigger] shorter[i]).artifact_id
            != (#[trigger] shorter[j]).artifact_id by {
            assert(items[i].artifact_id != items[j].artifact_id);
        }
        lemma_artifact_frames_apply(before, t, shorter, old_task, kept);
        assert(!holds_artifact(before, items.last().artifact_id)) by {
            assert forall|i: int| 0 <= i < before.len() implies (#[trigger] before[i]).artifact_id
                != items.last().artifact_id by {
                assert(before[i] == items[i]);
                assert(items[i].artifact_id != items[items.len() - 1].artifact_id);
            }
        }
        let earlier = new_artifact_frames(before, t, shorter);
        let frames = new_artifact_frames(before, t, items);
        assert(frames.drop_last() =~= earlier);
        if shorter.len() > kept {
            assert(shorter.push(items.last()) =~= items);
        } else {
            assert(shorter =~= before);
            assert(shorter.push(items.last()) =~= items);
            if old_task.artifacts is None {
                assert(seq![items.last()] =~= items);
            }
        }
    } else {
        assert forall|j: int| 0 <= j < items.len() implies holds_artifact(
            before,
            (#[trigger] items[j]).artifact_id,
        ) by {
            assert(before[j] == items[j]);
        }
        lemma_known_artifacts_are_silent(before, t, items);
    }
}

/// Artifacts that a task already had bring no frame.
proof fn lemma_known_artifacts_are_silent(
    before: Seq<task::ArtifactView>,
    t: task::TaskView,
    items: Seq<task::ArtifactView>,
)
    requires
        forall|j: int| 0 <= j < items.len() ==> holds_artifact(before, (#[trigger] items[j]).artifact_id),
    ensures
        new_artifact_frames(before, t, items).len() == 0,
    decreases items.len(),
{
    if items.len() > 0 {
        let shorter = items.drop_last();
        assert forall|j: int| 0 <= j < shorter.len() implies holds_artifact(
            before,
            (#[trigger] shorter[j]).artifact_id,
        ) by {
            assert(shorter[j] == items[j]);
        }
        lemma_known_artifacts_are_silent(before, t, shorter);
        assert(items[items.len() - 1] == items.last());
    }
}

/// Every frame that leads a subscriber from one recorded task to the next speaks of that
/// task: it carries the task's id as its task id and the task's context id as its context
/// id, no metadata, and either a whole artifact of the task or its status.
pub proof fn law_event_frames_speak_of_their_task(before: Option<task::TaskView>, t: task::TaskView, k: int)
    requires
        0 <= k < event_frames(before, t).len(),
    ensures
        match event_frames(before, t)[k] {
            task::FrameView::ArtifactUpdate(u) => {
                &&& u.task_id == t.id
                &&& u.context_id == t.context_id
                &&& u.append == Some(false)
                &&& u.last_chunk == Some(true)
                &&& u.metadata is None
                &&& t.artifacts is Some
                &&& t.artifacts->0.contains(u.artifact)
                &&& before is Some && before->0.artifacts is Some ==> forall|i: int|
                    0 <= i < before->0.artifacts->0.len() ==> (#[trigger] before->0.artifacts->0[i]).artifact_id
                        != u.artifact.artifact_id
            },
            task::FrameView::StatusUpdate(u) => {
                &&& u.task_id == t.id
                &&& u.context_id == t.context_id
                &&& u.status == t.status
                &&& u.metadata is None
                &&& k == event_frames(before, t).len() - 1
                &&& before is None || before->0.status != t.status
            },
            _ => false,
        },
        task::follows_in_stream(event_frames(before, t)[k], t, k == event_frames(before, t).len() - 1),
{
    let prior = artifacts_of(before);
    let items = artifacts_of(Some(t));
    lemma_artifact_frames_carry(prior, t, items);
    let frames = new_artifact_frames(prior, t, items);
    if k < frames.len() {
        assert(event_frames(before, t)[k] == frames[k]);
    }
}

/// Every frame of a run of recorded tasks speaks of one of them.
pub proof fn law_all_event_frames_speak_of_their_tasks(
    baseline: Option<task::TaskView>,
    tasks: Seq<task::TaskView>,
    id: Seq<char>,
    context_id: Seq<char>,
    k: int,
)
    requires
        forall|i: int| 0 <= i < tasks.len() ==> (#[trigger] tasks[i]).id == id && tasks[i].context_id == context_id,
        0 <= k < events_frames(baseline, tasks).len(),
    ensures
        match events_frames(baseline, tasks)[k] {
            task::FrameView::ArtifactUpdate(u) => u.task_id == id && u.context_id == context_id,
            task::FrameView::StatusUpdate(u) => u.task_id == id && u.context_id == context_id,
            _ => false,
        },
    decreases tasks.len(),
{
    let shorter = tasks.drop_last();
    let earlier = events_frames(baseline, shorter);
    assert(tasks.last() == tasks[tasks.len() - 1]);
    if k < earlier.len() {
        assert forall|i: int| 0 <= i < shorter.len() implies (#[trigger] shorter[i]).id == id
            && shorter[i].context_id == context_id by {
            assert(shorter[i] == tasks[i]);
        }
        law_all_event_frames_speak_of_their_tasks(baseline, shorter, id, context_id, k);
    } else {
        let before = task_before(baseline, tasks);
        law_event_frames_speak_of_their_task(before, tasks.last(), k - earlier.len());
    }
}

/// Applied to the task before it, the frames of an event give the status of the task after
/// it, and change neither the ids, the history nor the metadata of the task.
pub proof fn law_event_frames_lead_to_the_next_status(before: task::TaskView, t: task::TaskView)
    ensures
        task::after_frames(before, event_frames(Some(before), t)).status == t.status,
        task::after_frames(before, event_frames(Some(before), t)).id == before.id,
        task::after_frames(before, event_frames(Some(before), t)).context_id == before.context_id,
        task::after_frames(before, event_frames(Some(before), t)).history == before.history,
        task::after_frames(before, event_frames(Some(before), t)).metadata == before.metadata,
{
    let prior = artifacts_of(Some(before));
    let items = artifacts_of(Some(t));
    let frames = new_artifact_frames(prior, t, items);
    let all = event_frames(Some(before), t);
    lemma_artifact_frames_carry(prior, t, items);
    lemma_artifact_frames_keep(before, frames);
    if before.status != t.status {
        assert(all.drop_last() =~= frames);
        assert(all.last() == status_frame(t));
    }
}

/// Applied to the task before it, the frames of an event give the artifacts of the task
/// after it, where those that the task had are kept in front and the new ones have ids of
/// their own: one frame for each new artifact, and one for a changed status.
pub proof fn law_event_frames_lead_to_the_next_artifacts(
    before: task::TaskView,
    t: task::TaskView,
    had: Seq<task::ArtifactView>,
    has: Seq<task::ArtifactView>,
)
    requires
        before.artifacts == Some(had) || before.artifacts is None && had.len() == 0,
        t.artifacts == Some(has),
        had.len() <= has.len(),
        had == has.subrange(0, had.len() as int),
        forall|i: int, j: int|
            0 <= i < had.len() <= j < has.len() ==> (#[trigger] has[i]).artifact_id != (#[trigger] has[j]).artifact_id,
    ensures
        has.len() > had.len() ==> task::after_frames(before, event_frames(Some(before), t)).artifacts == Some(has),
        has.len() == had.len() ==> task::after_frames(before, event_frames(Some(before), t)).artifacts
            == before.artifacts,
        before.status == t.status ==> event_frames(Some(before), t).len() == has.len() - had.len(),
        before.status != t.status ==> event_frames(Some(before), t).len() == has.len() - had.len() + 1,
{
    let prior = artifacts_of(Some(before));
    assert(prior =~= had);
    let frames = new_artifact_frames(prior, t, has);
    let all = event_frames(Some(before), t);
    lemma_artifact_frames_apply(prior, t, has, before, prior.len() as int);
    if before.status != t.status {
        assert(all.drop_last() =~= frames);
        assert(all.last() == status_frame(t));
    }
}

/// Frames that report artifacts change nothing but the artifacts.
proof fn lemma_artifact_frames_keep(t: task::TaskView, frames: Seq<task::FrameView>)
    requires
        forall|k: int| 0 <= k < frames.len() ==> (#[trigger] frames[k]) is ArtifactUpdate,
    ensures
        task::after_frames(t, frames).status == t.status,
        task::after_frames(t, frames).id == t.id,
        task::after_frames(t, frames).context_id == t.context_id,
        task::after_frames(t, frames).history == t.history,
        task::after_frames(t, frames).metadata == t.metadata,
    decreases frames.len(),
{
    if frames.len() > 0 {
        let shorter = frames.drop_last();
        assert forall|k: int| 0 <= k < shorter.len() implies (#[trigger] shorter[k]) is ArtifactUpdate by {
            assert(shorter[k] == frames[k]);
        }
        lemma_artifact_frames_keep(t, shorter);
        assert(frames[frames.len() - 1] is ArtifactUpdate);
    }
}

/// A new artifact is reported, in the order of the task's artifacts, and an artifact whose
/// id the task before had is not reported again.
pub proof fn law_new_artifacts_are_reported_once(before: Option<task::TaskView>, t: task::TaskView, j: int)
    requires
        t.artifacts is Some,
        0 <= j < t.artifacts->0.len(),
    ensures
        (before is None || before->0.artifacts is None || forall|i: int|
            0 <= i < before->0.artifacts->0.len() ==> (#[trigger] before->0.artifacts->0[i]).artifact_id
                != t.artifacts->0[j].artifact_id) ==> exists|k: int|
            0 <= k < event_frames(before, t).len() && (#[trigger] event_frames(before, t)[k]) is ArtifactUpdate
                && event_frames(before, t)[k]->ArtifactUpdate_0.artifact == t.artifacts->0[j],
{
    let prior = artifacts_of(before);
    let items = artifacts_of(Some(t));
    if before is None || before->0.artifacts is None || forall|i: int|
        0 <= i < before->0.artifacts->0.len() ==> (#[trigger] before->0.artifacts->0[i]).artifact_id
            != t.artifacts->0[j].artifact_id {
        assert forall|i: int| 0 <= i < prior.len() implies (#[trigger] prior[i]).artifact_id
            != items[j].artifact_id by {
            assert(prior[i] == before->0.artifacts->0[i]);
        }
        lemma_new_artifact_is_framed(prior, t, items, j);
        let frames = new_artifact_frames(prior, t, items);
        let k = choose|k: int|
            0 <= k < frames.len() && (#[trigger] frames[k]) is ArtifactUpdate && frames[k]->ArtifactUpdate_0.artifact
                == items[j];
        assert(event_frames(before, t)[k] == frames[k]);
    }
}

proof fn lemma_new_artifact_is_framed(
    before: Seq<task::ArtifactView>,
    t: task::TaskView,
    items: Seq<task::ArtifactView>,
    j: int,
)
    requires
        0 <= j < items.len(),
        forall|i: int| 0 <= i < before.len() ==> (#[trigger] before[i]).artifact_id != items[j].artifact_id,
    ensures
        exists|k: int|
            0 <= k < new_artifact_frames(before, t, items).len() && (#[trigger] new_artifact_frames(
                before,
                t,
                items,
            )[k]) is ArtifactUpdate && new_artifact_frames(before, t, items)[k]->ArtifactUpdate_0.artifact
                == items[j],
    decreases items.len(),
{
    let frames = new_artifact_frames(before, t, items);
    let earlier = new_artifact_frames(before, t, items.drop_last());
    if j < items.len() - 1 {
        lemma_new_artifact_is_framed(before, t, items.drop_last(), j);
        let k = choose|k: int|
            0 <= k < earlier.len() && (#[trigger] earlier[k]) is ArtifactUpdate && earlier[k]->ArtifactUpdate_0.artifact
                == items.drop_last()[j];
        assert(frames[k] == earlier[k]);
    } else {
        assert(!holds_artifact(before, items.last().artifact_id));
        assert(frames[frames.len() - 1] == artifact_frame(t, items.last()));
    }
}

/// A batch of events ends with the status of its last task: a subscriber that applies the
/// frames of the batch to the task at its cursor reaches that status.
pub proof fn law_event_batches_reach_the_last_status(baseline: task::TaskView, tasks: Seq<task::TaskView>)
    requires
        tasks.len() > 0,
    ensures
        task::after_frames(baseline, events_frames(Some(baseline), tasks)).status == tasks.last().status,
        task::after_frames(baseline, events_frames(Some(baseline), tasks)).id == baseline.id,
        task::after_frames(baseline, events_frames(Some(baseline), tasks)).history == baseline.history,
    decreases tasks.len(),
{
    let shorter = tasks.drop_last();
    let earlier = events_frames(Some(baseline), shorter);
    let before = task_before(Some(baseline), tasks)->0;
    let last = event_frames(Some(before), tasks.last());
    let middle = task::after_frames(baseline, earlier);
    lemma_after_frames_join(baseline, earlier, last);
    if shorter.len() > 0 {
        law_event_batches_reach_the_last_status(baseline, shorter);
        assert(shorter.last() == tasks[tasks.len() - 2]);
    } else {
        assert(earlier.len() == 0);
    }
    assert(middle.status == before.status);
    let prior = artifacts_of(Some(before));
    let items = artifacts_of(Some(tasks.last()));
    let frames = new_artifact_frames(prior, tasks.last(), items);
    lemma_artifact_frames_carry(prior, tasks.last(), items);
    lemma_artifact_frames_keep(middle, frames);
    if before.status != tasks.last().status {
        assert(last.drop_last() =~= frames);
        assert(last.last() == status_frame(tasks.last()));
    }
}

proof fn lemma_after_frames_join(t: task::TaskView, first: Seq<task::FrameView>, second: Seq<task::FrameView>)
    ensures
        task::after_frames(t, first + second) == task::after_frames(task::after_frames(t, first), second),
    decreases second.len(),
{
    if second.len() == 0 {
        assert(first + second =~= first);
    } else {
        lemma_after_frames_join(t, first, second.drop_last());
        assert((first + second).drop_last() =~= first + second.drop_last());
        assert((first + second).last() == second.last());
    }
}

/// A transcript's text is an array of its frames: it opens and closes with brackets, and the
/// texts of two runs stand in it with one comma between them.
pub proof fn law_transcripts_are_arrays_of_their_frames(first: Seq<Seq<char>>, second: Seq<Seq<char>>)
    requires
        first.len() > 0,
        second.len() > 0,
    ensures
        comma_joined(first + second) == comma_joined(first) + ","@ + comma_joined(second),
        comma_joined(seq![first[0]]) == first[0],
        transcript_text_of(Seq::empty()) == "[]"@,
        transcript_text_of(first) == "["@ + comma_joined(first) + "]"@,
    decreases second.len(),
{
    reveal_strlit("[");
    reveal_strlit("]");
    reveal_strlit("[]");
    assert(transcript_text_of(Seq::empty()) =~= "[]"@);
    let whole = first + second;
    assert(whole.drop_last() =~= first + second.drop_last());
    assert(whole.last() == second.last());
    if second.len() == 1 {
        assert(whole.drop_last() =~= first);
        assert(second[0] == second.last());
    } else {
        law_transcripts_are_arrays_of_their_frames(first, second.drop_last());
        assert(comma_joined(whole) =~= comma_joined(first) + ","@ + comma_joined(second));
    }
}

/// Stored frames are intact exactly where each can be read, stands at its own position in the
/// first version under its own kind, and matches its digest.
pub proof fn law_stored_frames_stand_in_order(rows: Seq<StoredFrame>)
    ensures
        stored_frames_intact(rows) <==> forall|i: int|
            0 <= i < rows.len() ==> (#[trigger] rows[i]).frame is Some && rows[i].seq == i + 1 && rows[i].version == 1
                && rows[i].kind@ == task::frame_kind_text(rows[i].frame->0@) && rows[i].digest@
                == crypto::content_digest_of(text::utf8(rows[i].encoded@)),
        stored_views(rows).len() == rows.len(),
        forall|i: int| 0 <= i < rows.len() ==> #[trigger] stored_views(rows)[i] == rows[i].frame->0@,
{
}

/// A transcript is sealed by the number of its frames and the digest of their texts in order.
pub proof fn law_seals_count_their_frames(rows: Seq<StoredFrame>, count: i64, digest: Seq<char>)
    ensures
        transcript_sealed(rows, count, digest) ==> count == rows.len() && digest == transcript_digest_of(
            Seq::new(rows.len(), |i: int| rows[i].canonical@),
        ),
        count == rows.len() && digest == transcript_digest_of(Seq::new(rows.len(), |i: int| rows[i].canonical@))
            ==> transcript_sealed(rows, count, digest),
{
    assert(canonical_texts(rows) =~= Seq::new(rows.len(), |i: int| rows[i].canonical@));
}

/// A transcript that is replayed is consistent and sealed, the cursor lies within it, and where
/// it is terminal it is the complete stream of the task that was delivered.
pub proof fn law_replayed_transcripts_are_whole(
    row: TranscriptRow,
    rows: Seq<StoredFrame>,
    last: usize,
    final_task: Option<Task>,
)
    ensures
        replay_fault(row, rows, last, final_task) is None ==> {
            &&& 0 <= row.frame_count <= 1024
            &&& row.frame_count == rows.len()
            &&& last <= rows.len()
            &&& row.digest is Some
            &&& row.state == TranscriptState::Open || row.state == TranscriptState::Terminal || row.state
                == TranscriptState::Interrupted
            &&& row.state == TranscriptState::Interrupted <==> row.interruption is Some
            &&& row.state == TranscriptState::Terminal <==> row.terminal_seq == Some(row.frame_count)
            &&& row.state == TranscriptState::Terminal ==> final_task is Some && task::complete_transcript(
                stored_views(rows),
                final_task->0@,
            )
            &&& stored_frames_intact(rows)
        },
        last > rows.len() ==> replay_fault(row, rows, last, final_task) is Some,
        row.state == TranscriptState::Open && row.interruption is None && row.terminal_seq is None && row.digest is Some
            && 0 <= row.frame_count <= 1024 && stored_frames_intact(rows) && transcript_sealed(
            rows,
            row.frame_count,
            row.digest->0@,
        ) && last <= rows.len() ==> replay_fault(row, rows, last, final_task) is None,
        row.frame_count > 1024 || row.frame_count < 0 || row.digest is None || row.state == TranscriptState::Unknown
            ==> replay_fault(row, rows, last, final_task) == Some(Fault::StreamTranscriptCorrupt),
        replay_fault(row, rows, last, final_task) == Some(Fault::PublicStreamTerminalCorrupt) || replay_fault(
            row,
            rows,
            last,
            final_task,
        ) == Some(Fault::CanonicalStreamResultCorrupt) ==> row.state == TranscriptState::Terminal,
{
}

/// A frame is progress exactly where it reports a working task under names of one to 4096
/// bytes.
pub proof fn law_progress_is_a_working_status(frame: task::FrameView)
    ensures
        is_progress_frame(frame) <==> frame is StatusUpdate && frame->StatusUpdate_0.status.state == TaskState::Working
            && 1 <= text::utf8(frame->StatusUpdate_0.task_id).len() <= 4096 && 1 <= text::utf8(
            frame->StatusUpdate_0.context_id,
        ).len() <= 4096,
        is_progress_frame(frame) ==> reports_working(frame),
        reports_working(frame) <==> frame is StatusUpdate && frame->StatusUpdate_0.status.state == TaskState::Working,
{
}

/// Progress is appended only to the transcript of its own task and context, and only while that
/// is intact and sealed.
pub proof fn law_progress_is_appended_to_its_own_task(
    open: OpenTranscript,
    rows: Seq<StoredFrame>,
    frame: task::FrameView,
)
    ensures
        progress_fault(open, rows, frame) is None <==> frame->StatusUpdate_0.task_id == open.task_id@
            && frame->StatusUpdate_0.context_id == open.context_id@ && stored_frames_intact(rows) && transcript_sealed(
            rows,
            open.frame_count,
            open.digest@,
        ),
        frame->StatusUpdate_0.task_id != open.task_id@ || frame->StatusUpdate_0.context_id != open.context_id@
            ==> progress_fault(open, rows, frame) == Some(Fault::InvalidProgressFrame),
        progress_fault(open, rows, frame) == Some(Fault::StoredStreamFrameCorrupt) ==> !stored_frames_intact(rows),
        progress_fault(open, rows, frame) == Some(Fault::StoredStreamTranscriptCorrupt) ==> stored_frames_intact(rows),
{
}

/// A subscription starts exactly where its task can be read and it has either a whole transcript
/// that is intact and sealed, or none and a revision that can be counted.
pub proof fn law_subscriptions_start_from_a_sound_record(row: SubscriptionRow, rows: Seq<StoredFrame>)
    ensures
        ({
            let all = row.message_id is Some && row.frame_count is Some && row.digest is Some;
            let none = row.message_id is None && row.frame_count is None && row.digest is None;
            let fault = subscription_fault(row, rows);
            &&& row.task is None ==> fault == Some(Fault::StoredTaskCorrupt)
            &&& row.task is Some && !all && !none ==> fault == Some(Fault::SubscriptionCursorCorrupt)
            &&& row.task is Some && none ==> (fault is None <==> row.revision >= 0)
            &&& row.task is Some && none && row.revision < 0 ==> fault == Some(Fault::TaskRevisionCorrupt)
            &&& row.task is Some && all ==> (fault is None <==> stored_frames_intact(rows) && transcript_sealed(
                rows,
                row.frame_count->0,
                row.digest->0@,
            ))
            &&& row.task is Some && all && fault is Some ==> fault == Some(Fault::SubscriptionTranscriptCorrupt)
        }),
        rows.len() > 0 ==> later_frames(rows).len() == rows.len() - 1,
        forall|i: int| 0 <= i < rows.len() - 1 ==> #[trigger] later_frames(rows)[i] == rows[i + 1].frame->0@,
{
}

/// A batch of events ends at the revision of its last event; without events a subscriber stays
/// where it was.
pub proof fn law_batches_end_at_their_last_revision(last: u64, rows: Seq<EventRow>)
    ensures
        rows.len() == 0 && last <= i64::MAX ==> batch_revision(last, rows) == last,
        rows.len() > 0 && rows[rows.len() - 1].revision >= 0 ==> batch_revision(last, rows)
            == rows[rows.len() - 1].revision,
{
}

/// Events cannot be read exactly where the task at the cursor or one of theirs cannot, the
/// cursor first.
pub proof fn law_unreadable_events_are_refused(baseline: Option<EventRow>, rows: Seq<EventRow>, i: int)
    requires
        0 <= i < rows.len(),
    ensures
        baseline is Some && baseline->0.task is None ==> events_fault(baseline, rows) == Some(
            Fault::SubscriptionBaselineCorrupt,
        ),
        (baseline is None || baseline->0.task is Some) && rows[i].task is None ==> events_fault(baseline, rows) == Some(
            Fault::StoredEventCorrupt,
        ),
        events_fault(baseline, rows) is None ==> rows[i].task is Some && (baseline is Some ==> baseline->0.task is Some),
        events_fault(baseline, rows) == Some(Fault::StoredEventCorrupt) ==> exists|k: int|
            0 <= k < rows.len() && (#[trigger] rows[k]).task is None,
{
}

/// A transcript that cannot be replayed is told apart by what is wrong with it: its row, a frame, its
/// seal or where the caller stands, its result, or its end.
pub proof fn law_bad_transcripts_are_told_apart(
    row: TranscriptRow,
    rows: Seq<StoredFrame>,
    last: usize,
    final_task: Option<Task>,
)
    requires
        0 <= row.frame_count <= 1024,
        row.digest is Some,
        transcript_row_consistent(row),
    ensures
        !stored_frames_intact(rows) ==> replay_fault(row, rows, last, final_task) == Some(
            Fault::StoredStreamFrameCorrupt,
        ),
        stored_frames_intact(rows) && (last > rows.len() || !transcript_sealed(rows, row.frame_count, row.digest->0@))
            ==> replay_fault(row, rows, last, final_task) == Some(Fault::StreamReplayCursorCorrupt),
        stored_frames_intact(rows) && last <= rows.len() && transcript_sealed(rows, row.frame_count, row.digest->0@) ==> {
            &&& row.state != TranscriptState::Terminal ==> replay_fault(row, rows, last, final_task) is None
            &&& row.state == TranscriptState::Terminal && final_task is None ==> replay_fault(
                row,
                rows,
                last,
                final_task,
            ) == Some(Fault::CanonicalStreamResultCorrupt)
            &&& row.state == TranscriptState::Terminal && final_task is Some && !task::complete_transcript(
                stored_views(rows),
                final_task->0@,
            ) ==> replay_fault(row, rows, last, final_task) == Some(Fault::PublicStreamTerminalCorrupt)
            &&& row.state == TranscriptState::Terminal && final_task is Some && task::complete_transcript(
                stored_views(rows),
                final_task->0@,
            ) ==> replay_fault(row, rows, last, final_task) is None
        },
{
}

/// The first report of work is one, and nothing before it is; there is only one such report.
pub proof fn law_the_first_report_of_work_is_one(frames: Seq<task::FrameView>, i: int, j: int)
    requires
        first_working(frames, i),
    ensures
        0 <= i < frames.len(),
        reports_working(frames[i]),
        0 <= j < i ==> !reports_working(frames[j]),
        first_working(frames, j) ==> j == i,
{
    if first_working(frames, j) && j != i {
        if j < i {
            assert(!reports_working(frames[j]));
        } else {
            assert(!reports_working(frames[i]));
        }
    }
}

/// Progress of the right task is refused where a stored frame is not intact, and then where the
/// transcript is not sealed over its frames.
pub proof fn law_progress_rests_on_a_sound_transcript(open: OpenTranscript, rows: Seq<StoredFrame>, frame: task::FrameView)
    requires
        frame is StatusUpdate,
        frame->StatusUpdate_0.task_id == open.task_id@,
        frame->StatusUpdate_0.context_id == open.context_id@,
    ensures
        !stored_frames_intact(rows) ==> progress_fault(open, rows, frame) == Some(Fault::StoredStreamFrameCorrupt),
        stored_frames_intact(rows) && !transcript_sealed(rows, open.frame_count, open.digest@) ==> progress_fault(
            open,
            rows,
            frame,
        ) == Some(Fault::StoredStreamTranscriptCorrupt),
        stored_frames_intact(rows) && transcript_sealed(rows, open.frame_count, open.digest@) ==> progress_fault(
            open,
            rows,
            frame,
        ) is None,
{
}

} // verus!
