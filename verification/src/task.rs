//! Tasks, stream frames and the rules that their lifecycle keeps.
//!
//! What the rules never look inside (message parts, artifact parts, metadata)
//! is carried as its canonical encoded text, so that two values are equal
//! exactly when their texts are.

use vstd::prelude::*;

use crate::fault::Fault;
use crate::json;
use crate::text;

verus! {

/// The lifecycle state of a task.
#[derive(Clone, Copy, Debug, PartialEq, Eq, Structural)]
pub enum TaskState {
    Unspecified,
    Submitted,
    Working,
    Completed,
    Failed,
    Canceled,
    InputRequired,
    Rejected,
    AuthRequired,
}

/// The RFC 3339 text of a time in milliseconds since the epoch, in UTC, where there is
/// such a time.
pub uninterp spec fn rfc3339_of(millis: i64) -> Option<Seq<char>>;

/// `chrono::DateTime::from_timestamp_millis` and `to_rfc3339`: the text of a time in
/// UTC, named for the milliseconds; absent where they are out of its range.
#[verifier::external_body]
pub(crate) fn rfc3339(millis: i64) -> (r: Option<String>)
    ensures
        text::opt_text(r) == rfc3339_of(millis),
{
    chrono::DateTime::from_timestamp_millis(millis).map(|at| at.to_rfc3339())
}

/// The JSON object of an agent's message with one part of text, its members in order.
pub open spec fn agent_message_of(
    message_id: Seq<char>,
    task_id: Seq<char>,
    context_id: Seq<char>,
    text: Seq<char>,
) -> Seq<char> {
    "{\"contextId\":"@ + json::json_string(context_id) + ",\"messageId\":"@ + json::json_string(message_id)
        + ",\"parts\":[{\"text\":"@ + json::json_string(text) + "}],\"role\":\"ROLE_AGENT\",\"taskId\":"@
        + json::json_string(task_id) + "}"@
}

/// `a2a::Message` of the role of an agent, with one `a2a::Part::text` and nothing
/// beside its ids, as a `serde_json` value and its text: the object of its ids, its role
/// and its part, with the members in order. Such a message is always encoded.
#[verifier::external_body]
pub(crate) fn agent_message(message_id: &str, task_id: &str, context_id: &str, text: &str) -> (r: Option<String>)
    ensures
        text::opt_text(r) == Some(agent_message_of(message_id@, task_id@, context_id@, text@)),
{
    let mut message = a2a::Message::new(a2a::Role::Agent, vec![a2a::Part::text(text)]);
    message.message_id = message_id.to_owned();
    message.task_id = Some(task_id.to_owned());
    message.context_id = Some(context_id.to_owned());
    serde_json::to_value(&message).ok().map(|value| value.to_string())
}

/// Whether `serde_json` reads a text as the response to a sent message.
pub uninterp spec fn response_readable_of(text: Seq<char>) -> bool;

/// `serde_json::from_str` into an `a2a::SendMessageResponse`: whether the text is one,
/// named for the text.
#[verifier::external_body]
pub(crate) fn response_readable(text: &str) -> (r: bool)
    ensures
        r == response_readable_of(text@),
{
    serde_json::from_str::<a2a::SendMessageResponse>(text).is_ok()
}

/// A message of a task's history.
pub struct Message {
    pub message_id: String,
    pub task_id: Option<String>,
    pub context_id: Option<String>,
    pub body: String,
}

/// The status of a task: its state, the encoded status message and the RFC 3339
/// time at which it was reached.
pub struct TaskStatus {
    pub state: TaskState,
    pub message: Option<String>,
    pub timestamp: Option<String>,
}

/// An artifact of a task.
pub struct Artifact {
    pub artifact_id: String,
    pub body: String,
}

/// A task.
pub struct Task {
    pub id: String,
    pub context_id: String,
    pub status: TaskStatus,
    pub artifacts: Option<Vec<Artifact>>,
    pub history: Option<Vec<Message>>,
    pub metadata: Option<String>,
}

/// A stream frame that reports a new status.
pub struct StatusUpdate {
    pub task_id: String,
    pub context_id: String,
    pub status: TaskStatus,
    pub metadata: Option<String>,
}

/// A stream frame that reports an artifact.
pub struct ArtifactUpdate {
    pub task_id: String,
    pub context_id: String,
    pub artifact: Artifact,
    pub append: Option<bool>,
    pub last_chunk: Option<bool>,
    pub metadata: Option<String>,
}

/// One frame of a public stream.
pub enum Frame {
    Task(Task),
    Message(Message),
    StatusUpdate(StatusUpdate),
    ArtifactUpdate(ArtifactUpdate),
}

/// The mathematical value of a [`Message`].
pub struct MessageView {
    pub message_id: Seq<char>,
    pub task_id: Option<Seq<char>>,
    pub context_id: Option<Seq<char>>,
    pub body: Seq<char>,
}

/// The mathematical value of a [`TaskStatus`].
pub struct StatusView {
    pub state: TaskState,
    pub message: Option<Seq<char>>,
    pub timestamp: Option<Seq<char>>,
}

/// The mathematical value of an [`Artifact`].
pub struct ArtifactView {
    pub artifact_id: Seq<char>,
    pub body: Seq<char>,
}

/// The mathematical value of a [`Task`].
pub struct TaskView {
    pub id: Seq<char>,
    pub context_id: Seq<char>,
    pub status: StatusView,
    pub artifacts: Option<Seq<ArtifactView>>,
    pub history: Option<Seq<MessageView>>,
    pub metadata: Option<Seq<char>>,
}

/// The mathematical value of a [`StatusUpdate`].
pub struct StatusUpdateView {
    pub task_id: Seq<char>,
    pub context_id: Seq<char>,
    pub status: StatusView,
    pub metadata: Option<Seq<char>>,
}

/// The mathematical value of an [`ArtifactUpdate`].
pub struct ArtifactUpdateView {
    pub task_id: Seq<char>,
    pub context_id: Seq<char>,
    pub artifact: ArtifactView,
    pub append: Option<bool>,
    pub last_chunk: Option<bool>,
    pub metadata: Option<Seq<char>>,
}

/// The mathematical value of a [`Frame`].
pub enum FrameView {
    Task(TaskView),
    Message(MessageView),
    StatusUpdate(StatusUpdateView),
    ArtifactUpdate(ArtifactUpdateView),
}

impl View for Message {
    type V = MessageView;

    open spec fn view(&self) -> MessageView {
        MessageView {
            message_id: self.message_id@,
            task_id: text::opt_text(self.task_id),
            context_id: text::opt_text(self.context_id),
            body: self.body@,
        }
    }
}

impl View for TaskStatus {
    type V = StatusView;

    open spec fn view(&self) -> StatusView {
        StatusView {
            state: self.state,
            message: text::opt_text(self.message),
            timestamp: text::opt_text(self.timestamp),
        }
    }
}

impl View for Artifact {
    type V = ArtifactView;

    open spec fn view(&self) -> ArtifactView {
        ArtifactView { artifact_id: self.artifact_id@, body: self.body@ }
    }
}

/// The values of a list of artifacts.
pub open spec fn artifact_views(items: Seq<Artifact>) -> Seq<ArtifactView> {
    Seq::new(items.len(), |i: int| items[i]@)
}

/// The values of a list of messages.
pub open spec fn message_views(items: Seq<Message>) -> Seq<MessageView> {
    Seq::new(items.len(), |i: int| items[i]@)
}

/// The values of a list of frames.
pub open spec fn frame_views(items: Seq<Frame>) -> Seq<FrameView> {
    Seq::new(items.len(), |i: int| items[i]@)
}

impl View for Task {
    type V = TaskView;

    open spec fn view(&self) -> TaskView {
        TaskView {
            id: self.id@,
            context_id: self.context_id@,
            status: self.status@,
            artifacts: match self.artifacts {
                Some(items) => Some(artifact_views(items@)),
                None => None,
            },
            history: match self.history {
                Some(items) => Some(message_views(items@)),
                None => None,
            },
            metadata: text::opt_text(self.metadata),
        }
    }
}

impl View for StatusUpdate {
    type V = StatusUpdateView;

    open spec fn view(&self) -> StatusUpdateView {
        StatusUpdateView {
            task_id: self.task_id@,
            context_id: self.context_id@,
            status: self.status@,
            metadata: text::opt_text(self.metadata),
        }
    }
}

impl View for ArtifactUpdate {
    type V = ArtifactUpdateView;

    open spec fn view(&self) -> ArtifactUpdateView {
        ArtifactUpdateView {
            task_id: self.task_id@,
            context_id: self.context_id@,
            artifact: self.artifact@,
            append: self.append,
            last_chunk: self.last_chunk,
            metadata: text::opt_text(self.metadata),
        }
    }
}

impl View for Frame {
    type V = FrameView;

    open spec fn view(&self) -> FrameView {
        match self {
            Frame::Task(t) => FrameView::Task(t@),
            Frame::Message(m) => FrameView::Message(m@),
            Frame::StatusUpdate(u) => FrameView::StatusUpdate(u@),
            Frame::ArtifactUpdate(u) => FrameView::ArtifactUpdate(u@),
        }
    }
}

impl Message {
    /// Whether two messages are equal.
    pub fn same(&self, other: &Message) -> (r: bool)
        ensures
            r == (self@ == other@),
    {
        self.message_id == other.message_id && text::same_opt_text(&self.task_id, &other.task_id)
            && text::same_opt_text(&self.context_id, &other.context_id) && self.body == other.body
    }

    /// A copy of the message.
    pub fn copy(&self) -> (r: Message)
        ensures
            r@ == self@,
    {
        Message {
            message_id: self.message_id.clone(),
            task_id: text::copy_opt_text(&self.task_id),
            context_id: text::copy_opt_text(&self.context_id),
            body: self.body.clone(),
        }
    }
}

impl TaskStatus {
    /// Whether two statuses are equal.
    pub fn same(&self, other: &TaskStatus) -> (r: bool)
        ensures
            r == (self@ == other@),
    {
        self.state == other.state && text::same_opt_text(&self.message, &other.message)
            && text::same_opt_text(&self.timestamp, &other.timestamp)
    }

    /// A copy of the status.
    pub fn copy(&self) -> (r: TaskStatus)
        ensures
            r@ == self@,
    {
        TaskStatus {
            state: self.state,
            message: text::copy_opt_text(&self.message),
            timestamp: text::copy_opt_text(&self.timestamp),
        }
    }
}

impl Artifact {
    /// Whether two artifacts are equal.
    pub fn same(&self, other: &Artifact) -> (r: bool)
        ensures
            r == (self@ == other@),
    {
        self.artifact_id == other.artifact_id && self.body == other.body
    }

    /// A copy of the artifact.
    pub fn copy(&self) -> (r: Artifact)
        ensures
            r@ == self@,
    {
        Artifact { artifact_id: self.artifact_id.clone(), body: self.body.clone() }
    }
}

fn same_artifacts(a: &Vec<Artifact>, b: &Vec<Artifact>) -> (r: bool)
    ensures
        r == (artifact_views(a@) == artifact_views(b@)),
{
    if a.len() != b.len() {
        assert(artifact_views(a@).len() != artifact_views(b@).len());
        return false;
    }
    let mut i: usize = 0;
    while i < a.len()
        invariant
            a@.len() == b@.len(),
            i <= a@.len(),
            forall|j: int| 0 <= j < i ==> (#[trigger] a@[j])@ == b@[j]@,
        decreases a@.len() - i,
    {
        if !a[i].same(&b[i]) {
            assert(artifact_views(a@)[i as int] != artifact_views(b@)[i as int]);
            return false;
        }
        i += 1;
    }
    assert(artifact_views(a@) =~= artifact_views(b@));
    true
}

fn same_messages(a: &Vec<Message>, b: &Vec<Message>) -> (r: bool)
    ensures
        r == (message_views(a@) == message_views(b@)),
{
    if a.len() != b.len() {
        assert(message_views(a@).len() != message_views(b@).len());
        return false;
    }
    let mut i: usize = 0;
    while i < a.len()
        invariant
            a@.len() == b@.len(),
            i <= a@.len(),
            forall|j: int| 0 <= j < i ==> (#[trigger] a@[j])@ == b@[j]@,
        decreases a@.len() - i,
    {
        if !a[i].same(&b[i]) {
            assert(message_views(a@)[i as int] != message_views(b@)[i as int]);
            return false;
        }
        i += 1;
    }
    assert(message_views(a@) =~= message_views(b@));
    true
}

fn copy_artifacts(a: &Vec<Artifact>) -> (r: Vec<Artifact>)
    ensures
        artifact_views(r@) == artifact_views(a@),
{
    let mut out: Vec<Artifact> = Vec::new();
    let mut i: usize = 0;
    while i < a.len()
        invariant
            i <= a@.len(),
            out@.len() == i,
            forall|j: int| 0 <= j < i ==> (#[trigger] out@[j])@ == a@[j]@,
        decreases a@.len() - i,
    {
        out.push(a[i].copy());
        i += 1;
    }
    assert(artifact_views(out@) =~= artifact_views(a@));
    out
}

/// Copies the messages from one position to the end.
fn copy_messages_from(a: &Vec<Message>, from: usize) -> (r: Vec<Message>)
    requires
        from <= a@.len(),
    ensures
        message_views(r@) == message_views(a@).subrange(from as int, a@.len() as int),
{
    let mut out: Vec<Message> = Vec::new();
    let mut i: usize = from;
    while i < a.len()
        invariant
            from <= i <= a@.len(),
            out@.len() == i - from,
            forall|j: int| 0 <= j < i - from ==> (#[trigger] out@[j])@ == a@[j + from]@,
        decreases a@.len() - i,
    {
        out.push(a[i].copy());
        i += 1;
    }
    assert(message_views(out@) =~= message_views(a@).subrange(from as int, a@.len() as int));
    out
}

/// The last messages of a history.
pub fn last_messages(items: &Vec<Message>, limit: usize) -> (r: Vec<Message>)
    requires
        limit <= items@.len(),
    ensures
        message_views(r@) == message_views(items@).subrange(items@.len() - limit, items@.len() as int),
{
    copy_messages_from(items, items.len() - limit)
}

impl Task {
    /// Whether two tasks are equal.
    pub fn same(&self, other: &Task) -> (r: bool)
        ensures
            r == (self@ == other@),
    {
        let artifacts_match = match (&self.artifacts, &other.artifacts) {
            (None, None) => true,
            (Some(x), Some(y)) => same_artifacts(x, y),
            _ => false,
        };
        let history_match = match (&self.history, &other.history) {
            (None, None) => true,
            (Some(x), Some(y)) => same_messages(x, y),
            _ => false,
        };
        self.id == other.id && self.context_id == other.context_id && self.status.same(&other.status)
            && artifacts_match && history_match && text::same_opt_text(&self.metadata, &other.metadata)
    }

    /// A copy of the task.
    pub fn copy(&self) -> (r: Task)
        ensures
            r@ == self@,
    {
        let artifacts = match &self.artifacts {
            Some(items) => Some(copy_artifacts(items)),
            None => None,
        };
        let history = match &self.history {
            Some(items) => {
                let copied = copy_messages_from(items, 0);
                assert(message_views(items@).subrange(0, items@.len() as int) =~= message_views(items@));
                Some(copied)
            },
            None => None,
        };
        Task {
            id: self.id.clone(),
            context_id: self.context_id.clone(),
            status: self.status.copy(),
            artifacts,
            history,
            metadata: text::copy_opt_text(&self.metadata),
        }
    }
}

impl Frame {
    /// Whether two frames are equal.
    pub fn same(&self, other: &Frame) -> (r: bool)
        ensures
            r == (self@ == other@),
    {
        match (self, other) {
            (Frame::Task(a), Frame::Task(b)) => a.same(b),
            (Frame::Message(a), Frame::Message(b)) => a.same(b),
            (Frame::StatusUpdate(a), Frame::StatusUpdate(b)) => a.task_id == b.task_id
                && a.context_id == b.context_id && a.status.same(&b.status)
                && text::same_opt_text(&a.metadata, &b.metadata),
            (Frame::ArtifactUpdate(a), Frame::ArtifactUpdate(b)) => a.task_id == b.task_id
                && a.context_id == b.context_id && a.artifact.same(&b.artifact) && a.append == b.append
                && a.last_chunk == b.last_chunk && text::same_opt_text(&a.metadata, &b.metadata),
            _ => false,
        }
    }

    /// A copy of the frame.
    pub fn copy(&self) -> (r: Frame)
        ensures
            r@ == self@,
    {
        match self {
            Frame::Task(t) => Frame::Task(t.copy()),
            Frame::Message(m) => Frame::Message(m.copy()),
            Frame::StatusUpdate(u) => Frame::StatusUpdate(
                StatusUpdate {
                    task_id: u.task_id.clone(),
                    context_id: u.context_id.clone(),
                    status: u.status.copy(),
                    metadata: text::copy_opt_text(&u.metadata),
                },
            ),
            Frame::ArtifactUpdate(u) => Frame::ArtifactUpdate(
                ArtifactUpdate {
                    task_id: u.task_id.clone(),
                    context_id: u.context_id.clone(),
                    artifact: u.artifact.copy(),
                    append: u.append,
                    last_chunk: u.last_chunk,
                    metadata: text::copy_opt_text(&u.metadata),
                },
            ),
        }
    }
}

/// The states in which no further change is permitted.
pub open spec fn terminal(state: TaskState) -> bool {
    state == TaskState::Completed || state == TaskState::Failed || state == TaskState::Canceled || state
        == TaskState::Rejected
}

/// The states in which a dispatch has nothing more to deliver: the terminal
/// ones and those that wait for the caller.
pub open spec fn dispatch_closed(state: TaskState) -> bool {
    terminal(state) || state == TaskState::InputRequired || state == TaskState::AuthRequired
}

/// The transitions a task may make. Staying in a state is always one.
pub open spec fn transition_allowed(from: TaskState, to: TaskState) -> bool {
    ||| from == to
    ||| from == TaskState::Unspecified && (to == TaskState::Submitted || to == TaskState::Failed || to
        == TaskState::Rejected)
    ||| from == TaskState::Submitted && to != TaskState::Unspecified
    ||| from == TaskState::Working && to != TaskState::Unspecified && to != TaskState::Submitted
    ||| (from == TaskState::InputRequired || from == TaskState::AuthRequired) && (to
        == TaskState::Working || to == TaskState::Failed || to == TaskState::Canceled || to
        == TaskState::Rejected)
}

/// The stored text of a state: its wire name in double quotes.
pub open spec fn state_text(state: TaskState) -> Seq<char> {
    match state {
        TaskState::Unspecified => "\"TASK_STATE_UNSPECIFIED\""@,
        TaskState::Submitted => "\"TASK_STATE_SUBMITTED\""@,
        TaskState::Working => "\"TASK_STATE_WORKING\""@,
        TaskState::Completed => "\"TASK_STATE_COMPLETED\""@,
        TaskState::Failed => "\"TASK_STATE_FAILED\""@,
        TaskState::Canceled => "\"TASK_STATE_CANCELED\""@,
        TaskState::InputRequired => "\"TASK_STATE_INPUT_REQUIRED\""@,
        TaskState::Rejected => "\"TASK_STATE_REJECTED\""@,
        TaskState::AuthRequired => "\"TASK_STATE_AUTH_REQUIRED\""@,
    }
}

/// The stored kind of a frame.
pub open spec fn frame_kind_text(frame: FrameView) -> Seq<char> {
    match frame {
        FrameView::Task(_) => "task"@,
        FrameView::Message(_) => "message"@,
        FrameView::StatusUpdate(_) => "status_update"@,
        FrameView::ArtifactUpdate(_) => "artifact_update"@,
    }
}

impl TaskState {
    /// Whether no further change is permitted.
    pub fn is_terminal(self) -> (r: bool)
        ensures
            r == terminal(self),
    {
        self == TaskState::Completed || self == TaskState::Failed || self == TaskState::Canceled || self
            == TaskState::Rejected
    }
}

/// Whether a dispatch in this state has nothing more to deliver.
pub fn is_dispatch_closed(state: TaskState) -> (r: bool)
    ensures
        r == dispatch_closed(state),
{
    state.is_terminal() || state == TaskState::InputRequired || state == TaskState::AuthRequired
}

/// Whether a task may move from one state to another.
pub fn legal_transition(from: TaskState, to: TaskState) -> (r: bool)
    ensures
        r == transition_allowed(from, to),
{
    if from == to {
        return true;
    }
    match from {
        TaskState::Unspecified => matches!(to, TaskState::Submitted | TaskState::Failed | TaskState::Rejected),
        TaskState::Submitted => matches!(
            to,
            TaskState::Working | TaskState::InputRequired | TaskState::AuthRequired | TaskState::Completed
                | TaskState::Failed | TaskState::Canceled | TaskState::Rejected
        ),
        TaskState::Working => matches!(
            to,
            TaskState::InputRequired | TaskState::AuthRequired | TaskState::Completed | TaskState::Failed
                | TaskState::Canceled | TaskState::Rejected
        ),
        TaskState::InputRequired | TaskState::AuthRequired => matches!(
            to,
            TaskState::Working | TaskState::Failed | TaskState::Canceled | TaskState::Rejected
        ),
        TaskState::Completed | TaskState::Failed | TaskState::Canceled | TaskState::Rejected => false,
    }
}

/// A task that reached a terminal state never leaves it.
pub proof fn law_terminal_states_are_final(from: TaskState, to: TaskState)
    requires
        terminal(from),
        transition_allowed(from, to),
    ensures
        to == from,
{
}

/// A task that waits for its caller can only resume work or end unsuccessfully.
pub proof fn law_waiting_tasks_do_not_complete(from: TaskState)
    requires
        dispatch_closed(from),
        !terminal(from),
    ensures
        !transition_allowed(from, TaskState::Completed),
        transition_allowed(from, TaskState::Working),
{
}

/// Different states are stored as different texts.
pub proof fn law_state_texts_are_distinct(a: TaskState, b: TaskState)
    requires
        state_text(a) == state_text(b),
    ensures
        a == b,
{
    reveal_strlit("\"TASK_STATE_UNSPECIFIED\"");
    reveal_strlit("\"TASK_STATE_SUBMITTED\"");
    reveal_strlit("\"TASK_STATE_WORKING\"");
    reveal_strlit("\"TASK_STATE_COMPLETED\"");
    reveal_strlit("\"TASK_STATE_FAILED\"");
    reveal_strlit("\"TASK_STATE_CANCELED\"");
    reveal_strlit("\"TASK_STATE_INPUT_REQUIRED\"");
    reveal_strlit("\"TASK_STATE_REJECTED\"");
    reveal_strlit("\"TASK_STATE_AUTH_REQUIRED\"");
    assert("\"TASK_STATE_UNSPECIFIED\""@.len() == 24);
    assert("\"TASK_STATE_SUBMITTED\""@.len() == 22);
    assert("\"TASK_STATE_WORKING\""@.len() == 20);
    assert("\"TASK_STATE_COMPLETED\""@.len() == 22);
    assert("\"TASK_STATE_FAILED\""@.len() == 19);
    assert("\"TASK_STATE_CANCELED\""@.len() == 21);
    assert("\"TASK_STATE_INPUT_REQUIRED\""@.len() == 27);
    assert("\"TASK_STATE_REJECTED\""@.len() == 21);
    assert("\"TASK_STATE_AUTH_REQUIRED\""@.len() == 26);
    assert("\"TASK_STATE_SUBMITTED\""@[12] == 'S');
    assert("\"TASK_STATE_COMPLETED\""@[12] == 'C');
    assert("\"TASK_STATE_CANCELED\""@[12] == 'C');
    assert("\"TASK_STATE_REJECTED\""@[12] == 'R');
}

/// A state's text is one quoted word.
pub proof fn lemma_state_text_quotes(a: TaskState)
    ensures
        state_text(a).len() > 1,
        state_text(a)[0] == '"',
        state_text(a).last() == '"',
        forall|i: int| 0 < i < state_text(a).len() - 1 ==> #[trigger] state_text(a)[i] != '"',
{
    reveal_strlit("\"TASK_STATE_UNSPECIFIED\"");
    reveal_strlit("\"TASK_STATE_SUBMITTED\"");
    reveal_strlit("\"TASK_STATE_WORKING\"");
    reveal_strlit("\"TASK_STATE_COMPLETED\"");
    reveal_strlit("\"TASK_STATE_FAILED\"");
    reveal_strlit("\"TASK_STATE_CANCELED\"");
    reveal_strlit("\"TASK_STATE_INPUT_REQUIRED\"");
    reveal_strlit("\"TASK_STATE_REJECTED\"");
    reveal_strlit("\"TASK_STATE_AUTH_REQUIRED\"");
}

/// A state's text is read one way, whatever follows it.
pub proof fn lemma_state_text_unique(a: TaskState, b: TaskState, x: Seq<char>, y: Seq<char>)
    requires
        state_text(a) + x == state_text(b) + y,
    ensures
        a == b,
        x == y,
{
    lemma_state_text_quotes(a);
    lemma_state_text_quotes(b);
    let p = state_text(a);
    let q = state_text(b);
    let l = p + x;
    let r = q + y;
    if p.len() < q.len() {
        assert(l[p.len() - 1] == '"');
        assert(r[p.len() - 1] == q[p.len() - 1]);
        assert(false);
    }
    if q.len() < p.len() {
        assert(r[q.len() - 1] == '"');
        assert(l[q.len() - 1] == p[q.len() - 1]);
        assert(false);
    }
    json::lemma_same_rest(p, q, x, y);
    law_state_texts_are_distinct(a, b);
}

/// The stored text of a state.
pub fn state_key_of(state: TaskState) -> (r: &'static str)
    ensures
        r@ == state_text(state),
{
    match state {
        TaskState::Unspecified => "\"TASK_STATE_UNSPECIFIED\"",
        TaskState::Submitted => "\"TASK_STATE_SUBMITTED\"",
        TaskState::Working => "\"TASK_STATE_WORKING\"",
        TaskState::Completed => "\"TASK_STATE_COMPLETED\"",
        TaskState::Failed => "\"TASK_STATE_FAILED\"",
        TaskState::Canceled => "\"TASK_STATE_CANCELED\"",
        TaskState::InputRequired => "\"TASK_STATE_INPUT_REQUIRED\"",
        TaskState::Rejected => "\"TASK_STATE_REJECTED\"",
        TaskState::AuthRequired => "\"TASK_STATE_AUTH_REQUIRED\"",
    }
}

/// The stored text of a task's state.
pub fn state_key(task: &Task) -> (r: &'static str)
    ensures
        r@ == state_text(task.status.state),
{
    state_key_of(task.status.state)
}

/// The stored kind of a frame.
pub fn frame_kind(frame: &Frame) -> (r: &'static str)
    ensures
        r@ == frame_kind_text(frame@),
{
    match frame {
        Frame::Task(_) => "task",
        Frame::Message(_) => "message",
        Frame::StatusUpdate(_) => "status_update",
        Frame::ArtifactUpdate(_) => "artifact_update",
    }
}

/// A task after one more frame of its stream.
pub open spec fn after_frame(task: TaskView, frame: FrameView) -> TaskView {
    match frame {
        FrameView::StatusUpdate(u) => TaskView { status: u.status, ..task },
        FrameView::ArtifactUpdate(u) => TaskView {
            artifacts: Some(
                match task.artifacts {
                    Some(items) => items.push(u.artifact),
                    None => seq![u.artifact],
                },
            ),
            ..task
        },
        FrameView::Task(_) | FrameView::Message(_) => task,
    }
}

/// A task after a run of frames of its stream.
pub open spec fn after_frames(task: TaskView, frames: Seq<FrameView>) -> TaskView
    decreases frames.len(),
{
    if frames.len() == 0 {
        task
    } else {
        after_frame(after_frames(task, frames.drop_last()), frames.last())
    }
}

/// Applies one frame to a task.
fn apply_frame(task: &mut Task, frame: &Frame)
    ensures
        final(task)@ == after_frame(old(task)@, frame@),
{
    match frame {
        Frame::StatusUpdate(u) => {
            task.status = u.status.copy();
        },
        Frame::ArtifactUpdate(u) => {
            let mut items = match task.artifacts.take() {
                Some(items) => items,
                None => Vec::new(),
            };
            let ghost before = items@;
            items.push(u.artifact.copy());
            proof {
                assert(artifact_views(items@) =~= artifact_views(before).push(u.artifact@));
                assert(artifact_views(before).len() == before.len());
                if old(task)@.artifacts is None {
                    assert(artifact_views(items@) =~= seq![u.artifact@]);
                }
            }
            task.artifacts = Some(items);
        },
        Frame::Task(_) | Frame::Message(_) => {},
    }
}

/// The task that a subscriber sees: the stored task with every frame of its open
/// stream after the first applied to it.
pub fn project_subscription(task: Task, frames: &Vec<Frame>) -> (r: Task)
    ensures
        r@ == after_frames(
            task@,
            if frames@.len() == 0 {
                Seq::empty()
            } else {
                frame_views(frames@).drop_first()
            },
        ),
        r@.id == task@.id,
        frames@.len() <= 1 ==> r@ == task@,
        frames@.len() > 1 && frames@.last()@ is StatusUpdate ==> r@.status == frames@.last()@->StatusUpdate_0.status,
{
    let mut current = task;
    if frames.len() == 0 {
        return current;
    }
    let ghost views = frame_views(frames@).drop_first();
    let mut i: usize = 1;
    assert(views.subrange(0, 0) =~= Seq::<FrameView>::empty());
    while i < frames.len()
        invariant
            1 <= i <= frames@.len(),
            views == frame_views(frames@).drop_first(),
            current@ == after_frames(task@, views.subrange(0, i - 1)),
        decreases frames@.len() - i,
    {
        apply_frame(&mut current, &frames[i]);
        proof {
            let step = views.subrange(0, i as int);
            assert(step.drop_last() =~= views.subrange(0, i - 1));
            assert(step.last() == frames@[i as int]@);
        }
        i += 1;
    }
    assert(views.subrange(0, i - 1) =~= views);
    proof {
        lemma_frames_keep_the_task(task@, views);
        if frames@.len() > 1 {
            assert(views.last() == frames@.last()@);
        }
    }
    current
}

/// A frame that may follow the first one in the public stream of a task.
pub open spec fn follows_in_stream(frame: FrameView, task: TaskView, is_last: bool) -> bool {
    match frame {
        FrameView::StatusUpdate(u) => u.task_id == task.id && u.context_id == task.context_id && (
        dispatch_closed(u.status.state) ==> is_last),
        FrameView::ArtifactUpdate(u) => u.task_id == task.id && u.context_id == task.context_id,
        FrameView::Task(_) | FrameView::Message(_) => false,
    }
}

/// The complete public stream of a delivered task: it opens with the task in a
/// state that is not closed, goes on with updates of that task only, ends with
/// the one update that closes it, and adds up to the delivered task.
pub open spec fn complete_transcript(frames: Seq<FrameView>, task: TaskView) -> bool {
    &&& 1 <= frames.len() <= 1024
    &&& frames[0] matches FrameView::Task(initial) && !dispatch_closed(initial.status.state)
        && after_frames(initial, frames.drop_first()) == task
    &&& forall|i: int|
        1 <= i < frames.len() ==> follows_in_stream(#[trigger] frames[i], task, i == frames.len() - 1)
    &&& frames.last() matches FrameView::StatusUpdate(u) && dispatch_closed(u.status.state)
}

/// Accepts exactly the complete public stream of the delivered task.
pub fn validate_terminal_public_transcript(frames: &Vec<Frame>, final_task: &Task) -> (r: Result<(), Fault>)
    ensures
        match r {
            Ok(_) => complete_transcript(frame_views(frames@), final_task@),
            Err(e) => e == Fault::InvalidAgentResponse && !complete_transcript(
                frame_views(frames@),
                final_task@,
            ),
        },
{
    let ghost all = frame_views(frames@);
    if frames.len() == 0 || frames.len() > 1024 {
        return Err(Fault::InvalidAgentResponse);
    }
    assert(all[0] == frames@[0]@);
    let initial = match &frames[0] {
        Frame::Task(t) => t,
        _ => {
            return Err(Fault::InvalidAgentResponse);
        },
    };
    if is_dispatch_closed(initial.status.state) {
        return Err(Fault::InvalidAgentResponse);
    }
    let mut reconstructed = initial.copy();
    let mut closed = false;
    let ghost views = all.drop_first();
    assert(views.subrange(0, 0) =~= Seq::<FrameView>::empty());
    let mut i: usize = 1;
    while i < frames.len()
        invariant
            1 <= i <= frames@.len() <= 1024,
            all == frame_views(frames@),
            views == all.drop_first(),
            reconstructed@ == after_frames(initial@, views.subrange(0, i - 1)),
            forall|j: int|
                1 <= j < i ==> follows_in_stream(#[trigger] all[j], final_task@, j == all.len() - 1),
            closed == (i > 1 && i == frames@.len() && (all.last() matches FrameView::StatusUpdate(u)
                && dispatch_closed(u.status.state))),
        decreases frames@.len() - i,
    {
        assert(all[i as int] == frames@[i as int]@);
        match &frames[i] {
            Frame::Task(_) | Frame::Message(_) => {
                assert(!follows_in_stream(all[i as int], final_task@, i == all.len() - 1));
                return Err(Fault::InvalidAgentResponse);
            },
            Frame::StatusUpdate(update) => {
                if update.task_id != final_task.id || update.context_id != final_task.context_id {
                    assert(!follows_in_stream(all[i as int], final_task@, i == all.len() - 1));
                    return Err(Fault::InvalidAgentResponse);
                }
                if is_dispatch_closed(update.status.state) {
                    closed = true;
                    if i + 1 != frames.len() {
                        assert(!follows_in_stream(all[i as int], final_task@, i == all.len() - 1));
                        return Err(Fault::InvalidAgentResponse);
                    }
                }
            },
            Frame::ArtifactUpdate(update) => {
                if update.task_id != final_task.id || update.context_id != final_task.context_id {
                    assert(!follows_in_stream(all[i as int], final_task@, i == all.len() - 1));
                    return Err(Fault::InvalidAgentResponse);
                }
            },
        }
        apply_frame(&mut reconstructed, &frames[i]);
        proof {
            let step = views.subrange(0, i as int);
            assert(step.drop_last() =~= views.subrange(0, i - 1));
            assert(step.last() == all[i as int]);
        }
        i += 1;
    }
    assert(views.subrange(0, i - 1) =~= views);
    if !closed {
        return Err(Fault::InvalidAgentResponse);
    }
    if !reconstructed.same(final_task) {
        return Err(Fault::InvalidAgentResponse);
    }
    Ok(())
}

/// The status that a complete public stream ends with is the delivered task's.
pub proof fn law_transcript_ends_in_delivered_status(frames: Seq<FrameView>, task: TaskView)
    requires
        complete_transcript(frames, task),
    ensures
        frames.last() is StatusUpdate,
        frames.last()->StatusUpdate_0.status == task.status,
        dispatch_closed(task.status.state),
{
    let rest = frames.drop_first();
    assert(frames.last() is StatusUpdate);
    assert(frames.len() > 1);
    assert(rest.last() == frames.last());
}

/// Four states are final, and two more leave a dispatch with nothing to deliver.
pub proof fn law_states_are_open_or_closed(state: TaskState)
    ensures
        terminal(state) <==> state is Completed || state is Failed || state is Canceled || state is Rejected,
        !dispatch_closed(state) <==> state is Unspecified || state is Submitted || state is Working,
        terminal(state) ==> dispatch_closed(state),
{
}

/// Every task that is not over may fail or be rejected; none goes back to being unspecified, and
/// only an unspecified one is submitted. One that was submitted or is worked on may go anywhere
/// forward, one that waits for its caller resumes or ends, and one that is unspecified is neither
/// worked on, waited for, completed nor canceled.
pub proof fn law_tasks_move_forward(from: TaskState, to: TaskState)
    ensures
        transition_allowed(from, from),
        !terminal(from) ==> transition_allowed(from, TaskState::Failed) && transition_allowed(from, TaskState::Rejected),
        transition_allowed(from, TaskState::Unspecified) ==> from is Unspecified,
        transition_allowed(from, TaskState::Submitted) <==> from is Unspecified || from is Submitted,
        from is Submitted || from is Working ==> transition_allowed(from, TaskState::Working) && transition_allowed(
            from,
            TaskState::Completed,
        ) && transition_allowed(from, TaskState::Canceled) && transition_allowed(from, TaskState::InputRequired)
            && transition_allowed(from, TaskState::AuthRequired),
        from is InputRequired || from is AuthRequired ==> transition_allowed(from, TaskState::Working)
            && transition_allowed(from, TaskState::Canceled) && !transition_allowed(from, TaskState::Completed),
        transition_allowed(TaskState::InputRequired, to) && to is AuthRequired ==> false,
        transition_allowed(TaskState::AuthRequired, to) && to is InputRequired ==> false,
        from is Unspecified && (to is Working || to is InputRequired || to is AuthRequired || to is Completed || to is Canceled)
            ==> !transition_allowed(from, to),
        terminal(from) && to != from ==> !transition_allowed(from, to),
{
}

/// A state is stored under its wire name: the words of the name in upper case behind the common
/// prefix, in double quotes.
pub proof fn law_states_are_stored_under_their_names(state: TaskState, name: Seq<char>)
    requires
        state is Unspecified ==> name == "UNSPECIFIED"@,
        state is Submitted ==> name == "SUBMITTED"@,
        state is Working ==> name == "WORKING"@,
        state is Completed ==> name == "COMPLETED"@,
        state is Failed ==> name == "FAILED"@,
        state is Canceled ==> name == "CANCELED"@,
        state is InputRequired ==> name == "INPUT_REQUIRED"@,
        state is Rejected ==> name == "REJECTED"@,
        state is AuthRequired ==> name == "AUTH_REQUIRED"@,
    ensures
        state_text(state) == seq!['"'] + "TASK_STATE_"@ + name + seq!['"'],
{
    reveal_strlit("TASK_STATE_");
    reveal_strlit("UNSPECIFIED");
    reveal_strlit("SUBMITTED");
    reveal_strlit("WORKING");
    reveal_strlit("COMPLETED");
    reveal_strlit("FAILED");
    reveal_strlit("CANCELED");
    reveal_strlit("INPUT_REQUIRED");
    reveal_strlit("REJECTED");
    reveal_strlit("AUTH_REQUIRED");
    reveal_strlit("\"TASK_STATE_UNSPECIFIED\"");
    reveal_strlit("\"TASK_STATE_SUBMITTED\"");
    reveal_strlit("\"TASK_STATE_WORKING\"");
    reveal_strlit("\"TASK_STATE_COMPLETED\"");
    reveal_strlit("\"TASK_STATE_FAILED\"");
    reveal_strlit("\"TASK_STATE_CANCELED\"");
    reveal_strlit("\"TASK_STATE_INPUT_REQUIRED\"");
    reveal_strlit("\"TASK_STATE_REJECTED\"");
    reveal_strlit("\"TASK_STATE_AUTH_REQUIRED\"");
    assert(state_text(state) =~= seq!['"'] + "TASK_STATE_"@ + name + seq!['"']);
}

/// A frame changes what it reports and nothing else: a status update the status, an artifact
/// update the end of the artifacts, a task or a message nothing.
pub proof fn law_frames_change_what_they_report(task: TaskView, frame: FrameView, i: int)
    ensures
        after_frame(task, frame).id == task.id,
        after_frame(task, frame).context_id == task.context_id,
        after_frame(task, frame).history == task.history,
        after_frame(task, frame).metadata == task.metadata,
        frame matches FrameView::StatusUpdate(u) ==> after_frame(task, frame).status == u.status && after_frame(
            task,
            frame,
        ).artifacts == task.artifacts,
        frame matches FrameView::ArtifactUpdate(u) ==> after_frame(task, frame).status == task.status && after_frame(
            task,
            frame,
        ).artifacts is Some && after_frame(task, frame).artifacts->0.last() == u.artifact,
        frame is ArtifactUpdate && task.artifacts is None ==> after_frame(task, frame).artifacts->0.len() == 1,
        frame is ArtifactUpdate && task.artifacts is Some ==> after_frame(task, frame).artifacts->0.len()
            == task.artifacts->0.len() + 1,
        frame is ArtifactUpdate && task.artifacts is Some && 0 <= i < task.artifacts->0.len() ==> after_frame(
            task,
            frame,
        ).artifacts->0[i] == task.artifacts->0[i],
        frame is Task || frame is Message ==> after_frame(task, frame) == task,
{
}

/// Frames are applied one after the other: a run of frames is the run of its beginning and then of
/// its end, and no run changes whose task it is.
pub proof fn law_runs_of_frames_add_up(task: TaskView, first: Seq<FrameView>, later: Seq<FrameView>)
    ensures
        after_frames(task, first + later) == after_frames(after_frames(task, first), later),
        after_frames(task, Seq::empty()) == task,
        after_frames(task, first).id == task.id,
        after_frames(task, first).context_id == task.context_id,
        after_frames(task, first).history == task.history,
        first.len() == 1 ==> after_frames(task, first) == after_frame(task, first[0]),
    decreases first.len() + later.len(),
{
    reveal_with_fuel(after_frames, 2);
    if first.len() > 0 {
        law_runs_of_frames_add_up(task, first.drop_last(), Seq::empty());
    }
    if later.len() == 0 {
        assert(first + later =~= first);
    } else {
        law_runs_of_frames_add_up(task, first, later.drop_last());
        assert((first + later).drop_last() =~= first + later.drop_last());
        assert((first + later).last() == later.last());
    }
}

/// A complete stream has between two and 1024 frames: it opens with the task itself, still open,
/// under the ids of the delivered one; every other frame is an update of that task; and only the
/// last one closes it.
pub proof fn law_complete_streams_are_of_one_task(frames: Seq<FrameView>, task: TaskView, i: int)
    requires
        complete_transcript(frames, task),
    ensures
        2 <= frames.len() <= 1024,
        frames[0] matches FrameView::Task(initial) && initial.id == task.id && initial.context_id == task.context_id
            && initial.history == task.history && initial.metadata == task.metadata && (initial.status.state is Unspecified
            || initial.status.state is Submitted || initial.status.state is Working),
        1 <= i < frames.len() ==> frames[i] is StatusUpdate || frames[i] is ArtifactUpdate,
        1 <= i < frames.len() && frames[i] is StatusUpdate ==> frames[i]->StatusUpdate_0.task_id == task.id
            && frames[i]->StatusUpdate_0.context_id == task.context_id,
        1 <= i < frames.len() && frames[i] is ArtifactUpdate ==> frames[i]->ArtifactUpdate_0.task_id == task.id
            && frames[i]->ArtifactUpdate_0.context_id == task.context_id,
        1 <= i < frames.len() - 1 && frames[i] is StatusUpdate ==> !dispatch_closed(
            frames[i]->StatusUpdate_0.status.state,
        ),
        frames.last() is StatusUpdate,
        frames.last()->StatusUpdate_0.status == task.status,
        terminal(task.status.state) || task.status.state is InputRequired || task.status.state is AuthRequired,
{
    law_transcript_ends_in_delivered_status(frames, task);
    lemma_frames_keep_the_task(frames[0]->Task_0, frames.drop_first());
    if 1 <= i < frames.len() {
        assert(follows_in_stream(frames[i], task, i == frames.len() - 1));
    }
}

proof fn lemma_frames_keep_the_task(task: TaskView, frames: Seq<FrameView>)
    ensures
        after_frames(task, frames).id == task.id,
        after_frames(task, frames).context_id == task.context_id,
        after_frames(task, frames).history == task.history,
        after_frames(task, frames).metadata == task.metadata,
    decreases frames.len(),
{
    if frames.len() > 0 {
        lemma_frames_keep_the_task(task, frames.drop_last());
    }
}

/// A stream that opens with an open task and closes it with one status update is complete.
pub proof fn law_short_streams_are_complete(initial: TaskView, update: StatusUpdateView)
    requires
        initial.status.state is Submitted || initial.status.state is Working,
        update.status.state is Completed || update.status.state is Failed || update.status.state is Canceled
            || update.status.state is Rejected || update.status.state is InputRequired || update.status.state is AuthRequired,
        update.task_id == initial.id,
        update.context_id == initial.context_id,
    ensures
        complete_transcript(
            seq![FrameView::Task(initial), FrameView::StatusUpdate(update)],
            (TaskView { status: update.status, ..initial }),
        ),
{
    let frames = seq![FrameView::Task(initial), FrameView::StatusUpdate(update)];
    let rest = seq![FrameView::StatusUpdate(update)];
    reveal_with_fuel(after_frames, 2);
    assert(frames.drop_first() =~= rest);
    assert(rest.drop_last() =~= Seq::empty());
    assert(after_frames(initial, rest) == after_frame(initial, rest.last()));
}

/// The four kinds of frames have texts of their own.
pub proof fn law_frame_kinds_have_their_own_texts(a: FrameView, b: FrameView)
    ensures
        a is Task ==> frame_kind_text(a) == "task"@,
        a is Message ==> frame_kind_text(a) == "message"@,
        a is StatusUpdate ==> frame_kind_text(a) == "status_update"@,
        a is ArtifactUpdate ==> frame_kind_text(a) == "artifact_update"@,
        frame_kind_text(a) == frame_kind_text(b) ==> (a is Task == b is Task) && (a is Message == b is Message) && (
        a is StatusUpdate == b is StatusUpdate) && (a is ArtifactUpdate == b is ArtifactUpdate),
{
    reveal_strlit("task");
    reveal_strlit("message");
    reveal_strlit("status_update");
    reveal_strlit("artifact_update");
    assert("task"@.len() == 4);
    assert("message"@.len() == 7);
    assert("status_update"@.len() == 13);
    assert("artifact_update"@.len() == 15);
}

} // verus!
