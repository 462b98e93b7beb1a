//! Task listings: the frozen snapshot behind a paged listing, and its page tokens.

use vstd::prelude::*;
use vstd::utf8::*;

use crate::crypto;
use crate::fault::Fault;
use crate::json;
use crate::task;
use crate::task::{Task, TaskState};
use crate::text;

verus! {

pub const PAGE_TOKEN_VERSION: i64 = 1;

pub const PAGE_TOKEN_KEY_GENERATION: i64 = 1;

pub const MAX_PAGE_TOKEN_BYTES: usize = 4096;

/// How long a snapshot can be paged through: five minutes.
pub const SNAPSHOT_TTL_MILLIS: i64 = 300_000;

pub const MAX_ACTIVE_SNAPSHOTS: i64 = 128;

/// The bytes that a tenant's snapshots may hold together: sixty-four mebibytes.
pub const MAX_SNAPSHOT_BYTES: i64 = 67_108_864;

/// A time in UTC: whole seconds since the epoch, and nanoseconds beside them.
#[derive(Clone, Copy, Debug, PartialEq, Eq, Structural)]
pub struct Moment {
    pub seconds: i64,
    pub nanos: u32,
}

/// The text that a time is encoded as in JSON, where there is such a time.
pub uninterp spec fn json_time_of(seconds: i64, nanos: u32) -> Option<Seq<char>>;

/// `chrono::DateTime::from_timestamp`, and the text that `serde_json` encodes the time
/// as, named for its seconds and nanoseconds; absent where there is no such time.
#[verifier::external_body]
fn json_time(seconds: i64, nanos: u32) -> (r: Option<String>)
    ensures
        text::opt_text(r) == json_time_of(seconds, nanos),
{
    let time = chrono::DateTime::from_timestamp(seconds, nanos)?;
    serde_json::to_value(time).ok()?.as_str().map(|text| text.to_owned())
}

/// A request to list tasks.
pub struct ListTasksRequest {
    pub context_id: Option<String>,
    pub status: Option<TaskState>,
    pub page_size: Option<i32>,
    pub page_token: Option<String>,
    pub history_length: Option<i32>,
    pub status_timestamp_after: Option<Moment>,
    pub include_artifacts: Option<bool>,
}

/// The page size that a request asks for.
pub open spec fn requested_page_size(request: ListTasksRequest) -> i32 {
    match request.page_size {
        Some(n) => n,
        None => 50,
    }
}

/// The page that a request asks for. An empty token asks for none.
pub open spec fn asked_page(request: ListTasksRequest) -> Option<Seq<char>> {
    match request.page_token {
        Some(token) => if token@.len() > 0 {
            Some(token@)
        } else {
            None
        },
        None => None,
    }
}

/// The page that a request asks for.
pub fn requested_page(request: &ListTasksRequest) -> (r: Option<&str>)
    ensures
        match r {
            Some(token) => asked_page(*request) == Some(token@),
            None => asked_page(*request) is None,
        },
{
    match &request.page_token {
        Some(token) => {
            proof {
                text::lemma_utf8_empty(token@);
            }
            if text::byte_len(token.as_str()) == 0 {
                None
            } else {
                Some(token.as_str())
            }
        },
        None => None,
    }
}

/// Whether a request asks for artifacts.
pub open spec fn asks_for_artifacts(request: ListTasksRequest) -> bool {
    request.include_artifacts == Some(true)
}

/// A listing request asks for the page size that it names, and for fifty where it names none;
/// an empty page token asks for the first page; artifacts are shown only where they are asked
/// for.
pub proof fn law_requests_ask_for_what_they_name(request: ListTasksRequest)
    ensures
        request.page_size is None ==> requested_page_size(request) == 50,
        request.page_size is Some ==> requested_page_size(request) == request.page_size->0,
        asked_page(request) is Some <==> request.page_token is Some && request.page_token->0@.len() > 0,
        asked_page(request) is Some ==> asked_page(request)->0 == request.page_token->0@,
        asks_for_artifacts(request) <==> request.include_artifacts is Some && request.include_artifacts->0,
{
}

/// A 32-bit number that may be absent, as a wider one.
pub open spec fn wide(value: Option<i32>) -> Option<i64> {
    match value {
        Some(n) => Some(n as i64),
        None => None,
    }
}

/// The JSON value of a state that may be absent.
pub open spec fn json_opt_state(value: Option<TaskState>) -> Seq<char> {
    match value {
        Some(state) => task::state_text(state),
        None => "null"@,
    }
}

/// The time that a request asks for, as it is encoded.
pub open spec fn asked_after(request: ListTasksRequest) -> Option<Seq<char>> {
    match request.status_timestamp_after {
        Some(time) => json_time_of(time.seconds, time.nanos),
        None => None,
    }
}

/// The text that stands for what a request lists, with its keys in order.
pub open spec fn query_text(request: ListTasksRequest) -> Seq<char> {
    "{\"contextId\":"@ + (json::json_opt_string(text::opt_text(request.context_id)) + (",\"historyLength\":"@ + (
    json::json_opt_number(wide(request.history_length)) + (",\"includeArtifacts\":"@ + (json::json_bool(
        asks_for_artifacts(request),
    ) + (",\"pageSize\":"@ + (json::json_opt_number(Some(requested_page_size(request) as i64)) + (
    ",\"projectionVersion\":1,\"status\":"@ + (json_opt_state(request.status) + (
    ",\"statusTimestampAfter\":"@ + (json::json_opt_string(asked_after(request)) + "}"@)))))))))))
}

fn before(head: &str, rest: &str) -> (r: String)
    ensures
        r@ == head@ + rest@,
{
    let mut out = head.to_owned();
    out.append(rest);
    out
}

/// The text that stands for what a request lists.
pub fn query_key(request: &ListTasksRequest) -> (r: Option<String>)
    ensures
        text::opt_text(r) == Some(query_text(*request)),
{
    let context = match json::opt_string_text(&request.context_id) {
        Some(text) => text,
        None => {
            return None;
        },
    };
    let after = match request.status_timestamp_after {
        Some(time) => json_time(time.seconds, time.nanos),
        None => None,
    };
    let time = match json::opt_string_text(&after) {
        Some(text) => text,
        None => {
            return None;
        },
    };
    let history: Option<i64> = match request.history_length {
        Some(n) => Some(n as i64),
        None => None,
    };
    let page_size: i32 = match request.page_size {
        Some(n) => n,
        None => 50,
    };
    let state: &str = match request.status {
        Some(state) => task::state_key_of(state),
        None => "null",
    };
    let show_artifacts = match request.include_artifacts {
        Some(value) => value,
        None => false,
    };
    let key = before(time.as_str(), "}");
    let key = before(state, before(",\"statusTimestampAfter\":", key.as_str()).as_str());
    let key = before(",\"projectionVersion\":1,\"status\":", key.as_str());
    let key = before(json::opt_number_text(Some(page_size as i64)).as_str(), key.as_str());
    let key = before(",\"pageSize\":", key.as_str());
    let key = before(json::bool_text(show_artifacts), key.as_str());
    let key = before(",\"includeArtifacts\":", key.as_str());
    let key = before(json::opt_number_text(history).as_str(), key.as_str());
    let key = before(",\"historyLength\":", key.as_str());
    let key = before(context.as_str(), key.as_str());
    Some(before("{\"contextId\":", key.as_str()))
}

/// The digest that page tokens bind a query by.
pub open spec fn query_digest_of(request: ListTasksRequest) -> Seq<char> {
    crypto::content_digest_of(text::utf8(query_text(request)))
}

/// Accepts a listing request and gives its page size and the digest of its query.
pub fn validate_snapshot_request(request: &ListTasksRequest) -> (r: Result<(i32, String), Fault>)
    ensures
        match r {
            Err(e) => if request.history_length matches Some(n) && !(0 <= n <= 100) {
                e == Fault::HistoryLengthOutOfRange
            } else {
                e == Fault::PageSizeOutOfRange && !(1 <= requested_page_size(*request) <= 100)
            },
            Ok(accepted) => {
                &&& request.history_length matches Some(n) ==> 0 <= n <= 100
                &&& 1 <= requested_page_size(*request) <= 100
                &&& accepted.0 == requested_page_size(*request)
                &&& accepted.1@ == query_digest_of(*request)
            },
        },
        r is Ok <==> (request.history_length is Some ==> 0 <= request.history_length->0 <= 100) && (request.page_size is Some
            ==> 1 <= request.page_size->0 <= 100),
        r matches Ok(accepted) ==> 1 <= accepted.0 <= 100,
        request.page_size is Some ==> (r matches Ok(accepted) ==> accepted.0 == request.page_size->0),
        request.page_size is None ==> (r matches Ok(accepted) ==> accepted.0 == 50),
{
    if let Some(n) = request.history_length {
        if n < 0 || n > 100 {
            return Err(Fault::HistoryLengthOutOfRange);
        }
    }
    let page_size: i32 = match request.page_size {
        Some(n) => n,
        None => 50,
    };
    if page_size < 1 || page_size > 100 {
        return Err(Fault::PageSizeOutOfRange);
    }
    match query_key(request) {
        Some(key) => Ok((page_size, crypto::text_digest(key.as_str()))),
        None => Err(Fault::ListNormalizationFailed),
    }
}

/// Requests whose queries have one text list the same: the same context, states,
/// times, history and artifacts, in pages of one size.
pub proof fn law_queries_have_their_own_texts(a: ListTasksRequest, b: ListTasksRequest)
    requires
        query_text(a) == query_text(b),
    ensures
        text::opt_text(a.context_id) == text::opt_text(b.context_id),
        a.history_length == b.history_length,
        asks_for_artifacts(a) == asks_for_artifacts(b),
        requested_page_size(a) == requested_page_size(b),
        a.status == b.status,
        asked_after(a) == asked_after(b),
{
    reveal_strlit(",\"historyLength\":");
    reveal_strlit(",\"includeArtifacts\":");
    reveal_strlit(",\"pageSize\":");
    reveal_strlit(",\"projectionVersion\":1,\"status\":");
    reveal_strlit("true");
    reveal_strlit("false");
    reveal_strlit("null");
    let k1 = "{\"contextId\":"@;
    let k2 = ",\"historyLength\":"@;
    let k3 = ",\"includeArtifacts\":"@;
    let k4 = ",\"pageSize\":"@;
    let k5 = ",\"projectionVersion\":1,\"status\":"@;
    let k6 = ",\"statusTimestampAfter\":"@;
    let time_a = json::json_opt_string(asked_after(a)) + "}"@;
    let time_b = json::json_opt_string(asked_after(b)) + "}"@;
    let state_a = json_opt_state(a.status) + (k6 + time_a);
    let state_b = json_opt_state(b.status) + (k6 + time_b);
    let size_a = json::json_opt_number(Some(requested_page_size(a) as i64)) + (k5 + state_a);
    let size_b = json::json_opt_number(Some(requested_page_size(b) as i64)) + (k5 + state_b);
    let shown_a = json::json_bool(asks_for_artifacts(a)) + (k4 + size_a);
    let shown_b = json::json_bool(asks_for_artifacts(b)) + (k4 + size_b);
    let history_a = json::json_opt_number(wide(a.history_length)) + (k3 + shown_a);
    let history_b = json::json_opt_number(wide(b.history_length)) + (k3 + shown_b);
    let context_a = json::json_opt_string(text::opt_text(a.context_id)) + (k2 + history_a);
    let context_b = json::json_opt_string(text::opt_text(b.context_id)) + (k2 + history_b);
    json::lemma_same_rest(k1, k1, context_a, context_b);
    json::lemma_json_opt_string_unique(
        text::opt_text(a.context_id),
        text::opt_text(b.context_id),
        k2 + history_a,
        k2 + history_b,
    );
    json::lemma_same_rest(k2, k2, history_a, history_b);
    assert(k3 + shown_a =~= seq![','] + (k3.drop_first() + shown_a));
    assert(k3 + shown_b =~= seq![','] + (k3.drop_first() + shown_b));
    json::lemma_json_opt_number_unique(
        wide(a.history_length),
        wide(b.history_length),
        k3.drop_first() + shown_a,
        k3.drop_first() + shown_b,
    );
    json::lemma_same_rest(k3.drop_first(), k3.drop_first(), shown_a, shown_b);
    assert(shown_a[0] == json::json_bool(asks_for_artifacts(a))[0]);
    assert(shown_b[0] == json::json_bool(asks_for_artifacts(b))[0]);
    assert(asks_for_artifacts(a) == asks_for_artifacts(b));
    json::lemma_same_rest(
        json::json_bool(asks_for_artifacts(a)),
        json::json_bool(asks_for_artifacts(b)),
        k4 + size_a,
        k4 + size_b,
    );
    json::lemma_same_rest(k4, k4, size_a, size_b);
    assert(k5 + state_a =~= seq![','] + (k5.drop_first() + state_a));
    assert(k5 + state_b =~= seq![','] + (k5.drop_first() + state_b));
    json::lemma_json_opt_number_unique(
        Some(requested_page_size(a) as i64),
        Some(requested_page_size(b) as i64),
        k5.drop_first() + state_a,
        k5.drop_first() + state_b,
    );
    json::lemma_same_rest(k5.drop_first(), k5.drop_first(), state_a, state_b);
    lemma_json_opt_state_unique(a.status, b.status, k6 + time_a, k6 + time_b);
    json::lemma_same_rest(k6, k6, time_a, time_b);
    json::lemma_json_opt_string_unique(asked_after(a), asked_after(b), "}"@, "}"@);
}

proof fn lemma_json_opt_state_unique(a: Option<TaskState>, b: Option<TaskState>, x: Seq<char>, y: Seq<char>)
    requires
        json_opt_state(a) + x == json_opt_state(b) + y,
    ensures
        a == b,
        x == y,
{
    reveal_strlit("null");
    let l = json_opt_state(a) + x;
    let r = json_opt_state(b) + y;
    if a is Some && b is Some {
        task::lemma_state_text_unique(a->0, b->0, x, y);
    } else if a is None && b is None {
        json::lemma_same_rest("null"@, "null"@, x, y);
    } else {
        if a is Some {
            task::lemma_state_text_quotes(a->0);
        } else {
            task::lemma_state_text_quotes(b->0);
        }
        assert(l[0] == json_opt_state(a)[0]);
        assert(r[0] == json_opt_state(b)[0]);
        assert(false);
    }
}

/// The history that a listing shows: the last messages, as many as asked for.
pub open spec fn listed_history(
    history: Option<Seq<task::MessageView>>,
    length: Option<i32>,
) -> Option<Seq<task::MessageView>> {
    match length {
        Some(n) => if n == 0 {
            None
        } else if n > 0 && history is Some && history->0.len() > n {
            Some(history->0.subrange(history->0.len() - n, history->0.len() as int))
        } else {
            history
        },
        None => history,
    }
}

/// A task as a listing shows it.
pub open spec fn listed_task(t: task::TaskView, request: ListTasksRequest) -> task::TaskView {
    task::TaskView {
        artifacts: if asks_for_artifacts(request) { t.artifacts } else { None },
        history: listed_history(t.history, request.history_length),
        ..t
    }
}

/// Reduces a task to what a listing shows of it.
pub fn project_snapshot_task(t: Task, request: &ListTasksRequest) -> (r: Task)
    ensures
        r@ == listed_task(t@, *request),
{
    let mut shown = t;
    let show_artifacts = match request.include_artifacts {
        Some(value) => value,
        None => false,
    };
    if !show_artifacts {
        shown.artifacts = None;
    }
    if let Some(n) = request.history_length {
        if n == 0 {
            shown.history = None;
        } else if n > 0 {
            let history = shown.history.take();
            if let Some(items) = history {
                let limit: usize = n as usize;
                if items.len() > limit {
                    let kept = task::last_messages(&items, limit);
                    shown.history = Some(kept);
                } else {
                    shown.history = Some(items);
                }
            }
        }
    }
    shown
}

/// A listing that asks for the last `n` messages of a history shows exactly the last `n` of
/// them in order, and all of them where there are no more than `n`. A listing that asks for
/// none shows no history, and one that does not say, or asks for a negative number, shows
/// it as it is stored. A task without a history is shown without one.
pub proof fn law_listed_histories_end_with_the_last_messages(t: task::TaskView, request: ListTasksRequest)
    ensures
        request.history_length == Some(0i32) ==> listed_task(t, request).history is None,
        request.history_length is None || request.history_length->0 < 0 ==> listed_task(t, request).history
            == t.history,
        t.history is None ==> listed_task(t, request).history is None,
        request.history_length is Some && request.history_length->0 > 0 && t.history is Some ==> {
            let n = request.history_length->0 as int;
            let k = t.history->0.len() as int;
            let m = if n < k { n } else { k };
            let shown = listed_task(t, request).history;
            &&& shown is Some
            &&& shown->0.len() == m
            &&& forall|j: int| 0 <= j < m ==> #[trigger] shown->0[j] == t.history->0[k - m + j]
            &&& k <= n ==> shown->0 == t.history->0
        },
{
}

/// A listing shows the artifacts of a task exactly where they are asked for, and never
/// changes who the task is, the status that it reports or its metadata.
pub proof fn law_listed_tasks_keep_their_identity(t: task::TaskView, request: ListTasksRequest)
    ensures
        listed_task(t, request).id == t.id,
        listed_task(t, request).context_id == t.context_id,
        listed_task(t, request).status == t.status,
        listed_task(t, request).metadata == t.metadata,
        request.include_artifacts == Some(true) ==> listed_task(t, request).artifacts == t.artifacts,
        request.include_artifacts != Some(true) ==> listed_task(t, request).artifacts is None,
{
}

/// A visible task as it is stored; `task` is absent where the record cannot be
/// read.
pub struct ListedRow {
    pub task_id: String,
    pub task: Option<Task>,
}

/// Whether a stored task can be listed: it can be read, under its own id.
pub open spec fn listable(row: ListedRow) -> bool {
    row.task is Some && row.task->0.id@ == row.task_id@
}

/// Reduces the visible tasks to what a listing shows of them, in their order. One
/// record that cannot be listed refuses the whole listing.
pub fn freeze_tasks(rows: Vec<ListedRow>, request: &ListTasksRequest) -> (r: Result<Vec<Task>, Fault>)
    ensures
        match r {
            Err(e) => e == Fault::PersistentTaskCorrupt && exists|i: int|
                0 <= i < rows@.len() && !listable(#[trigger] rows@[i]),
            Ok(tasks) => {
                &&& tasks@.len() == rows@.len()
                &&& forall|i: int|
                    0 <= i < rows@.len() ==> listable(#[trigger] rows@[i]) && tasks@[i]@ == listed_task(
                        rows@[i].task->0@,
                        *request,
                    )
            },
        },
{
    let mut out: Vec<Task> = Vec::new();
    let mut i: usize = 0;
    while i < rows.len()
        invariant
            i <= rows@.len(),
            out@.len() == i,
            forall|j: int|
                0 <= j < i ==> listable(#[trigger] rows@[j]) && out@[j]@ == listed_task(rows@[j].task->0@, *request),
        decreases rows@.len() - i,
    {
        match &rows[i].task {
            Some(t) => {
                if !text::same_text(t.id.as_str(), rows[i].task_id.as_str()) {
                    assert(!listable(rows@[i as int]));
                    return Err(Fault::PersistentTaskCorrupt);
                }
                out.push(project_snapshot_task(t.copy(), request));
            },
            None => {
                assert(!listable(rows@[i as int]));
                return Err(Fault::PersistentTaskCorrupt);
            },
        }
        i += 1;
    }
    Ok(out)
}

/// One entry of a snapshot's seal.
pub struct SealEntry {
    pub ordinal: i64,
    pub task_id: String,
    pub revision: i64,
    pub digest: String,
}

/// The bytes that a snapshot's entries contribute to its seal.
pub open spec fn seal_bytes(entries: Seq<SealEntry>) -> Seq<u8>
    decreases entries.len(),
{
    if entries.len() == 0 {
        Seq::empty()
    } else {
        let e = entries.last();
        seal_bytes(entries.drop_last()) + (text::be_i64(e.ordinal) + text::framed(text::utf8(e.task_id@))
            + text::be_i64(e.revision) + text::framed(text::utf8(e.digest@)))
    }
}

/// What describes a snapshot beside its entries.
pub struct SnapshotHeader {
    pub snapshot_id: Vec<u8>,
    pub scope_digest: String,
    pub query_digest: String,
    pub total: i64,
    pub page_size: i64,
    pub issued_at: i64,
    pub expires_at: i64,
    pub projection_version: i64,
    pub frozen_bytes: i64,
}

/// The bytes that seal a snapshot.
pub open spec fn snapshot_seal_input(h: SnapshotHeader, entries: Seq<SealEntry>) -> Seq<u8> {
    text::utf8("smesh-list-snapshot-metadata-v1\0"@) + text::framed(h.snapshot_id@) + text::framed(
        text::utf8(h.scope_digest@),
    ) + text::framed(text::utf8(h.query_digest@)) + text::be_i64(h.total) + text::be_i64(h.page_size)
        + text::be_i64(h.issued_at) + text::be_i64(h.expires_at) + text::be_i64(h.projection_version)
        + text::be_i64(h.frozen_bytes) + text::be_i64(PAGE_TOKEN_VERSION) + text::be_i64(
        PAGE_TOKEN_KEY_GENERATION,
    ) + seal_bytes(entries)
}

/// The seal of a snapshot under the cursor key.
pub open spec fn snapshot_seal(key: Seq<u8>, h: SnapshotHeader, entries: Seq<SealEntry>) -> Seq<u8> {
    crypto::hmac_sha256_of(key, snapshot_seal_input(h, entries))
}

proof fn lemma_regroup(a: Seq<u8>, b: Seq<u8>, c: Seq<u8>)
    ensures
        (a + b) + c == a + (b + c),
{
    assert((a + b) + c =~= a + (b + c));
}

proof fn lemma_same_lead(lead: Seq<u8>, a: Seq<u8>, b: Seq<u8>)
    requires
        lead + a == lead + b,
    ensures
        a == b,
{
    assert((lead + a).skip(lead.len() as int) =~= a);
    assert((lead + b).skip(lead.len() as int) =~= b);
}

/// Twelve parts joined from the left are the same parts joined from the right.
proof fn lemma_twelve_parts(
    lead: Seq<u8>,
    p1: Seq<u8>,
    p2: Seq<u8>,
    p3: Seq<u8>,
    p4: Seq<u8>,
    p5: Seq<u8>,
    p6: Seq<u8>,
    p7: Seq<u8>,
    p8: Seq<u8>,
    p9: Seq<u8>,
    p10: Seq<u8>,
    p11: Seq<u8>,
    p12: Seq<u8>,
)
    ensures
        lead + p1 + p2 + p3 + p4 + p5 + p6 + p7 + p8 + p9 + p10 + p11 + p12 == lead + (p1 + (p2 + (p3 + (p4 + (p5 + (p6
            + (p7 + (p8 + (p9 + (p10 + (p11 + p12))))))))))),
{
    let q1 = lead + p1;
    let q2 = q1 + p2;
    let q3 = q2 + p3;
    let q4 = q3 + p4;
    let q5 = q4 + p5;
    let q6 = q5 + p6;
    let q7 = q6 + p7;
    let q8 = q7 + p8;
    let q9 = q8 + p9;
    let q10 = q9 + p10;
    let r11 = p11 + p12;
    let r10 = p10 + r11;
    let r9 = p9 + r10;
    let r8 = p8 + r9;
    let r7 = p7 + r8;
    let r6 = p6 + r7;
    let r5 = p5 + r6;
    let r4 = p4 + r5;
    let r3 = p3 + r4;
    let r2 = p2 + r3;
    lemma_regroup(q10, p11, p12);
    lemma_regroup(q9, p10, r11);
    lemma_regroup(q8, p9, r10);
    lemma_regroup(q7, p8, r9);
    lemma_regroup(q6, p7, r8);
    lemma_regroup(q5, p6, r7);
    lemma_regroup(q4, p5, r6);
    lemma_regroup(q3, p4, r5);
    lemma_regroup(q2, p3, r4);
    lemma_regroup(q1, p2, r3);
    lemma_regroup(lead, p1, r2);
}

/// The seal covers the whole header of a snapshot: two snapshots that are sealed over the same
/// bytes have the same id, scope, query, total, page size, times, projection and size, and the
/// same bytes of entries.
pub proof fn law_seals_cover_the_header(
    a: SnapshotHeader,
    a_entries: Seq<SealEntry>,
    b: SnapshotHeader,
    b_entries: Seq<SealEntry>,
)
    requires
        snapshot_seal_input(a, a_entries) == snapshot_seal_input(b, b_entries),
        a.snapshot_id@.len() <= u64::MAX,
        b.snapshot_id@.len() <= u64::MAX,
        text::utf8(a.scope_digest@).len() <= u64::MAX,
        text::utf8(b.scope_digest@).len() <= u64::MAX,
        text::utf8(a.query_digest@).len() <= u64::MAX,
        text::utf8(b.query_digest@).len() <= u64::MAX,
    ensures
        a.snapshot_id@ == b.snapshot_id@,
        a.scope_digest@ == b.scope_digest@,
        a.query_digest@ == b.query_digest@,
        a.total == b.total,
        a.page_size == b.page_size,
        a.issued_at == b.issued_at,
        a.expires_at == b.expires_at,
        a.projection_version == b.projection_version,
        a.frozen_bytes == b.frozen_bytes,
        seal_bytes(a_entries) == seal_bytes(b_entries),
{
    let lead = text::utf8("smesh-list-snapshot-metadata-v1\0"@);
    let a8 = text::be_i64(PAGE_TOKEN_VERSION) + (text::be_i64(PAGE_TOKEN_KEY_GENERATION) + seal_bytes(a_entries));
    let b8 = text::be_i64(PAGE_TOKEN_VERSION) + (text::be_i64(PAGE_TOKEN_KEY_GENERATION) + seal_bytes(b_entries));
    let a7 = text::be_i64(a.frozen_bytes) + a8;
    let b7 = text::be_i64(b.frozen_bytes) + b8;
    let a6 = text::be_i64(a.projection_version) + a7;
    let b6 = text::be_i64(b.projection_version) + b7;
    let a5 = text::be_i64(a.expires_at) + a6;
    let b5 = text::be_i64(b.expires_at) + b6;
    let a4 = text::be_i64(a.issued_at) + a5;
    let b4 = text::be_i64(b.issued_at) + b5;
    let a3 = text::be_i64(a.page_size) + a4;
    let b3 = text::be_i64(b.page_size) + b4;
    let a2 = text::be_i64(a.total) + a3;
    let b2 = text::be_i64(b.total) + b3;
    let a1 = text::framed(text::utf8(a.query_digest@)) + a2;
    let b1 = text::framed(text::utf8(b.query_digest@)) + b2;
    let a0 = text::framed(text::utf8(a.scope_digest@)) + a1;
    let b0 = text::framed(text::utf8(b.scope_digest@)) + b1;
    lemma_twelve_parts(
        lead,
        text::framed(a.snapshot_id@),
        text::framed(text::utf8(a.scope_digest@)),
        text::framed(text::utf8(a.query_digest@)),
        text::be_i64(a.total),
        text::be_i64(a.page_size),
        text::be_i64(a.issued_at),
        text::be_i64(a.expires_at),
        text::be_i64(a.projection_version),
        text::be_i64(a.frozen_bytes),
        text::be_i64(PAGE_TOKEN_VERSION),
        text::be_i64(PAGE_TOKEN_KEY_GENERATION),
        seal_bytes(a_entries),
    );
    lemma_twelve_parts(
        lead,
        text::framed(b.snapshot_id@),
        text::framed(text::utf8(b.scope_digest@)),
        text::framed(text::utf8(b.query_digest@)),
        text::be_i64(b.total),
        text::be_i64(b.page_size),
        text::be_i64(b.issued_at),
        text::be_i64(b.expires_at),
        text::be_i64(b.projection_version),
        text::be_i64(b.frozen_bytes),
        text::be_i64(PAGE_TOKEN_VERSION),
        text::be_i64(PAGE_TOKEN_KEY_GENERATION),
        seal_bytes(b_entries),
    );
    lemma_same_lead(lead, text::framed(a.snapshot_id@) + a0, text::framed(b.snapshot_id@) + b0);
    text::lemma_framed_prefix(a.snapshot_id@, b.snapshot_id@, a0, b0);
    text::lemma_framed_prefix(text::utf8(a.scope_digest@), text::utf8(b.scope_digest@), a1, b1);
    text::lemma_framed_prefix(text::utf8(a.query_digest@), text::utf8(b.query_digest@), a2, b2);
    text::lemma_utf8_injective(a.scope_digest@, b.scope_digest@);
    text::lemma_utf8_injective(a.query_digest@, b.query_digest@);
    text::lemma_signed_prefix(a.total, b.total, a3, b3);
    text::lemma_signed_prefix(a.page_size, b.page_size, a4, b4);
    text::lemma_signed_prefix(a.issued_at, b.issued_at, a5, b5);
    text::lemma_signed_prefix(a.expires_at, b.expires_at, a6, b6);
    text::lemma_signed_prefix(a.projection_version, b.projection_version, a7, b7);
    text::lemma_signed_prefix(a.frozen_bytes, b.frozen_bytes, a8, b8);
    text::lemma_signed_prefix(
        PAGE_TOKEN_VERSION,
        PAGE_TOKEN_VERSION,
        text::be_i64(PAGE_TOKEN_KEY_GENERATION) + seal_bytes(a_entries),
        text::be_i64(PAGE_TOKEN_KEY_GENERATION) + seal_bytes(b_entries),
    );
    text::lemma_signed_prefix(
        PAGE_TOKEN_KEY_GENERATION,
        PAGE_TOKEN_KEY_GENERATION,
        seal_bytes(a_entries),
        seal_bytes(b_entries),
    );
}

/// The seal covers every part of an entry, and the entries one after the other: entries that
/// are sealed over the same bytes have the same place, task, revision and digest, and a run of
/// entries is sealed as its parts are.
pub proof fn law_seals_cover_every_entry(a: SealEntry, b: SealEntry, first: Seq<SealEntry>, second: Seq<SealEntry>)
    requires
        text::utf8(a.task_id@).len() <= u64::MAX,
        text::utf8(b.task_id@).len() <= u64::MAX,
        text::utf8(a.digest@).len() <= u64::MAX,
        text::utf8(b.digest@).len() <= u64::MAX,
    ensures
        seal_bytes(seq![a]) == seal_bytes(seq![b]) ==> a.ordinal == b.ordinal && a.task_id@ == b.task_id@ && a.revision
            == b.revision && a.digest@ == b.digest@,
        seal_bytes(first + second) == seal_bytes(first) + seal_bytes(second),
    decreases second.len(),
{
    let a2 = text::be_i64(a.revision) + (text::framed(text::utf8(a.digest@)) + Seq::<u8>::empty());
    let b2 = text::be_i64(b.revision) + (text::framed(text::utf8(b.digest@)) + Seq::<u8>::empty());
    let a1 = text::framed(text::utf8(a.task_id@)) + a2;
    let b1 = text::framed(text::utf8(b.task_id@)) + b2;
    assert(seq![a].drop_last() =~= Seq::<SealEntry>::empty());
    assert(seq![b].drop_last() =~= Seq::<SealEntry>::empty());
    assert(seal_bytes(seq![a].drop_last()) =~= Seq::<u8>::empty());
    assert(seal_bytes(seq![b].drop_last()) =~= Seq::<u8>::empty());
    assert(seal_bytes(seq![a]) =~= text::be_i64(a.ordinal) + a1);
    assert(seal_bytes(seq![b]) =~= text::be_i64(b.ordinal) + b1);
    if seal_bytes(seq![a]) == seal_bytes(seq![b]) {
        text::lemma_signed_prefix(a.ordinal, b.ordinal, a1, b1);
        text::lemma_framed_prefix(text::utf8(a.task_id@), text::utf8(b.task_id@), a2, b2);
        text::lemma_signed_prefix(
            a.revision,
            b.revision,
            text::framed(text::utf8(a.digest@)) + Seq::<u8>::empty(),
            text::framed(text::utf8(b.digest@)) + Seq::<u8>::empty(),
        );
        text::lemma_framed_prefix(text::utf8(a.digest@), text::utf8(b.digest@), Seq::empty(), Seq::empty());
        text::lemma_utf8_injective(a.task_id@, b.task_id@);
        text::lemma_utf8_injective(a.digest@, b.digest@);
    }
    if second.len() == 0 {
        assert(first + second =~= first);
        assert(seal_bytes(first) + seal_bytes(second) =~= seal_bytes(first));
    } else {
        law_seals_cover_every_entry(a, b, first, second.drop_last());
        assert((first + second).drop_last() =~= first + second.drop_last());
        assert((first + second).last() == second.last());
        assert(seal_bytes(first + second) =~= seal_bytes(first) + seal_bytes(second));
    }
}

/// Appends the seal contribution of the entries.
fn push_seal_entries(input: &mut Vec<u8>, entries: &Vec<SealEntry>)
    ensures
        final(input)@ == old(input)@ + seal_bytes(entries@),
{
    let ghost start = input@;
    let mut i: usize = 0;
    assert(entries@.subrange(0, 0) =~= Seq::<SealEntry>::empty());
    assert(start + seal_bytes(entries@.subrange(0, 0)) =~= start);
    while i < entries.len()
        invariant
            i <= entries@.len(),
            input@ == start + seal_bytes(entries@.subrange(0, i as int)),
        decreases entries@.len() - i,
    {
        let ghost before = input@;
        let e = &entries[i];
        text::push_be_i64(input, e.ordinal);
        text::push_len(input, e.task_id.as_str().as_bytes());
        text::push_be_i64(input, e.revision);
        text::push_len(input, e.digest.as_str().as_bytes());
        proof {
            let step = entries@.subrange(0, i + 1);
            assert(step.drop_last() =~= entries@.subrange(0, i as int));
            assert(step.last() == entries@[i as int]);
            assert(input@ =~= start + seal_bytes(step));
        }
        i += 1;
    }
    assert(entries@.subrange(0, i as int) =~= entries@);
}

/// Seals a snapshot.
pub fn snapshot_metadata_digest(key: &[u8; 32], h: &SnapshotHeader, entries: &Vec<SealEntry>) -> (r: [u8; 32])
    ensures
        r@ == snapshot_seal(key@, *h, entries@),
{
    let mut input: Vec<u8> = text::copy_bytes("smesh-list-snapshot-metadata-v1\0".as_bytes());
    text::push_len(&mut input, h.snapshot_id.as_slice());
    text::push_len(&mut input, h.scope_digest.as_str().as_bytes());
    text::push_len(&mut input, h.query_digest.as_str().as_bytes());
    text::push_be_i64(&mut input, h.total);
    text::push_be_i64(&mut input, h.page_size);
    text::push_be_i64(&mut input, h.issued_at);
    text::push_be_i64(&mut input, h.expires_at);
    text::push_be_i64(&mut input, h.projection_version);
    text::push_be_i64(&mut input, h.frozen_bytes);
    text::push_be_i64(&mut input, PAGE_TOKEN_VERSION);
    text::push_be_i64(&mut input, PAGE_TOKEN_KEY_GENERATION);
    push_seal_entries(&mut input, entries);
    assert(input@ =~= snapshot_seal_input(*h, entries@));
    crypto::hmac_sha256(key.as_slice(), input.as_slice())
}

/// The secret behind the token of one page.
pub open spec fn page_secret(key: Seq<u8>, snapshot_id: Seq<u8>, position: i64, metadata: Seq<u8>) -> Seq<u8> {
    crypto::hmac_sha256_of(
        key,
        text::utf8("smesh-list-tasks-page-v1\0"@) + text::be_i64(PAGE_TOKEN_VERSION) + text::be_i64(
            PAGE_TOKEN_KEY_GENERATION,
        ) + text::framed(snapshot_id) + text::be_i64(position) + metadata,
    )
}

/// The token that stands for a page.
pub struct PageToken {
    pub token: String,
    pub hash: [u8; 32],
}

/// Derives the token of the page at a position, and the hash under which the
/// store finds it. The token itself is never stored.
pub fn derive_page_token(key: &[u8; 32], snapshot_id: &[u8], position: i64, metadata: &[u8; 32]) -> (r: PageToken)
    ensures
        r.token@ == crypto::base64url_of(page_secret(key@, snapshot_id@, position, metadata@)),
        r.hash@ == crypto::sha256_of(page_secret(key@, snapshot_id@, position, metadata@)),
        page_token_hash(r.token@) == Some(r.hash@),
        r.token@.len() > 0,
{
    let mut input: Vec<u8> = text::copy_bytes("smesh-list-tasks-page-v1\0".as_bytes());
    text::push_be_i64(&mut input, PAGE_TOKEN_VERSION);
    text::push_be_i64(&mut input, PAGE_TOKEN_KEY_GENERATION);
    text::push_len(&mut input, snapshot_id);
    text::push_be_i64(&mut input, position);
    text::push_bytes(&mut input, metadata.as_slice());
    let raw: [u8; 32] = crypto::hmac_sha256(key.as_slice(), input.as_slice());
    assert(raw@.len() == 32);
    let token = crypto::base64url(raw.as_slice());
    let hash: [u8; 32] = crypto::sha256(raw.as_slice());
    proof {
        assert forall|i: int| 0 <= i < token@.len() implies '\0' <= #[trigger] token@[i] <= '\u{7f}' by {
            assert(crypto::is_base64url_char(token@[i]));
        }
        assert(is_ascii_chars(token@));
        is_ascii_chars_encode_utf8(token@);
    }
    PageToken { token, hash }
}

/// The hash that a page token is looked up by, where it has the form of one.
pub open spec fn page_token_hash(token: Seq<char>) -> Option<Seq<u8>> {
    if text::utf8(token).len() > MAX_PAGE_TOKEN_BYTES {
        None
    } else {
        match crypto::base64url_decoded(token) {
            Some(raw) => if raw.len() == 32 {
                Some(crypto::sha256_of(raw))
            } else {
                None
            },
            None => None,
        }
    }
}

/// A page token is looked up exactly where it takes at most 4096 bytes and decodes to thirty-two
/// of them.
pub proof fn law_page_tokens_hold_thirty_two_bytes(token: Seq<char>)
    ensures
        page_token_hash(token) is Some <==> text::utf8(token).len() <= 4096 && crypto::base64url_decoded(token) is Some
            && crypto::base64url_decoded(token)->0.len() == 32,
        page_token_hash(token) is Some ==> page_token_hash(token)->0 == crypto::sha256_of(
            crypto::base64url_decoded(token)->0,
        ),
{
}

/// Checks the form of a page token and gives the hash that it is looked up by.
pub fn decode_page_token_hash(token: &str) -> (r: Result<[u8; 32], Fault>)
    ensures
        match r {
            Ok(hash) => page_token_hash(token@) == Some(hash@),
            Err(e) => page_token_hash(token@) is None && e == Fault::InvalidPageToken,
        },
{
    if text::byte_len(token) > MAX_PAGE_TOKEN_BYTES {
        return Err(Fault::InvalidPageToken);
    }
    match crypto::base64url_decode(token) {
        Some(raw) => page_hash_of(raw),
        None => Err(Fault::InvalidPageToken),
    }
}

/// The lookup hash of the bytes that a page token decoded to.
pub fn page_hash_of(raw: Vec<u8>) -> (r: Result<[u8; 32], Fault>)
    ensures
        match r {
            Ok(hash) => raw@.len() == 32 && hash@ == crypto::sha256_of(raw@),
            Err(e) => raw@.len() != 32 && e == Fault::InvalidPageToken,
        },
{
    if raw.len() != 32 {
        return Err(Fault::InvalidPageToken);
    }
    Ok(crypto::sha256(raw.as_slice()))
}

/// A stored page token with the snapshot that it belongs to.
pub struct PageRow {
    pub header: SnapshotHeader,
    pub next_position: i64,
    pub token_version: i64,
    pub key_generation: i64,
    pub metadata_digest: Vec<u8>,
    pub owner_account_id: String,
}

/// What the caller of a page must agree with.
pub struct PageExpectation {
    pub scope_digest: String,
    pub query_digest: String,
    pub owner: String,
    pub page_size: i64,
    pub now: i64,
}

/// Whether a stored page token may be used by this caller now.
pub open spec fn page_row_usable(row: PageRow, e: PageExpectation) -> bool {
    let h = row.header;
    &&& h.scope_digest@ == e.scope_digest@
    &&& h.query_digest@ == e.query_digest@
    &&& row.owner_account_id@ == e.owner@
    &&& row.token_version == PAGE_TOKEN_VERSION
    &&& row.key_generation == PAGE_TOKEN_KEY_GENERATION
    &&& 0 <= h.issued_at <= e.now
    &&& h.expires_at == h.issued_at + SNAPSHOT_TTL_MILLIS
    &&& e.now < h.expires_at
    &&& 0 < row.next_position < h.total
    &&& (row.next_position as int) % (e.page_size as int) == 0
    &&& h.page_size == e.page_size
    &&& h.projection_version == 1
    &&& 0 <= h.frozen_bytes
    &&& row.metadata_digest@.len() == 32
}

/// Whether the entries of a snapshot are complete, in order and sealed.
pub open spec fn entries_sealed(key: Seq<u8>, row: PageRow, entries: Seq<SealEntry>) -> bool {
    &&& entries.len() == row.header.total
    &&& forall|i: int| 0 <= i < entries.len() ==> (#[trigger] entries[i]).ordinal == i
    &&& row.metadata_digest@ == snapshot_seal(key, row.header, entries)
}

/// A stored page token is usable only by its owner, for its own scope, query and page size, from
/// the time it was issued on for five minutes, and only where it stands within its listing at
/// the start of a page.
pub proof fn law_page_tokens_serve_their_owner_for_five_minutes(row: PageRow, e: PageExpectation)
    ensures
        page_row_usable(row, e) <==> {
            &&& row.header.scope_digest@ == e.scope_digest@
            &&& row.header.query_digest@ == e.query_digest@
            &&& row.owner_account_id@ == e.owner@
            &&& row.header.page_size == e.page_size
            &&& row.token_version == 1
            &&& row.key_generation == 1
            &&& row.header.projection_version == 1
            &&& row.header.issued_at >= 0
            &&& row.header.issued_at <= e.now < row.header.issued_at + 300_000
            &&& row.header.expires_at - row.header.issued_at == 300_000
            &&& 1 <= row.next_position <= row.header.total - 1
            &&& row.next_position as int % e.page_size as int == 0
            &&& row.header.frozen_bytes >= 0
            &&& row.metadata_digest@.len() == 32
        },
{
}

/// The entries of a snapshot are accepted only all together, each at its own place, under the
/// seal of the snapshot.
pub proof fn law_accepted_entries_are_complete(key: Seq<u8>, row: PageRow, entries: Seq<SealEntry>)
    ensures
        entries_sealed(key, row, entries) ==> entries.len() == row.header.total && row.metadata_digest@
            == snapshot_seal(key, row.header, entries),
        entries_sealed(key, row, entries) ==> forall|i: int|
            0 <= i < entries.len() ==> (#[trigger] entries[i]).ordinal == i,
        snapshot_seal(key, row.header, entries) == crypto::hmac_sha256_of(key, snapshot_seal_input(row.header, entries)),
{
}

/// Checks a stored page token against its caller and the seal of its snapshot.
pub fn check_page(key: &[u8; 32], row: &PageRow, e: &PageExpectation, entries: &Vec<SealEntry>) -> (r: Result<
    (),
    Fault,
>)
    requires
        1 <= e.page_size,
    ensures
        r == (if page_row_usable(*row, *e) && entries_sealed(key@, *row, entries@) {
            Ok::<(), Fault>(())
        } else {
            Err(Fault::InvalidPageToken)
        }),
{
    let h = &row.header;
    let expected_expiry: Option<i64> = h.issued_at.checked_add(SNAPSHOT_TTL_MILLIS);
    if h.scope_digest != e.scope_digest || h.query_digest != e.query_digest || row.owner_account_id != e.owner
        || row.token_version != PAGE_TOKEN_VERSION || row.key_generation != PAGE_TOKEN_KEY_GENERATION
        || h.issued_at < 0 || h.issued_at > e.now || expected_expiry != Some(h.expires_at) || h.expires_at
        <= e.now || row.next_position <= 0 || row.next_position >= h.total || row.next_position % e.page_size
        != 0 || h.page_size != e.page_size || h.projection_version != 1 || h.frozen_bytes < 0
        || row.metadata_digest.len() != 32 {
        return Err(Fault::InvalidPageToken);
    }
    let n: usize = entries.len();
    if n as u128 != h.total as u128 {
        return Err(Fault::InvalidPageToken);
    }
    let mut i: usize = 0;
    while i < entries.len()
        invariant
            i <= entries@.len(),
            entries@.len() <= i64::MAX,
            forall|j: int| 0 <= j < i ==> (#[trigger] entries@[j]).ordinal == j,
        ensures
            i == entries@.len(),
        decreases entries@.len() - i,
    {
        if entries[i].ordinal != i as i64 {
            assert(!entries_sealed(key@, *row, entries@));
            return Err(Fault::InvalidPageToken);
        }
        i += 1;
    }
    let expected: [u8; 32] = snapshot_metadata_digest(key, h, entries);
    if !text::same_bytes(row.metadata_digest.as_slice(), expected.as_slice()) {
        return Err(Fault::InvalidPageToken);
    }
    Ok(())
}

/// One task of a snapshot page. The task is absent where its text is corrupt.
pub struct SnapshotRow {
    pub ordinal: i64,
    pub task_id: String,
    pub task_digest: String,
    pub encoded: String,
    pub task: Option<Task>,
}

/// Whether a row of a page is the one that stands at a position.
pub open spec fn snapshot_row_valid(row: SnapshotRow, position: int) -> bool {
    &&& row.ordinal == position
    &&& row.task_digest@ == crypto::content_digest_of(text::utf8(row.encoded@))
    &&& row.task matches Some(t) && t.id@ == row.task_id@
}

/// The number of tasks on the page at a position.
pub open spec fn page_length(position: int, total: int, size: int) -> int {
    if total - position < size {
        total - position
    } else {
        size
    }
}

/// One page of a listing.
pub struct ListPage {
    pub tasks: Vec<Task>,
    pub next_page_token: String,
    pub page_size: i32,
    pub total_size: i32,
}

/// A total as the response reports it.
pub open spec fn reported_total(total: int) -> int {
    if total > i32::MAX {
        i32::MAX as int
    } else {
        total
    }
}

fn report_total(total: i64) -> (r: i32)
    requires
        0 <= total,
    ensures
        r == reported_total(total as int),
{
    if total > 0x7fff_ffff {
        i32::MAX
    } else {
        total as i32
    }
}

/// The token of the page at a position, or nothing past the end.
pub open spec fn next_token_text(
    key: Seq<u8>,
    snapshot_id: Seq<u8>,
    end: int,
    total: int,
    metadata: Seq<u8>,
) -> Seq<char> {
    if end < total {
        crypto::base64url_of(page_secret(key, snapshot_id, end as i64, metadata))
    } else {
        Seq::empty()
    }
}

/// Whether the rows of a page are complete and valid.
pub open spec fn page_rows_valid(rows: Seq<SnapshotRow>, position: int, total: int, size: int) -> bool {
    &&& rows.len() == page_length(position, total, size)
    &&& forall|i: int| 0 <= i < rows.len() ==> snapshot_row_valid(#[trigger] rows[i], position + i)
}

/// Whether a page is the one that a stored page token stands for, given the rows that
/// were read.
pub open spec fn continued_page(
    page: ListPage,
    key: Seq<u8>,
    row: PageRow,
    e: PageExpectation,
    rows: Seq<SnapshotRow>,
) -> bool {
    let total = row.header.total as int;
    let end = row.next_position + rows.len();
    &&& page_rows_valid(rows, row.next_position as int, total, e.page_size as int)
    &&& page.tasks@.len() == rows.len()
    &&& forall|i: int| 0 <= i < rows.len() ==> (#[trigger] page.tasks@[i])@ == rows[i].task->0@
    &&& page.next_page_token@ == next_token_text(key, row.header.snapshot_id@, end, total, row.metadata_digest@)
    &&& (page.next_page_token@.len() > 0) == (end < total)
    &&& page.page_size == e.page_size
    &&& page.total_size == reported_total(total)
}

/// A page shows the rows that were read for it, each at its place and under its own digest and
/// id, as many as are left of the listing and no more than its size; it reports the total, held
/// at the largest number, and leads on exactly where more tasks follow.
pub proof fn law_continued_pages_show_their_rows(
    page: ListPage,
    key: Seq<u8>,
    row: PageRow,
    e: PageExpectation,
    rows: Seq<SnapshotRow>,
)
    requires
        continued_page(page, key, row, e, rows),
        0 < e.page_size,
        0 < row.next_position < row.header.total,
    ensures
        page.tasks@.len() == rows.len(),
        rows.len() <= e.page_size,
        row.next_position + rows.len() <= row.header.total,
        rows.len() == e.page_size || row.next_position + rows.len() == row.header.total,
        forall|i: int|
            0 <= i < rows.len() ==> (#[trigger] rows[i]).ordinal == row.next_position + i && rows[i].task is Some
                && page.tasks@[i]@ == rows[i].task->0@ && rows[i].task->0.id@ == rows[i].task_id@
                && rows[i].task_digest@ == crypto::content_digest_of(text::utf8(rows[i].encoded@)),
        page.next_page_token@.len() > 0 <==> row.next_position + rows.len() < row.header.total,
        row.header.total <= i32::MAX ==> page.total_size == row.header.total,
        row.header.total > i32::MAX ==> page.total_size == i32::MAX,
        page.page_size == e.page_size,
{
    assert forall|i: int| 0 <= i < rows.len() implies (#[trigger] rows[i]).ordinal == row.next_position + i
        && rows[i].task is Some && page.tasks@[i]@ == rows[i].task->0@ && rows[i].task->0.id@ == rows[i].task_id@
        && rows[i].task_digest@ == crypto::content_digest_of(text::utf8(rows[i].encoded@)) by {
        assert(snapshot_row_valid(rows[i], row.next_position + i));
        assert(page.tasks@[i]@ == rows[i].task->0@);
    }
}

/// The page that a stored page token stands for.
pub fn continue_listing(
    key: &[u8; 32],
    row: &PageRow,
    e: &PageExpectation,
    entries: &Vec<SealEntry>,
    rows: &Vec<SnapshotRow>,
) -> (r: Result<ListPage, Fault>)
    requires
        1 <= e.page_size <= 100,
    ensures
        match r {
            Ok(page) => {
                &&& page_row_usable(*row, *e)
                &&& entries_sealed(key@, *row, entries@)
                &&& continued_page(page, key@, *row, *e, rows@)
            },
            Err(fault) => fault == Fault::InvalidPageToken && !(page_row_usable(*row, *e) && entries_sealed(
                key@,
                *row,
                entries@,
            ) && page_rows_valid(rows@, row.next_position as int, row.header.total as int, e.page_size as int)),
        },
{
    match check_page(key, row, e, entries) {
        Err(fault) => {
            return Err(fault);
        },
        Ok(_) => {},
    }
    let position: i64 = row.next_position;
    let total: i64 = row.header.total;
    let remaining: i64 = total - position;
    let expected: i64 = if remaining < e.page_size {
        remaining
    } else {
        e.page_size
    };
    if rows.len() != expected as usize {
        return Err(Fault::InvalidPageToken);
    }
    let mut tasks: Vec<Task> = Vec::new();
    let mut i: usize = 0;
    while i < rows.len()
        invariant
            i <= rows@.len() == expected,
            expected <= 100,
            position == row.next_position,
            0 < position,
            position + expected <= total,
            tasks@.len() == i,
            forall|j: int| 0 <= j < i ==> snapshot_row_valid(#[trigger] rows@[j], position + j),
            forall|j: int| 0 <= j < i ==> (#[trigger] tasks@[j])@ == rows@[j].task->0@,
        ensures
            i == rows@.len(),
        decreases rows@.len() - i,
    {
        let row_i = &rows[i];
        let digest = crypto::text_digest(row_i.encoded.as_str());
        if row_i.ordinal != position + i as i64 || row_i.task_digest != digest {
            assert(!snapshot_row_valid(rows@[i as int], position + i));
            return Err(Fault::InvalidPageToken);
        }
        match &row_i.task {
            Some(t) => {
                if t.id != row_i.task_id {
                    assert(!snapshot_row_valid(rows@[i as int], position + i));
                    return Err(Fault::InvalidPageToken);
                }
                tasks.push(t.copy());
            },
            None => {
                assert(!snapshot_row_valid(rows@[i as int], position + i));
                return Err(Fault::InvalidPageToken);
            },
        }
        i += 1;
    }
    let end: i64 = position + expected;
    let mut metadata: [u8; 32] = [0;32];
    let mut k: usize = 0;
    while k < 32
        invariant
            k <= 32,
            row.metadata_digest@.len() == 32,
            forall|j: int| 0 <= j < k ==> metadata@[j] == row.metadata_digest@[j],
        ensures
            k == 32,
        decreases 32 - k,
    {
        metadata[k] = row.metadata_digest[k];
        k += 1;
    }
    assert(metadata@ =~= row.metadata_digest@);
    let next_page_token = if end < total {
        derive_page_token(key, row.header.snapshot_id.as_slice(), end, &metadata).token
    } else {
        String::new()
    };
    assert(next_page_token@ =~= next_token_text(
        key@,
        row.header.snapshot_id@,
        end as int,
        total as int,
        row.metadata_digest@,
    ));
    Ok(ListPage { tasks, next_page_token, page_size: e.page_size as i32, total_size: report_total(total) })
}

/// A task that a listing froze: its stored id and revision, its encoded
/// projection and the projection itself.
pub struct FrozenTask {
    pub task_id: String,
    pub revision: i64,
    pub encoded: String,
    pub task: Task,
}

/// The bytes that a run of frozen tasks holds.
pub open spec fn frozen_size(frozen: Seq<FrozenTask>) -> int
    decreases frozen.len(),
{
    if frozen.len() == 0 {
        0
    } else {
        frozen_size(frozen.drop_last()) + text::utf8(frozen.last().encoded@).len()
    }
}

proof fn lemma_frozen_size_prefix(frozen: Seq<FrozenTask>, n: int)
    requires
        0 <= n <= frozen.len(),
    ensures
        0 <= frozen_size(frozen.subrange(0, n)) <= frozen_size(frozen),
    decreases frozen.len() - n,
{
    lemma_frozen_size_nonnegative(frozen.subrange(0, n));
    if n == frozen.len() {
        assert(frozen.subrange(0, n) =~= frozen);
    } else {
        lemma_frozen_size_prefix(frozen, n + 1);
        assert(frozen.subrange(0, n + 1).drop_last() =~= frozen.subrange(0, n));
    }
}

proof fn lemma_frozen_size_nonnegative(frozen: Seq<FrozenTask>)
    ensures
        0 <= frozen_size(frozen),
    decreases frozen.len(),
{
    if frozen.len() > 0 {
        lemma_frozen_size_nonnegative(frozen.drop_last());
    }
}

fn sum_frozen(frozen: &Vec<FrozenTask>) -> (r: Option<i64>)
    ensures
        match r {
            Some(n) => n == frozen_size(frozen@),
            None => frozen_size(frozen@) > i64::MAX,
        },
{
    let mut total: i64 = 0;
    let mut i: usize = 0;
    assert(frozen@.subrange(0, 0) =~= Seq::<FrozenTask>::empty());
    while i < frozen.len()
        invariant
            i <= frozen@.len(),
            total == frozen_size(frozen@.subrange(0, i as int)),
            0 <= total,
        decreases frozen@.len() - i,
    {
        let n: usize = text::byte_len(frozen[i].encoded.as_str());
        proof {
            assert(frozen@.subrange(0, i + 1).drop_last() =~= frozen@.subrange(0, i as int));
            lemma_frozen_size_prefix(frozen@, i + 1);
        }
        let grown: u128 = total as u128 + n as u128;
        if grown > 0x7fff_ffff_ffff_ffff {
            return None;
        }
        total = grown as i64;
        i += 1;
    }
    assert(frozen@.subrange(0, i as int) =~= frozen@);
    Some(total)
}

/// What the tasks of a page show.
pub open spec fn shown(page: ListPage) -> Seq<task::TaskView> {
    Seq::new(page.tasks@.len(), |i: int| page.tasks@[i]@)
}

/// What the tasks of pages show, one page after the other.
pub open spec fn shown_together(pages: Seq<ListPage>) -> Seq<task::TaskView>
    decreases pages.len(),
{
    if pages.len() == 0 {
        Seq::empty()
    } else {
        shown_together(pages.drop_last()) + shown(pages.last())
    }
}

/// What a listing froze.
pub open spec fn frozen_tasks(frozen: Seq<FrozenTask>) -> Seq<task::TaskView> {
    Seq::new(frozen.len(), |i: int| frozen[i].task@)
}

/// Whether a page is the one of a listing at a position: it holds as many tasks as
/// there are left, up to its size, and leads on exactly where there are more.
pub open spec fn page_of(page: ListPage, frozen: Seq<FrozenTask>, position: int, size: int) -> bool {
    let length = page_length(position, frozen.len() as int, size);
    &&& page.tasks@.len() == length
    &&& forall|i: int| 0 <= i < length ==> (#[trigger] page.tasks@[i])@ == frozen[position + i].task@
    &&& page.page_size == size
    &&& page.total_size == reported_total(frozen.len() as int)
    &&& (page.next_page_token@.len() > 0) == (position + length < frozen.len())
}

/// Whether rows hold what a listing froze from a position on, read back as it was
/// written.
pub open spec fn rows_hold(rows: Seq<SnapshotRow>, frozen: Seq<FrozenTask>, position: int) -> bool {
    forall|i: int|
        0 <= i < rows.len() ==> (#[trigger] rows[i]).task is Some && rows[i].task->0@ == frozen[position + i].task@
}

/// The seal entry of a frozen task.
pub open spec fn seals_frozen(entry: SealEntry, ordinal: int, f: FrozenTask) -> bool {
    &&& entry.ordinal == ordinal
    &&& entry.task_id@ == f.task_id@
    &&& entry.revision == f.revision
    &&& entry.digest@ == crypto::content_digest_of(text::utf8(f.encoded@))
}

fn seal_entries(frozen: &Vec<FrozenTask>) -> (r: Vec<SealEntry>)
    requires
        frozen@.len() <= i64::MAX,
    ensures
        r@.len() == frozen@.len(),
        forall|i: int| 0 <= i < r@.len() ==> seals_frozen(#[trigger] r@[i], i, frozen@[i]),
{
    let mut out: Vec<SealEntry> = Vec::new();
    let mut i: usize = 0;
    while i < frozen.len()
        invariant
            i <= frozen@.len() <= i64::MAX,
            out@.len() == i,
            forall|j: int| 0 <= j < i ==> seals_frozen(#[trigger] out@[j], j, frozen@[j]),
        decreases frozen@.len() - i,
    {
        let f = &frozen[i];
        out.push(
            SealEntry {
                ordinal: i as i64,
                task_id: f.task_id.clone(),
                revision: f.revision,
                digest: crypto::text_digest(f.encoded.as_str()),
            },
        );
        i += 1;
    }
    out
}

/// A page token that is stored with the position it stands for.
pub struct IssuedToken {
    pub position: i64,
    pub token: PageToken,
}

/// What is written for a listing that does not fit one page.
pub struct SnapshotPlan {
    pub header: SnapshotHeader,
    pub metadata: [u8; 32],
    pub entries: Vec<SealEntry>,
    pub tokens: Vec<IssuedToken>,
}

/// The first page of a listing, and the snapshot that the other pages are read
/// from where there are any.
pub struct ListingPlan {
    pub page: ListPage,
    pub snapshot: Option<SnapshotPlan>,
}

/// The tenant's snapshots that are still on record.
#[derive(Clone, Copy, Debug, PartialEq, Eq, Structural)]
pub struct SnapshotUsage {
    pub active: i64,
    pub bytes: i64,
}

/// Whether a further snapshot fits beside those on record.
pub open spec fn snapshot_fits(usage: SnapshotUsage, frozen_bytes: int) -> bool {
    usage.active < MAX_ACTIVE_SNAPSHOTS && usage.bytes + frozen_bytes <= MAX_SNAPSHOT_BYTES
}

/// Why a listing cannot be answered.
pub open spec fn listing_fault(
    frozen: Seq<FrozenTask>,
    size: int,
    usage: SnapshotUsage,
    now: i64,
) -> Option<Fault> {
    if frozen_size(frozen) > i64::MAX {
        Some(Fault::SnapshotCapacityReached)
    } else if frozen.len() <= size {
        None
    } else if !snapshot_fits(usage, frozen_size(frozen)) {
        Some(Fault::SnapshotCapacityReached)
    } else if now + SNAPSHOT_TTL_MILLIS > i64::MAX {
        Some(Fault::SnapshotClockExhausted)
    } else {
        None
    }
}

/// Where the page with a number begins; the first page has number zero.
#[verifier::opaque]
pub open spec fn page_position(k: int, size: int) -> int {
    k * size
}

proof fn lemma_page_position(k: int, size: int)
    ensures
        page_position(0, size) == 0,
        page_position(1, size) == size,
        page_position(k + 1, size) == page_position(k, size) + size,
{
    reveal(page_position);
    assert((k + 1) * size == k * size + size) by (nonlinear_arith);
}

/// The tokens of every page after the first.
pub open spec fn tokens_issued(
    tokens: Seq<IssuedToken>,
    key: Seq<u8>,
    snapshot_id: Seq<u8>,
    metadata: Seq<u8>,
    total: int,
    size: int,
) -> bool {
    &&& tokens.len() == (total - 1) / size
    &&& forall|k: int|
        0 <= k < tokens.len() ==> token_at(#[trigger] tokens[k], key, snapshot_id, metadata, page_position(k + 1, size))
}

/// A token that stands for the page at a position.
pub open spec fn token_at(
    t: IssuedToken,
    key: Seq<u8>,
    snapshot_id: Seq<u8>,
    metadata: Seq<u8>,
    position: int,
) -> bool {
    &&& t.position == position
    &&& t.token.token@ == crypto::base64url_of(page_secret(key, snapshot_id, position as i64, metadata))
    &&& t.token.hash@ == crypto::sha256_of(page_secret(key, snapshot_id, position as i64, metadata))
    &&& page_token_hash(t.token.token@) == Some(t.token.hash@)
    &&& t.token.token@.len() > 0
}

fn issue_tokens(key: &[u8; 32], snapshot_id: &[u8], metadata: &[u8; 32], total: i64, size: i64) -> (r: Vec<IssuedToken>)
    requires
        1 <= size <= 100,
        size < total,
        total + 100 <= i64::MAX,
    ensures
        tokens_issued(r@, key@, snapshot_id@, metadata@, total as int, size as int),
{
    let mut out: Vec<IssuedToken> = Vec::new();
    let mut position: i64 = size;
    proof {
        lemma_page_position(0, size as int);
    }
    while position < total
        invariant
            1 <= size <= 100,
            total + 100 <= i64::MAX,
            position == page_position(out@.len() as int + 1, size as int),
            position - size < total,
            forall|k: int|
                0 <= k < out@.len() ==> token_at(
                    #[trigger] out@[k],
                    key@,
                    snapshot_id@,
                    metadata@,
                    page_position(k + 1, size as int),
                ),
        decreases total + size - position,
    {
        let token = derive_page_token(key, snapshot_id, position, metadata);
        proof {
            lemma_page_position(out@.len() as int + 1, size as int);
        }
        out.push(IssuedToken { position, token });
        position = position + size;
    }
    proof {
        let n = out@.len() as int;
        let s = size as int;
        let t = total as int;
        lemma_page_position(n, s);
        reveal(page_position);
        assert((t - 1) / s == n) by (nonlinear_arith)
            requires
                1 <= s,
                n * s <= t - 1,
                t - 1 < n * s + s,
        ;
    }
    out
}

fn first_tasks(frozen: &Vec<FrozenTask>, count: usize) -> (r: Vec<Task>)
    requires
        count <= frozen@.len(),
    ensures
        r@.len() == count,
        forall|i: int| 0 <= i < count ==> (#[trigger] r@[i])@ == frozen@[i].task@,
{
    let mut out: Vec<Task> = Vec::new();
    let mut i: usize = 0;
    while i < count
        invariant
            i <= count <= frozen@.len(),
            out@.len() == i,
            forall|j: int| 0 <= j < i ==> (#[trigger] out@[j])@ == frozen@[j].task@,
        decreases count - i,
    {
        out.push(frozen[i].task.copy());
        i += 1;
    }
    out
}

/// What a listing freezes, beside its tasks.
pub struct ListingRequest {
    pub scope_digest: String,
    pub query_digest: String,
    pub page_size: i32,
    pub now: i64,
}

/// Whether a snapshot records what a listing froze.
pub open spec fn snapshot_records(
    plan: SnapshotPlan,
    key: Seq<u8>,
    snapshot_id: Seq<u8>,
    request: ListingRequest,
    frozen: Seq<FrozenTask>,
) -> bool {
    let h = plan.header;
    &&& h.snapshot_id@ == snapshot_id
    &&& h.scope_digest@ == request.scope_digest@
    &&& h.query_digest@ == request.query_digest@
    &&& h.total == frozen.len()
    &&& h.page_size == request.page_size
    &&& h.issued_at == request.now
    &&& h.expires_at == request.now + SNAPSHOT_TTL_MILLIS
    &&& h.projection_version == 1
    &&& h.frozen_bytes == frozen_size(frozen)
    &&& plan.entries@.len() == frozen.len()
    &&& forall|i: int|
        0 <= i < frozen.len() ==> seals_frozen(#[trigger] plan.entries@[i], i, frozen[i])
    &&& plan.metadata@ == snapshot_seal(key, h, plan.entries@)
    &&& tokens_issued(plan.tokens@, key, snapshot_id, plan.metadata@, frozen.len() as int, request.page_size as int)
}

/// The size of frozen tasks is the sum of their encoded sizes.
pub proof fn law_frozen_sizes_add_up(first: Seq<FrozenTask>, second: Seq<FrozenTask>, one: FrozenTask)
    ensures
        frozen_size(first + second) == frozen_size(first) + frozen_size(second),
        frozen_size(seq![one]) == text::utf8(one.encoded@).len(),
        frozen_size(Seq::empty()) == 0,
    decreases second.len(),
{
    assert(seq![one].drop_last() =~= Seq::<FrozenTask>::empty());
    assert(frozen_size(seq![one].drop_last()) == 0);
    if second.len() == 0 {
        assert(first + second =~= first);
    } else {
        law_frozen_sizes_add_up(first, second.drop_last(), one);
        assert((first + second).drop_last() =~= first + second.drop_last());
        assert((first + second).last() == second.last());
    }
}

/// A listing that fits one page is always answered, where its size can be counted; a longer one
/// exactly where fewer than 128 snapshots are on record, all of them together stay within 64
/// mebibytes, and its five minutes end.
pub proof fn law_short_listings_need_no_snapshot(
    frozen: Seq<FrozenTask>,
    size: int,
    usage: SnapshotUsage,
    now: i64,
)
    ensures
        ({
            let bytes = frozen_size(frozen);
            let fault = listing_fault(frozen, size, usage, now);
            &&& bytes > i64::MAX ==> fault == Some(Fault::SnapshotCapacityReached)
            &&& bytes <= i64::MAX && frozen.len() <= size ==> fault is None
            &&& bytes <= i64::MAX && frozen.len() > size ==> (fault is None <==> usage.active < 128 && usage.bytes
                + bytes <= 64 * 1024 * 1024 && now + 300_000 <= i64::MAX)
            &&& bytes <= i64::MAX && frozen.len() > size && (usage.active >= 128 || usage.bytes + bytes > 64 * 1024
                * 1024) ==> fault == Some(Fault::SnapshotCapacityReached)
            &&& fault == Some(Fault::SnapshotClockExhausted) ==> now + 300_000 > i64::MAX
        }),
{
}

/// A snapshot records what its listing froze: as many entries as tasks, each at its place with
/// the id, the revision and the digest of its task, for five minutes from now, with a token for
/// every page after the first, at the start of that page.
pub proof fn law_snapshots_record_their_listing(
    plan: SnapshotPlan,
    key: Seq<u8>,
    snapshot_id: Seq<u8>,
    request: ListingRequest,
    frozen: Seq<FrozenTask>,
    i: int,
    k: int,
)
    requires
        snapshot_records(plan, key, snapshot_id, request, frozen),
        request.page_size > 0,
        0 <= i < frozen.len(),
        0 <= k < plan.tokens@.len(),
    ensures
        plan.header.snapshot_id@ == snapshot_id,
        plan.header.scope_digest@ == request.scope_digest@,
        plan.header.query_digest@ == request.query_digest@,
        plan.header.total == frozen.len(),
        plan.header.page_size == request.page_size,
        plan.header.issued_at == request.now,
        plan.header.expires_at - request.now == 300_000,
        plan.header.frozen_bytes == frozen_size(frozen),
        plan.entries@.len() == frozen.len(),
        plan.entries@[i].ordinal == i,
        plan.entries@[i].task_id@ == frozen[i].task_id@,
        plan.entries@[i].revision == frozen[i].revision,
        plan.entries@[i].digest@ == crypto::content_digest_of(text::utf8(frozen[i].encoded@)),
        plan.tokens@[k].position == (k + 1) * request.page_size,
        plan.tokens@.len() * request.page_size < frozen.len(),
        frozen.len() <= (plan.tokens@.len() + 1) * request.page_size,
        plan.tokens@[k].token.token@ == crypto::base64url_of(
            page_secret(key, snapshot_id, plan.tokens@[k].position, plan.metadata@),
        ),
{
    reveal(page_position);
    let size = request.page_size as int;
    let n = plan.tokens@.len() as int;
    let total = frozen.len() as int;
    assert(seals_frozen(plan.entries@[i], i, frozen[i]));
    assert(token_at(plan.tokens@[k], key, snapshot_id, plan.metadata@, page_position(k + 1, size)));
    vstd::arithmetic::div_mod::lemma_fundamental_div_mod(total - 1, size);
    vstd::arithmetic::div_mod::lemma_mod_bound(total - 1, size);
    assert(n * size == size * n) by (nonlinear_arith);
    assert((n + 1) * size == size * n + size) by (nonlinear_arith);
}

/// Answers a listing from the tasks that it froze: the first page, and where
/// there are more the sealed snapshot with a token for each further page.
pub fn begin_listing(
    key: &[u8; 32],
    snapshot_id: &[u8; 32],
    request: &ListingRequest,
    frozen: &Vec<FrozenTask>,
    usage: SnapshotUsage,
) -> (r: Result<ListingPlan, Fault>)
    requires
        1 <= request.page_size <= 100,
        frozen@.len() + 100 <= i64::MAX,
    ensures
        match r {
            Err(e) => listing_fault(frozen@, request.page_size as int, usage, request.now) == Some(e),
            Ok(plan) => {
                let size = request.page_size as int;
                &&& listing_fault(frozen@, size, usage, request.now) is None
                &&& page_of(plan.page, frozen@, 0, size)
                &&& match plan.snapshot {
                    None => frozen@.len() <= size && plan.page.next_page_token@.len() == 0,
                    Some(snapshot) => {
                        &&& frozen@.len() > size
                        &&& snapshot_records(snapshot, key@, snapshot_id@, *request, frozen@)
                        &&& plan.page.next_page_token@ == next_token_text(
                            key@,
                            snapshot_id@,
                            size,
                            frozen@.len() as int,
                            snapshot.metadata@,
                        )
                    },
                }
            },
        },
{
    let frozen_bytes: i64 = match sum_frozen(frozen) {
        Some(n) => n,
        None => {
            return Err(Fault::SnapshotCapacityReached);
        },
    };
    let size: i64 = request.page_size as i64;
    let total: i64 = frozen.len() as i64;
    let count: usize = if total < size {
        frozen.len()
    } else {
        request.page_size as usize
    };
    let tasks = first_tasks(frozen, count);
    if total <= size {
        return Ok(
            ListingPlan {
                page: ListPage {
                    tasks,
                    next_page_token: String::new(),
                    page_size: request.page_size,
                    total_size: report_total(total),
                },
                snapshot: None,
            },
        );
    }
    proof {
        lemma_frozen_size_nonnegative(frozen@);
    }
    let together: i128 = usage.bytes as i128 + frozen_bytes as i128;
    if usage.active >= MAX_ACTIVE_SNAPSHOTS || together > MAX_SNAPSHOT_BYTES as i128 {
        return Err(Fault::SnapshotCapacityReached);
    }
    let expires_at: i64 = match request.now.checked_add(SNAPSHOT_TTL_MILLIS) {
        Some(t) => t,
        None => {
            return Err(Fault::SnapshotClockExhausted);
        },
    };
    let entries = seal_entries(frozen);
    let header = SnapshotHeader {
        snapshot_id: text::copy_bytes(snapshot_id.as_slice()),
        scope_digest: request.scope_digest.clone(),
        query_digest: request.query_digest.clone(),
        total,
        page_size: size,
        issued_at: request.now,
        expires_at,
        projection_version: 1,
        frozen_bytes,
    };
    let metadata: [u8; 32] = snapshot_metadata_digest(key, &header, &entries);
    let tokens = issue_tokens(key, snapshot_id.as_slice(), &metadata, total, size);
    proof {
        let t = total as int;
        let s = size as int;
        assert((t - 1) / s >= 1) by (nonlinear_arith)
            requires
                1 <= s,
                s <= t - 1,
        ;
        lemma_page_position(0, s);
        assert(token_at(tokens@[0], key@, snapshot_id@, metadata@, page_position(1, s)));
    }
    let next_page_token = tokens[0].token.token.clone();
    Ok(
        ListingPlan {
            page: ListPage {
                tasks,
                next_page_token,
                page_size: request.page_size,
                total_size: report_total(total),
            },
            snapshot: Some(SnapshotPlan { header, metadata, entries, tokens }),
        },
    )
}

/// Every page token that a listing issues is accepted from the same caller, for
/// the same query, until the snapshot expires, as long as the stored snapshot is
/// what was recorded.
pub proof fn law_issued_page_tokens_are_accepted(
    key: Seq<u8>,
    snapshot_id: Seq<u8>,
    request: ListingRequest,
    frozen: Seq<FrozenTask>,
    plan: SnapshotPlan,
    k: int,
    row: PageRow,
    e: PageExpectation,
)
    requires
        1 <= request.page_size <= 100,
        frozen.len() > request.page_size,
        snapshot_records(plan, key, snapshot_id, request, frozen),
        0 <= request.now,
        plan.metadata@.len() == 32,
        0 <= k < plan.tokens@.len(),
        row.header == plan.header,
        row.next_position == plan.tokens@[k].position,
        row.token_version == PAGE_TOKEN_VERSION,
        row.key_generation == PAGE_TOKEN_KEY_GENERATION,
        row.metadata_digest@ == plan.metadata@,
        row.owner_account_id@ == e.owner@,
        e.scope_digest@ == request.scope_digest@,
        e.query_digest@ == request.query_digest@,
        e.page_size == request.page_size,
        request.now <= e.now < request.now + SNAPSHOT_TTL_MILLIS,
    ensures
        page_row_usable(row, e),
        entries_sealed(key, row, plan.entries@),
        page_token_hash(plan.tokens@[k].token.token@) == Some(plan.tokens@[k].token.hash@),
{
    let s = request.page_size as int;
    let t = frozen.len() as int;
    assert(token_at(plan.tokens@[k], key, snapshot_id, plan.metadata@, page_position(k + 1, s)));
    reveal(page_position);
    lemma_frozen_size_nonnegative(frozen);
    assert(0 < (k + 1) * s < t) by (nonlinear_arith)
        requires
            1 <= s,
            0 <= k,
            k < (t - 1) / s,
    ;
    vstd::arithmetic::div_mod::lemma_mod_multiples_basic(k + 1, s);
    assert forall|i: int| 0 <= i < plan.entries@.len() implies (#[trigger] plan.entries@[i]).ordinal == i by {
        assert(seals_frozen(plan.entries@[i], i, frozen[i]));
    }
}

/// A page that is read from a snapshot whose rows hold what the listing froze is the
/// page of that listing at its position.
pub proof fn law_continued_pages_show_the_listing(
    key: Seq<u8>,
    row: PageRow,
    e: PageExpectation,
    rows: Seq<SnapshotRow>,
    page: ListPage,
    frozen: Seq<FrozenTask>,
)
    requires
        continued_page(page, key, row, e, rows),
        row.header.total == frozen.len(),
        rows_hold(rows, frozen, row.next_position as int),
    ensures
        page_of(page, frozen, row.next_position as int, e.page_size as int),
{
    assert forall|i: int| 0 <= i < rows.len() implies (#[trigger] page.tasks@[i])@ == frozen[row.next_position
        + i].task@ by {
        assert(rows[i].task is Some);
    }
}

proof fn lemma_pages_so_far(pages: Seq<ListPage>, frozen: Seq<FrozenTask>, size: int, n: int)
    requires
        1 <= size,
        0 <= n <= pages.len(),
        forall|k: int| 0 <= k < pages.len() ==> page_of(#[trigger] pages[k], frozen, page_position(k, size), size),
        forall|k: int| 0 <= k < n ==> (#[trigger] pages[k]).next_page_token@.len() > 0,
    ensures
        0 <= page_position(n, size) <= frozen.len(),
        n > 0 ==> page_position(n, size) < frozen.len(),
        shown_together(pages.take(n)) == frozen_tasks(frozen).take(page_position(n, size)),
    decreases n,
{
    let all = frozen_tasks(frozen);
    if n == 0 {
        lemma_page_position(0, size);
        assert(shown_together(pages.take(0)) =~= all.take(0));
    } else {
        lemma_pages_so_far(pages, frozen, size, n - 1);
        lemma_page_position(n - 1, size);
        let page = pages[n - 1];
        let from = page_position(n - 1, size);
        assert(page_of(page, frozen, from, size));
        assert(pages.take(n).drop_last() =~= pages.take(n - 1));
        assert(pages.take(n).last() == page);
        assert(shown(page) =~= all.subrange(from, from + size));
        assert(all.take(from) + all.subrange(from, from + size) =~= all.take(from + size));
    }
}

/// The pages of a listing, read one after the other for as long as each leads on, show
/// what the listing froze, every task once and in its order. Every page but the last is
/// full, and each reports the same total.
pub proof fn law_pages_join_to_the_listing(pages: Seq<ListPage>, frozen: Seq<FrozenTask>, size: int)
    requires
        1 <= size,
        pages.len() > 0,
        forall|k: int| 0 <= k < pages.len() ==> page_of(#[trigger] pages[k], frozen, page_position(k, size), size),
        forall|k: int| 0 <= k < pages.len() - 1 ==> (#[trigger] pages[k]).next_page_token@.len() > 0,
        pages.last().next_page_token@.len() == 0,
    ensures
        shown_together(pages) == frozen_tasks(frozen),
        forall|k: int| 0 <= k < pages.len() - 1 ==> (#[trigger] pages[k]).tasks@.len() == size,
        forall|k: int|
            0 <= k < pages.len() ==> (#[trigger] pages[k]).total_size == reported_total(frozen.len() as int),
{
    let n = pages.len() - 1;
    let all = frozen_tasks(frozen);
    let page = pages[n];
    let from = page_position(n, size);
    lemma_pages_so_far(pages, frozen, size, n);
    assert(page_of(page, frozen, from, size));
    assert(pages.drop_last() =~= pages.take(n));
    assert(shown(page) =~= all.skip(from));
    assert(all.take(from) + all.skip(from) =~= all);
    assert forall|k: int| 0 <= k < n implies (#[trigger] pages[k]).tasks@.len() == size by {
        assert(page_of(pages[k], frozen, page_position(k, size), size));
    }
    assert forall|k: int| 0 <= k < pages.len() implies (#[trigger] pages[k]).total_size == reported_total(
        frozen.len() as int,
    ) by {
        assert(page_of(pages[k], frozen, page_position(k, size), size));
    }
}

/// Whether a task is listed before another: by status time, the latest first and those
/// without one last, and by id where the times are the same. `less` is how the database
/// compares texts.
pub open spec fn listed_before(
    a: task::TaskView,
    b: task::TaskView,
    less: spec_fn(Seq<char>, Seq<char>) -> bool,
) -> bool {
    match (a.status.timestamp, b.status.timestamp) {
        (Some(x), Some(y)) => less(y, x) || (x == y && less(a.id, b.id)),
        (Some(_), None) => true,
        (None, Some(_)) => false,
        (None, None) => less(a.id, b.id),
    }
}

/// Whether tasks are in the order of a listing.
pub open spec fn in_listing_order(
    tasks: Seq<task::TaskView>,
    less: spec_fn(Seq<char>, Seq<char>) -> bool,
) -> bool {
    forall|i: int, j: int| 0 <= i < j < tasks.len() ==> listed_before(#[trigger] tasks[i], #[trigger] tasks[j], less)
}

/// The tasks of visible rows.
pub open spec fn row_tasks(rows: Seq<ListedRow>) -> Seq<task::TaskView> {
    Seq::new(rows.len(), |i: int| rows[i].task->0@)
}

/// Rows that were read in the order of a listing are listed in it: what is shown of a task
/// keeps its id and its status, and the pages joined keep the order of the rows.
pub proof fn law_listings_keep_their_order(
    rows: Seq<ListedRow>,
    request: ListTasksRequest,
    frozen: Seq<FrozenTask>,
    pages: Seq<ListPage>,
    size: int,
    less: spec_fn(Seq<char>, Seq<char>) -> bool,
)
    requires
        in_listing_order(row_tasks(rows), less),
        frozen.len() == rows.len(),
        forall|i: int| 0 <= i < rows.len() ==> (#[trigger] frozen[i]).task@ == listed_task(rows[i].task->0@, request),
        1 <= size,
        pages.len() > 0,
        forall|k: int| 0 <= k < pages.len() ==> page_of(#[trigger] pages[k], frozen, page_position(k, size), size),
        forall|k: int| 0 <= k < pages.len() - 1 ==> (#[trigger] pages[k]).next_page_token@.len() > 0,
        pages.last().next_page_token@.len() == 0,
    ensures
        shown_together(pages).len() == rows.len(),
        forall|i: int|
            0 <= i < rows.len() ==> #[trigger] shown_together(pages)[i] == listed_task(rows[i].task->0@, request),
        in_listing_order(shown_together(pages), less),
{
    law_pages_join_to_the_listing(pages, frozen, size);
    let shown = shown_together(pages);
    assert forall|i: int| 0 <= i < rows.len() implies #[trigger] shown[i] == listed_task(rows[i].task->0@, request) by {
        assert(shown[i] == frozen[i].task@);
    }
    assert forall|i: int, j: int| 0 <= i < j < shown.len() implies listed_before(
        #[trigger] shown[i],
        #[trigger] shown[j],
        less,
    ) by {
        assert(listed_before(row_tasks(rows)[i], row_tasks(rows)[j], less));
    }
}

/// The pages of a listing cover it without gap or overlap: each page ends where
/// the next token's page begins, and the last one ends at the total.
pub proof fn law_pages_partition_a_listing(total: int, size: int, position: int)
    requires
        1 <= size,
        0 <= position < total,
        position % size == 0,
    ensures
        0 < page_length(position, total, size) <= size,
        position + page_length(position, total, size) <= total,
        position + page_length(position, total, size) < total ==> (position + page_length(
            position,
            total,
            size,
        )) % size == 0,
{
    if total - position >= size {
        vstd::arithmetic::div_mod::lemma_mod_add_multiples_vanish(position, size);
    }
}

/// A request asks for what changed after a time exactly where it names one.
pub proof fn law_requests_ask_for_later_changes(request: ListTasksRequest)
    ensures
        request.status_timestamp_after is None ==> asked_after(request) is None,
        request.status_timestamp_after is Some ==> asked_after(request) == json_time_of(
            request.status_timestamp_after->0.seconds,
            request.status_timestamp_after->0.nanos,
        ),
{
}

/// A row can be listed exactly where its task is readable and is the one that the row names.
pub proof fn law_listed_rows_name_their_task(row: ListedRow)
    ensures
        listable(row) ==> row.task is Some && row.task->0.id@ == row.task_id@,
        row.task is None ==> !listable(row),
        row.task is Some && row.task->0.id@ == row.task_id@ ==> listable(row),
{
}

/// A page's secret is made over the snapshot, the position and the seal of the listing: these stand
/// at its end, the position in eight bytes before the seal and the snapshot before it.
pub proof fn law_page_secrets_cover_their_position(
    key: Seq<u8>,
    snapshot_id: Seq<u8>,
    position: i64,
    metadata: Seq<u8>,
)
    ensures
        exists|made: Seq<u8>|
            page_secret(key, snapshot_id, position, metadata) == #[trigger] crypto::hmac_sha256_of(key, made) && {
                let n = made.len() as int;
                let m = metadata.len() as int;
                let s = snapshot_id.len() as int;
                &&& n >= m + 8 + s
                &&& made.subrange(n - m, n) == metadata
                &&& made.subrange(n - m - 8, n - m) == text::be_i64(position)
                &&& made.subrange(n - m - 8 - s, n - m - 8) == snapshot_id
            },
{
    let made = text::utf8("smesh-list-tasks-page-v1\0"@) + text::be_i64(1) + text::be_i64(1) + text::framed(
        snapshot_id,
    ) + text::be_i64(position) + metadata;
    let n = made.len() as int;
    let m = metadata.len() as int;
    let s = snapshot_id.len() as int;
    reveal(text::be64);
    assert(page_secret(key, snapshot_id, position, metadata) == crypto::hmac_sha256_of(key, made));
    assert(text::be_i64(position).len() == 8);
    assert(text::framed(snapshot_id).len() >= s);
    assert(text::framed(snapshot_id).subrange(text::framed(snapshot_id).len() - s, text::framed(snapshot_id).len() as int)
        =~= snapshot_id);
    assert(made.subrange(n - m, n) =~= metadata);
    assert(made.subrange(n - m - 8, n - m) =~= text::be_i64(position));
    assert(made.subrange(n - m - 8 - s, n - m - 8) =~= snapshot_id);
}

/// A page that continues a listing leads on to the position behind its rows, under the same snapshot
/// and the same seal, and to nothing where it is the last.
pub proof fn law_continued_pages_lead_on(
    page: ListPage,
    key: Seq<u8>,
    row: PageRow,
    e: PageExpectation,
    rows: Seq<SnapshotRow>,
)
    requires
        continued_page(page, key, row, e, rows),
    ensures
        row.next_position + rows.len() >= row.header.total ==> page.next_page_token@.len() == 0,
        row.next_position + rows.len() < row.header.total ==> page.next_page_token@ == crypto::base64url_of(
            page_secret(
                key,
                row.header.snapshot_id@,
                (row.next_position + rows.len()) as i64,
                row.metadata_digest@,
            ),
        ) && page.next_page_token@.len() > 0,
        page.page_size == e.page_size,
        page.tasks@.len() == rows.len(),
{
}

/// A snapshot is sealed over everything that it records, in the first version of its form.
pub proof fn law_snapshots_are_sealed(
    plan: SnapshotPlan,
    key: Seq<u8>,
    snapshot_id: Seq<u8>,
    request: ListingRequest,
    frozen: Seq<FrozenTask>,
)
    requires
        snapshot_records(plan, key, snapshot_id, request, frozen),
    ensures
        plan.metadata@ == snapshot_seal(key, plan.header, plan.entries@),
        plan.header.projection_version == 1,
{
}

/// A page counts its listing and holds no more than was asked for; only a page that does not reach
/// the end leads on.
pub proof fn law_pages_count_their_listing(page: ListPage, frozen: Seq<FrozenTask>, position: int, size: int)
    requires
        page_of(page, frozen, position, size),
        0 < size,
        0 <= position <= frozen.len(),
    ensures
        page.page_size == size,
        frozen.len() <= i32::MAX ==> page.total_size == frozen.len(),
        frozen.len() > i32::MAX ==> page.total_size == i32::MAX,
        page.tasks@.len() <= size,
        page.tasks@.len() < size ==> position + page.tasks@.len() == frozen.len(),
        page.next_page_token@.len() == 0 <==> position + page.tasks@.len() == frozen.len(),
        forall|i: int| 0 <= i < page.tasks@.len() ==> (#[trigger] page.tasks@[i])@ == frozen[position + i].task@,
{
}

/// A listing that would outlive the clock is refused for that, and only where there is room for it.
pub proof fn law_listings_outlive_no_clock(frozen: Seq<FrozenTask>, size: int, usage: SnapshotUsage, now: i64)
    requires
        frozen_size(frozen) <= i64::MAX,
        frozen.len() > size,
        usage.active < 128,
        usage.bytes + frozen_size(frozen) <= 64 * 1024 * 1024,
    ensures
        now + 300_000 > i64::MAX ==> listing_fault(frozen, size, usage, now) == Some(Fault::SnapshotClockExhausted),
{
}

} // verus!
