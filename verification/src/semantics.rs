//! Validation of everything that the authority has on record.

use vstd::hash_map::StringHashMap;
use vstd::prelude::*;

use crate::catalog;
use crate::catalog::ArtifactImage;
use crate::crypto;
use crate::json;
use crate::listing;
use crate::listing::{SealEntry, SnapshotHeader};
use crate::store_config::PostgresStoreError;
use crate::task;
use crate::task::{Task, TaskState};
use crate::text;
use crate::transcript;
use crate::transcript::TranscriptRow;

verus! {

/// The largest encoded record.
pub const MAX_RECORD_BYTES: usize = 1_048_576;

/// The last millisecond of the year 9999.
pub const MAX_TIMESTAMP_MILLIS: i64 = 253_402_300_799_999;

/// A stored task. The task itself is absent where its text cannot be read.
pub struct TaskRecord {
    pub tenant_scope: String,
    pub task_id: String,
    pub context_id: String,
    pub state: String,
    pub status_timestamp: Option<String>,
    pub revision: i64,
    pub encoded: String,
    pub task: Option<Task>,
}

/// Whether a stored task agrees with its columns.
pub open spec fn task_record_valid(r: TaskRecord) -> bool {
    &&& r.task is Some
    &&& r.task->0.id@ == r.task_id@
    &&& r.task->0.context_id@ == r.context_id@
    &&& r.revision > 0
    &&& task::state_text(r.task->0.status.state) == r.state@
    &&& text::opt_text(r.task->0.status.timestamp) == text::opt_text(r.status_timestamp)
    &&& text::utf8(r.encoded@).len() <= MAX_RECORD_BYTES
}

/// A stored task is accepted exactly where it can be read under its own id and context, has a
/// positive revision, stands in the state and at the time of its columns, and takes at most a
/// mebibyte.
pub proof fn law_stored_tasks_agree_with_their_columns(r: TaskRecord)
    ensures
        task_record_valid(r) <==> {
            &&& r.task is Some
            &&& r.task_id@ == r.task->0.id@
            &&& r.context_id@ == r.task->0.context_id@
            &&& r.revision >= 1
            &&& r.state@ == task::state_text(r.task->0.status.state)
            &&& r.status_timestamp is Some <==> r.task->0.status.timestamp is Some
            &&& r.status_timestamp is Some ==> r.status_timestamp->0@ == r.task->0.status.timestamp->0@
            &&& text::utf8(r.encoded@).len() <= 1024 * 1024
        },
{
}

fn check_task_record(r: &TaskRecord) -> (ok: bool)
    ensures
        ok == task_record_valid(*r),
{
    match &r.task {
        None => false,
        Some(t) => t.id == r.task_id && t.context_id == r.context_id && r.revision > 0 && text::same_text(
            task::state_key(t),
            r.state.as_str(),
        ) && text::same_opt_text(&t.status.timestamp, &r.status_timestamp) && text::byte_len(r.encoded.as_str())
            <= MAX_RECORD_BYTES,
    }
}

/// A stored event of a task. The parsed parts are absent where a text cannot be
/// read; `from_state` is also absent where there is no earlier state.
pub struct EventRecord {
    pub tenant_scope: String,
    pub task_id: String,
    pub seq: i64,
    pub revision: i64,
    pub kind: String,
    pub from: Option<String>,
    pub to: String,
    pub encoded: String,
    pub task: Option<Task>,
    pub from_state: Option<TaskState>,
    pub to_state: Option<TaskState>,
}

/// Whether an event belongs to a task.
pub open spec fn event_of(e: EventRecord, tenant: Seq<char>, task_id: Seq<char>) -> bool {
    e.tenant_scope@ == tenant && e.task_id@ == task_id
}

/// The position of a task's last event among the first `n`.
pub open spec fn last_event(events: Seq<EventRecord>, n: int, tenant: Seq<char>, task_id: Seq<char>) -> Option<int>
    decreases n,
{
    if n <= 0 {
        None
    } else if event_of(events[n - 1], tenant, task_id) {
        Some(n - 1)
    } else {
        last_event(events, n - 1, tenant, task_id)
    }
}

/// How many of the first `n` events belong to a task.
pub open spec fn event_count(events: Seq<EventRecord>, n: int, tenant: Seq<char>, task_id: Seq<char>) -> nat
    decreases n,
{
    if n <= 0 {
        0
    } else if event_of(events[n - 1], tenant, task_id) {
        event_count(events, n - 1, tenant, task_id) + 1
    } else {
        event_count(events, n - 1, tenant, task_id)
    }
}

/// Whether an event follows the one before it in its task's chain.
pub open spec fn event_chained(e: EventRecord, before: Option<EventRecord>) -> bool {
    match before {
        None => e.seq == 1 && e.revision == 1 && e.from is None,
        Some(b) => e.seq == b.seq + 1 && e.revision == b.revision + 1 && text::opt_text(e.from) == Some(b.to@),
    }
}

/// Whether an event agrees with the task it records and moves it legally.
pub open spec fn event_sound(e: EventRecord) -> bool {
    &&& e.task is Some
    &&& e.to_state is Some
    &&& e.from is Some ==> e.from_state is Some
    &&& 1 <= text::utf8(e.kind@).len() <= 4096
    &&& e.task->0.id@ == e.task_id@
    &&& task::state_text(e.task->0.status.state) == e.to@
    &&& e.from is Some ==> task::transition_allowed(e.from_state->0, e.to_state->0)
}

/// The event at a position, where there is one.
pub open spec fn event_at(events: Seq<EventRecord>, i: Option<int>) -> Option<EventRecord> {
    match i {
        Some(k) => Some(events[k]),
        None => None,
    }
}

/// Whether the `i`th event is valid in its place.
pub open spec fn event_valid(events: Seq<EventRecord>, i: int) -> bool {
    let e = events[i];
    &&& event_sound(e)
    &&& event_chained(e, event_at(events, last_event(events, i, e.tenant_scope@, e.task_id@)))
}

/// Whether a log of events is valid.
pub open spec fn event_log_valid(events: Seq<EventRecord>) -> bool {
    forall|i: int| 0 <= i < events.len() ==> #[trigger] event_valid(events, i)
}

/// Whether a stored task is what its last event says.
pub open spec fn task_current(r: TaskRecord, events: Seq<EventRecord>) -> bool {
    last_event(events, events.len() as int, r.tenant_scope@, r.task_id@) matches Some(k) && events[k].revision
        == r.revision && events[k].encoded@ == r.encoded@
}

proof fn lemma_last_event(events: Seq<EventRecord>, n: int, tenant: Seq<char>, task_id: Seq<char>)
    requires
        0 <= n <= events.len(),
    ensures
        match last_event(events, n, tenant, task_id) {
            Some(k) => 0 <= k < n && event_of(events[k], tenant, task_id) && event_count(events, n, tenant, task_id)
                == event_count(events, k, tenant, task_id) + 1,
            None => event_count(events, n, tenant, task_id) == 0,
        },
    decreases n,
{
    if n > 0 && !event_of(events[n - 1], tenant, task_id) {
        lemma_last_event(events, n - 1, tenant, task_id);
    }
}

/// In a valid log the events of a task are numbered from one without a gap, and
/// each brings the task to the revision of its number.
pub proof fn law_events_number_revisions(events: Seq<EventRecord>, i: int)
    requires
        event_log_valid(events),
        0 <= i < events.len(),
    ensures
        events[i].seq == event_count(events, i, events[i].tenant_scope@, events[i].task_id@) + 1,
        events[i].revision == events[i].seq,
    decreases i,
{
    let e = events[i];
    assert(event_valid(events, i));
    lemma_last_event(events, i, e.tenant_scope@, e.task_id@);
    match last_event(events, i, e.tenant_scope@, e.task_id@) {
        Some(k) => {
            law_events_number_revisions(events, k);
        },
        None => {},
    }
}

/// A task on record is at the revision that counts its events.
pub proof fn law_revision_counts_events(r: TaskRecord, events: Seq<EventRecord>)
    requires
        event_log_valid(events),
        task_current(r, events),
    ensures
        r.revision == event_count(events, events.len() as int, r.tenant_scope@, r.task_id@),
{
    let n = events.len() as int;
    lemma_last_event(events, n, r.tenant_scope@, r.task_id@);
    let k = last_event(events, n, r.tenant_scope@, r.task_id@)->0;
    law_events_number_revisions(events, k);
}

/// The last event of a task is the one after which none of its events comes, and there is none
/// exactly where the task has no event.
pub proof fn law_last_events_are_last(events: Seq<EventRecord>, n: int, tenant: Seq<char>, task_id: Seq<char>)
    requires
        0 <= n <= events.len(),
    ensures
        match last_event(events, n, tenant, task_id) {
            Some(k) => 0 <= k < n && events[k].tenant_scope@ == tenant && events[k].task_id@ == task_id && forall|i: int|
                k < i < n ==> (#[trigger] events[i]).tenant_scope@ != tenant || events[i].task_id@ != task_id,
            None => forall|i: int|
                0 <= i < n ==> (#[trigger] events[i]).tenant_scope@ != tenant || events[i].task_id@ != task_id,
        },
    decreases n,
{
    if n > 0 && !event_of(events[n - 1], tenant, task_id) {
        law_last_events_are_last(events, n - 1, tenant, task_id);
    }
}

/// An event follows another exactly where it has the next number, the next revision and starts
/// from the state that the other ended in; the first of a task starts from nothing at revision
/// one.
pub proof fn law_events_follow_each_other(e: EventRecord, before: EventRecord)
    ensures
        event_chained(e, None) <==> e.seq == 1 && e.revision == 1 && e.from is None,
        event_chained(e, Some(before)) <==> e.seq - before.seq == 1 && e.revision - before.revision == 1 && e.from
            is Some && e.from->0@ == before.to@,
{
}

/// An event is sound only where it can be read, holds its own task in the state that it leads to,
/// has a kind of one to 4096 bytes and makes a move that the lifecycle allows.
pub proof fn law_sound_events_move_legally(e: EventRecord)
    ensures
        event_sound(e) <==> {
            &&& e.task is Some
            &&& e.to_state is Some
            &&& e.task->0.id@ == e.task_id@
            &&& e.to@ == task::state_text(e.task->0.status.state)
            &&& 1 <= text::utf8(e.kind@).len() <= 4096
            &&& e.from is Some ==> e.from_state is Some && task::transition_allowed(e.from_state->0, e.to_state->0)
        },
{
}

/// A stored task is current exactly where its last event brought it to its revision and its
/// text.
pub proof fn law_current_tasks_are_their_last_event(r: TaskRecord, events: Seq<EventRecord>, k: int)
    requires
        0 <= k < events.len(),
        events[k].tenant_scope@ == r.tenant_scope@,
        events[k].task_id@ == r.task_id@,
        forall|i: int|
            k < i < events.len() ==> (#[trigger] events[i]).tenant_scope@ != r.tenant_scope@ || events[i].task_id@
                != r.task_id@,
    ensures
        task_current(r, events) <==> events[k].revision == r.revision && events[k].encoded@ == r.encoded@,
{
    law_last_events_are_last(events, events.len() as int, r.tenant_scope@, r.task_id@);
}

/// The key that a task's last event is kept under: distinct for distinct tasks.
pub open spec fn history_key_of(tenant: Seq<char>, task_id: Seq<char>) -> Seq<char> {
    text::hex(text::utf8(tenant)) + "/"@ + task_id
}

fn history_key(tenant: &str, task_id: &str) -> (r: String)
    ensures
        r@ == history_key_of(tenant@, task_id@),
{
    let mut out = text::hex_text(tenant.as_bytes());
    out.append("/");
    out.append(task_id);
    out
}

proof fn lemma_history_key_injective(t1: Seq<char>, i1: Seq<char>, t2: Seq<char>, i2: Seq<char>)
    requires
        history_key_of(t1, i1) == history_key_of(t2, i2),
    ensures
        t1 == t2,
        i1 == i2,
{
    let h1 = text::hex(text::utf8(t1));
    let h2 = text::hex(text::utf8(t2));
    let k1 = history_key_of(t1, i1);
    let k2 = history_key_of(t2, i2);
    reveal_strlit("/");
    assert("/"@.len() == 1 && "/"@[0] == '/');
    assert(k1[h1.len() as int] == '/');
    assert(k2[h2.len() as int] == '/');
    if h1.len() < h2.len() {
        assert(k2[h1.len() as int] == h2[h1.len() as int]);
        assert(h2[h1.len() as int] == text::hex_bytes(text::utf8(t2))[h1.len() as int] as char);
    } else if h2.len() < h1.len() {
        assert(k1[h2.len() as int] == h1[h2.len() as int]);
        assert(h1[h2.len() as int] == text::hex_bytes(text::utf8(t1))[h2.len() as int] as char);
    }
    assert(h1.len() == h2.len());
    assert forall|i: int| 0 <= i < h1.len() implies h1[i] == h2[i] by {
        assert(k1[i] == h1[i] && k2[i] == h2[i]);
    }
    assert(h1 =~= h2);
    text::lemma_hex_injective(text::utf8(t1), text::utf8(t2));
    text::lemma_utf8_injective(t1, t2);
    assert(i1 =~= k1.subrange(h1.len() as int + 1, k1.len() as int));
    assert(i2 =~= k2.subrange(h2.len() as int + 1, k2.len() as int));
}

/// What a table of last events holds after the first `n` events.
pub open spec fn table_holds(table: Map<Seq<char>, usize>, events: Seq<EventRecord>, n: int) -> bool {
    forall|tenant: Seq<char>, task_id: Seq<char>|
        match #[trigger] last_event(events, n, tenant, task_id) {
            Some(k) => table.dom().contains(history_key_of(tenant, task_id)) && table[history_key_of(tenant, task_id)]
                == k,
            None => !table.dom().contains(history_key_of(tenant, task_id)),
        }
}

fn check_event_sound(e: &EventRecord) -> (ok: bool)
    ensures
        ok == event_sound(*e),
{
    let t = match &e.task {
        Some(t) => t,
        None => {
            return false;
        },
    };
    let to = match e.to_state {
        Some(to) => to,
        None => {
            return false;
        },
    };
    let moves = match &e.from {
        None => true,
        Some(_) => match e.from_state {
            Some(from) => task::legal_transition(from, to),
            None => false,
        },
    };
    let n: usize = text::byte_len(e.kind.as_str());
    moves && n >= 1 && n <= 4096 && t.id == e.task_id && text::same_text(task::state_key(t), e.to.as_str())
}

fn check_event_chained(e: &EventRecord, before: Option<&EventRecord>) -> (ok: bool)
    ensures
        ok == event_chained(
            *e,
            match before {
                Some(b) => Some(*b),
                None => None,
            },
        ),
{
    match before {
        None => e.seq == 1 && e.revision == 1 && e.from.is_none(),
        Some(b) => e.seq as i128 == b.seq as i128 + 1 && e.revision as i128 == b.revision as i128 + 1
            && text::opt_text_is(&e.from, b.to.as_str()),
    }
}

fn check_event_log(events: &Vec<EventRecord>) -> (r: Option<StringHashMap<usize>>)
    ensures
        match r {
            Some(table) => event_log_valid(events@) && table_holds(table@, events@, events@.len() as int),
            None => !event_log_valid(events@),
        },
{
    let mut table: StringHashMap<usize> = StringHashMap::new();
    let mut i: usize = 0;
    while i < events.len()
        invariant
            i <= events@.len(),
            table_holds(table@, events@, i as int),
            forall|j: int| 0 <= j < i ==> #[trigger] event_valid(events@, j),
        decreases events@.len() - i,
    {
        let e = &events[i];
        let key = history_key(e.tenant_scope.as_str(), e.task_id.as_str());
        proof {
            lemma_last_event(events@, i as int, e.tenant_scope@, e.task_id@);
        }
        let before = match table.get(key.as_str()) {
            Some(k) => Some(&events[*k]),
            None => None,
        };
        if !check_event_sound(e) || !check_event_chained(e, before) {
            assert(!event_valid(events@, i as int));
            return None;
        }
        assert(event_valid(events@, i as int));
        let ghost old_table = table@;
        table.insert(key, i);
        proof {
            assert forall|tenant: Seq<char>, task_id: Seq<char>|
                match #[trigger] last_event(events@, i + 1, tenant, task_id) {
                    Some(k) => table@.dom().contains(history_key_of(tenant, task_id)) && table@[history_key_of(
                        tenant,
                        task_id,
                    )] == k,
                    None => !table@.dom().contains(history_key_of(tenant, task_id)),
                } by {
                if history_key_of(tenant, task_id) == history_key_of(e.tenant_scope@, e.task_id@) {
                    lemma_history_key_injective(tenant, task_id, e.tenant_scope@, e.task_id@);
                } else {
                    assert(last_event(events@, i + 1, tenant, task_id) == last_event(
                        events@,
                        i as int,
                        tenant,
                        task_id,
                    ));
                }
            }
        }
        i += 1;
    }
    Some(table)
}

fn check_current(tasks: &Vec<TaskRecord>, events: &Vec<EventRecord>, table: &StringHashMap<usize>) -> (ok: bool)
    requires
        table_holds(table@, events@, events@.len() as int),
    ensures
        ok == forall|i: int| 0 <= i < tasks@.len() ==> task_current(#[trigger] tasks@[i], events@),
{
    let mut i: usize = 0;
    while i < tasks.len()
        invariant
            i <= tasks@.len(),
            table_holds(table@, events@, events@.len() as int),
            forall|j: int| 0 <= j < i ==> task_current(#[trigger] tasks@[j], events@),
        decreases tasks@.len() - i,
    {
        let r = &tasks[i];
        let key = history_key(r.tenant_scope.as_str(), r.task_id.as_str());
        proof {
            lemma_last_event(events@, events@.len() as int, r.tenant_scope@, r.task_id@);
        }
        let ok = match table.get(key.as_str()) {
            Some(k) => events[*k].revision == r.revision && events[*k].encoded == r.encoded,
            None => false,
        };
        if !ok {
            assert(!task_current(tasks@[i as int], events@));
            return false;
        }
        i += 1;
    }
    true
}

/// A stored payload with the digest on record.
pub struct PayloadRecord {
    pub encoded: String,
    pub digest: String,
}

/// Whether a stored payload is intact.
pub open spec fn payload_valid(p: PayloadRecord) -> bool {
    &&& text::utf8(p.encoded@).len() <= MAX_RECORD_BYTES
    &&& json::json_readable_of(p.encoded@)
    &&& crypto::content_digest_of(text::utf8(p.encoded@)) == p.digest@
}

/// A stored payload is intact exactly where it is readable JSON of at most a mebibyte under its
/// own digest.
pub proof fn law_payloads_match_their_digest(p: PayloadRecord)
    ensures
        payload_valid(p) <==> p.digest@ == crypto::content_digest_of(text::utf8(p.encoded@)) && json::json_readable_of(
            p.encoded@,
        ) && text::utf8(p.encoded@).len() <= 1024 * 1024,
{
}

fn check_payload(p: &PayloadRecord) -> (ok: bool)
    ensures
        ok == payload_valid(*p),
{
    if text::byte_len(p.encoded.as_str()) > MAX_RECORD_BYTES || !json::json_readable(p.encoded.as_str()) {
        return false;
    }
    let digest = crypto::text_digest(p.encoded.as_str());
    digest == p.digest
}

/// A stored transcript with the encoded text of each of its frames, absent where
/// they cannot be read.
pub struct TranscriptRecord {
    pub row: TranscriptRow,
    pub frames: Option<Vec<String>>,
}

/// Whether a stored transcript is sealed and consistent.
pub open spec fn transcript_valid(t: TranscriptRecord) -> bool {
    &&& t.frames is Some
    &&& t.frames->0@.len() == t.row.frame_count
    &&& text::opt_text(t.row.digest) == Some(transcript::transcript_digest_of(text::texts(t.frames->0@)))
    &&& transcript::transcript_row_consistent(t.row)
}

/// A stored transcript is accepted exactly where its frames can be read, are as many as it counts
/// and are what it is sealed over, and where it is consistent.
pub proof fn law_transcripts_are_sealed_over_their_frames(t: TranscriptRecord)
    ensures
        transcript_valid(t) <==> {
            &&& t.frames is Some
            &&& t.row.frame_count == t.frames->0@.len()
            &&& t.row.digest is Some
            &&& t.row.digest->0@ == transcript::transcript_digest_of(text::texts(t.frames->0@))
            &&& t.row.state != transcript::TranscriptState::Unknown
            &&& t.row.state == transcript::TranscriptState::Terminal <==> t.row.terminal_seq == Some(t.row.frame_count)
            &&& t.row.state == transcript::TranscriptState::Interrupted <==> t.row.interruption is Some
        },
{
}

fn check_transcript(t: &TranscriptRecord) -> (ok: bool)
    ensures
        ok == transcript_valid(*t),
{
    match &t.frames {
        None => false,
        Some(frames) => {
            if t.row.frame_count < 0 || t.row.frame_count as u128 != frames.len() as u128 {
                return false;
            }
            let digest = transcript::transcript_digest(frames);
            text::opt_text_is(&t.row.digest, digest.as_str()) && transcript::is_consistent(&t.row)
        },
    }
}

/// An entry of a stored snapshot, with the id of the task that its text holds,
/// absent where the text cannot be read.
pub struct SnapshotEntryRecord {
    pub seal: SealEntry,
    pub encoded: String,
    pub held_task_id: Option<String>,
}

/// A stored snapshot.
pub struct SnapshotRecord {
    pub header: SnapshotHeader,
    pub metadata: Vec<u8>,
    pub entries: Vec<SnapshotEntryRecord>,
}

/// The size of a snapshot's entries together.
pub open spec fn entry_bytes(entries: Seq<SnapshotEntryRecord>) -> nat
    decreases entries.len(),
{
    if entries.len() == 0 {
        0
    } else {
        entry_bytes(entries.drop_last()) + text::utf8(entries.last().encoded@).len()
    }
}

/// Whether an entry is intact in its place.
pub open spec fn entry_valid(e: SnapshotEntryRecord, position: int) -> bool {
    &&& e.seal.ordinal == position
    &&& text::opt_text(e.held_task_id) == Some(e.seal.task_id@)
    &&& crypto::content_digest_of(text::utf8(e.encoded@)) == e.seal.digest@
}

/// The seals of a snapshot's entries.
pub open spec fn entry_seals(entries: Seq<SnapshotEntryRecord>) -> Seq<SealEntry> {
    Seq::new(entries.len(), |i: int| entries[i].seal)
}

/// Whether a stored snapshot is intact under the cursor key.
pub open spec fn snapshot_valid(s: SnapshotRecord, key: Seq<u8>) -> bool {
    &&& forall|i: int| 0 <= i < s.entries@.len() ==> entry_valid(#[trigger] s.entries@[i], i)
    &&& s.entries@.len() == s.header.total
    &&& entry_bytes(s.entries@) == s.header.frozen_bytes
    &&& s.header.expires_at == s.header.issued_at + listing::SNAPSHOT_TTL_MILLIS
    &&& s.metadata@ == listing::snapshot_seal(key, s.header, entry_seals(s.entries@))
}

/// A stored snapshot is intact only where every entry stands at its place, holds the task that it
/// is sealed for under its own digest, and all of them are counted, measured and sealed, for five
/// minutes.
pub proof fn law_snapshots_are_sealed_over_their_entries(s: SnapshotRecord, key: Seq<u8>)
    ensures
        snapshot_valid(s, key) <==> {
            &&& s.header.total == s.entries@.len()
            &&& s.header.frozen_bytes == entry_bytes(s.entries@)
            &&& s.header.expires_at - s.header.issued_at == 300_000
            &&& s.metadata@ == listing::snapshot_seal(key, s.header, entry_seals(s.entries@))
            &&& forall|i: int|
                0 <= i < s.entries@.len() ==> (#[trigger] s.entries@[i]).seal.ordinal == i && s.entries@[i].held_task_id
                    is Some && s.entries@[i].held_task_id->0@ == s.entries@[i].seal.task_id@ && s.entries@[i].seal.digest@
                    == crypto::content_digest_of(text::utf8(s.entries@[i].encoded@))
        },
{
    if snapshot_valid(s, key) {
        assert forall|i: int| 0 <= i < s.entries@.len() implies (#[trigger] s.entries@[i]).seal.ordinal == i
            && s.entries@[i].held_task_id is Some && s.entries@[i].held_task_id->0@ == s.entries@[i].seal.task_id@
            && s.entries@[i].seal.digest@ == crypto::content_digest_of(text::utf8(s.entries@[i].encoded@)) by {
            assert(entry_valid(s.entries@[i], i));
        }
    }
}

/// The size of entries is the sum of their sizes.
pub proof fn law_entry_sizes_add_up(
    first: Seq<SnapshotEntryRecord>,
    second: Seq<SnapshotEntryRecord>,
    one: SnapshotEntryRecord,
)
    ensures
        entry_bytes(first + second) == entry_bytes(first) + entry_bytes(second),
        entry_bytes(seq![one]) == text::utf8(one.encoded@).len(),
    decreases second.len(),
{
    assert(seq![one].drop_last() =~= Seq::<SnapshotEntryRecord>::empty());
    assert(entry_bytes(seq![one].drop_last()) == 0);
    if second.len() == 0 {
        assert(first + second =~= first);
    } else {
        law_entry_sizes_add_up(first, second.drop_last(), one);
        assert((first + second).drop_last() =~= first + second.drop_last());
        assert((first + second).last() == second.last());
    }
}

fn check_entries(entries: &Vec<SnapshotEntryRecord>) -> (r: bool)
    ensures
        r == forall|i: int| 0 <= i < entries@.len() ==> entry_valid(#[trigger] entries@[i], i),
{
    let mut i: usize = 0;
    while i < entries.len()
        invariant
            i <= entries@.len(),
            forall|j: int| 0 <= j < i ==> entry_valid(#[trigger] entries@[j], j),
        decreases entries@.len() - i,
    {
        let e = &entries[i];
        let digest = crypto::text_digest(e.encoded.as_str());
        let in_place = e.seal.ordinal >= 0 && e.seal.ordinal as u128 == i as u128;
        if !in_place || !text::opt_text_is(&e.held_task_id, e.seal.task_id.as_str()) || digest != e.seal.digest {
            assert(!entry_valid(entries@[i as int], i as int));
            return false;
        }
        i += 1;
    }
    true
}

proof fn lemma_entry_bytes_prefix(entries: Seq<SnapshotEntryRecord>, i: int)
    requires
        0 <= i <= entries.len(),
    ensures
        entry_bytes(entries.subrange(0, i)) <= entry_bytes(entries),
    decreases entries.len() - i,
{
    if i == entries.len() {
        assert(entries.subrange(0, i) =~= entries);
    } else {
        lemma_entry_bytes_prefix(entries, i + 1);
        assert(entries.subrange(0, i + 1).drop_last() =~= entries.subrange(0, i));
    }
}

fn sum_entries(entries: &Vec<SnapshotEntryRecord>) -> (r: Option<u64>)
    ensures
        match r {
            Some(n) => n == entry_bytes(entries@),
            None => entry_bytes(entries@) > u64::MAX,
        },
{
    let mut total: u64 = 0;
    let mut i: usize = 0;
    assert(entries@.subrange(0, 0) =~= Seq::<SnapshotEntryRecord>::empty());
    while i < entries.len()
        invariant
            i <= entries@.len(),
            total == entry_bytes(entries@.subrange(0, i as int)),
        decreases entries@.len() - i,
    {
        proof {
            assert(entries@.subrange(0, i + 1).drop_last() =~= entries@.subrange(0, i as int));
            assert(entries@.subrange(0, i + 1).last() == entries@[i as int]);
        }
        let n: usize = text::byte_len(entries[i].encoded.as_str());
        match total.checked_add(n as u64) {
            Some(next) => {
                total = next;
            },
            None => {
                proof {
                    lemma_entry_bytes_prefix(entries@, i + 1);
                }
                return None;
            },
        }
        i += 1;
    }
    assert(entries@.subrange(0, i as int) =~= entries@);
    Some(total)
}

/// Whether two seal entries say the same.
pub open spec fn seal_same(a: SealEntry, b: SealEntry) -> bool {
    a.ordinal == b.ordinal && a.task_id@ == b.task_id@ && a.revision == b.revision && a.digest@ == b.digest@
}

proof fn lemma_seal_bytes_same(a: Seq<SealEntry>, b: Seq<SealEntry>)
    requires
        a.len() == b.len(),
        forall|i: int| 0 <= i < a.len() ==> seal_same(#[trigger] a[i], b[i]),
    ensures
        listing::seal_bytes(a) == listing::seal_bytes(b),
    decreases a.len(),
{
    if a.len() > 0 {
        assert forall|i: int| 0 <= i < a.drop_last().len() implies seal_same(
            #[trigger] a.drop_last()[i],
            b.drop_last()[i],
        ) by {
            assert(seal_same(a[i], b[i]));
        }
        lemma_seal_bytes_same(a.drop_last(), b.drop_last());
        assert(seal_same(a[a.len() - 1], b[b.len() - 1]));
    }
}

fn collect_seals(entries: &Vec<SnapshotEntryRecord>) -> (r: Vec<SealEntry>)
    ensures
        listing::seal_bytes(r@) == listing::seal_bytes(entry_seals(entries@)),
{
    let mut out: Vec<SealEntry> = Vec::new();
    let mut i: usize = 0;
    while i < entries.len()
        invariant
            i <= entries@.len(),
            out@.len() == i,
            forall|j: int| 0 <= j < i ==> seal_same(#[trigger] out@[j], entries@[j].seal),
        decreases entries@.len() - i,
    {
        let e = &entries[i].seal;
        out.push(
            SealEntry {
                ordinal: e.ordinal,
                task_id: e.task_id.clone(),
                revision: e.revision,
                digest: e.digest.clone(),
            },
        );
        i += 1;
    }
    proof {
        let b = entry_seals(entries@);
        assert forall|j: int| 0 <= j < out@.len() implies seal_same(#[trigger] out@[j], b[j]) by {}
        lemma_seal_bytes_same(out@, b);
    }
    out
}

fn check_snapshot(s: &SnapshotRecord, key: &[u8; 32]) -> (ok: bool)
    ensures
        ok == snapshot_valid(*s, key@),
{
    if !check_entries(&s.entries) {
        return false;
    }
    if s.header.total < 0 || s.header.total as u128 != s.entries.len() as u128 {
        return false;
    }
    let sized = match sum_entries(&s.entries) {
        Some(n) => s.header.frozen_bytes >= 0 && s.header.frozen_bytes as u64 == n,
        None => false,
    };
    if !sized || s.header.issued_at.checked_add(listing::SNAPSHOT_TTL_MILLIS) != Some(s.header.expires_at) {
        return false;
    }
    let seals = collect_seals(&s.entries);
    let metadata: [u8; 32] = listing::snapshot_metadata_digest(key, &s.header, &seals);
    assert(listing::snapshot_seal_input(s.header, seals@) == listing::snapshot_seal_input(
        s.header,
        entry_seals(s.entries@),
    ));
    text::same_bytes(s.metadata.as_slice(), metadata.as_slice())
}

/// An audited change of the quota policy. Its targets are a list of scopes, each with a
/// dimension.
pub struct ReconciliationRecord {
    pub tenant_scope: String,
    pub reconciliation_id: String,
    pub old_policy_digest: String,
    pub new_policy_digest: String,
    pub actor_digest: String,
    pub reason_digest: String,
    pub targets: String,
    pub effective_at: i64,
}

/// The identity of an audited change: the digest of everything it says.
pub open spec fn reconciliation_id_of(r: ReconciliationRecord) -> Seq<char> {
    crypto::content_digest_of(
        text::utf8(
            "quota-reconciliation-v1\0"@ + r.tenant_scope@ + "\0"@ + r.old_policy_digest@ + "\0"@
                + r.new_policy_digest@ + "\0"@ + r.actor_digest@ + "\0"@ + r.reason_digest@ + "\0"@
                + text::signed_decimal(r.effective_at as int) + "\0"@ + r.targets@,
        ),
    )
}

/// Computes the identity of an audited change.
pub fn reconciliation_id(r: &ReconciliationRecord) -> (id: String)
    ensures
        id@ == reconciliation_id_of(*r),
{
    let mut key = "quota-reconciliation-v1\0".to_owned();
    key.append(r.tenant_scope.as_str());
    key.append("\0");
    key.append(r.old_policy_digest.as_str());
    key.append("\0");
    key.append(r.new_policy_digest.as_str());
    key.append("\0");
    key.append(r.actor_digest.as_str());
    key.append("\0");
    key.append(r.reason_digest.as_str());
    key.append("\0");
    key.append(text::signed_decimal_text(r.effective_at).as_str());
    key.append("\0");
    key.append(r.targets.as_str());
    crypto::text_digest(key.as_str())
}

/// Whether an audited change is intact.
pub open spec fn reconciliation_valid(r: ReconciliationRecord) -> bool {
    json::json_pairs_readable_of(r.targets@) && r.reconciliation_id@ == reconciliation_id_of(r)
}

/// A stored quota reservation; `accepted` tells whether its columns form a
/// reservation, `owner` is the owner of its task.
pub struct ReservationRecord {
    pub account_id: String,
    pub units: i64,
    pub accepted: bool,
    pub task_id: String,
    pub expires_at: i64,
    pub created_at: i64,
    pub owner: Option<String>,
}

/// Whether a stored quota reservation is valid.
pub open spec fn reservation_valid(r: ReservationRecord) -> bool {
    &&& r.units >= 0
    &&& r.accepted
    &&& 1 <= text::utf8(r.task_id@).len() <= 4096
    &&& 0 < r.created_at <= MAX_TIMESTAMP_MILLIS
    &&& r.created_at < r.expires_at
    &&& text::opt_text(r.owner) == Some(r.account_id@)
}

/// A stored reservation is valid exactly where its units can be counted, its columns form one, its
/// task has a name of one to 4096 bytes, it was made between the epoch and the end of the year
/// 9999, expires after that and belongs to the owner of its task.
pub proof fn law_reservations_belong_to_their_owner(r: ReservationRecord)
    ensures
        reservation_valid(r) <==> {
            &&& r.units >= 0
            &&& r.accepted
            &&& 1 <= text::utf8(r.task_id@).len() <= 4096
            &&& 1 <= r.created_at <= 253_402_300_799_999
            &&& r.expires_at >= r.created_at + 1
            &&& r.owner is Some
            &&& r.owner->0@ == r.account_id@
        },
{
}

fn check_reservation(r: &ReservationRecord) -> (ok: bool)
    ensures
        ok == reservation_valid(*r),
{
    let n: usize = text::byte_len(r.task_id.as_str());
    r.units >= 0 && r.accepted && n >= 1 && n <= 4096 && r.created_at > 0 && r.created_at <= MAX_TIMESTAMP_MILLIS
        && r.created_at < r.expires_at && text::opt_text_is(&r.owner, r.account_id.as_str())
}

/// How many rows violate a rule that the database itself counts.
pub struct ViolationCounts {
    pub quota_evidence_gaps: i64,
    pub quota_leases: i64,
    pub execution_reservations: i64,
    pub receiver_fences: i64,
}

/// Everything that the authority has on record.
pub struct AuthorityImage {
    pub artifacts: ArtifactImage,
    pub violations: ViolationCounts,
    pub reconciliations: Vec<ReconciliationRecord>,
    pub tasks: Vec<TaskRecord>,
    pub events: Vec<EventRecord>,
    pub payloads: Vec<PayloadRecord>,
    pub transcripts: Vec<TranscriptRecord>,
    pub snapshots: Vec<SnapshotRecord>,
    pub reservations: Vec<ReservationRecord>,
}

/// Whether nothing violates a rule that the database counts.
pub open spec fn no_violations(v: ViolationCounts) -> bool {
    v.quota_evidence_gaps == 0 && v.quota_leases == 0 && v.execution_reservations == 0 && v.receiver_fences == 0
}

/// Whether everything on record is valid.
pub open spec fn authority_valid(image: AuthorityImage, key: Seq<u8>) -> bool {
    &&& catalog::artifacts_valid(image.artifacts)
    &&& no_violations(image.violations)
    &&& forall|i: int|
        0 <= i < image.reconciliations@.len() ==> reconciliation_valid(#[trigger] image.reconciliations@[i])
    &&& forall|i: int| 0 <= i < image.tasks@.len() ==> task_record_valid(#[trigger] image.tasks@[i])
    &&& event_log_valid(image.events@)
    &&& forall|i: int| 0 <= i < image.tasks@.len() ==> task_current(#[trigger] image.tasks@[i], image.events@)
    &&& forall|i: int| 0 <= i < image.payloads@.len() ==> payload_valid(#[trigger] image.payloads@[i])
    &&& forall|i: int| 0 <= i < image.transcripts@.len() ==> transcript_valid(#[trigger] image.transcripts@[i])
    &&& forall|i: int| 0 <= i < image.snapshots@.len() ==> snapshot_valid(#[trigger] image.snapshots@[i], key)
    &&& forall|i: int| 0 <= i < image.reservations@.len() ==> reservation_valid(#[trigger] image.reservations@[i])
}

fn all_reconciliations(items: &Vec<ReconciliationRecord>) -> (ok: bool)
    ensures
        ok == forall|i: int| 0 <= i < items@.len() ==> reconciliation_valid(#[trigger] items@[i]),
{
    let mut i: usize = 0;
    while i < items.len()
        invariant
            i <= items@.len(),
            forall|j: int| 0 <= j < i ==> reconciliation_valid(#[trigger] items@[j]),
        decreases items@.len() - i,
    {
        let r = &items[i];
        let id = reconciliation_id(r);
        if !json::json_pairs_readable(r.targets.as_str()) || r.reconciliation_id != id {
            assert(!reconciliation_valid(items@[i as int]));
            return false;
        }
        i += 1;
    }
    true
}

fn all_task_records(items: &Vec<TaskRecord>) -> (ok: bool)
    ensures
        ok == forall|i: int| 0 <= i < items@.len() ==> task_record_valid(#[trigger] items@[i]),
{
    let mut i: usize = 0;
    while i < items.len()
        invariant
            i <= items@.len(),
            forall|j: int| 0 <= j < i ==> task_record_valid(#[trigger] items@[j]),
        decreases items@.len() - i,
    {
        if !check_task_record(&items[i]) {
            assert(!task_record_valid(items@[i as int]));
            return false;
        }
        i += 1;
    }
    true
}

fn all_payloads(items: &Vec<PayloadRecord>) -> (ok: bool)
    ensures
        ok == forall|i: int| 0 <= i < items@.len() ==> payload_valid(#[trigger] items@[i]),
{
    let mut i: usize = 0;
    while i < items.len()
        invariant
            i <= items@.len(),
            forall|j: int| 0 <= j < i ==> payload_valid(#[trigger] items@[j]),
        decreases items@.len() - i,
    {
        if !check_payload(&items[i]) {
            assert(!payload_valid(items@[i as int]));
            return false;
        }
        i += 1;
    }
    true
}

fn all_transcripts(items: &Vec<TranscriptRecord>) -> (ok: bool)
    ensures
        ok == forall|i: int| 0 <= i < items@.len() ==> transcript_valid(#[trigger] items@[i]),
{
    let mut i: usize = 0;
    while i < items.len()
        invariant
            i <= items@.len(),
            forall|j: int| 0 <= j < i ==> transcript_valid(#[trigger] items@[j]),
        decreases items@.len() - i,
    {
        if !check_transcript(&items[i]) {
            assert(!transcript_valid(items@[i as int]));
            return false;
        }
        i += 1;
    }
    true
}

fn all_snapshots(items: &Vec<SnapshotRecord>, key: &[u8; 32]) -> (ok: bool)
    ensures
        ok == forall|i: int| 0 <= i < items@.len() ==> snapshot_valid(#[trigger] items@[i], key@),
{
    let mut i: usize = 0;
    while i < items.len()
        invariant
            i <= items@.len(),
            forall|j: int| 0 <= j < i ==> snapshot_valid(#[trigger] items@[j], key@),
        decreases items@.len() - i,
    {
        if !check_snapshot(&items[i], key) {
            assert(!snapshot_valid(items@[i as int], key@));
            return false;
        }
        i += 1;
    }
    true
}

fn all_reservations(items: &Vec<ReservationRecord>) -> (ok: bool)
    ensures
        ok == forall|i: int| 0 <= i < items@.len() ==> reservation_valid(#[trigger] items@[i]),
{
    let mut i: usize = 0;
    while i < items.len()
        invariant
            i <= items@.len(),
            forall|j: int| 0 <= j < i ==> reservation_valid(#[trigger] items@[j]),
        decreases items@.len() - i,
    {
        if !check_reservation(&items[i]) {
            assert(!reservation_valid(items@[i as int]));
            return false;
        }
        i += 1;
    }
    true
}

/// Validates everything that the authority has on record; one bad record refuses
/// it all.
pub fn validate_semantics(image: &AuthorityImage, cursor_key: &[u8; 32]) -> (r: Result<(), PostgresStoreError>)
    ensures
        r == (if authority_valid(*image, cursor_key@) {
            Ok::<(), PostgresStoreError>(())
        } else {
            Err(PostgresStoreError::InvalidSchema)
        }),
{
    match catalog::validate_artifact_semantics(&image.artifacts) {
        Ok(_) => {},
        Err(e) => {
            return Err(e);
        },
    }
    let v = &image.violations;
    if v.quota_evidence_gaps != 0 || v.quota_leases != 0 || v.execution_reservations != 0 || v.receiver_fences != 0 {
        return Err(PostgresStoreError::InvalidSchema);
    }
    if !all_reconciliations(&image.reconciliations) || !all_task_records(&image.tasks) {
        return Err(PostgresStoreError::InvalidSchema);
    }
    let table = match check_event_log(&image.events) {
        Some(table) => table,
        None => {
            return Err(PostgresStoreError::InvalidSchema);
        },
    };
    if !check_current(&image.tasks, &image.events, &table) {
        return Err(PostgresStoreError::InvalidSchema);
    }
    if !all_payloads(&image.payloads) || !all_transcripts(&image.transcripts) || !all_snapshots(
        &image.snapshots,
        cursor_key,
    ) || !all_reservations(&image.reservations) {
        return Err(PostgresStoreError::InvalidSchema);
    }
    Ok(())
}

/// One bad record refuses everything: an authority is valid only where none of its records is
/// invalid, whichever it is, and nothing violates a rule that the database counts.
pub proof fn law_valid_authorities_hold_no_bad_record(image: AuthorityImage, key: Seq<u8>, i: int)
    requires
        authority_valid(image, key),
    ensures
        catalog::artifacts_valid(image.artifacts),
        event_log_valid(image.events@),
        image.violations.quota_evidence_gaps == 0,
        image.violations.quota_leases == 0,
        image.violations.execution_reservations == 0,
        image.violations.receiver_fences == 0,
        0 <= i < image.reconciliations@.len() ==> reconciliation_valid(image.reconciliations@[i]),
        0 <= i < image.tasks@.len() ==> task_record_valid(image.tasks@[i]) && task_current(
            image.tasks@[i],
            image.events@,
        ),
        0 <= i < image.payloads@.len() ==> payload_valid(image.payloads@[i]),
        0 <= i < image.transcripts@.len() ==> transcript_valid(image.transcripts@[i]),
        0 <= i < image.snapshots@.len() ==> snapshot_valid(image.snapshots@[i], key),
        0 <= i < image.reservations@.len() ==> reservation_valid(image.reservations@[i]),
{
}

/// A store that holds nothing, and that nothing is held against, is valid.
pub proof fn law_empty_authorities_are_valid(image: AuthorityImage, key: Seq<u8>)
    requires
        catalog::artifacts_valid(image.artifacts),
        image.violations.quota_evidence_gaps == 0,
        image.violations.quota_leases == 0,
        image.violations.execution_reservations == 0,
        image.violations.receiver_fences == 0,
        image.reconciliations@.len() == 0,
        image.tasks@.len() == 0,
        image.events@.len() == 0,
        image.payloads@.len() == 0,
        image.transcripts@.len() == 0,
        image.snapshots@.len() == 0,
        image.reservations@.len() == 0,
    ensures
        authority_valid(image, key),
{
}

/// A reconciliation is valid exactly where its targets are readable and it is named for the tenant,
/// both policies, who changed them, why and when, and the targets, each between separators.
pub proof fn law_reconciliations_are_named_for_what_they_changed(r: ReconciliationRecord)
    requires
        !r.tenant_scope@.contains('\0'),
        !r.old_policy_digest@.contains('\0'),
        !r.new_policy_digest@.contains('\0'),
        !r.actor_digest@.contains('\0'),
        !r.reason_digest@.contains('\0'),
        !text::signed_decimal(r.effective_at as int).contains('\0'),
        !r.targets@.contains('\0'),
    ensures
        reconciliation_valid(r) ==> json::json_pairs_readable_of(r.targets@) && exists|named: Seq<char>|
            r.reconciliation_id@ == crypto::content_digest_of(text::utf8(named)) && #[trigger] text::fields(named, '\0')
                == seq![
                "quota-reconciliation-v1"@,
                r.tenant_scope@,
                r.old_policy_digest@,
                r.new_policy_digest@,
                r.actor_digest@,
                r.reason_digest@,
                text::signed_decimal(r.effective_at as int),
                r.targets@,
            ],
        json::json_pairs_readable_of(r.targets@) && r.reconciliation_id@ == reconciliation_id_of(r)
            ==> reconciliation_valid(r),
{
    reveal_strlit("quota-reconciliation-v1\0");
    reveal_strlit("quota-reconciliation-v1");
    reveal_strlit("\0");
    let lead = "quota-reconciliation-v1"@;
    assert(!lead.contains('\0'));
    let time = text::signed_decimal(r.effective_at as int);
    let named = "quota-reconciliation-v1\0"@ + r.tenant_scope@ + "\0"@ + r.old_policy_digest@ + "\0"@
        + r.new_policy_digest@ + "\0"@ + r.actor_digest@ + "\0"@ + r.reason_digest@ + "\0"@ + time + "\0"@ + r.targets@;
    let g = time.push('\0') + r.targets@;
    let f = r.reason_digest@.push('\0') + g;
    let e = r.actor_digest@.push('\0') + f;
    let d = r.new_policy_digest@.push('\0') + e;
    let c = r.old_policy_digest@.push('\0') + d;
    let b = r.tenant_scope@.push('\0') + c;
    assert(named =~= lead.push('\0') + b);
    text::law_leading_fields_come_first(lead, '\0', b);
    text::law_leading_fields_come_first(r.tenant_scope@, '\0', c);
    text::law_leading_fields_come_first(r.old_policy_digest@, '\0', d);
    text::law_leading_fields_come_first(r.new_policy_digest@, '\0', e);
    text::law_leading_fields_come_first(r.actor_digest@, '\0', f);
    text::law_leading_fields_come_first(r.reason_digest@, '\0', g);
    text::law_leading_fields_come_first(time, '\0', r.targets@);
    assert(text::fields(named, '\0') =~= seq![
        lead,
        r.tenant_scope@,
        r.old_policy_digest@,
        r.new_policy_digest@,
        r.actor_digest@,
        r.reason_digest@,
        time,
        r.targets@,
    ]);
}

/// A snapshot lives for five minutes from its issue.
pub proof fn law_valid_snapshots_live_five_minutes(s: SnapshotRecord, key: Seq<u8>)
    requires
        snapshot_valid(s, key),
    ensures
        s.header.expires_at - s.header.issued_at == 5 * 60 * 1000,
        s.entries@.len() == s.header.total,
{
}

} // verus!
