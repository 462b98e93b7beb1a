//! Quota buckets, charges and the decision on a quota intent.

use vstd::prelude::*;

use crate::fault::Fault;
use crate::text;

verus! {

/// Whose usage a bucket counts.
#[derive(Clone, Copy, Debug, PartialEq, Eq, Structural)]
pub enum QuotaScopeKind {
    Tenant,
    Account,
    Principal,
}

/// What a bucket counts.
#[derive(Clone, Copy, Debug, PartialEq, Eq, Structural)]
pub enum QuotaDimension {
    RequestCount,
    ConcurrentActiveWork,
    InputBytes,
    OutputBytes,
    EventCount,
    ConcurrentStreams,
    ConcurrentSubscriptions,
    ReconnectCount,
    RetainedAuthorityBytes,
}

/// How a bucket counts.
#[derive(Clone, Copy, Debug, PartialEq, Eq, Structural)]
pub enum QuotaAlgorithm {
    FixedWindow,
    TokenBucket,
    Gauge,
}

/// The operation that an intent pays for.
#[derive(Clone, Copy, Debug, PartialEq, Eq, Structural)]
pub enum QuotaOperation {
    TaskCreate,
    SendStream,
    TaskContinue,
    TaskGet,
    TaskList,
    TaskCancel,
    Subscribe,
    Reconnect,
    PublicEgress,
}

/// What a quota lease holds open.
#[derive(Clone, Copy, Debug, PartialEq, Eq, Structural)]
pub enum QuotaLeaseKind {
    MessageStream,
    TaskSubscription,
}

/// One charge of an intent.
#[derive(Clone)]
pub struct Charge {
    pub scope_kind: QuotaScopeKind,
    pub scope_id: String,
    pub dimension: QuotaDimension,
    pub algorithm: QuotaAlgorithm,
    pub window_millis: Option<u64>,
    pub units: u64,
}

/// The output that an execution may produce.
#[derive(Clone, Copy, Debug, PartialEq, Eq, Structural)]
pub struct ExecutionBudget {
    pub max_output_bytes: u64,
    pub max_event_count: u64,
}

/// A request to charge an operation against a policy.
#[derive(Clone)]
pub struct QuotaIntent {
    pub tenant_scope: String,
    pub account_id: String,
    pub principal_scope: String,
    pub operation: QuotaOperation,
    pub semantic_id: String,
    pub policy_id: String,
    pub policy_revision: u64,
    pub policy_digest: String,
    pub binding_digest: String,
    pub charges: Vec<Charge>,
    pub execution_budget: Option<ExecutionBudget>,
}

/// The identity of a quota policy.
#[derive(Clone)]
pub struct PolicyIdentity {
    pub policy_id: String,
    pub revision: u64,
    pub digest: String,
}

/// The refill state of a token bucket.
#[derive(Clone, Copy, Debug, PartialEq, Eq, Structural)]
pub struct TokenState {
    pub available: i64,
    pub last_refill_at: i64,
    pub refill_numerator: i64,
    pub refill_period: i64,
    pub refill_remainder: i64,
}

/// How a stored bucket is metered.
#[derive(Clone, Copy, Debug, PartialEq, Eq, Structural)]
pub enum Meter {
    Window,
    Gauge,
    Token(TokenState),
}

/// A stored bucket.
#[derive(Clone, Copy, Debug, PartialEq, Eq, Structural)]
pub struct Bucket {
    pub window_start: i64,
    pub capacity: i64,
    pub used: i64,
    pub meter: Meter,
    pub updated_at: i64,
}

/// What was read for one charge: the limit in force, the stored bucket if there
/// is one, and the authoritative live usage where the dimension has one.
#[derive(Clone, Copy, Debug, PartialEq, Eq, Structural)]
pub struct ChargeFacts {
    pub limit: u64,
    pub stored: Option<Bucket>,
    pub live: Option<i64>,
}

/// What one charge writes: its bucket, the receipt's units and capacity, and
/// whether an allocation row holds the units until the task ends.
#[derive(Clone, Copy, Debug, PartialEq, Eq, Structural)]
pub struct ChargeWrite {
    pub bucket: Bucket,
    pub units: i64,
    pub capacity: i64,
    pub allocate: bool,
}

/// A bucket whose usage lies within its capacity, with a refill state that can
/// be advanced.
pub open spec fn bucket_ok(b: Bucket) -> bool {
    &&& 0 <= b.used <= b.capacity
    &&& match b.meter {
        Meter::Token(t) => {
            &&& 0 <= t.available
            &&& 0 <= t.refill_numerator
            &&& 0 < t.refill_period
            &&& 0 <= t.refill_remainder < t.refill_period
        },
        _ => true,
    }
}

/// The start of the window that a time lies in. A token bucket has one window.
pub open spec fn window_start_of(algorithm: QuotaAlgorithm, window: Option<u64>, now: int) -> int {
    match window {
        Some(w) => if algorithm == QuotaAlgorithm::TokenBucket {
            0
        } else {
            let width = clamp_i64(w);
            now - now % width
        },
        None => 0,
    }
}

/// A 64-bit unsigned number as a signed one, held at the largest.
pub open spec fn clamp_i64(v: u64) -> int {
    if v <= i64::MAX {
        v as int
    } else {
        i64::MAX as int
    }
}

/// A charge whose window can be computed: it is not empty, a token bucket has
/// one, and the window that holds the current time starts at a representable time.
pub open spec fn chargeable(charge: Charge, now: i64) -> bool {
    &&& charge.window_millis matches Some(w) ==> w > 0
    &&& charge.algorithm == QuotaAlgorithm::TokenBucket ==> charge.window_millis is Some
    &&& i64::MIN <= window_start_of(charge.algorithm, charge.window_millis, now as int)
}

/// The window start of a charge.
pub fn window_start(charge: &Charge, now: i64) -> (r: i64)
    requires
        chargeable(*charge, now),
    ensures
        r == window_start_of(charge.algorithm, charge.window_millis, now as int),
{
    if charge.algorithm == QuotaAlgorithm::TokenBucket {
        return 0;
    }
    match charge.window_millis {
        None => 0,
        Some(w) => {
            let width: i64 = if w <= 0x7fff_ffff_ffff_ffff {
                w as i64
            } else {
                i64::MAX
            };
            match now.checked_rem_euclid(width) {
                Some(rest) => now - rest,
                None => 0,
            }
        },
    }
}

/// A window never starts after the time that it holds, and is never longer than
/// its width before that time.
pub proof fn law_window_holds_its_time(algorithm: QuotaAlgorithm, width: u64, now: i64)
    requires
        0 < width <= i64::MAX,
        algorithm != QuotaAlgorithm::TokenBucket,
    ensures
        window_start_of(algorithm, Some(width), now as int) <= now,
        now < window_start_of(algorithm, Some(width), now as int) + width,
        window_start_of(algorithm, Some(width), now as int) % width as int == 0,
{
    let w = width as int;
    let n = now as int;
    vstd::arithmetic::div_mod::lemma_fundamental_div_mod(n, w);
    assert(n - n % w == w * (n / w));
    vstd::arithmetic::div_mod::lemma_mod_multiples_basic(n / w, w);
    assert((n / w) * w == w * (n / w)) by (nonlinear_arith);
}

/// The bucket that a charge starts with where none is stored.
pub open spec fn fresh_bucket(charge: Charge, capacity: i64, now: i64) -> Bucket {
    Bucket {
        window_start: window_start_of(charge.algorithm, charge.window_millis, now as int) as i64,
        capacity,
        used: 0,
        meter: match charge.algorithm {
            QuotaAlgorithm::FixedWindow => Meter::Window,
            QuotaAlgorithm::Gauge => Meter::Gauge,
            QuotaAlgorithm::TokenBucket => Meter::Token(
                TokenState {
                    available: capacity,
                    last_refill_at: now,
                    refill_numerator: capacity,
                    refill_period: clamp_i64(charge.window_millis->0) as i64,
                    refill_remainder: 0,
                },
            ),
        },
        updated_at: now,
    }
}

/// A bucket whose capacity follows a changed limit. A window bucket that has
/// already used more keeps its old capacity.
pub open spec fn with_capacity(b: Bucket, capacity: i64, now: i64) -> Bucket {
    if b.capacity == capacity || (b.meter == Meter::Window && b.used > capacity) {
        b
    } else {
        let updated_at = if now > b.updated_at { now } else { b.updated_at };
        match b.meter {
            Meter::Window => Bucket { capacity, updated_at, ..b },
            Meter::Gauge => Bucket {
                capacity,
                used: if b.used < capacity { b.used } else { capacity },
                updated_at,
                ..b
            },
            Meter::Token(t) => {
                let available = if t.available < capacity { t.available } else { capacity };
                Bucket {
                    capacity,
                    used: (capacity - available) as i64,
                    meter: Meter::Token(TokenState { available, refill_numerator: capacity, ..t }),
                    updated_at,
                    ..b
                }
            },
        }
    }
}

/// The tokens that have come in since the last refill, with the remainder that
/// was carried, in units of one refill period.
pub open spec fn refill_total(t: TokenState, now: i64) -> int {
    let elapsed = if now > t.last_refill_at { now - t.last_refill_at } else { 0 };
    elapsed * t.refill_numerator + t.refill_remainder
}

/// The tokens of a bucket after its refill.
pub open spec fn refilled_tokens(t: TokenState, capacity: i64, now: i64) -> int {
    let grown = t.available + refill_total(t, now) / (t.refill_period as int);
    if grown < capacity { grown } else { capacity as int }
}

/// What charging a bucket does to it, or why it is refused.
pub open spec fn charged_bucket(b: Bucket, units: i64, capacity: i64, now: i64) -> Result<Bucket, Fault> {
    let updated_at = if now > b.updated_at { now } else { b.updated_at };
    if b.capacity != capacity {
        Err(Fault::QuotaExceeded)
    } else {
        match b.meter {
            Meter::Window => if b.used + units <= b.capacity {
                Ok(Bucket { used: (b.used + units) as i64, updated_at, ..b })
            } else {
                Err(Fault::QuotaExceeded)
            },
            Meter::Gauge => {
                let base = if b.used < capacity - units { b.used as int } else { capacity - units };
                Ok(Bucket { used: (base + units) as i64, updated_at, ..b })
            },
            Meter::Token(t) => if refill_total(t, now) / (t.refill_period as int) > i64::MAX {
                Err(Fault::QuotaBucketChargeFailed)
            } else {
                let refilled = refilled_tokens(t, capacity, now);
                if refilled < units {
                    Err(Fault::QuotaExceeded)
                } else {
                    Ok(
                        Bucket {
                            used: (capacity - (refilled - units)) as i64,
                            meter: Meter::Token(
                                TokenState {
                                    available: (refilled - units) as i64,
                                    last_refill_at: if now > t.last_refill_at { now } else { t.last_refill_at },
                                    refill_remainder: if refilled == capacity {
                                        0
                                    } else {
                                        (refill_total(t, now) % (t.refill_period as int)) as i64
                                    },
                                    ..t
                                },
                            ),
                            updated_at,
                            ..b
                        },
                    )
                }
            },
        }
    }
}

/// Whether the live usage that the dimension's own records show leaves room.
pub open spec fn live_leaves_room(live: Option<i64>, units: i64, capacity: i64) -> bool {
    live matches Some(l) ==> l + units <= capacity
}

/// The outcome of one charge.
pub open spec fn charge_outcome(
    charge: Charge,
    facts: ChargeFacts,
    has_task: bool,
    now: i64,
) -> Result<ChargeWrite, Fault> {
    if charge.units > i64::MAX {
        Err(Fault::InvalidQuotaUnits)
    } else if facts.limit > i64::MAX {
        Err(Fault::InvalidQuotaCapacity)
    } else {
        let units = charge.units as i64;
        let capacity = facts.limit as i64;
        let before = with_capacity(
            match facts.stored {
                Some(b) => b,
                None => fresh_bucket(charge, capacity, now),
            },
            capacity,
            now,
        );
        if !live_leaves_room(facts.live, units, capacity) {
            Err(Fault::QuotaExceeded)
        } else {
            match charged_bucket(before, units, capacity, now) {
                Ok(bucket) => Ok(
                    ChargeWrite {
                        bucket,
                        units,
                        capacity,
                        allocate: charge.algorithm == QuotaAlgorithm::Gauge && has_task,
                    },
                ),
                Err(e) => Err(e),
            }
        }
    }
}

/// A bucket that an algorithm keeps.
pub open spec fn kept_by(b: Bucket, algorithm: QuotaAlgorithm) -> bool {
    bucket_ok(b) && match algorithm {
        QuotaAlgorithm::FixedWindow => b.meter == Meter::Window,
        QuotaAlgorithm::Gauge => b.meter == Meter::Gauge,
        QuotaAlgorithm::TokenBucket => b.meter is Token,
    }
}

/// A stored bucket belongs to the charge: it is metered as the charge is.
pub open spec fn bucket_fits(charge: Charge, facts: ChargeFacts) -> bool {
    facts.stored matches Some(b) ==> kept_by(b, charge.algorithm)
}

/// Two charges of one intent meet in one bucket.
pub open spec fn shares_bucket(a: Charge, b: Charge, now: i64) -> bool {
    &&& a.scope_kind == b.scope_kind
    &&& a.scope_id@ == b.scope_id@
    &&& a.dimension == b.dimension
    &&& window_start_of(a.algorithm, a.window_millis, now as int) == window_start_of(
        b.algorithm,
        b.window_millis,
        now as int,
    )
}

/// Charges that can be computed from what was read for them: each has its facts,
/// and those that meet in one bucket are metered alike.
pub open spec fn ready_to_charge(charges: Seq<Charge>, facts: Seq<ChargeFacts>, now: i64) -> bool {
    &&& charges.len() == facts.len()
    &&& forall|i: int|
        0 <= i < charges.len() ==> chargeable(#[trigger] charges[i], now) && bucket_fits(charges[i], facts[i])
    &&& forall|i: int, j: int|
        0 <= i < j < charges.len() && #[trigger] shares_bucket(charges[i], charges[j], now)
            ==> charges[i].algorithm == charges[j].algorithm
}

/// The bucket that a charge finds after others: what the last of them to meet it
/// wrote, and the stored one where none did.
pub open spec fn found_bucket(
    done: Seq<Charge>,
    writes: Seq<ChargeWrite>,
    charge: Charge,
    stored: Option<Bucket>,
    now: i64,
) -> Option<Bucket>
    decreases done.len(),
{
    if done.len() == 0 {
        stored
    } else if shares_bucket(done.last(), charge, now) {
        Some(writes.last().bucket)
    } else {
        found_bucket(done.drop_last(), writes.drop_last(), charge, stored, now)
    }
}

/// Whether the allocation that one charge writes counts as live usage for another.
pub open spec fn counts_as_live(done: Charge, write: ChargeWrite, charge: Charge) -> bool {
    &&& write.allocate
    &&& charge.dimension == QuotaDimension::ConcurrentActiveWork
    &&& done.dimension == charge.dimension
    &&& done.scope_kind == charge.scope_kind
    &&& done.scope_id@ == charge.scope_id@
}

/// The live usage that earlier charges add for a charge.
pub open spec fn live_added(done: Seq<Charge>, writes: Seq<ChargeWrite>, charge: Charge) -> int
    decreases done.len(),
{
    if done.len() == 0 {
        0
    } else {
        live_added(done.drop_last(), writes.drop_last(), charge) + if counts_as_live(
            done.last(),
            writes.last(),
            charge,
        ) {
            writes.last().units as int
        } else {
            0
        }
    }
}

/// What a charge finds after others, from what was read before any of them.
pub open spec fn found_facts(
    done: Seq<Charge>,
    writes: Seq<ChargeWrite>,
    charge: Charge,
    facts: ChargeFacts,
    now: i64,
) -> ChargeFacts {
    ChargeFacts {
        limit: facts.limit,
        stored: found_bucket(done, writes, charge, facts.stored, now),
        live: match facts.live {
            None => None,
            Some(live) => {
                let total = live + live_added(done, writes, charge);
                Some(if total < i64::MAX { total as i64 } else { i64::MAX })
            },
        },
    }
}

fn make_bucket(charge: &Charge, capacity: i64, now: i64) -> (r: Bucket)
    requires
        chargeable(*charge, now),
    ensures
        r == fresh_bucket(*charge, capacity, now),
{
    let meter = match charge.algorithm {
        QuotaAlgorithm::FixedWindow => Meter::Window,
        QuotaAlgorithm::Gauge => Meter::Gauge,
        QuotaAlgorithm::TokenBucket => {
            let width: u64 = match charge.window_millis {
                Some(w) => w,
                None => 1,
            };
            let period: i64 = if width <= 0x7fff_ffff_ffff_ffff {
                width as i64
            } else {
                i64::MAX
            };
            Meter::Token(
                TokenState {
                    available: capacity,
                    last_refill_at: now,
                    refill_numerator: capacity,
                    refill_period: period,
                    refill_remainder: 0,
                },
            )
        },
    };
    Bucket { window_start: window_start(charge, now), capacity, used: 0, meter, updated_at: now }
}

/// Lets a bucket's capacity follow a changed limit.
pub fn adjust_capacity(b: Bucket, capacity: i64, now: i64) -> (r: Bucket)
    requires
        bucket_ok(b),
        0 <= capacity,
    ensures
        r == with_capacity(b, capacity, now),
        bucket_ok(r),
{
    if b.capacity == capacity {
        return b;
    }
    let updated_at: i64 = if now > b.updated_at {
        now
    } else {
        b.updated_at
    };
    match b.meter {
        Meter::Window => if b.used > capacity {
            b
        } else {
            Bucket { window_start: b.window_start, capacity, used: b.used, meter: b.meter, updated_at }
        },
        Meter::Gauge => Bucket {
            window_start: b.window_start,
            capacity,
            used: if b.used < capacity {
                b.used
            } else {
                capacity
            },
            meter: b.meter,
            updated_at,
        },
        Meter::Token(t) => {
            let available: i64 = if t.available < capacity {
                t.available
            } else {
                capacity
            };
            Bucket {
                window_start: b.window_start,
                capacity,
                used: capacity - available,
                meter: Meter::Token(
                    TokenState {
                        available,
                        last_refill_at: t.last_refill_at,
                        refill_numerator: capacity,
                        refill_period: t.refill_period,
                        refill_remainder: t.refill_remainder,
                    },
                ),
                updated_at,
            }
        },
    }
}

proof fn lemma_refill_fits(elapsed: int, numerator: int, remainder: int)
    requires
        0 <= elapsed <= 0xffff_ffff_ffff_ffff,
        0 <= numerator <= 0x7fff_ffff_ffff_ffff,
        0 <= remainder <= 0x7fff_ffff_ffff_ffff,
    ensures
        0 <= elapsed * numerator,
        elapsed * numerator + remainder <= 0x7fff_ffff_ffff_ffff_ffff_ffff_ffff_ffff,
{
    assert(0 <= elapsed * numerator <= 0xffff_ffff_ffff_ffff * 0x7fff_ffff_ffff_ffff) by (nonlinear_arith)
        requires
            0 <= elapsed <= 0xffff_ffff_ffff_ffff,
            0 <= numerator <= 0x7fff_ffff_ffff_ffff,
    ;
}

/// Charges units to a bucket whose capacity is the limit in force.
pub fn charge_bucket(b: Bucket, units: i64, capacity: i64, now: i64) -> (r: Result<Bucket, Fault>)
    requires
        bucket_ok(b),
        0 <= units,
        0 <= capacity,
    ensures
        r == charged_bucket(b, units, capacity, now),
        r matches Ok(after) ==> bucket_ok(after) && after.capacity == b.capacity,
{
    if b.capacity != capacity {
        return Err(Fault::QuotaExceeded);
    }
    let updated_at: i64 = if now > b.updated_at {
        now
    } else {
        b.updated_at
    };
    match b.meter {
        Meter::Window => if b.used <= capacity - units {
            Ok(Bucket { window_start: b.window_start, capacity, used: b.used + units, meter: b.meter, updated_at })
        } else {
            Err(Fault::QuotaExceeded)
        },
        Meter::Gauge => {
            let room: i64 = capacity - units;
            let base: i64 = if b.used < room {
                b.used
            } else {
                room
            };
            Ok(Bucket { window_start: b.window_start, capacity, used: base + units, meter: b.meter, updated_at })
        },
        Meter::Token(t) => {
            let elapsed: i128 = if now > t.last_refill_at {
                (now as i128) - (t.last_refill_at as i128)
            } else {
                0
            };
            proof {
                lemma_refill_fits(elapsed as int, t.refill_numerator as int, t.refill_remainder as int);
            }
            let total: i128 = elapsed * (t.refill_numerator as i128) + (t.refill_remainder as i128);
            let grown: i128 = total / (t.refill_period as i128);
            if grown > 0x7fff_ffff_ffff_ffff {
                return Err(Fault::QuotaBucketChargeFailed);
            }
            let sum: i128 = (t.available as i128) + grown;
            let refilled: i64 = if sum < (capacity as i128) {
                proof {
                    vstd::arithmetic::div_mod::lemma_div_pos_is_pos(total as int, t.refill_period as int);
                }
                sum as i64
            } else {
                capacity
            };
            proof {
                vstd::arithmetic::div_mod::lemma_div_pos_is_pos(total as int, t.refill_period as int);
            }
            if refilled < units {
                return Err(Fault::QuotaExceeded);
            }
            let remainder: i64 = if refilled == capacity {
                0
            } else {
                proof {
                    vstd::arithmetic::div_mod::lemma_mod_bound(total as int, t.refill_period as int);
                }
                (total % (t.refill_period as i128)) as i64
            };
            Ok(
                Bucket {
                    window_start: b.window_start,
                    capacity,
                    used: capacity - (refilled - units),
                    meter: Meter::Token(
                        TokenState {
                            available: refilled - units,
                            last_refill_at: if now > t.last_refill_at {
                                now
                            } else {
                                t.last_refill_at
                            },
                            refill_numerator: t.refill_numerator,
                            refill_period: t.refill_period,
                            refill_remainder: remainder,
                        },
                    ),
                    updated_at,
                },
            )
        },
    }
}

/// The tokens that a charge leaves and the usage that it records add up to the
/// capacity.
pub proof fn law_token_charge_balances(b: Bucket, units: i64, capacity: i64, now: i64)
    requires
        bucket_ok(b),
        b.meter is Token,
        0 <= units,
        0 <= capacity,
        charged_bucket(b, units, capacity, now) is Ok,
    ensures
        ({
            let after = charged_bucket(b, units, capacity, now)->Ok_0;
            after.meter is Token && after.meter->Token_0.available + after.used == after.capacity
        }),
{
    let t = b.meter->Token_0;
    let elapsed = if now > t.last_refill_at { now - t.last_refill_at } else { 0 };
    lemma_refill_fits(elapsed, t.refill_numerator as int, t.refill_remainder as int);
    vstd::arithmetic::div_mod::lemma_div_pos_is_pos(refill_total(t, now), t.refill_period as int);
}

/// Two charges in a row at one time take what one charge of both takes.
pub proof fn law_window_charges_add_up(b: Bucket, first: i64, second: i64, capacity: i64, now: i64)
    requires
        bucket_ok(b),
        b.meter == Meter::Window,
        0 <= first,
        0 <= second,
        first + second <= i64::MAX,
    ensures
        charged_bucket(b, (first + second) as i64, capacity, now) is Ok ==> {
            &&& charged_bucket(b, first, capacity, now) is Ok
            &&& charged_bucket(charged_bucket(b, first, capacity, now)->Ok_0, second, capacity, now)
                == charged_bucket(b, (first + second) as i64, capacity, now)
        },
{
}

/// One charge: the bucket and receipt that it writes, or why it is refused.
pub fn plan_charge(charge: &Charge, facts: &ChargeFacts, has_task: bool, now: i64) -> (r: Result<ChargeWrite, Fault>)
    requires
        chargeable(*charge, now),
        bucket_fits(*charge, *facts),
    ensures
        r == charge_outcome(*charge, *facts, has_task, now),
        r matches Ok(w) ==> kept_by(w.bucket, charge.algorithm) && w.bucket.capacity == w.capacity && 0 <= w.units,
{
    if charge.units > 0x7fff_ffff_ffff_ffff {
        return Err(Fault::InvalidQuotaUnits);
    }
    if facts.limit > 0x7fff_ffff_ffff_ffff {
        return Err(Fault::InvalidQuotaCapacity);
    }
    let units: i64 = charge.units as i64;
    let capacity: i64 = facts.limit as i64;
    let start = match facts.stored {
        Some(b) => b,
        None => make_bucket(charge, capacity, now),
    };
    let before = adjust_capacity(start, capacity, now);
    if let Some(live) = facts.live {
        if live > capacity - units {
            return Err(Fault::QuotaExceeded);
        }
    }
    match charge_bucket(before, units, capacity, now) {
        Ok(bucket) => Ok(
            ChargeWrite {
                bucket,
                units,
                capacity,
                allocate: charge.algorithm == QuotaAlgorithm::Gauge && has_task,
            },
        ),
        Err(e) => Err(e),
    }
}

/// A charge that finds no bucket is granted under every algorithm where it is no larger
/// than the limit and the live usage leaves room: the bucket that it writes has used the
/// units and no more, holds the limit as its capacity, and a token bucket starts full, so
/// that the rest of the limit is left in it.
pub proof fn law_first_charges_are_granted(charge: Charge, facts: ChargeFacts, has_task: bool, now: i64)
    requires
        charge.window_millis matches Some(width) ==> width > 0,
        charge.algorithm == QuotaAlgorithm::TokenBucket ==> charge.window_millis is Some,
        facts.stored is None,
        facts.live matches Some(live) ==> live + charge.units <= facts.limit,
        charge.units <= facts.limit <= i64::MAX,
    ensures
        charge_outcome(charge, facts, has_task, now) is Ok,
        ({
            let write = charge_outcome(charge, facts, has_task, now)->Ok_0;
            let bucket = write.bucket;
            &&& write.units == charge.units
            &&& write.capacity == facts.limit
            &&& write.allocate == (charge.algorithm == QuotaAlgorithm::Gauge && has_task)
            &&& bucket.used == charge.units
            &&& bucket.capacity == facts.limit
            &&& bucket.updated_at == now
            &&& match charge.algorithm {
                QuotaAlgorithm::FixedWindow => bucket.meter == Meter::Window,
                QuotaAlgorithm::Gauge => bucket.meter == Meter::Gauge,
                QuotaAlgorithm::TokenBucket => {
                    &&& bucket.meter is Token
                    &&& bucket.meter->Token_0.available == facts.limit - charge.units
                    &&& bucket.meter->Token_0.last_refill_at == now
                    &&& bucket.meter->Token_0.refill_numerator == facts.limit
                    &&& bucket.meter->Token_0.refill_remainder == 0
                    &&& charge.window_millis->0 <= i64::MAX ==> bucket.meter->Token_0.refill_period
                        == charge.window_millis->0
                    &&& charge.window_millis->0 > i64::MAX ==> bucket.meter->Token_0.refill_period == i64::MAX
                },
            }
        }),
{
    if charge.algorithm == QuotaAlgorithm::TokenBucket {
        let width = charge.window_millis->0;
        let period = if width <= i64::MAX { width as int } else { i64::MAX as int };
        let elapsed: int = 0;
        assert(elapsed * (facts.limit as int) == 0) by (nonlinear_arith)
            requires
                elapsed == 0,
        ;
        vstd::arithmetic::div_mod::lemma_fundamental_div_mod_converse(0, period, 0, 0);
    }
}

/// The bucket that a first charge writes stands for the time of the charge: a window
/// starts no later, ends after it and starts at a multiple of its width, and a bucket
/// without windows starts at zero.
pub proof fn law_first_charges_open_the_current_window(
    charge: Charge,
    facts: ChargeFacts,
    has_task: bool,
    now: i64,
)
    requires
        charge.window_millis matches Some(width) ==> 0 < width <= i64::MAX && i64::MIN + width <= now,
        facts.stored is None,
        charge_outcome(charge, facts, has_task, now) is Ok,
    ensures
        ({
            let start = charge_outcome(charge, facts, has_task, now)->Ok_0.bucket.window_start;
            if charge.algorithm == QuotaAlgorithm::TokenBucket || charge.window_millis is None {
                start == 0
            } else {
                let width = charge.window_millis->0 as int;
                &&& start <= now < start + width
                &&& start as int % width == 0
            }
        }),
{
    if charge.algorithm != QuotaAlgorithm::TokenBucket && charge.window_millis is Some {
        law_window_holds_its_time(charge.algorithm, charge.window_millis->0, now);
        vstd::arithmetic::div_mod::lemma_mod_bound(now as int, charge.window_millis->0 as int);
    }
}

/// Live usage that leaves no room refuses a charge, whatever its bucket holds.
pub proof fn law_live_usage_refuses(charge: Charge, facts: ChargeFacts, has_task: bool, now: i64)
    requires
        charge.units <= i64::MAX,
        facts.limit <= i64::MAX,
        facts.live matches Some(live) && live + charge.units > facts.limit,
    ensures
        charge_outcome(charge, facts, has_task, now) == Err::<ChargeWrite, Fault>(Fault::QuotaExceeded),
{
}

/// Units and limits beyond what a bucket can count are refused by their own faults, the
/// units first.
pub proof fn law_uncountable_charges_are_refused(charge: Charge, facts: ChargeFacts, has_task: bool, now: i64)
    ensures
        charge.units > i64::MAX ==> charge_outcome(charge, facts, has_task, now) == Err::<ChargeWrite, Fault>(
            Fault::InvalidQuotaUnits,
        ),
        charge.units <= i64::MAX && facts.limit > i64::MAX ==> charge_outcome(charge, facts, has_task, now)
            == Err::<ChargeWrite, Fault>(Fault::InvalidQuotaCapacity),
{
}

/// A charge on a stored window is granted exactly where what was used and what is asked
/// for stay within the limit together; it then uses exactly that much, in the same window.
pub proof fn law_window_charges_stay_within_the_limit(
    charge: Charge,
    facts: ChargeFacts,
    has_task: bool,
    now: i64,
)
    requires
        charge.units <= i64::MAX,
        facts.limit <= i64::MAX,
        facts.live is None,
        facts.stored matches Some(b) && b.meter == Meter::Window && 0 <= b.used,
    ensures
        ({
            let b = facts.stored->0;
            match charge_outcome(charge, facts, has_task, now) {
                Err(e) => e == Fault::QuotaExceeded && b.used + charge.units > facts.limit,
                Ok(write) => {
                    &&& b.used + charge.units <= facts.limit
                    &&& write.bucket.used == b.used + charge.units
                    &&& write.bucket.capacity == facts.limit
                    &&& write.bucket.window_start == b.window_start
                    &&& write.bucket.meter == Meter::Window
                    &&& write.bucket.updated_at >= now
                    &&& write.bucket.updated_at >= b.updated_at
                    &&& write.bucket.updated_at == now || write.bucket.updated_at == b.updated_at
                    &&& write.units == charge.units
                    &&& write.capacity == facts.limit
                },
            }
        }),
{
}

/// A charge on a stored gauge adds its units to the usage, which never passes the limit
/// in force: the gauge's own records, and not the bucket, decide whether it is granted.
pub proof fn law_gauge_charges_add_up_to_the_limit(
    charge: Charge,
    facts: ChargeFacts,
    has_task: bool,
    now: i64,
)
    requires
        charge.units <= facts.limit <= i64::MAX,
        facts.live matches Some(live) ==> live + charge.units <= facts.limit,
        facts.stored matches Some(b) && b.meter == Meter::Gauge && 0 <= b.used,
    ensures
        charge_outcome(charge, facts, has_task, now) is Ok,
        ({
            let b = facts.stored->0;
            let write = charge_outcome(charge, facts, has_task, now)->Ok_0;
            &&& b.used + charge.units <= facts.limit ==> write.bucket.used == b.used + charge.units
            &&& b.used + charge.units > facts.limit ==> write.bucket.used == facts.limit
            &&& write.bucket.capacity == facts.limit
            &&& write.bucket.window_start == b.window_start
            &&& write.bucket.meter == Meter::Gauge
            &&& write.bucket.updated_at >= now
            &&& write.bucket.updated_at >= b.updated_at
            &&& write.bucket.updated_at == now || write.bucket.updated_at == b.updated_at
            &&& write.units == charge.units
            &&& write.capacity == facts.limit
        }),
{
}

/// A charge on a stored token bucket spends from what was left and what has come in since.
/// `gained` is the number of whole tokens that the elapsed time and the carried remainder
/// amount to at the rate in force, which is the limit per period where the limit has
/// changed. The bucket never holds more than the limit. The charge is granted exactly where
/// the tokens suffice, leaves the rest of them, and carries over the part of a token that
/// has not come in whole, unless the bucket is full.
pub proof fn law_token_charges_spend_what_came_in(
    charge: Charge,
    facts: ChargeFacts,
    has_task: bool,
    now: i64,
    gained: int,
)
    requires
        charge.units <= i64::MAX,
        facts.limit <= i64::MAX,
        facts.live is None,
        facts.stored is Some,
        facts.stored->0.meter is Token,
        ({
            let b = facts.stored->0;
            let t = b.meter->Token_0;
            let rate = if b.capacity == facts.limit { t.refill_numerator as int } else { facts.limit as int };
            let elapsed = if now > t.last_refill_at { now - t.last_refill_at } else { 0 };
            let total = elapsed * rate + t.refill_remainder;
            &&& 0 <= t.available
            &&& 0 < t.refill_period
            &&& 0 <= gained <= i64::MAX
            &&& gained * t.refill_period <= total < gained * t.refill_period + t.refill_period
        }),
    ensures
        ({
            let b = facts.stored->0;
            let t = b.meter->Token_0;
            let rate = if b.capacity == facts.limit { t.refill_numerator as int } else { facts.limit as int };
            let elapsed = if now > t.last_refill_at { now - t.last_refill_at } else { 0 };
            let left = if t.available < facts.limit { t.available as int } else { facts.limit as int };
            let held = if left + gained < facts.limit { left + gained } else { facts.limit as int };
            match charge_outcome(charge, facts, has_task, now) {
                Err(e) => e == Fault::QuotaExceeded && held < charge.units,
                Ok(write) => {
                    &&& held >= charge.units
                    &&& write.bucket.meter is Token
                    &&& write.bucket.meter->Token_0.available == held - charge.units
                    &&& write.bucket.used == facts.limit - (held - charge.units)
                    &&& write.bucket.capacity == facts.limit
                    &&& write.bucket.window_start == b.window_start
                    &&& write.bucket.meter->Token_0.refill_numerator == rate
                    &&& write.bucket.meter->Token_0.refill_period == t.refill_period
                    &&& held < facts.limit ==> write.bucket.meter->Token_0.refill_remainder == elapsed * rate
                        + t.refill_remainder - gained * t.refill_period
                    &&& held == facts.limit ==> write.bucket.meter->Token_0.refill_remainder == 0
                    &&& write.bucket.meter->Token_0.last_refill_at - t.last_refill_at == elapsed
                    &&& write.bucket.updated_at >= now
                    &&& write.bucket.updated_at >= b.updated_at
                    &&& write.bucket.updated_at == now || write.bucket.updated_at == b.updated_at
                    &&& write.units == charge.units
                    &&& write.capacity == facts.limit
                },
            }
        }),
{
    let b = facts.stored->0;
    let t = b.meter->Token_0;
    let rate = if b.capacity == facts.limit { t.refill_numerator as int } else { facts.limit as int };
    let elapsed = if now > t.last_refill_at { now - t.last_refill_at } else { 0 };
    let total = elapsed * rate + t.refill_remainder;
    vstd::arithmetic::div_mod::lemma_fundamental_div_mod_converse(
        total,
        t.refill_period as int,
        gained,
        total - gained * t.refill_period,
    );
    let before = with_capacity(b, facts.limit as i64, now);
    assert(refill_total(before.meter->Token_0, now) == total);
}

fn has_window(charge: &Charge, now: i64) -> (r: bool)
    ensures
        r == chargeable(*charge, now),
{
    match charge.window_millis {
        None => charge.algorithm != QuotaAlgorithm::TokenBucket,
        Some(w) => {
            if w == 0 {
                return false;
            }
            if charge.algorithm == QuotaAlgorithm::TokenBucket {
                return true;
            }
            let width: i64 = if w <= 0x7fff_ffff_ffff_ffff {
                w as i64
            } else {
                i64::MAX
            };
            match now.checked_rem_euclid(width) {
                Some(rest) => (now as i128) - (rest as i128) >= -0x8000_0000_0000_0000,
                None => false,
            }
        },
    }
}

fn keeps(algorithm: QuotaAlgorithm, b: &Bucket) -> (r: bool)
    ensures
        r == kept_by(*b, algorithm),
{
    let metered = match (algorithm, b.meter) {
        (QuotaAlgorithm::FixedWindow, Meter::Window) => true,
        (QuotaAlgorithm::Gauge, Meter::Gauge) => true,
        (QuotaAlgorithm::TokenBucket, Meter::Token(t)) => 0 <= t.available && 0 <= t.refill_numerator && 0
            < t.refill_period && 0 <= t.refill_remainder && t.refill_remainder < t.refill_period,
        _ => false,
    };
    metered && 0 <= b.used && b.used <= b.capacity
}

/// A bucket as it is on record: only a token bucket has tokens and a refill.
pub struct BucketRow {
    pub window_start: i64,
    pub capacity: i64,
    pub used: i64,
    pub available: Option<i64>,
    pub last_refill_at: Option<i64>,
    pub refill_numerator: Option<i64>,
    pub refill_period: Option<i64>,
    pub refill_remainder: Option<i64>,
    pub updated_at: i64,
}

/// How a bucket on record is metered, where its columns say so.
pub open spec fn row_meter(row: BucketRow, algorithm: QuotaAlgorithm) -> Option<Meter> {
    match algorithm {
        QuotaAlgorithm::FixedWindow => Some(Meter::Window),
        QuotaAlgorithm::Gauge => Some(Meter::Gauge),
        QuotaAlgorithm::TokenBucket => if row.available is Some && row.last_refill_at is Some
            && row.refill_numerator is Some && row.refill_period is Some && row.refill_remainder is Some {
            Some(
                Meter::Token(
                    TokenState {
                        available: row.available->0,
                        last_refill_at: row.last_refill_at->0,
                        refill_numerator: row.refill_numerator->0,
                        refill_period: row.refill_period->0,
                        refill_remainder: row.refill_remainder->0,
                    },
                ),
            )
        } else {
            None
        },
    }
}

/// The bucket on record, where it keeps the rules of its algorithm.
pub open spec fn row_bucket(row: BucketRow, algorithm: QuotaAlgorithm) -> Option<Bucket> {
    match row_meter(row, algorithm) {
        None => None,
        Some(meter) => {
            let bucket = Bucket {
                window_start: row.window_start,
                capacity: row.capacity,
                used: row.used,
                meter,
                updated_at: row.updated_at,
            };
            if bucket_ok(bucket) {
                Some(bucket)
            } else {
                None
            }
        },
    }
}

/// Reads a bucket on record. One that does not keep the rules of its algorithm cannot be
/// read.
pub fn stored_bucket(row: &BucketRow, algorithm: QuotaAlgorithm) -> (r: Option<Bucket>)
    ensures
        r == row_bucket(*row, algorithm),
        r matches Some(b) ==> kept_by(b, algorithm),
{
    let meter = match algorithm {
        QuotaAlgorithm::FixedWindow => Meter::Window,
        QuotaAlgorithm::Gauge => Meter::Gauge,
        QuotaAlgorithm::TokenBucket => match (
            row.available,
            row.last_refill_at,
            row.refill_numerator,
            row.refill_period,
            row.refill_remainder,
        ) {
            (Some(available), Some(last_refill_at), Some(refill_numerator), Some(refill_period), Some(
                refill_remainder,
            )) => Meter::Token(
                TokenState { available, last_refill_at, refill_numerator, refill_period, refill_remainder },
            ),
            _ => {
                return None;
            },
        },
    };
    let bucket = Bucket {
        window_start: row.window_start,
        capacity: row.capacity,
        used: row.used,
        meter,
        updated_at: row.updated_at,
    };
    if keeps(algorithm, &bucket) {
        Some(bucket)
    } else {
        None
    }
}

/// The stored text of an algorithm.
pub open spec fn algorithm_text(a: QuotaAlgorithm) -> Seq<char> {
    match a {
        QuotaAlgorithm::FixedWindow => "fixedWindow"@,
        QuotaAlgorithm::TokenBucket => "tokenBucket"@,
        QuotaAlgorithm::Gauge => "gauge"@,
    }
}

/// The stored text of an algorithm.
pub fn quota_algorithm_name(a: QuotaAlgorithm) -> (r: &'static str)
    ensures
        r@ == algorithm_text(a),
{
    match a {
        QuotaAlgorithm::FixedWindow => "fixedWindow",
        QuotaAlgorithm::TokenBucket => "tokenBucket",
        QuotaAlgorithm::Gauge => "gauge",
    }
}

/// Whether charges can be computed from what was read for them.
pub fn can_charge(charges: &Vec<Charge>, facts: &Vec<ChargeFacts>, now: i64) -> (r: bool)
    ensures
        r == ready_to_charge(charges@, facts@, now),
{
    if charges.len() != facts.len() {
        return false;
    }
    let mut i: usize = 0;
    while i < charges.len()
        invariant
            i <= charges@.len(),
            charges@.len() == facts@.len(),
            forall|k: int|
                0 <= k < i ==> chargeable(#[trigger] charges@[k], now) && bucket_fits(charges@[k], facts@[k]),
        decreases charges@.len() - i,
    {
        let fits = match &facts[i].stored {
            Some(b) => keeps(charges[i].algorithm, b),
            None => true,
        };
        if !fits || !has_window(&charges[i], now) {
            assert(!(chargeable(charges@[i as int], now) && bucket_fits(charges@[i as int], facts@[i as int])));
            return false;
        }
        i += 1;
    }
    let mut j: usize = 0;
    while j < charges.len()
        invariant
            j <= charges@.len(),
            charges@.len() == facts@.len(),
            forall|k: int|
                0 <= k < charges@.len() ==> chargeable(#[trigger] charges@[k], now) && bucket_fits(
                    charges@[k],
                    facts@[k],
                ),
            forall|i: int, k: int|
                0 <= i < k < j && #[trigger] shares_bucket(charges@[i], charges@[k], now) ==> charges@[i].algorithm
                    == charges@[k].algorithm,
        decreases charges@.len() - j,
    {
        let mut k: usize = 0;
        while k < j
            invariant
                k <= j < charges@.len(),
                charges@.len() == facts@.len(),
                forall|k: int|
                    0 <= k < charges@.len() ==> chargeable(#[trigger] charges@[k], now) && bucket_fits(
                        charges@[k],
                        facts@[k],
                    ),
                forall|i: int|
                    0 <= i < k && #[trigger] shares_bucket(charges@[i], charges@[j as int], now)
                        ==> charges@[i].algorithm == charges@[j as int].algorithm,
            decreases j - k,
        {
            if charges[k].algorithm != charges[j].algorithm && meet(&charges[k], &charges[j], now) {
                return false;
            }
            k += 1;
        }
        j += 1;
    }
    true
}

/// The charges at given places.
spec fn picked(charges: Seq<Charge>, places: Seq<usize>) -> Seq<Charge> {
    Seq::new(places.len(), |k: int| charges[places[k] as int])
}

fn meet(a: &Charge, b: &Charge, now: i64) -> (r: bool)
    requires
        chargeable(*a, now),
        chargeable(*b, now),
    ensures
        r == shares_bucket(*a, *b, now),
{
    a.scope_kind == b.scope_kind && a.scope_id == b.scope_id && a.dimension == b.dimension && window_start(a, now)
        == window_start(b, now)
}

fn live_counts(done: &Charge, write: &ChargeWrite, charge: &Charge) -> (r: bool)
    ensures
        r == counts_as_live(*done, *write, *charge),
{
    write.allocate && charge.dimension == QuotaDimension::ConcurrentActiveWork && done.dimension == charge.dimension
        && done.scope_kind == charge.scope_kind && done.scope_id == charge.scope_id
}

/// Charges at earlier places that the one at a place may meet.
spec fn may_meet(charges: Seq<Charge>, places: Seq<usize>, at: int, now: i64) -> bool {
    &&& chargeable(charges[at], now)
    &&& forall|k: int|
        0 <= k < places.len() ==> (#[trigger] places[k]) < at && chargeable(charges[places[k] as int], now) && (
        shares_bucket(charges[places[k] as int], charges[at], now) ==> charges[places[k] as int].algorithm
            == charges[at].algorithm)
}

/// What the charge at a place finds after those at earlier places have written.
fn find_facts(
    charges: &Vec<Charge>,
    places: &Vec<usize>,
    writes: &Vec<ChargeWrite>,
    at: usize,
    facts: &ChargeFacts,
    now: i64,
) -> (r: ChargeFacts)
    requires
        at < charges@.len(),
        places@.len() == writes@.len(),
        may_meet(charges@, places@, at as int, now),
        forall|k: int|
            0 <= k < places@.len() ==> kept_by(
                (#[trigger] writes@[k]).bucket,
                charges@[places@[k] as int].algorithm,
            ) && 0 <= writes@[k].units,
        bucket_fits(charges@[at as int], *facts),
    ensures
        r == found_facts(picked(charges@, places@), writes@, charges@[at as int], *facts, now),
        bucket_fits(charges@[at as int], r),
{
    let ghost done = picked(charges@, places@);
    let ghost charge = charges@[at as int];
    let mut stored = facts.stored;
    let mut extra: i128 = 0;
    let mut k: usize = 0;
    while k < places.len()
        invariant
            k <= places@.len(),
            places@.len() == writes@.len(),
            at < charges@.len(),
            done == picked(charges@, places@),
            charge == charges@[at as int],
            may_meet(charges@, places@, at as int, now),
            forall|k: int|
                0 <= k < places@.len() ==> kept_by(
                    (#[trigger] writes@[k]).bucket,
                    charges@[places@[k] as int].algorithm,
                ) && 0 <= writes@[k].units,
            stored == found_bucket(done.take(k as int), writes@.take(k as int), charge, facts.stored, now),
            stored matches Some(b) ==> kept_by(b, charge.algorithm),
            extra == live_added(done.take(k as int), writes@.take(k as int), charge),
            0 <= extra <= k * 0x7fff_ffff_ffff_ffff,
        decreases places@.len() - k,
    {
        proof {
            assert(done.take(k + 1).drop_last() =~= done.take(k as int));
            assert(writes@.take(k + 1).drop_last() =~= writes@.take(k as int));
            assert(done.take(k + 1).last() == charges@[places@[k as int] as int]);
            assert(writes@.take(k + 1).last() == writes@[k as int]);
        }
        assert(places@[k as int] < at);
        let earlier = &charges[places[k]];
        let write = writes[k];
        if meet(earlier, &charges[at], now) {
            stored = Some(write.bucket);
        }
        if live_counts(earlier, &write, &charges[at]) {
            extra = extra + (write.units as i128);
        }
        k += 1;
    }
    assert(done.take(k as int) =~= done);
    assert(writes@.take(k as int) =~= writes@);
    let live = match facts.live {
        None => None,
        Some(live) => {
            let total: i128 = (live as i128) + extra;
            if total < 0x7fff_ffff_ffff_ffff {
                Some(total as i64)
            } else {
                Some(0x7fff_ffff_ffff_ffff)
            }
        },
    };
    ChargeFacts { limit: facts.limit, stored, live }
}

/// The outcome of a run of charges: what each writes, or the first refusal. A
/// charge meets the buckets as the charges before it leave them.
pub open spec fn charges_outcome(
    charges: Seq<Charge>,
    facts: Seq<ChargeFacts>,
    has_task: bool,
    now: i64,
) -> Result<Seq<ChargeWrite>, Fault>
    decreases charges.len(),
{
    if charges.len() == 0 {
        Ok(Seq::empty())
    } else {
        match charges_outcome(charges.drop_last(), facts.drop_last(), has_task, now) {
            Err(e) => Err(e),
            Ok(done) => match charge_outcome(
                charges.last(),
                found_facts(charges.drop_last(), done, charges.last(), facts.last(), now),
                has_task,
                now,
            ) {
                Ok(w) => Ok(done.push(w)),
                Err(e) => Err(e),
            },
        }
    }
}

proof fn lemma_charges_prefix_error(charges: Seq<Charge>, facts: Seq<ChargeFacts>, has_task: bool, now: i64, n: int)
    requires
        0 <= n <= charges.len(),
        charges.len() == facts.len(),
        charges_outcome(charges.subrange(0, n), facts.subrange(0, n), has_task, now) is Err,
    ensures
        charges_outcome(charges, facts, has_task, now) == charges_outcome(
            charges.subrange(0, n),
            facts.subrange(0, n),
            has_task,
            now,
        ),
    decreases charges.len() - n,
{
    if n == charges.len() {
        assert(charges.subrange(0, n) =~= charges);
        assert(facts.subrange(0, n) =~= facts);
    } else {
        assert(charges.subrange(0, n + 1).drop_last() =~= charges.subrange(0, n));
        assert(facts.subrange(0, n + 1).drop_last() =~= facts.subrange(0, n));
        lemma_charges_prefix_error(charges, facts, has_task, now, n + 1);
    }
}

/// Every charge of an intent in order. The first refusal refuses them all.
pub fn plan_charges(charges: &Vec<Charge>, facts: &Vec<ChargeFacts>, has_task: bool, now: i64) -> (r: Result<
    Vec<ChargeWrite>,
    Fault,
>)
    requires
        ready_to_charge(charges@, facts@, now),
    ensures
        match r {
            Ok(w) => charges_outcome(charges@, facts@, has_task, now) == Ok::<Seq<ChargeWrite>, Fault>(w@),
            Err(e) => charges_outcome(charges@, facts@, has_task, now) == Err::<Seq<ChargeWrite>, Fault>(e),
        },
        r matches Ok(w) ==> w@.len() == charges@.len() && forall|i: int|
            0 <= i < w@.len() ==> bucket_ok((#[trigger] w@[i]).bucket),
{
    let mut out: Vec<ChargeWrite> = Vec::new();
    let mut places: Vec<usize> = Vec::new();
    let mut i: usize = 0;
    assert(charges@.subrange(0, 0) =~= Seq::<Charge>::empty());
    while i < charges.len()
        invariant
            i <= charges@.len(),
            ready_to_charge(charges@, facts@, now),
            out@.len() == i,
            places@.len() == i,
            forall|k: int| 0 <= k < i ==> (#[trigger] places@[k]) == k,
            forall|k: int|
                0 <= k < i ==> kept_by((#[trigger] out@[k]).bucket, charges@[k].algorithm) && 0 <= out@[k].units,
            charges_outcome(charges@.subrange(0, i as int), facts@.subrange(0, i as int), has_task, now)
                == Ok::<Seq<ChargeWrite>, Fault>(out@),
        decreases charges@.len() - i,
    {
        let found = find_facts(charges, &places, &out, i, &facts[i], now);
        assert(picked(charges@, places@) =~= charges@.subrange(0, i as int));
        let step = plan_charge(&charges[i], &found, has_task, now);
        proof {
            let c = charges@.subrange(0, i + 1);
            let f = facts@.subrange(0, i + 1);
            assert(c.drop_last() =~= charges@.subrange(0, i as int));
            assert(f.drop_last() =~= facts@.subrange(0, i as int));
            assert(c.last() == charges@[i as int] && f.last() == facts@[i as int]);
        }
        match step {
            Ok(w) => {
                out.push(w);
                places.push(i);
            },
            Err(e) => {
                proof {
                    lemma_charges_prefix_error(charges@, facts@, has_task, now, i + 1);
                }
                return Err(e);
            },
        }
        i += 1;
    }
    assert(charges@.subrange(0, i as int) =~= charges@);
    assert(facts@.subrange(0, i as int) =~= facts@);
    Ok(out)
}

proof fn lemma_last_to_meet(
    done: Seq<Charge>,
    writes: Seq<ChargeWrite>,
    charge: Charge,
    stored: Option<Bucket>,
    now: i64,
    i: int,
)
    requires
        done.len() == writes.len(),
        0 <= i < done.len(),
        shares_bucket(done[i], charge, now),
        forall|k: int| i < k < done.len() ==> !#[trigger] shares_bucket(done[k], charge, now),
    ensures
        found_bucket(done, writes, charge, stored, now) == Some(writes[i].bucket),
    decreases done.len(),
{
    if i < done.len() - 1 {
        assert(!shares_bucket(done[done.len() - 1], charge, now));
        assert forall|k: int| i < k < done.drop_last().len() implies !#[trigger] shares_bucket(
            done.drop_last()[k],
            charge,
            now,
        ) by {
            assert(!shares_bucket(done[k], charge, now));
        }
        lemma_last_to_meet(done.drop_last(), writes.drop_last(), charge, stored, now, i);
    }
}

proof fn lemma_step_of_charges(charges: Seq<Charge>, facts: Seq<ChargeFacts>, has_task: bool, now: i64, j: int)
    requires
        charges.len() == facts.len(),
        0 <= j < charges.len(),
        charges_outcome(charges, facts, has_task, now) is Ok,
    ensures
        ({
            let writes = charges_outcome(charges, facts, has_task, now)->Ok_0;
            &&& writes.len() == charges.len()
            &&& charge_outcome(
                charges[j],
                found_facts(charges.take(j), writes.take(j), charges[j], facts[j], now),
                has_task,
                now,
            ) == Ok::<ChargeWrite, Fault>(writes[j])
        }),
    decreases charges.len(),
{
    let writes = charges_outcome(charges, facts, has_task, now)->Ok_0;
    let done = charges_outcome(charges.drop_last(), facts.drop_last(), has_task, now)->Ok_0;
    if charges.len() > 1 {
        lemma_step_of_charges(charges.drop_last(), facts.drop_last(), has_task, now, 0);
    }
    assert(done.len() == charges.len() - 1);
    assert(writes.drop_last() =~= done);
    if j == charges.len() - 1 {
        assert(charges.take(j) =~= charges.drop_last());
        assert(writes.take(j) =~= done);
    } else {
        lemma_step_of_charges(charges.drop_last(), facts.drop_last(), has_task, now, j);
        assert(charges.drop_last().take(j) =~= charges.take(j));
        assert(done.take(j) =~= writes.take(j));
    }
}

proof fn lemma_where_found(
    done: Seq<Charge>,
    writes: Seq<ChargeWrite>,
    charge: Charge,
    stored: Option<Bucket>,
    now: i64,
) -> (m: int)
    requires
        done.len() == writes.len(),
    ensures
        found_bucket(done, writes, charge, stored, now) == stored || {
            &&& 0 <= m < done.len()
            &&& shares_bucket(done[m], charge, now)
            &&& found_bucket(done, writes, charge, stored, now) == Some(writes[m].bucket)
        },
    decreases done.len(),
{
    if done.len() == 0 {
        0
    } else if shares_bucket(done.last(), charge, now) {
        done.len() - 1
    } else {
        lemma_where_found(done.drop_last(), writes.drop_last(), charge, stored, now)
    }
}

proof fn lemma_window_is_kept(charges: Seq<Charge>, facts: Seq<ChargeFacts>, has_task: bool, now: i64, k: int)
    requires
        ready_to_charge(charges, facts, now),
        charges_outcome(charges, facts, has_task, now) is Ok,
        0 <= k < charges.len(),
        charges[k].algorithm == QuotaAlgorithm::FixedWindow,
    ensures
        charges_outcome(charges, facts, has_task, now)->Ok_0[k].bucket.meter == Meter::Window,
    decreases k,
{
    let writes = charges_outcome(charges, facts, has_task, now)->Ok_0;
    lemma_step_of_charges(charges, facts, has_task, now, k);
    let m = lemma_where_found(charges.take(k), writes.take(k), charges[k], facts[k].stored, now);
    if found_bucket(charges.take(k), writes.take(k), charges[k], facts[k].stored, now) != facts[k].stored {
        assert(shares_bucket(charges[m], charges[k], now));
        lemma_window_is_kept(charges, facts, has_task, now, m);
    }
}

/// Charges of one intent that meet in a bucket add up there: the later one is charged
/// to what the earlier one left. In a window, the usage of the two is their sum and
/// stays within the limit.
pub proof fn law_charges_on_one_bucket_add_up(
    charges: Seq<Charge>,
    facts: Seq<ChargeFacts>,
    has_task: bool,
    now: i64,
    i: int,
    j: int,
)
    requires
        ready_to_charge(charges, facts, now),
        charges_outcome(charges, facts, has_task, now) is Ok,
        0 <= i < j < charges.len(),
        shares_bucket(charges[i], charges[j], now),
        forall|k: int| i < k < j ==> !#[trigger] shares_bucket(charges[k], charges[j], now),
    ensures
        ({
            let writes = charges_outcome(charges, facts, has_task, now)->Ok_0;
            let limit = facts[j].limit as i64;
            &&& charged_bucket(with_capacity(writes[i].bucket, limit, now), charges[j].units as i64, limit, now) == Ok::<
                Bucket,
                Fault,
            >(writes[j].bucket)
            &&& charges[j].algorithm == QuotaAlgorithm::FixedWindow ==> writes[j].bucket.used == writes[i].bucket.used
                + charges[j].units && writes[j].bucket.used <= facts[j].limit
        }),
{
    let writes = charges_outcome(charges, facts, has_task, now)->Ok_0;
    lemma_step_of_charges(charges, facts, has_task, now, i);
    lemma_step_of_charges(charges, facts, has_task, now, j);
    assert forall|k: int| i < k < charges.take(j).len() implies !#[trigger] shares_bucket(
        charges.take(j)[k],
        charges[j],
        now,
    ) by {
        assert(!shares_bucket(charges[k], charges[j], now));
    }
    lemma_last_to_meet(charges.take(j), writes.take(j), charges[j], facts[j].stored, now, i);
    if charges[j].algorithm == QuotaAlgorithm::FixedWindow {
        lemma_window_is_kept(charges, facts, has_task, now, i);
    }
}

/// A charge that no earlier charge of the intent has a bucket or an allocation in common
/// with is decided as if it stood alone.
pub proof fn law_unrelated_charges_are_decided_alone(
    charges: Seq<Charge>,
    facts: Seq<ChargeFacts>,
    has_task: bool,
    now: i64,
    j: int,
)
    requires
        charges.len() == facts.len(),
        0 <= j < charges.len(),
        charges_outcome(charges, facts, has_task, now) is Ok,
        forall|k: int|
            0 <= k < j ==> (#[trigger] charges[k]).scope_kind != charges[j].scope_kind || charges[k].scope_id@
                != charges[j].scope_id@ || charges[k].dimension != charges[j].dimension,
    ensures
        charge_outcome(charges[j], facts[j], has_task, now) == Ok::<ChargeWrite, Fault>(
            charges_outcome(charges, facts, has_task, now)->Ok_0[j],
        ),
{
    lemma_step_of_charges(charges, facts, has_task, now, j);
    let writes = charges_outcome(charges, facts, has_task, now)->Ok_0;
    let done = charges.take(j);
    assert forall|k: int| 0 <= k < done.len() implies (#[trigger] done[k]).scope_kind != charges[j].scope_kind
        || done[k].scope_id@ != charges[j].scope_id@ || done[k].dimension != charges[j].dimension by {
        assert(done[k] == charges[k]);
    }
    lemma_unrelated_finds_its_own(done, writes.take(j), charges[j], facts[j].stored, now);
    assert(found_facts(done, writes.take(j), charges[j], facts[j], now) == facts[j]);
}

proof fn lemma_unrelated_finds_its_own(
    done: Seq<Charge>,
    writes: Seq<ChargeWrite>,
    charge: Charge,
    stored: Option<Bucket>,
    now: i64,
)
    requires
        forall|k: int|
            0 <= k < done.len() ==> (#[trigger] done[k]).scope_kind != charge.scope_kind || done[k].scope_id@
                != charge.scope_id@ || done[k].dimension != charge.dimension,
    ensures
        found_bucket(done, writes, charge, stored, now) == stored,
        live_added(done, writes, charge) == 0,
    decreases done.len(),
{
    if done.len() > 0 {
        let shorter = done.drop_last();
        assert(done.last() == done[done.len() - 1]);
        assert forall|k: int| 0 <= k < shorter.len() implies (#[trigger] shorter[k]).scope_kind != charge.scope_kind
            || shorter[k].scope_id@ != charge.scope_id@ || shorter[k].dimension != charge.dimension by {
            assert(shorter[k] == done[k]);
        }
        lemma_unrelated_finds_its_own(shorter, writes.drop_last(), charge, stored, now);
    }
}

/// Where a run of charges is granted, every charge of it is written with its own units under
/// its own limit, and an allocation is recorded exactly for a gauge that has a task.
pub proof fn law_granted_charges_are_all_written(
    charges: Seq<Charge>,
    facts: Seq<ChargeFacts>,
    has_task: bool,
    now: i64,
    j: int,
)
    requires
        charges.len() == facts.len(),
        0 <= j < charges.len(),
        charges_outcome(charges, facts, has_task, now) is Ok,
    ensures
        ({
            let writes = charges_outcome(charges, facts, has_task, now)->Ok_0;
            &&& writes.len() == charges.len()
            &&& writes[j].units == charges[j].units
            &&& writes[j].capacity == facts[j].limit
            &&& writes[j].bucket.capacity == facts[j].limit
            &&& writes[j].allocate == (charges[j].algorithm == QuotaAlgorithm::Gauge && has_task)
        }),
{
    lemma_step_of_charges(charges, facts, has_task, now, j);
}

/// A refused charge refuses every run that begins with the charges up to it, by the same
/// fault, whatever follows.
pub proof fn law_one_refusal_refuses_all(
    charges: Seq<Charge>,
    facts: Seq<ChargeFacts>,
    has_task: bool,
    now: i64,
    n: int,
)
    requires
        0 <= n <= charges.len(),
        charges.len() == facts.len(),
        charges_outcome(charges.subrange(0, n), facts.subrange(0, n), has_task, now) is Err,
    ensures
        charges_outcome(charges, facts, has_task, now) == charges_outcome(
            charges.subrange(0, n),
            facts.subrange(0, n),
            has_task,
            now,
        ),
{
    lemma_charges_prefix_error(charges, facts, has_task, now, n);
}

/// A single charge is decided by what was read for it, and no charge at all is granted.
pub proof fn law_single_charges_are_decided_by_their_facts(
    charge: Charge,
    facts: ChargeFacts,
    has_task: bool,
    now: i64,
)
    ensures
        charges_outcome(Seq::empty(), Seq::empty(), has_task, now) == Ok::<Seq<ChargeWrite>, Fault>(Seq::empty()),
        match charge_outcome(charge, facts, has_task, now) {
            Ok(w) => charges_outcome(seq![charge], seq![facts], has_task, now) == Ok::<Seq<ChargeWrite>, Fault>(
                seq![w],
            ),
            Err(e) => charges_outcome(seq![charge], seq![facts], has_task, now) == Err::<Seq<ChargeWrite>, Fault>(e),
        },
{
    let one = seq![charge];
    assert(one.drop_last() =~= Seq::<Charge>::empty());
    assert(seq![facts].drop_last() =~= Seq::<ChargeFacts>::empty());
    assert(charges_outcome(one.drop_last(), seq![facts].drop_last(), has_task, now) == Ok::<Seq<ChargeWrite>, Fault>(
        Seq::empty(),
    ));
    assert(found_facts(Seq::empty(), Seq::empty(), charge, facts, now) == facts);
    if charge_outcome(charge, facts, has_task, now) is Ok {
        assert(Seq::<ChargeWrite>::empty().push(charge_outcome(charge, facts, has_task, now)->Ok_0) =~= seq![
            charge_outcome(charge, facts, has_task, now)->Ok_0,
        ]);
    }
}

proof fn lemma_live_added_counts(done: Seq<Charge>, writes: Seq<ChargeWrite>, charge: Charge, i: int)
    requires
        done.len() == writes.len(),
        0 <= i < done.len(),
        forall|k: int| 0 <= k < writes.len() ==> 0 <= (#[trigger] writes[k]).units,
        counts_as_live(done[i], writes[i], charge),
    ensures
        live_added(done, writes, charge) >= writes[i].units,
    decreases done.len(),
{
    let shorter = writes.drop_last();
    assert forall|k: int| 0 <= k < shorter.len() implies 0 <= (#[trigger] shorter[k]).units by {
        assert(shorter[k] == writes[k]);
    }
    assert(writes.last() == writes[writes.len() - 1]);
    if i < done.len() - 1 {
        lemma_live_added_counts(done.drop_last(), shorter, charge, i);
    } else {
        lemma_live_added_is_natural(done.drop_last(), shorter, charge);
    }
}

proof fn lemma_live_added_is_natural(done: Seq<Charge>, writes: Seq<ChargeWrite>, charge: Charge)
    requires
        done.len() == writes.len(),
        forall|k: int| 0 <= k < writes.len() ==> 0 <= (#[trigger] writes[k]).units,
    ensures
        live_added(done, writes, charge) >= 0,
    decreases done.len(),
{
    if done.len() > 0 {
        let shorter = writes.drop_last();
        assert forall|k: int| 0 <= k < shorter.len() implies 0 <= (#[trigger] shorter[k]).units by {
            assert(shorter[k] == writes[k]);
        }
        assert(writes.last() == writes[writes.len() - 1]);
        lemma_live_added_is_natural(done.drop_last(), shorter, charge);
    }
}

/// Active work that one charge of an intent allocates counts as live usage for the next on
/// the same scope: both are granted only where the limit has room for the live usage and
/// for both.
pub proof fn law_allocations_of_one_intent_add_up(
    charges: Seq<Charge>,
    facts: Seq<ChargeFacts>,
    now: i64,
    i: int,
    j: int,
)
    requires
        charges.len() == facts.len(),
        0 <= i < j < charges.len(),
        charges_outcome(charges, facts, true, now) is Ok,
        charges[i].algorithm == QuotaAlgorithm::Gauge,
        charges[i].dimension == QuotaDimension::ConcurrentActiveWork,
        charges[j].dimension == QuotaDimension::ConcurrentActiveWork,
        charges[i].scope_kind == charges[j].scope_kind,
        charges[i].scope_id@ == charges[j].scope_id@,
        facts[j].live matches Some(live) && live + charges[i].units <= i64::MAX,
    ensures
        facts[j].live->0 + charges[i].units + charges[j].units <= facts[j].limit,
{
    let writes = charges_outcome(charges, facts, true, now)->Ok_0;
    lemma_step_of_charges(charges, facts, true, now, j);
    lemma_step_of_charges(charges, facts, true, now, i);
    let done = charges.take(j);
    let earlier = writes.take(j);
    assert forall|k: int| 0 <= k < earlier.len() implies 0 <= (#[trigger] earlier[k]).units by {
        lemma_step_of_charges(charges, facts, true, now, k);
    }
    assert(done[i] == charges[i]);
    assert(earlier[i] == writes[i]);
    lemma_live_added_counts(done, earlier, charges[j], i);
}

/// Only active work is counted live as it is allocated: for any other dimension the live
/// usage that was read is what a charge finds, whatever came before it in the intent.
pub proof fn law_other_live_usage_is_as_read(
    done: Seq<Charge>,
    writes: Seq<ChargeWrite>,
    charge: Charge,
    facts: ChargeFacts,
    now: i64,
)
    requires
        charge.dimension != QuotaDimension::ConcurrentActiveWork,
    ensures
        found_facts(done, writes, charge, facts, now).live == facts.live,
        found_facts(done, writes, charge, facts, now).limit == facts.limit,
    decreases done.len(),
{
    lemma_no_live_added(done, writes, charge);
}

proof fn lemma_no_live_added(done: Seq<Charge>, writes: Seq<ChargeWrite>, charge: Charge)
    requires
        charge.dimension != QuotaDimension::ConcurrentActiveWork,
    ensures
        live_added(done, writes, charge) == 0,
    decreases done.len(),
{
    if done.len() > 0 {
        lemma_no_live_added(done.drop_last(), writes.drop_last(), charge);
    }
}

/// Where the live usage of a dimension is recorded, for operations that have it.
#[derive(Clone, Copy, Debug, PartialEq, Eq, Structural)]
pub enum LiveUsage {
    NotTracked,
    ActiveAllocations,
    ActiveLeases,
    OpenReservations,
}

/// The dimensions that count what is running now.
pub open spec fn is_concurrent(d: QuotaDimension) -> bool {
    d == QuotaDimension::ConcurrentActiveWork || d == QuotaDimension::ConcurrentStreams || d
        == QuotaDimension::ConcurrentSubscriptions
}

/// The dimensions that an execution reserves in advance.
pub open spec fn is_execution_output(d: QuotaDimension) -> bool {
    d == QuotaDimension::OutputBytes || d == QuotaDimension::EventCount
}

/// The record that is authoritative for a charge's live usage.
pub fn live_usage(dimension: QuotaDimension, operation: QuotaOperation) -> (r: LiveUsage)
    ensures
        r == (if dimension == QuotaDimension::ConcurrentActiveWork {
            LiveUsage::ActiveAllocations
        } else if is_concurrent(dimension) {
            LiveUsage::ActiveLeases
        } else if is_execution_output(dimension) && (operation == QuotaOperation::TaskCreate || operation
            == QuotaOperation::TaskContinue) {
            LiveUsage::OpenReservations
        } else {
            LiveUsage::NotTracked
        }),
        r == LiveUsage::ActiveAllocations <==> dimension == QuotaDimension::ConcurrentActiveWork,
        r == LiveUsage::ActiveLeases <==> dimension == QuotaDimension::ConcurrentStreams || dimension
            == QuotaDimension::ConcurrentSubscriptions,
        r == LiveUsage::OpenReservations <==> (dimension == QuotaDimension::OutputBytes || dimension
            == QuotaDimension::EventCount) && (operation == QuotaOperation::TaskCreate || operation
            == QuotaOperation::TaskContinue),
{
    match dimension {
        QuotaDimension::ConcurrentActiveWork => LiveUsage::ActiveAllocations,
        QuotaDimension::ConcurrentStreams | QuotaDimension::ConcurrentSubscriptions => LiveUsage::ActiveLeases,
        QuotaDimension::OutputBytes | QuotaDimension::EventCount => if operation == QuotaOperation::TaskCreate
            || operation == QuotaOperation::TaskContinue {
            LiveUsage::OpenReservations
        } else {
            LiveUsage::NotTracked
        },
        _ => LiveUsage::NotTracked,
    }
}

/// A charge that is paid again when a request is replayed.
pub open spec fn recharged_on_replay(c: Charge) -> bool {
    c.dimension == QuotaDimension::RequestCount || c.dimension == QuotaDimension::InputBytes
}

/// Whether a charge is paid again when its request is replayed.
pub fn is_recharged(charge: &Charge) -> (r: bool)
    ensures
        r == recharged_on_replay(*charge),
{
    charge.dimension == QuotaDimension::RequestCount || charge.dimension == QuotaDimension::InputBytes
}

/// What a replay does to the bucket of one of its charges.
pub open spec fn replay_outcome(charge: Charge, facts: ChargeFacts, now: i64) -> Result<ChargeWrite, Fault> {
    if charge.units > i64::MAX {
        Err(Fault::InvalidQuotaUnits)
    } else if facts.limit > i64::MAX {
        Err(Fault::InvalidQuotaCapacity)
    } else {
        let units = charge.units as i64;
        let capacity = facts.limit as i64;
        let b = match facts.stored {
            Some(b) => b,
            None => fresh_bucket(charge, capacity, now),
        };
        if b.used + units <= capacity {
            Ok(
                ChargeWrite {
                    bucket: Bucket { used: (b.used + units) as i64, capacity, updated_at: now, ..b },
                    units,
                    capacity,
                    allocate: false,
                },
            )
        } else {
            Err(Fault::QuotaExceeded)
        }
    }
}

/// The charges that a replay pays.
pub open spec fn recharged(charges: Seq<Charge>) -> Seq<Charge>
    decreases charges.len(),
{
    if charges.len() == 0 {
        Seq::empty()
    } else if recharged_on_replay(charges.last()) {
        recharged(charges.drop_last()).push(charges.last())
    } else {
        recharged(charges.drop_last())
    }
}

/// The outcome of the charges that a replay pays: what each writes, or the first
/// refusal. A charge meets the buckets as the charges before it leave them.
pub open spec fn replays_outcome(charges: Seq<Charge>, facts: Seq<ChargeFacts>, now: i64) -> Result<
    Seq<ChargeWrite>,
    Fault,
>
    decreases charges.len(),
{
    if charges.len() == 0 {
        Ok(Seq::empty())
    } else {
        match replays_outcome(charges.drop_last(), facts.drop_last(), now) {
            Err(e) => Err(e),
            Ok(done) => match replay_outcome(
                charges.last(),
                found_facts(charges.drop_last(), done, charges.last(), facts.last(), now),
                now,
            ) {
                Ok(w) => Ok(done.push(w)),
                Err(e) => Err(e),
            },
        }
    }
}

/// A replay pays exactly the charges on requests and on input bytes, each once and in the
/// order in which the intent holds them.
pub proof fn law_replays_pay_requests_and_input(charges: Seq<Charge>)
    ensures
        recharged(charges) == charges.filter(
            |c: Charge| c.dimension == QuotaDimension::RequestCount || c.dimension == QuotaDimension::InputBytes,
        ),
    decreases charges.len(),
{
    let paid = |c: Charge| c.dimension == QuotaDimension::RequestCount || c.dimension == QuotaDimension::InputBytes;
    reveal(Seq::filter);
    if charges.len() == 0 {
        assert(recharged(charges) =~= charges.filter(paid));
    } else {
        law_replays_pay_requests_and_input(charges.drop_last());
    }
}

/// A replayed charge is granted exactly where the usage on record and its units stay within
/// the limit, a bucket that is not on record having used nothing. It adds its units to the
/// usage and touches neither the window nor the meter of a stored bucket.
pub proof fn law_replayed_charges_stay_within_the_limit(charge: Charge, facts: ChargeFacts, now: i64)
    requires
        charge.units <= i64::MAX,
        facts.limit <= i64::MAX,
        facts.stored matches Some(b) ==> 0 <= b.used,
    ensures
        ({
            let used = if facts.stored is Some { facts.stored->0.used as int } else { 0 };
            match replay_outcome(charge, facts, now) {
                Err(e) => e == Fault::QuotaExceeded && used + charge.units > facts.limit,
                Ok(write) => {
                    &&& used + charge.units <= facts.limit
                    &&& write.bucket.used == used + charge.units
                    &&& write.bucket.capacity == facts.limit
                    &&& write.bucket.updated_at == now
                    &&& write.units == charge.units
                    &&& write.capacity == facts.limit
                    &&& !write.allocate
                    &&& facts.stored is Some ==> write.bucket.meter == facts.stored->0.meter
                        && write.bucket.window_start == facts.stored->0.window_start
                },
            }
        }),
{
}

/// A replayed charge that finds no bucket writes the one that a first charge would open.
pub proof fn law_replays_open_the_same_buckets(charge: Charge, facts: ChargeFacts, has_task: bool, now: i64)
    requires
        charge.window_millis matches Some(width) ==> width > 0,
        charge.algorithm == QuotaAlgorithm::TokenBucket ==> charge.window_millis is Some,
        charge.units <= facts.limit <= i64::MAX,
        facts.stored is None,
        facts.live is None,
    ensures
        replay_outcome(charge, facts, now) is Ok,
        charge_outcome(charge, facts, has_task, now) is Ok,
        ({
            let again = replay_outcome(charge, facts, now)->Ok_0.bucket;
            let first = charge_outcome(charge, facts, has_task, now)->Ok_0.bucket;
            &&& again.used == first.used
            &&& again.capacity == first.capacity
            &&& again.window_start == first.window_start
            &&& again.updated_at == first.updated_at
            &&& charge.algorithm != QuotaAlgorithm::TokenBucket ==> again == first
        }),
{
    law_first_charges_are_granted(charge, facts, has_task, now);
}

/// Units and limits that cannot be counted refuse a replay too.
pub proof fn law_uncountable_replays_are_refused(charge: Charge, facts: ChargeFacts, now: i64)
    ensures
        charge.units > i64::MAX ==> replay_outcome(charge, facts, now) == Err::<ChargeWrite, Fault>(
            Fault::InvalidQuotaUnits,
        ),
        charge.units <= i64::MAX && facts.limit > i64::MAX ==> replay_outcome(charge, facts, now) == Err::<
            ChargeWrite,
            Fault,
        >(Fault::InvalidQuotaCapacity),
{
}

fn plan_replay_charge(charge: &Charge, facts: &ChargeFacts, now: i64) -> (r: Result<ChargeWrite, Fault>)
    requires
        chargeable(*charge, now),
        bucket_fits(*charge, *facts),
    ensures
        r == replay_outcome(*charge, *facts, now),
        r matches Ok(w) ==> kept_by(w.bucket, charge.algorithm) && 0 <= w.units,
{
    if charge.units > 0x7fff_ffff_ffff_ffff {
        return Err(Fault::InvalidQuotaUnits);
    }
    if facts.limit > 0x7fff_ffff_ffff_ffff {
        return Err(Fault::InvalidQuotaCapacity);
    }
    let units: i64 = charge.units as i64;
    let capacity: i64 = facts.limit as i64;
    let b = match facts.stored {
        Some(b) => b,
        None => make_bucket(charge, capacity, now),
    };
    if b.used <= capacity - units {
        Ok(
            ChargeWrite {
                bucket: Bucket {
                    window_start: b.window_start,
                    capacity,
                    used: b.used + units,
                    meter: b.meter,
                    updated_at: now,
                },
                units,
                capacity,
                allocate: false,
            },
        )
    } else {
        Err(Fault::QuotaExceeded)
    }
}

proof fn lemma_replays_prefix_error(charges: Seq<Charge>, facts: Seq<ChargeFacts>, now: i64, n: int)
    requires
        0 <= n <= charges.len(),
        charges.len() == facts.len(),
        replays_outcome(charges.subrange(0, n), facts.subrange(0, n), now) is Err,
    ensures
        replays_outcome(charges, facts, now) == replays_outcome(
            charges.subrange(0, n),
            facts.subrange(0, n),
            now,
        ),
    decreases charges.len() - n,
{
    if n == charges.len() {
        assert(charges.subrange(0, n) =~= charges);
        assert(facts.subrange(0, n) =~= facts);
    } else {
        assert(charges.subrange(0, n + 1).drop_last() =~= charges.subrange(0, n));
        assert(facts.subrange(0, n + 1).drop_last() =~= facts.subrange(0, n));
        lemma_replays_prefix_error(charges, facts, now, n + 1);
    }
}

proof fn lemma_recharged_prefix(charges: Seq<Charge>, n: int)
    requires
        0 <= n <= charges.len(),
    ensures
        recharged(charges.subrange(0, n)).len() <= recharged(charges).len(),
        recharged(charges).subrange(0, recharged(charges.subrange(0, n)).len() as int) == recharged(
            charges.subrange(0, n),
        ),
    decreases charges.len() - n,
{
    if n == charges.len() {
        assert(charges.subrange(0, n) =~= charges);
        assert(recharged(charges).subrange(0, recharged(charges).len() as int) =~= recharged(charges));
    } else {
        let head = recharged(charges.subrange(0, n));
        let next = recharged(charges.subrange(0, n + 1));
        assert(charges.subrange(0, n + 1).drop_last() =~= charges.subrange(0, n));
        lemma_recharged_prefix(charges, n + 1);
        assert(next.subrange(0, head.len() as int) =~= head);
        assert(recharged(charges).subrange(0, next.len() as int).subrange(0, head.len() as int) =~= recharged(
            charges,
        ).subrange(0, head.len() as int));
    }
}

/// The charges that a replayed request pays again, its request and its input.
/// What is found is given for these charges alone.
pub fn apply_replay_request_charges(charges: &Vec<Charge>, facts: &Vec<ChargeFacts>, now: i64) -> (r: Result<
    Vec<ChargeWrite>,
    Fault,
>)
    requires
        ready_to_charge(recharged(charges@), facts@, now),
    ensures
        match r {
            Ok(w) => replays_outcome(recharged(charges@), facts@, now) == Ok::<Seq<ChargeWrite>, Fault>(w@),
            Err(e) => replays_outcome(recharged(charges@), facts@, now) == Err::<Seq<ChargeWrite>, Fault>(e),
        },
        r matches Ok(w) ==> forall|i: int| 0 <= i < w@.len() ==> bucket_ok((#[trigger] w@[i]).bucket),
{
    let ghost paid = recharged(charges@);
    let mut out: Vec<ChargeWrite> = Vec::new();
    let mut places: Vec<usize> = Vec::new();
    let mut i: usize = 0;
    assert(charges@.subrange(0, 0) =~= Seq::<Charge>::empty());
    assert(picked(charges@, places@) =~= recharged(charges@.subrange(0, 0)));
    assert(paid.subrange(0, 0) =~= Seq::<Charge>::empty());
    while i < charges.len()
        invariant
            i <= charges@.len(),
            paid == recharged(charges@),
            ready_to_charge(paid, facts@, now),
            places@.len() == out@.len(),
            places@.len() <= i,
            forall|k: int| 0 <= k < places@.len() ==> (#[trigger] places@[k]) < i,
            forall|k: int|
                0 <= k < places@.len() ==> kept_by(
                    (#[trigger] out@[k]).bucket,
                    charges@[places@[k] as int].algorithm,
                ) && 0 <= out@[k].units,
            picked(charges@, places@) == recharged(charges@.subrange(0, i as int)),
            places@.len() <= paid.len(),
            replays_outcome(
                paid.subrange(0, places@.len() as int),
                facts@.subrange(0, places@.len() as int),
                now,
            ) == Ok::<Seq<ChargeWrite>, Fault>(out@),
        decreases charges@.len() - i,
    {
        proof {
            assert(charges@.subrange(0, i + 1).drop_last() =~= charges@.subrange(0, i as int));
            lemma_recharged_prefix(charges@, i as int);
            lemma_recharged_prefix(charges@, i + 1);
        }
        if is_recharged(&charges[i]) {
            let n: usize = places.len();
            proof {
                let c = paid.subrange(0, n + 1);
                let f = facts@.subrange(0, n + 1);
                assert(c == recharged(charges@.subrange(0, i + 1)));
                assert(c[n as int] == charges@[i as int]);
                assert(paid[n as int] == c[n as int]);
                assert(c.drop_last() =~= paid.subrange(0, n as int));
                assert(f.drop_last() =~= facts@.subrange(0, n as int));
                assert forall|k: int| 0 <= k < places@.len() implies (#[trigger] places@[k]) < i && chargeable(
                    charges@[places@[k] as int],
                    now,
                ) && (shares_bucket(charges@[places@[k] as int], charges@[i as int], now)
                    ==> charges@[places@[k] as int].algorithm == charges@[i as int].algorithm) by {
                    assert(picked(charges@, places@)[k] == charges@[places@[k] as int]);
                    assert(paid.subrange(0, n as int)[k] == paid[k]);
                    assert(shares_bucket(paid[k], paid[n as int], now) ==> paid[k].algorithm
                        == paid[n as int].algorithm);
                }
            }
            let found = find_facts(charges, &places, &out, i, &facts[n], now);
            let ghost before = places@;
            match plan_replay_charge(&charges[i], &found, now) {
                Ok(w) => {
                    out.push(w);
                    places.push(i);
                    assert(picked(charges@, places@) =~= picked(charges@, before).push(charges@[i as int]));
                },
                Err(e) => {
                    proof {
                        lemma_replays_prefix_error(paid, facts@, now, n + 1);
                    }
                    return Err(e);
                },
            }
        }
        i += 1;
    }
    assert(charges@.subrange(0, i as int) =~= charges@);
    assert(paid.subrange(0, places@.len() as int) =~= paid);
    assert(facts@.subrange(0, places@.len() as int) =~= facts@);
    Ok(out)
}

/// The mathematical value of a [`Charge`].
pub struct ChargeView {
    pub scope_kind: QuotaScopeKind,
    pub scope_id: Seq<char>,
    pub dimension: QuotaDimension,
    pub algorithm: QuotaAlgorithm,
    pub window_millis: Option<u64>,
    pub units: u64,
}

/// The mathematical value of a [`QuotaIntent`].
pub struct QuotaIntentView {
    pub tenant_scope: Seq<char>,
    pub account_id: Seq<char>,
    pub principal_scope: Seq<char>,
    pub operation: QuotaOperation,
    pub semantic_id: Seq<char>,
    pub policy_id: Seq<char>,
    pub policy_revision: u64,
    pub policy_digest: Seq<char>,
    pub binding_digest: Seq<char>,
    pub charges: Seq<ChargeView>,
    pub execution_budget: Option<ExecutionBudget>,
}

impl View for Charge {
    type V = ChargeView;

    open spec fn view(&self) -> ChargeView {
        ChargeView {
            scope_kind: self.scope_kind,
            scope_id: self.scope_id@,
            dimension: self.dimension,
            algorithm: self.algorithm,
            window_millis: self.window_millis,
            units: self.units,
        }
    }
}

/// The values of a list of charges.
pub open spec fn charge_views(items: Seq<Charge>) -> Seq<ChargeView> {
    Seq::new(items.len(), |i: int| items[i]@)
}

impl View for QuotaIntent {
    type V = QuotaIntentView;

    open spec fn view(&self) -> QuotaIntentView {
        QuotaIntentView {
            tenant_scope: self.tenant_scope@,
            account_id: self.account_id@,
            principal_scope: self.principal_scope@,
            operation: self.operation,
            semantic_id: self.semantic_id@,
            policy_id: self.policy_id@,
            policy_revision: self.policy_revision,
            policy_digest: self.policy_digest@,
            binding_digest: self.binding_digest@,
            charges: charge_views(self.charges@),
            execution_budget: self.execution_budget,
        }
    }
}

fn same_charges(a: &Vec<Charge>, b: &Vec<Charge>) -> (r: bool)
    ensures
        r == (charge_views(a@) == charge_views(b@)),
{
    if a.len() != b.len() {
        assert(charge_views(a@).len() != charge_views(b@).len());
        return false;
    }
    let mut i: usize = 0;
    while i < a.len()
        invariant
            a@.len() == b@.len(),
            i <= a@.len(),
            forall|j: int| 0 <= j < i ==> (#[trigger] a@[j])@ == b@[j]@,
        decreases a@.len() - i,
    {
        let x = &a[i];
        let y = &b[i];
        if x.scope_kind != y.scope_kind || x.scope_id != y.scope_id || x.dimension != y.dimension || x.algorithm
            != y.algorithm || x.window_millis != y.window_millis || x.units != y.units {
            assert(charge_views(a@)[i as int] != charge_views(b@)[i as int]);
            return false;
        }
        i += 1;
    }
    assert(charge_views(a@) =~= charge_views(b@));
    true
}

impl QuotaIntent {
    /// Whether two intents are equal.
    pub fn same(&self, other: &QuotaIntent) -> (r: bool)
        ensures
            r == (self@ == other@),
    {
        self.tenant_scope == other.tenant_scope && self.account_id == other.account_id && self.principal_scope
            == other.principal_scope && self.operation == other.operation && self.semantic_id
            == other.semantic_id && self.policy_id == other.policy_id && self.policy_revision
            == other.policy_revision && self.policy_digest == other.policy_digest && self.binding_digest
            == other.binding_digest && same_charges(&self.charges, &other.charges) && self.execution_budget
            == other.execution_budget
    }
}

/// The units of the first charge on the tenant in one dimension, or none.
pub open spec fn first_tenant_units(charges: Seq<Charge>, dimension: QuotaDimension) -> u64
    decreases charges.len(),
{
    if charges.len() == 0 {
        0
    } else if charges[0].scope_kind == QuotaScopeKind::Tenant && charges[0].dimension == dimension {
        charges[0].units
    } else {
        first_tenant_units(charges.drop_first(), dimension)
    }
}

/// Whether some charge is on a dimension.
pub open spec fn charges_dimension(charges: Seq<Charge>, dimension: QuotaDimension) -> bool {
    exists|i: int| 0 <= i < charges.len() && (#[trigger] charges[i]).dimension == dimension
}

/// Which intent the policy in force derives for the same request.
#[derive(Clone, Copy, Debug, PartialEq, Eq, Structural)]
pub enum ExpectedIntent {
    Egress { bytes: u64, events: u64 },
    Lease { kind: QuotaLeaseKind, reconnect: bool },
    Operation { input_bytes: u64 },
}

/// The derivation that an intent must agree with.
pub open spec fn expected_derivation(intent: QuotaIntent, input_bytes: u64) -> ExpectedIntent {
    if intent.operation == QuotaOperation::PublicEgress {
        ExpectedIntent::Egress {
            bytes: first_tenant_units(intent.charges@, QuotaDimension::OutputBytes),
            events: first_tenant_units(intent.charges@, QuotaDimension::EventCount),
        }
    } else if charges_dimension(intent.charges@, QuotaDimension::ConcurrentStreams) {
        ExpectedIntent::Lease {
            kind: QuotaLeaseKind::MessageStream,
            reconnect: intent.operation == QuotaOperation::Reconnect,
        }
    } else if charges_dimension(intent.charges@, QuotaDimension::ConcurrentSubscriptions) {
        ExpectedIntent::Lease {
            kind: QuotaLeaseKind::TaskSubscription,
            reconnect: intent.operation == QuotaOperation::Reconnect,
        }
    } else {
        ExpectedIntent::Operation { input_bytes }
    }
}

/// The tenant's units in a dimension are those of the first charge on the tenant in it.
pub proof fn law_first_tenant_charge_decides(charges: Seq<Charge>, dimension: QuotaDimension, i: int)
    requires
        0 <= i < charges.len(),
        charges[i].scope_kind == QuotaScopeKind::Tenant,
        charges[i].dimension == dimension,
        forall|k: int|
            0 <= k < i ==> (#[trigger] charges[k]).scope_kind != QuotaScopeKind::Tenant || charges[k].dimension
                != dimension,
    ensures
        first_tenant_units(charges, dimension) == charges[i].units,
    decreases charges.len(),
{
    if i > 0 {
        let rest = charges.drop_first();
        assert(rest[i - 1] == charges[i]);
        assert(charges[0].scope_kind != QuotaScopeKind::Tenant || charges[0].dimension != dimension);
        assert forall|k: int| 0 <= k < i - 1 implies (#[trigger] rest[k]).scope_kind != QuotaScopeKind::Tenant
            || rest[k].dimension != dimension by {
            assert(rest[k] == charges[k + 1]);
        }
        law_first_tenant_charge_decides(rest, dimension, i - 1);
    }
}

/// Where no charge is on the tenant in a dimension, the tenant pays nothing in it.
pub proof fn law_uncharged_tenants_pay_nothing(charges: Seq<Charge>, dimension: QuotaDimension)
    requires
        forall|k: int|
            0 <= k < charges.len() ==> (#[trigger] charges[k]).scope_kind != QuotaScopeKind::Tenant
                || charges[k].dimension != dimension,
    ensures
        first_tenant_units(charges, dimension) == 0,
    decreases charges.len(),
{
    if charges.len() > 0 {
        let rest = charges.drop_first();
        assert forall|k: int| 0 <= k < rest.len() implies (#[trigger] rest[k]).scope_kind != QuotaScopeKind::Tenant
            || rest[k].dimension != dimension by {
            assert(rest[k] == charges[k + 1]);
        }
        law_uncharged_tenants_pay_nothing(rest, dimension);
    }
}

/// Egress is derived from what it produces, an intent that opens a stream or a subscription
/// as a lease of that kind, which is a reconnection exactly where the operation is one, and
/// every other intent from its input.
pub proof fn law_intents_are_derived_by_what_they_charge(intent: QuotaIntent, input_bytes: u64, i: int)
    requires
        0 <= i < intent.charges@.len(),
    ensures
        intent.operation == QuotaOperation::PublicEgress ==> expected_derivation(intent, input_bytes) is Egress,
        intent.operation != QuotaOperation::PublicEgress ==> !(expected_derivation(intent, input_bytes) is Egress),
        intent.operation != QuotaOperation::PublicEgress && intent.charges@[i].dimension
            == QuotaDimension::ConcurrentStreams ==> expected_derivation(intent, input_bytes) == (ExpectedIntent::Lease {
            kind: QuotaLeaseKind::MessageStream,
            reconnect: intent.operation == QuotaOperation::Reconnect,
        }),
        intent.operation != QuotaOperation::PublicEgress && intent.charges@[i].dimension
            == QuotaDimension::ConcurrentSubscriptions ==> expected_derivation(intent, input_bytes) is Lease
            && expected_derivation(intent, input_bytes)->reconnect == (intent.operation == QuotaOperation::Reconnect),
        expected_derivation(intent, input_bytes) is Operation ==> expected_derivation(
            intent,
            input_bytes,
        )->input_bytes == input_bytes && intent.charges@[i].dimension != QuotaDimension::ConcurrentStreams
            && intent.charges@[i].dimension != QuotaDimension::ConcurrentSubscriptions,
{
}

/// An intent is derived as a lease only where it charges what such a lease occupies, streams
/// before subscriptions.
pub proof fn law_leases_are_derived_from_their_charges(intent: QuotaIntent, input_bytes: u64)
    requires
        expected_derivation(intent, input_bytes) is Lease,
    ensures
        intent.operation != QuotaOperation::PublicEgress,
        expected_derivation(intent, input_bytes)->kind == QuotaLeaseKind::MessageStream ==> exists|i: int|
            0 <= i < intent.charges@.len() && (#[trigger] intent.charges@[i]).dimension
                == QuotaDimension::ConcurrentStreams,
        expected_derivation(intent, input_bytes)->kind == QuotaLeaseKind::TaskSubscription ==> (exists|i: int|
            0 <= i < intent.charges@.len() && (#[trigger] intent.charges@[i]).dimension
                == QuotaDimension::ConcurrentSubscriptions) && forall|i: int|
            0 <= i < intent.charges@.len() ==> (#[trigger] intent.charges@[i]).dimension
                != QuotaDimension::ConcurrentStreams,
{
}

/// What egress produces is what its charges on the tenant say: the bytes are those of the
/// first charge on output bytes and the events those of the first charge on events.
pub proof fn law_egress_is_derived_from_its_tenant_charges(
    intent: QuotaIntent,
    input_bytes: u64,
    i: int,
    j: int,
)
    requires
        intent.operation == QuotaOperation::PublicEgress,
        0 <= i < intent.charges@.len(),
        0 <= j < intent.charges@.len(),
        intent.charges@[i].scope_kind == QuotaScopeKind::Tenant,
        intent.charges@[i].dimension == QuotaDimension::OutputBytes,
        intent.charges@[j].scope_kind == QuotaScopeKind::Tenant,
        intent.charges@[j].dimension == QuotaDimension::EventCount,
        forall|k: int|
            0 <= k < i ==> (#[trigger] intent.charges@[k]).scope_kind != QuotaScopeKind::Tenant
                || intent.charges@[k].dimension != QuotaDimension::OutputBytes,
        forall|k: int|
            0 <= k < j ==> (#[trigger] intent.charges@[k]).scope_kind != QuotaScopeKind::Tenant
                || intent.charges@[k].dimension != QuotaDimension::EventCount,
    ensures
        expected_derivation(intent, input_bytes) == (ExpectedIntent::Egress {
            bytes: intent.charges@[i].units,
            events: intent.charges@[j].units,
        }),
{
    law_first_tenant_charge_decides(intent.charges@, QuotaDimension::OutputBytes, i);
    law_first_tenant_charge_decides(intent.charges@, QuotaDimension::EventCount, j);
}

fn find_tenant_units(charges: &Vec<Charge>, dimension: QuotaDimension) -> (r: u64)
    ensures
        r == first_tenant_units(charges@, dimension),
{
    let mut i: usize = 0;
    assert(charges@.subrange(0, charges@.len() as int) =~= charges@);
    while i < charges.len()
        invariant
            i <= charges@.len(),
            first_tenant_units(charges@, dimension) == first_tenant_units(
                charges@.subrange(i as int, charges@.len() as int),
                dimension,
            ),
        decreases charges@.len() - i,
    {
        let ghost rest = charges@.subrange(i as int, charges@.len() as int);
        if charges[i].scope_kind == QuotaScopeKind::Tenant && charges[i].dimension == dimension {
            assert(rest[0] == charges@[i as int]);
            return charges[i].units;
        }
        assert(rest.drop_first() =~= charges@.subrange(i + 1, charges@.len() as int));
        i += 1;
    }
    0
}

/// Whether some charge of an intent is on a dimension.
pub fn has_dimension(charges: &Vec<Charge>, dimension: QuotaDimension) -> (r: bool)
    ensures
        r == charges_dimension(charges@, dimension),
{
    let mut i: usize = 0;
    while i < charges.len()
        invariant
            i <= charges@.len(),
            forall|j: int| 0 <= j < i ==> (#[trigger] charges@[j]).dimension != dimension,
        decreases charges@.len() - i,
    {
        if charges[i].dimension == dimension {
            return true;
        }
        i += 1;
    }
    false
}

/// Which intent the policy in force must derive for the request to be charged.
pub fn expected_intent(intent: &QuotaIntent, input_bytes: u64) -> (r: ExpectedIntent)
    ensures
        r == expected_derivation(*intent, input_bytes),
{
    if intent.operation == QuotaOperation::PublicEgress {
        return ExpectedIntent::Egress {
            bytes: find_tenant_units(&intent.charges, QuotaDimension::OutputBytes),
            events: find_tenant_units(&intent.charges, QuotaDimension::EventCount),
        };
    }
    let streams = has_dimension(&intent.charges, QuotaDimension::ConcurrentStreams);
    if streams || has_dimension(&intent.charges, QuotaDimension::ConcurrentSubscriptions) {
        let kind = if streams {
            QuotaLeaseKind::MessageStream
        } else {
            QuotaLeaseKind::TaskSubscription
        };
        ExpectedIntent::Lease { kind, reconnect: intent.operation == QuotaOperation::Reconnect }
    } else {
        ExpectedIntent::Operation { input_bytes }
    }
}

/// A stored intent. Its operation is absent where the stored text names none.
pub struct StoredIntent {
    pub binding_digest: String,
    pub account_id: String,
    pub principal_scope: String,
    pub operation: Option<QuotaOperation>,
    pub semantic_id: String,
    pub task_id: Option<String>,
    pub policy_id: String,
    pub policy_revision: i64,
    pub policy_digest: String,
}

/// A limit that a policy overrides.
#[derive(Clone, Copy, Debug, PartialEq, Eq, Structural)]
pub struct OverrideLimits {
    pub old_limit: u64,
    pub new_limit: u64,
}

/// What was read before an intent is applied. `expected` is the intent that the
/// policy in force derives ([`expected_intent`]), `stored` an intent already on
/// record under the same binding or the same semantic key, `stored_policy` the
/// policy under which that one was taken and `stored_intent` what that policy
/// derives; each is absent where it could not be derived or is not on record.
pub struct QuotaApplication {
    pub policy: Option<PolicyIdentity>,
    pub overrides: Vec<OverrideLimits>,
    pub tenant: String,
    pub account: String,
    pub task_id: Option<String>,
    pub subject_valid: bool,
    pub expected: Option<QuotaIntent>,
    pub stored: Option<StoredIntent>,
    pub stored_policy: Option<PolicyIdentity>,
    pub stored_intent: Option<QuotaIntent>,
    pub insert_if_missing: bool,
}

/// Whether an intent is bound to the caller and to the policy in force.
pub open spec fn intent_bound(a: QuotaApplication, intent: QuotaIntent) -> bool {
    &&& a.policy is Some
    &&& intent.tenant_scope@ == a.tenant@
    &&& intent.account_id@ == a.account@
    &&& intent.policy_id@ == a.policy->0.policy_id@
    &&& intent.policy_revision == a.policy->0.revision
    &&& intent.policy_digest@ == a.policy->0.digest@
    &&& a.subject_valid
    &&& a.expected matches Some(e) && e@ == intent@
}

/// Whether a stored intent is the same request.
pub open spec fn stored_matches(row: StoredIntent, a: QuotaApplication, intent: QuotaIntent) -> bool {
    &&& row.account_id@ == a.account@
    &&& row.principal_scope@ == intent.principal_scope@
    &&& row.operation == Some(intent.operation)
    &&& row.semantic_id@ == intent.semantic_id@
    &&& text::opt_text(row.task_id) == text::opt_text(a.task_id)
}

/// Whether a stored intent was taken under the policy on record for it.
pub open spec fn stored_policy_matches(row: StoredIntent, a: QuotaApplication) -> bool {
    a.stored_policy matches Some(p) && row.policy_revision >= 0 && row.policy_id@ == p.policy_id@
        && row.policy_revision == p.revision && row.policy_digest@ == p.digest@
}

/// Whether every override's limits can be stored.
pub open spec fn overrides_fit(o: Seq<OverrideLimits>) -> bool {
    forall|i: int|
        0 <= i < o.len() ==> (#[trigger] o[i]).old_limit <= i64::MAX && o[i].new_limit <= i64::MAX
}

/// How an intent is applied.
#[derive(Clone, Copy, Debug, PartialEq, Eq, Structural)]
pub enum QuotaPath {
    /// The request was charged before; only what every request pays is charged.
    Replay,
    /// The request is new; every charge is applied and recorded.
    Charge,
}

/// How an intent is applied, or why it is refused.
pub open spec fn quota_path(a: QuotaApplication, intent: QuotaIntent) -> Result<QuotaPath, Fault> {
    if a.policy is None {
        Err(Fault::QuotaAuthorityUnavailable)
    } else if !intent_bound(a, intent) {
        Err(Fault::QuotaIntentBindingMismatch)
    } else if a.stored is Some {
        let row = a.stored->0;
        if !stored_matches(row, a, intent) {
            Err(Fault::QuotaIntentKeyConflict)
        } else if !stored_policy_matches(row, a) {
            Err(Fault::QuotaAuthorityUnavailable)
        } else if a.stored_intent is None {
            Err(Fault::QuotaIntentBindingMismatch)
        } else if a.stored_intent->0.binding_digest@ != row.binding_digest@ {
            Err(Fault::QuotaAuthorityUnavailable)
        } else {
            Ok(QuotaPath::Replay)
        }
    } else if !a.insert_if_missing {
        Err(Fault::QuotaIntentRequiredForReplay)
    } else if intent.policy_revision > i64::MAX {
        Err(Fault::InvalidQuotaRevision)
    } else if !overrides_fit(a.overrides@) {
        Err(Fault::InvalidQuotaOverride)
    } else {
        Ok(QuotaPath::Charge)
    }
}

fn all_overrides_fit(overrides: &Vec<OverrideLimits>) -> (r: bool)
    ensures
        r == overrides_fit(overrides@),
{
    let mut i: usize = 0;
    while i < overrides.len()
        invariant
            i <= overrides@.len(),
            forall|j: int|
                0 <= j < i ==> (#[trigger] overrides@[j]).old_limit <= i64::MAX && overrides@[j].new_limit
                    <= i64::MAX,
        decreases overrides@.len() - i,
    {
        if overrides[i].old_limit > 0x7fff_ffff_ffff_ffff || overrides[i].new_limit > 0x7fff_ffff_ffff_ffff {
            return false;
        }
        i += 1;
    }
    true
}

/// Decides how an intent is applied.
pub fn decide_quota_intent(a: &QuotaApplication, intent: &QuotaIntent) -> (r: Result<QuotaPath, Fault>)
    ensures
        r == quota_path(*a, *intent),
{
    let policy = match &a.policy {
        Some(p) => p,
        None => {
            return Err(Fault::QuotaAuthorityUnavailable);
        },
    };
    if intent.tenant_scope != a.tenant || intent.account_id != a.account || intent.policy_id != policy.policy_id
        || intent.policy_revision != policy.revision || intent.policy_digest != policy.digest
        || !a.subject_valid {
        return Err(Fault::QuotaIntentBindingMismatch);
    }
    match &a.expected {
        Some(expected) => {
            if !expected.same(intent) {
                return Err(Fault::QuotaIntentBindingMismatch);
            }
        },
        None => {
            return Err(Fault::QuotaIntentBindingMismatch);
        },
    }
    if let Some(row) = &a.stored {
        let same_operation = match row.operation {
            Some(operation) => operation == intent.operation,
            None => false,
        };
        if row.account_id != a.account || row.principal_scope != intent.principal_scope || !same_operation
            || row.semantic_id != intent.semantic_id || !text::same_opt_text(&row.task_id, &a.task_id) {
            return Err(Fault::QuotaIntentKeyConflict);
        }
        match &a.stored_policy {
            Some(p) => {
                if row.policy_revision < 0 || row.policy_id != p.policy_id || row.policy_revision as u64
                    != p.revision || row.policy_digest != p.digest {
                    return Err(Fault::QuotaAuthorityUnavailable);
                }
            },
            None => {
                return Err(Fault::QuotaAuthorityUnavailable);
            },
        }
        return match &a.stored_intent {
            None => Err(Fault::QuotaIntentBindingMismatch),
            Some(stored) => if stored.binding_digest != row.binding_digest {
                Err(Fault::QuotaAuthorityUnavailable)
            } else {
                Ok(QuotaPath::Replay)
            },
        };
    }
    if !a.insert_if_missing {
        return Err(Fault::QuotaIntentRequiredForReplay);
    }
    if intent.policy_revision > 0x7fff_ffff_ffff_ffff {
        return Err(Fault::InvalidQuotaRevision);
    }
    if !all_overrides_fit(&a.overrides) {
        return Err(Fault::InvalidQuotaOverride);
    }
    Ok(QuotaPath::Charge)
}

/// What applying an intent writes.
pub struct QuotaWrites {
    pub path: QuotaPath,
    pub writes: Vec<ChargeWrite>,
}

/// The charges that an application pays: on a replay, those of the stored intent
/// that are paid again.
pub open spec fn paid_charges(a: QuotaApplication, intent: QuotaIntent) -> Seq<Charge> {
    if quota_path(a, intent) == Ok::<QuotaPath, Fault>(QuotaPath::Replay) {
        recharged(a.stored_intent->0.charges@)
    } else {
        intent.charges@
    }
}

/// The whole outcome of applying an intent.
pub open spec fn quota_outcome(
    a: QuotaApplication,
    intent: QuotaIntent,
    facts: Seq<ChargeFacts>,
    now: i64,
) -> Result<(QuotaPath, Seq<ChargeWrite>), Fault> {
    match quota_path(a, intent) {
        Err(e) => Err(e),
        Ok(QuotaPath::Replay) => match replays_outcome(paid_charges(a, intent), facts, now) {
            Ok(w) => Ok((QuotaPath::Replay, w)),
            Err(e) => Err(e),
        },
        Ok(QuotaPath::Charge) => match charges_outcome(paid_charges(a, intent), facts, a.task_id is Some, now) {
            Ok(w) => Ok((QuotaPath::Charge, w)),
            Err(e) => Err(e),
        },
    }
}

/// Applies an intent: decides between a replay and a first charge, and computes
/// every bucket, receipt and allocation that is then written. Nothing is written
/// where any charge is refused.
pub fn apply_quota_intent(a: &QuotaApplication, intent: &QuotaIntent, facts: &Vec<ChargeFacts>, now: i64) -> (r: Result<
    QuotaWrites,
    Fault,
>)
    requires
        quota_path(*a, *intent) is Ok ==> ready_to_charge(paid_charges(*a, *intent), facts@, now),
    ensures
        match r {
            Ok(w) => quota_outcome(*a, *intent, facts@, now) == Ok::<(QuotaPath, Seq<ChargeWrite>), Fault>(
                (w.path, w.writes@),
            ),
            Err(e) => quota_outcome(*a, *intent, facts@, now) == Err::<(QuotaPath, Seq<ChargeWrite>), Fault>(e),
        },
        r matches Ok(w) ==> forall|i: int|
            0 <= i < w.writes@.len() ==> bucket_ok((#[trigger] w.writes@[i]).bucket),
{
    match decide_quota_intent(a, intent) {
        Err(e) => Err(e),
        Ok(QuotaPath::Charge) => match plan_charges(&intent.charges, facts, a.task_id.is_some(), now) {
            Ok(writes) => Ok(QuotaWrites { path: QuotaPath::Charge, writes }),
            Err(e) => Err(e),
        },
        Ok(QuotaPath::Replay) => match &a.stored_intent {
            Some(stored) => match apply_replay_request_charges(&stored.charges, facts, now) {
                Ok(writes) => Ok(QuotaWrites { path: QuotaPath::Replay, writes }),
                Err(e) => Err(e),
            },
            None => Err(Fault::QuotaIntentBindingMismatch),
        },
    }
}

proof fn lemma_recharged_on_replay(charges: Seq<Charge>)
    ensures
        forall|i: int| 0 <= i < recharged(charges).len() ==> recharged_on_replay(#[trigger] recharged(charges)[i]),
    decreases charges.len(),
{
    if charges.len() > 0 {
        let head = recharged(charges.drop_last());
        lemma_recharged_on_replay(charges.drop_last());
        assert forall|i: int| 0 <= i < recharged(charges).len() implies recharged_on_replay(
            #[trigger] recharged(charges)[i],
        ) by {
            if i < head.len() {
                assert(recharged(charges)[i] == head[i]);
            }
        }
    }
}

proof fn lemma_replays_allocate_nothing(charges: Seq<Charge>, facts: Seq<ChargeFacts>, now: i64)
    requires
        replays_outcome(charges, facts, now) is Ok,
    ensures
        replays_outcome(charges, facts, now)->Ok_0.len() == charges.len(),
        forall|i: int|
            0 <= i < replays_outcome(charges, facts, now)->Ok_0.len() ==> !(#[trigger] replays_outcome(
                charges,
                facts,
                now,
            )->Ok_0[i]).allocate,
    decreases charges.len(),
{
    if charges.len() > 0 {
        lemma_replays_allocate_nothing(charges.drop_last(), facts.drop_last(), now);
    }
}

/// A replay pays for nothing but the request and its input, writes one bucket for
/// each charge that it pays, and never records an allocation.
pub proof fn law_replay_allocates_nothing(charges: Seq<Charge>, facts: Seq<ChargeFacts>, now: i64)
    requires
        replays_outcome(recharged(charges), facts, now) is Ok,
    ensures
        forall|i: int| 0 <= i < recharged(charges).len() ==> recharged_on_replay(#[trigger] recharged(charges)[i]),
        replays_outcome(recharged(charges), facts, now)->Ok_0.len() == recharged(charges).len(),
        forall|i: int|
            0 <= i < recharged(charges).len() ==> !(#[trigger] replays_outcome(
                recharged(charges),
                facts,
                now,
            )->Ok_0[i]).allocate,
{
    lemma_recharged_on_replay(charges);
    lemma_replays_allocate_nothing(recharged(charges), facts, now);
}

/// An intent is applied only to its own caller, under the policy in force, and only where
/// that policy derives the very same intent.
pub proof fn law_applied_intents_are_bound(a: QuotaApplication, intent: QuotaIntent)
    requires
        quota_path(a, intent) is Ok,
    ensures
        a.policy is Some,
        intent.tenant_scope@ == a.tenant@,
        intent.account_id@ == a.account@,
        intent.policy_id@ == a.policy->0.policy_id@,
        intent.policy_revision == a.policy->0.revision,
        intent.policy_digest@ == a.policy->0.digest@,
        a.subject_valid,
        a.expected is Some,
        a.expected->0@ == intent@,
        quota_path(a, intent)->Ok_0 == QuotaPath::Replay <==> a.stored is Some,
        quota_path(a, intent)->Ok_0 == QuotaPath::Charge ==> a.insert_if_missing && intent.policy_revision
            <= i64::MAX,
{
}

/// A request that is charged again under a key on record is a replay only of the same
/// request: its account, principal, operation, semantic key and task are those on record,
/// the policy on record is the one that the row names, and that policy derives an intent
/// with the binding on record.
pub proof fn law_replays_are_of_the_same_request(a: QuotaApplication, intent: QuotaIntent)
    requires
        quota_path(a, intent) == Ok::<QuotaPath, Fault>(QuotaPath::Replay),
    ensures
        a.stored is Some,
        a.stored->0.account_id@ == intent.account_id@,
        a.stored->0.principal_scope@ == intent.principal_scope@,
        a.stored->0.operation == Some(intent.operation),
        a.stored->0.semantic_id@ == intent.semantic_id@,
        a.task_id is Some <==> a.stored->0.task_id is Some,
        a.task_id is Some ==> a.stored->0.task_id->0@ == a.task_id->0@,
        a.stored_policy is Some,
        a.stored_policy->0.policy_id@ == a.stored->0.policy_id@,
        a.stored_policy->0.digest@ == a.stored->0.policy_digest@,
        a.stored_policy->0.revision == a.stored->0.policy_revision,
        a.stored_intent is Some,
        a.stored_intent->0.binding_digest@ == a.stored->0.binding_digest@,
{
}

/// An intent that was charged and recorded is a replay when it comes again: the record of
/// what was charged, under the policy that was then in force, is accepted.
pub proof fn law_charged_intents_are_replayed(
    first: QuotaApplication,
    again: QuotaApplication,
    intent: QuotaIntent,
    row: StoredIntent,
)
    requires
        quota_path(first, intent) == Ok::<QuotaPath, Fault>(QuotaPath::Charge),
        again.policy == first.policy,
        again.tenant@ == first.tenant@,
        again.account@ == first.account@,
        again.subject_valid,
        again.expected == first.expected,
        again.stored == Some(row),
        row.binding_digest@ == intent.binding_digest@,
        row.account_id@ == first.account@,
        row.principal_scope@ == intent.principal_scope@,
        row.operation == Some(intent.operation),
        row.semantic_id@ == intent.semantic_id@,
        text::opt_text(row.task_id) == text::opt_text(again.task_id),
        row.policy_id@ == intent.policy_id@,
        row.policy_revision == intent.policy_revision,
        row.policy_digest@ == intent.policy_digest@,
        again.stored_policy == first.policy,
        again.stored_intent matches Some(derived) && derived@ == intent@,
    ensures
        quota_path(again, intent) == Ok::<QuotaPath, Fault>(QuotaPath::Replay),
{
}

/// An intent that is on record for another request is a conflict, and one that is not on
/// record is charged only where that is asked for and its numbers can be stored.
pub proof fn law_unapplied_intents_are_refused(a: QuotaApplication, intent: QuotaIntent)
    ensures
        a.policy is None ==> quota_path(a, intent) == Err::<QuotaPath, Fault>(Fault::QuotaAuthorityUnavailable),
        a.policy is Some && (intent.tenant_scope@ != a.tenant@ || intent.account_id@ != a.account@
            || intent.policy_id@ != a.policy->0.policy_id@ || intent.policy_revision != a.policy->0.revision
            || intent.policy_digest@ != a.policy->0.digest@ || !a.subject_valid || a.expected is None
            || a.expected->0@ != intent@) ==> quota_path(a, intent) == Err::<QuotaPath, Fault>(
            Fault::QuotaIntentBindingMismatch,
        ),
        a.policy is Some && intent_bound(a, intent) && a.stored is None ==> {
            if !a.insert_if_missing {
                quota_path(a, intent) == Err::<QuotaPath, Fault>(Fault::QuotaIntentRequiredForReplay)
            } else if intent.policy_revision > i64::MAX {
                quota_path(a, intent) == Err::<QuotaPath, Fault>(Fault::InvalidQuotaRevision)
            } else if exists|i: int|
                0 <= i < a.overrides@.len() && ((#[trigger] a.overrides@[i]).old_limit > i64::MAX
                    || a.overrides@[i].new_limit > i64::MAX) {
                quota_path(a, intent) == Err::<QuotaPath, Fault>(Fault::InvalidQuotaOverride)
            } else {
                quota_path(a, intent) == Ok::<QuotaPath, Fault>(QuotaPath::Charge)
            }
        },
        a.policy is Some && intent_bound(a, intent) && a.stored is Some && (a.stored->0.account_id@ != a.account@
            || a.stored->0.principal_scope@ != intent.principal_scope@ || a.stored->0.operation != Some(
            intent.operation,
        ) || a.stored->0.semantic_id@ != intent.semantic_id@ || text::opt_text(a.stored->0.task_id)
            != text::opt_text(a.task_id)) ==> quota_path(a, intent) == Err::<QuotaPath, Fault>(
            Fault::QuotaIntentKeyConflict,
        ),
{
}

/// A first application pays every charge of the intent, and a replay pays those charges of
/// the recorded intent that are on requests or on input bytes; a refusal writes nothing.
pub proof fn law_applications_pay_their_charges(
    a: QuotaApplication,
    intent: QuotaIntent,
    facts: Seq<ChargeFacts>,
    now: i64,
)
    ensures
        quota_path(a, intent) is Err ==> quota_outcome(a, intent, facts, now) is Err,
        a.stored is None && quota_outcome(a, intent, facts, now) is Ok && facts.len() == intent.charges@.len() ==> {
            let writes = quota_outcome(a, intent, facts, now)->Ok_0.1;
            &&& quota_outcome(a, intent, facts, now)->Ok_0.0 == QuotaPath::Charge
            &&& writes.len() == intent.charges@.len()
            &&& forall|j: int|
                0 <= j < writes.len() ==> (#[trigger] writes[j]).units == intent.charges@[j].units
                    && writes[j].allocate == (intent.charges@[j].algorithm == QuotaAlgorithm::Gauge && a.task_id is Some)
        },
        a.stored is Some && quota_outcome(a, intent, facts, now) is Ok ==> {
            let paid = a.stored_intent->0.charges@.filter(
                |c: Charge| c.dimension == QuotaDimension::RequestCount || c.dimension == QuotaDimension::InputBytes,
            );
            let writes = quota_outcome(a, intent, facts, now)->Ok_0.1;
            &&& quota_outcome(a, intent, facts, now)->Ok_0.0 == QuotaPath::Replay
            &&& writes.len() == paid.len()
            &&& forall|j: int| 0 <= j < writes.len() ==> !(#[trigger] writes[j]).allocate && writes[j].units == paid[j].units
        },
{
    if a.stored is None && quota_outcome(a, intent, facts, now) is Ok && facts.len() == intent.charges@.len() {
        let writes = quota_outcome(a, intent, facts, now)->Ok_0.1;
        lemma_charges_are_as_many(intent.charges@, facts, a.task_id is Some, now);
        assert forall|j: int| 0 <= j < writes.len() implies (#[trigger] writes[j]).units == intent.charges@[j].units
            && writes[j].allocate == (intent.charges@[j].algorithm == QuotaAlgorithm::Gauge && a.task_id is Some) by {
            law_granted_charges_are_all_written(intent.charges@, facts, a.task_id is Some, now, j);
        }
    }
    if a.stored is Some && quota_outcome(a, intent, facts, now) is Ok {
        let all = a.stored_intent->0.charges@;
        law_replays_pay_requests_and_input(all);
        let writes = quota_outcome(a, intent, facts, now)->Ok_0.1;
        lemma_replays_allocate_nothing(recharged(all), facts, now);
        assert forall|j: int| 0 <= j < writes.len() implies !(#[trigger] writes[j]).allocate && writes[j].units
            == recharged(all)[j].units by {
            lemma_replay_units(recharged(all), facts, now, j);
        }
    }
}

proof fn lemma_charges_are_as_many(charges: Seq<Charge>, facts: Seq<ChargeFacts>, has_task: bool, now: i64)
    requires
        charges_outcome(charges, facts, has_task, now) is Ok,
    ensures
        charges_outcome(charges, facts, has_task, now)->Ok_0.len() == charges.len(),
    decreases charges.len(),
{
    if charges.len() > 0 {
        lemma_charges_are_as_many(charges.drop_last(), facts.drop_last(), has_task, now);
    }
}

proof fn lemma_replay_units(charges: Seq<Charge>, facts: Seq<ChargeFacts>, now: i64, j: int)
    requires
        replays_outcome(charges, facts, now) is Ok,
        0 <= j < charges.len(),
    ensures
        replays_outcome(charges, facts, now)->Ok_0.len() == charges.len(),
        replays_outcome(charges, facts, now)->Ok_0[j].units == charges[j].units,
    decreases charges.len(),
{
    let shorter = charges.drop_last();
    if j < shorter.len() {
        lemma_replay_units(shorter, facts.drop_last(), now, j);
    } else if shorter.len() > 0 {
        lemma_replay_units(shorter, facts.drop_last(), now, 0);
    }
}

/// A bucket on record is read as it was written: what a charge left can be read back, and
/// a bucket whose usage passes its capacity, or whose refill cannot be advanced, cannot be
/// read at all.
pub proof fn law_buckets_are_read_as_written(row: BucketRow, algorithm: QuotaAlgorithm)
    ensures
        row.used < 0 || row.used > row.capacity ==> row_bucket(row, algorithm) is None,
        algorithm == QuotaAlgorithm::TokenBucket && (row.available is None || row.last_refill_at is None
            || row.refill_numerator is None || row.refill_period is None || row.refill_remainder is None)
            ==> row_bucket(row, algorithm) is None,
        algorithm == QuotaAlgorithm::TokenBucket && (row.available->0 < 0 || row.refill_numerator->0 < 0
            || row.refill_period->0 <= 0 || row.refill_remainder->0 < 0 || row.refill_remainder->0
            >= row.refill_period->0) ==> row_bucket(row, algorithm) is None,
        0 <= row.used <= row.capacity && algorithm != QuotaAlgorithm::TokenBucket ==> row_bucket(
            row,
            algorithm,
        ) is Some,
        0 <= row.used <= row.capacity && algorithm == QuotaAlgorithm::TokenBucket && row.available is Some
            && row.last_refill_at is Some && row.refill_numerator is Some && row.refill_period is Some
            && row.refill_remainder is Some && 0 <= row.available->0 && 0 <= row.refill_numerator->0 && 0
            <= row.refill_remainder->0 < row.refill_period->0 ==> row_bucket(row, algorithm) is Some,
        row_bucket(row, algorithm) matches Some(b) ==> {
            &&& b.window_start == row.window_start
            &&& b.capacity == row.capacity
            &&& b.used == row.used
            &&& b.updated_at == row.updated_at
            &&& algorithm == QuotaAlgorithm::FixedWindow <==> b.meter == Meter::Window
            &&& algorithm == QuotaAlgorithm::Gauge <==> b.meter == Meter::Gauge
            &&& b.meter matches Meter::Token(t) ==> t.available == row.available->0 && t.last_refill_at
                == row.last_refill_at->0 && t.refill_numerator == row.refill_numerator->0 && t.refill_period
                == row.refill_period->0 && t.refill_remainder == row.refill_remainder->0
        },
{
}

/// Three dimensions count what is running, two what an execution puts out, and no dimension does
/// both.
pub proof fn law_dimensions_are_of_one_nature(d: QuotaDimension)
    ensures
        is_concurrent(d) <==> d is ConcurrentActiveWork || d is ConcurrentStreams || d is ConcurrentSubscriptions,
        is_execution_output(d) <==> d is OutputBytes || d is EventCount,
        !(is_concurrent(d) && is_execution_output(d)),
        d is RequestCount || d is InputBytes || d is ReconnectCount || d is RetainedAuthorityBytes ==> !is_concurrent(d)
            && !is_execution_output(d),
{
}

/// Two charges meet in one bucket exactly where they are of one scope and one dimension and fall into
/// one window.
pub proof fn law_charges_meet_in_one_window(a: Charge, b: Charge, now: i64)
    ensures
        shares_bucket(a, a, now),
        shares_bucket(a, b, now) == shares_bucket(b, a, now),
        a.scope_kind != b.scope_kind || a.scope_id@ != b.scope_id@ || a.dimension != b.dimension ==> !shares_bucket(
            a,
            b,
            now,
        ),
        a.scope_kind == b.scope_kind && a.scope_id@ == b.scope_id@ && a.dimension == b.dimension && a.algorithm
            == b.algorithm && a.window_millis == b.window_millis ==> shares_bucket(a, b, now),
        shares_bucket(a, b, now) ==> window_start_of(a.algorithm, a.window_millis, now as int) == window_start_of(
            b.algorithm,
            b.window_millis,
            now as int,
        ),
{
}

/// The three algorithms have names of their own.
pub proof fn law_algorithms_have_their_own_names(a: QuotaAlgorithm, b: QuotaAlgorithm)
    ensures
        algorithm_text(a) == algorithm_text(b) ==> a == b,
        a is FixedWindow ==> algorithm_text(a) == "fixedWindow"@,
        a is TokenBucket ==> algorithm_text(a) == "tokenBucket"@,
        a is Gauge ==> algorithm_text(a) == "gauge"@,
{
    reveal_strlit("fixedWindow");
    reveal_strlit("tokenBucket");
    reveal_strlit("gauge");
    assert("fixedWindow"@[0] == 'f');
    assert("tokenBucket"@[0] == 't');
    assert("gauge"@[0] == 'g');
}

/// A token bucket whose refill cannot be counted cannot be charged, and a bucket of another capacity
/// is not the one to charge.
pub proof fn law_uncountable_refills_are_not_charged(b: Bucket, units: i64, capacity: i64, now: i64)
    ensures
        b.capacity != capacity ==> charged_bucket(b, units, capacity, now) == Err::<Bucket, Fault>(Fault::QuotaExceeded),
        b.capacity == capacity && b.meter is Token && refill_total(b.meter->Token_0, now) / (
        b.meter->Token_0.refill_period as int) > i64::MAX ==> charged_bucket(b, units, capacity, now) == Err::<
            Bucket,
            Fault,
        >(Fault::QuotaBucketChargeFailed),
{
}

/// An intent without a policy, or one whose record is of another policy or another binding, finds the
/// authority unavailable; one that is not bound, or whose record holds no intent, does not match.
pub proof fn law_unsound_records_are_told_apart(a: QuotaApplication, intent: QuotaIntent)
    ensures
        a.policy is None ==> quota_path(a, intent) == Err::<QuotaPath, Fault>(Fault::QuotaAuthorityUnavailable),
        a.policy is Some && !intent_bound(a, intent) ==> quota_path(a, intent) == Err::<QuotaPath, Fault>(
            Fault::QuotaIntentBindingMismatch,
        ),
        a.policy is Some && intent_bound(a, intent) && a.stored is Some && stored_matches(a.stored->0, a, intent) ==> {
            &&& !stored_policy_matches(a.stored->0, a) ==> quota_path(a, intent) == Err::<QuotaPath, Fault>(
                Fault::QuotaAuthorityUnavailable,
            )
            &&& stored_policy_matches(a.stored->0, a) && a.stored_intent is None ==> quota_path(a, intent) == Err::<
                QuotaPath,
                Fault,
            >(Fault::QuotaIntentBindingMismatch)
            &&& stored_policy_matches(a.stored->0, a) && a.stored_intent is Some && a.stored_intent->0.binding_digest@
                != a.stored->0.binding_digest@ ==> quota_path(a, intent) == Err::<QuotaPath, Fault>(
                Fault::QuotaAuthorityUnavailable,
            )
            &&& stored_policy_matches(a.stored->0, a) && a.stored_intent is Some && a.stored_intent->0.binding_digest@
                == a.stored->0.binding_digest@ ==> quota_path(a, intent) == Ok::<QuotaPath, Fault>(QuotaPath::Replay)
        },
{
}

} // verus!
