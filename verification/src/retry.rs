//! When a callback is tried again.

use std::time::{SystemTime, UNIX_EPOCH};

use vstd::prelude::*;

use crate::push_error::PushSecurityError;
use crate::text;

verus! {

/// The bounds of a retry schedule.
pub struct RetryView {
    pub max_attempts: u16,
    pub base_ms: u64,
    pub max_ms: u64,
    pub max_age_ms: u64,
}

/// Whether the bounds of a retry schedule fit together.
pub open spec fn valid_bounds(p: RetryView) -> bool {
    1 <= p.max_attempts <= 32 && 0 < p.base_ms <= p.max_ms <= p.max_age_ms
}

/// Whether an attempt may be made.
pub open spec fn attempt_allowed(p: RetryView, attempt: u16, age_ms: u64) -> bool {
    0 < attempt <= p.max_attempts && age_ms < p.max_age_ms
}

/// Two to some power.
pub open spec fn two_to(n: nat) -> nat
    decreases n,
{
    if n == 0 {
        1
    } else {
        2 * two_to((n - 1) as nat)
    }
}

/// The longest delay before an attempt: doubled each time, up to a bound.
pub open spec fn jitter_ceiling(p: RetryView, attempt: u16) -> int {
    let doubled = p.base_ms * two_to((attempt - 1) as nat);
    if doubled < p.max_ms {
        doubled
    } else {
        p.max_ms as int
    }
}

/// The delay that a random sample stands for: spread over the whole interval up to
/// the ceiling. A ceiling that fills its type is itself left out.
pub open spec fn jitter_of(p: RetryView, attempt: u16, sample: u64) -> Option<u64> {
    if !attempt_allowed(p, attempt, 0) {
        None
    } else {
        let ceiling = jitter_ceiling(p, attempt);
        let span = if ceiling < u64::MAX {
            ceiling + 1
        } else {
            ceiling
        };
        Some((sample as int % span) as u64)
    }
}

/// A number moved into an interval.
pub open spec fn clamped(x: u64, low: u64, high: u64) -> u64 {
    if x < low {
        low
    } else if x > high {
        high
    } else {
        x
    }
}

/// The delay before the next attempt: what the peer asked for, or else the jitter,
/// moved into the interval of the policy.
pub open spec fn delay_of(p: RetryView, requested_ms: Option<u64>, attempt: u16, sample: u64) -> Option<u64> {
    match requested_ms {
        Some(ms) => Some(clamped(ms, p.base_ms, p.max_ms)),
        None => match jitter_of(p, attempt, sample) {
            Some(ms) => Some(clamped(ms, p.base_ms, p.max_ms)),
            None => None,
        },
    }
}

/// The bounds of a retry schedule, captured with a delivery.
#[derive(Clone, Copy, Debug, PartialEq, Eq)]
pub struct RetryPolicy {
    max_attempts: u16,
    base_ms: u64,
    max_ms: u64,
    max_age_ms: u64,
}

impl View for RetryPolicy {
    type V = RetryView;

    closed spec fn view(&self) -> RetryView {
        RetryView {
            max_attempts: self.max_attempts,
            base_ms: self.base_ms,
            max_ms: self.max_ms,
            max_age_ms: self.max_age_ms,
        }
    }
}

proof fn lemma_two_to(n: nat)
    requires
        n < 32,
    ensures
        1 <= two_to(n) <= 0x8000_0000,
    decreases 32 - n,
{
    if n < 31 {
        lemma_two_to(n + 1);
    } else {
        reveal_with_fuel(two_to, 32);
    }
    lemma_two_to_positive(n);
}

proof fn lemma_two_to_positive(n: nat)
    ensures
        two_to(n) >= 1,
    decreases n,
{
    if n > 0 {
        lemma_two_to_positive((n - 1) as nat);
    }
}

impl RetryPolicy {
    #[verifier::type_invariant]
    spec fn bounds_hold(self) -> bool {
        valid_bounds(self@)
    }

    /// A schedule whose bounds fit together.
    pub fn new(max_attempts: u16, base_ms: u64, max_ms: u64, max_age_ms: u64) -> (r: Result<
        RetryPolicy,
        PushSecurityError,
    >)
        ensures
            ({
                let p = RetryView { max_attempts, base_ms, max_ms, max_age_ms };
                match r {
                    Ok(policy) => valid_bounds(p) && policy@ == p,
                    Err(e) => e == PushSecurityError::InvalidPolicy && !valid_bounds(p),
                }
            }),
    {
        if max_attempts == 0 || max_attempts > 32 || base_ms == 0 || max_ms < base_ms || max_age_ms < max_ms {
            return Err(PushSecurityError::InvalidPolicy);
        }
        Ok(RetryPolicy { max_attempts, base_ms, max_ms, max_age_ms })
    }

    /// Whether an attempt may be made.
    pub fn can_attempt(&self, attempt: u16, age_ms: u64) -> (r: bool)
        ensures
            r == attempt_allowed(self@, attempt, age_ms),
    {
        attempt > 0 && attempt <= self.max_attempts && age_ms < self.max_age_ms
    }

    /// The delay before the next attempt. Both what the peer asks for and the jitter
    /// are moved into the interval of the policy, so that a peer does not decide when
    /// it is called.
    pub fn clamp_delay_ms(&self, requested_ms: Option<u64>, attempt: u16, sample: u64) -> (r: Option<u64>)
        ensures
            r == delay_of(self@, requested_ms, attempt, sample),
            r is Some ==> self@.base_ms <= r->0 <= self@.max_ms,
    {
        proof {
            use_type_invariant(self);
        }
        let selected: u64 = match requested_ms {
            Some(ms) => ms,
            None => match self.full_jitter_ms(attempt, sample) {
                Some(ms) => ms,
                None => {
                    return None;
                },
            },
        };
        Some(clamp_into(selected, self.base_ms, self.max_ms))
    }

    /// The delay that a random sample stands for.
    pub fn full_jitter_ms(&self, attempt: u16, sample: u64) -> (r: Option<u64>)
        ensures
            r == jitter_of(self@, attempt, sample),
    {
        proof {
            use_type_invariant(self);
        }
        if !self.can_attempt(attempt, 0) {
            return None;
        }
        let mut doubled: u128 = self.base_ms as u128;
        let mut step: u16 = 1;
        let ghost base = self.base_ms;
        assert(base * two_to(0) == base) by (nonlinear_arith)
            requires
                two_to(0) == 1,
        ;
        while step < attempt
            invariant
                1 <= step <= attempt <= 32,
                doubled == base * two_to((step - 1) as nat),
            decreases attempt - step,
        {
            proof {
                lemma_two_to((step - 1) as nat);
                lemma_two_to(step as nat);
                let t = two_to((step - 1) as nat);
                assert(two_to(step as nat) == 2 * t);
                assert(base * (2 * t) == 2 * (base * t)) by (nonlinear_arith);
                assert(base * t <= u64::MAX * 0x8000_0000) by (nonlinear_arith)
                    requires
                        base <= u64::MAX,
                        t <= 0x8000_0000,
                ;
            }
            doubled = doubled * 2;
            step += 1;
        }
        let ceiling: u64 = if doubled < self.max_ms as u128 {
            doubled as u64
        } else {
            self.max_ms
        };
        proof {
            lemma_two_to((attempt - 1) as nat);
            let t = two_to((attempt - 1) as nat);
            assert(base * t >= 1) by (nonlinear_arith)
                requires
                    base >= 1,
                    t >= 1,
            ;
        }
        let span: u64 = if ceiling < 0xffff_ffff_ffff_ffff {
            ceiling + 1
        } else {
            ceiling
        };
        Some(sample % span)
    }
}

/// Moves a number into an interval.
fn clamp_into(x: u64, low: u64, high: u64) -> (r: u64)
    requires
        low <= high,
    ensures
        r == clamped(x, low, high),
        low <= r <= high,
{
    if x < low {
        low
    } else if x > high {
        high
    } else {
        x
    }
}

/// A delay is never shorter than the base of the schedule nor longer than its
/// maximum, whatever a peer asks for and whatever the sample is; and there is one
/// whenever the peer asks or the attempt is allowed.
pub proof fn law_delays_stay_in_bounds(p: RetryView, requested_ms: Option<u64>, attempt: u16, sample: u64)
    requires
        valid_bounds(p),
    ensures
        delay_of(p, requested_ms, attempt, sample) is Some <==> requested_ms is Some || 0 < attempt <= p.max_attempts,
        match delay_of(p, requested_ms, attempt, sample) {
            Some(ms) => p.base_ms <= ms <= p.max_ms,
            None => true,
        },
{
}

/// A schedule is accepted exactly where it makes between one and 32 attempts and its base, its
/// longest delay and its age are positive and in order.
pub proof fn law_schedules_are_ordered(p: RetryView)
    ensures
        valid_bounds(p) <==> p.max_attempts >= 1 && p.max_attempts <= 32 && p.base_ms >= 1 && p.max_ms >= p.base_ms
            && p.max_age_ms >= p.max_ms,
{
}

/// An attempt is allowed from the first to the last of the schedule, while the delivery is
/// younger than its age.
pub proof fn law_attempts_end_with_the_schedule(p: RetryView, attempt: u16, age_ms: u64)
    ensures
        !attempt_allowed(p, 0, age_ms),
        !attempt_allowed(p, attempt, p.max_age_ms),
        p.max_attempts > 0 && p.max_age_ms > 0 ==> attempt_allowed(p, 1, 0) && attempt_allowed(
            p,
            p.max_attempts,
            (p.max_age_ms - 1) as u64,
        ),
        p.max_attempts < u16::MAX ==> !attempt_allowed(p, (p.max_attempts + 1) as u16, age_ms),
        attempt_allowed(p, attempt, age_ms) && age_ms > 0 ==> attempt_allowed(p, attempt, (age_ms - 1) as u64),
        attempt_allowed(p, attempt, age_ms) && attempt > 1 ==> attempt_allowed(p, (attempt - 1) as u16, age_ms),
        1 <= attempt <= p.max_attempts && age_ms < p.max_age_ms ==> attempt_allowed(p, attempt, age_ms),
{
}

/// The longest delay starts at the base and doubles with every attempt until it meets the
/// longest delay of the schedule.
pub proof fn law_delays_double(p: RetryView, attempt: u16)
    requires
        valid_bounds(p),
        1 <= attempt < u16::MAX,
    ensures
        jitter_ceiling(p, 1) == p.base_ms,
        ({
            let now = jitter_ceiling(p, attempt);
            let next = jitter_ceiling(p, (attempt + 1) as u16);
            &&& 2 * now <= p.max_ms ==> next == 2 * now
            &&& 2 * now > p.max_ms ==> next == p.max_ms
            &&& p.base_ms <= now <= p.max_ms
        }),
{
    let n = (attempt - 1) as nat;
    lemma_two_to_positive(n);
    assert(two_to(n + 1) == 2 * two_to(n));
    assert(two_to(0) == 1);
    let base = p.base_ms as int;
    let power = two_to(n) as int;
    assert(base * (2 * power) == 2 * (base * power)) by (nonlinear_arith);
    assert(base * power >= base) by (nonlinear_arith)
        requires
            base >= 0,
            power >= 1,
    ;
    assert(base * 1 == base) by (nonlinear_arith);
}

/// A sample is spread over the whole interval up to the longest delay and never beyond it: every
/// delay within the interval stands for itself.
pub proof fn law_jitter_covers_the_interval(p: RetryView, attempt: u16, sample: u64)
    requires
        valid_bounds(p),
        1 <= attempt <= p.max_attempts,
    ensures
        jitter_of(p, attempt, sample) is Some,
        jitter_of(p, attempt, sample)->0 <= jitter_ceiling(p, attempt),
        sample < jitter_ceiling(p, attempt) ==> jitter_of(p, attempt, sample) == Some(sample),
        sample == jitter_ceiling(p, attempt) && sample < u64::MAX ==> jitter_of(p, attempt, sample) == Some(sample),
        jitter_ceiling(p, attempt) < u64::MAX && sample == jitter_ceiling(p, attempt) + 1 ==> jitter_of(
            p,
            attempt,
            sample,
        ) == Some(0u64),
{
    let ceiling = jitter_ceiling(p, attempt);
    let n = (attempt - 1) as nat;
    lemma_two_to_positive(n);
    let base = p.base_ms as int;
    let power = two_to(n) as int;
    assert(base * power >= base) by (nonlinear_arith)
        requires
            base >= 0,
            power >= 1,
    ;
    let span = if ceiling < u64::MAX { ceiling + 1 } else { ceiling };
    vstd::arithmetic::div_mod::lemma_mod_bound(sample as int, span);
    if (sample as int) < span {
        vstd::arithmetic::div_mod::lemma_small_mod(sample as nat, span as nat);
    }
    if sample as int == span {
        vstd::arithmetic::div_mod::lemma_mod_self_0(span);
    }
}

/// What a peer asks for is granted where the schedule allows it, and moved to the nearer bound
/// where it does not; an attempt beyond the schedule has no delay of its own.
pub proof fn law_peers_are_heard_within_the_schedule(p: RetryView, asked: u64, attempt: u16, sample: u64)
    requires
        valid_bounds(p),
    ensures
        p.base_ms <= asked <= p.max_ms ==> delay_of(p, Some(asked), attempt, sample) == Some(asked),
        asked <= p.base_ms ==> delay_of(p, Some(asked), attempt, sample) == Some(p.base_ms),
        asked >= p.max_ms ==> delay_of(p, Some(asked), attempt, sample) == Some(p.max_ms),
        attempt == 0 || attempt > p.max_attempts ==> delay_of(p, None, attempt, sample) is None,
        jitter_of(p, attempt, sample) is Some && p.base_ms <= jitter_of(p, attempt, sample)->0 <= p.max_ms ==> delay_of(
            p,
            None,
            attempt,
            sample,
        ) == jitter_of(p, attempt, sample),
        jitter_of(p, attempt, sample) is Some && jitter_of(p, attempt, sample)->0 < p.base_ms ==> delay_of(
            p,
            None,
            attempt,
            sample,
        ) == Some(p.base_ms),
{
}

/// What a response means for a delivery.
#[derive(Clone, Copy, Debug, PartialEq, Eq, Structural)]
pub enum DeliveryDisposition {
    Delivered,
    Retry,
    Permanent,
}

/// What a status means for a delivery.
pub open spec fn disposition_of(status: u16) -> DeliveryDisposition {
    if 200 <= status <= 299 {
        DeliveryDisposition::Delivered
    } else if status == 408 || status == 425 || status == 429 || status == 500 || status == 502 || status == 503
        || status == 504 {
        DeliveryDisposition::Retry
    } else {
        DeliveryDisposition::Permanent
    }
}

/// A delivery has arrived on a status of the two hundreds and on no other; it is tried again on
/// the seven statuses that pass with time, and given up on every other.
pub proof fn law_statuses_decide_deliveries(status: u16)
    ensures
        disposition_of(status) == DeliveryDisposition::Delivered <==> status / 100 == 2,
        disposition_of(status) == DeliveryDisposition::Retry <==> seq![
            408u16,
            425u16,
            429u16,
            500u16,
            502u16,
            503u16,
            504u16,
        ].contains(status),
{
    let again = seq![408u16, 425u16, 429u16, 500u16, 502u16, 503u16, 504u16];
    assert(again[0] == 408 && again[1] == 425 && again[2] == 429 && again[3] == 500 && again[4] == 502 && again[5]
        == 503 && again[6] == 504);
}

/// What a status means for a delivery.
pub fn classify_status(status: u16) -> (r: DeliveryDisposition)
    ensures
        r == disposition_of(status),
{
    if status >= 200 && status <= 299 {
        DeliveryDisposition::Delivered
    } else if status == 408 || status == 425 || status == 429 || status == 500 || status == 502 || status == 503
        || status == 504 {
        DeliveryDisposition::Retry
    } else {
        DeliveryDisposition::Permanent
    }
}

/// The seconds since the epoch that an HTTP date stands for, where it is one.
pub uninterp spec fn http_date_of(text: Seq<char>) -> Option<u64>;

/// `httpdate::parse_http_date`, counted from the epoch: success and the date are a
/// function of the text alone, named [`http_date_of`].
#[verifier::external_body]
pub(crate) fn http_date_seconds(value: &str) -> (r: Option<u64>)
    ensures
        r == http_date_of(value@),
{
    let date = httpdate::parse_http_date(value).ok()?;
    date.duration_since(UNIX_EPOCH).ok().map(|elapsed| elapsed.as_secs())
}

/// `std::time::SystemTime::now`, counted from the epoch: nothing is promised of what
/// the clock shows.
#[verifier::external_body]
pub(crate) fn unix_seconds() -> (r: Option<u64>) {
    SystemTime::now().duration_since(UNIX_EPOCH).ok().map(|elapsed| elapsed.as_secs())
}

/// Whether a response may ask for a delay at all.
pub open spec fn may_schedule(status: u16, values: nat, minimum: u64, maximum: u64) -> bool {
    (status == 429 || status == 503) && values == 1 && minimum <= maximum
}

/// The delay that a value asks for: a number of seconds, or the time until a date
/// that is still to come.
pub open spec fn requested_delay(value: Seq<char>, date: Option<u64>, now: u64) -> Option<u64> {
    match text::unsigned_value(text::utf8(value), u64::MAX as nat) {
        Some(delta) => Some(delta as u64),
        None => match date {
            Some(deadline) => if deadline > now {
                Some((deadline - now) as u64)
            } else {
                None
            },
            None => None,
        },
    }
}

/// The delay that a response asks for. Only some statuses may ask, and only once.
pub open spec fn retry_after_of(
    status: u16,
    values: Seq<Seq<char>>,
    date: Option<u64>,
    now: u64,
    minimum: u64,
    maximum: u64,
) -> Option<u64> {
    if !may_schedule(status, values.len(), minimum, maximum) {
        None
    } else {
        match requested_delay(values[0], date, now) {
            Some(seconds) => Some(clamped(seconds, minimum, maximum)),
            None => None,
        }
    }
}

/// Values as text.
pub open spec fn value_views(values: Seq<&str>) -> Seq<Seq<char>> {
    Seq::new(values.len(), |i: int| values[i]@)
}

/// The delay that a response asks for, given the date that its value stands for.
pub fn retry_after_from(
    status: u16,
    values: &[&str],
    date: Option<u64>,
    now_epoch_seconds: u64,
    minimum: u64,
    maximum: u64,
) -> (r: Option<u64>)
    ensures
        r == retry_after_of(status, value_views(values@), date, now_epoch_seconds, minimum, maximum),
{
    if !(status == 429 || status == 503) || values.len() != 1 || minimum > maximum {
        return None;
    }
    let value = values[0];
    let seconds: u64 = match text::parse_unsigned(value.as_bytes(), 0xffff_ffff_ffff_ffff) {
        Some(delta) => delta,
        None => match date {
            Some(deadline) => {
                if deadline <= now_epoch_seconds {
                    return None;
                }
                deadline - now_epoch_seconds
            },
            None => {
                return None;
            },
        },
    };
    Some(clamp_into(seconds, minimum, maximum))
}

/// The delay that a response asks for at some time.
pub fn retry_after_seconds_at(
    status: u16,
    values: &[&str],
    now_epoch_seconds: u64,
    minimum: u64,
    maximum: u64,
) -> (r: Option<u64>)
    ensures
        r == retry_after_of(
            status,
            value_views(values@),
            http_date_of(value_views(values@)[0]),
            now_epoch_seconds,
            minimum,
            maximum,
        ),
{
    if values.len() != 1 {
        return None;
    }
    let date: Option<u64> = http_date_seconds(values[0]);
    retry_after_from(status, values, date, now_epoch_seconds, minimum, maximum)
}

/// The delay that a response asks for now. Where the clock cannot be read there is
/// none; else a number of seconds stands for itself, and a date counts from what the
/// clock shows.
pub fn retry_after_seconds(status: u16, values: &[&str], minimum: u64, maximum: u64) -> (r: Option<u64>)
    ensures
        !may_schedule(status, values@.len(), minimum, maximum) ==> r is None,
        r is None || exists|now: u64|
            r == #[trigger] retry_after_of(
                status,
                value_views(values@),
                http_date_of(value_views(values@)[0]),
                now,
                minimum,
                maximum,
            ),
{
    match unix_seconds() {
        Some(now) => retry_after_seconds_at(status, values, now, minimum, maximum),
        None => None,
    }
}

/// A delay that a response asks for lies in the interval that it was asked within.
pub proof fn law_requested_delays_stay_in_bounds(
    status: u16,
    values: Seq<Seq<char>>,
    date: Option<u64>,
    now: u64,
    minimum: u64,
    maximum: u64,
)
    ensures
        match retry_after_of(status, values, date, now, minimum, maximum) {
            Some(seconds) => minimum <= seconds <= maximum && (status == 429 || status == 503),
            None => true,
        },
{
}

/// A response that may ask for a delay is given the number of seconds that it names, or the time
/// until the date that it names where that is still to come, moved into the interval. A date
/// that has come, and a value that is neither, ask for nothing.
pub proof fn law_responses_are_given_what_they_ask(
    status: u16,
    value: Seq<char>,
    date: Option<u64>,
    now: u64,
    minimum: u64,
    maximum: u64,
)
    requires
        status == 429 || status == 503,
        minimum <= maximum,
    ensures
        ({
            let given = retry_after_of(status, seq![value], date, now, minimum, maximum);
            match text::unsigned_value(text::utf8(value), 0xffff_ffff_ffff_ffff) {
                Some(seconds) => {
                    &&& given is Some
                    &&& seconds <= 0xffff_ffff_ffff_ffff && minimum <= seconds <= maximum ==> given->0 == seconds
                    &&& seconds <= 0xffff_ffff_ffff_ffff && seconds < minimum ==> given->0 == minimum
                    &&& seconds <= 0xffff_ffff_ffff_ffff && seconds > maximum ==> given->0 == maximum
                },
                None => {
                    &&& given is Some <==> date is Some && date->0 > now
                    &&& date is Some && date->0 > now && minimum <= date->0 - now <= maximum ==> given->0 == date->0
                        - now
                    &&& date is Some && date->0 > now && date->0 - now < minimum ==> given->0 == minimum
                    &&& date is Some && date->0 > now && date->0 - now > maximum ==> given->0 == maximum
                },
            }
        }),
{
}

/// Any other status, more or less than one value, and an interval that is empty ask for nothing.
pub proof fn law_other_responses_ask_for_nothing(
    status: u16,
    values: Seq<Seq<char>>,
    date: Option<u64>,
    now: u64,
    minimum: u64,
    maximum: u64,
)
    ensures
        status != 429 && status != 503 || values.len() != 1 || minimum > maximum ==> retry_after_of(
            status,
            values,
            date,
            now,
            minimum,
            maximum,
        ) is None,
{
}

} // verus!
