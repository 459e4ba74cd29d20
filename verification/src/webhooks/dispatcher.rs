//! What the dispatcher does with the result of sending a delivery: record a
//! success, schedule a retry with exponential backoff, or give up.
use vstd::prelude::*;
use vstd::string::*;
use crate::encoding::{decimal_string, decimal_text};
use crate::clock::{now_micros, CLOCK_LIMIT_MICROS};
use crate::models::webhook::WebhookDeliveryStatus;

verus! {

/// Microseconds in a second.
pub const MICROS_PER_SECOND: i64 = 1_000_000;

/// The longest wait before a retry, in seconds.
pub const MAX_BACKOFF_SECONDS: i64 = 3600;

/// What came of sending a delivery.
pub enum SendOutcome {
    /// The endpoint answered with this HTTP status.
    Response(u16),
    /// The request failed before an answer; the reason.
    TransportError(String),
}

/// How a delivery's record changes.
pub struct DeliveryUpdate {
    pub status: WebhookDeliveryStatus,
    pub response_code: Option<i32>,
    pub error: Option<String>,
    pub next_retry_at: Option<i64>,
}

/// Two to the power `n`.
pub open spec fn doubling(n: nat) -> int
    decreases n,
{
    if n == 0 {
        1
    } else {
        2 * doubling((n - 1) as nat)
    }
}

/// The wait before retry number `n`: 2^n seconds, at most an hour.
pub open spec fn backoff_seconds(n: nat) -> int {
    if doubling(n) < MAX_BACKOFF_SECONDS {
        doubling(n)
    } else {
        MAX_BACKOFF_SECONDS as int
    }
}

proof fn lemma_doubling_grows(n: nat)
    ensures
        doubling(n) >= 1,
        n >= 12 ==> doubling(n) >= 4096,
    decreases n,
{
    if n > 0 {
        lemma_doubling_grows((n - 1) as nat);
    }
    if n == 12 {
        reveal_with_fuel(doubling, 13);
    }
}

/// The wait before retry number `n`, in seconds.
pub fn backoff(n: u32) -> (seconds: i64)
    ensures
        seconds == backoff_seconds(n as nat),
{
    if n >= 12 {
        proof {
            lemma_doubling_grows(n as nat);
        }
        return MAX_BACKOFF_SECONDS;
    }
    let mut seconds: i64 = 1;
    let mut i: u32 = 0;
    while i < n
        invariant
            i <= n < 12,
            seconds == doubling(i as nat),
        decreases n - i,
    {
        proof {
            lemma_doubling_grows(i as nat);
            if i < 11 {
                assert(doubling(i as nat) <= doubling(11)) by {
                    lemma_doubling_monotone(i as nat, 11);
                }
            }
            reveal_with_fuel(doubling, 12);
        }
        seconds = seconds * 2;
        i = i + 1;
    }
    if seconds < MAX_BACKOFF_SECONDS {
        seconds
    } else {
        MAX_BACKOFF_SECONDS
    }
}

proof fn lemma_doubling_monotone(m: nat, n: nat)
    requires
        m <= n,
    ensures
        doubling(m) <= doubling(n),
    decreases n - m,
{
    if m < n {
        lemma_doubling_monotone(m, (n - 1) as nat);
        lemma_doubling_grows((n - 1) as nat);
    }
}

/// The retry schedule: the first wait is two seconds and each later wait is
/// twice the one before, until the waits reach an hour, where they stay; a
/// delivery is given up at its failure after `max_retries` retries, and not
/// before.
pub proof fn law_retry_schedule(n: nat, max_retries: u32)
    ensures
        backoff_seconds(1) == 2,
        1 <= n <= 10 ==> backoff_seconds(n + 1) == 2 * backoff_seconds(n),
        n >= 12 ==> backoff_seconds(n) == MAX_BACKOFF_SECONDS,
        gives_up(n as int, max_retries) <==> n >= max_retries,
{
    reveal_with_fuel(doubling, 2);
    lemma_doubling_grows(n);
    if 1 <= n <= 10 {
        lemma_doubling_monotone(n + 1, 11);
        assert(doubling(11) == 2048) by {
            reveal_with_fuel(doubling, 12);
        }
        assert(doubling(n + 1) == 2 * doubling(n));
    }
}

/// The failure that ends a delivery: after `max_retries` retries, the next
/// failure is final.
pub open spec fn gives_up(retry_count: int, max_retries: u32) -> bool {
    retry_count + 1 > max_retries
}

/// The time of the next retry, when one is due, for a failure counted at
/// some instant `now` of the clock.
pub open spec fn retry_time_after(retry_count: int, now: int) -> int {
    now + backoff_seconds((retry_count + 1) as nat) * MICROS_PER_SECOND
}

/// Handle a failed delivery at an instant `now`: the failure count grows by one; a delivery that
/// has already had `max_retries` retries is marked failed for good, else it
/// stays pending and is retried 2^n seconds later (n being the new count, at
/// most an hour). The status code and the error are recorded either way.
pub fn handle_failure_at(
    retry_count: i32,
    response_code: Option<i32>,
    error: String,
    max_retries: u32,
    now: i64,
) -> (update: DeliveryUpdate)
    requires
        -1 <= retry_count < i32::MAX,
        now <= i64::MAX - MAX_BACKOFF_SECONDS * MICROS_PER_SECOND,
    ensures
        update.response_code == response_code,
        update.error == Some(error),
        gives_up(retry_count as int, max_retries) ==> update.status == WebhookDeliveryStatus::Failed
            && update.next_retry_at is None,
        !gives_up(retry_count as int, max_retries) ==> update.status == WebhookDeliveryStatus::Pending
            && update.next_retry_at == Some(
            retry_time_after(retry_count as int, now as int) as i64,
        ),
{
    let new_retry_count = retry_count + 1;
    if (new_retry_count as u32) > max_retries {
        DeliveryUpdate {
            status: WebhookDeliveryStatus::Failed,
            response_code,
            error: Some(error),
            next_retry_at: None,
        }
    } else {
        let wait = backoff(new_retry_count as u32);
        proof {
            lemma_doubling_grows((retry_count + 1) as nat);
        }
        DeliveryUpdate {
            status: WebhookDeliveryStatus::Pending,
            response_code,
            error: Some(error),
            next_retry_at: Some(now + wait * MICROS_PER_SECOND),
        }
    }
}

/// The status of an HTTP answer means success: 200 to 299.
pub open spec fn is_success(code: u16) -> bool {
    200 <= code <= 299
}

/// Every answer from 200 to 299 is a delivered webhook: recorded as a
/// success with its status code, no error and no retry; every other answer
/// is not a success.
pub proof fn law_success_codes(code: u16)
    ensures
        200 <= code <= 299 <==> is_success(code),
{
}

/// The record change after sending a delivery, at an instant `now`: an answer in the 2xx range
/// is a success with its status code; another answer is a failure recorded
/// as "HTTP <code>" with its status code; a transport error is a failure
/// recorded with its reason and no status code.
pub fn delivery_update_at(outcome: SendOutcome, retry_count: i32, max_retries: u32, now: i64) -> (update: DeliveryUpdate)
    requires
        -1 <= retry_count < i32::MAX,
        now <= i64::MAX - MAX_BACKOFF_SECONDS * MICROS_PER_SECOND,
    ensures
        match outcome {
            SendOutcome::Response(code) => if 200 <= code <= 299 {
                update == (DeliveryUpdate {
                    status: WebhookDeliveryStatus::Success,
                    response_code: Some(code as i32),
                    error: None,
                    next_retry_at: None,
                })
            } else {
                &&& update.response_code == Some(code as i32)
                &&& update.error matches Some(e) && e@ == "HTTP "@ + decimal_text(code as int)
                &&& update.status == if gives_up(retry_count as int, max_retries) {
                    WebhookDeliveryStatus::Failed
                } else {
                    WebhookDeliveryStatus::Pending
                }
            },
            SendOutcome::TransportError(reason) => {
                &&& update.response_code is None
                &&& update.error == Some(reason)
                &&& update.status == if gives_up(retry_count as int, max_retries) {
                    WebhookDeliveryStatus::Failed
                } else {
                    WebhookDeliveryStatus::Pending
                }
            },
        },
        update.status != WebhookDeliveryStatus::Success ==> update.next_retry_at == if gives_up(
            retry_count as int,
            max_retries,
        ) {
            None
        } else {
            Some(retry_time_after(retry_count as int, now as int) as i64)
        },
{
    match outcome {
        SendOutcome::Response(code) => {
            if 200 <= code && code <= 299 {
                DeliveryUpdate {
                    status: WebhookDeliveryStatus::Success,
                    response_code: Some(code as i32),
                    error: None,
                    next_retry_at: None,
                }
            } else {
                let message = String::from_str("HTTP ").concat(decimal_string(code as i64).as_str());
                handle_failure_at(retry_count, Some(code as i32), message, max_retries, now)
            }
        },
        SendOutcome::TransportError(reason) => handle_failure_at(retry_count, None, reason, max_retries, now),
    }
}

/// Handle a failed delivery now: as `handle_failure_at`, at the current time.
pub fn handle_failure(retry_count: i32, response_code: Option<i32>, error: String, max_retries: u32) -> (update:
    DeliveryUpdate)
    requires
        -1 <= retry_count < i32::MAX,
    ensures
        update.response_code == response_code,
        update.error == Some(error),
        gives_up(retry_count as int, max_retries) ==> update.status == WebhookDeliveryStatus::Failed
            && update.next_retry_at is None,
        !gives_up(retry_count as int, max_retries) ==> update.status == WebhookDeliveryStatus::Pending
            && exists|now: i64|
            -CLOCK_LIMIT_MICROS <= now <= CLOCK_LIMIT_MICROS && update.next_retry_at == Some(
                retry_time_after(retry_count as int, now as int) as i64,
            ),
{
    let now = now_micros();
    let update = handle_failure_at(retry_count, response_code, error, max_retries, now);
    assert(!gives_up(retry_count as int, max_retries) ==> update.next_retry_at == Some(
        retry_time_after(retry_count as int, now as int) as i64,
    ));
    update
}

/// The record change after sending a delivery now: as `delivery_update_at`,
/// at the current time.
pub fn delivery_update(outcome: SendOutcome, retry_count: i32, max_retries: u32) -> (update: DeliveryUpdate)
    requires
        -1 <= retry_count < i32::MAX,
    ensures
        match outcome {
            SendOutcome::Response(code) => if 200 <= code <= 299 {
                update == (DeliveryUpdate {
                    status: WebhookDeliveryStatus::Success,
                    response_code: Some(code as i32),
                    error: None,
                    next_retry_at: None,
                })
            } else {
                &&& update.response_code == Some(code as i32)
                &&& update.error matches Some(e) && e@ == "HTTP "@ + decimal_text(code as int)
                &&& update.status == if gives_up(retry_count as int, max_retries) {
                    WebhookDeliveryStatus::Failed
                } else {
                    WebhookDeliveryStatus::Pending
                }
            },
            SendOutcome::TransportError(reason) => {
                &&& update.response_code is None
                &&& update.error == Some(reason)
                &&& update.status == if gives_up(retry_count as int, max_retries) {
                    WebhookDeliveryStatus::Failed
                } else {
                    WebhookDeliveryStatus::Pending
                }
            },
        },
        update.status != WebhookDeliveryStatus::Success && gives_up(retry_count as int, max_retries)
            ==> update.next_retry_at is None,
        update.status != WebhookDeliveryStatus::Success && !gives_up(retry_count as int, max_retries)
            ==> exists|now: i64|
            -CLOCK_LIMIT_MICROS <= now <= CLOCK_LIMIT_MICROS && update.next_retry_at == Some(
                retry_time_after(retry_count as int, now as int) as i64,
            ),
{
    let now = now_micros();
    let update = delivery_update_at(outcome, retry_count, max_retries, now);
    assert(update.status != WebhookDeliveryStatus::Success && !gives_up(retry_count as int, max_retries)
        ==> update.next_retry_at == Some(retry_time_after(retry_count as int, now as int) as i64));
    update
}

} // verus!
