//! The retry schedule of webhook delivery.

use vstd::arithmetic::power2::{lemma2_to64, lemma_pow2_unfold, pow2};
use vstd::prelude::*;

verus! {

/// How many times one record is posted before it is given up.
pub const MAX_ATTEMPTS: u32 = 3;

/// How long a single post may take, in milliseconds.
pub const REQUEST_TIMEOUT_MILLIS: u64 = 5000;

/// The delay after the first failed attempt, in milliseconds.
pub const RETRY_BASE_MILLIS: u64 = 200;

/// The delay after failed attempt `attempt`, in milliseconds: it doubles with each attempt.
pub open spec fn delay(attempt: nat) -> nat {
    RETRY_BASE_MILLIS as nat * pow2((attempt - 1) as nat)
}

proof fn delay_steps(attempt: nat)
    requires
        attempt >= 1,
    ensures
        delay(1) == 200,
        delay(attempt + 1) == 2 * delay(attempt),
{
    lemma2_to64();
    lemma_pow2_unfold(attempt);
    assert(200 * (2 * pow2((attempt - 1) as nat)) == 2 * (200 * pow2((attempt - 1) as nat)))
        by (nonlinear_arith);
}

/// The delay after failed attempt `attempt`, in milliseconds. The attempts are counted from 1, and
/// the factor has to fit in 32 bits.
pub fn backoff(attempt: u32) -> (r: u64)
    requires
        1 <= attempt <= 32,
    ensures
        r == delay(attempt as nat),
{
    let mut r: u64 = RETRY_BASE_MILLIS;
    let mut i: u32 = 1;
    proof {
        delay_steps(1);
    }
    while i < attempt
        invariant
            1 <= i <= attempt <= 32,
            r == delay(i as nat),
            r < 200 * 0x1_0000_0000,
        decreases attempt - i,
    {
        proof {
            delay_steps(i as nat);
            power_bound(i as nat);
        }
        r = r * 2;
        i = i + 1;
    }
    r
}

proof fn power_bound(k: nat)
    requires
        k < 32,
    ensures
        pow2(k) < 0x1_0000_0000,
{
    lemma2_to64();
    vstd::arithmetic::power2::lemma_pow2_strictly_increases(k, 32);
}

/// What becomes of a record after an attempt.
#[derive(Clone, Copy, Debug, PartialEq, Eq, Structural)]
pub enum Delivery {
    /// The endpoint took it.
    Delivered,
    /// Try again after this many milliseconds.
    Retry { after_millis: u64 },
    /// The last attempt failed.
    GiveUp,
}

/// What an attempt came to: the status of the response, or none where the transport failed.
pub open spec fn success(status: Option<u16>) -> bool {
    status is Some && 200 <= status->0 < 300
}

/// What to do after attempt `attempt` ended with `status`.
pub open spec fn next_delivery(attempt: u32, status: Option<u16>) -> Delivery {
    if success(status) {
        Delivery::Delivered
    } else if attempt < MAX_ATTEMPTS {
        Delivery::Retry { after_millis: delay(attempt as nat) as u64 }
    } else {
        Delivery::GiveUp
    }
}

/// Decides on the record after attempt `attempt`, counted from 1.
pub fn after_attempt(attempt: u32, status: Option<u16>) -> (r: Delivery)
    requires
        1 <= attempt,
    ensures
        r == next_delivery(attempt, status),
{
    let delivered = match status {
        Some(code) => 200 <= code && code < 300,
        None => false,
    };
    if delivered {
        Delivery::Delivered
    } else if attempt < MAX_ATTEMPTS {
        let millis: u64 = backoff(attempt);
        Delivery::Retry { after_millis: millis }
    } else {
        Delivery::GiveUp
    }
}

/// The delays that an endpoint which never answers adds, over `attempts` attempts.
pub open spec fn waited(attempts: nat) -> nat
    decreases attempts,
{
    if attempts == 0 {
        0
    } else {
        waited((attempts - 1) as nat) + match next_delivery(attempts as u32, None) {
            Delivery::Retry { after_millis } => after_millis as nat,
            _ => 0,
        }
    }
}

/// Each delay is longer than the one before.
pub proof fn delays_grow(attempt: nat)
    requires
        attempt >= 1,
    ensures
        delay(attempt) < delay(attempt + 1),
{
    delay_steps(attempt);
    vstd::arithmetic::power2::lemma_pow2_pos((attempt - 1) as nat);
    assert(200 * pow2((attempt - 1) as nat) > 0) by (nonlinear_arith)
        requires
            pow2((attempt - 1) as nat) > 0,
    ;
}

/// A dead endpoint is given up after [`MAX_ATTEMPTS`] attempts, with less than a second of added
/// delay.
pub proof fn dead_endpoint_is_abandoned()
    ensures
        next_delivery(MAX_ATTEMPTS, None) == Delivery::GiveUp,
        forall|n: u32| 1 <= n < MAX_ATTEMPTS ==> #[trigger] next_delivery(n, None) is Retry,
        waited(MAX_ATTEMPTS as nat) < 1000,
{
    reveal_with_fuel(waited, 4);
    delay_steps(1);
    delay_steps(2);
}

/// A record is delivered exactly by a response of the two hundreds. Anything else is tried again up to
/// the third attempt, after two hundred milliseconds at first and twice as long each time, and is
/// given up with the third.
pub proof fn failed_delivery_is_tried_again(attempt: u32, status: Option<u16>)
    requires
        1 <= attempt,
    ensures
        next_delivery(attempt, status) == Delivery::Delivered <==> (status matches Some(code) && 200
            <= code <= 299),
        !(status matches Some(code) && 200 <= code <= 299) ==> match next_delivery(attempt, status) {
            Delivery::Retry { after_millis } => {
                &&& attempt < 3
                &&& attempt == 1 ==> after_millis == 200
                &&& attempt == 2 ==> after_millis == 400
            },
            Delivery::GiveUp => attempt >= 3,
            Delivery::Delivered => false,
        },
        delay(1) == 200,
        delay(attempt as nat + 1) == 2 * delay(attempt as nat),
{
    delay_steps(1);
    delay_steps(attempt as nat);
}

/// A delivery is tried at most three times, each within five seconds, and the first wait is of 200
/// milliseconds.
pub proof fn delivery_numbers()
    ensures
        MAX_ATTEMPTS == 3,
        REQUEST_TIMEOUT_MILLIS == 5 * 1000,
        RETRY_BASE_MILLIS == 200,
{
}

} // verus!
