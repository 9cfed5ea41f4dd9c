//! When a request to gitlab is sent again, and after which delay.

use crate::text::parse_unsigned;
use reqwest::StatusCode;
use vstd::prelude::*;

verus! {

/// Number of times a transient gitlab API error is retried where nothing else is set
pub const DEFAULT_MAX_RETRIES: u32 = 4;

/// Base delay of the backoff, in milliseconds, where nothing else is set
pub const DEFAULT_RETRY_BACKOFF_MS: u64 = 500;

/// Upper bound for the backoff exponent, capping the per-attempt delay at 64x the base
pub const MAX_BACKOFF_EXPONENT: u32 = 6;

/// HTTP status codes worth retrying.
///
/// These are typically returned by an overloaded, restarting or rate-limiting
/// gitlab instance and usually succeed on a subsequent attempt. Any other
/// status (eg `401` or `404`) fails immediately, as retrying would not help.
pub const RETRYABLE_STATUS: [u16; 5] = [429, 500, 502, 503, 504];

/// A span of time: whole seconds and the nanoseconds of the last, partial second.
///
/// Its view is the span in nanoseconds.
#[derive(Clone, Copy, Debug)]
pub struct Delay {
    secs: u64,
    nanos: u32,
}

impl View for Delay {
    type V = nat;

    closed spec fn view(&self) -> nat {
        (self.secs * 1_000_000_000 + self.nanos) as nat
    }
}

/// The longest span that a [`Delay`] holds, in nanoseconds.
pub open spec fn longest_delay() -> nat {
    (u64::MAX * 1_000_000_000 + 999_999_999) as nat
}

impl Delay {
    #[verifier::type_invariant]
    spec fn well_formed(self) -> bool {
        self.nanos < 1_000_000_000
    }

    /// A span of whole milliseconds.
    pub fn from_millis(millis: u64) -> (delay: Delay)
        ensures
            delay@ == millis * 1_000_000,
    {
        Delay { secs: millis / 1000, nanos: ((millis % 1000) * 1_000_000) as u32 }
    }

    /// The whole seconds of the span.
    pub fn as_secs(&self) -> (secs: u64)
        ensures
            secs == self@ / 1_000_000_000,
    {
        proof {
            use_type_invariant(self);
        }
        self.secs
    }

    /// The nanoseconds of the span beyond its whole seconds.
    pub fn subsec_nanos(&self) -> (nanos: u32)
        ensures
            nanos == self@ % 1_000_000_000,
    {
        proof {
            use_type_invariant(self);
        }
        self.nanos
    }

    /// The span `factor` times over, or the longest span where that is longer.
    pub fn saturating_mul(self, factor: u32) -> (delay: Delay)
        ensures
            delay@ == if self@ * factor <= longest_delay() {
                (self@ * factor) as nat
            } else {
                longest_delay()
            },
    {
        proof {
            use_type_invariant(&self);
        }
        let total: u128 = self.secs as u128 * 1_000_000_000 + self.nanos as u128;
        let ghost product = total * factor;
        assert(product <= 0xffff_ffff_ffff_ffff_ffff_ffff_ffff_ffff) by (nonlinear_arith)
            requires
                total <= 0xffff_ffff_ffff_ffff * 1_000_000_000 + 999_999_999,
                factor <= 0xffff_ffff,
                product == total * factor,
        ;
        let scaled: u128 = total * factor as u128;
        let longest: u128 = u64::MAX as u128 * 1_000_000_000 + 999_999_999;
        if scaled <= longest {
            Delay { secs: (scaled / 1_000_000_000) as u64, nanos: (scaled % 1_000_000_000) as u32 }
        } else {
            Delay { secs: u64::MAX, nanos: 999_999_999 }
        }
    }
}

/// The factor by which the delay before retry `attempt` (0-based) exceeds the base: it doubles
/// with each attempt, up to 64.
pub open spec fn backoff_factor(attempt: nat) -> nat {
    vstd::arithmetic::power2::pow2(
        if attempt < MAX_BACKOFF_EXPONENT {
            attempt
        } else {
            MAX_BACKOFF_EXPONENT as nat
        },
    )
}

/// The delay before retry `attempt` (0-based) in nanoseconds, for a base of `base` nanoseconds.
pub open spec fn backoff(base: nat, attempt: nat) -> nat {
    if base * backoff_factor(attempt) <= longest_delay() {
        base * backoff_factor(attempt)
    } else {
        longest_delay()
    }
}

/// Computes the capped exponential backoff delay before retry `attempt` (0-based), for the base
/// delay `base`.
pub fn backoff_delay(attempt: u32, base: Delay) -> (delay: Delay)
    ensures
        delay@ == backoff(base@, attempt as nat),
{
    let exponent: u32 = if attempt < MAX_BACKOFF_EXPONENT {
        attempt
    } else {
        MAX_BACKOFF_EXPONENT
    };
    proof {
        vstd::arithmetic::power2::lemma2_to64();
        vstd::bits::lemma_u32_pow2_no_overflow(exponent as nat);
        vstd::bits::lemma_u32_shl_is_mul(1, exponent);
    }
    let factor: u32 = 1u32 << exponent;
    base.saturating_mul(factor)
}

/// The number of retries that a setting gives: the number it spells, or
/// [`DEFAULT_MAX_RETRIES`] where there is none or it is not a number that fits.
pub open spec fn max_retries_of(setting: Option<Seq<char>>) -> u32 {
    match setting {
        Some(text) => match crate::text::unsigned_number(text) {
            Some(n) if n <= u32::MAX => n as u32,
            _ => DEFAULT_MAX_RETRIES,
        },
        None => DEFAULT_MAX_RETRIES,
    }
}

/// The base delay, in milliseconds, that a setting gives: the number it spells, or
/// [`DEFAULT_RETRY_BACKOFF_MS`] where there is none or it is not a number that fits.
pub open spec fn backoff_millis_of(setting: Option<Seq<char>>) -> u64 {
    match setting {
        Some(text) => match crate::text::unsigned_number(text) {
            Some(n) if n <= u64::MAX => n as u64,
            _ => DEFAULT_RETRY_BACKOFF_MS,
        },
        None => DEFAULT_RETRY_BACKOFF_MS,
    }
}

/// Number of times a transient gitlab API error is retried before giving up, from the value of
/// the setting `MAX_RETRIES` (default `4`; set to `0` to disable retrying)
pub fn max_retries(setting: Option<&str>) -> (n: u32)
    ensures
        n == max_retries_of(
            match setting {
                Some(text) => Some(text@),
                None => None,
            },
        ),
{
    match setting {
        Some(text) => match parse_unsigned(text, u32::MAX as u64) {
            Some(n) => n as u32,
            None => DEFAULT_MAX_RETRIES,
        },
        None => DEFAULT_MAX_RETRIES,
    }
}

/// Base delay for the retry exponential backoff, from the value of the setting
/// `RETRY_BACKOFF_MS` (default `500`)
pub fn retry_backoff(setting: Option<&str>) -> (delay: Delay)
    ensures
        delay@ == backoff_millis_of(
            match setting {
                Some(text) => Some(text@),
                None => None,
            },
        ) * 1_000_000,
{
    let millis: u64 = match setting {
        Some(text) => match parse_unsigned(text, u64::MAX) {
            Some(n) => n,
            None => DEFAULT_RETRY_BACKOFF_MS,
        },
        None => DEFAULT_RETRY_BACKOFF_MS,
    };
    Delay::from_millis(millis)
}

/// `StatusCode::is_client_error` of reqwest, on the number of the status: a status is a client
/// error where it is from 400 to 499. A number that is no status (below 100 or above 999) is
/// none.
#[verifier::external_body]
fn is_client_error(status: u16) -> (b: bool)
    ensures
        b == (400 <= status < 500),
{
    match StatusCode::from_u16(status) {
        Ok(code) => code.is_client_error(),
        Err(_) => false,
    }
}

/// `StatusCode::is_server_error` of reqwest, on the number of the status: a status is a server
/// error where it is from 500 to 599. A number that is no status (below 100 or above 999) is
/// none.
#[verifier::external_body]
fn is_server_error(status: u16) -> (b: bool)
    ensures
        b == (500 <= status < 600),
{
    match StatusCode::from_u16(status) {
        Ok(code) => code.is_server_error(),
        Err(_) => false,
    }
}

/// Whether a status says that the request failed.
pub open spec fn is_error_status(status: u16) -> bool {
    400 <= status < 600
}

/// Whether a status is worth retrying.
pub open spec fn is_retryable_status(status: u16) -> bool {
    status == 429 || status == 500 || status == 502 || status == 503 || status == 504
}

/// Whether `status` is one of [`RETRYABLE_STATUS`].
fn status_is_retryable(status: u16) -> (b: bool)
    ensures
        b == is_retryable_status(status),
{
    let mut i: usize = 0;
    while i < RETRYABLE_STATUS.len()
        invariant
            i <= RETRYABLE_STATUS@.len(),
            forall|j: int| 0 <= j < i ==> RETRYABLE_STATUS@[j] != status,
        decreases RETRYABLE_STATUS@.len() - i,
    {
        if RETRYABLE_STATUS[i] == status {
            return true;
        }
        i = i + 1;
    }
    assert(RETRYABLE_STATUS@[0] == 429 && RETRYABLE_STATUS@[1] == 500 && RETRYABLE_STATUS@[2] == 502
        && RETRYABLE_STATUS@[3] == 503 && RETRYABLE_STATUS@[4] == 504);
    false
}

/// What came of sending a request.
#[derive(Clone, Copy, Debug)]
pub enum Outcome {
    /// A response came back, with this HTTP status.
    Response { status: u16 },
    /// No response came back.
    TransportError {
        /// Whether the request timed out
        timeout: bool,
        /// Whether the connection could not be made
        connect: bool,
    },
}

/// What to do after a request was sent.
#[derive(Clone, Copy, Debug)]
pub enum Decision {
    /// Hand the response to the caller.
    Accept,
    /// Wait, then send the request again.
    RetryAfter(Delay),
    /// Give up: log the body of the response and return its status as the error.
    FailStatus,
    /// Give up: return the transport error.
    FailTransport,
}

/// A [`Decision`], with its delay in nanoseconds.
pub enum Plan {
    Accept,
    RetryAfter(nat),
    FailStatus,
    FailTransport,
}

impl View for Decision {
    type V = Plan;

    open spec fn view(&self) -> Plan {
        match *self {
            Decision::Accept => Plan::Accept,
            Decision::RetryAfter(delay) => Plan::RetryAfter(delay@),
            Decision::FailStatus => Plan::FailStatus,
            Decision::FailTransport => Plan::FailTransport,
        }
    }
}

/// How far an authenticated `GET` has come, as numbers.
pub struct RetryState {
    /// Number of retries before giving up
    pub max_retries: nat,
    /// Base delay in nanoseconds
    pub base: nat,
    /// Retries made so far
    pub attempt: nat,
}

/// Whether the outcome is a response without an error status.
pub open spec fn is_accepted(outcome: Outcome) -> bool {
    outcome matches Outcome::Response { status } && !is_error_status(status)
}

/// Whether the outcome is a transient failure: a timeout, a connection error or one of the
/// retryable statuses.
pub open spec fn is_transient(outcome: Outcome) -> bool {
    match outcome {
        Outcome::Response { status } => is_retryable_status(status),
        Outcome::TransportError { timeout, connect } => timeout || connect,
    }
}

/// How a request that is not sent again fails.
pub open spec fn failure(outcome: Outcome) -> Plan {
    match outcome {
        Outcome::Response { .. } => Plan::FailStatus,
        Outcome::TransportError { .. } => Plan::FailTransport,
    }
}

/// What follows an outcome: a response without an error status is accepted, a transient failure
/// is retried as long as retries are left, and everything else fails.
pub open spec fn plan(state: RetryState, outcome: Outcome) -> Plan {
    if is_accepted(outcome) {
        Plan::Accept
    } else if is_transient(outcome) && state.attempt < state.max_retries {
        Plan::RetryAfter(backoff(state.base, state.attempt))
    } else {
        failure(outcome)
    }
}

/// The state after an outcome: a retry counts as one more attempt.
pub open spec fn after(state: RetryState, outcome: Outcome) -> RetryState {
    if plan(state, outcome) is RetryAfter {
        RetryState { attempt: state.attempt + 1, ..state }
    } else {
        state
    }
}

/// An authenticated `GET` that is sent again, with exponential backoff, where it fails
/// transiently.
///
/// Whoever sends the requests hands each outcome to [`GetWithRetry::on_outcome`] and does what
/// it decides.
pub struct GetWithRetry {
    max_retries: u32,
    base: Delay,
    attempt: u32,
}

impl View for GetWithRetry {
    type V = RetryState;

    closed spec fn view(&self) -> RetryState {
        RetryState {
            max_retries: self.max_retries as nat,
            base: self.base@,
            attempt: self.attempt as nat,
        }
    }
}

impl GetWithRetry {
    #[verifier::type_invariant]
    spec fn well_formed(self) -> bool {
        self.attempt <= self.max_retries
    }

    /// A request that was not sent yet.
    pub fn new(max_retries: u32, base: Delay) -> (request: GetWithRetry)
        ensures
            request@ == (RetryState { max_retries: max_retries as nat, base: base@, attempt: 0 }),
    {
        GetWithRetry { max_retries, base, attempt: 0 }
    }

    /// The retries made so far.
    pub fn attempt(&self) -> (attempt: u32)
        ensures
            attempt == self@.attempt,
            attempt <= self@.max_retries,
    {
        proof {
            use_type_invariant(self);
        }
        self.attempt
    }

    /// Decides what follows the outcome of the request.
    pub fn on_outcome(&mut self, outcome: Outcome) -> (decision: Decision)
        ensures
            decision@ == plan(old(self)@, outcome),
            final(self)@ == after(old(self)@, outcome),
            outcome matches Outcome::Response { status } ==> (if status < 400 || status >= 600 {
                decision is Accept
            } else if (status == 429 || status == 500 || status == 502 || status == 503 || status
                == 504) && old(self)@.attempt < old(self)@.max_retries {
                decision is RetryAfter
            } else {
                decision is FailStatus
            }),
            outcome matches Outcome::TransportError { timeout, connect } ==> (if (timeout
                || connect) && old(self)@.attempt < old(self)@.max_retries {
                decision is RetryAfter
            } else {
                decision is FailTransport
            }),
            decision matches Decision::RetryAfter(delay) ==> delay@ == backoff(
                old(self)@.base,
                old(self)@.attempt,
            ) && final(self)@.attempt == old(self)@.attempt + 1,
            !(decision is RetryAfter) ==> final(self)@.attempt == old(self)@.attempt,
            final(self)@.max_retries == old(self)@.max_retries,
            final(self)@.base == old(self)@.base,
    {
        proof {
            use_type_invariant(&*self);
        }
        let (transient, failed) = match outcome {
            Outcome::Response { status } => {
                if !is_client_error(status) && !is_server_error(status) {
                    return Decision::Accept;
                }
                (status_is_retryable(status), Decision::FailStatus)
            },
            Outcome::TransportError { timeout, connect } => {
                (timeout || connect, Decision::FailTransport)
            },
        };
        if transient && self.attempt < self.max_retries {
            let delay = backoff_delay(self.attempt, self.base);
            self.attempt = self.attempt + 1;
            Decision::RetryAfter(delay)
        } else {
            failed
        }
    }
}

/// The delay doubles with each attempt, starting at the base, until it is 64 times the base;
/// from there on it stays.
pub proof fn law_backoff_factor_doubles_up_to_64(attempt: nat)
    ensures
        backoff_factor(0) == 1,
        attempt < MAX_BACKOFF_EXPONENT ==> backoff_factor(attempt + 1) == 2 * backoff_factor(attempt),
        attempt >= MAX_BACKOFF_EXPONENT ==> backoff_factor(attempt) == 64,
        1 <= backoff_factor(attempt) <= 64,
{
    vstd::arithmetic::power2::lemma2_to64();
}

/// The delay before a retry is at least the base and at most 64 times the base, and a later
/// retry waits no shorter than an earlier one. It waits longer where the earlier delay had not
/// reached 64 times the base, unless the longest delay cuts them short.
pub proof fn law_backoff_bounded_and_monotone(base: nat, earlier: nat, later: nat)
    requires
        base <= longest_delay(),
        earlier <= later,
    ensures
        base <= backoff(base, earlier) <= 64 * base,
        backoff(base, earlier) <= backoff(base, later),
        earlier < later && earlier < MAX_BACKOFF_EXPONENT && 0 < base && 64 * base
            <= longest_delay() ==> backoff(base, earlier) < backoff(base, later),
{
    law_backoff_factor_doubles_up_to_64(earlier);
    law_backoff_factor_doubles_up_to_64(later);
    vstd::arithmetic::power2::lemma2_to64();
    let e = backoff_factor(earlier);
    let l = backoff_factor(later);
    assert(e <= l);
    assert(base <= base * e && base * e <= 64 * base && base * e <= base * l) by (nonlinear_arith)
        requires
            1 <= e <= 64,
            e <= l,
    ;
    if earlier < later && earlier < MAX_BACKOFF_EXPONENT && 0 < base {
        assert(e < l);
        assert(base * e < base * l && base * l <= 64 * base) by (nonlinear_arith)
            requires
                e < l <= 64,
                0 < base,
        ;
    }
}

/// A base of whole milliseconds is never cut short: the delay is exactly the base times the
/// factor of the attempt.
pub proof fn law_backoff_of_millis_exact(millis: u64, attempt: nat)
    ensures
        backoff((millis * 1_000_000) as nat, attempt) == millis * 1_000_000 * backoff_factor(attempt),
{
    law_backoff_factor_doubles_up_to_64(attempt);
    let base = (millis * 1_000_000) as nat;
    let factor = backoff_factor(attempt);
    assert(base * factor <= base * 64) by (nonlinear_arith)
        requires
            factor <= 64,
    ;
}

/// The retryable statuses are error statuses: a response that is retried was not a success.
pub proof fn law_retryable_statuses_are_errors(status: u16)
    requires
        is_retryable_status(status),
    ensures
        is_error_status(status),
{
}

/// An error status that is not retryable fails immediately, whatever retries are left.
pub proof fn law_other_error_status_fails_immediately(state: RetryState, status: u16)
    requires
        is_error_status(status),
        !is_retryable_status(status),
    ensures
        plan(state, Outcome::Response { status }) == Plan::FailStatus,
        after(state, Outcome::Response { status }) == state,
{
}

/// With no retries allowed, nothing is retried.
pub proof fn law_zero_retries_disables_retrying(state: RetryState, outcome: Outcome)
    requires
        state.max_retries == 0,
    ensures
        !(plan(state, outcome) is RetryAfter),
        after(state, outcome) == state,
{
}

/// The plans that follow a sequence of outcomes, up to the first that ends the request.
pub open spec fn plans(state: RetryState, outcomes: Seq<Outcome>) -> Seq<Plan>
    decreases outcomes.len(),
{
    if outcomes.len() == 0 {
        Seq::empty()
    } else {
        let first = plan(state, outcomes[0]);
        if first is RetryAfter {
            seq![first] + plans(after(state, outcomes[0]), outcomes.skip(1))
        } else {
            seq![first]
        }
    }
}

/// The time that plans wait for, in nanoseconds.
pub open spec fn total_wait(plans: Seq<Plan>) -> nat
    decreases plans.len(),
{
    if plans.len() == 0 {
        0
    } else {
        (match plans[0] {
            Plan::RetryAfter(delay) => delay,
            _ => 0,
        }) + total_wait(plans.skip(1))
    }
}

/// Whatever the outcomes are, a request is sent at most once more than retries are left, and
/// before each retry it waits the backoff of that retry. With more outcomes than retries it ends
/// in a plan that is no retry, and all in all it waits at most 64 times the base for each retry
/// that was left.
pub proof fn law_requests_bounded(state: RetryState, outcomes: Seq<Outcome>)
    requires
        state.attempt <= state.max_retries,
    ensures
        plans(state, outcomes).len() <= state.max_retries - state.attempt + 1,
        forall|i: int|
            0 <= i < plans(state, outcomes).len() && (#[trigger] plans(state, outcomes)[i] is RetryAfter)
                ==> plans(state, outcomes)[i] == Plan::RetryAfter(
                backoff(state.base, (state.attempt + i) as nat),
            ),
        forall|i: int|
            0 <= i < plans(state, outcomes).len() - 1 ==> #[trigger] plans(
                state,
                outcomes,
            )[i] is RetryAfter,
        outcomes.len() > state.max_retries - state.attempt ==> plans(state, outcomes).len() > 0
            && !(plans(state, outcomes).last() is RetryAfter),
        total_wait(plans(state, outcomes)) <= (state.max_retries - state.attempt) * (64
            * state.base),
    decreases outcomes.len(),
{
    let left = state.max_retries - state.attempt;
    let most = 64 * state.base;
    assert(left * most >= 0) by (nonlinear_arith)
        requires
            left >= 0,
            most >= 0,
    ;
    if outcomes.len() > 0 && plan(state, outcomes[0]) is RetryAfter {
        let next = after(state, outcomes[0]);
        let rest = outcomes.skip(1);
        law_requests_bounded(next, rest);
        let all = plans(state, outcomes);
        let tail = plans(next, rest);
        assert(forall|i: int| 1 <= i < all.len() ==> all[i] == tail[i - 1]);
        assert(all.skip(1) =~= tail);
        law_backoff_factor_doubles_up_to_64(state.attempt);
        let factor = backoff_factor(state.attempt);
        assert(state.base * factor <= most) by (nonlinear_arith)
            requires
                factor <= 64,
                most == 64 * state.base,
        ;
        assert(most + (left - 1) * most == left * most) by (nonlinear_arith);
        if rest.len() > left - 1 {
            assert(all.last() == tail.last());
        }
    } else if outcomes.len() > 0 {
        let all = plans(state, outcomes);
        assert(all.skip(1) =~= Seq::empty());
        assert(total_wait(all.skip(1)) == 0);
    }
}

/// Transient failures are retried as long as retries are left, and the first outcome that is
/// accepted, or fails otherwise, ends the request.
///
/// Here the outcomes before `last` are transient and no more than the retries that are left.
pub proof fn law_transient_failures_retried(state: RetryState, outcomes: Seq<Outcome>, last: Outcome)
    requires
        forall|i: int| 0 <= i < outcomes.len() ==> is_transient(#[trigger] outcomes[i]),
        state.attempt + outcomes.len() <= state.max_retries,
        !is_transient(last) || state.attempt + outcomes.len() == state.max_retries,
    ensures
        plans(state, outcomes.push(last)).len() == outcomes.len() + 1,
        plans(state, outcomes.push(last)).last() == if is_accepted(last) {
            Plan::Accept
        } else {
            failure(last)
        },
    decreases outcomes.len(),
{
    let all = outcomes.push(last);
    if outcomes.len() > 0 {
        assert(is_transient(outcomes[0]));
        let next = after(state, outcomes[0]);
        let rest = outcomes.skip(1);
        assert forall|i: int| 0 <= i < rest.len() implies is_transient(#[trigger] rest[i]) by {
            assert(is_transient(outcomes[i + 1]));
        }
        law_transient_failures_retried(next, rest, last);
        assert(all.skip(1) =~= rest.push(last));
        assert(all[0] == outcomes[0]);
    } else {
        assert(all[0] == last);
    }
}

/// A transport error is retried, while retries are left, where the request timed out, whether
/// or not the connection failed, and where the connection failed, whether or not the request
/// timed out. Any other transport error fails at once.
pub proof fn law_transport_errors(state: RetryState, other: bool)
    requires
        state.attempt < state.max_retries,
    ensures
        plan(state, Outcome::TransportError { timeout: true, connect: other }) is RetryAfter,
        plan(state, Outcome::TransportError { timeout: other, connect: true }) is RetryAfter,
        plan(state, Outcome::TransportError { timeout: false, connect: false })
            == Plan::FailTransport,
{
}

/// Once no retry is left, every transport error fails.
pub proof fn law_transport_errors_without_retries(state: RetryState, timeout: bool, connect: bool)
    requires
        state.attempt >= state.max_retries,
    ensures
        plan(state, Outcome::TransportError { timeout, connect }) == Plan::FailTransport,
{
}

/// A response is accepted exactly where its status is below 400 or from 600 on. Of the others,
/// 429, 500, 502, 503 and 504 are retried while retries are left, and all else fails with its
/// status.
pub proof fn law_responses(state: RetryState, status: u16)
    ensures
        plan(state, Outcome::Response { status }) == Plan::Accept <==> status < 400 || status
            >= 600,
        plan(state, Outcome::Response { status }) is RetryAfter <==> state.attempt
            < state.max_retries && (status == 429 || status == 500 || status == 502 || status
            == 503 || status == 504),
        plan(state, Outcome::Response { status }) == Plan::FailStatus <==> 400 <= status < 600
            && !(state.attempt < state.max_retries && (status == 429 || status == 500 || status
            == 502 || status == 503 || status == 504)),
{
}

/// A retry uses up one attempt and every other plan none. The number of retries and the base
/// delay never change.
pub proof fn law_attempts_counted(state: RetryState, outcome: Outcome)
    ensures
        plan(state, outcome) is RetryAfter ==> after(state, outcome).attempt == state.attempt + 1,
        !(plan(state, outcome) is RetryAfter) ==> after(state, outcome).attempt == state.attempt,
        after(state, outcome).max_retries == state.max_retries,
        after(state, outcome).base == state.base,
{
}

/// The first retry waits the base delay, and each further one up to the seventh twice as long as
/// the one before, but never longer than the longest delay. All later ones wait as long as the
/// seventh.
pub proof fn law_each_backoff_from_the_one_before(base: nat, attempt: nat)
    requires
        base <= longest_delay(),
    ensures
        longest_delay() == 18_446_744_073_709_551_615_999_999_999,
        backoff(base, 0) == base,
        attempt < 6 ==> backoff(base, attempt + 1) == (if 2 * backoff(base, attempt)
            <= longest_delay() {
            2 * backoff(base, attempt)
        } else {
            longest_delay()
        }),
        attempt >= 6 ==> backoff(base, attempt) == backoff(base, 6),
{
    law_backoff_factor_doubles_up_to_64(attempt);
    let factor = backoff_factor(attempt);
    assert(base * 1 == base);
    assert(base * (2 * factor) == 2 * (base * factor)) by (nonlinear_arith);
}

/// The delay that a plan gives a retry is the backoff of the attempt: the base, doubled once for
/// each retry made so far, six times at most.
pub proof fn law_retry_waits_its_backoff(state: RetryState, outcome: Outcome, next: Outcome)
    requires
        state.base <= longest_delay(),
    ensures
        plan(state, outcome) matches Plan::RetryAfter(delay) ==> (state.attempt == 0 ==> delay
            == state.base) && (plan(after(state, outcome), next) matches Plan::RetryAfter(longer)
            ==> longer == (if state.attempt >= 6 {
            delay
        } else if 2 * delay <= longest_delay() {
            2 * delay
        } else {
            longest_delay()
        })),
{
    law_each_backoff_from_the_one_before(state.base, state.attempt);
    law_each_backoff_from_the_one_before(state.base, state.attempt + 1);
}

/// A setting that spells a number which fits is that number; without a setting, or with any
/// other, there are 4 retries with a base delay of 500 milliseconds.
pub proof fn law_settings(text: Seq<char>)
    ensures
        max_retries_of(None) == 4,
        backoff_millis_of(None) == 500,
        match crate::text::unsigned_number(text) {
            Some(n) => {
                &&& max_retries_of(Some(text)) == if n <= 4_294_967_295 {
                    n as int
                } else {
                    4
                }
                &&& backoff_millis_of(Some(text)) == if n <= 18_446_744_073_709_551_615 {
                    n as int
                } else {
                    500
                }
            },
            None => max_retries_of(Some(text)) == 4 && backoff_millis_of(Some(text)) == 500,
        },
{
}

/// A number that is written as a setting is the number that is set.
pub proof fn law_settings_read_back(retries: u32, millis: u64)
    ensures
        max_retries_of(Some(crate::text::decimal(retries as nat))) == retries,
        backoff_millis_of(Some(crate::text::decimal(millis as nat))) == millis,
{
    crate::text::law_decimal_reads_back(retries as nat);
    crate::text::law_decimal_reads_back(millis as nat);
}

} // verus!
