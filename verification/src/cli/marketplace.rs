//! AWS Marketplace: the entitlement check at start-up, and the hourly usage
//! records.
//!
//! A container that carries a product code must prove at start-up that it is
//! subscribed (`RegisterUsage`), and then sends one usage record for each hour
//! (`MeterUsage`), stamped at the start of the hour, so that a record sent twice
//! within an hour counts once. Without a product code both are left out.
//!
//! What is decided here is decided from replies; sending and waiting are left to
//! the caller.
use crate::text::{trim, trim_text};
use vstd::prelude::*;

verus! {

broadcast use vstd::string::group_string_axioms;

/// Environment variable that carries the product code.
pub const PRODUCT_CODE_ENV: &'static str = "FERROSTASH_MARKETPLACE_PRODUCT_CODE";

/// Version of the public key of `RegisterUsage`.
pub const PUBLIC_KEY_VERSION: i32 = 1;

/// The dimension that is billed.
pub const USAGE_DIMENSION: &'static str = "Hours";

/// What is billed for an hour.
pub const HOURLY_QUANTITY: i32 = 1;

/// Seconds in an hour.
pub const SECS_PER_HOUR: i64 = 3600;

/// How often a call is made before it is given up.
pub const MAX_ATTEMPTS: u32 = 3;

/// Exit code of a process that may not run.
pub const NOT_ENTITLED_EXIT_CODE: i32 = 2;

/// The category of an entitlement check.
#[derive(Debug, Clone, Copy, PartialEq, Eq, Structural)]
pub enum Outcome {
    /// No usable product code: nothing is metered.
    Unset,
    /// This copy is entitled.
    Entitled,
    /// A definitive answer that it is not.
    NotEntitled,
    /// No definitive answer.
    Transient,
}

/// What the process should do.
#[derive(Debug, Clone, Copy, PartialEq, Eq, Structural)]
pub enum Decision {
    /// Start the pipeline.
    Continue,
    /// Log and exit non-zero.
    FailClosed,
}

/// What a result category means for the process. Only an unset product code
/// skips the check; denials and failures that stay inconclusive fail closed.
pub fn decide(outcome: Outcome) -> (r: Decision)
    ensures
        r == (if outcome == Outcome::Unset || outcome == Outcome::Entitled {
            Decision::Continue
        } else {
            Decision::FailClosed
        }),
{
    match outcome {
        Outcome::Unset | Outcome::Entitled => Decision::Continue,
        Outcome::NotEntitled | Outcome::Transient => Decision::FailClosed,
    }
}

/// Whether a product code is there to check.
pub open spec fn has_product_code(product_code: Option<Seq<char>>) -> bool {
    product_code matches Some(pc) && trim_text(pc).len() > 0
}

/// Whether a call is needed, from the product code alone: none where it is,
/// and [`Outcome::Unset`] where there is nothing to check.
pub fn outcome_for_product_code(product_code: Option<&str>) -> (r: Option<Outcome>)
    ensures
        r == (if has_product_code(
            match product_code {
                Some(pc) => Some(pc@),
                None => None,
            },
        ) {
            None
        } else {
            Some(Outcome::Unset)
        }),
{
    match product_code {
        Some(pc) => if trim(pc).as_str().is_empty() {
            Some(Outcome::Unset)
        } else {
            None
        },
        None => Some(Outcome::Unset),
    }
}

/// The errors of `RegisterUsage`.
#[derive(Debug, Clone, Copy, PartialEq, Eq, Structural)]
pub enum RegisterFault {
    CustomerNotEntitled,
    InvalidProductCode,
    InvalidPublicKeyVersion,
    InvalidRegion,
    PlatformNotSupported,
    DisabledApi,
    InternalServiceError,
    Throttling,
    /// An error that is not known here.
    Unknown,
}

/// Errors that say that this copy may not run.
pub open spec fn denies(err: RegisterFault) -> bool {
    err == RegisterFault::CustomerNotEntitled || err == RegisterFault::InvalidProductCode || err
        == RegisterFault::InvalidPublicKeyVersion || err == RegisterFault::InvalidRegion || err
        == RegisterFault::PlatformNotSupported || err == RegisterFault::DisabledApi
}

/// The category of an error of `RegisterUsage`. One that is not known is
/// inconclusive, never a success.
pub fn classify_service_error(err: &RegisterFault) -> (r: Outcome)
    ensures
        r == (if denies(*err) {
            Outcome::NotEntitled
        } else {
            Outcome::Transient
        }),
{
    match err {
        RegisterFault::CustomerNotEntitled
        | RegisterFault::InvalidProductCode
        | RegisterFault::InvalidPublicKeyVersion
        | RegisterFault::InvalidRegion
        | RegisterFault::PlatformNotSupported
        | RegisterFault::DisabledApi => Outcome::NotEntitled,
        RegisterFault::InternalServiceError | RegisterFault::Throttling => Outcome::Transient,
        RegisterFault::Unknown => Outcome::Transient,
    }
}

/// What came back from `RegisterUsage`.
#[derive(Debug, Clone, Copy, PartialEq, Eq, Structural)]
pub enum RegisterReply {
    /// It succeeded.
    Registered,
    /// The service answered with an error.
    Fault(RegisterFault),
    /// No answer came through.
    Unreachable,
}

/// The category of a reply.
pub open spec fn reply_outcome(reply: RegisterReply) -> Outcome {
    match reply {
        RegisterReply::Registered => Outcome::Entitled,
        RegisterReply::Fault(err) => if denies(err) {
            Outcome::NotEntitled
        } else {
            Outcome::Transient
        },
        RegisterReply::Unreachable => Outcome::Transient,
    }
}

/// The milliseconds to wait after an attempt.
pub open spec fn backoff(attempt: int) -> int {
    500 * attempt
}

/// What to do after an attempt.
#[derive(Debug, Clone, Copy, PartialEq, Eq, Structural)]
pub enum RegisterStep {
    /// The check is over.
    Done(Outcome),
    /// Try again after so many milliseconds.
    RetryAfter(u64),
}

/// What follows the reply to an attempt, counted from one.
pub open spec fn step_of(attempt: int, reply: RegisterReply) -> RegisterStep {
    let outcome = reply_outcome(reply);
    if outcome == Outcome::Transient && attempt < MAX_ATTEMPTS {
        RegisterStep::RetryAfter(backoff(attempt) as u64)
    } else {
        RegisterStep::Done(outcome)
    }
}

/// What to do with the reply to an attempt, counted from one: a definitive
/// answer is final, an inconclusive one is tried again a bounded number of
/// times.
pub fn register_step(attempt: u32, reply: RegisterReply) -> (r: RegisterStep)
    requires
        1 <= attempt <= MAX_ATTEMPTS,
    ensures
        r == step_of(attempt as int, reply),
{
    let outcome = match reply {
        RegisterReply::Registered => Outcome::Entitled,
        RegisterReply::Fault(err) => classify_service_error(&err),
        RegisterReply::Unreachable => Outcome::Transient,
    };
    match outcome {
        Outcome::Transient => if attempt < MAX_ATTEMPTS {
            RegisterStep::RetryAfter(500 * attempt as u64)
        } else {
            RegisterStep::Done(outcome)
        },
        _ => RegisterStep::Done(outcome),
    }
}

/// The outcome of the attempts from `attempt` on, where `replies` are the replies
/// to the first, the second, and so on.
pub open spec fn check_outcome(replies: Seq<RegisterReply>, attempt: int) -> Outcome
    decreases MAX_ATTEMPTS - attempt,
{
    match step_of(attempt, replies[attempt - 1]) {
        RegisterStep::Done(outcome) => outcome,
        RegisterStep::RetryAfter(_) => if attempt < MAX_ATTEMPTS {
            check_outcome(replies, attempt + 1)
        } else {
            Outcome::Transient
        },
    }
}

/// The check lets only a copy pass that the service registered, in one of the
/// allowed attempts, before it denied it.
pub proof fn passes_only_when_registered(replies: Seq<RegisterReply>, attempt: int)
    requires
        1 <= attempt <= MAX_ATTEMPTS,
        replies.len() >= MAX_ATTEMPTS,
    ensures
        check_outcome(replies, attempt) == Outcome::Entitled <==> exists|k: int|
            attempt <= k <= MAX_ATTEMPTS && #[trigger] replies[k - 1] == RegisterReply::Registered
                && forall|j: int|
                attempt <= j < k ==> reply_outcome(#[trigger] replies[j - 1]) == Outcome::Transient,
        check_outcome(replies, attempt) != Outcome::Unset,
    decreases MAX_ATTEMPTS - attempt,
{
    let first = reply_outcome(replies[attempt - 1]);
    if first == Outcome::Transient && attempt < MAX_ATTEMPTS {
        passes_only_when_registered(replies, attempt + 1);
        if check_outcome(replies, attempt) == Outcome::Entitled {
            let k = choose|k: int|
                attempt + 1 <= k <= MAX_ATTEMPTS && #[trigger] replies[k - 1]
                    == RegisterReply::Registered && forall|j: int|
                    attempt + 1 <= j < k ==> reply_outcome(#[trigger] replies[j - 1])
                        == Outcome::Transient;
            assert(forall|j: int|
                attempt <= j < k ==> reply_outcome(#[trigger] replies[j - 1])
                    == Outcome::Transient);
        }
    } else if check_outcome(replies, attempt) == Outcome::Entitled {
        assert(replies[attempt - 1] == RegisterReply::Registered);
    }
}

/// A copy that the service denies is never let pass: a denial is final, whatever
/// would have come after it.
pub proof fn denial_fails_closed(replies: Seq<RegisterReply>, attempt: int)
    requires
        1 <= attempt <= MAX_ATTEMPTS,
        replies.len() >= MAX_ATTEMPTS,
        reply_outcome(replies[attempt - 1]) == Outcome::NotEntitled,
    ensures
        check_outcome(replies, attempt) == Outcome::NotEntitled,
{
}

/// Where the service gives no definitive answer in all attempts, the copy does
/// not pass.
pub proof fn silence_fails_closed(replies: Seq<RegisterReply>, attempt: int)
    requires
        1 <= attempt <= MAX_ATTEMPTS,
        replies.len() >= MAX_ATTEMPTS,
        forall|k: int|
            attempt <= k <= MAX_ATTEMPTS ==> reply_outcome(#[trigger] replies[k - 1])
                == Outcome::Transient,
    ensures
        check_outcome(replies, attempt) == Outcome::Transient,
    decreases MAX_ATTEMPTS - attempt,
{
    assert(reply_outcome(replies[attempt - 1]) == Outcome::Transient);
    if attempt < MAX_ATTEMPTS {
        silence_fails_closed(replies, attempt + 1);
    }
}

/// The category of an attempt to meter an hour.
#[derive(Debug, Clone, Copy, PartialEq, Eq, Structural)]
pub enum MeterOutcome {
    /// A usage record was made for the hour.
    Metered,
    /// The hour was already metered.
    Duplicate,
    /// An error that stays until an operator intervenes.
    Terminal,
    /// No definitive answer.
    Transient,
}

/// What the hourly loop should do after an attempt.
#[derive(Debug, Clone, Copy, PartialEq, Eq, Structural)]
pub enum MeterAction {
    /// The hour is accounted for: sleep until the next one.
    Advance,
    /// Try the same hour again.
    Retry,
    /// Log and exit non-zero.
    FailClosed,
}

/// What an attempt's category means for the hourly loop. An inconclusive answer
/// never ends a running process.
pub fn meter_action(outcome: MeterOutcome) -> (r: MeterAction)
    ensures
        r == action_of(outcome),
{
    match outcome {
        MeterOutcome::Metered | MeterOutcome::Duplicate => MeterAction::Advance,
        MeterOutcome::Transient => MeterAction::Retry,
        MeterOutcome::Terminal => MeterAction::FailClosed,
    }
}

pub open spec fn action_of(outcome: MeterOutcome) -> MeterAction {
    if outcome == MeterOutcome::Metered || outcome == MeterOutcome::Duplicate {
        MeterAction::Advance
    } else if outcome == MeterOutcome::Transient {
        MeterAction::Retry
    } else {
        MeterAction::FailClosed
    }
}

/// The start of the hour of a moment, in seconds since 1970.
pub open spec fn hour_start(now_secs: int) -> int {
    (now_secs / 3600) * 3600
}

/// Rounds a moment down to the start of its hour. The first hour that an `i64`
/// reaches into does not begin within its range.
pub fn hour_bucket_secs(now_secs: i64) -> (r: i64)
    requires
        i64::MIN <= hour_start(now_secs as int),
    ensures
        r == hour_start(now_secs as int),
        r <= now_secs < r + SECS_PER_HOUR,
{
    let past: i64 = match now_secs.checked_rem_euclid(3600) {
        Some(n) => n,
        None => 0,
    };
    now_secs - past
}

/// Seconds until the next hour begins; on the hour, a full hour.
pub fn secs_until_next_hour(now_secs: i64) -> (r: i64)
    ensures
        1 <= r <= SECS_PER_HOUR,
        now_secs + r == hour_start(now_secs as int) + SECS_PER_HOUR,
{
    let past: i64 = match now_secs.checked_rem_euclid(3600) {
        Some(n) => n,
        None => 0,
    };
    SECS_PER_HOUR - past
}

/// Two moments have the same record if and only if they lie in the same hour.
pub proof fn same_hour_shares_a_bucket(a: int, b: int)
    ensures
        hour_start(a) == hour_start(b) <==> a / 3600 == b / 3600,
        hour_start(hour_start(a)) == hour_start(a),
{
    assert(((a / 3600) * 3600) / 3600 == a / 3600);
}

/// A loop that wakes when the next hour begins sends the record of that hour:
/// no hour is left out, and none gets two.
pub proof fn next_wake_is_next_bucket(now: int, delay: int)
    requires
        now + delay == hour_start(now) + SECS_PER_HOUR,
    ensures
        hour_start(now + delay) == hour_start(now) + SECS_PER_HOUR,
{
    assert(((now / 3600 + 1) * 3600) / 3600 == now / 3600 + 1);
}

/// The errors of `MeterUsage`.
#[derive(Debug, Clone, Copy, PartialEq, Eq, Structural)]
pub enum MeterFault {
    DuplicateRequest,
    CustomerNotEntitled,
    InvalidProductCode,
    InvalidEndpointRegion,
    InvalidUsageDimension,
    InvalidUsageAllocations,
    InvalidTag,
    IdempotencyConflict,
    TimestampOutOfBounds,
    InternalServiceError,
    Throttling,
    /// An error that is not known here.
    Unknown,
}

/// The category of an error of `MeterUsage`: a duplicate is a success, and one
/// that is not known is tried again.
pub fn classify_meter_error(err: &MeterFault) -> (r: MeterOutcome)
    ensures
        r == fault_outcome(*err),
{
    match err {
        MeterFault::DuplicateRequest => MeterOutcome::Duplicate,
        MeterFault::CustomerNotEntitled
        | MeterFault::InvalidProductCode
        | MeterFault::InvalidEndpointRegion
        | MeterFault::InvalidUsageDimension
        | MeterFault::InvalidUsageAllocations
        | MeterFault::InvalidTag
        | MeterFault::IdempotencyConflict
        | MeterFault::TimestampOutOfBounds => MeterOutcome::Terminal,
        MeterFault::InternalServiceError | MeterFault::Throttling => MeterOutcome::Transient,
        MeterFault::Unknown => MeterOutcome::Transient,
    }
}

pub open spec fn fault_outcome(err: MeterFault) -> MeterOutcome {
    if err == MeterFault::DuplicateRequest {
        MeterOutcome::Duplicate
    } else if err == MeterFault::InternalServiceError || err == MeterFault::Throttling || err
        == MeterFault::Unknown {
        MeterOutcome::Transient
    } else {
        MeterOutcome::Terminal
    }
}

/// What came back from `MeterUsage`.
#[derive(Debug, Clone, Copy, PartialEq, Eq, Structural)]
pub enum MeterReply {
    /// A usage record was made.
    Recorded,
    /// The service answered with an error.
    Fault(MeterFault),
    /// No answer came through.
    Unreachable,
}

pub open spec fn meter_reply_outcome(reply: MeterReply) -> MeterOutcome {
    match reply {
        MeterReply::Recorded => MeterOutcome::Metered,
        MeterReply::Fault(err) => fault_outcome(err),
        MeterReply::Unreachable => MeterOutcome::Transient,
    }
}

/// The category of a reply to `MeterUsage`.
pub fn meter_outcome(reply: MeterReply) -> (r: MeterOutcome)
    ensures
        r == meter_reply_outcome(reply),
{
    match reply {
        MeterReply::Recorded => MeterOutcome::Metered,
        MeterReply::Fault(err) => classify_meter_error(&err),
        MeterReply::Unreachable => MeterOutcome::Transient,
    }
}

/// What the hourly loop does next.
#[derive(Debug, Clone, Copy, PartialEq, Eq, Structural)]
pub enum MeterStep {
    /// Sleep until the next hour; the flag says whether this one is accounted
    /// for.
    NextHour(bool),
    /// Try the same hour again after so many milliseconds.
    RetryAfter(u64),
    /// Leave the process with this code.
    Exit(i32),
}

pub open spec fn meter_step_of(attempt: int, outcome: MeterOutcome) -> MeterStep {
    match action_of(outcome) {
        MeterAction::Advance => MeterStep::NextHour(true),
        MeterAction::Retry => if attempt < MAX_ATTEMPTS {
            MeterStep::RetryAfter(backoff(attempt) as u64)
        } else {
            MeterStep::NextHour(false)
        },
        MeterAction::FailClosed => MeterStep::Exit(NOT_ENTITLED_EXIT_CODE),
    }
}

/// What follows an attempt, counted from one, to meter an hour. An hour that
/// stays inconclusive is passed over; a terminal error ends the process.
pub fn meter_step(attempt: u32, outcome: MeterOutcome) -> (r: MeterStep)
    requires
        1 <= attempt <= MAX_ATTEMPTS,
    ensures
        r == meter_step_of(attempt as int, outcome),
{
    match meter_action(outcome) {
        MeterAction::Advance => MeterStep::NextHour(true),
        MeterAction::Retry => if attempt < MAX_ATTEMPTS {
            MeterStep::RetryAfter(500 * attempt as u64)
        } else {
            MeterStep::NextHour(false)
        },
        MeterAction::FailClosed => MeterStep::Exit(NOT_ENTITLED_EXIT_CODE),
    }
}

/// A running process is ended if and only if the service gives an error that
/// stays, and then with a code that is not zero; an hour that was metered
/// before is a success.
pub proof fn metering_ends_only_on_terminal(attempt: int, reply: MeterReply)
    requires
        1 <= attempt <= MAX_ATTEMPTS,
    ensures
        meter_step_of(attempt, meter_reply_outcome(reply)) is Exit <==> meter_reply_outcome(reply)
            == MeterOutcome::Terminal,
        meter_step_of(attempt, meter_reply_outcome(reply)) matches MeterStep::Exit(code) ==> code
            != 0,
        reply == MeterReply::Fault(MeterFault::DuplicateRequest) ==> meter_step_of(
            attempt,
            meter_reply_outcome(reply),
        ) == MeterStep::NextHour(true),
        reply == MeterReply::Unreachable && attempt < MAX_ATTEMPTS ==> meter_step_of(
            attempt,
            meter_reply_outcome(reply),
        ) is RetryAfter,
{
}

} // verus!
