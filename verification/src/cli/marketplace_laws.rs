//! Laws of metering: what each reply of the service leads to, and how long is
//! waited.
use crate::cli::marketplace::{
    meter_reply_outcome, meter_step_of, step_of, MAX_ATTEMPTS, MeterFault, MeterReply, MeterStep,
    Outcome, RegisterFault, RegisterReply, RegisterStep,
};
use vstd::prelude::*;

verus! {

/// Whether a reply to a registration says nothing of the copy.
pub open spec fn is_outage(reply: RegisterReply) -> bool {
    match reply {
        RegisterReply::Registered => false,
        RegisterReply::Unreachable => true,
        RegisterReply::Fault(RegisterFault::InternalServiceError) => true,
        RegisterReply::Fault(RegisterFault::Throttling) => true,
        RegisterReply::Fault(RegisterFault::Unknown) => true,
        RegisterReply::Fault(_) => false,
    }
}

/// Only an outage is tried again, and only while attempts are left; a copy that
/// is registered is entitled, and one with any other fault is not.
pub proof fn only_outages_are_tried_again(attempt: int, reply: RegisterReply)
    requires
        1 <= attempt <= MAX_ATTEMPTS,
    ensures
        step_of(attempt, reply) is RetryAfter <==> is_outage(reply) && attempt < MAX_ATTEMPTS,
        reply is Registered ==> step_of(attempt, reply) == RegisterStep::Done(Outcome::Entitled),
        reply is Fault && !is_outage(reply) ==> step_of(attempt, reply) == RegisterStep::Done(
            Outcome::NotEntitled,
        ),
        is_outage(reply) && attempt == MAX_ATTEMPTS ==> step_of(attempt, reply)
            == RegisterStep::Done(Outcome::Transient),
{
}

/// The first wait is half a second, and each one is half a second longer than
/// the one before, for a registration and for an hour alike.
pub proof fn waits_grow_by_half_a_second(attempt: int)
    requires
        1 <= attempt < MAX_ATTEMPTS,
    ensures
        step_of(1, RegisterReply::Unreachable) == RegisterStep::RetryAfter(500),
        attempt + 1 < MAX_ATTEMPTS ==> {
            match (
                step_of(attempt, RegisterReply::Unreachable),
                step_of(attempt + 1, RegisterReply::Unreachable),
            ) {
                (RegisterStep::RetryAfter(a), RegisterStep::RetryAfter(b)) => b == a + 500,
                _ => false,
            }
        },
        match (
            step_of(attempt, RegisterReply::Unreachable),
            meter_step_of(attempt, meter_reply_outcome(MeterReply::Unreachable)),
        ) {
            (RegisterStep::RetryAfter(a), MeterStep::RetryAfter(b)) => a == b,
            _ => false,
        },
{
}

/// Whether a reply to a metering says nothing of the hour.
pub open spec fn is_gap(reply: MeterReply) -> bool {
    match reply {
        MeterReply::Recorded => false,
        MeterReply::Unreachable => true,
        MeterReply::Fault(MeterFault::InternalServiceError) => true,
        MeterReply::Fault(MeterFault::Throttling) => true,
        MeterReply::Fault(MeterFault::Unknown) => true,
        MeterReply::Fault(_) => false,
    }
}

/// An hour that is recorded, now or before, is accounted for; one without an
/// answer is tried again and in the end passed over; any other fault ends the
/// process.
pub proof fn hours_are_recorded_once(attempt: int, reply: MeterReply)
    requires
        1 <= attempt <= MAX_ATTEMPTS,
    ensures
        ({
            let step = meter_step_of(attempt, meter_reply_outcome(reply));
            if reply is Recorded || reply == MeterReply::Fault(MeterFault::DuplicateRequest) {
                step == MeterStep::NextHour(true)
            } else if is_gap(reply) && attempt < MAX_ATTEMPTS {
                step is RetryAfter
            } else if is_gap(reply) {
                step == MeterStep::NextHour(false)
            } else {
                step is Exit
            }
        }),
{
}

} // verus!
