//! The entitlement check and the hourly metering.
use ferro_stash::cli::marketplace::{
    classify_meter_error, classify_service_error, decide, hour_bucket_secs, meter_action,
    meter_outcome, meter_step, outcome_for_product_code, register_step, secs_until_next_hour,
    Decision, MeterAction, MeterFault, MeterOutcome, MeterReply, MeterStep, Outcome, RegisterFault,
    RegisterReply, RegisterStep, MAX_ATTEMPTS, NOT_ENTITLED_EXIT_CODE, SECS_PER_HOUR,
};

#[test]
fn decide_continues_when_entitled() {
    assert_eq!(decide(Outcome::Entitled), Decision::Continue);
}

#[test]
fn decide_fails_closed_when_not_entitled() {
    assert_eq!(decide(Outcome::NotEntitled), Decision::FailClosed);
}

#[test]
fn decide_continues_when_unset() {
    assert_eq!(decide(Outcome::Unset), Decision::Continue);
}

#[test]
fn decide_fails_closed_on_transient() {
    assert_eq!(decide(Outcome::Transient), Decision::FailClosed);
}

#[test]
fn unset_product_code_skips_the_call() {
    assert_eq!(outcome_for_product_code(None), Some(Outcome::Unset));
    assert_eq!(outcome_for_product_code(Some("")), Some(Outcome::Unset));
    assert_eq!(outcome_for_product_code(Some("   ")), Some(Outcome::Unset));
}

#[test]
fn present_product_code_triggers_the_call() {
    // None => "go make the live RegisterUsage call".
    assert_eq!(outcome_for_product_code(Some("abc123productcode")), None);
}

// -----------------------------------------------------------------------
// Hourly MeterUsage: hour-bucket idempotency + terminal/transient decision
// -----------------------------------------------------------------------

#[test]
fn hour_bucket_rounds_down_to_top_of_hour() {
    // 02:30:30 (since epoch) rounds down to 02:00:00.
    let two_thirty = 2 * SECS_PER_HOUR + 30 * 60 + 30;
    assert_eq!(hour_bucket_secs(two_thirty), 2 * SECS_PER_HOUR);
    // Exactly on a boundary is its own bucket; the epoch is bucket 0.
    assert_eq!(hour_bucket_secs(2 * SECS_PER_HOUR), 2 * SECS_PER_HOUR);
    assert_eq!(hour_bucket_secs(0), 0);
}

#[test]
fn same_hour_sends_share_one_bucket_timestamp() {
    // Idempotency: any two instants within the same wall-clock hour stamp the
    // SAME bucket, so AWS dedups a retry/restart instead of double-billing.
    let base = 100 * SECS_PER_HOUR;
    assert_eq!(
        hour_bucket_secs(base + 5),
        hour_bucket_secs(base + (SECS_PER_HOUR - 1)),
        "two same-hour sends must carry an identical timestamp"
    );
    // The next hour is a DISTINCT bucket (a new, separately-billed record).
    assert_ne!(
        hour_bucket_secs(base + 5),
        hour_bucket_secs(base + SECS_PER_HOUR),
    );
}

#[test]
fn secs_until_next_hour_stays_within_the_hour() {
    assert_eq!(secs_until_next_hour(0), SECS_PER_HOUR); // top of hour -> full hour
    assert_eq!(secs_until_next_hour(SECS_PER_HOUR), SECS_PER_HOUR);
    assert_eq!(secs_until_next_hour(SECS_PER_HOUR + 1), SECS_PER_HOUR - 1);
    assert_eq!(secs_until_next_hour(2 * SECS_PER_HOUR - 1), 1); // 1s before boundary
    for now in [1_i64, 59, 1234, 86_399, 100 * SECS_PER_HOUR + 7] {
        let d = secs_until_next_hour(now);
        assert!(
            (1..=SECS_PER_HOUR).contains(&d),
            "delay {d} out of range for now {now}",
        );
    }
}

#[test]
fn meter_action_advances_on_metered_and_duplicate() {
    assert_eq!(meter_action(MeterOutcome::Metered), MeterAction::Advance);
    // A duplicate is an idempotent success: advance, NEVER fail closed.
    assert_eq!(meter_action(MeterOutcome::Duplicate), MeterAction::Advance);
}

#[test]
fn meter_action_retries_on_transient_not_fail_closed() {
    // Unlike the check at start-up, a transient in the running loop must NOT kill
    // the process — it retries.
    assert_eq!(meter_action(MeterOutcome::Transient), MeterAction::Retry);
}

#[test]
fn meter_action_fails_closed_on_terminal() {
    assert_eq!(
        meter_action(MeterOutcome::Terminal),
        MeterAction::FailClosed
    );
}

#[test]
fn classify_meter_terminal_errors_fail_closed() {

    let not_entitled = MeterFault::CustomerNotEntitled;
    assert_eq!(classify_meter_error(&not_entitled), MeterOutcome::Terminal);
    assert_eq!(
        meter_action(classify_meter_error(&not_entitled)),
        MeterAction::FailClosed,
        "a not-entitled MeterUsage must fail closed like the startup check",
    );

    let bad_product = MeterFault::InvalidProductCode;
    assert_eq!(classify_meter_error(&bad_product), MeterOutcome::Terminal);

    let bad_dimension = MeterFault::InvalidUsageDimension;
    assert_eq!(classify_meter_error(&bad_dimension), MeterOutcome::Terminal);

    let bad_timestamp = MeterFault::TimestampOutOfBounds;
    assert_eq!(classify_meter_error(&bad_timestamp), MeterOutcome::Terminal);
}

#[test]
fn classify_meter_transient_errors_retry() {

    let throttle = MeterFault::Throttling;
    assert_eq!(classify_meter_error(&throttle), MeterOutcome::Transient);
    assert_eq!(
        meter_action(classify_meter_error(&throttle)),
        MeterAction::Retry
    );

    let internal = MeterFault::InternalServiceError;
    assert_eq!(classify_meter_error(&internal), MeterOutcome::Transient);
}

#[test]
fn classify_meter_duplicate_is_idempotent_success() {

    let dup = MeterFault::DuplicateRequest;
    assert_eq!(classify_meter_error(&dup), MeterOutcome::Duplicate);
    // A same-hour duplicate must advance (idempotent), never fail closed —
    // this is what makes a same-hour restart/retry safe.
    assert_eq!(
        meter_action(classify_meter_error(&dup)),
        MeterAction::Advance
    );
}

#[test]
fn denials_of_the_service_are_not_entitled() {
    for fault in [
        RegisterFault::CustomerNotEntitled,
        RegisterFault::InvalidProductCode,
        RegisterFault::InvalidPublicKeyVersion,
        RegisterFault::InvalidRegion,
        RegisterFault::PlatformNotSupported,
        RegisterFault::DisabledApi,
    ] {
        assert_eq!(classify_service_error(&fault), Outcome::NotEntitled);
        assert_eq!(
            register_step(1, RegisterReply::Fault(fault)),
            RegisterStep::Done(Outcome::NotEntitled)
        );
    }
    for fault in [
        RegisterFault::InternalServiceError,
        RegisterFault::Throttling,
        RegisterFault::Unknown,
    ] {
        assert_eq!(classify_service_error(&fault), Outcome::Transient);
    }
}

#[test]
fn check_waits_longer_after_each_attempt_and_then_closes() {
    let reply = RegisterReply::Unreachable;
    assert_eq!(register_step(1, reply), RegisterStep::RetryAfter(500));
    assert_eq!(register_step(2, reply), RegisterStep::RetryAfter(1000));
    assert_eq!(
        register_step(MAX_ATTEMPTS, reply),
        RegisterStep::Done(Outcome::Transient)
    );
    assert_eq!(decide(Outcome::Transient), Decision::FailClosed);
    assert_eq!(
        register_step(2, RegisterReply::Registered),
        RegisterStep::Done(Outcome::Entitled)
    );
}

#[test]
fn metering_retries_then_passes_an_hour_over() {
    assert_eq!(
        meter_step(1, MeterOutcome::Transient),
        MeterStep::RetryAfter(500)
    );
    assert_eq!(
        meter_step(2, MeterOutcome::Transient),
        MeterStep::RetryAfter(1000)
    );
    assert_eq!(
        meter_step(3, MeterOutcome::Transient),
        MeterStep::NextHour(false)
    );
    assert_eq!(
        meter_step(1, MeterOutcome::Duplicate),
        MeterStep::NextHour(true)
    );
    assert_eq!(
        meter_step(1, MeterOutcome::Terminal),
        MeterStep::Exit(NOT_ENTITLED_EXIT_CODE)
    );
    assert_eq!(meter_outcome(MeterReply::Recorded), MeterOutcome::Metered);
    assert_eq!(
        meter_outcome(MeterReply::Unreachable),
        MeterOutcome::Transient
    );
    assert_eq!(
        meter_outcome(MeterReply::Fault(MeterFault::InvalidTag)),
        MeterOutcome::Terminal
    );
}

#[test]
fn hours_before_the_epoch_round_down() {
    assert_eq!(hour_bucket_secs(-1), -SECS_PER_HOUR);
    assert_eq!(secs_until_next_hour(-1), 1);
    assert_eq!(hour_bucket_secs(-SECS_PER_HOUR), -SECS_PER_HOUR);
}
