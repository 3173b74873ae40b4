use renderide::xr_frame_loop::{
    accepts_event, await_finalize_pending, wait_frame_step, FlightCall, FlightResult, WaitFrameAction,
    WaitFrameEvent, WaitFrameOutcome, WaitFrameStage, AWAIT_FINALIZE_SHUTDOWN_TIMEOUT_MILLIS,
    IDLE_SLEEP_MILLIS,
};

#[test]
fn pending_finalize_is_drained_before_the_error_slot() {
    let s = wait_frame_step(WaitFrameStage::Start, WaitFrameEvent::Started { pending_finalize: true });
    assert_eq!(s.action, WaitFrameAction::WaitPreviousFinalize);
    assert_eq!(s.stage, WaitFrameStage::AwaitingFinalize);
    let s = wait_frame_step(s.stage, WaitFrameEvent::FinalizeWaited { ok: false });
    assert!(s.warn_finalize_timeout);
    let rec = s.record.expect("recorded");
    assert_eq!(rec.call, FlightCall::WaitPreviousFinalize);
    assert_eq!(rec.result, FlightResult::TimeoutOrDisconnected);
    assert_eq!(s.action, WaitFrameAction::TakeFinalizeError);
}

#[test]
fn successful_frame_is_begun_and_marked_open() {
    let s = wait_frame_step(WaitFrameStage::Start, WaitFrameEvent::Started { pending_finalize: false });
    assert_eq!(s.action, WaitFrameAction::TakeFinalizeError);
    let s = wait_frame_step(
        s.stage,
        WaitFrameEvent::FinalizeErrorTaken { error: None, session_running: true },
    );
    assert_eq!(s.action, WaitFrameAction::WaitFrame);
    let s = wait_frame_step(s.stage, WaitFrameEvent::FrameWaited { result: Ok(1234) });
    assert_eq!(s.action, WaitFrameAction::BeginFrame);
    assert_eq!(s.record.unwrap().predicted_display_time_nanos, Some(1234));
    let s = wait_frame_step(s.stage, WaitFrameEvent::FrameBegun { result: Ok(()) });
    assert!(s.set_frame_open);
    assert_eq!(s.action, WaitFrameAction::Finish(WaitFrameOutcome::Frame));
    let rec = s.record.unwrap();
    assert_eq!(rec.call, FlightCall::BeginFrame);
    assert_eq!(rec.predicted_display_time_nanos, Some(1234));
}

#[test]
fn finalize_error_is_surfaced_before_waiting() {
    let s = wait_frame_step(
        WaitFrameStage::CheckingFinalizeError,
        WaitFrameEvent::FinalizeErrorTaken { error: Some(-8), session_running: true },
    );
    assert_eq!(s.action, WaitFrameAction::Finish(WaitFrameOutcome::Failed(-8)));
    assert_eq!(s.record.unwrap().result, FlightResult::Failed(-8));
    assert_eq!(s.stage, WaitFrameStage::Done);
}

#[test]
fn idle_session_sleeps_and_reports_no_frame() {
    let s = wait_frame_step(
        WaitFrameStage::CheckingFinalizeError,
        WaitFrameEvent::FinalizeErrorTaken { error: None, session_running: false },
    );
    assert_eq!(s.sleep_millis, IDLE_SLEEP_MILLIS);
    assert_eq!(s.action, WaitFrameAction::Finish(WaitFrameOutcome::NotReady));
    assert!(s.record.is_none());
}

#[test]
fn failed_begin_does_not_open_the_frame() {
    let s = wait_frame_step(
        WaitFrameStage::BeginningFrame { predicted_display_time_nanos: 5 },
        WaitFrameEvent::FrameBegun { result: Err(-3) },
    );
    assert!(!s.set_frame_open);
    assert_eq!(s.action, WaitFrameAction::Finish(WaitFrameOutcome::Failed(-3)));
    assert_eq!(s.record.unwrap().predicted_display_time_nanos, Some(5));
}

#[test]
fn shutdown_waits_only_when_pending() {
    assert_eq!(await_finalize_pending(true), Some(AWAIT_FINALIZE_SHUTDOWN_TIMEOUT_MILLIS));
    assert_eq!(await_finalize_pending(false), None);
}

#[test]
fn each_stage_takes_only_its_own_event() {
    assert!(accepts_event(WaitFrameStage::Start, WaitFrameEvent::Started { pending_finalize: false }));
    assert!(!accepts_event(WaitFrameStage::Start, WaitFrameEvent::FinalizeWaited { ok: true }));
    assert!(accepts_event(
        WaitFrameStage::BeginningFrame { predicted_display_time_nanos: 5 },
        WaitFrameEvent::FrameBegun { result: Ok(()) }
    ));
    assert!(!accepts_event(WaitFrameStage::Done, WaitFrameEvent::FrameBegun { result: Ok(()) }));
}
