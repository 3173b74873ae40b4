//! The decisions of one OpenXR frame wait: drain the previous frame's deferred finalize, surface
//! a finalize error, idle while the session is not running, wait for the next frame and begin
//! it. The caller performs each requested action and reports what happened as the next event.

use vstd::prelude::*;

verus! {

/// How long the idle path sleeps before reporting that no frame is ready.
pub const IDLE_SLEEP_MILLIS: u64 = 10;

/// Upper bound on the shutdown wait for a pending finalize.
pub const AWAIT_FINALIZE_SHUTDOWN_TIMEOUT_MILLIS: u64 = 1000;

/// The OpenXR-related call a flight-recorder entry describes.
#[derive(Clone, Copy, Debug, PartialEq, Eq, Structural)]
pub enum FlightCall {
    WaitPreviousFinalize,
    WaitFrame,
    BeginFrame,
}

/// Outcome of a recorded call.
#[derive(Clone, Copy, Debug, PartialEq, Eq, Structural)]
pub enum FlightResult {
    Succeeded,
    /// The finalize signal timed out or its sender went away.
    TimeoutOrDisconnected,
    /// The call failed with this `XrResult` code.
    Failed(i32),
}

/// One flight-recorder entry.
#[derive(Clone, Copy, Debug, PartialEq, Eq, Structural)]
pub struct FlightRecord {
    pub call: FlightCall,
    pub result: FlightResult,
    /// Predicted display time of the frame, in nanoseconds, when known.
    pub predicted_display_time_nanos: Option<i64>,
}

/// Where a frame wait stands.
#[derive(Clone, Copy, Debug, PartialEq, Eq, Structural)]
pub enum WaitFrameStage {
    /// Nothing done yet.
    Start,
    /// Waiting for the previous frame's finalize signal.
    AwaitingFinalize,
    /// Taking the finalize error slot.
    CheckingFinalizeError,
    /// Waiting for the runtime's next frame.
    AwaitingFrame,
    /// Beginning the frame whose predicted display time is known.
    BeginningFrame { predicted_display_time_nanos: i64 },
    /// The wait has finished.
    Done,
}

/// What the caller reports back.
#[derive(Clone, Copy, Debug, PartialEq, Eq)]
pub enum WaitFrameEvent {
    /// The wait starts; whether a finalize signal from the previous frame is pending.
    Started { pending_finalize: bool },
    /// The finalize wait returned; `ok` is false on timeout or disconnection.
    FinalizeWaited { ok: bool },
    /// The finalize error slot was taken; whether the session is running.
    FinalizeErrorTaken { error: Option<i32>, session_running: bool },
    /// `xrWaitFrame` returned the predicted display time, or failed.
    FrameWaited { result: Result<i64, i32> },
    /// `xrBeginFrame` returned.
    FrameBegun { result: Result<(), i32> },
}

/// How a frame wait ends.
#[derive(Clone, Copy, Debug, PartialEq, Eq, Structural)]
pub enum WaitFrameOutcome {
    /// A frame was begun; the caller returns its frame state.
    Frame,
    /// The session is not running; no frame this tick.
    NotReady,
    /// A call failed with this `XrResult` code.
    Failed(i32),
}

/// What the caller does next.
#[derive(Clone, Copy, Debug, PartialEq, Eq, Structural)]
pub enum WaitFrameAction {
    /// Block on the previous frame's finalize signal.
    WaitPreviousFinalize,
    /// Take the driver's finalize error slot.
    TakeFinalizeError,
    /// Call `xrWaitFrame`.
    WaitFrame,
    /// Call `xrBeginFrame` under the GPU queue access gate.
    BeginFrame,
    /// Return the outcome.
    Finish(WaitFrameOutcome),
}

/// The result of one transition.
#[derive(Clone, Copy, Debug, PartialEq, Eq, Structural)]
pub struct WaitFrameStep {
    /// The stage after the transition.
    pub stage: WaitFrameStage,
    /// Entry for the flight recorder, written before acting.
    pub record: Option<FlightRecord>,
    /// Log that the previous finalize timed out.
    pub warn_finalize_timeout: bool,
    /// Milliseconds to sleep before acting.
    pub sleep_millis: u64,
    /// Mark the frame open for the deferred end-frame.
    pub set_frame_open: bool,
    /// What to do next.
    pub action: WaitFrameAction,
}

/// `event` is what the caller can report in `stage`.
pub open spec fn accepts(stage: WaitFrameStage, event: WaitFrameEvent) -> bool {
    match (stage, event) {
        (WaitFrameStage::Start, WaitFrameEvent::Started { .. }) => true,
        (WaitFrameStage::AwaitingFinalize, WaitFrameEvent::FinalizeWaited { .. }) => true,
        (WaitFrameStage::CheckingFinalizeError, WaitFrameEvent::FinalizeErrorTaken { .. }) => true,
        (WaitFrameStage::AwaitingFrame, WaitFrameEvent::FrameWaited { .. }) => true,
        (WaitFrameStage::BeginningFrame { .. }, WaitFrameEvent::FrameBegun { .. }) => true,
        _ => false,
    }
}

/// A step that only moves on.
pub open spec fn plain_step(stage: WaitFrameStage, action: WaitFrameAction) -> WaitFrameStep {
    WaitFrameStep {
        stage,
        record: None,
        warn_finalize_timeout: false,
        sleep_millis: 0,
        set_frame_open: false,
        action,
    }
}

/// A step that records `record` and then moves on.
pub open spec fn recorded_step(
    stage: WaitFrameStage,
    record: FlightRecord,
    action: WaitFrameAction,
) -> WaitFrameStep {
    WaitFrameStep {
        stage,
        record: Some(record),
        warn_finalize_timeout: false,
        sleep_millis: 0,
        set_frame_open: false,
        action,
    }
}

/// The transition table of a frame wait.
pub open spec fn wait_frame_transition(stage: WaitFrameStage, event: WaitFrameEvent) -> WaitFrameStep {
    match event {
        WaitFrameEvent::Started { pending_finalize } => if pending_finalize {
            plain_step(WaitFrameStage::AwaitingFinalize, WaitFrameAction::WaitPreviousFinalize)
        } else {
            plain_step(WaitFrameStage::CheckingFinalizeError, WaitFrameAction::TakeFinalizeError)
        },
        WaitFrameEvent::FinalizeWaited { ok } => WaitFrameStep {
            stage: WaitFrameStage::CheckingFinalizeError,
            record: Some(
                FlightRecord {
                    call: FlightCall::WaitPreviousFinalize,
                    result: if ok {
                        FlightResult::Succeeded
                    } else {
                        FlightResult::TimeoutOrDisconnected
                    },
                    predicted_display_time_nanos: None,
                },
            ),
            warn_finalize_timeout: !ok,
            sleep_millis: 0,
            set_frame_open: false,
            action: WaitFrameAction::TakeFinalizeError,
        },
        WaitFrameEvent::FinalizeErrorTaken { error, session_running } => match error {
            Some(code) => recorded_step(
                WaitFrameStage::Done,
                FlightRecord {
                    call: FlightCall::WaitFrame,
                    result: FlightResult::Failed(code),
                    predicted_display_time_nanos: None,
                },
                WaitFrameAction::Finish(WaitFrameOutcome::Failed(code)),
            ),
            None => if !session_running {
                WaitFrameStep {
                    stage: WaitFrameStage::Done,
                    record: None,
                    warn_finalize_timeout: false,
                    sleep_millis: IDLE_SLEEP_MILLIS,
                    set_frame_open: false,
                    action: WaitFrameAction::Finish(WaitFrameOutcome::NotReady),
                }
            } else {
                plain_step(WaitFrameStage::AwaitingFrame, WaitFrameAction::WaitFrame)
            },
        },
        WaitFrameEvent::FrameWaited { result } => match result {
            Ok(t) => recorded_step(
                WaitFrameStage::BeginningFrame { predicted_display_time_nanos: t },
                FlightRecord {
                    call: FlightCall::WaitFrame,
                    result: FlightResult::Succeeded,
                    predicted_display_time_nanos: Some(t),
                },
                WaitFrameAction::BeginFrame,
            ),
            Err(code) => recorded_step(
                WaitFrameStage::Done,
                FlightRecord {
                    call: FlightCall::WaitFrame,
                    result: FlightResult::Failed(code),
                    predicted_display_time_nanos: None,
                },
                WaitFrameAction::Finish(WaitFrameOutcome::Failed(code)),
            ),
        },
        WaitFrameEvent::FrameBegun { result } => {
            let t = match stage {
                WaitFrameStage::BeginningFrame { predicted_display_time_nanos } => predicted_display_time_nanos,
                _ => 0,
            };
            match result {
                Ok(()) => WaitFrameStep {
                    stage: WaitFrameStage::Done,
                    record: Some(
                        FlightRecord {
                            call: FlightCall::BeginFrame,
                            result: FlightResult::Succeeded,
                            predicted_display_time_nanos: Some(t),
                        },
                    ),
                    warn_finalize_timeout: false,
                    sleep_millis: 0,
                    set_frame_open: true,
                    action: WaitFrameAction::Finish(WaitFrameOutcome::Frame),
                },
                Err(code) => recorded_step(
                    WaitFrameStage::Done,
                    FlightRecord {
                        call: FlightCall::BeginFrame,
                        result: FlightResult::Failed(code),
                        predicted_display_time_nanos: Some(t),
                    },
                    WaitFrameAction::Finish(WaitFrameOutcome::Failed(code)),
                ),
            }
        },
    }
}

/// Whether `event` is what the caller can report in `stage`.
pub fn accepts_event(stage: WaitFrameStage, event: WaitFrameEvent) -> (r: bool)
    ensures
        r == accepts(stage, event),
{
    match (stage, event) {
        (WaitFrameStage::Start, WaitFrameEvent::Started { .. }) => true,
        (WaitFrameStage::AwaitingFinalize, WaitFrameEvent::FinalizeWaited { .. }) => true,
        (WaitFrameStage::CheckingFinalizeError, WaitFrameEvent::FinalizeErrorTaken { .. }) => true,
        (WaitFrameStage::AwaitingFrame, WaitFrameEvent::FrameWaited { .. }) => true,
        (WaitFrameStage::BeginningFrame { .. }, WaitFrameEvent::FrameBegun { .. }) => true,
        _ => false,
    }
}

/// Advances a frame wait by one reported event.
pub fn wait_frame_step(stage: WaitFrameStage, event: WaitFrameEvent) -> (r: WaitFrameStep)
    requires
        accepts(stage, event),
    ensures
        r == wait_frame_transition(stage, event),
{
    let none_step = WaitFrameStep {
        stage: WaitFrameStage::Done,
        record: None,
        warn_finalize_timeout: false,
        sleep_millis: 0,
        set_frame_open: false,
        action: WaitFrameAction::TakeFinalizeError,
    };
    match event {
        WaitFrameEvent::Started { pending_finalize } => {
            if pending_finalize {
                WaitFrameStep {
                    stage: WaitFrameStage::AwaitingFinalize,
                    action: WaitFrameAction::WaitPreviousFinalize,
                    ..none_step
                }
            } else {
                WaitFrameStep {
                    stage: WaitFrameStage::CheckingFinalizeError,
                    action: WaitFrameAction::TakeFinalizeError,
                    ..none_step
                }
            }
        },
        WaitFrameEvent::FinalizeWaited { ok } => {
            let result = if ok {
                FlightResult::Succeeded
            } else {
                FlightResult::TimeoutOrDisconnected
            };
            WaitFrameStep {
                stage: WaitFrameStage::CheckingFinalizeError,
                record: Some(
                    FlightRecord {
                        call: FlightCall::WaitPreviousFinalize,
                        result,
                        predicted_display_time_nanos: None,
                    },
                ),
                warn_finalize_timeout: !ok,
                action: WaitFrameAction::TakeFinalizeError,
                ..none_step
            }
        },
        WaitFrameEvent::FinalizeErrorTaken { error, session_running } => {
            match error {
                Some(code) => WaitFrameStep {
                    record: Some(
                        FlightRecord {
                            call: FlightCall::WaitFrame,
                            result: FlightResult::Failed(code),
                            predicted_display_time_nanos: None,
                        },
                    ),
                    action: WaitFrameAction::Finish(WaitFrameOutcome::Failed(code)),
                    ..none_step
                },
                None => {
                    if !session_running {
                        WaitFrameStep {
                            sleep_millis: IDLE_SLEEP_MILLIS,
                            action: WaitFrameAction::Finish(WaitFrameOutcome::NotReady),
                            ..none_step
                        }
                    } else {
                        WaitFrameStep {
                            stage: WaitFrameStage::AwaitingFrame,
                            action: WaitFrameAction::WaitFrame,
                            ..none_step
                        }
                    }
                },
            }
        },
        WaitFrameEvent::FrameWaited { result } => {
            match result {
                Ok(t) => WaitFrameStep {
                    stage: WaitFrameStage::BeginningFrame { predicted_display_time_nanos: t },
                    record: Some(
                        FlightRecord {
                            call: FlightCall::WaitFrame,
                            result: FlightResult::Succeeded,
                            predicted_display_time_nanos: Some(t),
                        },
                    ),
                    action: WaitFrameAction::BeginFrame,
                    ..none_step
                },
                Err(code) => WaitFrameStep {
                    record: Some(
                        FlightRecord {
                            call: FlightCall::WaitFrame,
                            result: FlightResult::Failed(code),
                            predicted_display_time_nanos: None,
                        },
                    ),
                    action: WaitFrameAction::Finish(WaitFrameOutcome::Failed(code)),
                    ..none_step
                },
            }
        },
        WaitFrameEvent::FrameBegun { result } => {
            let t = match stage {
                WaitFrameStage::BeginningFrame { predicted_display_time_nanos } => predicted_display_time_nanos,
                _ => 0,
            };
            match result {
                Ok(()) => WaitFrameStep {
                    record: Some(
                        FlightRecord {
                            call: FlightCall::BeginFrame,
                            result: FlightResult::Succeeded,
                            predicted_display_time_nanos: Some(t),
                        },
                    ),
                    set_frame_open: true,
                    action: WaitFrameAction::Finish(WaitFrameOutcome::Frame),
                    ..none_step
                },
                Err(code) => WaitFrameStep {
                    record: Some(
                        FlightRecord {
                            call: FlightCall::BeginFrame,
                            result: FlightResult::Failed(code),
                            predicted_display_time_nanos: Some(t),
                        },
                    ),
                    action: WaitFrameAction::Finish(WaitFrameOutcome::Failed(code)),
                    ..none_step
                },
            }
        },
    }
}

/// The shutdown path's wait for a pending finalize: a bounded wait when one is pending.
pub fn await_finalize_pending(has_pending_finalize: bool) -> (timeout_millis: Option<u64>)
    ensures
        timeout_millis == (if has_pending_finalize {
            Some(AWAIT_FINALIZE_SHUTDOWN_TIMEOUT_MILLIS)
        } else {
            None
        }),
{
    if has_pending_finalize {
        Some(AWAIT_FINALIZE_SHUTDOWN_TIMEOUT_MILLIS)
    } else {
        None
    }
}

/// The steps of a frame wait driven from `stage` by `events`, up to the first event the stage
/// does not accept.
pub open spec fn wait_frame_run(stage: WaitFrameStage, events: Seq<WaitFrameEvent>) -> Seq<
    WaitFrameStep,
>
    decreases events.len(),
{
    if events.len() == 0 || !accepts(stage, events[0]) {
        Seq::empty()
    } else {
        let step = wait_frame_transition(stage, events[0]);
        seq![step] + wait_frame_run(step.stage, events.drop_first())
    }
}

/// Unfolds one step of a run.
proof fn lemma_run_unfold(stage: WaitFrameStage, events: Seq<WaitFrameEvent>, i: int)
    requires
        0 < i < wait_frame_run(stage, events).len(),
    ensures
        events.len() > 0,
        accepts(stage, events[0]),
        wait_frame_run(stage, events)[i] == wait_frame_run(
            wait_frame_transition(stage, events[0]).stage,
            events.drop_first(),
        )[i - 1],
        wait_frame_run(stage, events).len() == 1 + wait_frame_run(
            wait_frame_transition(stage, events[0]).stage,
            events.drop_first(),
        ).len(),
{
}

/// A run has at most one step per event.
proof fn lemma_run_len(stage: WaitFrameStage, events: Seq<WaitFrameEvent>)
    ensures
        wait_frame_run(stage, events).len() <= events.len(),
    decreases events.len(),
{
    if events.len() > 0 && accepts(stage, events[0]) {
        lemma_run_len(wait_frame_transition(stage, events[0]).stage, events.drop_first());
    }
}

/// No `xrBeginFrame` is requested once the frame is being begun or the wait is done.
proof fn lemma_no_begin_after_ready(stage: WaitFrameStage, events: Seq<WaitFrameEvent>, i: int)
    requires
        stage_rank(stage) >= 4,
        0 <= i < wait_frame_run(stage, events).len(),
    ensures
        wait_frame_run(stage, events)[i].action != WaitFrameAction::BeginFrame,
{
    let r = wait_frame_run(stage, events);
    assert(events.len() > 0 && accepts(stage, events[0])) by {
        if !(events.len() > 0 && accepts(stage, events[0])) {
            assert(r.len() == 0);
        }
    }
    let step = wait_frame_transition(stage, events[0]);
    assert(r[0] == step);
    if i > 0 {
        lemma_run_unfold(stage, events, i);
        let ev = events.drop_first();
        assert(step.stage == WaitFrameStage::Done);
        if ev.len() > 0 {
            assert(!accepts(WaitFrameStage::Done, ev[0]));
        }
        assert(wait_frame_run(step.stage, ev).len() == 0);
    }
}

/// From a stage before the frame wait, `xrBeginFrame` is requested only after an event that
/// found the finalize error slot empty while the session was running.
proof fn lemma_begin_needs_clear_finalize(stage: WaitFrameStage, events: Seq<WaitFrameEvent>, i: int)
    requires
        stage_rank(stage) <= 2,
        0 <= i < wait_frame_run(stage, events).len(),
        wait_frame_run(stage, events)[i].action == WaitFrameAction::BeginFrame,
    ensures
        exists|j: int|
            0 <= j < i && #[trigger] events[j] == (WaitFrameEvent::FinalizeErrorTaken {
                error: None,
                session_running: true,
            }),
    decreases events.len(),
{
    let r = wait_frame_run(stage, events);
    assert(events.len() > 0 && accepts(stage, events[0])) by {
        if !(events.len() > 0 && accepts(stage, events[0])) {
            assert(r.len() == 0);
        }
    }
    let step = wait_frame_transition(stage, events[0]);
    let ev = events.drop_first();
    assert(r[0] == step);
    assert(i > 0);
    lemma_run_unfold(stage, events, i);
    if stage_rank(step.stage) <= 2 {
        lemma_begin_needs_clear_finalize(step.stage, ev, i - 1);
        let j = choose|j: int|
            0 <= j < i - 1 && #[trigger] ev[j] == (WaitFrameEvent::FinalizeErrorTaken {
                error: None,
                session_running: true,
            });
        lemma_run_len(step.stage, ev);
        assert(events[j + 1] == ev[j]);
    } else if step.stage == WaitFrameStage::AwaitingFrame {
        assert(events[0] == (WaitFrameEvent::FinalizeErrorTaken { error: None, session_running: true }));
    } else {
        lemma_no_begin_after_ready(step.stage, ev, i - 1);
    }
}

/// A frame wait that starts from the beginning requests `xrBeginFrame` only after the
/// finalize error slot was found empty while the session was running, and, when a finalize
/// was pending, only after waiting for it.
pub proof fn lemma_begin_frame_follows_finalize(events: Seq<WaitFrameEvent>, i: int)
    requires
        0 <= i < wait_frame_run(WaitFrameStage::Start, events).len(),
        wait_frame_run(WaitFrameStage::Start, events)[i].action == WaitFrameAction::BeginFrame,
    ensures
        exists|j: int|
            0 <= j < i && #[trigger] events[j] == (WaitFrameEvent::FinalizeErrorTaken {
                error: None,
                session_running: true,
            }),
        events[0] == (WaitFrameEvent::Started { pending_finalize: true }) ==> exists|j: int|
            0 < j < i && #[trigger] events[j] is FinalizeWaited,
{
    lemma_begin_needs_clear_finalize(WaitFrameStage::Start, events, i);
    let r = wait_frame_run(WaitFrameStage::Start, events);
    if events[0] == (WaitFrameEvent::Started { pending_finalize: true }) {
        let s0 = wait_frame_transition(WaitFrameStage::Start, events[0]);
        let ev = events.drop_first();
        assert(r[0] == s0);
        lemma_run_unfold(WaitFrameStage::Start, events, i);
        let r1 = wait_frame_run(s0.stage, ev);
        assert(s0.stage == WaitFrameStage::AwaitingFinalize);
        assert(accepts(s0.stage, ev[0])) by {
            if !(ev.len() > 0 && accepts(s0.stage, ev[0])) {
                assert(r1.len() == 0);
            }
        }
        assert(r1[0] == wait_frame_transition(s0.stage, ev[0]));
        assert(i > 1);
        assert(events[1] == ev[0]);
    }
}

/// `xrBeginFrame` succeeded on this event.
pub open spec fn begun_ok(event: WaitFrameEvent) -> bool {
    match event {
        WaitFrameEvent::FrameBegun { result } => result is Ok,
        _ => false,
    }
}

/// The frame is marked open exactly on the step where `xrBeginFrame` succeeded, and that step
/// finishes the wait with a frame.
pub proof fn lemma_frame_open_only_after_begin(stage: WaitFrameStage, event: WaitFrameEvent)
    requires
        accepts(stage, event),
    ensures
        wait_frame_transition(stage, event).set_frame_open <==> begun_ok(event),
        wait_frame_transition(stage, event).set_frame_open ==> wait_frame_transition(
            stage,
            event,
        ).action == WaitFrameAction::Finish(WaitFrameOutcome::Frame),
{
}

/// A frame wait takes at most five steps, and only its last step finishes it.
pub proof fn lemma_wait_frame_terminates(stage: WaitFrameStage, events: Seq<WaitFrameEvent>)
    ensures
        wait_frame_run(stage, events).len() <= 5,
        forall|i: int|
            0 <= i < wait_frame_run(stage, events).len() - 1 ==> !(#[trigger] wait_frame_run(
                stage,
                events,
            )[i].action is Finish),
    decreases events.len(),
{
    if events.len() > 0 && accepts(stage, events[0]) {
        let step = wait_frame_transition(stage, events[0]);
        lemma_wait_frame_terminates(step.stage, events.drop_first());
        lemma_rank_bounds_run(step.stage, events.drop_first());
        let r = wait_frame_run(stage, events);
        assert forall|i: int| 0 <= i < r.len() - 1 implies !(#[trigger] r[i].action is Finish) by {
            if i == 0 {
                assert(r[0] == step);
                if step.action is Finish {
                    assert(step.stage == WaitFrameStage::Done);
                    assert(wait_frame_run(step.stage, events.drop_first()).len() == 0) by {
                        let ev = events.drop_first();
                        if ev.len() > 0 {
                            assert(!accepts(WaitFrameStage::Done, ev[0]));
                        }
                    }
                }
            } else {
                lemma_run_unfold(stage, events, i);
            }
        }
    }
}

/// Progress rank of a stage; every accepted event moves to a higher rank.
pub open spec fn stage_rank(stage: WaitFrameStage) -> nat {
    match stage {
        WaitFrameStage::Start => 0,
        WaitFrameStage::AwaitingFinalize => 1,
        WaitFrameStage::CheckingFinalizeError => 2,
        WaitFrameStage::AwaitingFrame => 3,
        WaitFrameStage::BeginningFrame { .. } => 4,
        WaitFrameStage::Done => 5,
    }
}

/// A run from `stage` takes at most as many steps as ranks remain above it.
proof fn lemma_rank_bounds_run(stage: WaitFrameStage, events: Seq<WaitFrameEvent>)
    ensures
        wait_frame_run(stage, events).len() <= 5 - stage_rank(stage),
    decreases events.len(),
{
    if events.len() > 0 && accepts(stage, events[0]) {
        let step = wait_frame_transition(stage, events[0]);
        assert(stage_rank(step.stage) > stage_rank(stage));
        lemma_rank_bounds_run(step.stage, events.drop_first());
    }
}

/// A frame wait never swallows an error: a failed `xrWaitFrame`, a failed `xrBeginFrame` or a
/// pending finalize error finishes the wait with exactly that code, and every step that records
/// a failure finishes with it. The wait finishes as not ready exactly when no finalize error was
/// pending and the session is not running.
pub proof fn lemma_failures_finish_the_wait(stage: WaitFrameStage, event: WaitFrameEvent)
    requires
        accepts(stage, event),
    ensures
        event matches WaitFrameEvent::FrameWaited { result: Err(c) } ==> wait_frame_transition(
            stage,
            event,
        ).action == WaitFrameAction::Finish(WaitFrameOutcome::Failed(c)),
        event matches WaitFrameEvent::FrameBegun { result: Err(c) } ==> wait_frame_transition(
            stage,
            event,
        ).action == WaitFrameAction::Finish(WaitFrameOutcome::Failed(c)),
        event matches WaitFrameEvent::FinalizeErrorTaken { error: Some(c), .. }
            ==> wait_frame_transition(stage, event).action == WaitFrameAction::Finish(
            WaitFrameOutcome::Failed(c),
        ),
        wait_frame_transition(stage, event).record matches Some(
            FlightRecord { result: FlightResult::Failed(c), .. },
        ) ==> wait_frame_transition(stage, event).action == WaitFrameAction::Finish(
            WaitFrameOutcome::Failed(c),
        ),
        wait_frame_transition(stage, event).action matches WaitFrameAction::Finish(
            WaitFrameOutcome::Failed(c),
        ) ==> wait_frame_transition(stage, event).record matches Some(r) && r.result
            == FlightResult::Failed(c),
        (wait_frame_transition(stage, event).action == WaitFrameAction::Finish(
            WaitFrameOutcome::NotReady,
        )) == (event == WaitFrameEvent::FinalizeErrorTaken { error: None, session_running: false }),
{
}

} // verus!
