//! The cooperative loop's decisions: which ready source to dispatch under
//! the fixed priority order, whether to render after an event, how renders
//! are throttled under bursts of language-server messages, and how suspend
//! and resume signals are handled.

use vstd::prelude::*;

verus! {

/// Frame budget for render throttling, in microseconds: one sixtieth of a
/// second.
pub const FRAME_BUDGET_MICROS: u64 = 16666;

/// The sources the loop multiplexes, from highest to lowest priority:
/// terminal input, OS signals, language-server messages, debug-adapter
/// events, fire-and-forget job completions, must-await job completions.
#[derive(PartialEq, Eq, Structural, Clone, Copy, Debug)]
pub enum EventSource {
    TerminalInput,
    OsSignal,
    LspMessage,
    DapEvent,
    JobCallback,
    JobWaitCallback,
}

/// The priority rank of a source; lower ranks are served first.
pub open spec fn spec_priority(s: EventSource) -> int {
    match s {
        EventSource::TerminalInput => 0,
        EventSource::OsSignal => 1,
        EventSource::LspMessage => 2,
        EventSource::DapEvent => 3,
        EventSource::JobCallback => 4,
        EventSource::JobWaitCallback => 5,
    }
}

/// Which sources hold a ready event at this instant.
pub struct ReadySet {
    pub terminal: bool,
    pub signal: bool,
    pub lsp: bool,
    pub dap: bool,
    pub job: bool,
    pub job_wait: bool,
}

/// Whether `s` is ready in `r`.
pub open spec fn spec_is_ready(r: ReadySet, s: EventSource) -> bool {
    match s {
        EventSource::TerminalInput => r.terminal,
        EventSource::OsSignal => r.signal,
        EventSource::LspMessage => r.lsp,
        EventSource::DapEvent => r.dap,
        EventSource::JobCallback => r.job,
        EventSource::JobWaitCallback => r.job_wait,
    }
}

/// Whether anything is ready in `r`.
pub open spec fn spec_any_ready(r: ReadySet) -> bool {
    r.terminal || r.signal || r.lsp || r.dap || r.job || r.job_wait
}

/// Picks the ready source of highest priority, if any is ready. In
/// particular, whenever terminal input is ready — whatever protocol or job
/// events are ready beside it — terminal input is dispatched first.
pub fn select_source(r: &ReadySet) -> (out: Option<EventSource>)
    ensures
        out is Some <==> spec_any_ready(*r),
        match out {
            Some(s) => spec_is_ready(*r, s) && (forall|t: EventSource|
                spec_is_ready(*r, t) ==> spec_priority(s) <= spec_priority(t)),
            None => true,
        },
        r.terminal ==> out == Some(EventSource::TerminalInput),
        out == select_spec(*r),
{
    if r.terminal {
        Some(EventSource::TerminalInput)
    } else if r.signal {
        Some(EventSource::OsSignal)
    } else if r.lsp {
        Some(EventSource::LspMessage)
    } else if r.dap {
        Some(EventSource::DapEvent)
    } else if r.job {
        Some(EventSource::JobCallback)
    } else if r.job_wait {
        Some(EventSource::JobWaitCallback)
    } else {
        None
    }
}

/// What one loop iteration does next: drain the must-await jobs and close
/// when the editor asked to close, dispatch the selected source, or block
/// until a source is ready.
#[derive(PartialEq, Eq, Structural, Clone, Copy, Debug)]
pub enum StepPlan {
    FinishAndClose,
    Dispatch(EventSource),
    WaitForReady,
}

/// Decides one loop iteration: a close request wins over everything; then
/// the highest-priority ready source is dispatched; with nothing ready the
/// loop blocks.
pub fn loop_step(should_close: bool, r: &ReadySet) -> (p: StepPlan)
    ensures
        should_close ==> p == StepPlan::FinishAndClose,
        !should_close && spec_any_ready(*r) ==> p == StepPlan::Dispatch(
            match select_spec(*r) {
                Some(s) => s,
                None => EventSource::TerminalInput,
            },
        ),
        !should_close && !spec_any_ready(*r) ==> p == StepPlan::WaitForReady,
{
    if should_close {
        StepPlan::FinishAndClose
    } else {
        match select_source(r) {
            Some(s) => StepPlan::Dispatch(s),
            None => StepPlan::WaitForReady,
        }
    }
}

/// The selection `select_source` makes, as a specification.
pub open spec fn select_spec(r: ReadySet) -> Option<EventSource> {
    if r.terminal {
        Some(EventSource::TerminalInput)
    } else if r.signal {
        Some(EventSource::OsSignal)
    } else if r.lsp {
        Some(EventSource::LspMessage)
    } else if r.dap {
        Some(EventSource::DapEvent)
    } else if r.job {
        Some(EventSource::JobCallback)
    } else if r.job_wait {
        Some(EventSource::JobWaitCallback)
    } else {
        None
    }
}

/// Whether a render is due after handling terminal input: only when the
/// handler asked for a redraw and no close was requested meanwhile.
pub fn render_after_input(should_redraw: bool, should_close: bool) -> (r: bool)
    ensures
        r == (should_redraw && !should_close),
{
    should_redraw && !should_close
}

/// One throttling step: render when the incoming queue has drained, or when
/// the time since the last render exceeds the budget.
pub open spec fn spec_throttle_fire(last: int, now: int, queue_empty: bool, budget: int) -> bool {
    queue_empty || now - last > budget
}

/// Render throttling for bursts of language-server messages. Only this path
/// moves the last-render mark: renders after other events do not.
pub struct RenderThrottle {
    pub last_render_micros: u64,
}

impl RenderThrottle {
    /// A throttle whose last render is taken to be `now`.
    pub fn new(now: u64) -> (r: RenderThrottle)
        ensures
            r.last_render_micros == now,
    {
        RenderThrottle { last_render_micros: now }
    }

    /// Decides whether to render after one language-server message was
    /// handled, with `now` read from a monotonic clock; a render moves the
    /// last-render mark to `now`.
    pub fn after_lsp_message(&mut self, now: u64, queue_empty: bool) -> (render: bool)
        requires
            old(self).last_render_micros <= now,
        ensures
            render == spec_throttle_fire(
                old(self).last_render_micros as int,
                now as int,
                queue_empty,
                FRAME_BUDGET_MICROS as int,
            ),
            final(self).last_render_micros == if render {
                now
            } else {
                old(self).last_render_micros
            },
    {
        if queue_empty || now - self.last_render_micros > FRAME_BUDGET_MICROS {
            self.last_render_micros = now;
            true
        } else {
            false
        }
    }
}

/// The render decisions over a whole run of message arrivals: `times[i]` is
/// the clock at which message `i` was handled and `empties[i]` says whether
/// the queue was seen drained after it.
pub open spec fn spec_throttle_run(
    last: int,
    times: Seq<u64>,
    empties: Seq<bool>,
    budget: int,
) -> Seq<bool>
    decreases times.len(),
{
    if times.len() == 0 || empties.len() == 0 {
        Seq::empty()
    } else {
        let fire = spec_throttle_fire(last, times[0] as int, empties[0], budget);
        let next_last = if fire {
            times[0] as int
        } else {
            last
        };
        seq![fire] + spec_throttle_run(next_last, times.drop_first(), empties.drop_first(), budget)
    }
}

/// A run's decisions are one per message.
pub proof fn lemma_throttle_run_len(last: int, times: Seq<u64>, empties: Seq<bool>, budget: int)
    requires
        times.len() == empties.len(),
    ensures
        spec_throttle_run(last, times, empties, budget).len() == times.len(),
    decreases times.len(),
{
    if times.len() > 0 {
        let fire = spec_throttle_fire(last, times[0] as int, empties[0], budget);
        let next_last = if fire {
            times[0] as int
        } else {
            last
        };
        lemma_throttle_run_len(next_last, times.drop_first(), empties.drop_first(), budget);
    }
}

/// Throttling, first half: a burst of messages arriving faster than the
/// frame budget, whose queue drains only at the last message, triggers
/// exactly one render — after the burst has drained.
pub proof fn lemma_burst_single_render(last: int, times: Seq<u64>, empties: Seq<bool>, budget: int)
    requires
        times.len() == empties.len(),
        times.len() > 0,
        forall|i: int| 0 <= i < times.len() ==> times[i] - last <= budget,
        forall|i: int| 0 <= i < empties.len() ==> empties[i] == (i == times.len() - 1),
    ensures
        forall|i: int|
            0 <= i < times.len() ==> spec_throttle_run(last, times, empties, budget)[i] == (i
                == times.len() - 1),
    decreases times.len(),
{
    let flags = spec_throttle_run(last, times, empties, budget);
    let fire = spec_throttle_fire(last, times[0] as int, empties[0], budget);
    lemma_throttle_run_len(last, times, empties, budget);
    if times.len() == 1 {
        assert(empties[0]);
        assert(flags[0]);
    } else {
        assert(!empties[0]);
        assert(times[0] - last <= budget);
        assert(!fire);
        let t2 = times.drop_first();
        let e2 = empties.drop_first();
        assert forall|i: int| 0 <= i < t2.len() implies t2[i] - last <= budget by {
            assert(t2[i] == times[i + 1]);
        }
        assert forall|i: int| 0 <= i < e2.len() implies e2[i] == (i == t2.len() - 1) by {
            assert(e2[i] == empties[i + 1]);
        }
        lemma_burst_single_render(last, t2, e2, budget);
        lemma_throttle_run_len(last, t2, e2, budget);
        assert forall|i: int| 0 <= i < times.len() implies flags[i] == (i == times.len() - 1) by {
            if i > 0 {
                assert(flags[i] == spec_throttle_run(last, t2, e2, budget)[i - 1]);
            }
        }
    }
}

/// Every render in a run whose queue never drains lies more than a budget
/// after the mark the run started from.
proof fn lemma_throttle_gap_from_last(last: int, times: Seq<u64>, empties: Seq<bool>, budget: int)
    requires
        times.len() == empties.len(),
        forall|i: int| 0 <= i < empties.len() ==> !empties[i],
        forall|i: int| 0 <= i < times.len() ==> last <= times[i],
        forall|i: int, j: int| 0 <= i < j < times.len() ==> times[i] <= times[j],
        budget >= 0,
    ensures
        forall|i: int|
            0 <= i < times.len() && spec_throttle_run(last, times, empties, budget)[i]
                ==> times[i] - last > budget,
    decreases times.len(),
{
    if times.len() > 0 {
        let flags = spec_throttle_run(last, times, empties, budget);
        let fire = spec_throttle_fire(last, times[0] as int, empties[0], budget);
        let next_last = if fire {
            times[0] as int
        } else {
            last
        };
        let t2 = times.drop_first();
        let e2 = empties.drop_first();
        assert forall|i: int, j: int| 0 <= i < j < t2.len() implies t2[i] <= t2[j] by {
            assert(t2[i] == times[i + 1] && t2[j] == times[j + 1]);
        }
        assert forall|i: int| 0 <= i < t2.len() implies next_last <= t2[i] by {
            assert(t2[i] == times[i + 1]);
        }
        lemma_throttle_gap_from_last(next_last, t2, e2, budget);
        lemma_throttle_run_len(next_last, t2, e2, budget);
        lemma_throttle_run_len(last, times, empties, budget);
        assert forall|i: int| 0 <= i < times.len() && flags[i] implies times[i] - last > budget by {
            if i == 0 {
            } else {
                assert(flags[i] == spec_throttle_run(next_last, t2, e2, budget)[i - 1]);
                assert(t2[i - 1] == times[i]);
                assert(times[i] - next_last > budget);
            }
        }
    }
}

/// Throttling, second half: while a burst lasts — the queue never observed
/// drained — any two renders lie more than a frame budget apart: renders
/// occur at most once per budget interval.
pub proof fn lemma_renders_spaced(last: int, times: Seq<u64>, empties: Seq<bool>, budget: int)
    requires
        times.len() == empties.len(),
        forall|i: int| 0 <= i < empties.len() ==> !empties[i],
        forall|i: int| 0 <= i < times.len() ==> last <= times[i],
        forall|i: int, j: int| 0 <= i < j < times.len() ==> times[i] <= times[j],
        budget >= 0,
    ensures
        forall|i: int, j: int|
            0 <= i < j < times.len() && spec_throttle_run(last, times, empties, budget)[i]
                && spec_throttle_run(last, times, empties, budget)[j] ==> times[j] - times[i]
                > budget,
    decreases times.len(),
{
    if times.len() > 0 {
        let flags = spec_throttle_run(last, times, empties, budget);
        let fire = spec_throttle_fire(last, times[0] as int, empties[0], budget);
        let next_last = if fire {
            times[0] as int
        } else {
            last
        };
        let t2 = times.drop_first();
        let e2 = empties.drop_first();
        assert forall|i: int, j: int| 0 <= i < j < t2.len() implies t2[i] <= t2[j] by {
            assert(t2[i] == times[i + 1] && t2[j] == times[j + 1]);
        }
        assert forall|i: int| 0 <= i < t2.len() implies next_last <= t2[i] by {
            assert(t2[i] == times[i + 1]);
        }
        lemma_renders_spaced(next_last, t2, e2, budget);
        lemma_throttle_gap_from_last(next_last, t2, e2, budget);
        lemma_throttle_run_len(next_last, t2, e2, budget);
        lemma_throttle_run_len(last, times, empties, budget);
        assert forall|i: int, j: int|
            0 <= i < j < times.len() && flags[i] && flags[j] implies times[j] - times[i] > budget
            by {
            if i == 0 {
                assert(fire);
                assert(flags[j] == spec_throttle_run(next_last, t2, e2, budget)[j - 1]);
                assert(t2[j - 1] == times[j]);
                assert(times[j] - next_last > budget);
            } else {
                assert(flags[i] == spec_throttle_run(next_last, t2, e2, budget)[i - 1]);
                assert(flags[j] == spec_throttle_run(next_last, t2, e2, budget)[j - 1]);
                assert(t2[i - 1] == times[i] && t2[j - 1] == times[j]);
            }
        }
    }
}

/// A suspend or resume notification from the OS.
#[derive(PartialEq, Eq, Structural, Clone, Copy, Debug)]
pub enum SessionSignal {
    Suspend,
    Resume,
}

/// The ordered steps a signal asks of the surrounding runtime.
#[derive(PartialEq, Eq, Structural, Clone, Copy, Debug)]
pub enum SignalStep {
    SaveCursor,
    RestoreTerminal,
    YieldToOsDefault,
    ClaimTerminal,
    ResizeToCurrent,
    LoadCursor,
    Render,
}

/// The steps for a suspend: save the cursor, restore the terminal before
/// yielding to the OS default handler.
pub open spec fn spec_suspend_steps() -> Seq<SignalStep> {
    seq![SignalStep::SaveCursor, SignalStep::RestoreTerminal, SignalStep::YieldToOsDefault]
}

/// The steps for a resume: claim the terminal again, then force a full
/// repaint — resize to the current dimensions, reload the cursor, render —
/// since the terminal may have changed while suspended.
pub open spec fn spec_resume_steps() -> Seq<SignalStep> {
    seq![
        SignalStep::ClaimTerminal,
        SignalStep::ResizeToCurrent,
        SignalStep::LoadCursor,
        SignalStep::Render,
    ]
}

/// Plans the handling of one suspend or resume signal.
pub fn plan_signal(sig: SessionSignal) -> (steps: Vec<SignalStep>)
    ensures
        sig == SessionSignal::Suspend ==> steps@ == spec_suspend_steps(),
        sig == SessionSignal::Resume ==> steps@ == spec_resume_steps(),
{
    let mut steps: Vec<SignalStep> = Vec::new();
    match sig {
        SessionSignal::Suspend => {
            steps.push(SignalStep::SaveCursor);
            steps.push(SignalStep::RestoreTerminal);
            steps.push(SignalStep::YieldToOsDefault);
            proof {
                assert(steps@ =~= spec_suspend_steps());
            }
        },
        SessionSignal::Resume => {
            steps.push(SignalStep::ClaimTerminal);
            steps.push(SignalStep::ResizeToCurrent);
            steps.push(SignalStep::LoadCursor);
            steps.push(SignalStep::Render);
            proof {
                assert(steps@ =~= spec_resume_steps());
            }
        },
    }
    steps
}

/// One terminal input item as the input stream hands it over: an event, or
/// a read failure.
pub enum InputItem {
    Event(TermEvent),
    ReadFailure,
}

/// A terminal event: a resize, or any other input event (keys, mouse), which
/// the dispatcher forwards without looking inside.
#[derive(PartialEq, Eq, Structural, Clone, Copy, Debug)]
pub enum TermEvent {
    Resize { width: u16, height: u16 },
    Other,
}

/// How one terminal input item is handled.
#[derive(PartialEq, Eq, Structural, Clone, Copy, Debug)]
pub enum TermPlan {
    /// The input stream ended or failed to read: fatal, the loop aborts.
    Fatal,
    /// Resize the composition tree first, then forward the event.
    ResizeThenForward { width: u16, height: u16 },
    /// Forward the event as it is.
    Forward,
}

/// Plans the handling of one terminal input item: termination or a read
/// failure of the input stream is fatal; a resize is applied to the
/// composition tree before the event is forwarded; everything else is
/// forwarded directly.
pub fn plan_terminal_event(item: &Option<InputItem>) -> (p: TermPlan)
    ensures
        match item {
            None => p == TermPlan::Fatal,
            Some(InputItem::ReadFailure) => p == TermPlan::Fatal,
            Some(InputItem::Event(TermEvent::Resize { width, height })) => p
                == (TermPlan::ResizeThenForward { width: *width, height: *height }),
            Some(InputItem::Event(TermEvent::Other)) => p == TermPlan::Forward,
        },
{
    match item {
        None => TermPlan::Fatal,
        Some(InputItem::ReadFailure) => TermPlan::Fatal,
        Some(InputItem::Event(TermEvent::Resize { width, height })) => TermPlan::ResizeThenForward {
            width: *width,
            height: *height,
        },
        Some(InputItem::Event(TermEvent::Other)) => TermPlan::Forward,
    }
}

/// The loop's phases: idle between events, dispatching one event,
/// rendering after it, then idle again; a close request leads to the
/// closing phase, and once the must-await jobs are drained the loop is
/// closed for good.
#[derive(PartialEq, Eq, Structural, Clone, Copy, Debug)]
pub enum Phase {
    Idle,
    Dispatching(EventSource),
    Rendering,
    Closing,
    Closed,
}

/// Begins one iteration from idle: a close request moves to closing; else
/// the highest-priority ready source is dispatched; with nothing ready the
/// loop stays idle and blocks.
pub fn begin_iteration(phase: Phase, should_close: bool, r: &ReadySet) -> (p: Phase)
    requires
        phase == Phase::Idle,
    ensures
        should_close ==> p == Phase::Closing,
        !should_close ==> p == (match select_spec(*r) {
            Some(s) => Phase::Dispatching(s),
            None => Phase::Idle,
        }),
{
    if should_close {
        Phase::Closing
    } else {
        match select_source(r) {
            Some(s) => Phase::Dispatching(s),
            None => phase,
        }
    }
}

/// Ends the handling of one dispatched event: to the render phase when a
/// render is due, else straight back to idle.
pub fn after_dispatch(phase: Phase, render_due: bool) -> (p: Phase)
    requires
        phase is Dispatching,
    ensures
        p == (if render_due {
            Phase::Rendering
        } else {
            Phase::Idle
        }),
{
    if render_due {
        Phase::Rendering
    } else {
        Phase::Idle
    }
}

/// Ends a render: back to idle.
pub fn after_render(phase: Phase) -> (p: Phase)
    requires
        phase == Phase::Rendering,
    ensures
        p == Phase::Idle,
{
    Phase::Idle
}

/// Ends the closing phase: only once every must-await job has resolved may
/// the loop close for good.
pub fn finish_close(phase: Phase, must_await_pending: usize) -> (p: Phase)
    requires
        phase == Phase::Closing,
    ensures
        p == (if must_await_pending == 0 {
            Phase::Closed
        } else {
            Phase::Closing
        }),
{
    if must_await_pending == 0 {
        Phase::Closed
    } else {
        Phase::Closing
    }
}

} // verus!
