//! Interpretation of debug-adapter events into state mutations and status
//! text. Three event kinds are meaningful — stopped, output, initialized —
//! and all others are ignored. A response arriving on the event channel is
//! a programming-invariant violation; a request arriving there is an
//! acknowledged unsupported case, reported as such rather than guessed at.

use vstd::prelude::*;
use crate::text::{push_str, push_decimal_signed, spec_decimal_signed};

verus! {

/// One frame of a stack trace, as far as the dispatcher reads it.
pub struct StackFrame {
    pub id: i64,
    pub name: String,
    pub source_path: Option<String>,
}

/// The body of a stopped event.
pub struct StoppedEvent {
    pub thread_id: Option<i64>,
    pub reason: String,
    pub description: Option<String>,
    pub text: Option<String>,
    pub all_threads_stopped: Option<bool>,
}

/// The body of an output event.
pub struct OutputEvent {
    pub category: Option<String>,
    pub output: String,
}

/// One debug-adapter event.
pub enum DapEvent {
    Stopped(StoppedEvent),
    Output(OutputEvent),
    Initialized,
    Other(String),
}

/// One item of the debug-adapter channel.
pub enum DapPayload {
    Event(DapEvent),
    Response,
    Request,
}

/// The debugger state the dispatcher keeps.
pub struct DebuggerState {
    pub is_running: bool,
    pub stack_pointer: Option<StackFrame>,
}

/// The status line composed for a stopped event: the thread or target
/// scope, the reason, then the optional description, text, and all-threads
/// marker.
pub open spec fn spec_stopped_status(e: StoppedEvent) -> Seq<char> {
    let scope = match e.thread_id {
        Some(n) => "Thread "@ + spec_decimal_signed(n as int),
        None => "Target"@,
    };
    let base = scope + " stopped because of "@ + e.reason@;
    let with_desc = match e.description {
        Some(d) => base + " "@ + d@,
        None => base,
    };
    let with_text = match e.text {
        Some(t) => with_desc + " "@ + t@,
        None => with_desc,
    };
    if e.all_threads_stopped == Some(true) {
        with_text + " (all threads stopped)"@
    } else {
        with_text
    }
}

/// The status line composed for an output event: a category prefix when the
/// body carries one, a generic prefix otherwise.
pub open spec fn spec_output_status(e: OutputEvent) -> Seq<char> {
    let prefix = match e.category {
        Some(c) => "Debug ("@ + c@ + "):"@,
        None => "Debug:"@,
    };
    prefix + " "@ + e.output@
}

/// What handling a stopped event asks of the surroundings: the status line
/// to surface, and the source file to open in place of the current view,
/// when the top frame names one.
pub struct StoppedOutcome {
    pub status: String,
    pub open_path: Option<String>,
}

/// Handles a stopped event. The running flag drops; the stack pointer takes
/// the top frame fetched for the first thread — fetches are best-effort, a
/// failed fetch hands in nothing and the pointer is simply unset. When that
/// frame names a source file, the outcome asks to open it, replacing the
/// current view.
pub fn handle_stopped(state: &mut DebuggerState, e: &StoppedEvent, top_frame: Option<StackFrame>)
    -> (r: StoppedOutcome)
    ensures
        !final(state).is_running,
        final(state).stack_pointer == top_frame,
        r.status@ == spec_stopped_status(*e),
        match top_frame {
            Some(f) => r.open_path == f.source_path,
            None => r.open_path is None,
        },
{
    state.is_running = false;
    let open_path: Option<String> = match &top_frame {
        Some(f) => match &f.source_path {
            Some(p) => Some(p.clone()),
            None => None,
        },
        None => None,
    };
    state.stack_pointer = top_frame;
    let mut status = String::new();
    match e.thread_id {
        Some(n) => {
            push_str(&mut status, "Thread ");
            push_decimal_signed(&mut status, n);
        },
        None => {
            push_str(&mut status, "Target");
        },
    }
    push_str(&mut status, " stopped because of ");
    push_str(&mut status, e.reason.as_str());
    match &e.description {
        Some(d) => {
            push_str(&mut status, " ");
            push_str(&mut status, d.as_str());
        },
        None => {},
    }
    match &e.text {
        Some(t) => {
            push_str(&mut status, " ");
            push_str(&mut status, t.as_str());
        },
        None => {},
    }
    let all_stopped = match e.all_threads_stopped {
        Some(b) => b,
        None => false,
    };
    if all_stopped {
        push_str(&mut status, " (all threads stopped)");
    }
    proof {
        assert(status@ =~= spec_stopped_status(*e));
    }
    StoppedOutcome { status, open_path }
}

/// Handles an output event: composes the status line; the debugger state is
/// untouched.
pub fn handle_output(e: &OutputEvent) -> (status: String)
    ensures
        status@ == spec_output_status(*e),
{
    let mut status = String::new();
    match &e.category {
        Some(c) => {
            push_str(&mut status, "Debug (");
            push_str(&mut status, c.as_str());
            push_str(&mut status, "):");
        },
        None => {
            push_str(&mut status, "Debug:");
        },
    }
    push_str(&mut status, " ");
    push_str(&mut status, e.output.as_str());
    proof {
        assert(status@ =~= spec_output_status(*e));
    }
    status
}

/// The fixed status line for an initialized event.
pub fn initialized_status() -> (r: String)
    ensures
        r@ == "Debugged application started"@,
{
    "Debugged application started".to_owned()
}

/// How one item of the debug-adapter channel is to be treated.
#[derive(PartialEq, Eq, Structural, Clone, Copy, Debug)]
pub enum PayloadClass {
    /// Fetch the first thread's top stack frame, then handle the stop.
    HandleStopped,
    /// Compose and surface the output status line.
    HandleOutput,
    /// Surface the fixed initialized status line.
    HandleInitialized,
    /// An event kind the dispatcher does not interpret: ignored.
    Ignore,
    /// A response on the event channel: a programming-invariant violation,
    /// fatal to the loop.
    ResponseViolation,
    /// A request on the event channel: deliberately unsupported, surfaced
    /// as an error rather than silently answered.
    RequestUnsupported,
}

/// The class of one debug-adapter payload.
pub open spec fn spec_payload_class(p: DapPayload) -> PayloadClass {
    match p {
        DapPayload::Event(DapEvent::Stopped(_)) => PayloadClass::HandleStopped,
        DapPayload::Event(DapEvent::Output(_)) => PayloadClass::HandleOutput,
        DapPayload::Event(DapEvent::Initialized) => PayloadClass::HandleInitialized,
        DapPayload::Event(DapEvent::Other(_)) => PayloadClass::Ignore,
        DapPayload::Response => PayloadClass::ResponseViolation,
        DapPayload::Request => PayloadClass::RequestUnsupported,
    }
}

/// Classifies one debug-adapter payload.
pub fn classify_payload(p: &DapPayload) -> (c: PayloadClass)
    ensures
        c == spec_payload_class(*p),
{
    match p {
        DapPayload::Event(DapEvent::Stopped(_)) => PayloadClass::HandleStopped,
        DapPayload::Event(DapEvent::Output(_)) => PayloadClass::HandleOutput,
        DapPayload::Event(DapEvent::Initialized) => PayloadClass::HandleInitialized,
        DapPayload::Event(DapEvent::Other(_)) => PayloadClass::Ignore,
        DapPayload::Response => PayloadClass::ResponseViolation,
        DapPayload::Request => PayloadClass::RequestUnsupported,
    }
}

/// The thread whose stack is inspected after a stop: the first of the
/// fetched thread list, when the fetch brought any.
pub fn pick_main_thread(threads: &Vec<i64>) -> (r: Option<i64>)
    ensures
        r == (if threads@.len() > 0 {
            Some(threads@[0])
        } else {
            None::<i64>
        }),
{
    if threads.len() > 0 {
        Some(threads[0])
    } else {
        None
    }
}

/// The stack pointer taken after a stop: the top frame of the fetched
/// trace, when the fetch brought any.
pub fn top_frame(mut frames: Vec<StackFrame>) -> (r: Option<StackFrame>)
    ensures
        frames@.len() > 0 ==> r == Some(frames@[0]),
        frames@.len() == 0 ==> r is None,
{
    if frames.len() > 0 {
        let f = frames.remove(0);
        Some(f)
    } else {
        None
    }
}

/// Gates one debug-adapter payload on the presence of a debugger session:
/// while none is attached, every payload is dropped unlooked-at; with one,
/// the payload is classified as usual.
pub fn dispatch_payload(debugger_attached: bool, p: &DapPayload) -> (c: PayloadClass)
    ensures
        !debugger_attached ==> c == PayloadClass::Ignore,
        debugger_attached ==> c == spec_payload_class(*p),
{
    if debugger_attached {
        classify_payload(p)
    } else {
        PayloadClass::Ignore
    }
}

} // verus!
