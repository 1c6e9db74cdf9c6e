//! Routing of inbound language-server traffic: the dispatch table over
//! notification and method-call names, diagnostic application, progress
//! dispatch, and the reply owed for a progress-creation call.

use vstd::prelude::*;
use crate::diagnostics::{WireDiagnostic, spec_translate_batch, translate_batch};
use crate::editor::{EditorModel, Doc};
use crate::progress::{
    ProgressTracker, Token, WorkProgress, TokenV, slot_lookup, spec_progressing, merged_entry,
    fresh_entry, no_duplicate_keys, format_status, spec_progress_status,
};
use crate::text::str_eq;

verus! {

/// The notifications the dispatch table knows.
#[derive(PartialEq, Eq, Structural, Clone, Copy, Debug)]
pub enum NotificationKind {
    PublishDiagnostics,
    ShowMessage,
    LogMessage,
    Progress,
    Unknown,
}

/// Looks a notification method name up in the dispatch table; names not in
/// the table are logged by the caller and ignored.
pub fn notification_kind(method: &str) -> (k: NotificationKind)
    ensures
        k == NotificationKind::PublishDiagnostics <==> method@
            == "textDocument/publishDiagnostics"@,
        k == NotificationKind::ShowMessage <==> method@ == "window/showMessage"@,
        k == NotificationKind::LogMessage <==> method@ == "window/logMessage"@,
        k == NotificationKind::Progress <==> method@ == "$/progress"@,
{
    proof {
        reveal_strlit("textDocument/publishDiagnostics");
        reveal_strlit("window/showMessage");
        reveal_strlit("window/logMessage");
        reveal_strlit("$/progress");
        assert("textDocument/publishDiagnostics"@.len() == 31);
        assert("window/showMessage"@.len() == 18);
        assert("window/logMessage"@.len() == 17);
        assert("$/progress"@.len() == 10);
    }
    if str_eq(method, "textDocument/publishDiagnostics") {
        NotificationKind::PublishDiagnostics
    } else if str_eq(method, "window/showMessage") {
        NotificationKind::ShowMessage
    } else if str_eq(method, "window/logMessage") {
        NotificationKind::LogMessage
    } else if str_eq(method, "$/progress") {
        NotificationKind::Progress
    } else {
        NotificationKind::Unknown
    }
}

/// The method calls the dispatch table knows.
#[derive(PartialEq, Eq, Structural, Clone, Copy, Debug)]
pub enum MethodCallKind {
    WorkDoneProgressCreate,
    Unknown,
}

/// Looks a method-call name up in the dispatch table.
pub fn method_call_kind(method: &str) -> (k: MethodCallKind)
    ensures
        k == MethodCallKind::WorkDoneProgressCreate <==> method@
            == "window/workDoneProgress/create"@,
{
    if str_eq(method, "window/workDoneProgress/create") {
        MethodCallKind::WorkDoneProgressCreate
    } else {
        MethodCallKind::Unknown
    }
}

/// Applies a published diagnostics batch. The target document is resolved
/// by its normalized path; with no open document there, the whole batch is
/// discarded — nothing is buffered for documents not yet open. Each
/// diagnostic is translated independently; one whose wire positions lie out
/// of bounds is dropped, the rest of the batch is kept.
pub fn handle_publish_diagnostics(
    editor: &mut EditorModel,
    path: &str,
    batch: &Vec<WireDiagnostic>,
) -> (applied: bool)
    requires
        forall|j: int| 0 <= j < old(editor).docs@.len() ==> old(editor).docs@[j].text.wf(),
    ensures
        final(editor).servers == old(editor).servers,
        final(editor).scratch_buffers == old(editor).scratch_buffers,
        final(editor).status == old(editor).status,
        final(editor).close_requested == old(editor).close_requested,
        applied <==> (exists|i: int|
            0 <= i < old(editor).docs@.len() && old(editor).docs@[i].path@ == path@),
        !applied ==> final(editor).docs == old(editor).docs,
        applied ==> exists|i: int|
            {
                &&& 0 <= i < old(editor).docs@.len()
                &&& old(editor).docs@[i].path@ == path@
                &&& (forall|j: int| 0 <= j < i ==> old(editor).docs@[j].path@ != path@)
                &&& final(editor).docs@ == old(editor).docs@.update(
                    i,
                    Doc {
                        path: final(editor).docs@[i].path,
                        server_id: old(editor).docs@[i].server_id,
                        text: final(editor).docs@[i].text,
                        diagnostics: final(editor).docs@[i].diagnostics,
                    },
                )
                &&& final(editor).docs@[i].path@ == path@
                &&& final(editor).docs@[i].text == old(editor).docs@[i].text
                &&& final(editor).docs@[i].diagnostics@ == spec_translate_batch(
                    old(editor).docs@[i].text.line_lengths@,
                    batch@,
                )
            },
{
    let found = editor.find_doc_by_path(path);
    match found {
        Some(i) => {
            let ghost prev = editor.docs@;
            let recs = translate_batch(&editor.docs[i].text, batch);
            let mut doc = editor.docs.remove(i);
            doc.diagnostics = recs;
            editor.docs.insert(i, doc);
            proof {
                assert(editor.docs@ =~= prev.update(
                    i as int,
                    Doc {
                        path: editor.docs@[i as int].path,
                        server_id: prev[i as int].server_id,
                        text: editor.docs@[i as int].text,
                        diagnostics: editor.docs@[i as int].diagnostics,
                    },
                ));
            }
            true
        },
        None => false,
    }
}

/// The status parts one progress phase shows: the title only at a begin,
/// the message and percentage wherever present, nothing at a bare end.
pub open spec fn spec_progress_parts(w: WorkProgress) -> (
    Option<Seq<char>>,
    Option<Seq<char>>,
    Option<u32>,
) {
    match w {
        WorkProgress::Begin { title, message, percentage } => (
            Some(title@),
            match message {
                Some(m) => Some(m@),
                None => None,
            },
            percentage,
        ),
        WorkProgress::Report { message, percentage } => (
            None,
            match message {
                Some(m) => Some(m@),
                None => None,
            },
            percentage,
        ),
        WorkProgress::End { message } => (
            None,
            match message {
                Some(m) => Some(m@),
                None => None,
            },
            None,
        ),
    }
}

/// Handles one `$/progress` notification, as the tracker, busy indicators
/// and status line see it. An end without a message removes the entry,
/// stops the server's indicator when nothing of the server's remains, and
/// clears the status line. Any other phase computes the status text; an end
/// removes its entry, a begin or report is merged into the tracker. The
/// text reaches the status line only when the display flag is set; the
/// tracker is maintained either way.
pub fn handle_progress(
    tracker: &mut ProgressTracker,
    spinners: &mut BusyIndicators,
    editor: &mut EditorModel,
    display_messages: bool,
    sid: u64,
    token: Token,
    work: WorkProgress,
)
    ensures
        final(editor).docs == old(editor).docs,
        final(editor).servers == old(editor).servers,
        final(editor).scratch_buffers == old(editor).scratch_buffers,
        final(editor).close_requested == old(editor).close_requested,
        forall|s: u64, t: TokenV|
            !(s == sid && t == token@) ==> slot_lookup(final(tracker).slots@, s, t) == slot_lookup(
                old(tracker).slots@, s, t),
        work is End && no_duplicate_keys(old(tracker).slots@) ==> slot_lookup(
            final(tracker).slots@, sid, token@) is None,
        !(work is End) ==> slot_lookup(final(tracker).slots@, sid, token@) == Some(
            merged_entry(
                match slot_lookup(old(tracker).slots@, sid, token@) {
                    Some(e) => e,
                    None => fresh_entry(),
                },
                work,
            ),
        ),
        no_duplicate_keys(old(tracker).slots@) ==> no_duplicate_keys(final(tracker).slots@),
        work is End ==> (if spec_progressing(final(tracker).slots@, sid) {
            final(spinners).running@ == old(spinners).running@
        } else {
            !final(spinners).running@.contains(sid) && (forall|s: u64|
                s != sid ==> final(spinners).running@.contains(s) == old(spinners).running@.contains(s))
        }),
        !(work is End) ==> final(spinners).running@ == old(spinners).running@,
        (match work {
            WorkProgress::End { message: None } => final(editor).status is None,
            _ => {
                if display_messages {
                    match final(editor).status {
                        Some(s) => s@ == spec_progress_status(
                            token@,
                            spec_progress_parts(work).0,
                            spec_progress_parts(work).1,
                            spec_progress_parts(work).2,
                        ),
                        None => false,
                    }
                } else {
                    final(editor).status == old(editor).status
                }
            },
        }),
{
    let is_end = match &work {
        WorkProgress::End { .. } => true,
        _ => false,
    };
    let end_bare = match &work {
        WorkProgress::End { message: None } => true,
        _ => false,
    };
    if end_bare {
        tracker.end_progress(sid, &token);
        if !tracker.is_progressing(sid) {
            spinners.stop(sid);
        }
        editor.clear_status();
        return ;
    }
    let status = match &work {
        WorkProgress::Begin { title, message, percentage } => format_status(
            &token,
            Some(title),
            message.as_ref(),
            *percentage,
        ),
        WorkProgress::Report { message, percentage } => format_status(
            &token,
            None,
            message.as_ref(),
            *percentage,
        ),
        WorkProgress::End { message } => format_status(&token, None, message.as_ref(), None),
    };
    if is_end {
        tracker.end_progress(sid, &token);
        if !tracker.is_progressing(sid) {
            spinners.stop(sid);
        }
    } else {
        tracker.update(sid, token, work);
    }
    if display_messages {
        editor.set_status(status);
    }
}

/// Per-server busy indicators: the servers whose indicator is running.
pub struct BusyIndicators {
    pub running: Vec<u64>,
}

impl BusyIndicators {
    /// No indicator running.
    pub fn new() -> (r: BusyIndicators)
        ensures
            r.running@.len() == 0,
    {
        BusyIndicators { running: Vec::new() }
    }

    /// Whether the server's indicator is running.
    pub fn is_running(&self, sid: u64) -> (r: bool)
        ensures
            r == self.running@.contains(sid),
    {
        let mut i: usize = 0;
        while i < self.running.len()
            invariant
                i <= self.running@.len(),
                forall|j: int| 0 <= j < i ==> self.running@[j] != sid,
            decreases self.running@.len() - i,
        {
            if self.running[i] == sid {
                proof {
                    assert(self.running@[i as int] == sid);
                }
                return true;
            }
            i = i + 1;
        }
        proof {
            if self.running@.contains(sid) {
                let j = choose|j: int| 0 <= j < self.running@.len() && self.running@[j] == sid;
                assert(false);
            }
        }
        false
    }

    /// Starts the server's indicator when it is stopped.
    pub fn start(&mut self, sid: u64)
        ensures
            final(self).running@.contains(sid),
            forall|s: u64|
                s != sid ==> final(self).running@.contains(s) == old(self).running@.contains(s),
            old(self).running@.contains(sid) ==> final(self).running@ == old(self).running@,
    {
        if !self.is_running(sid) {
            let ghost prev = self.running@;
            self.running.push(sid);
            proof {
                assert(self.running@[self.running@.len() - 1] == sid);
                assert forall|s: u64| s != sid implies self.running@.contains(s)
                    == prev.contains(s) by {
                    if prev.contains(s) {
                        let j = choose|j: int| 0 <= j < prev.len() && prev[j] == s;
                        assert(self.running@[j] == s);
                    }
                    if self.running@.contains(s) {
                        let j = choose|j: int|
                            0 <= j < self.running@.len() && self.running@[j] == s;
                        assert(j < prev.len());
                        assert(prev[j] == s);
                    }
                }
            }
        }
    }

    /// Stops the server's indicator, wherever it was running.
    pub fn stop(&mut self, sid: u64)
        ensures
            !final(self).running@.contains(sid),
            forall|s: u64|
                s != sid ==> final(self).running@.contains(s) == old(self).running@.contains(s),
    {
        let mut out: Vec<u64> = Vec::new();
        let mut i: usize = 0;
        while i < self.running.len()
            invariant
                i <= self.running@.len(),
                !out@.contains(sid),
                forall|s: u64|
                    s != sid ==> out@.contains(s) == self.running@.subrange(0, i as int).contains(
                        s,
                    ),
            decreases self.running@.len() - i,
        {
            let v = self.running[i];
            let ghost outprev = out@;
            if v != sid {
                out.push(v);
            }
            proof {
                let sub1 = self.running@.subrange(0, i as int + 1);
                let sub0 = self.running@.subrange(0, i as int);
                assert(sub1 =~= sub0.push(v));
                assert forall|s: u64| s != sid implies out@.contains(s) == sub1.contains(s) by {
                    if s == v {
                        assert(out@[out@.len() - 1] == v);
                        assert(sub1[sub1.len() - 1] == v);
                    } else {
                        assert(out@.contains(s) == outprev.contains(s)) by {
                            if outprev.contains(s) {
                                let j = choose|j: int|
                                    0 <= j < outprev.len() && outprev[j] == s;
                                assert(out@[j] == s);
                            }
                            if out@.contains(s) {
                                let j = choose|j: int| 0 <= j < out@.len() && out@[j] == s;
                                if j < outprev.len() {
                                    assert(outprev[j] == s);
                                } else {
                                    assert(out@[j] == v);
                                }
                            }
                        }
                        assert(sub1.contains(s) == sub0.contains(s)) by {
                            if sub0.contains(s) {
                                let j = choose|j: int| 0 <= j < sub0.len() && sub0[j] == s;
                                assert(sub1[j] == s);
                            }
                            if sub1.contains(s) {
                                let j = choose|j: int| 0 <= j < sub1.len() && sub1[j] == s;
                                if j < sub0.len() {
                                    assert(sub0[j] == s);
                                } else {
                                    assert(sub1[j] == v);
                                }
                            }
                        }
                    }
                }
            }
            i = i + 1;
        }
        proof {
            assert(self.running@.subrange(0, self.running@.len() as int) =~= self.running@);
        }
        self.running = out;
    }
}

/// The reply owed to the server that asked to create a progress token.
#[derive(PartialEq, Eq, Structural, Clone, Copy, Debug)]
pub enum ReplyPlan {
    /// A document is bound to the server: reply success through its handle.
    Success,
    /// The server is known but no document is bound to it: reply the
    /// document-missing error.
    DocumentMissingError,
    /// The server itself is unknown: log and drop the reply.
    ServerUnknown,
}

/// What handling one method call came to.
#[derive(PartialEq, Eq, Structural, Clone, Copy, Debug)]
pub enum MethodCallOutcome {
    /// The progress entry was created; the reply to send stands inside.
    ProgressCreated(ReplyPlan),
    /// A method name outside the table: a protocol violation, an invariant
    /// of the wire the dispatcher treats as a programming failure, not as a
    /// user-facing error.
    ProtocolViolation,
}

/// The text of the document-missing reply error.
pub fn document_missing_message() -> (r: String)
    ensures
        r@ == "document missing"@,
{
    "document missing".to_owned()
}

/// Handles one inbound method call. Work-done progress creation creates the
/// tracker entry, makes sure the server's busy indicator runs, and owes the
/// originating connection a synchronous reply, resolved against the open
/// documents and the known servers. Any other method is a protocol
/// violation.
pub fn handle_method_call(
    tracker: &mut ProgressTracker,
    spinners: &mut BusyIndicators,
    editor: &EditorModel,
    sid: u64,
    method: &str,
    token: Token,
) -> (out: MethodCallOutcome)
    ensures
        method@ != "window/workDoneProgress/create"@ ==> out
            == MethodCallOutcome::ProtocolViolation && *final(tracker) == *old(tracker) && *final(spinners) == *old(spinners),
        method@ == "window/workDoneProgress/create"@ ==> {
            &&& slot_lookup(final(tracker).slots@, sid, token@) == Some(fresh_entry())
            &&& (forall|s: u64, t: TokenV|
                !(s == sid && t == token@) ==> slot_lookup(final(tracker).slots@, s, t)
                    == slot_lookup(old(tracker).slots@, s, t))
            &&& (no_duplicate_keys(old(tracker).slots@) ==> no_duplicate_keys(
                final(tracker).slots@,
            ))
            &&& final(spinners).running@.contains(sid)
            &&& (forall|s: u64|
                s != sid ==> final(spinners).running@.contains(s) == old(spinners).running@.contains(s))
            &&& out == MethodCallOutcome::ProgressCreated(
                if exists|i: int|
                    0 <= i < editor.docs@.len() && editor.docs@[i].server_id == Some(sid) {
                    ReplyPlan::Success
                } else if editor.servers@.contains(sid) {
                    ReplyPlan::DocumentMissingError
                } else {
                    ReplyPlan::ServerUnknown
                },
            )
        },
{
    match method_call_kind(method) {
        MethodCallKind::Unknown => MethodCallOutcome::ProtocolViolation,
        MethodCallKind::WorkDoneProgressCreate => {
            tracker.create(sid, token);
            spinners.start(sid);
            let plan = match editor.find_doc_for_server(sid) {
                Some(i) => {
                    proof {
                        assert(editor.docs@[i as int].server_id == Some(sid));
                    }
                    ReplyPlan::Success
                },
                None => {
                    if editor.knows_server(sid) {
                        ReplyPlan::DocumentMissingError
                    } else {
                        ReplyPlan::ServerUnknown
                    }
                },
            };
            MethodCallOutcome::ProgressCreated(plan)
        },
    }
}

} // verus!
