use dispatcher::args::{Args, ArgsError};
use dispatcher::args::parse_line_number;
use dispatcher::dap::{DapEvent, DapPayload, DebuggerState, OutputEvent, PayloadClass, StackFrame,
    StoppedEvent, classify_payload, handle_output, handle_stopped, initialized_status};
use dispatcher::diagnostics::{DocumentText, Severity, WireDiagnostic, WirePosition, WireRange,
    WireSeverity, map_severity, translate_batch, translate_diagnostic, translate_position};
use dispatcher::editor::{EditorModel, FileSpec, OpenOutcome, directory_error_message};
use dispatcher::jobs::{JobClass, JobRunner};
use dispatcher::progress::{ProgressTracker, Token, WorkProgress, format_status, token_eq};
use dispatcher::router::{BusyIndicators, MethodCallKind, MethodCallOutcome, NotificationKind,
    ReplyPlan, document_missing_message, handle_method_call, handle_progress,
    handle_publish_diagnostics, method_call_kind, notification_kind};
use dispatcher::dap::{dispatch_payload, pick_main_thread, top_frame};
use dispatcher::scheduler::{EventSource, InputItem, Phase, ReadySet, RenderThrottle,
    SessionSignal, SignalStep, StepPlan, TermEvent, TermPlan, after_dispatch, after_render,
    begin_iteration, finish_close, loop_step, plan_signal, plan_terminal_event,
    render_after_input, select_source};
use dispatcher::terminal::{TermCommand, TerminalSession};

fn ready(terminal: bool, signal: bool, lsp: bool, dap: bool, job: bool, job_wait: bool) -> ReadySet {
    ReadySet { terminal, signal, lsp, dap, job, job_wait }
}

#[test]
fn terminal_input_dispatched_first() {
    let r = ready(true, true, true, true, true, true);
    assert_eq!(select_source(&r), Some(EventSource::TerminalInput));
    let r = ready(true, false, true, false, false, true);
    assert_eq!(select_source(&r), Some(EventSource::TerminalInput));
}

#[test]
fn priority_order_without_terminal() {
    assert_eq!(
        select_source(&ready(false, true, true, true, true, true)),
        Some(EventSource::OsSignal)
    );
    assert_eq!(
        select_source(&ready(false, false, true, true, true, true)),
        Some(EventSource::LspMessage)
    );
    assert_eq!(
        select_source(&ready(false, false, false, true, true, true)),
        Some(EventSource::DapEvent)
    );
    assert_eq!(
        select_source(&ready(false, false, false, false, true, true)),
        Some(EventSource::JobCallback)
    );
    assert_eq!(
        select_source(&ready(false, false, false, false, false, true)),
        Some(EventSource::JobWaitCallback)
    );
    assert_eq!(select_source(&ready(false, false, false, false, false, false)), None);
}

#[test]
fn loop_step_close_wins() {
    let r = ready(true, true, true, true, true, true);
    assert_eq!(loop_step(true, &r), StepPlan::FinishAndClose);
    assert_eq!(loop_step(false, &r), StepPlan::Dispatch(EventSource::TerminalInput));
    let idle = ready(false, false, false, false, false, false);
    assert_eq!(loop_step(false, &idle), StepPlan::WaitForReady);
}

#[test]
fn burst_within_budget_renders_once_after_drain() {
    let mut t = RenderThrottle::new(0);
    let mut renders = 0;
    // five messages arrive within one frame budget; the queue drains only
    // at the last one
    for (now, empty) in [(1000, false), (2000, false), (3000, false), (4000, false), (5000, true)] {
        if t.after_lsp_message(now, empty) {
            renders += 1;
        }
    }
    assert_eq!(renders, 1);
    assert_eq!(t.last_render_micros, 5000);
}

#[test]
fn long_burst_renders_at_most_once_per_budget() {
    let mut t = RenderThrottle::new(0);
    let mut render_times = Vec::new();
    let mut now = 0;
    // a long burst, never drained, one message every 5 ms
    for _ in 0..20 {
        now += 5000;
        if t.after_lsp_message(now, false) {
            render_times.push(now);
        }
    }
    for pair in render_times.windows(2) {
        assert!(pair[1] - pair[0] > 16666);
    }
    assert!(!render_times.is_empty());
}

#[test]
fn render_after_input_respects_close() {
    assert!(render_after_input(true, false));
    assert!(!render_after_input(true, true));
    assert!(!render_after_input(false, false));
}

#[test]
fn terminal_event_plans() {
    assert_eq!(plan_terminal_event(&None), TermPlan::Fatal);
    assert_eq!(plan_terminal_event(&Some(InputItem::ReadFailure)), TermPlan::Fatal);
    assert_eq!(
        plan_terminal_event(&Some(InputItem::Event(TermEvent::Resize { width: 80, height: 24 }))),
        TermPlan::ResizeThenForward { width: 80, height: 24 }
    );
    assert_eq!(plan_terminal_event(&Some(InputItem::Event(TermEvent::Other))), TermPlan::Forward);
}

#[test]
fn suspend_restores_before_yield() {
    let steps = plan_signal(SessionSignal::Suspend);
    assert_eq!(
        steps,
        vec![SignalStep::SaveCursor, SignalStep::RestoreTerminal, SignalStep::YieldToOsDefault]
    );
}

#[test]
fn resume_claims_and_repaints() {
    let steps = plan_signal(SessionSignal::Resume);
    assert_eq!(
        steps,
        vec![
            SignalStep::ClaimTerminal,
            SignalStep::ResizeToCurrent,
            SignalStep::LoadCursor,
            SignalStep::Render
        ]
    );
}

#[test]
fn claim_commands_follow_mouse_config() {
    let mut s = TerminalSession::new(true);
    let cmds = s.claim();
    assert_eq!(
        cmds,
        vec![
            TermCommand::EnableRawMode,
            TermCommand::EnterAlternateScreen,
            TermCommand::EnableMouseCapture
        ]
    );
    let mut s = TerminalSession::new(false);
    let cmds = s.claim();
    assert_eq!(cmds, vec![TermCommand::EnableRawMode, TermCommand::EnterAlternateScreen]);
}

#[test]
fn restore_twice_is_safe() {
    let mut s = TerminalSession::new(true);
    let _ = s.claim();
    let first = s.restore();
    let second = s.restore();
    assert_eq!(first, second);
    assert_eq!(
        first,
        vec![
            TermCommand::ResetCursorShape,
            TermCommand::DisableMouseCapture,
            TermCommand::LeaveAlternateScreen,
            TermCommand::DisableRawMode
        ]
    );
    assert!(!s.raw_mode);
    assert!(!s.alternate_screen);
    assert!(!s.mouse_captured);
}

#[test]
fn progress_create_then_end_leaves_map_empty() {
    let mut tracker = ProgressTracker::new();
    let token = Token::Label(String::from("build"));
    tracker.create(7, token);
    assert!(tracker.is_progressing(7));
    assert_eq!(tracker.slots.len(), 1);
    let token = Token::Label(String::from("build"));
    tracker.end_progress(7, &token);
    assert!(!tracker.is_progressing(7));
    assert_eq!(tracker.slots.len(), 0);
}

#[test]
fn progress_update_on_missing_token_creates_it() {
    let mut tracker = ProgressTracker::new();
    tracker.update(
        3,
        Token::Number(5),
        WorkProgress::Report { message: Some(String::from("indexing")), percentage: Some(40) },
    );
    assert_eq!(tracker.slots.len(), 1);
    assert_eq!(tracker.slots[0].server_id, 3);
    assert!(token_eq(&tracker.slots[0].token, &Token::Number(5)));
    assert_eq!(tracker.slots[0].entry.title, None);
    assert_eq!(tracker.slots[0].entry.message, Some(String::from("indexing")));
    assert_eq!(tracker.slots[0].entry.percentage, Some(40));
}

#[test]
fn progress_update_merges_only_present_fields() {
    let mut tracker = ProgressTracker::new();
    tracker.update(
        1,
        Token::Number(9),
        WorkProgress::Begin {
            title: String::from("Build"),
            message: Some(String::from("starting")),
            percentage: Some(0),
        },
    );
    tracker.update(
        1,
        Token::Number(9),
        WorkProgress::Report { message: None, percentage: Some(60) },
    );
    let e = &tracker.slots[0].entry;
    assert_eq!(e.title, Some(String::from("Build")));
    assert_eq!(e.message, Some(String::from("starting")));
    assert_eq!(e.percentage, Some(60));
}

#[test]
fn status_formats_cover_all_eight() {
    let tok = Token::Label(String::from("t"));
    let title = String::from("Build");
    let msg = String::from("compiling");
    assert_eq!(format_status(&tok, Some(&title), Some(&msg), Some(50)), "[t] 50% Build - compiling");
    assert_eq!(format_status(&tok, Some(&title), None, Some(50)), "[t] 50% Build");
    assert_eq!(format_status(&tok, Some(&title), Some(&msg), None), "[t] Build - compiling");
    assert_eq!(format_status(&tok, None, Some(&msg), Some(50)), "[t] 50% compiling");
    assert_eq!(format_status(&tok, Some(&title), None, None), "[t] Build");
    assert_eq!(format_status(&tok, None, Some(&msg), None), "[t] compiling");
    assert_eq!(format_status(&tok, None, None, Some(50)), "[t] 50%");
    assert_eq!(format_status(&tok, None, None, None), "[t]");
}

#[test]
fn status_format_numeric_token() {
    let tok = Token::Number(-3);
    assert_eq!(format_status(&tok, None, None, Some(7)), "[-3] 7%");
    let tok = Token::Number(12);
    assert_eq!(format_status(&tok, None, None, None), "[12]");
}

#[test]
fn position_translation_exact_offsets() {
    // three lines of lengths 5, 0, 3; newlines count one unit each
    let text = DocumentText { line_lengths: vec![5, 0, 3] };
    assert_eq!(translate_position(&text, &WirePosition { line: 0, character: 0 }), Some(0));
    assert_eq!(translate_position(&text, &WirePosition { line: 0, character: 5 }), Some(5));
    assert_eq!(translate_position(&text, &WirePosition { line: 1, character: 0 }), Some(6));
    assert_eq!(translate_position(&text, &WirePosition { line: 2, character: 3 }), Some(10));
    assert_eq!(translate_position(&text, &WirePosition { line: 0, character: 6 }), None);
    assert_eq!(translate_position(&text, &WirePosition { line: 3, character: 0 }), None);
}

fn diag(l1: u32, c1: u32, l2: u32, c2: u32, msg: &str) -> WireDiagnostic {
    WireDiagnostic {
        range: WireRange {
            start: WirePosition { line: l1, character: c1 },
            end: WirePosition { line: l2, character: c2 },
        },
        message: String::from(msg),
        severity: Some(WireSeverity::Warning),
    }
}

#[test]
fn batch_drops_only_the_out_of_bounds_diagnostic() {
    let text = DocumentText { line_lengths: vec![10, 10, 10] };
    let batch = vec![
        diag(0, 0, 0, 5, "a"),
        diag(1, 2, 1, 4, "b"),
        diag(9, 0, 9, 1, "out of bounds"),
        diag(2, 0, 2, 10, "c"),
        diag(0, 7, 1, 3, "d"),
    ];
    let records = translate_batch(&text, &batch);
    assert_eq!(records.len(), 4);
    let messages: Vec<&str> = records.iter().map(|r| r.message.as_str()).collect();
    assert_eq!(messages, vec!["a", "b", "c", "d"]);
    assert_eq!(records[0].start, 0);
    assert_eq!(records[0].end, 5);
    assert_eq!(records[1].start, 13);
    assert_eq!(records[1].end, 15);
}

#[test]
fn single_diagnostic_translation() {
    let text = DocumentText { line_lengths: vec![4, 4] };
    let rec = translate_diagnostic(&text, &diag(1, 1, 1, 2, "m")).unwrap();
    assert_eq!(rec.start, 6);
    assert_eq!(rec.end, 7);
    assert_eq!(rec.line, 1);
    assert_eq!(rec.severity, Some(Severity::Warning));
    assert!(translate_diagnostic(&text, &diag(0, 0, 5, 0, "m")).is_none());
}

#[test]
fn severity_mapping() {
    assert_eq!(map_severity(&WireSeverity::Error), Severity::Error);
    assert_eq!(map_severity(&WireSeverity::Warning), Severity::Warning);
    assert_eq!(map_severity(&WireSeverity::Information), Severity::Info);
    assert_eq!(map_severity(&WireSeverity::Hint), Severity::Hint);
}

fn entry(path: &str, is_dir: bool) -> FileSpec {
    FileSpec { path: String::from(path), is_dir }
}

#[test]
fn opening_directory_later_errors_and_keeps_earlier_files() {
    let mut editor = EditorModel::new();
    let entries = vec![entry("a.txt", false), entry("some_dir/", true), entry("b.txt", false)];
    let outcome = editor.open_files(&entries);
    assert_eq!(outcome, OpenOutcome::DirectoryError);
    assert_eq!(editor.docs.len(), 1);
    assert_eq!(editor.docs[0].path, "a.txt");
    assert_eq!(editor.status, None);
    assert_eq!(
        directory_error_message(),
        "expected a path to file, found a directory. (to open a directory pass it as first argument)"
    );
}

#[test]
fn opening_no_files_gives_scratch_buffer() {
    let mut editor = EditorModel::new();
    let outcome = editor.open_files(&vec![]);
    assert_eq!(outcome, OpenOutcome::Scratch);
    assert_eq!(editor.scratch_buffers, 1);
    assert_eq!(editor.docs.len(), 0);
}

#[test]
fn opening_directory_first_gives_picker() {
    let mut editor = EditorModel::new();
    let outcome = editor.open_files(&vec![entry("dir/", true), entry("a.txt", false)]);
    assert_eq!(outcome, OpenOutcome::Picker);
    assert_eq!(editor.scratch_buffers, 1);
    assert_eq!(editor.docs.len(), 0);
}

#[test]
fn opening_all_files_reports_count() {
    let mut editor = EditorModel::new();
    let outcome = editor.open_files(&vec![entry("a.txt", false), entry("b.txt", false)]);
    assert_eq!(outcome, OpenOutcome::Loaded);
    assert_eq!(editor.docs.len(), 2);
    assert_eq!(editor.status, Some(String::from("Loaded 2 files.")));
}

#[test]
fn opening_same_file_twice_focuses_it() {
    let mut editor = EditorModel::new();
    let outcome = editor.open_files(&vec![entry("a.txt", false), entry("a.txt", false)]);
    assert_eq!(outcome, OpenOutcome::Loaded);
    assert_eq!(editor.docs.len(), 1);
    assert_eq!(editor.status, Some(String::from("Loaded 2 files.")));
}

#[test]
fn must_await_jobs_all_complete_before_shutdown() {
    let mut jobs = JobRunner::new();
    let fire = jobs.spawn(JobClass::FireAndForget);
    let m1 = jobs.spawn(JobClass::MustAwait);
    let m2 = jobs.spawn(JobClass::MustAwait);
    jobs.finish();
    assert!(jobs.must_await.is_empty());
    assert_eq!(jobs.invoked, vec![m1, m2]);
    assert_eq!(jobs.fire_and_forget, vec![fire]);
}

#[test]
fn job_callbacks_apply_in_readiness_order() {
    let mut jobs = JobRunner::new();
    let a = jobs.spawn(JobClass::FireAndForget);
    let b = jobs.spawn(JobClass::MustAwait);
    assert!(jobs.handle_callback(b));
    assert!(jobs.handle_callback(a));
    assert!(!jobs.handle_callback(99));
    assert_eq!(jobs.invoked, vec![b, a]);
    assert!(jobs.fire_and_forget.is_empty());
    assert!(jobs.must_await.is_empty());
}

#[test]
fn stopped_event_status_and_state() {
    let mut state = DebuggerState { is_running: true, stack_pointer: None };
    let event = StoppedEvent {
        thread_id: Some(1),
        reason: String::from("breakpoint"),
        description: Some(String::from("hit")),
        text: Some(String::from("main.rs:3")),
        all_threads_stopped: Some(true),
    };
    let frame = StackFrame {
        id: 0,
        name: String::from("main"),
        source_path: Some(String::from("/tmp/main.rs")),
    };
    let outcome = handle_stopped(&mut state, &event, Some(frame));
    assert!(!state.is_running);
    assert_eq!(
        outcome.status,
        "Thread 1 stopped because of breakpoint hit main.rs:3 (all threads stopped)"
    );
    assert_eq!(outcome.open_path, Some(String::from("/tmp/main.rs")));
}

#[test]
fn stopped_event_without_thread_or_frame() {
    let mut state = DebuggerState { is_running: true, stack_pointer: None };
    let event = StoppedEvent {
        thread_id: None,
        reason: String::from("pause"),
        description: None,
        text: None,
        all_threads_stopped: None,
    };
    let outcome = handle_stopped(&mut state, &event, None);
    assert_eq!(outcome.status, "Target stopped because of pause");
    assert_eq!(outcome.open_path, None);
    assert!(state.stack_pointer.is_none());
}

#[test]
fn output_event_status() {
    let with_category = OutputEvent {
        category: Some(String::from("stdout")),
        output: String::from("hello"),
    };
    assert_eq!(handle_output(&with_category), "Debug (stdout): hello");
    let generic = OutputEvent { category: None, output: String::from("hi") };
    assert_eq!(handle_output(&generic), "Debug: hi");
    assert_eq!(initialized_status(), "Debugged application started");
}

#[test]
fn payload_classification() {
    let stopped = StoppedEvent {
        thread_id: None,
        reason: String::new(),
        description: None,
        text: None,
        all_threads_stopped: None,
    };
    assert_eq!(
        classify_payload(&DapPayload::Event(DapEvent::Stopped(stopped))),
        PayloadClass::HandleStopped
    );
    assert_eq!(
        classify_payload(&DapPayload::Event(DapEvent::Initialized)),
        PayloadClass::HandleInitialized
    );
    assert_eq!(
        classify_payload(&DapPayload::Event(DapEvent::Other(String::from("custom")))),
        PayloadClass::Ignore
    );
    assert_eq!(classify_payload(&DapPayload::Response), PayloadClass::ResponseViolation);
    assert_eq!(classify_payload(&DapPayload::Request), PayloadClass::RequestUnsupported);
}

#[test]
fn notification_dispatch_table() {
    assert_eq!(
        notification_kind("textDocument/publishDiagnostics"),
        NotificationKind::PublishDiagnostics
    );
    assert_eq!(notification_kind("window/showMessage"), NotificationKind::ShowMessage);
    assert_eq!(notification_kind("window/logMessage"), NotificationKind::LogMessage);
    assert_eq!(notification_kind("$/progress"), NotificationKind::Progress);
    assert_eq!(notification_kind("workspace/configuration"), NotificationKind::Unknown);
}

#[test]
fn method_call_dispatch_table() {
    assert_eq!(
        method_call_kind("window/workDoneProgress/create"),
        MethodCallKind::WorkDoneProgressCreate
    );
    assert_eq!(method_call_kind("anything/else"), MethodCallKind::Unknown);
}

fn doc(path: &str, server: Option<u64>, lines: Vec<u32>) -> dispatcher::editor::Doc {
    dispatcher::editor::Doc {
        path: String::from(path),
        server_id: server,
        text: DocumentText { line_lengths: lines },
        diagnostics: Vec::new(),
    }
}

#[test]
fn publish_diagnostics_applies_to_matching_document() {
    let mut editor = EditorModel::new();
    editor.docs.push(doc("/p/a.rs", Some(1), vec![10, 10]));
    editor.docs.push(doc("/p/b.rs", Some(1), vec![10, 10]));
    let batch = vec![diag(0, 0, 0, 3, "one"), diag(9, 0, 9, 9, "bad")];
    let applied = handle_publish_diagnostics(&mut editor, "/p/b.rs", &batch);
    assert!(applied);
    assert!(editor.docs[0].diagnostics.is_empty());
    assert_eq!(editor.docs[1].diagnostics.len(), 1);
    assert_eq!(editor.docs[1].diagnostics[0].message, "one");
}

#[test]
fn publish_diagnostics_discards_batch_without_document() {
    let mut editor = EditorModel::new();
    editor.docs.push(doc("/p/a.rs", Some(1), vec![10]));
    let batch = vec![diag(0, 0, 0, 3, "one")];
    let applied = handle_publish_diagnostics(&mut editor, "/p/missing.rs", &batch);
    assert!(!applied);
    assert!(editor.docs[0].diagnostics.is_empty());
}

#[test]
fn progress_end_without_message_clears_status_and_spinner() {
    let mut tracker = ProgressTracker::new();
    let mut spinners = BusyIndicators::new();
    let mut editor = EditorModel::new();
    editor.set_status(String::from("old"));
    spinners.start(4);
    tracker.create(4, Token::Number(1));
    handle_progress(
        &mut tracker,
        &mut spinners,
        &mut editor,
        true,
        4,
        Token::Number(1),
        WorkProgress::End { message: None },
    );
    assert_eq!(editor.status, None);
    assert!(!spinners.is_running(4));
    assert!(!tracker.is_progressing(4));
}

#[test]
fn progress_report_updates_status_when_display_enabled() {
    let mut tracker = ProgressTracker::new();
    let mut spinners = BusyIndicators::new();
    let mut editor = EditorModel::new();
    handle_progress(
        &mut tracker,
        &mut spinners,
        &mut editor,
        true,
        2,
        Token::Label(String::from("idx")),
        WorkProgress::Report { message: Some(String::from("indexing")), percentage: Some(30) },
    );
    assert_eq!(editor.status, Some(String::from("[idx] 30% indexing")));
    assert!(tracker.is_progressing(2));
}

#[test]
fn progress_status_hidden_when_display_disabled() {
    let mut tracker = ProgressTracker::new();
    let mut spinners = BusyIndicators::new();
    let mut editor = EditorModel::new();
    handle_progress(
        &mut tracker,
        &mut spinners,
        &mut editor,
        false,
        2,
        Token::Label(String::from("idx")),
        WorkProgress::Report { message: Some(String::from("indexing")), percentage: Some(30) },
    );
    assert_eq!(editor.status, None);
    // the tracker is maintained regardless of the display flag
    assert!(tracker.is_progressing(2));
}

#[test]
fn progress_create_reply_resolution() {
    let mut tracker = ProgressTracker::new();
    let mut spinners = BusyIndicators::new();
    let mut editor = EditorModel::new();
    editor.docs.push(doc("/p/a.rs", Some(6), vec![1]));
    editor.servers.push(6);
    let out = handle_method_call(
        &mut tracker,
        &mut spinners,
        &editor,
        6,
        "window/workDoneProgress/create",
        Token::Number(1),
    );
    assert_eq!(out, MethodCallOutcome::ProgressCreated(ReplyPlan::Success));
    assert!(spinners.is_running(6));

    let mut editor = EditorModel::new();
    editor.servers.push(6);
    let out = handle_method_call(
        &mut tracker,
        &mut spinners,
        &editor,
        6,
        "window/workDoneProgress/create",
        Token::Number(2),
    );
    assert_eq!(out, MethodCallOutcome::ProgressCreated(ReplyPlan::DocumentMissingError));
    assert_eq!(document_missing_message(), "document missing");

    let editor = EditorModel::new();
    let out = handle_method_call(
        &mut tracker,
        &mut spinners,
        &editor,
        9,
        "window/workDoneProgress/create",
        Token::Number(3),
    );
    assert_eq!(out, MethodCallOutcome::ProgressCreated(ReplyPlan::ServerUnknown));
}

#[test]
fn unknown_method_call_is_protocol_violation() {
    let mut tracker = ProgressTracker::new();
    let mut spinners = BusyIndicators::new();
    let editor = EditorModel::new();
    let out = handle_method_call(
        &mut tracker,
        &mut spinners,
        &editor,
        1,
        "workspace/applyEdit",
        Token::Number(1),
    );
    assert_eq!(out, MethodCallOutcome::ProtocolViolation);
    assert!(tracker.slots.is_empty());
}

#[test]
fn args_grammar() {
    let tokens = vec![
        String::from("-v"),
        String::from("--line-no"),
        String::from("10"),
        String::from("a.txt"),
        String::from("-v"),
        String::from("b.txt"),
    ];
    let args = Args::parse_args(tokens).unwrap();
    assert_eq!(args.verbosity, 2);
    assert_eq!(args.open_at_line_no, Some(10));
    assert_eq!(args.files, vec![String::from("a.txt"), String::from("b.txt")]);
}

#[test]
fn args_bundled_verbosity_counts_each_v() {
    let args = Args::parse_args(vec![String::from("-vv"), String::from("-v")]).unwrap();
    assert_eq!(args.verbosity, 3);
    assert!(args.files.is_empty());
}

#[test]
fn args_short_line_flag() {
    let args = Args::parse_args(vec![String::from("-+"), String::from("7")]).unwrap();
    assert_eq!(args.open_at_line_no, Some(7));
}

#[test]
fn args_unknown_flag_is_rejected() {
    let err = Args::parse_args(vec![String::from("--bogus")]).unwrap_err();
    assert_eq!(err, ArgsError::UnrecognizedFlag { token: String::from("--bogus") });
    let err = Args::parse_args(vec![String::from("-x")]).unwrap_err();
    assert_eq!(err, ArgsError::UnrecognizedFlag { token: String::from("-x") });
}

#[test]
fn args_line_flag_without_value_is_rejected() {
    let err = Args::parse_args(vec![String::from("a.txt"), String::from("--line-no")]).unwrap_err();
    assert_eq!(err, ArgsError::MissingFlagValue { flag: String::from("--line-no") });
}

#[test]
fn args_lone_dash_is_a_file() {
    let args = Args::parse_args(vec![String::from("-")]).unwrap();
    assert_eq!(args.files, vec![String::from("-")]);
}

#[test]
fn args_bad_line_number_leaves_none() {
    let args = Args::parse_args(vec![String::from("--line-no"), String::from("x7")]).unwrap();
    assert_eq!(args.open_at_line_no, None);
    assert!(args.files.is_empty());
}

#[test]
fn line_number_parsing() {
    assert_eq!(parse_line_number("0"), Some(0));
    assert_eq!(parse_line_number("123"), Some(123));
    assert_eq!(parse_line_number("+10"), Some(10));
    assert_eq!(parse_line_number("+"), None);
    assert_eq!(parse_line_number("++1"), None);
    assert_eq!(parse_line_number(""), None);
    assert_eq!(parse_line_number("12a"), None);
    assert_eq!(parse_line_number("99999999999999999999999999"), None);
}

#[test]
fn dap_payloads_dropped_without_debugger() {
    assert_eq!(dispatch_payload(false, &DapPayload::Event(DapEvent::Initialized)), PayloadClass::Ignore);
    assert_eq!(dispatch_payload(false, &DapPayload::Request), PayloadClass::Ignore);
    assert_eq!(
        dispatch_payload(true, &DapPayload::Event(DapEvent::Initialized)),
        PayloadClass::HandleInitialized
    );
    assert_eq!(dispatch_payload(true, &DapPayload::Response), PayloadClass::ResponseViolation);
}

#[test]
fn phase_machine_walk() {
    let r = ready(false, false, true, false, false, false);
    let p = begin_iteration(Phase::Idle, false, &r);
    assert_eq!(p, Phase::Dispatching(EventSource::LspMessage));
    let p = after_dispatch(p, true);
    assert_eq!(p, Phase::Rendering);
    let p = after_render(p);
    assert_eq!(p, Phase::Idle);
    let p = begin_iteration(p, true, &r);
    assert_eq!(p, Phase::Closing);
    let p = finish_close(p, 2);
    assert_eq!(p, Phase::Closing);
    let p = finish_close(p, 0);
    assert_eq!(p, Phase::Closed);
}

#[test]
fn stop_fetch_picks_first_thread_and_top_frame() {
    assert_eq!(pick_main_thread(&vec![7, 8, 9]), Some(7));
    assert_eq!(pick_main_thread(&vec![]), None);
    let frames = vec![
        StackFrame { id: 1, name: String::from("inner"), source_path: None },
        StackFrame { id: 2, name: String::from("outer"), source_path: None },
    ];
    let top = top_frame(frames).unwrap();
    assert_eq!(top.id, 1);
    assert_eq!(top.name, "inner");
    assert!(top_frame(Vec::new()).is_none());
}
