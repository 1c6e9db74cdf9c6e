//! The terminal-mode lifecycle: raw input mode, the alternate screen buffer
//! and optional mouse capture are claimed together and restored together.
//! Restoration is total and idempotent, so it is safe to run it again on any
//! path that cannot know whether it already ran — in particular a crash
//! handler that tears the terminal down before the process exits.

use vstd::prelude::*;

verus! {

/// One terminal-mode command for the backend to perform.
#[derive(PartialEq, Eq, Structural, Clone, Copy, Debug)]
pub enum TermCommand {
    EnableRawMode,
    EnterAlternateScreen,
    EnableMouseCapture,
    ResetCursorShape,
    DisableMouseCapture,
    LeaveAlternateScreen,
    DisableRawMode,
}

/// What the session believes the terminal's modes to be, and whether the
/// configuration asks for mouse capture.
pub struct TerminalSession {
    pub raw_mode: bool,
    pub alternate_screen: bool,
    pub mouse_captured: bool,
    pub mouse_config: bool,
}

/// A session with every mode off.
pub open spec fn spec_restored(s: TerminalSession) -> bool {
    !s.raw_mode && !s.alternate_screen && !s.mouse_captured
}

/// A session with raw mode and the alternate screen on, and mouse capture
/// exactly as configured.
pub open spec fn spec_claimed(s: TerminalSession) -> bool {
    s.raw_mode && s.alternate_screen && s.mouse_captured == s.mouse_config
}

/// The state restoration leaves behind, whatever it started from.
pub open spec fn spec_restore(s: TerminalSession) -> TerminalSession {
    TerminalSession {
        raw_mode: false,
        alternate_screen: false,
        mouse_captured: false,
        mouse_config: s.mouse_config,
    }
}

/// The commands that claim the terminal: raw mode, then the alternate
/// screen, then mouse capture only when configured.
pub open spec fn spec_claim_commands(mouse: bool) -> Seq<TermCommand> {
    if mouse {
        seq![
            TermCommand::EnableRawMode,
            TermCommand::EnterAlternateScreen,
            TermCommand::EnableMouseCapture,
        ]
    } else {
        seq![TermCommand::EnableRawMode, TermCommand::EnterAlternateScreen]
    }
}

/// The commands that restore the terminal: reset the cursor shape, release
/// the mouse, leave the alternate screen, drop raw mode. The same sequence
/// whatever state the session is in, so running it twice is harmless.
pub open spec fn spec_restore_commands() -> Seq<TermCommand> {
    seq![
        TermCommand::ResetCursorShape,
        TermCommand::DisableMouseCapture,
        TermCommand::LeaveAlternateScreen,
        TermCommand::DisableRawMode,
    ]
}

impl TerminalSession {
    /// A new session, restored, remembering the mouse-capture configuration.
    pub fn new(mouse_config: bool) -> (r: TerminalSession)
        ensures
            spec_restored(r),
            r.mouse_config == mouse_config,
    {
        TerminalSession {
            raw_mode: false,
            alternate_screen: false,
            mouse_captured: false,
            mouse_config,
        }
    }

    /// Claims the terminal and hands back the commands to perform, in order.
    pub fn claim(&mut self) -> (cmds: Vec<TermCommand>)
        ensures
            spec_claimed(*final(self)),
            final(self).mouse_config == old(self).mouse_config,
            cmds@ == spec_claim_commands(old(self).mouse_config),
    {
        self.raw_mode = true;
        self.alternate_screen = true;
        let mut cmds: Vec<TermCommand> = Vec::new();
        cmds.push(TermCommand::EnableRawMode);
        cmds.push(TermCommand::EnterAlternateScreen);
        if self.mouse_config {
            self.mouse_captured = true;
            cmds.push(TermCommand::EnableMouseCapture);
        } else {
            self.mouse_captured = false;
        }
        proof {
            assert(cmds@ =~= spec_claim_commands(old(self).mouse_config));
        }
        cmds
    }

    /// Restores the terminal and hands back the commands to perform, in
    /// order. Total and idempotent: calling it on an already restored
    /// session succeeds and leaves the same state and the same commands.
    pub fn restore(&mut self) -> (cmds: Vec<TermCommand>)
        ensures
            *final(self) == spec_restore(*old(self)),
            cmds@ == spec_restore_commands(),
    {
        self.raw_mode = false;
        self.alternate_screen = false;
        self.mouse_captured = false;
        let mut cmds: Vec<TermCommand> = Vec::new();
        cmds.push(TermCommand::ResetCursorShape);
        cmds.push(TermCommand::DisableMouseCapture);
        cmds.push(TermCommand::LeaveAlternateScreen);
        cmds.push(TermCommand::DisableRawMode);
        proof {
            assert(cmds@ =~= spec_restore_commands());
        }
        cmds
    }
}

/// Terminal safety: restoring is idempotent. A second restoration — by a
/// crash handler, a suspend handler, or the ordinary shutdown path — leaves
/// exactly the state the first one left, and its command sequence is the
/// same fixed sequence, so the terminal is never left in raw or
/// alternate-screen mode whichever paths ran.
pub proof fn lemma_restore_idempotent(s: TerminalSession)
    ensures
        spec_restore(spec_restore(s)) == spec_restore(s),
        spec_restored(spec_restore(s)),
{
}

} // verus!
