//! Terminal events.

use vstd::prelude::*;
use crate::ansitypes::{
    Attr, C0_BEL, CharsetIndex, ClearMode, LineClearMode, Mode, StandardCharset, TabulationClearMode,
};
use crate::surface::Coord;

verus! {

/// The index of a session in the registry.
#[derive(Clone, Copy, Debug, PartialEq, Eq, Structural)]
pub struct PtyIndex(pub usize);

/// A count of rows, or a row number.
#[derive(Clone, Copy, Debug, PartialEq, Eq, Structural)]
pub struct Line(pub usize);

/// A count of columns, or a column number.
#[derive(Clone, Copy, Debug, PartialEq, Eq, Structural)]
pub struct Column(pub usize);

/// A terminal event.
///
/// `Host…` events state what the user asked for at the local terminal and
/// are meant for the input of the active session. `Pty…` events come from
/// the output of the session they name and change that session's screen.
/// The rest steer the event loop.
#[derive(Clone, Copy, Debug, PartialEq, Eq)]
pub enum Action {
    KeyInputReceived(u8),
    HostInput(char),
    HostControlInput(u8),
    HostDeleteKey,
    HostInsertKey,
    HostPageUpKey,
    HostPageDownKey,
    HostInsertBlank(Column),
    HostPutTabs(i64),
    HostBackspace,
    HostCarriageReturn,
    HostLineFeed,
    HostNewline,
    HostInsertBlankLines(Line),
    HostDeleteLines(Line),
    HostEraseCharacters(Column),
    HostDeleteCharacters(Column),
    HostClearLine(LineClearMode),
    HostClearScreen(ClearMode),
    HostClearTabs(TabulationClearMode),
    HostSubtitute,
    HostMouseInputReceived(u8),
    HostCursorGoto(Line, Column),
    HostCursorMoveUp(Line),
    HostCursorMoveDown(Line),
    HostCursorMoveForward(Column),
    HostCursorMoveBackward(Column),
    HostCursorMoveForwardTabs(Column),
    HostCursorMoveBackwardsTabs(Column),
    HostCursorMoveUpAndCarriageReturn(Column),
    HostCursorMoveDownAndCarriageReturn(Column),
    HostCursorSavePosition,
    HostCursorRestorePosition,
    /// One raw byte read from the transport of the session.
    PtyOutReceived(usize, u8),
    /// The session is to become the active one.
    PtyActiveChange(usize),
    /// The child process of the session has exited.
    PtyDead(usize),
    /// The session is to take on new dimensions.
    PtyResize(usize, Coord),
    PtyOutput(PtyIndex, char),
    PtyInsertBlank(PtyIndex, Column),
    PtyPutTabs(PtyIndex, i64),
    PtyBackspace(PtyIndex),
    PtyCarriageReturn(PtyIndex),
    PtyLineFeed(PtyIndex),
    PtyNewline(PtyIndex),
    PtyInsertBlankLines(PtyIndex, Line),
    PtyDeleteLines(PtyIndex, Line),
    PtyEraseCharacters(PtyIndex, Column),
    PtyDeleteCharacters(PtyIndex, Column),
    PtyClearLine(PtyIndex, LineClearMode),
    PtyClearScreen(PtyIndex, ClearMode),
    PtyClearTabs(PtyIndex, TabulationClearMode),
    PtySubtitute(PtyIndex),
    PtyBell(PtyIndex),
    PtySetHorizontalTabstop(PtyIndex),
    PtyVtScrollUp(PtyIndex, Line),
    PtyVtScrollDown(PtyIndex, Line),
    PtyReset(PtyIndex),
    PtyCursorGoto(PtyIndex, Line, Column),
    PtyCursorMoveUp(PtyIndex, Line),
    PtyCursorMoveDown(PtyIndex, Line),
    PtyCursorMoveForward(PtyIndex, Column),
    PtyCursorMoveBackward(PtyIndex, Column),
    PtyCursorMoveForwardTabs(PtyIndex, Column),
    PtyCursorMoveBackwardsTabs(PtyIndex, Column),
    PtyCursorMoveUpAndCarriageReturn(PtyIndex, Column),
    PtyCursorMoveDownAndCarriageReturn(PtyIndex, Column),
    PtyCursorSavePosition(PtyIndex),
    PtyCursorRestorePosition(PtyIndex),
    PtySetCursorStyle(PtyIndex),
    PtySetKeypadApplicationMode(PtyIndex),
    PtyUnsetKeypadApplicationMode(PtyIndex),
    PtySetActiveCharset(PtyIndex, CharsetIndex),
    PtyConfigureCharset(PtyIndex, CharsetIndex, StandardCharset),
    PtySetColor(PtyIndex, usize, (u8, u8, u8)),
    PtyResetColor(PtyIndex, usize),
    PtyDectest(PtyIndex),
    PtyReverseIndex(PtyIndex),
    PtyTerminalAttribute(PtyIndex, Attr),
    PtySetMode(PtyIndex, Mode),
    PtyUnsetMode(PtyIndex, Mode),
    /// Nothing to do. Stands for input that was recognised and means
    /// nothing here, so that it is seen rather than lost.
    Noop,
    /// The event loop has started.
    Startup,
    ModeChange,
}

impl Action {
    /// What an event decoded from the output of session `index` does to
    /// that session's screen.
    ///
    /// The decoder names what it reads in the words of the local terminal.
    /// Read from a session's output, an input character is a character to
    /// show, the bell byte rings the bell, and each editing or cursor event
    /// is the same event on the session's screen. Keys and every other
    /// event mean nothing to a screen and become `Noop`.
    pub open spec fn for_session_spec(self, index: PtyIndex) -> Action {
        match self {
            Action::HostInput(c) => Action::PtyOutput(index, c),
            Action::HostControlInput(byte) => if byte == C0_BEL {
                Action::PtyBell(index)
            } else {
                Action::Noop
            },
            Action::HostInsertBlank(n) => Action::PtyInsertBlank(index, n),
            Action::HostPutTabs(n) => Action::PtyPutTabs(index, n),
            Action::HostBackspace => Action::PtyBackspace(index),
            Action::HostCarriageReturn => Action::PtyCarriageReturn(index),
            Action::HostLineFeed => Action::PtyLineFeed(index),
            Action::HostNewline => Action::PtyNewline(index),
            Action::HostInsertBlankLines(n) => Action::PtyInsertBlankLines(index, n),
            Action::HostDeleteLines(n) => Action::PtyDeleteLines(index, n),
            Action::HostEraseCharacters(n) => Action::PtyEraseCharacters(index, n),
            Action::HostDeleteCharacters(n) => Action::PtyDeleteCharacters(index, n),
            Action::HostClearLine(mode) => Action::PtyClearLine(index, mode),
            Action::HostClearScreen(mode) => Action::PtyClearScreen(index, mode),
            Action::HostClearTabs(mode) => Action::PtyClearTabs(index, mode),
            Action::HostSubtitute => Action::PtySubtitute(index),
            Action::HostCursorGoto(row, column) => Action::PtyCursorGoto(index, row, column),
            Action::HostCursorMoveUp(n) => Action::PtyCursorMoveUp(index, n),
            Action::HostCursorMoveDown(n) => Action::PtyCursorMoveDown(index, n),
            Action::HostCursorMoveForward(n) => Action::PtyCursorMoveForward(index, n),
            Action::HostCursorMoveBackward(n) => Action::PtyCursorMoveBackward(index, n),
            Action::HostCursorMoveForwardTabs(n) => Action::PtyCursorMoveForwardTabs(index, n),
            Action::HostCursorMoveBackwardsTabs(n) => Action::PtyCursorMoveBackwardsTabs(index, n),
            Action::HostCursorMoveUpAndCarriageReturn(n) => Action::PtyCursorMoveUpAndCarriageReturn(index, n),
            Action::HostCursorMoveDownAndCarriageReturn(n) => Action::PtyCursorMoveDownAndCarriageReturn(
                index,
                n,
            ),
            Action::HostCursorSavePosition => Action::PtyCursorSavePosition(index),
            Action::HostCursorRestorePosition => Action::PtyCursorRestorePosition(index),
            _ => Action::Noop,
        }
    }

    /// Translates an event decoded from the output of session `index` into
    /// what it does to that session's screen.
    pub fn for_session(self, index: PtyIndex) -> (action: Action)
        ensures
            action == self.for_session_spec(index),
    {
        match self {
            Action::HostInput(c) => Action::PtyOutput(index, c),
            Action::HostControlInput(byte) => if byte == C0_BEL {
                Action::PtyBell(index)
            } else {
                Action::Noop
            },
            Action::HostInsertBlank(n) => Action::PtyInsertBlank(index, n),
            Action::HostPutTabs(n) => Action::PtyPutTabs(index, n),
            Action::HostBackspace => Action::PtyBackspace(index),
            Action::HostCarriageReturn => Action::PtyCarriageReturn(index),
            Action::HostLineFeed => Action::PtyLineFeed(index),
            Action::HostNewline => Action::PtyNewline(index),
            Action::HostInsertBlankLines(n) => Action::PtyInsertBlankLines(index, n),
            Action::HostDeleteLines(n) => Action::PtyDeleteLines(index, n),
            Action::HostEraseCharacters(n) => Action::PtyEraseCharacters(index, n),
            Action::HostDeleteCharacters(n) => Action::PtyDeleteCharacters(index, n),
            Action::HostClearLine(mode) => Action::PtyClearLine(index, mode),
            Action::HostClearScreen(mode) => Action::PtyClearScreen(index, mode),
            Action::HostClearTabs(mode) => Action::PtyClearTabs(index, mode),
            Action::HostSubtitute => Action::PtySubtitute(index),
            Action::HostCursorGoto(row, column) => Action::PtyCursorGoto(index, row, column),
            Action::HostCursorMoveUp(n) => Action::PtyCursorMoveUp(index, n),
            Action::HostCursorMoveDown(n) => Action::PtyCursorMoveDown(index, n),
            Action::HostCursorMoveForward(n) => Action::PtyCursorMoveForward(index, n),
            Action::HostCursorMoveBackward(n) => Action::PtyCursorMoveBackward(index, n),
            Action::HostCursorMoveForwardTabs(n) => Action::PtyCursorMoveForwardTabs(index, n),
            Action::HostCursorMoveBackwardsTabs(n) => Action::PtyCursorMoveBackwardsTabs(index, n),
            Action::HostCursorMoveUpAndCarriageReturn(n) => Action::PtyCursorMoveUpAndCarriageReturn(index, n),
            Action::HostCursorMoveDownAndCarriageReturn(n) => Action::PtyCursorMoveDownAndCarriageReturn(
                index,
                n,
            ),
            Action::HostCursorSavePosition => Action::PtyCursorSavePosition(index),
            Action::HostCursorRestorePosition => Action::PtyCursorRestorePosition(index),
            _ => Action::Noop,
        }
    }

    /// Whether the event states what the user asked for at the local
    /// terminal.
    pub open spec fn is_host_spec(self) -> bool {
        match self {
            Action::KeyInputReceived(_)
            | Action::HostInput(_)
            | Action::HostControlInput(_)
            | Action::HostDeleteKey
            | Action::HostInsertKey
            | Action::HostPageUpKey
            | Action::HostPageDownKey
            | Action::HostInsertBlank(_)
            | Action::HostPutTabs(_)
            | Action::HostBackspace
            | Action::HostCarriageReturn
            | Action::HostLineFeed
            | Action::HostNewline
            | Action::HostInsertBlankLines(_)
            | Action::HostDeleteLines(_)
            | Action::HostEraseCharacters(_)
            | Action::HostDeleteCharacters(_)
            | Action::HostClearLine(_)
            | Action::HostClearScreen(_)
            | Action::HostClearTabs(_)
            | Action::HostSubtitute
            | Action::HostMouseInputReceived(_)
            | Action::HostCursorGoto(_, _)
            | Action::HostCursorMoveUp(_)
            | Action::HostCursorMoveDown(_)
            | Action::HostCursorMoveForward(_)
            | Action::HostCursorMoveBackward(_)
            | Action::HostCursorMoveForwardTabs(_)
            | Action::HostCursorMoveBackwardsTabs(_)
            | Action::HostCursorMoveUpAndCarriageReturn(_)
            | Action::HostCursorMoveDownAndCarriageReturn(_)
            | Action::HostCursorSavePosition
            | Action::HostCursorRestorePosition => true,
            _ => false,
        }
    }

    /// The session whose screen the event changes, if it changes one.
    pub open spec fn screen_of_spec(self) -> Option<usize> {
        match self {
            Action::PtyOutput(PtyIndex(i), _)
            | Action::PtyInsertBlank(PtyIndex(i), _)
            | Action::PtyPutTabs(PtyIndex(i), _)
            | Action::PtyBackspace(PtyIndex(i))
            | Action::PtyCarriageReturn(PtyIndex(i))
            | Action::PtyLineFeed(PtyIndex(i))
            | Action::PtyNewline(PtyIndex(i))
            | Action::PtyInsertBlankLines(PtyIndex(i), _)
            | Action::PtyDeleteLines(PtyIndex(i), _)
            | Action::PtyEraseCharacters(PtyIndex(i), _)
            | Action::PtyDeleteCharacters(PtyIndex(i), _)
            | Action::PtyClearLine(PtyIndex(i), _)
            | Action::PtyClearScreen(PtyIndex(i), _)
            | Action::PtyClearTabs(PtyIndex(i), _)
            | Action::PtySubtitute(PtyIndex(i))
            | Action::PtyBell(PtyIndex(i))
            | Action::PtySetHorizontalTabstop(PtyIndex(i))
            | Action::PtyVtScrollUp(PtyIndex(i), _)
            | Action::PtyVtScrollDown(PtyIndex(i), _)
            | Action::PtyReset(PtyIndex(i))
            | Action::PtyCursorGoto(PtyIndex(i), _, _)
            | Action::PtyCursorMoveUp(PtyIndex(i), _)
            | Action::PtyCursorMoveDown(PtyIndex(i), _)
            | Action::PtyCursorMoveForward(PtyIndex(i), _)
            | Action::PtyCursorMoveBackward(PtyIndex(i), _)
            | Action::PtyCursorMoveForwardTabs(PtyIndex(i), _)
            | Action::PtyCursorMoveBackwardsTabs(PtyIndex(i), _)
            | Action::PtyCursorMoveUpAndCarriageReturn(PtyIndex(i), _)
            | Action::PtyCursorMoveDownAndCarriageReturn(PtyIndex(i), _)
            | Action::PtyCursorSavePosition(PtyIndex(i))
            | Action::PtyCursorRestorePosition(PtyIndex(i))
            | Action::PtySetCursorStyle(PtyIndex(i))
            | Action::PtySetKeypadApplicationMode(PtyIndex(i))
            | Action::PtyUnsetKeypadApplicationMode(PtyIndex(i))
            | Action::PtySetActiveCharset(PtyIndex(i), _)
            | Action::PtyConfigureCharset(PtyIndex(i), _, _)
            | Action::PtySetColor(PtyIndex(i), _, _)
            | Action::PtyResetColor(PtyIndex(i), _)
            | Action::PtyDectest(PtyIndex(i))
            | Action::PtyReverseIndex(PtyIndex(i))
            | Action::PtyTerminalAttribute(PtyIndex(i), _)
            | Action::PtySetMode(PtyIndex(i), _)
            | Action::PtyUnsetMode(PtyIndex(i), _) => Some(i),
            _ => None,
        }
    }

    /// Whether the event states what the user asked for at the local
    /// terminal.
    pub fn is_host(&self) -> (host: bool)
        ensures
            host == self.is_host_spec(),
    {
        match self {
            Action::KeyInputReceived(_)
            | Action::HostInput(_)
            | Action::HostControlInput(_)
            | Action::HostDeleteKey
            | Action::HostInsertKey
            | Action::HostPageUpKey
            | Action::HostPageDownKey
            | Action::HostInsertBlank(_)
            | Action::HostPutTabs(_)
            | Action::HostBackspace
            | Action::HostCarriageReturn
            | Action::HostLineFeed
            | Action::HostNewline
            | Action::HostInsertBlankLines(_)
            | Action::HostDeleteLines(_)
            | Action::HostEraseCharacters(_)
            | Action::HostDeleteCharacters(_)
            | Action::HostClearLine(_)
            | Action::HostClearScreen(_)
            | Action::HostClearTabs(_)
            | Action::HostSubtitute
            | Action::HostMouseInputReceived(_)
            | Action::HostCursorGoto(_, _)
            | Action::HostCursorMoveUp(_)
            | Action::HostCursorMoveDown(_)
            | Action::HostCursorMoveForward(_)
            | Action::HostCursorMoveBackward(_)
            | Action::HostCursorMoveForwardTabs(_)
            | Action::HostCursorMoveBackwardsTabs(_)
            | Action::HostCursorMoveUpAndCarriageReturn(_)
            | Action::HostCursorMoveDownAndCarriageReturn(_)
            | Action::HostCursorSavePosition
            | Action::HostCursorRestorePosition => true,
            _ => false,
        }
    }

    /// The session whose screen the event changes, if it changes one.
    pub fn screen_of(&self) -> (index: Option<usize>)
        ensures
            index == self.screen_of_spec(),
    {
        match self {
            Action::PtyOutput(PtyIndex(i), _)
            | Action::PtyInsertBlank(PtyIndex(i), _)
            | Action::PtyPutTabs(PtyIndex(i), _)
            | Action::PtyBackspace(PtyIndex(i))
            | Action::PtyCarriageReturn(PtyIndex(i))
            | Action::PtyLineFeed(PtyIndex(i))
            | Action::PtyNewline(PtyIndex(i))
            | Action::PtyInsertBlankLines(PtyIndex(i), _)
            | Action::PtyDeleteLines(PtyIndex(i), _)
            | Action::PtyEraseCharacters(PtyIndex(i), _)
            | Action::PtyDeleteCharacters(PtyIndex(i), _)
            | Action::PtyClearLine(PtyIndex(i), _)
            | Action::PtyClearScreen(PtyIndex(i), _)
            | Action::PtyClearTabs(PtyIndex(i), _)
            | Action::PtySubtitute(PtyIndex(i))
            | Action::PtyBell(PtyIndex(i))
            | Action::PtySetHorizontalTabstop(PtyIndex(i))
            | Action::PtyVtScrollUp(PtyIndex(i), _)
            | Action::PtyVtScrollDown(PtyIndex(i), _)
            | Action::PtyReset(PtyIndex(i))
            | Action::PtyCursorGoto(PtyIndex(i), _, _)
            | Action::PtyCursorMoveUp(PtyIndex(i), _)
            | Action::PtyCursorMoveDown(PtyIndex(i), _)
            | Action::PtyCursorMoveForward(PtyIndex(i), _)
            | Action::PtyCursorMoveBackward(PtyIndex(i), _)
            | Action::PtyCursorMoveForwardTabs(PtyIndex(i), _)
            | Action::PtyCursorMoveBackwardsTabs(PtyIndex(i), _)
            | Action::PtyCursorMoveUpAndCarriageReturn(PtyIndex(i), _)
            | Action::PtyCursorMoveDownAndCarriageReturn(PtyIndex(i), _)
            | Action::PtyCursorSavePosition(PtyIndex(i))
            | Action::PtyCursorRestorePosition(PtyIndex(i))
            | Action::PtySetCursorStyle(PtyIndex(i))
            | Action::PtySetKeypadApplicationMode(PtyIndex(i))
            | Action::PtyUnsetKeypadApplicationMode(PtyIndex(i))
            | Action::PtySetActiveCharset(PtyIndex(i), _)
            | Action::PtyConfigureCharset(PtyIndex(i), _, _)
            | Action::PtySetColor(PtyIndex(i), _, _)
            | Action::PtyResetColor(PtyIndex(i), _)
            | Action::PtyDectest(PtyIndex(i))
            | Action::PtyReverseIndex(PtyIndex(i))
            | Action::PtyTerminalAttribute(PtyIndex(i), _)
            | Action::PtySetMode(PtyIndex(i), _)
            | Action::PtyUnsetMode(PtyIndex(i), _) => Some(*i),
            _ => None,
        }
    }
}

} // verus!
