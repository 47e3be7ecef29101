//! The control bytes and the mode, charset and attribute vocabularies that
//! terminal events are phrased in.

use vstd::prelude::*;
use crate::buffer::Color;

verus! {

/// Bell.
pub const C0_BEL: u8 = 0x07;

/// Backspace.
pub const C0_BS: u8 = 0x08;

/// Horizontal tabulation.
pub const C0_HT: u8 = 0x09;

/// Line feed.
pub const C0_LF: u8 = 0x0A;

/// Vertical tabulation.
pub const C0_VT: u8 = 0x0B;

/// Form feed.
pub const C0_FF: u8 = 0x0C;

/// Carriage return.
pub const C0_CR: u8 = 0x0D;

/// Cancel: aborts a control sequence.
pub const C0_CAN: u8 = 0x18;

/// Substitute: aborts a control sequence and stands for a lost character.
pub const C0_SUB: u8 = 0x1A;

/// Escape: starts a control sequence.
pub const C0_ESC: u8 = 0x1B;

/// Delete.
pub const C0_DEL: u8 = 0x7F;

/// Next line, from the C1 set.
pub const C1_NEL: u8 = 0x85;

/// Which part of a line to clear.
#[derive(Clone, Copy, Debug, PartialEq, Eq, Structural)]
pub enum LineClearMode {
    /// From the cursor to the end of the line.
    Right,
    /// From the start of the line to the cursor.
    Left,
    /// The whole line.
    All,
}

/// Which part of the screen to clear.
#[derive(Clone, Copy, Debug, PartialEq, Eq, Structural)]
pub enum ClearMode {
    /// From the cursor to the end of the screen.
    Below,
    /// From the start of the screen to the cursor.
    Above,
    /// The whole screen.
    All,
    /// The scrollback.
    Saved,
}

/// Which tab stops to clear.
#[derive(Clone, Copy, Debug, PartialEq, Eq, Structural)]
pub enum TabulationClearMode {
    /// The tab stop at the cursor.
    Current,
    /// Every tab stop.
    All,
}

/// One of the four character set slots.
#[derive(Clone, Copy, Debug, PartialEq, Eq, Structural)]
pub enum CharsetIndex {
    G0,
    G1,
    G2,
    G3,
}

/// A character set that can be put in a slot.
#[derive(Clone, Copy, Debug, PartialEq, Eq, Structural)]
pub enum StandardCharset {
    Ascii,
    SpecialCharacterAndLineDrawing,
}

/// A terminal mode that can be set or unset.
#[derive(Clone, Copy, Debug, PartialEq, Eq, Structural)]
pub enum Mode {
    CursorKeys,
    Insert,
    Origin,
    LineWrap,
    BlinkingCursor,
    LineFeedNewLine,
    ShowCursor,
    ReportMouseClicks,
    ReportFocusInOut,
    BracketedPaste,
    SwapScreenAndSetRestoreCursor,
}

/// A character attribute.
#[derive(Clone, Copy, Debug, PartialEq, Eq, Structural)]
pub enum Attr {
    Reset,
    Bold,
    Dim,
    Italic,
    Underscore,
    Reverse,
    Hidden,
    CancelBold,
    CancelItalic,
    CancelUnderline,
    CancelReverse,
    CancelHidden,
    Foreground(Color),
    Background(Color),
}

} // verus!
