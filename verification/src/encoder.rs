//! From the events of the local terminal to the bytes a child shell reads.

use vstd::prelude::*;
use vstd::utf8::encode_scalar;
use crate::ansitypes::{C0_BS, C0_CR, C0_LF};
use crate::event::Action;

verus! {

/// The decimal digits of `n`, most significant first, without leading
/// zeros.
pub open spec fn decimal(n: nat) -> Seq<u8>
    decreases n,
{
    if n < 10 {
        seq![(0x30 + n) as u8]
    } else {
        decimal(n / 10).push((0x30 + n % 10) as u8)
    }
}

/// The control sequence that moves the cursor by `n` in the direction that
/// `final_byte` names: `ESC [`, the digits of `n`, and the final byte.
pub open spec fn cursor_sequence(n: u16, final_byte: u8) -> Seq<u8> {
    seq![0x1Bu8, 0x5Bu8] + decimal(n as nat) + seq![final_byte]
}

/// The control sequence of the delete key: `ESC [ 3 ~`.
pub open spec fn delete_key_sequence() -> Seq<u8> {
    seq![0x1Bu8, 0x5Bu8, 0x33u8, 0x7Eu8]
}

/// The bytes that tell a child shell what `action` asks for.
///
/// An input character is sent in UTF-8 and a control byte as it is;
/// carriage return, line feed and backspace are sent as their control
/// byte; a cursor move is sent as its control sequence, with its count
/// cut to 16 bits; the delete key is sent as its control sequence. No
/// other event sends anything.
pub open spec fn console_input_spec(action: Action) -> Seq<u8> {
    match action {
        Action::HostInput(c) => encode_scalar(c as u32),
        Action::HostControlInput(byte) => seq![byte],
        Action::HostCarriageReturn => seq![C0_CR],
        Action::HostLineFeed => seq![C0_LF],
        Action::HostBackspace => seq![C0_BS],
        Action::HostCursorMoveForward(cols) => cursor_sequence((cols.0 % 0x10000) as u16, 0x43),
        Action::HostCursorMoveBackward(cols) => cursor_sequence((cols.0 % 0x10000) as u16, 0x44),
        Action::HostCursorMoveUp(rows) => cursor_sequence((rows.0 % 0x10000) as u16, 0x41),
        Action::HostCursorMoveDown(rows) => cursor_sequence((rows.0 % 0x10000) as u16, 0x42),
        Action::HostDeleteKey => delete_key_sequence(),
        _ => Seq::empty(),
    }
}

/// `ansi_escapes::CursorUp`, formatted: `ESC [`, the count in decimal, `A`.
#[verifier::external_body]
fn cursor_up(n: u16) -> (bytes: Vec<u8>)
    ensures
        bytes@ == cursor_sequence(n, 0x41),
{
    format!("{}", ansi_escapes::CursorUp(n)).into_bytes()
}

/// `ansi_escapes::CursorDown`, formatted: `ESC [`, the count in decimal, `B`.
#[verifier::external_body]
fn cursor_down(n: u16) -> (bytes: Vec<u8>)
    ensures
        bytes@ == cursor_sequence(n, 0x42),
{
    format!("{}", ansi_escapes::CursorDown(n)).into_bytes()
}

/// `ansi_escapes::CursorForward`, formatted: `ESC [`, the count in decimal,
/// `C`.
#[verifier::external_body]
fn cursor_forward(n: u16) -> (bytes: Vec<u8>)
    ensures
        bytes@ == cursor_sequence(n, 0x43),
{
    format!("{}", ansi_escapes::CursorForward(n)).into_bytes()
}

/// `ansi_escapes::CursorBackward`, formatted: `ESC [`, the count in
/// decimal, `D`.
#[verifier::external_body]
fn cursor_backward(n: u16) -> (bytes: Vec<u8>)
    ensures
        bytes@ == cursor_sequence(n, 0x44),
{
    format!("{}", ansi_escapes::CursorBackward(n)).into_bytes()
}

/// `char::encode_utf8` of the standard library: the UTF-8 encoding of one
/// character.
#[verifier::external_body]
fn encode_char(c: char) -> (bytes: Vec<u8>)
    ensures
        bytes@ == encode_scalar(c as u32),
{
    let mut buf = [0u8; 4];
    c.encode_utf8(&mut buf).as_bytes().to_vec()
}

/// The bytes to write to the active session for an event of the local
/// terminal.
pub fn console_input(action: Action) -> (bytes: Vec<u8>)
    ensures
        bytes@ == console_input_spec(action),
{
    match action {
        Action::HostInput(c) => encode_char(c),
        Action::HostControlInput(byte) => {
            let mut bytes: Vec<u8> = Vec::new();
            bytes.push(byte);
            assert(bytes@ =~= seq![byte]);
            bytes
        },
        Action::HostCarriageReturn => {
            let mut bytes: Vec<u8> = Vec::new();
            bytes.push(C0_CR);
            assert(bytes@ =~= seq![C0_CR]);
            bytes
        },
        Action::HostLineFeed => {
            let mut bytes: Vec<u8> = Vec::new();
            bytes.push(C0_LF);
            assert(bytes@ =~= seq![C0_LF]);
            bytes
        },
        Action::HostBackspace => {
            let mut bytes: Vec<u8> = Vec::new();
            bytes.push(C0_BS);
            assert(bytes@ =~= seq![C0_BS]);
            bytes
        },
        Action::HostCursorMoveForward(cols) => cursor_forward((cols.0 % 0x10000) as u16),
        Action::HostCursorMoveBackward(cols) => cursor_backward((cols.0 % 0x10000) as u16),
        Action::HostCursorMoveUp(rows) => cursor_up((rows.0 % 0x10000) as u16),
        Action::HostCursorMoveDown(rows) => cursor_down((rows.0 % 0x10000) as u16),
        Action::HostDeleteKey => {
            let mut bytes: Vec<u8> = Vec::new();
            bytes.push(0x1B);
            bytes.push(0x5B);
            bytes.push(0x33);
            bytes.push(0x7E);
            assert(bytes@ =~= delete_key_sequence());
            bytes
        },
        _ => {
            let bytes: Vec<u8> = Vec::new();
            assert(bytes@ =~= Seq::<u8>::empty());
            bytes
        },
    }
}

} // verus!
