//! What the encoder sends, the decoder reads back.
//!
//! The bytes that the local terminal's events are sent as are themselves
//! terminal input. For every event that can come back at all, decoding
//! the bytes it is sent as gives exactly that event.

use vstd::prelude::*;
use vstd::utf8::{
    char_is_scalar, char_u32_cast, encode_scalar, encode_utf8, encode_utf8_first_scalar, has_width_1_encoding,
    has_width_2_encoding, has_width_3_encoding,
};
use crate::ansitypes::C0_ESC;
use crate::decoder::{DecoderState, execute_spec, lemma_run_one, lemma_run_push, utf8_width};
use crate::encoder::{console_input_spec, cursor_sequence, decimal};
use crate::event::Action;

verus! {

/// Whether `action` is an event that its own bytes decode to.
///
/// These are the printable input characters; the control bytes that have
/// no event of their own and start no sequence or character; carriage
/// return, line feed, backspace and the delete key; and the cursor moves
/// with a count from 1 to 65535.
pub open spec fn echoes(action: Action) -> bool {
    match action {
        Action::HostInput(c) => c as u32 >= 0x20 && c as u32 != 0x7F,
        Action::HostControlInput(byte) => {
            &&& execute_spec(byte) == Action::HostControlInput(byte)
            &&& byte != C0_ESC
            &&& byte < 0x20 || (byte >= 0x80 && utf8_width(byte) == 0)
        },
        Action::HostCarriageReturn | Action::HostLineFeed | Action::HostBackspace | Action::HostDeleteKey => true,
        Action::HostCursorMoveForward(n) | Action::HostCursorMoveBackward(n) => 1 <= n.0 <= 65535,
        Action::HostCursorMoveUp(n) | Action::HostCursorMoveDown(n) => 1 <= n.0 <= 65535,
        _ => false,
    }
}

/// The state of a control sequence that has read nothing yet.
pub open spec fn csi_start() -> DecoderState {
    DecoderState::Csi { params: Seq::empty(), param: 0, collecting: false, ignoring: false }
}

/// Reading the decimal digits of a count inside a control sequence leaves
/// the count as the parameter being read, and gives no event.
pub proof fn lemma_digits(n: nat)
    requires
        1 <= n <= 65535,
    ensures
        csi_start().run(decimal(n)) == (
            DecoderState::Csi { params: Seq::empty(), param: n as i64, collecting: true, ignoring: false },
            Seq::<Action>::empty(),
        ),
    decreases n,
{
    if n < 10 {
        lemma_run_one(csi_start(), (0x30 + n) as u8);
    } else {
        let shorter = (n / 10) as nat;
        let digit = (0x30 + n % 10) as u8;
        lemma_digits(shorter);
        lemma_run_push(csi_start(), decimal(shorter), digit);
        assert(csi_start().run(decimal(n)).1 =~= Seq::<Action>::empty());
    }
}

/// Decoding the control sequence of a cursor move with a count from 1 to
/// 65535 gives the one event that the final byte and the count stand for.
pub proof fn lemma_cursor_sequence(n: u16, final_byte: u8)
    requires
        1 <= n,
        0x40 <= final_byte < 0x7F,
    ensures
        DecoderState::Ground.run(cursor_sequence(n, final_byte)) == (
            DecoderState::Ground,
            seq![crate::decoder::csi_spec(seq![n as i64], final_byte as char)],
        ),
{
    let head = seq![0x1Bu8, 0x5Bu8];
    let ground = DecoderState::Ground;
    assert(head =~= seq![0x1Bu8].push(0x5Bu8));
    lemma_run_one(ground, 0x1B);
    lemma_run_push(ground, seq![0x1Bu8], 0x5B);
    assert(ground.run(head).0 == csi_start());
    assert(ground.run(head).1 =~= Seq::<Action>::empty());
    lemma_digits(n as nat);
    crate::decoder::lemma_run_concat(ground, head, decimal(n as nat));
    let body = head + decimal(n as nat);
    assert(ground.run(body).1 =~= Seq::<Action>::empty());
    assert(cursor_sequence(n, final_byte) =~= body.push(final_byte));
    lemma_run_push(ground, body, final_byte);
    assert(Seq::<i64>::empty().push(n as i64) =~= seq![n as i64]);
    let last = ground.run(body).0.step(final_byte).1;
    assert(Seq::<Action>::empty() + last =~= last);
}

/// A count that is left out or zero stands for one: decoding `ESC [` and
/// a final byte, with nothing or with a single `0` between them, gives the
/// event that the same sequence with the count 1 gives.
pub proof fn lemma_count_defaults_to_one(final_byte: u8)
    requires
        0x40 <= final_byte < 0x7F,
    ensures
        DecoderState::Ground.run(seq![0x1Bu8, 0x5Bu8, final_byte]) == DecoderState::Ground.run(
            cursor_sequence(1, final_byte),
        ),
        DecoderState::Ground.run(seq![0x1Bu8, 0x5Bu8, 0x30u8, final_byte]) == DecoderState::Ground.run(
            cursor_sequence(1, final_byte),
        ),
{
    let ground = DecoderState::Ground;
    lemma_cursor_sequence(1, final_byte);
    let head = seq![0x1Bu8].push(0x5B);
    lemma_run_one(ground, 0x1B);
    lemma_run_push(ground, seq![0x1Bu8], 0x5B);
    assert(ground.run(head).1 =~= Seq::<Action>::empty());
    lemma_run_push(ground, head, final_byte);
    assert(head.push(final_byte) =~= seq![0x1Bu8, 0x5Bu8, final_byte]);
    let bare = ground.run(head).0.step(final_byte).1;
    assert(Seq::<Action>::empty() + bare =~= bare);
    lemma_run_push(ground, head, 0x30);
    assert(ground.run(head.push(0x30)).1 =~= Seq::<Action>::empty());
    lemma_run_push(ground, head.push(0x30), final_byte);
    assert(head.push(0x30).push(final_byte) =~= seq![0x1Bu8, 0x5Bu8, 0x30u8, final_byte]);
    let zero = ground.run(head.push(0x30)).0.step(final_byte).1;
    assert(Seq::<Action>::empty() + zero =~= zero);
    assert(Seq::<i64>::empty().push(0i64) =~= seq![0i64]);
}

/// Decoding the UTF-8 encoding of a printable character gives that
/// character as input.
pub proof fn lemma_character(c: char)
    requires
        c as u32 >= 0x20,
        c as u32 != 0x7F,
    ensures
        DecoderState::Ground.run(encode_scalar(c as u32)) == (DecoderState::Ground, seq![Action::HostInput(c)]),
{
    let ground = DecoderState::Ground;
    let chars = seq![c];
    let bytes = encode_scalar(c as u32);
    char_is_scalar(c);
    encode_utf8_first_scalar(chars);
    assert(chars.drop_first() =~= Seq::<char>::empty());
    assert(encode_utf8(chars.drop_first()) =~= Seq::<u8>::empty());
    assert(encode_utf8(chars) =~= bytes);
    char_u32_cast(c, c as u32);
    if has_width_1_encoding(c as u32) {
        let b0 = bytes[0];
        assert(bytes =~= seq![b0]);
        lemma_run_one(ground, b0);
        assert((b0 & 0x7F) as u32 == c as u32);
        assert(b0 & 0x7F == b0) by (bit_vector)
            requires
                b0 <= 0x7F,
        ;
        char_u32_cast(c, b0 as u32);
        assert(b0 as char == c);
    } else if has_width_2_encoding(c as u32) {
        let b0 = bytes[0];
        let b1 = bytes[1];
        assert(bytes =~= seq![b0].push(b1));
        lemma_run_one(ground, b0);
        lemma_run_push(ground, seq![b0], b1);
        assert(seq![b0].push(b1) =~= bytes);
        let last = ground.run(seq![b0]).0.step(b1).1;
        assert(Seq::<Action>::empty() + last =~= last);
    } else if has_width_3_encoding(c as u32) {
        let b0 = bytes[0];
        let b1 = bytes[1];
        let b2 = bytes[2];
        assert(bytes =~= seq![b0].push(b1).push(b2));
        lemma_run_one(ground, b0);
        lemma_run_push(ground, seq![b0], b1);
        lemma_run_push(ground, seq![b0].push(b1), b2);
        assert(seq![b0].push(b1) =~= seq![b0, b1]);
        assert(seq![b0, b1].push(b2) =~= bytes);
        let last = ground.run(seq![b0].push(b1)).0.step(b2).1;
        assert(ground.run(seq![b0].push(b1)).1 =~= Seq::<Action>::empty());
        assert(Seq::<Action>::empty() + last =~= last);
    } else {
        let b0 = bytes[0];
        let b1 = bytes[1];
        let b2 = bytes[2];
        let b3 = bytes[3];
        assert(bytes =~= seq![b0].push(b1).push(b2).push(b3));
        lemma_run_one(ground, b0);
        lemma_run_push(ground, seq![b0], b1);
        lemma_run_push(ground, seq![b0].push(b1), b2);
        lemma_run_push(ground, seq![b0].push(b1).push(b2), b3);
        assert(seq![b0].push(b1) =~= seq![b0, b1]);
        assert(seq![b0, b1].push(b2) =~= seq![b0, b1, b2]);
        assert(seq![b0, b1, b2].push(b3) =~= bytes);
        assert(ground.run(seq![b0].push(b1)).1 =~= Seq::<Action>::empty());
        assert(ground.run(seq![b0].push(b1).push(b2)).1 =~= Seq::<Action>::empty());
        let last = ground.run(seq![b0].push(b1).push(b2)).0.step(b3).1;
        assert(Seq::<Action>::empty() + last =~= last);
    }
}

/// What is sent for an event decodes to that event: for every event that
/// its own bytes can decode to, a decoder outside any sequence reads the
/// bytes the event is sent as, gives exactly that event, and is outside
/// any sequence again.
pub proof fn lemma_echo(action: Action)
    requires
        echoes(action),
    ensures
        DecoderState::Ground.run(console_input_spec(action)) == (DecoderState::Ground, seq![action]),
{
    let ground = DecoderState::Ground;
    match action {
        Action::HostInput(c) => {
            lemma_character(c);
        },
        Action::HostControlInput(byte) => {
            lemma_run_one(ground, byte);
        },
        Action::HostCarriageReturn => {
            lemma_run_one(ground, 0x0D);
        },
        Action::HostLineFeed => {
            lemma_run_one(ground, 0x0A);
        },
        Action::HostBackspace => {
            lemma_run_one(ground, 0x08);
        },
        Action::HostDeleteKey => {
            let bytes = console_input_spec(action);
            assert(bytes =~= seq![0x1Bu8].push(0x5B).push(0x33).push(0x7E));
            lemma_run_one(ground, 0x1B);
            lemma_run_push(ground, seq![0x1Bu8], 0x5B);
            lemma_run_push(ground, seq![0x1Bu8].push(0x5B), 0x33);
            lemma_run_push(ground, seq![0x1Bu8].push(0x5B).push(0x33), 0x7E);
            assert(ground.run(seq![0x1Bu8].push(0x5B)).1 =~= Seq::<Action>::empty());
            assert(ground.run(seq![0x1Bu8].push(0x5B).push(0x33)).1 =~= Seq::<Action>::empty());
            assert(Seq::<i64>::empty().push(3i64) =~= seq![3i64]);
            let last = ground.run(seq![0x1Bu8].push(0x5B).push(0x33)).0.step(0x7E).1;
            assert(Seq::<Action>::empty() + last =~= last);
        },
        Action::HostCursorMoveForward(n) => {
            lemma_cursor_sequence(n.0 as u16, 0x43);
        },
        Action::HostCursorMoveBackward(n) => {
            lemma_cursor_sequence(n.0 as u16, 0x44);
        },
        Action::HostCursorMoveUp(n) => {
            lemma_cursor_sequence(n.0 as u16, 0x41);
        },
        Action::HostCursorMoveDown(n) => {
            lemma_cursor_sequence(n.0 as u16, 0x42);
        },
        _ => {},
    }
}

} // verus!
