//! The escape-sequence decoder: from raw terminal bytes to events.
//!
//! The decoder takes one byte at a time and keeps what it needs between
//! bytes, so a stream decodes to the same events however it is cut into
//! chunks. Its grammar:
//!
//! * printable characters, UTF-8 encoded, become input characters;
//! * control bytes become their own events, at any point of a sequence;
//! * `ESC [`, parameters, final byte is a control sequence: cursor moves
//!   and the delete key are recognised by their final byte and first
//!   parameter, any other becomes `Noop`;
//! * `ESC ]` starts a command string that runs to `BEL` or `ESC \` and
//!   yields nothing;
//! * any other escape sequence becomes `Noop`.

use vstd::prelude::*;
use vstd::utf8::{
    decode_first_scalar, is_continuation_byte, is_leading_byte_width_2, is_leading_byte_width_3,
    is_leading_byte_width_4, is_scalar, valid_first_scalar,
};
use crate::ansitypes::{
    C0_BEL, C0_BS, C0_CAN, C0_CR, C0_DEL, C0_ESC, C0_FF, C0_HT, C0_LF, C0_SUB, C0_VT, C1_NEL,
};
use crate::event::{Action, Column, Line};

verus! {

/// The event for a printable character: the delete character is the
/// backspace key, any other character is itself.
pub open spec fn print_spec(c: char) -> Action {
    if c as u32 == C0_DEL as u32 {
        Action::HostBackspace
    } else {
        Action::HostInput(c)
    }
}

/// The event for a control byte. Tab, backspace, carriage return, the
/// three line feeds, substitute and next-line have events of their own;
/// every other byte is handed on as it is.
pub open spec fn execute_spec(byte: u8) -> Action {
    if byte == C0_HT {
        Action::HostPutTabs(1)
    } else if byte == C0_BS {
        Action::HostBackspace
    } else if byte == C0_CR {
        Action::HostCarriageReturn
    } else if byte == C0_LF || byte == C0_VT || byte == C0_FF {
        Action::HostLineFeed
    } else if byte == C0_SUB {
        Action::HostSubtitute
    } else if byte == C1_NEL {
        Action::HostNewline
    } else {
        Action::HostControlInput(byte)
    }
}

/// The count a control sequence carries in its first parameter. A
/// parameter that is missing, zero or negative counts as one, and one too
/// large for `usize` counts as `usize::MAX`.
pub open spec fn count_spec(params: Seq<i64>) -> usize {
    if params.len() > 0 && params[0] > 0 {
        if params[0] > usize::MAX {
            usize::MAX
        } else {
            params[0] as usize
        }
    } else {
        1
    }
}

/// The event for a complete control sequence with final character `c`.
///
/// `C` and `a` move the cursor forward, `D` backward, `A` up and `B` down,
/// each by the count in the first parameter; `~` with first parameter 3 is
/// the delete key. Every other final character gives `Noop`. Nothing but
/// the final character and the first parameter plays a part.
pub open spec fn csi_spec(params: Seq<i64>, c: char) -> Action {
    if c == 'C' || c == 'a' {
        Action::HostCursorMoveForward(Column(count_spec(params)))
    } else if c == 'D' {
        Action::HostCursorMoveBackward(Column(count_spec(params)))
    } else if c == 'A' {
        Action::HostCursorMoveUp(Line(count_spec(params)))
    } else if c == 'B' {
        Action::HostCursorMoveDown(Line(count_spec(params)))
    } else if c == '~' && params.len() > 0 && params[0] == 3 {
        Action::HostDeleteKey
    } else {
        Action::Noop
    }
}

/// Turns what a terminal parser recognised into events. Each function
/// takes what the parser found and returns the one event it stands for.
#[derive(Debug)]
pub struct InputPerformer;

impl InputPerformer {
    /// The event for a printable character.
    pub fn print(c: char) -> (action: Action)
        ensures
            action == print_spec(c),
    {
        if c as u32 == C0_DEL as u32 {
            Action::HostBackspace
        } else {
            Action::HostInput(c)
        }
    }

    /// The event for a control byte.
    pub fn execute(byte: u8) -> (action: Action)
        ensures
            action == execute_spec(byte),
    {
        if byte == C0_HT {
            Action::HostPutTabs(1)
        } else if byte == C0_BS {
            Action::HostBackspace
        } else if byte == C0_CR {
            Action::HostCarriageReturn
        } else if byte == C0_LF || byte == C0_VT || byte == C0_FF {
            Action::HostLineFeed
        } else if byte == C0_SUB {
            Action::HostSubtitute
        } else if byte == C1_NEL {
            Action::HostNewline
        } else {
            Action::HostControlInput(byte)
        }
    }

    /// The count in the first parameter of a control sequence.
    fn count(params: &[i64]) -> (n: usize)
        ensures
            n == count_spec(params@),
    {
        if params.len() > 0 && params[0] > 0 {
            let v: u64 = params[0] as u64;
            if v > usize::MAX as u64 {
                usize::MAX
            } else {
                v as usize
            }
        } else {
            1
        }
    }

    /// The event for a complete control sequence. The intermediate bytes
    /// and the flag that a parser hands along with it play no part: the
    /// final character and the first parameter decide.
    pub fn csi_dispatch(params: &[i64], intermediates: &[u8], ignore: bool, c: char) -> (action: Action)
        ensures
            action == csi_spec(params@, c),
    {
        if c == 'C' || c == 'a' {
            Action::HostCursorMoveForward(Column(InputPerformer::count(params)))
        } else if c == 'D' {
            Action::HostCursorMoveBackward(Column(InputPerformer::count(params)))
        } else if c == 'A' {
            Action::HostCursorMoveUp(Line(InputPerformer::count(params)))
        } else if c == 'B' {
            Action::HostCursorMoveDown(Line(InputPerformer::count(params)))
        } else if c == '~' && params.len() > 0 && params[0] == 3 {
            Action::HostDeleteKey
        } else {
            Action::Noop
        }
    }
}

/// The most parameters a control sequence may carry.
pub const MAX_PARAMS: usize = 16;

/// The largest value a parameter may take; larger ones stop here.
pub const PARAM_MAX: i64 = 65535;

/// Where the decoder stands between two bytes.
pub enum DecoderState {
    /// Outside any sequence.
    Ground,
    /// After `ESC`.
    Escape,
    /// After `ESC` and one or more intermediate bytes.
    EscapeIntermediate,
    /// Inside a control sequence: the parameters that are complete, the
    /// one being read, whether a digit of it was seen, and whether a `:`
    /// has spoiled the sequence, so that it ends in `Noop`.
    Csi { params: Seq<i64>, param: i64, collecting: bool, ignoring: bool },
    /// Inside a command string.
    Osc,
    /// Inside a command string, after `ESC`.
    OscEscape,
    /// Inside a multi-byte character: the bytes seen so far.
    Utf8 { pending: Seq<u8> },
}

/// How many bytes the character that starts with `lead` takes, or 0 if
/// `lead` starts no multi-byte character.
pub open spec fn utf8_width(lead: u8) -> int {
    if is_leading_byte_width_2(lead) {
        2
    } else if is_leading_byte_width_3(lead) {
        3
    } else if is_leading_byte_width_4(lead) {
        4
    } else {
        0
    }
}

/// The parameter being read after one more digit, stopping at `PARAM_MAX`.
pub open spec fn next_param(param: i64, digit: int) -> i64 {
    if param * 10 + digit > PARAM_MAX {
        PARAM_MAX
    } else {
        (param * 10 + digit) as i64
    }
}

impl DecoderState {
    /// A control sequence holds fewer than `MAX_PARAMS` complete
    /// parameters and the one being read is within range; a multi-byte
    /// character holds its leading byte and fewer continuation bytes than
    /// it takes.
    pub open spec fn wf(self) -> bool {
        match self {
            DecoderState::Csi { params, param, collecting, ignoring } => {
                &&& params.len() < MAX_PARAMS
                &&& 0 <= param <= PARAM_MAX
            },
            DecoderState::Utf8 { pending } => {
                &&& 1 <= pending.len() < utf8_width(pending[0])
                &&& forall|i: int| 1 <= i < pending.len() ==> is_continuation_byte(#[trigger] pending[i])
            },
            _ => true,
        }
    }
}

/// The state and the events after `byte` arrives outside any sequence.
pub open spec fn step_ground(byte: u8) -> (DecoderState, Seq<Action>) {
    if byte == C0_ESC {
        (DecoderState::Escape, Seq::empty())
    } else if byte < 0x20 {
        (DecoderState::Ground, seq![execute_spec(byte)])
    } else if byte < 0x80 {
        (DecoderState::Ground, seq![print_spec(byte as char)])
    } else if utf8_width(byte) != 0 {
        (DecoderState::Utf8 { pending: seq![byte] }, Seq::empty())
    } else {
        (DecoderState::Ground, seq![execute_spec(byte)])
    }
}

/// The state and the events after a control byte arrives inside a
/// sequence that stands in `state`: `ESC` starts a new sequence, cancel
/// and substitute end the sequence, and any other control byte leaves it
/// as it is. All but `ESC` give their event.
pub open spec fn step_control(state: DecoderState, byte: u8) -> (DecoderState, Seq<Action>) {
    if byte == C0_ESC {
        (DecoderState::Escape, Seq::empty())
    } else if byte == C0_CAN || byte == C0_SUB {
        (DecoderState::Ground, seq![execute_spec(byte)])
    } else {
        (state, seq![execute_spec(byte)])
    }
}

/// The state and the events after `byte` arrives behind `ESC`, with
/// `intermediate` telling whether intermediate bytes were seen already.
pub open spec fn step_escape(intermediate: bool, byte: u8) -> (DecoderState, Seq<Action>) {
    if byte < 0x20 {
        step_control(
            if intermediate {
                DecoderState::EscapeIntermediate
            } else {
                DecoderState::Escape
            },
            byte,
        )
    } else if byte < 0x30 {
        (DecoderState::EscapeIntermediate, Seq::empty())
    } else if !intermediate && byte == 0x5B {
        (DecoderState::Csi { params: Seq::empty(), param: 0, collecting: false, ignoring: false }, Seq::empty())
    } else if !intermediate && byte == 0x5D {
        (DecoderState::Osc, Seq::empty())
    } else {
        (DecoderState::Ground, seq![Action::Noop])
    }
}

/// The state and the events after `byte` arrives inside a control
/// sequence.
///
/// Digits build the parameter being read and `;` completes it; parameters
/// beyond `MAX_PARAMS` are dropped. Intermediate bytes and private markers
/// change nothing. A `:` spoils the sequence, which then ends in `Noop`.
/// A final byte ends the sequence with the event it stands for, and any
/// byte from `DEL` on breaks it off with `Noop`.
pub open spec fn step_csi(params: Seq<i64>, param: i64, collecting: bool, ignoring: bool, byte: u8) -> (
    DecoderState,
    Seq<Action>,
) {
    if byte < 0x20 {
        step_control(DecoderState::Csi { params, param, collecting, ignoring }, byte)
    } else if 0x30 <= byte <= 0x39 {
        (
            DecoderState::Csi { params, param: next_param(param, byte - 0x30), collecting: true, ignoring },
            Seq::empty(),
        )
    } else if byte == 0x3B {
        (
            DecoderState::Csi {
                params: if params.len() + 1 < MAX_PARAMS {
                    params.push(param)
                } else {
                    params
                },
                param: 0,
                collecting: false,
                ignoring,
            },
            Seq::empty(),
        )
    } else if byte == 0x3A {
        (DecoderState::Csi { params, param, collecting, ignoring: true }, Seq::empty())
    } else if byte < 0x40 {
        (DecoderState::Csi { params, param, collecting, ignoring }, Seq::empty())
    } else if byte < 0x7F {
        (
            DecoderState::Ground,
            seq![
                if ignoring {
                    Action::Noop
                } else {
                    csi_spec(
                        if collecting {
                            params.push(param)
                        } else {
                            params
                        },
                        byte as char,
                    )
                },
            ],
        )
    } else {
        (DecoderState::Ground, seq![Action::Noop])
    }
}

/// The state and the events after `byte` arrives inside a command string,
/// with `escaped` telling whether the byte before it was `ESC`.
pub open spec fn step_osc(escaped: bool, byte: u8) -> (DecoderState, Seq<Action>) {
    if escaped {
        if byte == 0x5C {
            (DecoderState::Ground, Seq::empty())
        } else {
            step_escape(false, byte)
        }
    } else if byte == C0_BEL {
        (DecoderState::Ground, Seq::empty())
    } else if byte == C0_ESC {
        (DecoderState::OscEscape, Seq::empty())
    } else if byte == C0_CAN || byte == C0_SUB {
        (DecoderState::Ground, seq![execute_spec(byte)])
    } else {
        (DecoderState::Osc, Seq::empty())
    }
}

/// The event for the bytes of one complete multi-byte character: the
/// character they encode, or `Noop` where they encode none.
pub open spec fn utf8_spec(bytes: Seq<u8>) -> Action {
    if valid_first_scalar(bytes) {
        print_spec(decode_first_scalar(bytes) as char)
    } else {
        Action::Noop
    }
}

/// The state and the events after `byte` arrives inside a multi-byte
/// character. A byte that cannot continue the character ends it with
/// `Noop` and is then read as if outside any sequence.
pub open spec fn step_utf8(pending: Seq<u8>, byte: u8) -> (DecoderState, Seq<Action>) {
    if is_continuation_byte(byte) {
        if pending.len() + 1 >= utf8_width(pending[0]) {
            (DecoderState::Ground, seq![utf8_spec(pending.push(byte))])
        } else {
            (DecoderState::Utf8 { pending: pending.push(byte) }, Seq::empty())
        }
    } else {
        (step_ground(byte).0, seq![Action::Noop] + step_ground(byte).1)
    }
}

impl DecoderState {
    /// The state and the events after one byte.
    pub open spec fn step(self, byte: u8) -> (DecoderState, Seq<Action>) {
        match self {
            DecoderState::Ground => step_ground(byte),
            DecoderState::Escape => step_escape(false, byte),
            DecoderState::EscapeIntermediate => step_escape(true, byte),
            DecoderState::Csi { params, param, collecting, ignoring } => step_csi(
                params,
                param,
                collecting,
                ignoring,
                byte,
            ),
            DecoderState::Osc => step_osc(false, byte),
            DecoderState::OscEscape => step_osc(true, byte),
            DecoderState::Utf8 { pending } => step_utf8(pending, byte),
        }
    }

    /// The state and the events after a run of bytes, in order.
    pub open spec fn run(self, bytes: Seq<u8>) -> (DecoderState, Seq<Action>)
        decreases bytes.len(),
    {
        if bytes.len() == 0 {
            (self, Seq::empty())
        } else {
            let (mid, first) = self.run(bytes.drop_last());
            let (next, more) = mid.step(bytes.last());
            (next, first + more)
        }
    }

    /// The state and the events after a list of chunks, each decoded where
    /// the one before it left off.
    pub open spec fn run_chunks(self, chunks: Seq<Seq<u8>>) -> (DecoderState, Seq<Action>)
        decreases chunks.len(),
    {
        if chunks.len() == 0 {
            (self, Seq::empty())
        } else {
            let (mid, first) = self.run_chunks(chunks.drop_last());
            let (next, more) = mid.run(chunks.last());
            (next, first + more)
        }
    }
}

/// The chunks laid end to end.
pub open spec fn joined(chunks: Seq<Seq<u8>>) -> Seq<u8>
    decreases chunks.len(),
{
    if chunks.len() == 0 {
        Seq::empty()
    } else {
        joined(chunks.drop_last()) + chunks.last()
    }
}

/// `char::from_u32` of the standard library: the character with the given
/// scalar value, and nothing for a value that is no Unicode scalar.
#[verifier::external_body]
fn char_from_u32(value: u32) -> (c: Option<char>)
    ensures
        c == if is_scalar(value) {
            Some(value as char)
        } else {
            None::<char>
        },
{
    char::from_u32(value)
}

proof fn lemma_codepoint_bounds(b0: u8, b1: u8, b2: u8)
    ensures
        (((b0 & 0x1F) as u32) << 6) | ((b1 & 0x3F) as u32) <= 0x7FF,
        (((b0 & 0x0F) as u32) << 12) | (((b1 & 0x3F) as u32) << 6) | ((b2 & 0x3F) as u32) <= 0xFFFF,
{
    assert((((b0 & 0x1F) as u32) << 6) | ((b1 & 0x3F) as u32) <= 0x7FF) by (bit_vector);
    assert((((b0 & 0x0F) as u32) << 12) | (((b1 & 0x3F) as u32) << 6) | ((b2 & 0x3F) as u32) <= 0xFFFF)
        by (bit_vector);
}

/// The phase of a decoder, without what it has collected.
#[derive(Clone, Copy, Debug, PartialEq, Eq, Structural)]
enum Phase {
    Ground,
    Escape,
    EscapeIntermediate,
    Csi,
    Osc,
    OscEscape,
    Utf8,
}

/// A decoder for one byte source. It takes the bytes one at a time or in
/// chunks and returns the events they complete.
#[derive(Debug)]
pub struct EscapeDecoder {
    phase: Phase,
    params: Vec<i64>,
    param: i64,
    collecting: bool,
    ignoring: bool,
    pending: Vec<u8>,
}

impl View for EscapeDecoder {
    type V = DecoderState;

    closed spec fn view(&self) -> DecoderState {
        match self.phase {
            Phase::Ground => DecoderState::Ground,
            Phase::Escape => DecoderState::Escape,
            Phase::EscapeIntermediate => DecoderState::EscapeIntermediate,
            Phase::Csi => DecoderState::Csi {
                params: self.params@,
                param: self.param,
                collecting: self.collecting,
                ignoring: self.ignoring,
            },
            Phase::Osc => DecoderState::Osc,
            Phase::OscEscape => DecoderState::OscEscape,
            Phase::Utf8 => DecoderState::Utf8 { pending: self.pending@ },
        }
    }
}

impl EscapeDecoder {
    /// The state of the decoder is well formed.
    pub open spec fn wf(&self) -> bool {
        self@.wf()
    }

    /// A decoder outside any sequence.
    pub fn new() -> (decoder: EscapeDecoder)
        ensures
            decoder@ == DecoderState::Ground,
            decoder.wf(),
    {
        EscapeDecoder {
            phase: Phase::Ground,
            params: Vec::new(),
            param: 0,
            collecting: false,
            ignoring: false,
            pending: Vec::new(),
        }
    }

    /// Whether the decoder is outside any sequence, so that the bytes so
    /// far have given all their events.
    pub fn is_ground(&self) -> (ground: bool)
        ensures
            ground == (self@ == DecoderState::Ground),
    {
        match self.phase {
            Phase::Ground => true,
            _ => false,
        }
    }

    fn ground(&mut self, byte: u8, out: &mut Vec<Action>)
        ensures
            final(self)@ == step_ground(byte).0,
            final(out)@ == old(out)@ + step_ground(byte).1,
            final(self).wf(),
    {
        if byte == C0_ESC {
            self.phase = Phase::Escape;
            assert(out@ =~= old(out)@ + step_ground(byte).1);
        } else if byte < 0x20 {
            self.phase = Phase::Ground;
            out.push(InputPerformer::execute(byte));
            assert(out@ =~= old(out)@ + step_ground(byte).1);
        } else if byte < 0x80 {
            self.phase = Phase::Ground;
            out.push(InputPerformer::print(byte as char));
            assert(out@ =~= old(out)@ + step_ground(byte).1);
        } else if byte >= 0xC0 && byte <= 0xF7 {
            self.pending.clear();
            self.pending.push(byte);
            self.phase = Phase::Utf8;
            assert(self.pending@ =~= seq![byte]);
            assert(out@ =~= old(out)@ + step_ground(byte).1);
        } else {
            self.phase = Phase::Ground;
            out.push(InputPerformer::execute(byte));
            assert(out@ =~= old(out)@ + step_ground(byte).1);
        }
    }

    fn control(&mut self, byte: u8, out: &mut Vec<Action>)
        requires
            byte < 0x20,
            old(self).wf(),
        ensures
            final(self)@ == step_control(old(self)@, byte).0,
            final(out)@ == old(out)@ + step_control(old(self)@, byte).1,
            final(self).wf(),
    {
        if byte == C0_ESC {
            self.phase = Phase::Escape;
            assert(out@ =~= old(out)@ + step_control(old(self)@, byte).1);
        } else if byte == C0_CAN || byte == C0_SUB {
            self.phase = Phase::Ground;
            out.push(InputPerformer::execute(byte));
            assert(out@ =~= old(out)@ + step_control(old(self)@, byte).1);
        } else {
            out.push(InputPerformer::execute(byte));
            assert(out@ =~= old(out)@ + step_control(old(self)@, byte).1);
        }
    }

    fn escape(&mut self, intermediate: bool, byte: u8, out: &mut Vec<Action>)
        ensures
            final(self)@ == step_escape(intermediate, byte).0,
            final(out)@ == old(out)@ + step_escape(intermediate, byte).1,
            final(self).wf(),
    {
        if byte < 0x20 {
            self.phase = if intermediate {
                Phase::EscapeIntermediate
            } else {
                Phase::Escape
            };
            self.control(byte, out);
        } else if byte < 0x30 {
            self.phase = Phase::EscapeIntermediate;
            assert(out@ =~= old(out)@ + step_escape(intermediate, byte).1);
        } else if !intermediate && byte == 0x5B {
            self.params.clear();
            self.param = 0;
            self.collecting = false;
            self.ignoring = false;
            self.phase = Phase::Csi;
            assert(self.params@ =~= Seq::<i64>::empty());
            assert(out@ =~= old(out)@ + step_escape(intermediate, byte).1);
        } else if !intermediate && byte == 0x5D {
            self.phase = Phase::Osc;
            assert(out@ =~= old(out)@ + step_escape(intermediate, byte).1);
        } else {
            self.phase = Phase::Ground;
            out.push(Action::Noop);
            assert(out@ =~= old(out)@ + step_escape(intermediate, byte).1);
        }
    }

    fn csi(&mut self, byte: u8, out: &mut Vec<Action>)
        requires
            old(self)@ is Csi,
            old(self).wf(),
        ensures
            final(self)@ == old(self)@.step(byte).0,
            final(out)@ == old(out)@ + old(self)@.step(byte).1,
            final(self).wf(),
    {
        if byte < 0x20 {
            self.control(byte, out);
        } else if 0x30 <= byte && byte <= 0x39 {
            let digit: i64 = (byte - 0x30) as i64;
            self.param = if self.param * 10 + digit > PARAM_MAX {
                PARAM_MAX
            } else {
                self.param * 10 + digit
            };
            self.collecting = true;
            assert(out@ =~= old(out)@ + old(self)@.step(byte).1);
        } else if byte == 0x3B {
            if self.params.len() + 1 < MAX_PARAMS {
                self.params.push(self.param);
            }
            self.param = 0;
            self.collecting = false;
            assert(out@ =~= old(out)@ + old(self)@.step(byte).1);
        } else if byte == 0x3A {
            self.ignoring = true;
            assert(out@ =~= old(out)@ + old(self)@.step(byte).1);
        } else if byte < 0x40 {
            assert(out@ =~= old(out)@ + old(self)@.step(byte).1);
        } else if byte < 0x7F {
            let action = if self.ignoring {
                Action::Noop
            } else {
                if self.collecting {
                    self.params.push(self.param);
                }
                let intermediates: Vec<u8> = Vec::new();
                InputPerformer::csi_dispatch(self.params.as_slice(), intermediates.as_slice(), false, byte as char)
            };
            self.phase = Phase::Ground;
            out.push(action);
            assert(out@ =~= old(out)@ + old(self)@.step(byte).1);
        } else {
            self.phase = Phase::Ground;
            out.push(Action::Noop);
            assert(out@ =~= old(out)@ + old(self)@.step(byte).1);
        }
    }

    fn osc(&mut self, escaped: bool, byte: u8, out: &mut Vec<Action>)
        ensures
            final(self)@ == step_osc(escaped, byte).0,
            final(out)@ == old(out)@ + step_osc(escaped, byte).1,
            final(self).wf(),
    {
        if escaped {
            if byte == 0x5C {
                self.phase = Phase::Ground;
                assert(out@ =~= old(out)@ + step_osc(escaped, byte).1);
            } else {
                self.escape(false, byte, out);
            }
        } else if byte == C0_BEL {
            self.phase = Phase::Ground;
            assert(out@ =~= old(out)@ + step_osc(escaped, byte).1);
        } else if byte == C0_ESC {
            self.phase = Phase::OscEscape;
            assert(out@ =~= old(out)@ + step_osc(escaped, byte).1);
        } else if byte == C0_CAN || byte == C0_SUB {
            self.phase = Phase::Ground;
            out.push(InputPerformer::execute(byte));
            assert(out@ =~= old(out)@ + step_osc(escaped, byte).1);
        } else {
            self.phase = Phase::Osc;
            assert(out@ =~= old(out)@ + step_osc(escaped, byte).1);
        }
    }

    /// The event for the bytes of one complete multi-byte character.
    fn utf8_action(bytes: &Vec<u8>) -> (action: Action)
        requires
            2 <= bytes@.len() == utf8_width(bytes@[0]),
            forall|i: int| 1 <= i < bytes@.len() ==> is_continuation_byte(#[trigger] bytes@[i]),
        ensures
            action == utf8_spec(bytes@),
    {
        let n = bytes.len();
        let b0 = bytes[0];
        let b1 = bytes[1];
        assert(is_continuation_byte(bytes@[1]));
        let code: u32 = if n == 2 {
            (((b0 & 0x1F) as u32) << 6) | ((b1 & 0x3F) as u32)
        } else if n == 3 {
            let b2 = bytes[2];
            assert(is_continuation_byte(bytes@[2]));
            (((b0 & 0x0F) as u32) << 12) | (((b1 & 0x3F) as u32) << 6) | ((b2 & 0x3F) as u32)
        } else {
            let b2 = bytes[2];
            let b3 = bytes[3];
            assert(is_continuation_byte(bytes@[2]));
            assert(is_continuation_byte(bytes@[3]));
            (((b0 & 0x07) as u32) << 18) | (((b1 & 0x3F) as u32) << 12) | (((b2 & 0x3F) as u32) << 6) | ((b3
                & 0x3F) as u32)
        };
        proof {
            lemma_codepoint_bounds(b0, b1, if n >= 3 { bytes@[2] } else { 0 });
            assert(code == vstd::utf8::decode_first_codepoint(bytes@));
            assert(vstd::utf8::valid_leading_and_continuation_bytes_first_codepoint(bytes@));
            assert(vstd::utf8::length_of_first_codepoint(bytes@) == n);
        }
        let overlong = (n == 2 && code < 0x80) || (n == 3 && code < 0x800) || (n == 4 && (code < 0x10000
            || code > 0x10FFFF));
        let surrogate = 0xD800 <= code && code <= 0xDFFF;
        if overlong || surrogate {
            Action::Noop
        } else {
            match char_from_u32(code) {
                Some(c) => InputPerformer::print(c),
                None => Action::Noop,
            }
        }
    }

    fn utf8(&mut self, byte: u8, out: &mut Vec<Action>)
        requires
            old(self)@ is Utf8,
            old(self).wf(),
        ensures
            final(self)@ == old(self)@.step(byte).0,
            final(out)@ == old(out)@ + old(self)@.step(byte).1,
            final(self).wf(),
    {
        if 0x80 <= byte && byte <= 0xBF {
            let lead = self.pending[0];
            let width: usize = if lead <= 0xDF {
                2
            } else if lead <= 0xEF {
                3
            } else {
                4
            };
            self.pending.push(byte);
            if self.pending.len() >= width {
                let action = EscapeDecoder::utf8_action(&self.pending);
                self.phase = Phase::Ground;
                out.push(action);
                assert(out@ =~= old(out)@ + old(self)@.step(byte).1);
            } else {
                assert(out@ =~= old(out)@ + old(self)@.step(byte).1);
            }
        } else {
            out.push(Action::Noop);
            let ghost mid = out@;
            self.ground(byte, out);
            assert(out@ =~= old(out)@ + (seq![Action::Noop] + step_ground(byte).1));
        }
    }

    /// Takes one byte and returns the events it completes, in order.
    pub fn advance(&mut self, byte: u8) -> (actions: Vec<Action>)
        requires
            old(self).wf(),
        ensures
            final(self)@ == old(self)@.step(byte).0,
            actions@ == old(self)@.step(byte).1,
            final(self).wf(),
    {
        let mut out: Vec<Action> = Vec::new();
        match self.phase {
            Phase::Ground => self.ground(byte, &mut out),
            Phase::Escape => self.escape(false, byte, &mut out),
            Phase::EscapeIntermediate => self.escape(true, byte, &mut out),
            Phase::Csi => self.csi(byte, &mut out),
            Phase::Osc => self.osc(false, byte, &mut out),
            Phase::OscEscape => self.osc(true, byte, &mut out),
            Phase::Utf8 => self.utf8(byte, &mut out),
        }
        assert(out@ =~= old(self)@.step(byte).1);
        out
    }

    /// Takes a chunk of bytes and returns the events they complete, in
    /// order. What the chunk leaves unfinished is kept for the next one.
    pub fn feed(&mut self, bytes: &[u8]) -> (actions: Vec<Action>)
        requires
            old(self).wf(),
        ensures
            final(self)@ == old(self)@.run(bytes@).0,
            actions@ == old(self)@.run(bytes@).1,
            final(self).wf(),
    {
        let mut out: Vec<Action> = Vec::new();
        let mut i: usize = 0;
        while i < bytes.len()
            invariant
                i <= bytes@.len(),
                self.wf(),
                self@ == old(self)@.run(bytes@.take(i as int)).0,
                out@ == old(self)@.run(bytes@.take(i as int)).1,
            decreases bytes@.len() - i,
        {
            let mut more = self.advance(bytes[i]);
            out.append(&mut more);
            proof {
                assert(bytes@.take(i + 1).drop_last() =~= bytes@.take(i as int));
                assert(bytes@.take(i + 1).last() == bytes@[i as int]);
            }
            i += 1;
        }
        assert(bytes@.take(i as int) =~= bytes@);
        out
    }
}

/// Decoding a single byte is one step.
pub proof fn lemma_run_one(state: DecoderState, byte: u8)
    ensures
        state.run(seq![byte]) == state.step(byte),
{
    let bytes = seq![byte];
    assert(bytes.drop_last() =~= Seq::<u8>::empty());
    assert(state.run(bytes.drop_last()) == (state, Seq::<Action>::empty()));
    assert(Seq::<Action>::empty() + state.step(byte).1 =~= state.step(byte).1);
}

/// Decoding one more byte is one more step.
pub proof fn lemma_run_push(state: DecoderState, bytes: Seq<u8>, byte: u8)
    ensures
        state.run(bytes.push(byte)).0 == state.run(bytes).0.step(byte).0,
        state.run(bytes.push(byte)).1 == state.run(bytes).1 + state.run(bytes).0.step(byte).1,
{
    assert(bytes.push(byte).drop_last() =~= bytes);
}

/// Decoding two runs of bytes one after the other, the second from where
/// the first left off, gives the state and the events of decoding them as
/// one run.
pub proof fn lemma_run_concat(state: DecoderState, a: Seq<u8>, b: Seq<u8>)
    ensures
        state.run(a + b).0 == state.run(a).0.run(b).0,
        state.run(a + b).1 == state.run(a).1 + state.run(a).0.run(b).1,
    decreases b.len(),
{
    if b.len() == 0 {
        assert(a + b =~= a);
        assert(state.run(a).1 + Seq::<Action>::empty() =~= state.run(a).1);
    } else {
        lemma_run_concat(state, a, b.drop_last());
        assert((a + b).drop_last() =~= a + b.drop_last());
        assert((a + b).last() == b.last());
        let mid = state.run(a).0;
        let (before, first) = mid.run(b.drop_last());
        let more = before.step(b.last()).1;
        assert((state.run(a).1 + first) + more =~= state.run(a).1 + (first + more));
    }
}

/// Chunk-size independence: however a stream is cut into chunks, decoding
/// the chunks in order gives the state and the events of decoding the
/// stream byte by byte.
pub proof fn lemma_chunking(state: DecoderState, chunks: Seq<Seq<u8>>)
    ensures
        state.run_chunks(chunks) == state.run(joined(chunks)),
    decreases chunks.len(),
{
    if chunks.len() > 0 {
        lemma_chunking(state, chunks.drop_last());
        lemma_run_concat(state, joined(chunks.drop_last()), chunks.last());
    }
}

/// A well-formed state stays well formed after any byte.
pub proof fn lemma_step_wf(state: DecoderState, byte: u8)
    requires
        state.wf(),
    ensures
        state.step(byte).0.wf(),
{
    match state {
        DecoderState::Utf8 { pending } => {
            if is_continuation_byte(byte) && pending.len() + 1 < utf8_width(pending[0]) {
                let next = pending.push(byte);
                assert(next[0] == pending[0]);
                assert forall|i: int| 1 <= i < next.len() implies is_continuation_byte(#[trigger] next[i]) by {
                    if i < pending.len() {
                        assert(next[i] == pending[i]);
                    }
                }
            }
        },
        _ => {},
    }
}

/// A well-formed state stays well formed after any run of bytes.
pub proof fn lemma_run_wf(state: DecoderState, bytes: Seq<u8>)
    requires
        state.wf(),
    ensures
        state.run(bytes).0.wf(),
    decreases bytes.len(),
{
    if bytes.len() > 0 {
        lemma_run_wf(state, bytes.drop_last());
        lemma_step_wf(state.run(bytes.drop_last()).0, bytes.last());
    }
}

/// No control byte is lost: wherever the decoder stands, except inside a
/// command string, a control byte other than `ESC` gives its event as the
/// last event of the step.
pub proof fn lemma_control_byte_is_seen(state: DecoderState, byte: u8)
    requires
        byte < 0x20,
        byte != C0_ESC,
        !(state is Osc),
    ensures
        state.step(byte).1.len() >= 1,
        state.step(byte).1.last() == execute_spec(byte),
{
}

/// No control sequence ends in silence: whatever its final byte, a control
/// sequence gives exactly one event, which is `Noop` where the sequence is
/// not recognised, and leaves the decoder outside any sequence.
pub proof fn lemma_control_sequence_ends(params: Seq<i64>, param: i64, collecting: bool, ignoring: bool, byte: u8)
    requires
        0x40 <= byte,
    ensures
        step_csi(params, param, collecting, ignoring, byte).0 == DecoderState::Ground,
        step_csi(params, param, collecting, ignoring, byte).1.len() == 1,
{
}

/// Inside a command string only the bell, `ESC`, cancel and substitute
/// count: a run of any other bytes gives no event and leaves the decoder
/// inside the command string.
pub proof fn lemma_command_string_body(body: Seq<u8>)
    requires
        forall|i: int|
            0 <= i < body.len() ==> body[i] != C0_BEL && body[i] != C0_ESC && body[i] != C0_CAN && body[i]
                != C0_SUB,
    ensures
        DecoderState::Osc.run(body) == (DecoderState::Osc, Seq::<Action>::empty()),
    decreases body.len(),
{
    if body.len() > 0 {
        lemma_command_string_body(body.drop_last());
        assert(DecoderState::Osc.run(body).1 =~= Seq::<Action>::empty());
    }
}

/// A command string gives no event and leaves the decoder as it found it:
/// decoding `ESC ]`, any bytes without bell, `ESC`, cancel or substitute,
/// and then either the bell or `ESC \`, gives nothing and ends outside any
/// sequence.
pub proof fn lemma_command_string(body: Seq<u8>)
    requires
        forall|i: int|
            0 <= i < body.len() ==> body[i] != C0_BEL && body[i] != C0_ESC && body[i] != C0_CAN && body[i]
                != C0_SUB,
    ensures
        DecoderState::Ground.run(seq![0x1Bu8, 0x5Du8] + body + seq![0x07u8]) == (
            DecoderState::Ground,
            Seq::<Action>::empty(),
        ),
        DecoderState::Ground.run(seq![0x1Bu8, 0x5Du8] + body + seq![0x1Bu8, 0x5Cu8]) == (
            DecoderState::Ground,
            Seq::<Action>::empty(),
        ),
{
    let ground = DecoderState::Ground;
    let osc = DecoderState::Osc;
    let none = Seq::<Action>::empty();
    let head = seq![0x1Bu8, 0x5Du8];
    assert(head =~= seq![0x1Bu8].push(0x5D));
    lemma_run_one(ground, 0x1B);
    lemma_run_push(ground, seq![0x1Bu8], 0x5D);
    assert(ground.run(head).1 =~= none);
    lemma_command_string_body(body);
    lemma_run_concat(ground, head, body);
    assert(ground.run(head + body).1 =~= none);

    lemma_run_one(osc, 0x07);
    lemma_run_concat(ground, head + body, seq![0x07u8]);
    assert(ground.run(head + body + seq![0x07u8]).1 =~= none);

    let end = seq![0x1Bu8, 0x5Cu8];
    assert(end =~= seq![0x1Bu8].push(0x5C));
    lemma_run_one(osc, 0x1B);
    lemma_run_push(osc, seq![0x1Bu8], 0x5C);
    assert(osc.run(end).1 =~= none);
    lemma_run_concat(ground, head + body, end);
    assert(ground.run(head + body + end).1 =~= none);
}

} // verus!
