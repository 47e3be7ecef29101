use ptymux::decoder::{EscapeDecoder, InputPerformer};
use ptymux::event::{Action, Column, Line};

fn decode(bytes: &[u8]) -> Vec<Action> {
    let mut decoder = EscapeDecoder::new();
    decoder.feed(bytes)
}

fn decode_bytewise(bytes: &[u8]) -> (Vec<Action>, bool) {
    let mut decoder = EscapeDecoder::new();
    let mut out = Vec::new();
    for b in bytes {
        out.extend(decoder.advance(*b));
    }
    (out, decoder.is_ground())
}

fn decode_in_chunks(bytes: &[u8], size: usize) -> (Vec<Action>, bool) {
    let mut decoder = EscapeDecoder::new();
    let mut out = Vec::new();
    for chunk in bytes.chunks(size) {
        out.extend(decoder.feed(chunk));
    }
    (out, decoder.is_ground())
}

#[test]
fn csi_with_count_moves_forward_by_count() {
    assert_eq!(decode(b"\x1b[5C"), vec![Action::HostCursorMoveForward(Column(5))]);
}

#[test]
fn csi_without_count_moves_forward_by_one() {
    assert_eq!(decode(b"\x1b[C"), vec![Action::HostCursorMoveForward(Column(1))]);
}

#[test]
fn csi_with_zero_count_moves_forward_by_one() {
    assert_eq!(decode(b"\x1b[0C"), vec![Action::HostCursorMoveForward(Column(1))]);
}

#[test]
fn csi_moves_in_four_directions() {
    assert_eq!(decode(b"\x1b[2A"), vec![Action::HostCursorMoveUp(Line(2))]);
    assert_eq!(decode(b"\x1b[3B"), vec![Action::HostCursorMoveDown(Line(3))]);
    assert_eq!(decode(b"\x1b[4D"), vec![Action::HostCursorMoveBackward(Column(4))]);
    assert_eq!(decode(b"\x1b[7a"), vec![Action::HostCursorMoveForward(Column(7))]);
    assert_eq!(decode(b"\x1b[A"), vec![Action::HostCursorMoveUp(Line(1))]);
    assert_eq!(decode(b"\x1b[0B"), vec![Action::HostCursorMoveDown(Line(1))]);
}

#[test]
fn csi_uses_the_first_parameter() {
    assert_eq!(decode(b"\x1b[12;34C"), vec![Action::HostCursorMoveForward(Column(12))]);
    assert_eq!(decode(b"\x1b[;4C"), vec![Action::HostCursorMoveForward(Column(1))]);
}

#[test]
fn csi_parameter_stops_at_its_maximum() {
    assert_eq!(decode(b"\x1b[65535C"), vec![Action::HostCursorMoveForward(Column(65535))]);
    assert_eq!(decode(b"\x1b[65536C"), vec![Action::HostCursorMoveForward(Column(65535))]);
    assert_eq!(
        decode(b"\x1b[99999999999999999999999999C"),
        vec![Action::HostCursorMoveForward(Column(65535))]
    );
}

#[test]
fn csi_delete_key() {
    assert_eq!(decode(b"\x1b[3~"), vec![Action::HostDeleteKey]);
    assert_eq!(decode(b"\x1b[2~"), vec![Action::Noop]);
    assert_eq!(decode(b"\x1b[~"), vec![Action::Noop]);
}

#[test]
fn unknown_csi_final_is_noop() {
    assert_eq!(decode(b"\x1b[1m"), vec![Action::Noop]);
    assert_eq!(decode(b"\x1b[H"), vec![Action::Noop]);
    assert_eq!(decode(b"\x1b[2J"), vec![Action::Noop]);
}

#[test]
fn csi_markers_and_intermediates_play_no_part() {
    assert_eq!(decode(b"\x1b[?5C"), vec![Action::HostCursorMoveForward(Column(5))]);
    assert_eq!(decode(b"\x1b[5 C"), vec![Action::HostCursorMoveForward(Column(5))]);
    assert_eq!(decode(b"\x1b[>2A"), vec![Action::HostCursorMoveUp(Line(2))]);
    assert_eq!(decode(b"\x1b[!D"), vec![Action::HostCursorMoveBackward(Column(1))]);
    assert_eq!(decode(b"\x1b[?3~"), vec![Action::HostDeleteKey]);
    assert_eq!(decode(b"\x1b[?25h"), vec![Action::Noop]);
}

#[test]
fn csi_with_colon_is_noop() {
    assert_eq!(decode(b"\x1b[1:2C"), vec![Action::Noop]);
    assert_eq!(decode(b"\x1b[:C"), vec![Action::Noop]);
    assert_eq!(decode(b"\x1b[1:2C\x1b[3C"), vec![Action::Noop, Action::HostCursorMoveForward(Column(3))]);
}

#[test]
fn csi_parameters_beyond_the_limit_are_dropped() {
    assert_eq!(decode(b"\x1b[1;2;3;4;5;6;7;8;9;10;11;12;13;14;15C"), vec![
        Action::HostCursorMoveForward(Column(1))
    ]);
    assert_eq!(decode(b"\x1b[1;2;3;4;5;6;7;8;9;10;11;12;13;14;15;16C"), vec![
        Action::HostCursorMoveForward(Column(1))
    ]);
    assert_eq!(decode(b"\x1b[4;2;3;4;5;6;7;8;9;10;11;12;13;14;15;16;17;18;19C"), vec![
        Action::HostCursorMoveForward(Column(4))
    ]);
}

#[test]
fn printable_characters_become_input() {
    assert_eq!(decode(b"hi"), vec![Action::HostInput('h'), Action::HostInput('i')]);
    assert_eq!(decode(b" ~"), vec![Action::HostInput(' '), Action::HostInput('~')]);
}

#[test]
fn delete_byte_is_backspace() {
    assert_eq!(decode(b"\x7f"), vec![Action::HostBackspace]);
}

#[test]
fn control_bytes_have_their_events() {
    assert_eq!(decode(b"\x08"), vec![Action::HostBackspace]);
    assert_eq!(decode(b"\x09"), vec![Action::HostPutTabs(1)]);
    assert_eq!(decode(b"\x0d"), vec![Action::HostCarriageReturn]);
    assert_eq!(decode(b"\x0a"), vec![Action::HostLineFeed]);
    assert_eq!(decode(b"\x0b"), vec![Action::HostLineFeed]);
    assert_eq!(decode(b"\x0c"), vec![Action::HostLineFeed]);
    assert_eq!(decode(b"\x1a"), vec![Action::HostSubtitute]);
}

#[test]
fn other_control_bytes_are_handed_on() {
    for byte in 0u8..0x20 {
        if [0x08, 0x09, 0x0a, 0x0b, 0x0c, 0x0d, 0x1a, 0x1b].contains(&byte) {
            continue;
        }
        assert_eq!(decode(&[byte]), vec![Action::HostControlInput(byte)]);
    }
}

#[test]
fn escape_alone_gives_nothing_yet() {
    let mut decoder = EscapeDecoder::new();
    assert_eq!(decoder.advance(0x1b), vec![]);
    assert!(!decoder.is_ground());
}

#[test]
fn unknown_escape_sequence_is_noop() {
    assert_eq!(decode(b"\x1bc"), vec![Action::Noop]);
    assert_eq!(decode(b"\x1b(B"), vec![Action::Noop]);
    assert_eq!(decode(b"\x1b(Bx"), vec![Action::Noop, Action::HostInput('x')]);
    assert_eq!(decode(b"\x1b\x7f"), vec![Action::Noop]);
}

#[test]
fn csi_after_intermediate_is_not_a_control_sequence() {
    assert_eq!(decode(b"\x1b [5C"), vec![
        Action::Noop,
        Action::HostInput('5'),
        Action::HostInput('C')
    ]);
}

#[test]
fn osc_ends_with_bell_and_yields_nothing() {
    let (actions, ground) = decode_bytewise(b"\x1b]0;title\x07");
    assert_eq!(actions, vec![]);
    assert!(ground);
    assert_eq!(decode(b"\x1b]0;title\x07a"), vec![Action::HostInput('a')]);
}

#[test]
fn osc_ends_with_string_terminator_and_yields_nothing() {
    let (actions, ground) = decode_bytewise(b"\x1b]2;x[5C\x1b\\");
    assert_eq!(actions, vec![]);
    assert!(ground);
    assert_eq!(decode(b"\x1b]2;x\x1b\\\x1b[5C"), vec![Action::HostCursorMoveForward(Column(5))]);
}

#[test]
fn osc_cut_short_by_escape_starts_the_next_sequence() {
    assert_eq!(decode(b"\x1b]2;x\x1b[2D"), vec![Action::HostCursorMoveBackward(Column(2))]);
}

#[test]
fn osc_swallows_control_and_high_bytes() {
    assert_eq!(decode(b"\x1b]\x0d\x0a\xc3\xa9\xff\x07z"), vec![Action::HostInput('z')]);
}

#[test]
fn cancel_and_substitute_abort_a_sequence() {
    assert_eq!(decode(b"\x1b[5\x18C"), vec![
        Action::HostControlInput(0x18),
        Action::HostInput('C')
    ]);
    assert_eq!(decode(b"\x1b[5\x1aC"), vec![Action::HostSubtitute, Action::HostInput('C')]);
    assert_eq!(decode(b"\x1b\x18C"), vec![Action::HostControlInput(0x18), Action::HostInput('C')]);
    assert_eq!(decode(b"\x1b]x\x18C"), vec![Action::HostControlInput(0x18), Action::HostInput('C')]);
}

#[test]
fn control_byte_inside_a_sequence_is_executed_and_the_sequence_goes_on() {
    assert_eq!(decode(b"\x1b[5\x0dC"), vec![
        Action::HostCarriageReturn,
        Action::HostCursorMoveForward(Column(5))
    ]);
    assert_eq!(decode(b"\x1b\x0a[2A"), vec![Action::HostLineFeed, Action::HostCursorMoveUp(Line(2))]);
}

#[test]
fn escape_inside_a_sequence_starts_over() {
    assert_eq!(decode(b"\x1b[5\x1b[2C"), vec![Action::HostCursorMoveForward(Column(2))]);
}

#[test]
fn high_byte_inside_a_control_sequence_aborts_it() {
    assert_eq!(decode(b"\x1b[5\xc3C"), vec![Action::Noop, Action::HostInput('C')]);
    assert_eq!(decode(b"\x1b[5\x7fC"), vec![Action::Noop, Action::HostInput('C')]);
}

#[test]
fn utf8_characters_are_decoded() {
    assert_eq!(decode("é".as_bytes()), vec![Action::HostInput('é')]);
    assert_eq!(decode("€".as_bytes()), vec![Action::HostInput('€')]);
    assert_eq!(decode("😀".as_bytes()), vec![Action::HostInput('😀')]);
    assert_eq!(decode("a\u{80}\u{7ff}\u{800}\u{ffff}\u{10000}\u{10ffff}".as_bytes()), vec![
        Action::HostInput('a'),
        Action::HostInput('\u{80}'),
        Action::HostInput('\u{7ff}'),
        Action::HostInput('\u{800}'),
        Action::HostInput('\u{ffff}'),
        Action::HostInput('\u{10000}'),
        Action::HostInput('\u{10ffff}'),
    ]);
}

#[test]
fn every_character_decodes_to_itself() {
    let mut decoder = EscapeDecoder::new();
    let mut buf = [0u8; 4];
    for code in (0x80u32..0x110000).step_by(97) {
        if let Some(c) = char::from_u32(code) {
            let bytes = c.encode_utf8(&mut buf).as_bytes();
            assert_eq!(decoder.feed(bytes), vec![Action::HostInput(c)]);
            assert!(decoder.is_ground());
        }
    }
}

#[test]
fn malformed_utf8_is_noop() {
    assert_eq!(decode(b"\xc0\x80"), vec![Action::Noop]);
    assert_eq!(decode(b"\xc1\xbf"), vec![Action::Noop]);
    assert_eq!(decode(b"\xe0\x80\x80"), vec![Action::Noop]);
    assert_eq!(decode(b"\xed\xa0\x80"), vec![Action::Noop]);
    assert_eq!(decode(b"\xf0\x80\x80\x80"), vec![Action::Noop]);
    assert_eq!(decode(b"\xf4\x90\x80\x80"), vec![Action::Noop]);
    assert_eq!(decode(b"\xf7\xbf\xbf\xbf"), vec![Action::Noop]);
}

#[test]
fn broken_utf8_is_noop_and_the_byte_is_read_again() {
    assert_eq!(decode(b"\xc3a"), vec![Action::Noop, Action::HostInput('a')]);
    assert_eq!(decode(b"\xe2\x82a"), vec![Action::Noop, Action::HostInput('a')]);
    assert_eq!(decode(b"\xc3\x1b[2C"), vec![Action::Noop, Action::HostCursorMoveForward(Column(2))]);
    assert_eq!(decode(b"\xc3\xc3\xa9"), vec![Action::Noop, Action::HostInput('é')]);
}

#[test]
fn stray_high_bytes_are_handed_on() {
    assert_eq!(decode(b"\x80"), vec![Action::HostControlInput(0x80)]);
    assert_eq!(decode(b"\xbf"), vec![Action::HostControlInput(0xbf)]);
    assert_eq!(decode(b"\xf8"), vec![Action::HostControlInput(0xf8)]);
    assert_eq!(decode(b"\xff"), vec![Action::HostControlInput(0xff)]);
    assert_eq!(decode(b"\x85"), vec![Action::HostNewline]);
}

#[test]
fn decoding_does_not_depend_on_chunk_size() {
    let stream: &[u8] =
        b"ab\x1b[5C\x1b[C\xc3\xa9\x1b]0;t\x07\x0d\x0a\x1b[3~\xe2\x82\xac\x1b[12;3D\x1b(B\xf0\x9f\x98\x80\x1b[?25l\x7f\x1b]x\x1b\\z\xc3";
    let whole = decode_bytewise(stream);
    assert_eq!(whole.0.len(), 15);
    assert!(!whole.1);
    for size in 1..=stream.len() {
        assert_eq!(decode_in_chunks(stream, size), whole);
    }
}

#[test]
fn decoding_every_split_in_two_gives_the_same_events() {
    let stream: &[u8] = b"x\x1b[15C\xe2\x82\xac\x1b]t\x1b\\\x1b[3~y";
    let whole = decode(stream);
    assert_eq!(whole, vec![
        Action::HostInput('x'),
        Action::HostCursorMoveForward(Column(15)),
        Action::HostInput('€'),
        Action::HostDeleteKey,
        Action::HostInput('y'),
    ]);
    for cut in 0..=stream.len() {
        let mut decoder = EscapeDecoder::new();
        let mut out = decoder.feed(&stream[..cut]);
        out.extend(decoder.feed(&stream[cut..]));
        assert_eq!(out, whole);
        assert!(decoder.is_ground());
    }
}

#[test]
fn empty_chunk_gives_nothing() {
    let mut decoder = EscapeDecoder::new();
    assert_eq!(decoder.feed(b""), vec![]);
    assert!(decoder.is_ground());
    decoder.feed(b"\x1b[");
    assert_eq!(decoder.feed(b""), vec![]);
    assert!(!decoder.is_ground());
    assert_eq!(decoder.feed(b"C"), vec![Action::HostCursorMoveForward(Column(1))]);
}

#[test]
fn perform_print_maps_delete_to_backspace() {
    assert_eq!(InputPerformer::print('\x7f'), Action::HostBackspace);
    assert_eq!(InputPerformer::print('x'), Action::HostInput('x'));
    assert_eq!(InputPerformer::print('\u{10ffff}'), Action::HostInput('\u{10ffff}'));
}

#[test]
fn perform_execute() {
    assert_eq!(InputPerformer::execute(0x09), Action::HostPutTabs(1));
    assert_eq!(InputPerformer::execute(0x08), Action::HostBackspace);
    assert_eq!(InputPerformer::execute(0x0d), Action::HostCarriageReturn);
    assert_eq!(InputPerformer::execute(0x0a), Action::HostLineFeed);
    assert_eq!(InputPerformer::execute(0x0b), Action::HostLineFeed);
    assert_eq!(InputPerformer::execute(0x0c), Action::HostLineFeed);
    assert_eq!(InputPerformer::execute(0x1a), Action::HostSubtitute);
    assert_eq!(InputPerformer::execute(0x85), Action::HostNewline);
    assert_eq!(InputPerformer::execute(0x07), Action::HostControlInput(0x07));
    assert_eq!(InputPerformer::execute(0x00), Action::HostControlInput(0x00));
}

#[test]
fn perform_csi_dispatch() {
    assert_eq!(
        InputPerformer::csi_dispatch(&[5], &[], false, 'C'),
        Action::HostCursorMoveForward(Column(5))
    );
    assert_eq!(
        InputPerformer::csi_dispatch(&[], &[], false, 'C'),
        Action::HostCursorMoveForward(Column(1))
    );
    assert_eq!(
        InputPerformer::csi_dispatch(&[0], &[], false, 'C'),
        Action::HostCursorMoveForward(Column(1))
    );
    assert_eq!(
        InputPerformer::csi_dispatch(&[-4], &[], false, 'D'),
        Action::HostCursorMoveBackward(Column(1))
    );
    assert_eq!(
        InputPerformer::csi_dispatch(&[i64::MAX], &[], false, 'A'),
        Action::HostCursorMoveUp(Line(i64::MAX as usize))
    );
    assert_eq!(InputPerformer::csi_dispatch(&[2, 9], &[], false, 'B'), Action::HostCursorMoveDown(Line(2)));
    assert_eq!(InputPerformer::csi_dispatch(&[3], &[], false, '~'), Action::HostDeleteKey);
    assert_eq!(InputPerformer::csi_dispatch(&[], &[], false, '~'), Action::Noop);
    assert_eq!(InputPerformer::csi_dispatch(&[5], &[], false, 'z'), Action::Noop);
}

#[test]
fn perform_csi_dispatch_reads_the_final_character_and_the_first_parameter_alone() {
    for (intermediates, ignore) in [(&b""[..], false), (&b"?"[..], false), (&b" !"[..], false), (&b""[..], true), (&b"??"[..], true)] {
        assert_eq!(
            InputPerformer::csi_dispatch(&[5], intermediates, ignore, 'C'),
            Action::HostCursorMoveForward(Column(5))
        );
        assert_eq!(
            InputPerformer::csi_dispatch(&[0, 7], intermediates, ignore, 'a'),
            Action::HostCursorMoveForward(Column(1))
        );
        assert_eq!(
            InputPerformer::csi_dispatch(&[9], intermediates, ignore, 'D'),
            Action::HostCursorMoveBackward(Column(9))
        );
        assert_eq!(InputPerformer::csi_dispatch(&[], intermediates, ignore, 'A'), Action::HostCursorMoveUp(Line(1)));
        assert_eq!(InputPerformer::csi_dispatch(&[2], intermediates, ignore, 'B'), Action::HostCursorMoveDown(Line(2)));
        assert_eq!(InputPerformer::csi_dispatch(&[3], intermediates, ignore, '~'), Action::HostDeleteKey);
        assert_eq!(InputPerformer::csi_dispatch(&[5], intermediates, ignore, 'z'), Action::Noop);
    }
}
