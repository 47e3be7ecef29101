use ptymux::decoder::EscapeDecoder;
use ptymux::encoder::console_input;
use ptymux::event::{Action, Column, Line, PtyIndex};

#[test]
fn input_character_is_sent_in_utf8() {
    assert_eq!(console_input(Action::HostInput('a')), b"a".to_vec());
    assert_eq!(console_input(Action::HostInput('é')), vec![0xc3, 0xa9]);
    assert_eq!(console_input(Action::HostInput('€')), vec![0xe2, 0x82, 0xac]);
    assert_eq!(console_input(Action::HostInput('😀')), vec![0xf0, 0x9f, 0x98, 0x80]);
    assert_eq!(console_input(Action::HostInput('\0')), vec![0]);
}

#[test]
fn control_bytes_are_sent_as_they_are() {
    assert_eq!(console_input(Action::HostControlInput(0x03)), vec![0x03]);
    assert_eq!(console_input(Action::HostControlInput(0xff)), vec![0xff]);
    assert_eq!(console_input(Action::HostCarriageReturn), vec![0x0d]);
    assert_eq!(console_input(Action::HostLineFeed), vec![0x0a]);
    assert_eq!(console_input(Action::HostBackspace), vec![0x08]);
}

#[test]
fn cursor_moves_are_sent_as_control_sequences() {
    assert_eq!(console_input(Action::HostCursorMoveForward(Column(1))), b"\x1b[1C".to_vec());
    assert_eq!(console_input(Action::HostCursorMoveForward(Column(23))), b"\x1b[23C".to_vec());
    assert_eq!(console_input(Action::HostCursorMoveBackward(Column(7))), b"\x1b[7D".to_vec());
    assert_eq!(console_input(Action::HostCursorMoveUp(Line(100))), b"\x1b[100A".to_vec());
    assert_eq!(console_input(Action::HostCursorMoveDown(Line(65535))), b"\x1b[65535B".to_vec());
    assert_eq!(console_input(Action::HostCursorMoveDown(Line(0))), b"\x1b[0B".to_vec());
}

#[test]
fn cursor_move_count_is_cut_to_sixteen_bits() {
    assert_eq!(console_input(Action::HostCursorMoveForward(Column(65536))), b"\x1b[0C".to_vec());
    assert_eq!(console_input(Action::HostCursorMoveUp(Line(65536 + 42))), b"\x1b[42A".to_vec());
    assert_eq!(console_input(Action::HostCursorMoveBackward(Column(131071))), b"\x1b[65535D".to_vec());
}

#[test]
fn delete_key_is_sent_as_its_control_sequence() {
    assert_eq!(console_input(Action::HostDeleteKey), b"\x1b[3~".to_vec());
}

#[test]
fn other_events_send_nothing() {
    for action in [
        Action::Noop,
        Action::Startup,
        Action::ModeChange,
        Action::HostPutTabs(1),
        Action::HostSubtitute,
        Action::HostNewline,
        Action::HostInsertKey,
        Action::KeyInputReceived(b'a'),
        Action::PtyOutReceived(0, b'a'),
        Action::PtyOutput(PtyIndex(0), 'a'),
        Action::PtyDead(0),
    ] {
        assert_eq!(console_input(action), Vec::<u8>::new());
    }
}

#[test]
fn what_is_sent_decodes_to_the_event() {
    let mut decoder = EscapeDecoder::new();
    for action in [
        Action::HostInput('a'),
        Action::HostInput('é'),
        Action::HostInput('😀'),
        Action::HostControlInput(0x03),
        Action::HostCarriageReturn,
        Action::HostLineFeed,
        Action::HostBackspace,
        Action::HostCursorMoveForward(Column(1)),
        Action::HostCursorMoveForward(Column(65535)),
        Action::HostCursorMoveBackward(Column(10)),
        Action::HostCursorMoveUp(Line(99)),
        Action::HostCursorMoveDown(Line(4096)),
        Action::HostDeleteKey,
    ] {
        assert_eq!(decoder.feed(&console_input(action)), vec![action]);
        assert!(decoder.is_ground());
    }
}
