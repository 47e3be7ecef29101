use ptymux::decoder::{EscapeDecoder, InputPerformer};
use ptymux::event::{Action, Column, Line};
use vte::{Parser, Perform};

/// Collects the event of each thing the parser recognises.
struct Collector(Vec<Action>);

impl Perform for Collector {
    fn print(&mut self, c: char) {
        self.0.push(InputPerformer::print(c));
    }

    fn execute(&mut self, byte: u8) {
        self.0.push(InputPerformer::execute(byte));
    }

    fn hook(&mut self, _params: &[i64], _intermediates: &[u8], _ignore: bool) {}

    fn put(&mut self, _byte: u8) {}

    fn unhook(&mut self) {}

    fn osc_dispatch(&mut self, _params: &[&[u8]]) {}

    fn csi_dispatch(&mut self, params: &[i64], intermediates: &[u8], ignore: bool, c: char) {
        self.0.push(InputPerformer::csi_dispatch(params, intermediates, ignore, c));
    }

    fn esc_dispatch(&mut self, _params: &[i64], _intermediates: &[u8], _ignore: bool, _byte: u8) {}
}

fn parse(bytes: &[u8]) -> Vec<Action> {
    let mut parser = Parser::new();
    let mut collector = Collector(Vec::new());
    for b in bytes {
        parser.advance(&mut collector, *b);
    }
    collector.0
}

#[test]
fn parser_events_for_keys() {
    assert_eq!(parse(b"a"), vec![Action::HostInput('a')]);
    assert_eq!(parse(b"\x7f"), vec![Action::HostBackspace]);
    assert_eq!(parse(b"\r"), vec![Action::HostCarriageReturn]);
    assert_eq!(parse(b"\t"), vec![Action::HostPutTabs(1)]);
    assert_eq!(parse(b"\x03"), vec![Action::HostControlInput(3)]);
    assert_eq!(parse(b"\x1b[A"), vec![Action::HostCursorMoveUp(Line(1))]);
    assert_eq!(parse(b"\x1b[B"), vec![Action::HostCursorMoveDown(Line(1))]);
    assert_eq!(parse(b"\x1b[5C"), vec![Action::HostCursorMoveForward(Column(5))]);
    assert_eq!(parse(b"\x1b[0D"), vec![Action::HostCursorMoveBackward(Column(1))]);
    assert_eq!(parse(b"\x1b[3~"), vec![Action::HostDeleteKey]);
    assert_eq!(parse(b"\x1b[~"), vec![Action::Noop]);
    assert_eq!(parse(b"\x1b[2~"), vec![Action::Noop]);
    assert_eq!(parse(b"\x1b[?5C"), vec![Action::HostCursorMoveForward(Column(5))]);
    assert_eq!(parse("é".as_bytes()), vec![Action::HostInput('é')]);
}

#[test]
fn parser_and_decoder_agree_on_keys() {
    let streams: [&[u8]; 13] = [
        b"\x1b[?5C\x1b[>2A\x1b[?3~",
        b"plain text",
        b"\r\n\t\x08\x0b\x0c\x1a",
        b"\x00\x01\x02\x03\x07",
        b"\x7f",
        b"\x1b[A\x1b[B\x1b[C\x1b[D",
        b"\x1b[12A\x1b[0B\x1b[7;9C\x1b[65535D",
        b"\x1b[3~\x1b[2~\x1b[5~",
        b"\x1b[1m\x1b[H\x1b[2J",
        b"\x1b[?25h\x1b[5 q",
        b"\x1b]0;title\x07after",
        "caf\u{e9} \u{20ac} \u{1f600}".as_bytes(),
        b"\x1b[5\x0dC",
    ];
    for stream in streams {
        let mut decoder = EscapeDecoder::new();
        assert_eq!(decoder.feed(stream), parse(stream));
        assert!(decoder.is_ground());
    }
}
