//! Behavior tests on concrete values: framing under every chunk size, the
//! write/read round trip, mapper totality, the grammar's edge cases and
//! the error paths.

use quirc::event::Event;
use quirc::event::MessageTarget;
use quirc::event::Prefix;
use quirc::parser::parse_input;
use quirc::parser::prefix_parser;
use quirc::parser::raw_event_parser;
use quirc::parser::to_prefix_server;
use quirc::stream::Stream;
use quirc::stream::StreamParser;
use quirc::stream::StreamWriter;

/// Delivers its bytes in chunks of a fixed size; signals end of stream
/// after the last byte.
struct ChunkedSource {
    data: Vec<u8>,
    pos: usize,
    chunk: usize,
}

impl Stream for ChunkedSource {
    fn read(&mut self, buf: &mut Vec<u8>, max: usize) -> Option<usize> {
        let n = (self.data.len() - self.pos).min(self.chunk).min(max);
        buf.extend_from_slice(&self.data[self.pos..self.pos + n]);
        self.pos += n;
        Some(n)
    }

    fn write(&mut self, _data: &[u8]) -> Option<usize> {
        None
    }

    fn flush(&mut self) -> bool {
        true
    }
}

/// A loopback channel: everything written becomes readable.
#[derive(Default)]
struct Loopback {
    data: Vec<u8>,
    pos: usize,
}

impl Stream for &mut Loopback {
    fn read(&mut self, buf: &mut Vec<u8>, max: usize) -> Option<usize> {
        let n = (self.data.len() - self.pos).min(max);
        buf.extend_from_slice(&self.data[self.pos..self.pos + n]);
        self.pos += n;
        Some(n)
    }

    fn write(&mut self, data: &[u8]) -> Option<usize> {
        self.data.extend_from_slice(data);
        Some(data.len())
    }

    fn flush(&mut self) -> bool {
        true
    }
}

/// A channel whose reads always fail.
struct FailingSource;

impl Stream for FailingSource {
    fn read(&mut self, _buf: &mut Vec<u8>, _max: usize) -> Option<usize> {
        None
    }

    fn write(&mut self, _data: &[u8]) -> Option<usize> {
        None
    }

    fn flush(&mut self) -> bool {
        false
    }
}

#[test]
fn framing_every_chunk_size() {
    let stream = b"one terminator here\r\nleftover".to_vec();
    for chunk in 1..=stream.len() {
        let mut parser = StreamParser::new(ChunkedSource { data: stream.clone(), pos: 0, chunk });
        let line = parser.read_line().unwrap();
        assert_eq!(line, b"one terminator here\r\n".to_vec());
    }
}

#[test]
fn framing_keeps_remainder_buffered() {
    let mut parser = StreamParser::new(ChunkedSource {
        data: b"first\r\nsecond\r\n".to_vec(),
        pos: 0,
        chunk: 64,
    });
    assert_eq!(parser.read_line().unwrap(), b"first\r\n".to_vec());
    assert_eq!(parser.read_line().unwrap(), b"second\r\n".to_vec());
    assert_eq!(parser.read_line().unwrap(), Vec::<u8>::new());
}

#[test]
fn round_trip_via_loopback() {
    let mut chan = Loopback::default();
    {
        let mut writer = StreamWriter::new(&mut chan);
        assert!(writer.write_line(&b"NICK test".to_vec()));
    }
    let mut parser = StreamParser::new(&mut chan);
    let line = parser.read_line().unwrap();
    assert_eq!(line, b"NICK test\r\n".to_vec());
    assert_eq!(&line[..line.len() - 2], b"NICK test");
}

#[test]
fn byte_by_byte_equals_whole() {
    let line = ":irc.example.com PING irc.example.com\r\n";
    let mut whole = StreamParser::new(ChunkedSource {
        data: line.as_bytes().to_vec(),
        pos: 0,
        chunk: line.len(),
    });
    let mut single = StreamParser::new(ChunkedSource {
        data: line.as_bytes().to_vec(),
        pos: 0,
        chunk: 1,
    });
    let from_whole = whole.read_line().unwrap();
    let from_single = single.read_line().unwrap();
    assert_eq!(from_whole, from_single);
    let text = std::str::from_utf8(&from_single).unwrap();
    assert_eq!(
        parse_input(text),
        Event::Ping { server: "irc.example.com".to_string(), server2: None }
    );
}

#[test]
fn end_of_stream_and_failures() {
    // Clean end of stream: empty source, empty buffer.
    let mut parser = StreamParser::new(ChunkedSource { data: Vec::new(), pos: 0, chunk: 1 });
    assert_eq!(parser.read_line().unwrap(), Vec::<u8>::new());

    // Severed: source exhausted with undelimited bytes pending.
    let mut parser = StreamParser::new(ChunkedSource {
        data: b"no terminator".to_vec(),
        pos: 0,
        chunk: 4,
    });
    assert_eq!(parser.read_line(), None);

    // A failing read is a hard failure.
    let mut parser = StreamParser::new(FailingSource);
    assert_eq!(parser.read_line(), None);

    // A sink that accepts nothing fails the write.
    let mut writer = StreamWriter::new(FailingSource);
    assert!(!writer.write_line(&b"payload".to_vec()));
}

#[test]
fn mapper_totality_on_valid_lines() {
    // Every syntactically valid line yields exactly one event.
    assert_eq!(
        parse_input("PING abc def\r\n"),
        Event::Ping { server: "abc".to_string(), server2: Some("def".to_string()) }
    );
    // Recognized command with its required parameter missing: semantic
    // failure, downgraded to Unknown.
    assert_eq!(parse_input("PING\r\n"), Event::Unknown);
    // Unrecognized alphabetic and numeric commands.
    assert_eq!(parse_input("PRIVMSG Wiz :hello\r\n"), Event::Unknown);
    assert_eq!(parse_input(":irc.example.com 001 test Welcome\r\n"), Event::Unknown);
    // The match is case-sensitive and exact.
    assert_eq!(parse_input("ping abc\r\n"), Event::Unknown);
    assert_eq!(parse_input("PINGX abc\r\n"), Event::Unknown);
}

#[test]
fn syntax_failures_yield_unknown() {
    // No terminator.
    assert_eq!(parse_input("PING abc"), Event::Unknown);
    // Empty input, bare terminator, command missing.
    assert_eq!(parse_input(""), Event::Unknown);
    assert_eq!(parse_input("\r\n"), Event::Unknown);
    // A trailing marker with nothing after it.
    assert_eq!(parse_input("CMD :\r\n"), Event::Unknown);
    // A space that introduces no parameter.
    assert_eq!(parse_input("PING \r\n"), Event::Unknown);
    // A prefix whose closing space is missing.
    assert_eq!(parse_input(":irc.example.com\r\n"), Event::Unknown);
}

#[test]
fn grammar_edge_cases() {
    // A `!` with no username does not make a user prefix, and the leftover
    // `!` fails the server form's closing space too.
    assert_eq!(prefix_parser(":nick!@example.com end"), None);
    // An empty host is a valid (empty) server prefix.
    assert_eq!(
        prefix_parser(": end").unwrap(),
        ("end", Prefix::Server { host: "".to_string() })
    );
    // Fifteen space-separated words: fourteen middles, then everything
    // after the fourteenth (spaces included) is one trailing parameter.
    let line = "LIST a1 a2 a3 a4 a5 a6 a7 a8 a9 a10 a11 a12 a13 a14 a15 a16\r\n";
    let (rest, msg) = raw_event_parser(line).unwrap();
    assert_eq!(rest, "");
    assert_eq!(msg.params.len(), 15);
    assert_eq!(msg.params[13], "a14".to_string());
    assert_eq!(msg.params[14], "a15 a16".to_string());
    // The trailing colon marker is consumed, colons inside are literal.
    let (_, msg) = raw_event_parser("CMD :a:b\r\n").unwrap();
    assert_eq!(msg.params, vec!["a:b".to_string()]);
    // A numeric command token.
    let (_, msg) = raw_event_parser("004 x\r\n").unwrap();
    assert_eq!(msg.command, "004".to_string());
    assert_eq!(msg.prefix, None);
}

#[test]
fn to_prefix_server_builds_server_prefix() {
    assert_eq!(
        to_prefix_server("irc.example.com"),
        Prefix::Server { host: "irc.example.com".to_string() }
    );
}

#[test]
fn trailing_as_only_parameter_reaches_mapper() {
    assert_eq!(
        parse_input("PING :irc.example.com\r\n"),
        Event::Ping { server: "irc.example.com".to_string(), server2: None }
    );
}

#[test]
fn data_model_owns_its_text() {
    let event = Event::NewMessage {
        target: MessageTarget::Channel("#chan".to_string()),
        message: "hello".to_string(),
    };
    assert_eq!(
        event,
        Event::NewMessage {
            target: MessageTarget::Channel("#chan".to_string()),
            message: "hello".to_string(),
        }
    );
    assert_ne!(
        MessageTarget::Channel("x".to_string()),
        MessageTarget::User("x".to_string())
    );
}
