use topal::parseable::{Error, Parseable};
use topal::stream::{CharSource, Stream, TextSource};

const TESTFILE: &str = "First line\nSecond line\n";

fn test_stream() -> Stream<TextSource> {
    Stream::new(TextSource::new(TESTFILE), "Test")
}

/// Hands out its characters, then fails with a reason.
struct FailingSource {
    chars: Vec<char>,
    next: usize,
}

impl CharSource for FailingSource {
    fn read_char(&mut self) -> Result<Option<char>, String> {
        if self.next < self.chars.len() {
            self.next += 1;
            Ok(Some(self.chars[self.next - 1]))
        } else {
            Err("connection reset".to_string())
        }
    }
}

#[test]
fn peek() {
    let mut stream = test_stream();
    assert_eq!('F', stream.peek().unwrap());
    assert_eq!("Test:1:1", stream.location());
}

#[test]
fn peek_peek() {
    let mut stream = test_stream();
    assert_eq!('F', stream.peek().unwrap());
    assert_eq!('F', stream.peek().unwrap());
    assert_eq!("Test:1:1", stream.location());
}

#[test]
fn pop() {
    let mut stream = test_stream();
    assert_eq!('F', stream.pop().unwrap());
    assert_eq!("Test:1:2", stream.location());
}

#[test]
fn pop_peek() {
    let mut stream = test_stream();
    assert_eq!('F', stream.pop().unwrap());
    assert_eq!('i', stream.peek().unwrap());
    assert_eq!("Test:1:2", stream.location());
}

#[test]
fn pop_peek_peek() {
    let mut stream = test_stream();
    assert_eq!('F', stream.pop().unwrap());
    assert_eq!('i', stream.peek().unwrap());
    assert_eq!('i', stream.peek().unwrap());
    assert_eq!("Test:1:2", stream.location());
}

#[test]
fn skip() {
    let mut stream = test_stream();
    stream.skip().unwrap();
    assert_eq!("Test:1:2", stream.location());
}

#[test]
fn skip_peek() {
    let mut stream = test_stream();
    stream.skip().unwrap();
    assert_eq!('i', stream.peek().unwrap());
    assert_eq!("Test:1:2", stream.location());
}

#[test]
fn skip_peek_peek() {
    let mut stream = test_stream();
    stream.skip().unwrap();
    assert_eq!('i', stream.peek().unwrap());
    assert_eq!('i', stream.peek().unwrap());
    assert_eq!("Test:1:2", stream.location());
}

#[test]
fn skip_after_peek_advances_position() {
    let mut stream = Stream::new(TextSource::new("\tx"), "t");
    assert_eq!('\t', stream.peek().unwrap());
    stream.skip().unwrap();
    assert_eq!("t:1:9", stream.location());
    assert_eq!(stream.position().column(), 9);
}

#[test]
fn pop_positions_over_lines() {
    let mut stream = Stream::new(TextSource::new("a\nbc"), "s");
    let expected = [
        ((1, 1), 'a', (1, 2)),
        ((1, 2), '\n', (2, 1)),
        ((2, 1), 'b', (2, 2)),
        ((2, 2), 'c', (2, 3)),
    ];
    for (before, c, after) in expected {
        let p = stream.position();
        assert_eq!((p.line(), p.column()), before);
        assert_eq!(stream.pop().unwrap(), c);
        let p = stream.position();
        assert_eq!((p.line(), p.column()), after);
    }
    assert_eq!(stream.pop(), Err(Error::EOS));
    assert_eq!("s:2:3", stream.location());
}

#[test]
fn repeated_peeks_keep_position() {
    let mut stream = Stream::new(TextSource::new("xy"), "s");
    stream.pop().unwrap();
    for _ in 0..5 {
        assert_eq!(stream.peek().unwrap(), 'y');
        assert_eq!("s:1:2", stream.location());
    }
}

#[test]
fn take_match_consumes() {
    let mut stream = Stream::new(TextSource::new("xy"), "s");
    assert_eq!(stream.take('x'), Ok(true));
    assert_eq!("s:1:2", stream.location());
    assert_eq!(stream.pop().unwrap(), 'y');
}

#[test]
fn take_mismatch_consumes_nothing() {
    let mut stream = Stream::new(TextSource::new("xy"), "s");
    assert_eq!(stream.take('y'), Ok(false));
    assert_eq!("s:1:1", stream.location());
    assert_eq!(stream.peek().unwrap(), 'x');
    assert_eq!(stream.take('z'), Ok(false));
    assert_eq!(stream.pop().unwrap(), 'x');
    assert_eq!("s:1:2", stream.location());
}

#[test]
fn take_at_end() {
    let mut stream = Stream::new(TextSource::new(""), "s");
    assert_eq!(stream.take('x'), Err(Error::EOS));
}

#[test]
fn empty_source_ends() {
    let mut stream = Stream::new(TextSource::new(""), "empty");
    assert_eq!(stream.peek(), Err(Error::EOS));
    assert_eq!(stream.pop(), Err(Error::EOS));
    assert_eq!(stream.skip(), Err(Error::EOS));
    assert_eq!("empty:1:1", stream.location());
}

#[test]
fn broken_source_reports_reason() {
    let source = FailingSource { chars: vec!['a'], next: 0 };
    let mut stream = Stream::new(source, "net");
    assert_eq!(stream.pop().unwrap(), 'a');
    let err = stream.peek().unwrap_err();
    assert_eq!(err, Error::Broken("connection reset".to_string()));
    assert_eq!(err.message(), "Unexpected end of stream: connection reset");
    assert_eq!("net:1:2", stream.location());
}

#[test]
fn non_ascii_characters() {
    let mut stream = Stream::new(TextSource::new("é→x"), "u");
    assert_eq!(stream.pop().unwrap(), 'é');
    assert_eq!(stream.pop().unwrap(), '→');
    assert_eq!(stream.peek().unwrap(), 'x');
    assert_eq!("u:1:3", stream.location());
    assert_eq!(stream.name(), "u");
}

#[test]
fn error_messages() {
    assert_eq!(Error::EOS.message(), "End of stream");
    assert_eq!(Error::SyntaxError.message(), "Error parsing");
}

#[test]
fn file_1_5() {
    let filename = "testfiles/1.5";
    let mut streamreader = Stream::new(TextSource::new("1234"), filename);
    loop {
        match streamreader.skip() {
            Ok(_) => (),
            Err(Error::EOS) => break,
            Err(err) => panic!("{}", err.message()),
        };
    }
    assert_eq!(format!("{}:1:5", filename), streamreader.location());
}

#[test]
fn name_kept_through_reads() {
    let mut s = Stream::new(TextSource::new("ab"), "kept");
    s.peek().unwrap();
    assert_eq!(s.take('z'), Ok(false));
    assert_eq!(s.transform(|c: char| if c == 'a' { Some(1) } else { None }), Ok(Some(1)));
    s.pop().unwrap();
    assert_eq!(s.pop(), Err(Error::EOS));
    assert_eq!(s.name(), "kept");
    assert_eq!("kept:1:3", s.location());
}
