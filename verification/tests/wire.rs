use ouroboros_tui::wire::{outbound, ClientError, LineReader, Next, Waiting};

fn feed(reader: &mut LineReader, chunk: &[u8]) -> Vec<String> {
    let mut lines = Vec::new();
    reader.received(&chunk.to_vec());
    loop {
        match reader.next_line() {
            Next::Line(line) => lines.push(String::from_utf8(line).expect("utf-8")),
            Next::Wait => return lines,
            Next::Failed(error) => panic!("{error:?}"),
        }
    }
}

#[test]
fn reads_frames_that_arrive_joined_in_one_read() {
    let mut reader = LineReader::new(1024);

    assert_eq!(feed(&mut reader, b"{\"a\":1}\n{\"b\":2}\n"), vec!["{\"a\":1}", "{\"b\":2}"]);
    assert!(reader.closed().is_ok());
}

#[test]
fn reads_a_frame_split_across_reads() {
    let mut reader = LineReader::new(1024);
    let mut lines = Vec::new();
    for chunk in [&b"{\"a\":"[..], &b"1234"[..], &b"5}\n"[..]] {
        lines.extend(feed(&mut reader, chunk));
    }

    assert_eq!(lines, vec!["{\"a\":12345}"]);
}

#[test]
fn strips_a_carriage_return_before_the_newline() {
    let mut reader = LineReader::new(1024);

    assert_eq!(feed(&mut reader, b"{}\r\n"), vec!["{}"]);
}

#[test]
fn refuses_a_line_that_never_terminates_inside_the_limit() {
    let mut reader = LineReader::new(64);
    reader.received(&vec![b'x'; 8192]);

    assert!(matches!(
        reader.next_line(),
        Next::Failed(ClientError::FrameTooLarge { limit: 64 })
    ));
    assert!(matches!(reader.next_line(), Next::Failed(ClientError::ConnectionClosed)));
}

#[test]
fn a_clean_end_of_stream_is_not_an_error() {
    let mut reader = LineReader::new(1024);

    assert!(matches!(reader.next_line(), Next::Wait));
    assert!(reader.closed().is_ok());
}

#[test]
fn an_end_of_stream_mid_frame_is_an_error() {
    let mut reader = LineReader::new(1024);

    assert!(feed(&mut reader, b"{\"a\":1}").is_empty());
    assert!(matches!(reader.closed(), Err(ClientError::Io(_))));
}

#[test]
fn a_frame_that_was_written_is_read_back() {
    let frame = outbound(b"{\"id\":1}".to_vec(), 64).expect("a frame");
    let mut reader = LineReader::new(64);

    assert_eq!(feed(&mut reader, &frame), vec!["{\"id\":1}"]);
    assert!(matches!(
        outbound(vec![b'x'; 65], 64),
        Err(ClientError::FrameTooLarge { limit: 64 })
    ));
}

#[test]
fn errors_read_as_sentences() {
    assert_eq!(ClientError::ConnectionClosed.message(), "the connection closed");
    assert_eq!(ClientError::Timeout.message(), "the request exceeded its client ceiling");
    assert_eq!(
        ClientError::FrameTooLarge { limit: 64 }.message(),
        "a frame exceeded the 64 byte inbound line limit"
    );
    assert_eq!(
        ClientError::BadJson("eof".to_string()).message(),
        "the server sent something unreadable: eof"
    );
    assert_eq!(ClientError::Io("reset".to_string()).message(), "transport failure: reset");
    assert_eq!(ClientError::Stopped(String::new()).message(), "the client is not running");
    assert_eq!(
        ClientError::Stopped("asked to".to_string()).message(),
        "the client stopped: asked to"
    );
    assert!(ClientError::Stopped(String::new()).is_fatal());
    assert!(!ClientError::Timeout.is_fatal());
}

#[test]
fn a_call_that_was_forgotten_is_not_waited_for() {
    let mut waiting = Waiting::new();
    waiting.asked(1);
    waiting.asked(2);

    assert!(waiting.forget(1));
    assert!(!waiting.forget(1));
    assert_eq!(waiting.abandon(), vec![2]);
    assert!(waiting.abandon().is_empty());
}

#[test]
fn a_stream_is_read_line_by_line() {
    let bytes = b"{}\r\nab\n\nlast\n";
    for size in 1..=bytes.len() {
        let mut reader = LineReader::new(4);
        let mut lines = Vec::new();
        for chunk in bytes.chunks(size) {
            reader.received(&chunk.to_vec());
            while let Next::Line(line) = reader.next_line() {
                lines.push(line);
            }
        }
        let said: Vec<&[u8]> = lines.iter().map(Vec::as_slice).collect();
        assert_eq!(said, vec![&b"{}"[..], b"ab", b"", b"last"], "reads of {size}");
        assert!(reader.closed().is_ok());
    }
}
