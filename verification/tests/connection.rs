use minihttp::classify::IoErrorKind;
use minihttp::connection::Connection;
use minihttp::protocol::{
    Action, CloseReason, DecodeOutcome, Phase, READ_INCREMENT, READ_WATERMARK, RESPONSE_INCREMENT,
};
use minihttp::message::{Header, Request, Response, MAX_HEADERS};
use minihttp::service::HttpService;
use std::io;

/// Answers every request with its path and counts the calls.
struct Echo {
    calls: usize,
}

impl HttpService for Echo {
    fn call(&mut self, req: Request, rsp: &mut Response) -> io::Result<()> {
        self.calls += 1;
        rsp.append_body(req.path().as_bytes());
        Ok(())
    }
}

/// Fails on the path `/fail`, after staging half an answer.
struct Moody {
    calls: usize,
}

impl HttpService for Moody {
    fn call(&mut self, req: Request, rsp: &mut Response) -> io::Result<()> {
        self.calls += 1;
        rsp.status_code(202, "Accepted");
        rsp.append_body(b"half an answer");
        if req.path() == "/fail" {
            Err(io::Error::new(io::ErrorKind::Other, "boom"))
        } else {
            Ok(())
        }
    }
}

fn decode(input: &[u8]) -> DecodeOutcome {
    let mut slots = [httparse::EMPTY_HEADER; MAX_HEADERS];
    let mut parsed = httparse::Request::new(&mut slots);
    match parsed.parse(input) {
        Ok(httparse::Status::Complete(used)) => {
            let mut headers = Vec::new();
            for h in parsed.headers.iter() {
                headers.push(Header { name: h.name.to_string(), value: h.value.to_vec() });
            }
            let made = Request::new(
                parsed.method.unwrap().to_string(),
                parsed.path.unwrap().to_string(),
                parsed.version.unwrap(),
                headers,
                input[used..].to_vec(),
            );
            match made {
                Some(req) => DecodeOutcome::Complete(req),
                None => DecodeOutcome::Malformed,
            }
        }
        Ok(httparse::Status::Partial) => DecodeOutcome::NeedMoreData,
        Err(_) => DecodeOutcome::Malformed,
    }
}

fn encode(rsp: &Response) -> Vec<u8> {
    let mut out = format!(
        "HTTP/1.1 {} {}\r\nContent-Length: {}\r\n\r\n",
        rsp.status(),
        rsp.reason(),
        rsp.body().len()
    )
    .into_bytes();
    out.extend_from_slice(rsp.body());
    out
}

/// Carries out what the connection asks for, against a socket that takes
/// every write whole, until it asks to read, to wait or to close.
fn carry_out<S: HttpService>(
    conn: &mut Connection<S>,
    first: Action,
    wire: &mut Vec<u8>,
) -> Action {
    let mut action = first;
    loop {
        action = match action {
            Action::Decode => {
                let outcome = decode(conn.buffered_input());
                conn.on_decoded(outcome)
            }
            Action::Encode { .. } => {
                let bytes = encode(conn.response());
                conn.on_encoded(&bytes)
            }
            Action::Write => {
                let taken = conn.pending_output().to_vec();
                wire.extend_from_slice(&taken);
                conn.on_write(Ok(taken.len()))
            }
            other => return other,
        };
    }
}

fn send<S: HttpService>(conn: &mut Connection<S>, data: &[u8], wire: &mut Vec<u8>) -> Action {
    let action = conn.on_read(Ok(data));
    carry_out(conn, action, wire)
}

#[test]
fn limits_are_those_of_the_engine() {
    assert_eq!(READ_WATERMARK, 512);
    assert_eq!(READ_INCREMENT, 32768);
    assert_eq!(RESPONSE_INCREMENT, 131072);
}

#[test]
fn new_connection_awaits_headers() {
    let conn = Connection::new(Echo { calls: 0 });
    assert_eq!(conn.phase(), Phase::AwaitHeaders);
    assert_eq!(conn.resume(), Action::Read { max: 32768 });
    assert_eq!(conn.read_buffer().len(), 0);
    assert_eq!(conn.read_buffer().capacity(), 32768);
    assert_eq!(conn.read_buffer().watermark(), 512);
    assert_eq!(conn.response_buffer().len(), 0);
    assert_eq!(conn.response_buffer().capacity(), 131072);
    assert_eq!(conn.response_buffer().watermark(), 0);
    assert_eq!(conn.buffered_input(), b"");
    assert_eq!(conn.pending_output(), b"");
    assert_eq!(conn.response().status(), 200);
    assert_eq!(conn.handler().calls, 0);
}

#[test]
fn request_split_in_two_reads_is_answered_once() {
    let mut conn = Connection::new(Echo { calls: 0 });
    let mut wire = Vec::new();
    let first = conn.on_read(Ok(b"GET / HTTP/1.1\r\nHo"));
    assert_eq!(first, Action::Read { max: 32768 - 18 });
    assert_eq!(conn.phase(), Phase::AwaitHeaders);
    assert_eq!(conn.handler().calls, 0);
    let second = conn.on_read(Ok(b"st: x\r\n\r\n"));
    assert_eq!(second, Action::Decode);
    assert_eq!(conn.phase(), Phase::HaveHeaders);
    assert_eq!(conn.buffered_input(), b"GET / HTTP/1.1\r\nHost: x\r\n\r\n");
    let next = carry_out(&mut conn, second, &mut wire);
    assert_eq!(next, Action::Read { max: 32768 });
    assert_eq!(conn.handler().calls, 1);
    assert_eq!(wire, b"HTTP/1.1 200 Ok\r\nContent-Length: 1\r\n\r\n/");
}

#[test]
fn each_step_of_a_cycle_asks_for_the_next() {
    let mut conn = Connection::new(Echo { calls: 0 });
    assert_eq!(conn.on_read(Ok(b"GET /a HTTP/1.1\r\n\r\n")), Action::Decode);
    let req = decode(conn.buffered_input());
    assert_eq!(conn.on_decoded(req), Action::Encode { fallback: false });
    assert_eq!(conn.phase(), Phase::Dispatched);
    assert_eq!(conn.response().body(), b"/a");
    assert_eq!(conn.on_encoded(b"0123456789"), Action::Write);
    assert_eq!(conn.phase(), Phase::Responding);
    assert_eq!(conn.pending_output(), b"0123456789");
    assert_eq!(conn.on_write(Ok(4)), Action::Write);
    assert_eq!(conn.pending_output(), b"456789");
    assert_eq!(conn.on_write(Ok(6)), Action::Read { max: 32768 });
    assert_eq!(conn.phase(), Phase::AwaitHeaders);
    assert_eq!(conn.pending_output(), b"");
    assert_eq!(conn.buffered_input(), b"");
}

#[test]
fn two_requests_on_one_connection_get_two_responses_in_order() {
    let mut conn = Connection::new(Echo { calls: 0 });
    let mut wire = Vec::new();
    let next = send(&mut conn, b"GET /one HTTP/1.1\r\nHost: x\r\n\r\n", &mut wire);
    assert_eq!(next, Action::Read { max: 32768 });
    let next = send(&mut conn, b"GET /two HTTP/1.1\r\nHost: x\r\n\r\n", &mut wire);
    assert_eq!(next, Action::Read { max: 32768 });
    assert_eq!(conn.handler().calls, 2);
    let expected = b"HTTP/1.1 200 Ok\r\nContent-Length: 4\r\n\r\n/one\
HTTP/1.1 200 Ok\r\nContent-Length: 4\r\n\r\n/two";
    assert_eq!(wire, expected);
}

#[test]
fn one_header_too_many_closes_without_response() {
    let mut request = String::from("GET / HTTP/1.1\r\n");
    for i in 0..17 {
        request.push_str(&format!("X-{}: v\r\n", i));
    }
    request.push_str("\r\n");
    let mut conn = Connection::new(Echo { calls: 0 });
    let mut other = Connection::new(Echo { calls: 0 });
    let mut other_wire = Vec::new();
    assert_eq!(other.on_read(Ok(b"GET /other HTTP/1.1\r\nHo")), Action::Read { max: 32768 - 23 });
    let mut wire = Vec::new();
    let end = send(&mut conn, request.as_bytes(), &mut wire);
    assert_eq!(end, Action::Close(CloseReason::Malformed));
    assert_eq!(conn.phase(), Phase::Closed(CloseReason::Malformed));
    assert_eq!(wire, b"");
    assert_eq!(conn.pending_output(), b"");
    assert_eq!(conn.handler().calls, 0);
    assert_eq!(other.phase(), Phase::AwaitHeaders);
    assert_eq!(other.buffered_input(), b"GET /other HTTP/1.1\r\nHo");
    let next = send(&mut other, b"st: x\r\n\r\n", &mut other_wire);
    assert_eq!(next, Action::Read { max: 32768 });
    assert_eq!(other_wire, b"HTTP/1.1 200 Ok\r\nContent-Length: 6\r\n\r\n/other");
}

#[test]
fn sixteen_headers_are_served() {
    let mut request = String::from("GET /full HTTP/1.1\r\n");
    for i in 0..16 {
        request.push_str(&format!("X-{}: v\r\n", i));
    }
    request.push_str("\r\n");
    let mut conn = Connection::new(Echo { calls: 0 });
    let mut wire = Vec::new();
    let next = send(&mut conn, request.as_bytes(), &mut wire);
    assert_eq!(next, Action::Read { max: 32768 });
    assert_eq!(wire, b"HTTP/1.1 200 Ok\r\nContent-Length: 5\r\n\r\n/full");
}

#[test]
fn silent_client_is_waited_for_and_torn_down_on_close() {
    let mut conn = Connection::new(Echo { calls: 0 });
    assert_eq!(conn.resume(), Action::Read { max: 32768 });
    for _ in 0..3 {
        let action = conn.on_read(Err(IoErrorKind::WouldBlock));
        assert_eq!(action, Action::AwaitReadable { max: 32768 });
        assert_eq!(conn.phase(), Phase::AwaitHeaders);
        assert_eq!(conn.buffered_input(), b"");
        assert_eq!(conn.resume(), Action::Read { max: 32768 });
    }
    assert_eq!(conn.on_read(Ok(b"")), Action::Close(CloseReason::PeerClosed));
    assert_eq!(conn.phase(), Phase::Closed(CloseReason::PeerClosed));
    assert_eq!(conn.handler().calls, 0);
    assert_eq!(conn.pending_output(), b"");
}

#[test]
fn boundary_fires_once_however_the_stream_is_split() {
    let stream = b"GET /split HTTP/1.1\r\nHost: example\r\n\r\n";
    for step in 1..=stream.len() {
        let mut conn = Connection::new(Echo { calls: 0 });
        let mut fired = 0;
        let mut consumed = 0;
        for chunk in stream.chunks(step) {
            let action = conn.on_read(Ok(chunk));
            consumed += chunk.len();
            if action == Action::Decode {
                fired += 1;
                assert_eq!(consumed, stream.len());
            } else {
                assert_eq!(action, Action::Read { max: 32768 - consumed });
            }
        }
        assert_eq!(fired, 1);
        assert_eq!(conn.phase(), Phase::HaveHeaders);
    }
}

#[test]
fn reads_are_not_taken_once_headers_are_buffered() {
    let mut conn = Connection::new(Echo { calls: 0 });
    assert_eq!(conn.on_read(Ok(b"GET / HTTP/1.1\r\n\r\n")), Action::Decode);
    assert_eq!(conn.on_read(Ok(b"more")), Action::Decode);
    assert_eq!(conn.on_read(Err(IoErrorKind::Other)), Action::Decode);
    assert_eq!(conn.buffered_input(), b"GET / HTTP/1.1\r\n\r\n");
    assert_eq!(conn.phase(), Phase::HaveHeaders);
}

#[test]
fn need_more_data_returns_to_reading_with_the_bytes_kept() {
    let mut conn = Connection::new(Echo { calls: 0 });
    assert_eq!(conn.on_read(Ok(b"GET / HTTP/1.1\r\n\r\n")), Action::Decode);
    let action = conn.on_decoded(DecodeOutcome::NeedMoreData);
    assert_eq!(action, Action::Read { max: 32768 - 18 });
    assert_eq!(conn.phase(), Phase::AwaitHeaders);
    assert_eq!(conn.buffered_input(), b"GET / HTTP/1.1\r\n\r\n");
    assert_eq!(conn.on_read(Ok(b"x")), Action::Decode);
    assert_eq!(conn.buffered_input(), b"GET / HTTP/1.1\r\n\r\nx");
}

#[test]
fn failure_of_the_decoders_read_is_classified() {
    let headers = b"POST / HTTP/1.1\r\nContent-Length: 9\r\n\r\n";
    let mut reset = Connection::new(Echo { calls: 0 });
    assert_eq!(reset.on_read(Ok(headers)), Action::Decode);
    assert_eq!(
        reset.on_decoded(DecodeOutcome::Failed(IoErrorKind::ConnectionReset)),
        Action::Close(CloseReason::ConnectionLost)
    );
    let mut eof = Connection::new(Echo { calls: 0 });
    assert_eq!(eof.on_read(Ok(headers)), Action::Decode);
    assert_eq!(
        eof.on_decoded(DecodeOutcome::Failed(IoErrorKind::UnexpectedEof)),
        Action::Close(CloseReason::ConnectionLost)
    );
    let mut other = Connection::new(Echo { calls: 0 });
    assert_eq!(other.on_read(Ok(headers)), Action::Decode);
    assert_eq!(
        other.on_decoded(DecodeOutcome::Failed(IoErrorKind::Other)),
        Action::Close(CloseReason::IoFailure)
    );
    assert_eq!(other.handler().calls, 0);
    assert_eq!(other.pending_output(), b"");
    let mut blocked = Connection::new(Echo { calls: 0 });
    assert_eq!(blocked.on_read(Ok(headers)), Action::Decode);
    assert_eq!(blocked.on_decoded(DecodeOutcome::Failed(IoErrorKind::WouldBlock)), Action::Decode);
    assert_eq!(blocked.phase(), Phase::HaveHeaders);
    assert_eq!(blocked.buffered_input(), &headers[..]);
    assert_eq!(blocked.handler().calls, 0);
}

#[test]
fn handler_is_called_once_per_request_and_not_otherwise() {
    let mut conn = Connection::new(Echo { calls: 0 });
    assert_eq!(conn.on_read(Ok(b"GET /a HTTP/1.1\r\n\r")), Action::Read { max: 32768 - 18 });
    assert_eq!(conn.handler().calls, 0);
    assert_eq!(conn.on_decoded(DecodeOutcome::Malformed), Action::Read { max: 32768 - 18 });
    assert_eq!(conn.handler().calls, 0);
    assert_eq!(conn.on_read(Ok(b"\n")), Action::Decode);
    assert_eq!(conn.handler().calls, 0);
    assert_eq!(conn.on_decoded(DecodeOutcome::NeedMoreData), Action::Read { max: 32768 - 19 });
    assert_eq!(conn.handler().calls, 0);
    assert_eq!(conn.on_read(Ok(b"x")), Action::Decode);
    let req = decode(b"GET /a HTTP/1.1\r\n\r\n");
    assert_eq!(conn.on_decoded(req), Action::Encode { fallback: false });
    assert_eq!(conn.handler().calls, 1);
    let again = decode(b"GET /a HTTP/1.1\r\n\r\n");
    assert_eq!(conn.on_decoded(again), Action::Encode { fallback: false });
    assert_eq!(conn.handler().calls, 1);
    assert_eq!(conn.on_encoded(b"r"), Action::Write);
    assert_eq!(conn.on_write(Ok(1)), Action::Read { max: 32768 });
    assert_eq!(conn.handler().calls, 1);
}

#[test]
fn malformed_request_closes_the_connection() {
    let mut conn = Connection::new(Echo { calls: 0 });
    let mut wire = Vec::new();
    let end = send(&mut conn, b"\x01\x02 nonsense\r\n\r\n", &mut wire);
    assert_eq!(end, Action::Close(CloseReason::Malformed));
    assert_eq!(wire, b"");
    assert_eq!(conn.resume(), Action::Close(CloseReason::Malformed));
}

#[test]
fn failing_handler_yields_500_and_the_connection_goes_on() {
    let mut conn = Connection::new(Moody { calls: 0 });
    let mut wire = Vec::new();
    assert_eq!(conn.on_read(Ok(b"GET /fail HTTP/1.1\r\n\r\n")), Action::Decode);
    let req = decode(conn.buffered_input());
    assert_eq!(conn.on_decoded(req), Action::Encode { fallback: true });
    assert_eq!(conn.phase(), Phase::Dispatched);
    assert_eq!(conn.response().status(), 500);
    assert_eq!(conn.response().reason(), "Internal Server Error");
    assert_eq!(conn.response().body(), b"boom");
    let next = carry_out(&mut conn, Action::Encode { fallback: true }, &mut wire);
    assert_eq!(next, Action::Read { max: 32768 });
    assert_eq!(wire, b"HTTP/1.1 500 Internal Server Error\r\nContent-Length: 4\r\n\r\nboom");
    wire.clear();
    let next = send(&mut conn, b"GET /fine HTTP/1.1\r\n\r\n", &mut wire);
    assert_eq!(next, Action::Read { max: 32768 });
    assert_eq!(wire, b"HTTP/1.1 202 Accepted\r\nContent-Length: 14\r\n\r\nhalf an answer");
    assert_eq!(conn.handler().calls, 2);
}

#[test]
fn failing_handler_leaves_another_connection_alone() {
    let mut failing = Connection::new(Moody { calls: 0 });
    let mut other = Connection::new(Moody { calls: 0 });
    let mut failing_wire = Vec::new();
    let mut other_wire = Vec::new();
    assert_eq!(other.on_read(Ok(b"GET /fine HTTP/1.1\r\n\r\n")), Action::Decode);
    let req = decode(other.buffered_input());
    assert_eq!(other.on_decoded(req), Action::Encode { fallback: false });
    assert_eq!(other.on_encoded(b"0123456789"), Action::Write);
    assert_eq!(other.on_write(Ok(3)), Action::Write);
    let next = send(&mut failing, b"GET /fail HTTP/1.1\r\n\r\n", &mut failing_wire);
    assert_eq!(next, Action::Read { max: 32768 });
    assert_eq!(
        failing_wire,
        b"HTTP/1.1 500 Internal Server Error\r\nContent-Length: 4\r\n\r\nboom"
    );
    assert_eq!(other.phase(), Phase::Responding);
    assert_eq!(other.pending_output(), b"3456789");
    assert_eq!(other.response().status(), 202);
    assert_eq!(other.response().body(), b"half an answer");
    assert_eq!(other.handler().calls, 1);
    let next = carry_out(&mut other, Action::Write, &mut other_wire);
    assert_eq!(next, Action::Read { max: 32768 });
    assert_eq!(other_wire, b"3456789");
}

#[test]
fn response_is_blank_before_each_call() {
    let mut conn = Connection::new(Echo { calls: 0 });
    let mut wire = Vec::new();
    send(&mut conn, b"GET /first HTTP/1.1\r\n\r\n", &mut wire);
    wire.clear();
    send(&mut conn, b"GET /2 HTTP/1.1\r\n\r\n", &mut wire);
    assert_eq!(wire, b"HTTP/1.1 200 Ok\r\nContent-Length: 2\r\n\r\n/2");
}

#[test]
fn partial_writes_and_blocked_writes_send_every_byte_once_in_order() {
    let response: Vec<u8> = (0..1000u32).map(|i| (i % 251) as u8).collect();
    for chunk in [1usize, 7, 64, 999] {
        let mut conn = Connection::new(Echo { calls: 0 });
        assert_eq!(conn.on_read(Ok(b"GET / HTTP/1.1\r\n\r\n")), Action::Decode);
        let req = decode(conn.buffered_input());
        assert_eq!(conn.on_decoded(req), Action::Encode { fallback: false });
        let mut action = conn.on_encoded(&response);
        let mut wire = Vec::new();
        let mut turn = 0;
        while conn.phase() == Phase::Responding {
            assert!(action == Action::Write || action == Action::AwaitWritable);
            turn += 1;
            if turn % 3 == 0 {
                let before = conn.pending_output().to_vec();
                action = conn.on_write(Err(IoErrorKind::WouldBlock));
                assert_eq!(action, Action::AwaitWritable);
                assert_eq!(conn.pending_output(), &before[..]);
                assert_eq!(conn.resume(), Action::Write);
                assert_eq!(conn.on_read(Ok(b"early")), Action::Write);
                assert_eq!(conn.buffered_input(), b"GET / HTTP/1.1\r\n\r\n");
            } else {
                let pending = conn.pending_output();
                assert_eq!(pending, &response[wire.len()..]);
                let n = chunk.min(pending.len());
                wire.extend_from_slice(&pending[..n]);
                action = conn.on_write(Ok(n));
            }
        }
        assert_eq!(wire, response);
        assert_eq!(action, Action::Read { max: 32768 });
        assert_eq!(conn.phase(), Phase::AwaitHeaders);
        assert_eq!(conn.response_buffer().len(), 0);
        assert_eq!(conn.response_buffer().capacity(), 131072);
    }
}

#[test]
fn cycle_leaves_the_read_buffer_empty_with_its_capacity() {
    let mut conn = Connection::new(Echo { calls: 0 });
    let mut wire = Vec::new();
    let mut request = b"GET /big HTTP/1.1\r\nX-Pad: ".to_vec();
    request.extend_from_slice(&vec![b'p'; 40000]);
    let head_len = request.len();
    let mut fed = 0;
    while fed < head_len {
        let n = match conn.resume() {
            Action::Read { max } => max.min(head_len - fed),
            other => panic!("asked for {:?}", other),
        };
        assert!(n >= 1);
        assert_eq!(conn.on_read(Ok(&request[fed..fed + n])), conn.resume());
        fed += n;
    }
    assert_eq!(conn.read_buffer().capacity(), 65536);
    assert_eq!(conn.on_read(Ok(b"\r\n\r\n")), Action::Decode);
    let before = conn.read_buffer().capacity();
    assert_eq!(before, 65536);
    assert_eq!(conn.read_buffer().len(), head_len + 4);
    let next = carry_out(&mut conn, Action::Decode, &mut wire);
    assert_eq!(next, Action::Read { max: 65536 });
    assert_eq!(conn.read_buffer().len(), 0);
    assert_eq!(conn.read_buffer().capacity(), before);
    assert_eq!(wire, b"HTTP/1.1 200 Ok\r\nContent-Length: 4\r\n\r\n/big");
}

#[test]
fn read_buffer_has_the_watermark_free_before_every_read() {
    let mut conn = Connection::new(Echo { calls: 0 });
    let mut last = conn.read_buffer().capacity();
    let mut growths = 0;
    for i in 0..70000usize {
        match conn.resume() {
            Action::Read { max } => {
                assert!(max >= 512);
                assert_eq!(max, conn.read_buffer().room());
            }
            other => panic!("asked for {:?}", other),
        }
        conn.on_read(Ok(b"a"));
        let now = conn.read_buffer().capacity();
        assert!(now == last || now == last + 32768);
        if now != last {
            growths += 1;
        }
        last = now;
        assert!(growths <= (i + 1 + 32767) / 32768);
    }
    assert_eq!(conn.read_buffer().len(), 70000);
    assert_eq!(conn.read_buffer().capacity(), 98304);
    assert_eq!(growths, 2);
}

#[test]
fn read_larger_than_the_room_grows_by_whole_increments() {
    let mut conn = Connection::new(Echo { calls: 0 });
    let action = conn.on_read(Ok(&vec![b'a'; 32769]));
    assert_eq!(action, Action::Read { max: 32767 });
    assert_eq!(conn.read_buffer().capacity(), 65536);
    assert_eq!(conn.read_buffer().len(), 32769);
}

#[test]
fn large_response_grows_the_response_buffer_and_keeps_it() {
    let mut conn = Connection::new(Echo { calls: 0 });
    assert_eq!(conn.on_read(Ok(b"GET / HTTP/1.1\r\n\r\n")), Action::Decode);
    let req = decode(conn.buffered_input());
    conn.on_decoded(req);
    let big = vec![b'r'; 131073];
    assert_eq!(conn.on_encoded(&big), Action::Write);
    assert_eq!(conn.response_buffer().capacity(), 262144);
    assert_eq!(conn.pending_output().len(), 131073);
    assert_eq!(conn.on_write(Ok(131073)), Action::Read { max: 32768 });
    assert_eq!(conn.response_buffer().len(), 0);
    assert_eq!(conn.response_buffer().capacity(), 262144);
}

#[test]
fn empty_encoded_response_ends_the_cycle() {
    let mut conn = Connection::new(Echo { calls: 0 });
    assert_eq!(conn.on_read(Ok(b"GET / HTTP/1.1\r\n\r\n")), Action::Decode);
    let req = decode(conn.buffered_input());
    conn.on_decoded(req);
    assert_eq!(conn.on_encoded(b""), Action::Read { max: 32768 });
    assert_eq!(conn.phase(), Phase::AwaitHeaders);
    assert_eq!(conn.buffered_input(), b"");
}

#[test]
fn read_failures_are_classified() {
    let mut reset = Connection::new(Echo { calls: 0 });
    assert_eq!(
        reset.on_read(Err(IoErrorKind::ConnectionReset)),
        Action::Close(CloseReason::ConnectionLost)
    );
    let mut eof = Connection::new(Echo { calls: 0 });
    assert_eq!(
        eof.on_read(Err(IoErrorKind::UnexpectedEof)),
        Action::Close(CloseReason::ConnectionLost)
    );
    let mut other = Connection::new(Echo { calls: 0 });
    assert_eq!(other.on_read(Err(IoErrorKind::Other)), Action::Close(CloseReason::IoFailure));
    assert_eq!(other.phase(), Phase::Closed(CloseReason::IoFailure));
}

fn responding() -> Connection<Echo> {
    let mut conn = Connection::new(Echo { calls: 0 });
    assert_eq!(conn.on_read(Ok(b"GET / HTTP/1.1\r\n\r\n")), Action::Decode);
    let req = decode(conn.buffered_input());
    conn.on_decoded(req);
    assert_eq!(conn.on_encoded(b"response"), Action::Write);
    conn
}

#[test]
fn write_failures_are_classified() {
    let mut reset = responding();
    assert_eq!(
        reset.on_write(Err(IoErrorKind::ConnectionReset)),
        Action::Close(CloseReason::ConnectionLost)
    );
    let mut eof = responding();
    assert_eq!(
        eof.on_write(Err(IoErrorKind::UnexpectedEof)),
        Action::Close(CloseReason::ConnectionLost)
    );
    let mut other = responding();
    assert_eq!(other.on_write(Err(IoErrorKind::Other)), Action::Close(CloseReason::IoFailure));
    let mut blocked = responding();
    assert_eq!(blocked.on_write(Err(IoErrorKind::WouldBlock)), Action::AwaitWritable);
    assert_eq!(blocked.phase(), Phase::Responding);
    assert_eq!(blocked.pending_output(), b"response");
}

#[test]
fn write_of_nothing_means_the_peer_is_gone() {
    let mut conn = responding();
    assert_eq!(conn.on_write(Ok(0)), Action::Close(CloseReason::PeerClosed));
    assert_eq!(conn.phase(), Phase::Closed(CloseReason::PeerClosed));
}

#[test]
fn write_of_more_than_was_offered_is_a_failure() {
    let mut conn = responding();
    assert_eq!(conn.on_write(Ok(9)), Action::Close(CloseReason::IoFailure));
}

#[test]
fn outcomes_out_of_turn_change_nothing() {
    let mut conn = Connection::new(Echo { calls: 0 });
    assert_eq!(conn.on_write(Ok(5)), Action::Read { max: 32768 });
    assert_eq!(conn.on_encoded(b"stray"), Action::Read { max: 32768 });
    assert_eq!(conn.on_decoded(DecodeOutcome::Malformed), Action::Read { max: 32768 });
    assert_eq!(conn.phase(), Phase::AwaitHeaders);
    assert_eq!(conn.pending_output(), b"");
    let mut busy = responding();
    assert_eq!(busy.on_decoded(DecodeOutcome::Malformed), Action::Write);
    assert_eq!(busy.on_encoded(b"stray"), Action::Write);
    assert_eq!(busy.pending_output(), b"response");
}

#[test]
fn closed_connection_stays_closed() {
    let mut conn = Connection::new(Echo { calls: 0 });
    assert_eq!(conn.on_read(Ok(b"")), Action::Close(CloseReason::PeerClosed));
    assert_eq!(conn.on_read(Ok(b"GET / HTTP/1.1\r\n\r\n")), Action::Close(CloseReason::PeerClosed));
    assert_eq!(conn.on_write(Ok(1)), Action::Close(CloseReason::PeerClosed));
    assert_eq!(conn.on_encoded(b"x"), Action::Close(CloseReason::PeerClosed));
    assert_eq!(
        conn.on_decoded(DecodeOutcome::NeedMoreData),
        Action::Close(CloseReason::PeerClosed)
    );
    assert_eq!(conn.buffered_input(), b"");
}
