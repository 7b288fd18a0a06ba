use bytecodec::bytes::{RemainingBytesDecoder, Utf8Encoder};
use bytecodec::io::{IoDecodeExt, IoEncodeExt, ReadBuf, WriteBuf};
use bytecodec::null::NullDecoder;
use bytecodec::{Decode, Encode};
use factory::{DefaultFactory, Factory};
use fibers_http_server::bc::BufferedIo;
use fibers_http_server::connection::{Connection, Phase, PhaseKind, RequestHead, Turn};
use fibers_http_server::error::CodecFailure;
use fibers_http_server::dispatcher::DispatcherBuilder;
use fibers_http_server::handler::{
    BoxReply, Codec, CreateHandler, HandleInput, PollReply, RequestHandlerFactory, RequestHandlerInstance,
};
use fibers_http_server::server::ServerOptions;
use fibers_http_server::metrics::ServerMetrics;
use fibers_http_server::response::{EncodeResponse, ResEncoder};
use fibers_http_server::{Error, ErrorKind, HandleRequest, Req, Res, ServerBuilder, Status};
use httpcodec::{
    BodyDecode, BodyDecoder, BodyEncode, BodyEncoder, HeaderField, Method, ReasonPhrase, Request,
    RequestTarget, Response, ResponseEncoder, StatusCode,
};
use std::collections::VecDeque;
use std::io::{self, Read, Write};
use std::sync::atomic::{AtomicUsize, Ordering};
use std::sync::Arc;

/// A stream in memory: what the client has sent and not been read yet, and
/// what the server has written.
struct Pipe {
    input: VecDeque<u8>,
    input_closed: bool,
    output: Vec<u8>,
    output_limit: Option<usize>,
}

impl Pipe {
    fn new() -> Self {
        Pipe { input: VecDeque::new(), input_closed: false, output: Vec::new(), output_limit: None }
    }
}

impl Read for Pipe {
    fn read(&mut self, buf: &mut [u8]) -> io::Result<usize> {
        if self.input.is_empty() {
            if self.input_closed {
                return Ok(0);
            }
            return Err(io::Error::new(io::ErrorKind::WouldBlock, "no input"));
        }
        let mut n = 0;
        while n < buf.len() {
            match self.input.pop_front() {
                Some(b) => {
                    buf[n] = b;
                    n += 1;
                }
                None => break,
            }
        }
        Ok(n)
    }
}

impl Write for Pipe {
    fn write(&mut self, buf: &[u8]) -> io::Result<usize> {
        let n = match self.output_limit {
            None => buf.len(),
            Some(limit) => {
                if limit == 0 {
                    return Err(io::Error::new(io::ErrorKind::WouldBlock, "no room"));
                }
                buf.len().min(limit)
            }
        };
        if let Some(limit) = self.output_limit.as_mut() {
            *limit -= n;
        }
        self.output.extend_from_slice(&buf[..n]);
        Ok(n)
    }

    fn flush(&mut self) -> io::Result<()> {
        Ok(())
    }
}

fn failure(e: bytecodec::Error) -> Error {
    let invalid = *e.kind() == bytecodec::ErrorKind::InvalidInput;
    Error::from_codec(CodecFailure::new(invalid, e.to_string()))
}

fn execute_io(io: &mut BufferedIo<Pipe>) -> Result<(), Error> {
    let (stream, rbuf, wbuf) = io.parts_mut();
    rbuf.fill(&mut *stream).map_err(failure)?;
    wbuf.flush(&mut *stream).map_err(failure)?;
    Ok(())
}

/// A reply that is there after it was asked for some times.
struct Later<T> {
    polls: usize,
    res: Option<Res<T>>,
}

struct Pending<T, E> {
    reply: Later<T>,
    encoder: Option<E>,
}

impl<T: Send, E: BodyEncode<Item = T> + Send + 'static> PollReply for Pending<T, E> {
    fn poll(&mut self) -> Option<ResEncoder> {
        if self.reply.polls > 0 {
            self.reply.polls -= 1;
            return None;
        }
        let res = self.reply.res.take()?;
        Some(encoder_of(res, self.encoder.take()?))
    }
}

struct Encoding<E>(ResponseEncoder<E>);

impl<E: BodyEncode + Send> EncodeResponse for Encoding<E> {
    fn encode_to_write_buf(&mut self, buf: &mut WriteBuf<Vec<u8>>) -> Result<(), Error> {
        self.0.encode_to_write_buf(buf).map_err(failure)
    }

    fn is_idle(&self) -> bool {
        self.0.is_idle()
    }
}

fn encoder_of<T, E: BodyEncode<Item = T> + Send + 'static>(res: Res<T>, encoder: E) -> ResEncoder {
    let (version, code, phrase, header, body) = res.into_parts();
    let mut response =
        Response::new(version, StatusCode::new(code).unwrap(), ReasonPhrase::new(&phrase).unwrap(), body);
    for field in &header {
        response.header_mut().add_field(HeaderField::new(field.name(), field.value()).unwrap());
    }
    let mut encoder = ResponseEncoder::new(encoder);
    encoder.start_encoding(response).unwrap();
    ResEncoder::new(Box::new(Encoding(encoder)))
}

struct TestCodec;

impl<H, D, E> Codec<H, D, E> for TestCodec
where
    H: HandleRequest<Reply = Later<<H as HandleRequest>::ResBody>>,
    H::Decoder: BodyDecode<Item = H::ReqBody>,
    H::Encoder: BodyEncode<Item = H::ResBody>,
    D: Factory<Item = H::Decoder>,
    E: Factory<Item = H::Encoder>,
{
    fn create_decoder(factory: &D) -> H::Decoder {
        factory.create()
    }

    fn create_encoder(factory: &E) -> H::Encoder {
        factory.create()
    }

    fn initialize(decoder: &mut H::Decoder, req: &Req<()>) -> Result<(), Error> {
        let method = Method::new(req.method()).map_err(failure)?;
        let target = RequestTarget::new(req.target()).map_err(failure)?;
        let mut head = Request::new(method, target, req.version(), ());
        for field in req.header() {
            head.header_mut().add_field(HeaderField::new(field.name(), field.value()).map_err(failure)?);
        }
        decoder.initialize(&head.header()).map_err(failure)
    }

    fn decode(decoder: &mut H::Decoder, buf: &mut ReadBuf<Vec<u8>>) -> Result<Option<H::ReqBody>, Error> {
        decoder.decode_from_read_buf(buf).map_err(failure)?;
        if decoder.is_idle() {
            decoder.finish_decoding().map(Some).map_err(failure)
        } else {
            Ok(None)
        }
    }

    fn reply(reply: H::Reply, encoder: H::Encoder) -> BoxReply {
        BoxReply::new(Box::new(Pending { reply, encoder: Some(encoder) }))
    }

    fn respond(res: Res<H::ResBody>, encoder: H::Encoder) -> BoxReply {
        BoxReply::new(Box::new(Pending { reply: Later { polls: 0, res: Some(res) }, encoder: Some(encoder) }))
    }
}

struct Hello;

impl HandleRequest for Hello {
    const METHOD: &'static str = "GET";
    const PATH: &'static str = "/hello";

    type ReqBody = ();
    type ResBody = String;
    type Decoder = BodyDecoder<NullDecoder>;
    type Encoder = BodyEncoder<Utf8Encoder>;
    type Reply = Later<String>;

    fn handle_request(&self, _req: Req<Self::ReqBody>) -> Self::Reply {
        Later { polls: 0, res: Some(Res::new(Status::Okay, "hello".to_owned())) }
    }
}

/// Answers with the body of the request, after three polls.
struct Echo;

impl HandleRequest for Echo {
    const METHOD: &'static str = "POST";
    const PATH: &'static str = "/echo/*";

    type ReqBody = Vec<u8>;
    type ResBody = String;
    type Decoder = BodyDecoder<RemainingBytesDecoder>;
    type Encoder = BodyEncoder<Utf8Encoder>;
    type Reply = Later<String>;

    fn handle_request(&self, req: Req<Self::ReqBody>) -> Self::Reply {
        let text = format!("{}:{}", req.path(), String::from_utf8_lossy(req.body()));
        Later { polls: 3, res: Some(Res::new(Status::Okay, text)) }
    }
}

/// Answers from the head alone to requests that are not authorized.
struct Guarded;

impl HandleRequest for Guarded {
    const METHOD: &'static str = "PUT";
    const PATH: &'static str = "/guarded";

    type ReqBody = Vec<u8>;
    type ResBody = String;
    type Decoder = BodyDecoder<RemainingBytesDecoder>;
    type Encoder = BodyEncoder<Utf8Encoder>;
    type Reply = Later<String>;

    fn handle_request_head(&self, req: &Req<()>) -> Option<Res<String>> {
        if req.header().iter().any(|f| f.name() == "Authorization") {
            None
        } else {
            Some(Res::new(Status::Unauthorized, "who?".to_owned()))
        }
    }

    fn handle_request(&self, _req: Req<Self::ReqBody>) -> Self::Reply {
        Later { polls: 0, res: Some(Res::new(Status::NoContent, String::new())) }
    }
}

fn connection(read_buffer_size: usize, write_buffer_size: usize) -> Connection<Pipe> {
    let mut builder = ServerBuilder::new();
    builder.add_handler::<Hello, TestCodec>(Hello).unwrap();
    builder.add_handler::<Echo, TestCodec>(Echo).unwrap();
    builder.add_handler::<Guarded, TestCodec>(Guarded).unwrap();
    builder.read_buffer_size(read_buffer_size);
    builder.write_buffer_size(write_buffer_size);
    let (dispatcher, options) = builder.finish();
    Connection::new(ServerMetrics::new(), Pipe::new(), "127.0.0.1:8080", dispatcher, &options).unwrap()
}

/// Takes turns until the connection waits or ends; returns the last turn.
fn run(connection: &mut Connection<Pipe>) -> Turn {
    if connection.begin() {
        return Turn::Ready;
    }
    for _ in 0..10_000 {
        let io = execute_io(connection.stream_mut());
        match connection.turn(io) {
            Turn::Again => {}
            turn => return turn,
        }
    }
    panic!("the connection does not come to rest");
}

/// Takes turns, also where the connection waits for a reply that is not
/// there yet, which nothing but another turn brings nearer.
fn run_through_replies(connection: &mut Connection<Pipe>) -> Turn {
    let mut turn = run(connection);
    let mut rounds = 0;
    while turn == Turn::NotReady && connection.phase_kind() == PhaseKind::PollReply {
        turn = run(connection);
        rounds += 1;
        assert!(rounds < 100);
    }
    turn
}

fn send(connection: &mut Connection<Pipe>, bytes: &[u8]) {
    let (stream, _, _) = connection.stream_mut().parts_mut();
    stream.input.extend(bytes.iter().copied());
}

fn close_input(connection: &mut Connection<Pipe>) {
    let (stream, _, _) = connection.stream_mut().parts_mut();
    stream.input_closed = true;
}

fn received(connection: &mut Connection<Pipe>) -> Vec<u8> {
    let (stream, _, _) = connection.stream_mut().parts_mut();
    std::mem::take(&mut stream.output)
}

const HELLO: &[u8] = b"HTTP/1.1 200 OK\r\nContent-Length: 5\r\n\r\nhello";

#[test]
fn new_connection_counts_the_client_and_reads_a_head() {
    let connection = connection(8192, 8192);
    assert_eq!(connection.phase_kind(), PhaseKind::ReadRequestHead);
    assert!(!connection.is_closed());
    let metrics = connection.server_metrics();
    assert_eq!(metrics.connected_tcp_clients(), 1);
    assert_eq!(metrics.disconnected_tcp_clients(), 0);
    assert_eq!(metrics.read_request_head_errors(), 0);
}

#[test]
fn new_connection_needs_an_address_that_is_a_host() {
    let (dispatcher, options) = ServerBuilder::new().finish();
    let r = Connection::new(ServerMetrics::new(), Pipe::new(), "not an address", dispatcher, &options);
    assert_eq!(r.err().map(|e| e.kind()), Some(ErrorKind::InvalidInput));
}

#[test]
fn hello_is_served_and_the_connection_stays_open() {
    let mut connection = connection(8192, 8192);
    send(&mut connection, b"GET /hello HTTP/1.1\r\nContent-Length: 0\r\n\r\n");
    assert_eq!(run(&mut connection), Turn::NotReady);
    assert_eq!(received(&mut connection), HELLO.to_vec());
    assert_eq!(connection.phase_kind(), PhaseKind::ReadRequestHead);
    assert!(!connection.is_closed());

    // the next request on the same connection
    send(&mut connection, b"GET /hello HTTP/1.1\r\nContent-Length: 0\r\n\r\n");
    assert_eq!(run(&mut connection), Turn::NotReady);
    assert_eq!(received(&mut connection), HELLO.to_vec());
    assert_eq!(connection.server_metrics().disconnected_tcp_clients(), 0);

    close_input(&mut connection);
    assert_eq!(run(&mut connection), Turn::Ready);
    assert!(connection.is_closed());
    assert_eq!(connection.server_metrics().disconnected_tcp_clients(), 1);
    assert_eq!(connection.server_metrics().read_request_head_errors(), 0);
    assert!(connection.begin());
    assert_eq!(connection.server_metrics().disconnected_tcp_clients(), 2);
}

#[test]
fn request_split_at_any_byte_gives_the_same_response() {
    let request = b"POST /echo/x?y=1 HTTP/1.1\r\nHost: a\r\nContent-Length: 4\r\n\r\nbody";
    let mut whole = connection(8192, 8192);
    send(&mut whole, request);
    assert_eq!(run_through_replies(&mut whole), Turn::NotReady);
    let expected = received(&mut whole);
    assert_eq!(expected, b"HTTP/1.1 200 OK\r\nContent-Length: 12\r\n\r\n/echo/x:body".to_vec());

    for at in 1..request.len() {
        let mut connection = connection(8192, 8192);
        send(&mut connection, &request[..at]);
        assert_eq!(run(&mut connection), Turn::NotReady);
        assert!(received(&mut connection).is_empty());
        assert_ne!(connection.phase_kind(), PhaseKind::PollReply);
        send(&mut connection, &request[at..]);
        assert_eq!(run_through_replies(&mut connection), Turn::NotReady);
        assert_eq!(received(&mut connection), expected);
        assert_eq!(connection.phase_kind(), PhaseKind::ReadRequestHead);
    }

    let mut connection = connection(8192, 8192);
    for byte in request.iter() {
        assert!(received(&mut connection).is_empty());
        send(&mut connection, &[*byte]);
        assert_eq!(run(&mut connection), Turn::NotReady);
    }
    assert_eq!(run_through_replies(&mut connection), Turn::NotReady);
    assert_eq!(received(&mut connection), expected);
}

#[test]
fn small_buffers_give_the_same_response() {
    let request = b"POST /echo/x HTTP/1.1\r\nContent-Length: 4\r\n\r\nbody";
    for size in [1, 2, 3, 5, 16] {
        let mut connection = connection(size, size);
        send(&mut connection, request);
        assert_eq!(run_through_replies(&mut connection), Turn::NotReady);
        assert_eq!(
            received(&mut connection),
            b"HTTP/1.1 200 OK\r\nContent-Length: 12\r\n\r\n/echo/x:body".to_vec()
        );
    }
}

#[test]
fn body_that_never_arrives_leaves_the_connection_waiting() {
    let mut connection = connection(8192, 8192);
    send(&mut connection, b"POST /echo/x HTTP/1.1\r\nContent-Length: 10\r\n\r\nbod");
    for _ in 0..5 {
        assert_eq!(run(&mut connection), Turn::NotReady);
        assert_eq!(connection.phase_kind(), PhaseKind::HandleRequest);
        assert!(received(&mut connection).is_empty());
        assert!(!connection.is_closed());
    }
    let metrics = *connection.server_metrics();
    assert_eq!(metrics.decode_request_body_errors(), 0);
    assert_eq!(metrics.disconnected_tcp_clients(), 0);
    // the rest of the body ends the wait
    send(&mut connection, b"y here!");
    assert_eq!(run_through_replies(&mut connection), Turn::NotReady);
    assert_eq!(
        received(&mut connection),
        b"HTTP/1.1 200 OK\r\nContent-Length: 18\r\n\r\n/echo/x:body here!".to_vec()
    );
}

#[test]
fn unknown_path_is_answered_not_found_and_closes() {
    let mut connection = connection(8192, 8192);
    send(&mut connection, b"GET /nothing HTTP/1.1\r\n\r\n");
    assert_eq!(run(&mut connection), Turn::Ready);
    assert_eq!(
        received(&mut connection),
        b"HTTP/1.1 404 Not Found\r\nConnection: close\r\nContent-Length: 9\r\n\r\nNot Found".to_vec()
    );
    assert_eq!(connection.phase_kind(), PhaseKind::Closed);
    assert!(connection.is_closed());
    let metrics = connection.server_metrics();
    assert_eq!(metrics.dispatch_request_errors(), 1);
    assert_eq!(metrics.disconnected_tcp_clients(), 1);
    assert_eq!(metrics.read_request_head_errors(), 0);
    assert_eq!(metrics.write_response_errors(), 0);
}

#[test]
fn wrong_method_is_answered_method_not_allowed_and_closes() {
    let mut connection = connection(8192, 8192);
    send(&mut connection, b"DELETE /hello HTTP/1.1\r\n\r\n");
    assert_eq!(run(&mut connection), Turn::Ready);
    assert_eq!(
        received(&mut connection),
        b"HTTP/1.1 405 Method Not Allowed\r\nConnection: close\r\nContent-Length: 18\r\n\r\nMethod Not Allowed"
            .to_vec()
    );
    assert_eq!(connection.server_metrics().dispatch_request_errors(), 1);
}

#[test]
fn malformed_head_is_answered_bad_request_and_closes() {
    let mut connection = connection(8192, 8192);
    send(&mut connection, b"GET\x01 /hello HTTP/1.1\r\n\r\n");
    assert_eq!(run(&mut connection), Turn::Ready);
    assert_eq!(
        received(&mut connection),
        b"HTTP/1.1 400 Bad Request\r\nConnection: close\r\nContent-Length: 11\r\n\r\nBad Request".to_vec()
    );
    assert_eq!(connection.server_metrics().read_request_head_errors(), 1);
    assert_eq!(connection.server_metrics().parse_request_path_errors(), 0);
}

#[test]
fn target_that_is_no_path_is_answered_bad_request_and_closes() {
    let mut connection = connection(8192, 8192);
    send(&mut connection, b"GET hello HTTP/1.1\r\n\r\n");
    assert_eq!(run(&mut connection), Turn::Ready);
    assert_eq!(
        received(&mut connection),
        b"HTTP/1.1 400 Bad Request\r\nConnection: close\r\nContent-Length: 11\r\n\r\nBad Request".to_vec()
    );
    assert_eq!(connection.server_metrics().parse_request_path_errors(), 1);
    assert_eq!(connection.server_metrics().read_request_head_errors(), 0);
}

#[test]
fn malformed_body_is_answered_bad_request_and_closes() {
    let mut connection = connection(8192, 8192);
    send(&mut connection, b"POST /echo/x HTTP/1.1\r\nTransfer-Encoding: chunked\r\n\r\nzz\r\n");
    assert_eq!(run(&mut connection), Turn::Ready);
    assert_eq!(
        received(&mut connection),
        b"HTTP/1.1 400 Bad Request\r\nConnection: close\r\nContent-Length: 11\r\n\r\nBad Request".to_vec()
    );
    assert_eq!(connection.server_metrics().decode_request_body_errors(), 1);
}

#[test]
fn handler_that_cannot_be_primed_is_answered_internal_server_error() {
    let mut connection = connection(8192, 8192);
    send(&mut connection, b"POST /echo/x HTTP/1.1\r\nContent-Length: many\r\n\r\n");
    assert_eq!(run(&mut connection), Turn::Ready);
    let expected: &[u8] =
        b"HTTP/1.1 500 Internal Server Error\r\nConnection: close\r\nContent-Length: 21\r\n\r\nInternal Server Error";
    assert_eq!(received(&mut connection), expected.to_vec());
    assert_eq!(connection.server_metrics().initialize_handler_errors(), 1);
}

#[test]
fn answer_from_the_head_ends_the_connection() {
    let mut connection = connection(8192, 8192);
    send(&mut connection, b"PUT /guarded HTTP/1.1\r\nContent-Length: 3\r\n\r\n");
    assert_eq!(run(&mut connection), Turn::Ready);
    assert_eq!(
        received(&mut connection),
        b"HTTP/1.1 401 Unauthorized\r\nContent-Length: 4\r\n\r\nwho?".to_vec()
    );
    assert_eq!(connection.phase_kind(), PhaseKind::Closed);
    let metrics = connection.server_metrics();
    assert_eq!(metrics.dispatch_request_errors(), 0);
    assert_eq!(metrics.initialize_handler_errors(), 0);

    let mut connection = self::connection(8192, 8192);
    send(&mut connection, b"PUT /guarded HTTP/1.1\r\nAuthorization: x\r\nContent-Length: 3\r\n\r\nabc");
    assert_eq!(run(&mut connection), Turn::NotReady);
    assert_eq!(received(&mut connection), b"HTTP/1.1 204 No Content\r\nContent-Length: 0\r\n\r\n".to_vec());
    assert_eq!(connection.phase_kind(), PhaseKind::ReadRequestHead);
}

#[test]
fn client_that_leaves_without_a_byte_is_no_error() {
    let mut connection = connection(8192, 8192);
    close_input(&mut connection);
    assert_eq!(run(&mut connection), Turn::Ready);
    assert!(received(&mut connection).is_empty());
    let metrics = connection.server_metrics();
    assert_eq!(metrics.read_request_head_errors(), 0);
    assert_eq!(metrics.disconnected_tcp_clients(), 1);
}

#[test]
fn client_that_leaves_in_the_middle_of_a_head_ends_the_connection() {
    let mut connection = connection(8192, 8192);
    send(&mut connection, b"GET /hel");
    close_input(&mut connection);
    assert_eq!(run(&mut connection), Turn::Ready);
    assert!(connection.is_closed());
    assert_eq!(connection.server_metrics().disconnected_tcp_clients(), 1);
    assert!(received(&mut connection).is_empty());
}

#[test]
fn decoder_of_heads_is_told_of_the_end_once_it_has_begun_a_head() {
    // no byte of a head: the end of the stream is no failure, step after step
    let mut connection = connection(8192, 8192);
    close_input(&mut connection);
    for _ in 0..3 {
        let io = execute_io(connection.stream_mut());
        assert!(connection.poll_once(io).is_ok());
        assert_eq!(connection.phase_kind(), PhaseKind::ReadRequestHead);
    }
    assert_eq!(connection.server_metrics().read_request_head_errors(), 0);

    // a part of a head: the step that consumes it is no failure, the next one is
    let mut connection = self::connection(8192, 8192);
    send(&mut connection, b"GET /hel");
    close_input(&mut connection);
    let io = execute_io(connection.stream_mut());
    assert!(connection.poll_once(io).is_ok());
    assert_eq!(connection.phase_kind(), PhaseKind::ReadRequestHead);
    assert_eq!(connection.server_metrics().read_request_head_errors(), 0);
    let io = execute_io(connection.stream_mut());
    assert!(connection.poll_once(io).is_ok());
    assert_eq!(connection.phase_kind(), PhaseKind::WriteResponse);
    assert_eq!(connection.server_metrics().read_request_head_errors(), 1);

    // a whole request, then the end: the next head has not begun
    let mut connection = self::connection(8192, 8192);
    send(&mut connection, b"GET /hello HTTP/1.1\r\n\r\n");
    close_input(&mut connection);
    for _ in 0..8 {
        let io = execute_io(connection.stream_mut());
        assert!(connection.poll_once(io).is_ok());
    }
    assert_eq!(connection.phase_kind(), PhaseKind::ReadRequestHead);
    assert_eq!(connection.server_metrics().read_request_head_errors(), 0);
    assert_eq!(received(&mut connection), HELLO.to_vec());
}

#[test]
fn client_that_leaves_after_its_request_is_served() {
    let mut connection = connection(8192, 8192);
    send(&mut connection, b"GET /hello HTTP/1.1\r\n\r\n");
    close_input(&mut connection);
    // the stream is at its end, and so is the connection, with the request unanswered
    assert_eq!(run(&mut connection), Turn::Ready);
    assert_eq!(connection.server_metrics().read_request_head_errors(), 0);
    assert_eq!(connection.server_metrics().disconnected_tcp_clients(), 1);
}

#[test]
fn failure_of_the_io_aborts_the_connection() {
    let mut connection = connection(8192, 8192);
    send(&mut connection, b"GET /hello HTTP/1.1\r\n");
    assert_eq!(run(&mut connection), Turn::NotReady);
    let turn = connection.turn(Err(Error::other("the socket is broken")));
    assert_eq!(turn, Turn::Aborted);
    assert_eq!(connection.phase_kind(), PhaseKind::ReadRequestHead);
    assert_eq!(connection.server_metrics().disconnected_tcp_clients(), 1);
    assert_eq!(connection.server_metrics().write_response_errors(), 0);
}

#[test]
fn poll_once_tells_whether_the_connection_can_go_on() {
    let mut connection = connection(8192, 8192);
    // nothing was read, and reading would block
    let io = execute_io(connection.stream_mut());
    assert_eq!(connection.poll_once(io).ok(), Some(false));
    assert_eq!(connection.phase_kind(), PhaseKind::ReadRequestHead);
    // a whole head: the phase changes
    send(&mut connection, b"GET /nothing HTTP/1.1\r\n\r\n");
    let io = execute_io(connection.stream_mut());
    assert_eq!(connection.poll_once(io).ok(), Some(true));
    assert_eq!(connection.phase_kind(), PhaseKind::DispatchRequest);
    let io = execute_io(connection.stream_mut());
    assert_eq!(connection.poll_once(io).ok(), Some(true));
    assert_eq!(connection.phase_kind(), PhaseKind::WriteResponse);
    let io = execute_io(connection.stream_mut());
    assert_eq!(connection.poll_once(io).ok(), Some(true));
    assert_eq!(connection.phase_kind(), PhaseKind::Closed);
    assert!(!connection.is_closed());
    // the response is flushed, and the closed connection stays closed
    let io = execute_io(connection.stream_mut());
    assert_eq!(connection.poll_once(io).ok(), Some(false));
    assert_eq!(connection.phase_kind(), PhaseKind::Closed);
    assert!(connection.is_closed());
    assert!(connection.poll_once(Err(Error::other("broken"))).is_err());
}

#[test]
fn response_waits_while_the_socket_takes_no_bytes() {
    let mut connection = connection(8192, 16);
    {
        let (stream, _, _) = connection.stream_mut().parts_mut();
        stream.output_limit = Some(20);
    }
    send(&mut connection, b"GET /hello HTTP/1.1\r\nContent-Length: 0\r\n\r\n");
    assert_eq!(run(&mut connection), Turn::NotReady);
    assert_eq!(connection.phase_kind(), PhaseKind::WriteResponse);
    assert_eq!(received(&mut connection), HELLO[..20].to_vec());
    {
        let (stream, _, _) = connection.stream_mut().parts_mut();
        stream.output_limit = None;
    }
    assert_eq!(run(&mut connection), Turn::NotReady);
    assert_eq!(received(&mut connection), HELLO[20..].to_vec());
    assert_eq!(connection.phase_kind(), PhaseKind::ReadRequestHead);
}

#[test]
fn reply_is_asked_for_once_in_each_turn() {
    let mut connection = connection(8192, 8192);
    send(&mut connection, b"POST /echo/x HTTP/1.1\r\nContent-Length: 1\r\n\r\nb");
    // the reply of this handler is there at the fourth time of asking
    assert_eq!(run(&mut connection), Turn::NotReady);
    assert_eq!(connection.phase_kind(), PhaseKind::PollReply);
    for _ in 0..2 {
        assert_eq!(run(&mut connection), Turn::NotReady);
        assert_eq!(connection.phase_kind(), PhaseKind::PollReply);
        assert!(received(&mut connection).is_empty());
    }
    assert_eq!(run(&mut connection), Turn::NotReady);
    assert_eq!(connection.phase_kind(), PhaseKind::ReadRequestHead);
    assert_eq!(received(&mut connection), b"HTTP/1.1 200 OK\r\nContent-Length: 9\r\n\r\n/echo/x:b".to_vec());
}

#[test]
fn full_write_buffer_suspends_the_writing() {
    // the client sends request after request and takes no byte of the responses
    let mut connection = connection(8, 16);
    {
        let (stream, _, _) = connection.stream_mut().parts_mut();
        stream.output_limit = Some(0);
    }
    send(&mut connection, b"GET /hello HTTP/1.1\r\n\r\nGET /hello HTTP/1.1\r\n\r\nGET /hello HTTP/1.1\r\n\r\n");
    assert_eq!(run(&mut connection), Turn::NotReady);
    assert_eq!(connection.phase_kind(), PhaseKind::WriteResponse);
    assert!(connection.stream_mut().write_buf_mut().is_full());
    assert!(received(&mut connection).is_empty());
    // and stays suspended, turn after turn
    assert_eq!(run(&mut connection), Turn::NotReady);
    assert_eq!(connection.phase_kind(), PhaseKind::WriteResponse);
    // until the client takes the responses
    {
        let (stream, _, _) = connection.stream_mut().parts_mut();
        stream.output_limit = None;
    }
    assert_eq!(run(&mut connection), Turn::NotReady);
    let mut expected = HELLO.to_vec();
    expected.extend_from_slice(HELLO);
    expected.extend_from_slice(HELLO);
    assert_eq!(received(&mut connection), expected);
    assert_eq!(connection.phase_kind(), PhaseKind::ReadRequestHead);
}

#[test]
fn default_factories_make_the_codecs() {
    let factory = DefaultFactory::<BodyDecoder<NullDecoder>>::new();
    let mut decoder = factory.create();
    assert!(!decoder.is_idle() || decoder.requiring_bytes().to_u64() == Some(0));
    let _: BodyEncoder<Utf8Encoder> = DefaultFactory::new().create();
    assert!(DefaultFactory::<BodyEncoder<Utf8Encoder>>::new().create().is_idle());
}

struct Silent;

impl HandleInput for Silent {
    fn init(&mut self, _req: Req<()>) -> Result<(), Error> {
        Ok(())
    }

    fn handle_input(&mut self, _buf: &mut ReadBuf<Vec<u8>>) -> Result<Option<BoxReply>, Error> {
        Ok(None)
    }

    fn is_closed(&self) -> bool {
        false
    }
}

fn silent() -> RequestHandlerInstance {
    RequestHandlerInstance::new(Box::new(Silent))
}

fn reply_of(text: &str) -> BoxReply {
    BoxReply::new(Box::new(Pending {
        reply: Later { polls: 0, res: Some(Res::new(Status::Okay, text.to_owned())) },
        encoder: Some(BodyEncoder::new(Utf8Encoder::new())),
    }))
}

#[test]
fn input_handled_takes_the_step_for_each_result() {
    let mut connection = connection(64, 64);
    let next = connection.input_handled(silent(), Ok(None), false);
    assert_eq!(next.phase_kind(), PhaseKind::HandleRequest);
    assert_eq!(connection.server_metrics().decode_request_body_errors(), 0);

    let next = connection.input_handled(silent(), Ok(Some(reply_of("one"))), false);
    assert_eq!(next.phase_kind(), PhaseKind::PollReply);
    // the phase holds the reply that was given, and the connection stays open after it
    let encoder = match next {
        Phase::PollReply(mut reply) => reply.poll().expect("the reply is there"),
        _ => panic!("the reply is awaited"),
    };
    let after = connection.response_encoded(encoder, Ok(()), true).ok().expect("a phase");
    assert_eq!(after.phase_kind(), PhaseKind::ReadRequestHead);

    // a handler that is closed ends the connection with its response
    let next = connection.input_handled(silent(), Ok(Some(reply_of("two"))), true);
    let encoder = match next {
        Phase::PollReply(mut reply) => reply.poll().expect("the reply is there"),
        _ => panic!("the reply is awaited"),
    };
    let after = connection.response_encoded(encoder, Ok(()), true).ok().expect("a phase");
    assert_eq!(after.phase_kind(), PhaseKind::Closed);

    let next = connection.input_handled(silent(), Err(Error::other("garbage")), false);
    assert_eq!(next.phase_kind(), PhaseKind::WriteResponse);
    assert_eq!(connection.server_metrics().decode_request_body_errors(), 1);
}

#[test]
fn response_encoded_takes_the_step_for_each_result() {
    let mut connection = connection(64, 64);
    let encoder = ResEncoder::error(Status::NotFound);
    let next = connection.response_encoded(encoder, Ok(()), false).ok().expect("a phase");
    assert_eq!(next.phase_kind(), PhaseKind::WriteResponse);
    assert_eq!(connection.server_metrics().write_response_errors(), 0);

    let encoder = ResEncoder::error(Status::NotFound);
    let next = connection.response_encoded(encoder, Ok(()), true).ok().expect("a phase");
    assert_eq!(next.phase_kind(), PhaseKind::ReadRequestHead);

    let encoder = ResEncoder::error(Status::NotFound);
    let e = connection.response_encoded(encoder, Err(Error::other("broken encoder")), false).err();
    assert_eq!(e.map(|e| e.message().to_owned()), Some("broken encoder".to_owned()));
    assert_eq!(connection.server_metrics().write_response_errors(), 1);
    let encoder = ResEncoder::error(Status::NotFound);
    assert!(connection.response_encoded(encoder, Err(Error::other("again")), true).is_err());
    assert_eq!(connection.server_metrics().write_response_errors(), 2);
}

#[test]
fn head_decoded_takes_the_step_for_each_outcome() {
    let mut connection = connection(64, 64);
    assert_eq!(connection.head_decoded(Ok(None)).phase_kind(), PhaseKind::ReadRequestHead);
    let head = RequestHead {
        method: "GET".to_owned(),
        target: "/hello?x=1".to_owned(),
        version: httpcodec::HttpVersion::V1_1,
        header: Vec::new(),
    };
    match connection.head_decoded(Ok(Some(head))) {
        Phase::DispatchRequest(req) => {
            assert_eq!(req.method(), "GET");
            assert_eq!(req.path(), "/hello");
            assert_eq!(req.url().as_str(), "http://127.0.0.1:8080/hello?x=1");
        }
        _ => panic!("the request is dispatched"),
    }
    let head = RequestHead {
        method: "GET".to_owned(),
        target: "hello".to_owned(),
        version: httpcodec::HttpVersion::V1_1,
        header: Vec::new(),
    };
    assert_eq!(connection.head_decoded(Ok(Some(head))).phase_kind(), PhaseKind::WriteResponse);
    assert_eq!(connection.server_metrics().parse_request_path_errors(), 1);
    let next = connection.head_decoded(Err(Error::invalid_input("bad head")));
    assert_eq!(next.phase_kind(), PhaseKind::WriteResponse);
    assert_eq!(connection.server_metrics().read_request_head_errors(), 1);
}

/// An encoder that counts how often it is asked to encode.
struct Tally {
    calls: Arc<AtomicUsize>,
    left: Vec<u8>,
}

impl EncodeResponse for Tally {
    fn encode_to_write_buf(&mut self, buf: &mut WriteBuf<Vec<u8>>) -> Result<(), Error> {
        self.calls.fetch_add(1, Ordering::SeqCst);
        let n = buf.write(&self.left).unwrap();
        self.left.drain(..n);
        Ok(())
    }

    fn is_idle(&self) -> bool {
        self.left.is_empty()
    }
}

struct TallyReply(Option<Tally>);

impl PollReply for TallyReply {
    fn poll(&mut self) -> Option<ResEncoder> {
        self.0.take().map(|tally| ResEncoder::new(Box::new(tally)))
    }
}

struct TallyHandler(Arc<AtomicUsize>);

impl HandleInput for TallyHandler {
    fn init(&mut self, _req: Req<()>) -> Result<(), Error> {
        Ok(())
    }

    fn handle_input(&mut self, _buf: &mut ReadBuf<Vec<u8>>) -> Result<Option<BoxReply>, Error> {
        let tally = Tally { calls: self.0.clone(), left: b"0123456789abcdefghij".to_vec() };
        Ok(Some(BoxReply::new(Box::new(TallyReply(Some(tally))))))
    }

    fn is_closed(&self) -> bool {
        false
    }
}

struct TallyFactory(Arc<AtomicUsize>);

impl CreateHandler for TallyFactory {
    fn create(&self) -> RequestHandlerInstance {
        RequestHandlerInstance::new(Box::new(TallyHandler(self.0.clone())))
    }
}

#[test]
fn stalled_writing_asks_nothing_of_the_encoder() {
    let calls = Arc::new(AtomicUsize::new(0));
    let mut builder = DispatcherBuilder::new();
    let factory = RequestHandlerFactory::from_box(Box::new(TallyFactory(calls.clone())));
    builder.register_handler("GET", "/tally", factory).unwrap();
    let (_, defaults) = ServerBuilder::new().finish();
    let options = ServerOptions { read_buffer_size: 64, write_buffer_size: 8, ..defaults };
    let mut connection =
        Connection::new(ServerMetrics::new(), Pipe::new(), "127.0.0.1:8080", builder.finish(), &options)
            .unwrap();
    {
        let (stream, _, _) = connection.stream_mut().parts_mut();
        stream.output_limit = Some(0);
    }
    send(&mut connection, b"GET /tally HTTP/1.1\r\n\r\n");
    assert_eq!(run(&mut connection), Turn::NotReady);
    assert_eq!(connection.phase_kind(), PhaseKind::WriteResponse);
    assert!(connection.stream_mut().write_buf_mut().is_full());
    let asked = calls.load(Ordering::SeqCst);
    assert!(asked >= 1);
    // the client takes no byte: turn after turn the connection waits as it is
    for _ in 0..5 {
        let io = execute_io(connection.stream_mut());
        assert_eq!(connection.turn(io), Turn::NotReady);
        assert_eq!(connection.phase_kind(), PhaseKind::WriteResponse);
        assert_eq!(calls.load(Ordering::SeqCst), asked);
        assert!(received(&mut connection).is_empty());
    }
    assert_eq!(connection.server_metrics().write_response_errors(), 0);
    // once the client takes them, the rest is encoded and written
    {
        let (stream, _, _) = connection.stream_mut().parts_mut();
        stream.output_limit = None;
    }
    assert_eq!(run(&mut connection), Turn::NotReady);
    assert_eq!(received(&mut connection), b"0123456789abcdefghij".to_vec());
    assert!(calls.load(Ordering::SeqCst) > asked);
    assert_eq!(connection.phase_kind(), PhaseKind::ReadRequestHead);
}

#[test]
fn stepped_decides_the_turn_from_the_result_of_the_step() {
    let mut connection = connection(64, 64);
    assert_eq!(connection.stepped(Ok(true)), Turn::Again);
    assert_eq!(connection.stepped(Ok(false)), Turn::NotReady);
    assert_eq!(connection.server_metrics().disconnected_tcp_clients(), 0);
    assert_eq!(connection.stepped(Err(Error::other("broken"))), Turn::Aborted);
    assert_eq!(connection.server_metrics().disconnected_tcp_clients(), 1);
    assert_eq!(connection.phase_kind(), PhaseKind::ReadRequestHead);
    // at the end of the stream the connection is at its end, whatever the step says
    close_input(&mut connection);
    execute_io(connection.stream_mut()).unwrap();
    assert!(connection.is_closed());
    assert_eq!(connection.stepped(Ok(true)), Turn::Ready);
    assert_eq!(connection.stepped(Ok(false)), Turn::Ready);
    assert_eq!(connection.server_metrics().disconnected_tcp_clients(), 3);
}
