//! The connection of one client: the phases that it goes through, request
//! after request.
use crate::bc::{
    read_buf_len, read_buf_set_state, read_buf_state, read_state, unread, unsent, BufferedIo,
    MaybeEos,
};
use crate::dispatcher::Dispatcher;
use crate::error::{CodecFailure, Error};
use crate::handler::{BoxReply, RequestHandlerFactory, RequestHandlerInstance};
use crate::header::HeaderField;
use crate::metrics::{Counter, ServerMetrics};
use crate::request::{parsed, url_parse, Req};
use crate::response::ResEncoder;
use crate::server::ServerOptions;
use crate::status::Status;
use bytecodec::io::{IoDecodeExt, ReadBuf, StreamState};
use bytecodec::Decode;
use httpcodec::{DecodeOptions, HttpVersion, NoBodyDecoder, RequestDecoder};
use url::Url;
use vstd::prelude::*;
use vstd::string::StringExecFns;

verus! {

/// `httpcodec::RequestDecoder`: the decoder of requests.
#[verifier::external_type_specification]
#[verifier::external_body]
#[verifier::reject_recursive_types(D)]
pub struct ExRequestDecoder<D>(RequestDecoder<D>);

/// `httpcodec::NoBodyDecoder`: the body decoder that consumes no byte.
#[verifier::external_type_specification]
#[verifier::external_body]
pub struct ExNoBodyDecoder(NoBodyDecoder);

/// The head of a request, as it was decoded.
#[derive(Debug)]
pub struct RequestHead {
    /// The method of the request.
    pub method: String,
    /// The target of the request.
    pub target: String,
    /// The HTTP version of the request.
    pub version: HttpVersion,
    /// The header of the request.
    pub header: Vec<HeaderField>,
}

/// `RequestDecoder::with_options`, on a `NoBodyDecoder`: the decoder of the
/// heads of requests.
#[verifier::external_body]
fn head_decoder_new(options: DecodeOptions) -> RequestDecoder<NoBodyDecoder> {
    RequestDecoder::with_options(NoBodyDecoder, options)
}

/// What a step of decoding makes of a decoder of request heads and of the
/// bytes that it is given.
pub struct HeadDecoding {
    /// The decoder after the step.
    pub decoder: RequestDecoder<NoBodyDecoder>,
    /// The bytes that the decoder has left unread.
    pub unread: Seq<u8>,
    /// Whether the decoder has failed, and why.
    pub result: Result<(), CodecFailure>,
}

/// What the decoder `decoder` makes of the bytes `unread`, where it is told
/// that the stream is `at_end` or not.
pub uninterp spec fn head_decode_of(
    decoder: RequestDecoder<NoBodyDecoder>,
    unread: Seq<u8>,
    at_end: bool,
) -> HeadDecoding;

/// Whether the decoder `decoder` has a request head ready.
pub uninterp spec fn head_idle_of(decoder: RequestDecoder<NoBodyDecoder>) -> bool;

/// The decoder `decoder` after it has handed out its request head, and the
/// head, or why there is none.
pub uninterp spec fn head_finish_of(decoder: RequestDecoder<NoBodyDecoder>) -> (
    RequestDecoder<NoBodyDecoder>,
    Result<RequestHead, CodecFailure>,
);

/// `IoDecodeExt::decode_from_read_buf`: the decoder is given the unread
/// bytes of the buffer, and is told that the stream has ended where the
/// state of the stream is `Eos`; the bytes that it consumes leave the
/// buffer. The state of the stream stays as it is.
#[verifier::external_body]
fn head_decode(decoder: &mut RequestDecoder<NoBodyDecoder>, buf: &mut ReadBuf<Vec<u8>>) -> (r: Result<
    (),
    CodecFailure,
>)
    ensures
        read_state(*final(buf)) == read_state(*old(buf)),
        *final(decoder) == head_decode_of(
            *old(decoder),
            unread(*old(buf)),
            read_state(*old(buf)) == StreamState::Eos,
        ).decoder,
        unread(*final(buf)) == head_decode_of(
            *old(decoder),
            unread(*old(buf)),
            read_state(*old(buf)) == StreamState::Eos,
        ).unread,
        r == head_decode_of(
            *old(decoder),
            unread(*old(buf)),
            read_state(*old(buf)) == StreamState::Eos,
        ).result,
{
    let invalid = bytecodec::ErrorKind::InvalidInput;
    decoder.decode_from_read_buf(buf).map_err(|e| CodecFailure::new(*e.kind() == invalid, e.to_string()))
}

/// `Decode::is_idle`: whether the decoder has an item ready.
#[verifier::external_body]
fn head_is_idle(decoder: &RequestDecoder<NoBodyDecoder>) -> (idle: bool)
    ensures
        idle == head_idle_of(*decoder),
{
    decoder.is_idle()
}

/// `Decode::finish_decoding`: hands out the decoded request, of which the
/// method, the target, the version and the header fields are taken.
#[verifier::external_body]
fn head_finish(decoder: &mut RequestDecoder<NoBodyDecoder>) -> (r: Result<RequestHead, CodecFailure>)
    ensures
        *final(decoder) == head_finish_of(*old(decoder)).0,
        r == head_finish_of(*old(decoder)).1,
{
    let invalid = bytecodec::ErrorKind::InvalidInput;
    let decoded = decoder.finish_decoding();
    let request = decoded.map_err(|e| CodecFailure::new(*e.kind() == invalid, e.to_string()))?;
    Ok(
        RequestHead {
            method: request.method().as_str().to_owned(),
            target: request.request_target().as_str().to_owned(),
            version: request.http_version(),
            header: request.header().fields().map(|f| HeaderField::new(f.name(), f.value())).collect(),
        },
    )
}

/// The phases of a connection, without what they hold.
#[derive(Debug, Clone, Copy, PartialEq, Eq, Hash, Structural)]
pub enum PhaseKind {
    /// The head of a request is being read.
    ReadRequestHead,
    /// The handler of the request is being looked for.
    DispatchRequest,
    /// The handler reads the body of the request.
    HandleRequest,
    /// The reply of the handler is awaited.
    PollReply,
    /// The response is being written.
    WriteResponse,
    /// The connection is at its end.
    Closed,
}

/// The phase that a connection is in, with what belongs to it.
pub enum Phase {
    /// The head of a request is being read.
    ReadRequestHead,
    /// The handler of the request with this head is being looked for.
    DispatchRequest(Req<()>),
    /// This handler reads the body of the request.
    HandleRequest(RequestHandlerInstance),
    /// This reply is awaited.
    PollReply(BoxReply),
    /// This encoder writes the response.
    WriteResponse(ResEncoder),
    /// The connection is at its end.
    Closed,
}

impl Phase {
    /// The phase, without what it holds.
    pub open spec fn kind(&self) -> PhaseKind {
        match self {
            Phase::ReadRequestHead => PhaseKind::ReadRequestHead,
            Phase::DispatchRequest(_) => PhaseKind::DispatchRequest,
            Phase::HandleRequest(_) => PhaseKind::HandleRequest,
            Phase::PollReply(_) => PhaseKind::PollReply,
            Phase::WriteResponse(_) => PhaseKind::WriteResponse,
            Phase::Closed => PhaseKind::Closed,
        }
    }

    /// The failure that the response that is being written stands for.
    pub open spec fn failure(&self) -> Option<Status> {
        match self {
            Phase::WriteResponse(encoder) => encoder.failure(),
            _ => None,
        }
    }

    /// The bytes of the response to a failure that are not in the write buffer yet.
    pub open spec fn pending(&self) -> Seq<u8> {
        match self {
            Phase::WriteResponse(encoder) => encoder.pending(),
            _ => Seq::empty(),
        }
    }

    /// Returns the phase, without what it holds.
    pub fn phase_kind(&self) -> (kind: PhaseKind)
        ensures
            kind == self.kind(),
    {
        match self {
            Phase::ReadRequestHead => PhaseKind::ReadRequestHead,
            Phase::DispatchRequest(_) => PhaseKind::DispatchRequest,
            Phase::HandleRequest(_) => PhaseKind::HandleRequest,
            Phase::PollReply(_) => PhaseKind::PollReply,
            Phase::WriteResponse(_) => PhaseKind::WriteResponse,
            Phase::Closed => PhaseKind::Closed,
        }
    }

    /// Takes the phase out, and leaves `Closed` in its place.
    pub fn take(&mut self) -> (phase: Self)
        ensures
            phase == *old(self),
            *final(self) == Phase::Closed,
    {
        let mut taken = Phase::Closed;
        std::mem::swap(self, &mut taken);
        taken
    }

    /// Returns `true` if the phase is `Closed`, otherwise `false`.
    pub fn is_closed(&self) -> (closed: bool)
        ensures
            closed == (self.kind() == PhaseKind::Closed),
    {
        match self {
            Phase::Closed => true,
            _ => false,
        }
    }
}

/// Whether a connection in the phase `from` may be in the phase `to` after one step.
pub open spec fn step_allowed(from: PhaseKind, to: PhaseKind) -> bool {
    match from {
        PhaseKind::ReadRequestHead => to == PhaseKind::ReadRequestHead || to
            == PhaseKind::DispatchRequest || to == PhaseKind::WriteResponse,
        PhaseKind::DispatchRequest => to == PhaseKind::HandleRequest || to
            == PhaseKind::WriteResponse,
        PhaseKind::HandleRequest => to == PhaseKind::HandleRequest || to == PhaseKind::PollReply
            || to == PhaseKind::WriteResponse,
        PhaseKind::PollReply => to == PhaseKind::PollReply || to == PhaseKind::WriteResponse,
        PhaseKind::WriteResponse => to == PhaseKind::WriteResponse || to
            == PhaseKind::ReadRequestHead || to == PhaseKind::Closed,
        PhaseKind::Closed => to == PhaseKind::Closed,
    }
}

/// A connection that has reached `Closed` stays there, whatever steps follow.
pub proof fn lemma_closed_is_final(phases: Seq<PhaseKind>, at: int, later: int)
    requires
        forall|i: int| 0 <= i < phases.len() - 1 ==> step_allowed(#[trigger] phases[i], phases[i + 1]),
        0 <= at <= later < phases.len(),
        phases[at] == PhaseKind::Closed,
    ensures
        phases[later] == PhaseKind::Closed,
    decreases later - at,
{
    if at < later {
        lemma_closed_is_final(phases, at, later - 1);
        assert(step_allowed(phases[later - 1], phases[later]));
    }
}

/// What is to follow a turn of a connection.
#[derive(Debug, Clone, Copy, PartialEq, Eq, Hash, Structural)]
pub enum Turn {
    /// The connection can go on at once: I/O is to be executed, then the next turn taken.
    Again,
    /// The connection waits for the stream.
    NotReady,
    /// The connection has come to its end.
    Ready,
    /// The connection was aborted.
    Aborted,
}

/// The connection of one client.
pub struct Connection<T> {
    metrics: ServerMetrics,
    stream: BufferedIo<T>,
    req_head_decoder: MaybeEos<RequestDecoder<NoBodyDecoder>>,
    dispatcher: Dispatcher<RequestHandlerFactory>,
    base_url: Url,
    phase: Phase,
    do_close: bool,
}

/// The text of the URL that the targets of the requests of a connection are
/// resolved against: the address of the server socket stands for the host.
pub open spec fn base_url_text(local_addr: Seq<char>) -> Seq<char> {
    "http://"@ + local_addr + "/"@
}

impl<T> Connection<T> {
    /// The invariant of the connection: that of its dispatcher.
    pub closed spec fn wf(&self) -> bool {
        self.dispatcher.wf()
    }

    /// The phase that the connection is in.
    pub closed spec fn phase(&self) -> Phase {
        self.phase
    }

    /// Whether the connection ends with the response that is under way.
    pub closed spec fn do_close(&self) -> bool {
        self.do_close
    }

    /// What the connection has counted.
    pub closed spec fn metrics(&self) -> ServerMetrics {
        self.metrics
    }

    /// The buffered I/O channel of the connection.
    pub closed spec fn stream(&self) -> BufferedIo<T> {
        self.stream
    }

    /// The URL that the targets of requests are resolved against.
    pub closed spec fn base_url(&self) -> Url {
        self.base_url
    }

    /// Whether the decoder of request heads has consumed a byte of the head
    /// that it is decoding.
    pub closed spec fn head_begun(&self) -> bool {
        self.req_head_decoder.started()
    }

    /// The decoder of request heads.
    pub closed spec fn head_decoder(&self) -> RequestDecoder<NoBodyDecoder> {
        self.req_head_decoder.inner()
    }

    /// Whether the response to a failure, if one is being written, ends
    /// the connection. This holds of every connection from its making on.
    pub open spec fn closes_after_failure(&self) -> bool {
        self.phase().failure() is Some ==> self.do_close()
    }

    /// Whether the connection cannot go on before the stream is ready: no
    /// further I/O can make progress now, or a response is being written
    /// and the writing is stalled.
    pub open spec fn waits(&self) -> bool {
        self.stream().spec_would_block() || (self.phase().kind() == PhaseKind::WriteResponse
            && self.stream().spec_write_stalled())
    }

    /// Whether a response is being written while the writing is stalled:
    /// the write buffer is full, and writing to the stream would block.
    pub open spec fn writing_stalled(&self) -> bool {
        &&& self.phase().kind() == PhaseKind::WriteResponse
        &&& self.stream().spec_write_stalled()
    }

    /// What a step makes of the connection `self`, which writes the
    /// response to a failure: the connection `after`. The bytes of the
    /// response that the write buffer has room for go into it, in their
    /// order; after the last of them the connection is at its end.
    pub open spec fn failure_written(&self, after: &Self) -> bool {
        let buf = self.stream().spec_write_buf();
        let pending = self.phase().pending();
        let n = if pending.len() <= crate::bc::room(buf) {
            pending.len()
        } else {
            crate::bc::room(buf)
        };
        &&& unsent(after.stream().spec_write_buf()) == unsent(buf) + pending.take(n as int)
        &&& crate::bc::room(after.stream().spec_write_buf()) == crate::bc::room(buf) - n
        &&& crate::bc::write_state(after.stream().spec_write_buf()) == crate::bc::write_state(buf)
        &&& after.stream().read_buf() == self.stream().read_buf()
        &&& after.phase().pending() == pending.skip(n as int)
        &&& after.phase().kind() == (if n == pending.len() {
            PhaseKind::Closed
        } else {
            PhaseKind::WriteResponse
        })
        &&& after.do_close()
        &&& after.metrics() == self.metrics()
    }

    /// Whether the connection has come to its end: the stream has, or the
    /// phase is `Closed` and every byte is written.
    pub open spec fn spec_is_closed(&self) -> bool {
        self.stream().spec_is_eos() || (unsent(self.stream().spec_write_buf()).len() == 0
            && self.phase().kind() == PhaseKind::Closed)
    }

    /// What a turn answers that has not aborted the connection, which it
    /// has taken from `self` to `after`: `Ready` at the end of the
    /// connection; else `NotReady` where the phase is as it was and the
    /// connection waits for the stream; else `Again`.
    pub open spec fn settled(&self, after: &Self) -> Turn {
        if after.spec_is_closed() {
            Turn::Ready
        } else if after.phase().kind() != self.phase().kind() || !after.waits() {
            Turn::Again
        } else {
            Turn::NotReady
        }
    }

    /// A connection whose handler needs more bytes of the request than
    /// have come waits for them: while the handler stays, reading would
    /// block, nothing is left to write and the stream has not ended, the
    /// turn answers `NotReady`. It never ends the connection by itself.
    pub proof fn lemma_incomplete_request_waits(&self, after: &Self)
        requires
            self.phase().kind() == PhaseKind::HandleRequest,
            after.phase().kind() == PhaseKind::HandleRequest,
            crate::bc::read_state(after.stream().read_buf()) == StreamState::WouldBlock,
            unsent(after.stream().spec_write_buf()).len() == 0,
            crate::bc::write_state(after.stream().spec_write_buf()) != StreamState::Eos,
        ensures
            self.settled(after) == Turn::NotReady,
    {
    }

    /// A connection whose writing is stalled waits, turn after turn: the
    /// turn that leaves the phase and the stream as they are answers
    /// `NotReady`, and leaves a connection of which the same holds.
    pub proof fn lemma_stalled_writing_waits(&self, after: &Self)
        requires
            self.writing_stalled(),
            !self.spec_is_closed(),
            after.phase() == self.phase(),
            after.stream() == self.stream(),
        ensures
            self.settled(after) == Turn::NotReady,
            after.writing_stalled(),
            !after.spec_is_closed(),
    {
    }

    /// What a turn answers depends on the phases and on the state of the
    /// stream alone, not on how many turns were taken nor on when: turns
    /// that find the same and leave the same answer the same.
    pub proof fn lemma_turns_decide_alike(&self, after: &Self, other: &Self, other_after: &Self)
        requires
            other.phase().kind() == self.phase().kind(),
            other_after.phase().kind() == after.phase().kind(),
            other_after.stream().read_buf() == after.stream().read_buf(),
            other_after.stream().spec_write_buf() == after.stream().spec_write_buf(),
        ensures
            other.settled(other_after) == self.settled(after),
    {
    }

    /// Makes the connection of a client that has just connected, which is
    /// counted. `local_addr` is the address of the server socket.
    ///
    /// # Errors
    ///
    /// An `ErrorKind::InvalidInput` error is returned where
    /// `http://{local_addr}/` is no URL.
    pub fn new(
        metrics: ServerMetrics,
        stream: T,
        local_addr: &str,
        dispatcher: Dispatcher<RequestHandlerFactory>,
        options: &ServerOptions,
    ) -> (r: Result<Self, Error>)
        requires
            dispatcher.wf(),
        ensures
            r is Ok <==> parsed(base_url_text(local_addr@)) is Some,
            r matches Ok(connection) ==> {
                &&& connection.wf()
                &&& connection.closes_after_failure()
                &&& connection.phase().kind() == PhaseKind::ReadRequestHead
                &&& !connection.head_begun()
                &&& !connection.do_close()
                &&& metrics.counted(connection.metrics(), Counter::ConnectedTcpClients)
                &&& Some(connection.base_url()) == parsed(base_url_text(local_addr@))
                &&& connection.stream().stream() == stream
                &&& !connection.spec_is_closed()
            },
            r matches Err(e) ==> e.spec_kind() == crate::error::ErrorKind::InvalidInput,
    {
        let text = String::from_str("http://").concat(local_addr).concat("/");
        let base_url = match url_parse(text.as_str()) {
            Err(_) => {
                return Err(Error::invalid_input("the address of the server socket is no host of an URL"));
            },
            Ok(url) => url,
        };
        let mut metrics = metrics;
        metrics.increment(Counter::ConnectedTcpClients);
        let decode_options = DecodeOptions {
            max_start_line_size: options.decode_options.max_start_line_size,
            max_header_size: options.decode_options.max_header_size,
        };
        Ok(
            Connection {
                metrics,
                stream: BufferedIo::new(stream, options.read_buffer_size, options.write_buffer_size),
                req_head_decoder: MaybeEos::new(head_decoder_new(decode_options)),
                dispatcher,
                base_url,
                phase: Phase::ReadRequestHead,
                do_close: false,
            },
        )
    }

    /// Returns the buffered I/O channel, on which I/O is executed between the turns.
    pub fn stream_mut(&mut self) -> (stream: &mut BufferedIo<T>)
        ensures
            *stream == old(self).stream(),
            final(self).stream() == *final(stream),
            final(self).phase() == old(self).phase(),
            final(self).do_close() == old(self).do_close(),
            final(self).metrics() == old(self).metrics(),
            final(self).base_url() == old(self).base_url(),
            final(self).routes() == old(self).routes(),
            final(self).wf() == old(self).wf(),
    {
        &mut self.stream
    }

    /// Returns what the connection has counted.
    pub fn server_metrics(&self) -> (metrics: &ServerMetrics)
        ensures
            *metrics == self.metrics(),
    {
        &self.metrics
    }

    /// Returns the phase that the connection is in, without what it holds.
    pub fn phase_kind(&self) -> (kind: PhaseKind)
        ensures
            kind == self.phase().kind(),
    {
        self.phase.phase_kind()
    }

    /// Returns `true` if the connection has come to its end, otherwise `false`.
    pub fn is_closed(&self) -> (closed: bool)
        ensures
            closed == self.spec_is_closed(),
    {
        self.stream.is_eos() || (crate::bc::write_buf_is_empty(self.stream.write_buf())
            && self.phase.is_closed())
    }

    /// The step that answers a failure: the failure is counted, the
    /// connection is to end with the response, and the response for `status`
    /// is the next to be written.
    pub fn fail(&mut self, counter: Counter, status: Status) -> (next: Phase)
        ensures
            next.kind() == PhaseKind::WriteResponse,
            next.failure() == Some(status),
            next.pending() == crate::response::error_bytes(status),
            next.pending().len() > 0,
            final(self).do_close(),
            old(self).metrics().counted(final(self).metrics(), counter),
            final(self).phase() == old(self).phase(),
            final(self).stream() == old(self).stream(),
            final(self).head_begun() == old(self).head_begun(),
            final(self).head_decoder() == old(self).head_decoder(),
            final(self).same_setting(old(self)),
    {
        self.metrics.increment(counter);
        self.do_close = true;
        Phase::WriteResponse(ResEncoder::error(status))
    }
}

impl<T> Connection<T> {
    /// Whether a step has left everything but the phase, the flag and the
    /// counters of the connection as it was.
    pub open spec fn same_setting(&self, before: &Self) -> bool {
        &&& self.wf() == before.wf()
        &&& self.routes() == before.routes()
        &&& self.base_url() == before.base_url()
        &&& self.stream().stream() == before.stream().stream()
    }

    /// What the decoder of request heads makes of the bytes that are unread.
    ///
    /// The decoder is told that the stream has ended only where it has, and
    /// the decoder has begun a head.
    pub open spec fn head_decoding(&self) -> HeadDecoding {
        head_decode_of(
            self.head_decoder(),
            unread(self.stream().read_buf()),
            read_state(self.stream().read_buf()) == StreamState::Eos && self.head_begun(),
        )
    }

    /// The outcome of the reading of a request head: the failure of the
    /// decoder; or nothing, while the head is incomplete; or the head that
    /// the decoder hands out once it has one ready.
    pub open spec fn head_outcome(&self) -> Result<Option<RequestHead>, Error> {
        let decoding = self.head_decoding();
        match decoding.result {
            Err(failure) => Err(Error::of_codec(failure)),
            Ok(()) => if head_idle_of(decoding.decoder) {
                match head_finish_of(decoding.decoder).1 {
                    Err(failure) => Err(Error::of_codec(failure)),
                    Ok(head) => Ok(Some(head)),
                }
            } else {
                Ok(None)
            },
        }
    }

    /// How the reading of a request head leaves the decoder and the read
    /// buffer, from the connection `self` to `after`.
    ///
    /// The bytes that the decoder has consumed have left the buffer. With
    /// a whole head handed out the decoder has not begun the next one;
    /// without one it has begun a head if it had before or has consumed a
    /// byte; after a failure it counts as begun as before.
    pub open spec fn head_read(&self, after: &Self) -> bool {
        let decoding = self.head_decoding();
        &&& unread(after.stream().read_buf()) == decoding.unread
        &&& read_state(after.stream().read_buf()) == read_state(self.stream().read_buf())
        &&& after.stream().spec_write_buf() == self.stream().spec_write_buf()
        &&& match decoding.result {
            Err(_) => after.head_decoder() == decoding.decoder && after.head_begun()
                == self.head_begun(),
            Ok(()) => if head_idle_of(decoding.decoder) {
                &&& after.head_decoder() == head_finish_of(decoding.decoder).0
                &&& after.head_begun() == (head_finish_of(decoding.decoder).1 is Err
                    && self.head_begun())
            } else {
                &&& after.head_decoder() == decoding.decoder
                &&& after.head_begun() == (self.head_begun() || decoding.unread.len() < unread(
                    self.stream().read_buf(),
                ).len())
            },
        }
    }

    /// The step that follows the decoding of a request head with the given
    /// outcome, from the connection `self` to `after`, whose next phase is
    /// `next`.
    ///
    /// A failure of the decoder is answered `BadRequest`. While the head is
    /// incomplete, the connection goes on reading. A head whose target is no
    /// path that can be resolved against the base URL is answered
    /// `BadRequest`; any other is dispatched next.
    pub open spec fn head_step(
        &self,
        after: &Self,
        outcome: Result<Option<RequestHead>, Error>,
        next: Phase,
    ) -> bool {
        match outcome {
            Err(_) => {
                &&& next.failure() == Some(Status::BadRequest)
                &&& next.pending() == crate::response::error_bytes(Status::BadRequest)
                &&& next.kind() == PhaseKind::WriteResponse
                &&& after.do_close()
                &&& self.metrics().counted(after.metrics(), Counter::ReadRequestHeadErrors)
            },
            Ok(None) => {
                &&& next == Phase::ReadRequestHead
                &&& after.do_close() == self.do_close()
                &&& after.metrics() == self.metrics()
            },
            Ok(Some(head)) => if Self::resolves(self.base_url(), head) {
                &&& next matches Phase::DispatchRequest(req)
                &&& req.spec_method() == head.method@
                &&& req.spec_target() == head.target@
                &&& req.spec_version() == head.version
                &&& req.spec_header() == crate::header::field_views(head.header@)
                &&& Some(req.spec_url()) == crate::request::joined(self.base_url(), head.target@)
                &&& after.do_close() == self.do_close()
                &&& after.metrics() == self.metrics()
            } else {
                &&& next.failure() == Some(Status::BadRequest)
                &&& next.pending() == crate::response::error_bytes(Status::BadRequest)
                &&& next.kind() == PhaseKind::WriteResponse
                &&& after.do_close()
                &&& self.metrics().counted(after.metrics(), Counter::ParseRequestPathErrors)
            },
        }
    }

    /// Hands the bytes that were read to the decoder of request heads. The
    /// decoder is not told that the stream has ended before it has begun a head.
    fn decode_head(&mut self) -> (r: Result<Option<RequestHead>, Error>)
        ensures
            final(self).phase() == old(self).phase(),
            final(self).do_close() == old(self).do_close(),
            final(self).metrics() == old(self).metrics(),
            final(self).same_setting(old(self)),
            final(self).stream().spec_write_buf() == old(self).stream().spec_write_buf(),
            read_state(final(self).stream().read_buf()) == read_state(old(self).stream().read_buf()),
            r == old(self).head_outcome(),
            old(self).head_read(final(self)),
    {
        let buf = self.stream.read_buf_mut();
        let at_end = match read_buf_state(buf) {
            StreamState::Eos => true,
            _ => false,
        };
        let hidden = at_end && !self.req_head_decoder.tells_end(at_end);
        let before = read_buf_len(buf);
        if hidden {
            read_buf_set_state(buf, StreamState::Normal);
        }
        let decoded = head_decode(self.req_head_decoder.inner_mut(), buf);
        if hidden {
            read_buf_set_state(buf, StreamState::Eos);
        }
        let after = read_buf_len(buf);
        let size = if after <= before {
            before - after
        } else {
            0
        };
        match decoded {
            Err(failure) => Err(Error::from_codec(failure)),
            Ok(()) => {
                if head_is_idle(self.req_head_decoder.inner_ref()) {
                    match head_finish(self.req_head_decoder.inner_mut()) {
                        Err(failure) => Err(Error::from_codec(failure)),
                        Ok(head) => {
                            self.req_head_decoder.decoded(size, true);
                            Ok(Some(head))
                        },
                    }
                } else {
                    self.req_head_decoder.decoded(size, false);
                    Ok(None)
                }
            },
        }
    }

    /// The step that follows the decoding of a request head.
    ///
    /// A failure of the decoder is answered `BadRequest`. While the head is
    /// incomplete, the connection goes on reading. A head whose target is no
    /// path that can be resolved against the base URL is answered
    /// `BadRequest`; any other is dispatched next.
    pub fn head_decoded(&mut self, outcome: Result<Option<RequestHead>, Error>) -> (next: Phase)
        ensures
            final(self).phase() == old(self).phase(),
            final(self).stream() == old(self).stream(),
            final(self).head_begun() == old(self).head_begun(),
            final(self).head_decoder() == old(self).head_decoder(),
            final(self).same_setting(old(self)),
            old(self).head_step(final(self), outcome, next),
    {
        match outcome {
            Err(_) => self.fail(Counter::ReadRequestHeadErrors, Status::BadRequest),
            Ok(None) => Phase::ReadRequestHead,
            Ok(Some(head)) => {
                let RequestHead { method, target, version, header } = head;
                match Req::new(method.as_str(), target.as_str(), version, header, (), &self.base_url) {
                    Err(_) => self.fail(Counter::ParseRequestPathErrors, Status::BadRequest),
                    Ok(req) => Phase::DispatchRequest(req),
                }
            },
        }
    }

    /// Whether the target of the request head `head` begins with `/` and
    /// can be resolved against `base_url`.
    pub open spec fn resolves(base_url: Url, head: RequestHead) -> bool {
        let target = vstd::utf8::encode_utf8(head.target@);
        target.len() > 0 && target[0] == crate::bytes::SLASH && crate::request::joined(
            base_url,
            head.target@,
        ) is Some
    }

    /// Reads on at the head of a request.
    ///
    /// Until the head is complete the connection stays as it is, but for
    /// the bytes that the decoder has consumed.
    pub fn read_request_head(&mut self) -> (next: Phase)
        ensures
            final(self).phase() == old(self).phase(),
            final(self).same_setting(old(self)),
            final(self).stream().spec_write_buf() == old(self).stream().spec_write_buf(),
            read_state(final(self).stream().read_buf()) == read_state(old(self).stream().read_buf()),
            next.kind() == PhaseKind::ReadRequestHead || next.kind() == PhaseKind::DispatchRequest
                || next.kind() == PhaseKind::WriteResponse,
            next.kind() != PhaseKind::WriteResponse ==> final(self).do_close() == old(
                self,
            ).do_close() && final(self).metrics() == old(self).metrics(),
            next.kind() == PhaseKind::WriteResponse ==> {
                &&& next.failure() == Some(Status::BadRequest)
                &&& final(self).do_close()
                &&& (old(self).metrics().counted(final(self).metrics(), Counter::ReadRequestHeadErrors)
                    || old(self).metrics().counted(
                    final(self).metrics(),
                    Counter::ParseRequestPathErrors,
                ))
            },
            old(self).head_step(final(self), old(self).head_outcome(), next),
            old(self).head_read(final(self)),
    {
        let outcome = self.decode_head();
        let ghost decoded = *self;
        let next = self.head_decoded(outcome);
        proof {
            assert(decoded.head_step(self, outcome, next));
            assert(old(self).head_step(self, outcome, next));
        }
        next
    }

    /// The step that follows the initialization of the handler of a request:
    /// the handler goes on with the body, unless it has failed, which is
    /// answered `InternalServerError`.
    pub fn handler_initialized(
        &mut self,
        handler: RequestHandlerInstance,
        result: Result<(), Error>,
    ) -> (next: Phase)
        ensures
            final(self).phase() == old(self).phase(),
            final(self).stream() == old(self).stream(),
            final(self).same_setting(old(self)),
            match result {
                Ok(()) => {
                    &&& next == Phase::HandleRequest(handler)
                    &&& final(self).do_close() == old(self).do_close()
                    &&& final(self).metrics() == old(self).metrics()
                },
                Err(_) => {
                    &&& next.kind() == PhaseKind::WriteResponse
                    &&& next.failure() == Some(Status::InternalServerError)
                    &&& next.pending() == crate::response::error_bytes(Status::InternalServerError)
                    &&& final(self).do_close()
                    &&& old(self).metrics().counted(
                        final(self).metrics(),
                        Counter::InitializeHandlerErrors,
                    )
                },
            },
    {
        match result {
            Err(_) => self.fail(Counter::InitializeHandlerErrors, Status::InternalServerError),
            Ok(()) => Phase::HandleRequest(handler),
        }
    }

    /// Where the dispatcher of the connection sends the request with the head `head`.
    pub open spec fn routed(&self, head: Req<()>) -> Result<RequestHandlerFactory, Status> {
        self.routes().dispatch(
            vstd::utf8::encode_utf8(head.spec_method()),
            vstd::utf8::encode_utf8(crate::request::path_of(head.spec_url())),
        )
    }

    /// The routes of the dispatcher of the connection.
    pub closed spec fn routes(&self) -> crate::dispatcher::Routes<RequestHandlerFactory> {
        self.dispatcher@
    }

    /// The step that dispatches the request with the head `head`, from the
    /// connection `self` to `after`, whose next phase is `next`.
    ///
    /// A request that the dispatcher has no handler for is answered with
    /// the status that the dispatcher gives. Else the handler goes on with
    /// the body, unless it has failed on the head, which is answered
    /// `InternalServerError`.
    pub open spec fn dispatch_step(&self, after: &Self, head: Req<()>, next: Phase) -> bool {
        match self.routed(head) {
            Err(status) => {
                &&& next.kind() == PhaseKind::WriteResponse
                &&& next.failure() == Some(status)
                &&& next.pending() == crate::response::error_bytes(status)
                &&& after.do_close()
                &&& self.metrics().counted(after.metrics(), Counter::DispatchRequestErrors)
            },
            Ok(_) => {
                ||| {
                    &&& next.kind() == PhaseKind::HandleRequest
                    &&& after.do_close() == self.do_close()
                    &&& after.metrics() == self.metrics()
                }
                ||| {
                    &&& next.kind() == PhaseKind::WriteResponse
                    &&& next.failure() == Some(Status::InternalServerError)
                    &&& next.pending() == crate::response::error_bytes(Status::InternalServerError)
                    &&& after.do_close()
                    &&& self.metrics().counted(after.metrics(), Counter::InitializeHandlerErrors)
                }
            },
        }
    }

    /// Looks for the handler of the request with the head `head`, and shows
    /// it the head.
    ///
    /// A request that the dispatcher has no handler for is answered with
    /// the status that the dispatcher gives. A handler that fails on the
    /// head is answered `InternalServerError`.
    pub fn dispatch_request(&mut self, head: Req<()>) -> (next: Phase)
        requires
            old(self).wf(),
        ensures
            final(self).phase() == old(self).phase(),
            final(self).stream() == old(self).stream(),
            final(self).same_setting(old(self)),
            old(self).dispatch_step(final(self), head, next),
    {
        let found = match self.dispatcher.dispatch(head.method(), head.path()) {
            Err(status) => Err(status),
            Ok(factory) => Ok(factory.create()),
        };
        match found {
            Err(status) => self.fail(Counter::DispatchRequestErrors, status),
            Ok(handler) => {
                let mut handler = handler;
                let result = handler.init(head);
                self.handler_initialized(handler, result)
            },
        }
    }

    /// The step that follows the reply of a handler: the reply is awaited,
    /// and the connection ends with the response if the handler says so.
    pub fn replied(&mut self, reply: BoxReply, closed: bool) -> (next: Phase)
        ensures
            next == Phase::PollReply(reply),
            final(self).do_close() == closed,
            final(self).head_begun() == old(self).head_begun(),
            final(self).phase() == old(self).phase(),
            final(self).stream() == old(self).stream(),
            final(self).metrics() == old(self).metrics(),
            final(self).same_setting(old(self)),
    {
        self.do_close = closed;
        Phase::PollReply(reply)
    }

    /// The step that follows what the handler of the request has made of
    /// the bytes that were read, from the connection `self` to `after`,
    /// whose next phase is `next`.
    ///
    /// A failure of the handler is counted and answered `BadRequest`. While
    /// the request is incomplete the handler stays. Its reply is awaited
    /// next, and ends the connection if the handler is `closed`.
    pub open spec fn input_step(
        &self,
        after: &Self,
        handler: RequestHandlerInstance,
        result: Result<Option<BoxReply>, Error>,
        closed: bool,
        next: Phase,
    ) -> bool {
        match result {
            Err(_) => {
                &&& next.kind() == PhaseKind::WriteResponse
                &&& next.failure() == Some(Status::BadRequest)
                &&& next.pending() == crate::response::error_bytes(Status::BadRequest)
                &&& after.do_close()
                &&& self.metrics().counted(after.metrics(), Counter::DecodeRequestBodyErrors)
            },
            Ok(None) => {
                &&& next == Phase::HandleRequest(handler)
                &&& after.do_close() == self.do_close()
                &&& after.metrics() == self.metrics()
            },
            Ok(Some(reply)) => {
                &&& next == Phase::PollReply(reply)
                &&& after.do_close() == closed
                &&& after.metrics() == self.metrics()
            },
        }
    }

    /// The step that follows what the handler of the request has made of
    /// the bytes that were read: `result`, and whether it is `closed`.
    pub fn input_handled(
        &mut self,
        handler: RequestHandlerInstance,
        result: Result<Option<BoxReply>, Error>,
        closed: bool,
    ) -> (next: Phase)
        ensures
            final(self).phase() == old(self).phase(),
            final(self).stream() == old(self).stream(),
            final(self).head_begun() == old(self).head_begun(),
            final(self).same_setting(old(self)),
            old(self).input_step(final(self), handler, result, closed, next),
    {
        match result {
            Err(_) => self.fail(Counter::DecodeRequestBodyErrors, Status::BadRequest),
            Ok(None) => Phase::HandleRequest(handler),
            Ok(Some(reply)) => self.replied(reply, closed),
        }
    }

    /// Hands the bytes that were read to the handler of the request, and
    /// takes the step that follows what the handler makes of them. The
    /// handler is asked whether it is closed once it has replied.
    pub fn handle_request(&mut self, handler: RequestHandlerInstance) -> (next: Phase)
        ensures
            final(self).phase() == old(self).phase(),
            final(self).same_setting(old(self)),
            final(self).head_begun() == old(self).head_begun(),
            final(self).stream().spec_write_buf() == old(self).stream().spec_write_buf(),
            next.kind() == PhaseKind::HandleRequest || next.kind() == PhaseKind::PollReply
                || next.kind() == PhaseKind::WriteResponse,
            next.kind() == PhaseKind::HandleRequest ==> final(self).do_close() == old(
                self,
            ).do_close(),
            next.kind() != PhaseKind::WriteResponse ==> final(self).metrics() == old(self).metrics(),
            next.kind() == PhaseKind::WriteResponse ==> {
                &&& next.failure() == Some(Status::BadRequest)
                &&& final(self).do_close()
                &&& old(self).metrics().counted(
                    final(self).metrics(),
                    Counter::DecodeRequestBodyErrors,
                )
            },
            exists|
                after: RequestHandlerInstance,
                result: Result<Option<BoxReply>, Error>,
                closed: bool,
            | #[trigger] old(self).input_step(final(self), after, result, closed, next),
    {
        let mut handler = handler;
        let result = handler.handle_input(self.stream.read_buf_mut());
        let closed = match &result {
            Ok(Some(_)) => handler.is_closed(),
            _ => false,
        };
        let ghost handed = *self;
        let ghost after = handler;
        let next = self.input_handled(handler, result, closed);
        proof {
            assert(handed.input_step(self, after, result, closed, next));
            assert(old(self).input_step(self, after, result, closed, next));
        }
        next
    }

    /// The step that follows a poll of the reply `reply` of a handler
    /// with the result `polled`, from the connection `self` to `after`,
    /// whose next phase is `next`.
    ///
    /// Once the response is there, it is written; until then the reply is
    /// awaited. A response that stands for a failure ends the connection.
    pub open spec fn reply_step(
        &self,
        after: &Self,
        reply: BoxReply,
        polled: Option<ResEncoder>,
        next: Phase,
    ) -> bool {
        match polled {
            Some(encoder) => {
                &&& next == Phase::WriteResponse(encoder)
                &&& after.do_close() == (self.do_close() || encoder.failure() is Some)
            },
            None => {
                &&& next == Phase::PollReply(reply)
                &&& after.do_close() == self.do_close()
            },
        }
    }

    /// The step that follows a poll of the reply of a handler: once the
    /// response is there, it is written. A response that stands for a
    /// failure ends the connection.
    pub fn reply_polled(&mut self, reply: BoxReply, polled: Option<ResEncoder>) -> (next: Phase)
        ensures
            old(self).reply_step(final(self), reply, polled, next),
            final(self).phase() == old(self).phase(),
            final(self).stream() == old(self).stream(),
            final(self).metrics() == old(self).metrics(),
            final(self).same_setting(old(self)),
    {
        match polled {
            Some(encoder) => {
                if encoder.is_failure() {
                    self.do_close = true;
                }
                Phase::WriteResponse(encoder)
            },
            None => Phase::PollReply(reply),
        }
    }

    /// Asks once for the response of the handler.
    pub fn poll_reply(&mut self, reply: BoxReply) -> (next: Phase)
        ensures
            next.kind() == PhaseKind::PollReply || next.kind() == PhaseKind::WriteResponse,
            next.failure() is Some ==> final(self).do_close(),
            old(self).do_close() ==> final(self).do_close(),
            next.kind() == PhaseKind::PollReply ==> final(self).do_close() == old(self).do_close(),
            final(self).phase() == old(self).phase(),
            final(self).stream() == old(self).stream(),
            final(self).metrics() == old(self).metrics(),
            final(self).same_setting(old(self)),
            exists|after: BoxReply, polled: Option<ResEncoder>| #[trigger]
                old(self).reply_step(final(self), after, polled, next),
    {
        let mut reply = reply;
        let polled = reply.poll();
        let ghost asked = *self;
        let ghost after = reply;
        let next = self.reply_polled(reply, polled);
        proof {
            assert(asked.reply_step(self, after, polled, next));
            assert(old(self).reply_step(self, after, polled, next));
        }
        next
    }

    /// The phase that follows a response that is written whole: the next
    /// request, or the end of the connection.
    pub open spec fn after_response(do_close: bool) -> PhaseKind {
        if do_close {
            PhaseKind::Closed
        } else {
            PhaseKind::ReadRequestHead
        }
    }

    /// The phase that follows a response that is written whole.
    pub open spec fn phase_after_response(do_close: bool) -> Phase {
        if do_close {
            Phase::Closed
        } else {
            Phase::ReadRequestHead
        }
    }

    /// The step that follows the encoding of a response into the write
    /// buffer, from the connection `self` to `after`, with the result `r`.
    ///
    /// The failure of the encoder is counted once and returned. After a
    /// response that is encoded whole the connection ends if it was to end
    /// with this response, and else reads the next request. While bytes are
    /// left to encode, the encoder stays.
    pub open spec fn response_step(
        &self,
        after: &Self,
        encoder: ResEncoder,
        result: Result<(), Error>,
        idle: bool,
        r: Result<Phase, Error>,
    ) -> bool {
        match result {
            Err(e) => {
                &&& r == Err::<Phase, Error>(e)
                &&& self.metrics().counted(after.metrics(), Counter::WriteResponseErrors)
            },
            Ok(()) => {
                &&& r == Ok::<Phase, Error>(
                    if idle {
                        Self::phase_after_response(self.do_close())
                    } else {
                        Phase::WriteResponse(encoder)
                    },
                )
                &&& after.metrics() == self.metrics()
            },
        }
    }

    /// The step that follows the encoding of a response into the write
    /// buffer: the `result` of the encoder, and whether it is `idle` after it.
    pub fn response_encoded(
        &mut self,
        encoder: ResEncoder,
        result: Result<(), Error>,
        idle: bool,
    ) -> (r: Result<Phase, Error>)
        ensures
            final(self).phase() == old(self).phase(),
            final(self).do_close() == old(self).do_close(),
            final(self).stream() == old(self).stream(),
            final(self).head_begun() == old(self).head_begun(),
            final(self).same_setting(old(self)),
            old(self).response_step(final(self), encoder, result, idle, r),
    {
        match result {
            Err(e) => {
                self.metrics.increment(Counter::WriteResponseErrors);
                Err(e)
            },
            Ok(()) => {
                if idle {
                    if self.do_close {
                        Ok(Phase::Closed)
                    } else {
                        Ok(Phase::ReadRequestHead)
                    }
                } else {
                    Ok(Phase::WriteResponse(encoder))
                }
            },
        }
    }

    /// Encodes what the write buffer has room for, and takes the step that
    /// follows. The encoder is asked whether it is idle once it has encoded.
    ///
    /// # Errors
    ///
    /// The failure of the encoder is counted and returned. The response to
    /// a failure is encoded already: writing it does not fail.
    pub fn write_response(&mut self, encoder: ResEncoder) -> (r: Result<Phase, Error>)
        ensures
            final(self).phase() == old(self).phase(),
            final(self).do_close() == old(self).do_close(),
            final(self).head_begun() == old(self).head_begun(),
            final(self).same_setting(old(self)),
            final(self).stream().read_buf() == old(self).stream().read_buf(),
            match r {
                Ok(next) => {
                    &&& final(self).metrics() == old(self).metrics()
                    &&& next.kind() == PhaseKind::WriteResponse || next.kind()
                        == Self::after_response(old(self).do_close())
                    &&& next.failure() == (if next.kind() == PhaseKind::WriteResponse {
                        encoder.failure()
                    } else {
                        None
                    })
                },
                Err(_) => {
                    &&& encoder.failure() is None
                    &&& old(self).metrics().counted(
                        final(self).metrics(),
                        Counter::WriteResponseErrors,
                    )
                },
            },
            encoder.failure() is Some ==> {
                let buf = old(self).stream().spec_write_buf();
                let n = if encoder.pending().len() <= crate::bc::room(buf) {
                    encoder.pending().len()
                } else {
                    crate::bc::room(buf)
                };
                &&& unsent(final(self).stream().spec_write_buf()) == unsent(buf)
                    + encoder.pending().take(n as int)
                &&& crate::bc::room(final(self).stream().spec_write_buf()) == crate::bc::room(buf) - n
                &&& crate::bc::write_state(final(self).stream().spec_write_buf())
                    == crate::bc::write_state(buf)
                &&& r matches Ok(next)
                &&& next.pending() == encoder.pending().skip(n as int)
                &&& next.kind() == (if n == encoder.pending().len() {
                    Self::after_response(old(self).do_close())
                } else {
                    PhaseKind::WriteResponse
                })
            },
            exists|after: ResEncoder, result: Result<(), Error>, idle: bool|
                {
                    &&& #[trigger] old(self).response_step(final(self), after, result, idle, r)
                    &&& after.failure() == encoder.failure()
                },
    {
        let mut encoder = encoder;
        let result = encoder.encode_to_write_buf(self.stream.write_buf_mut());
        let idle = match &result {
            Ok(()) => encoder.is_idle(),
            Err(_) => false,
        };
        let ghost encoded = *self;
        let ghost after = encoder;
        let r = self.response_encoded(encoder, result, idle);
        proof {
            assert(encoded.response_step(self, after, result, idle, r));
            assert(old(self).response_step(self, after, result, idle, r));
        }
        r
    }
}

impl<T> Connection<T> {
    /// What one step makes of the connection `self`, after I/O was
    /// executed on the stream with the result `io`: the connection `after`,
    /// and the result `r` of the step.
    ///
    /// A failure of the I/O is returned, and leaves the connection as it
    /// was. Else the step is that of the phase. It tells that the connection
    /// can go on at once where the phase has changed or the connection does
    /// not have to wait. It fails only with the encoder of the response of
    /// a handler, which is counted and leaves the phase `Closed`. While
    /// the writing is stalled nothing is encoded, and the connection waits
    /// as it is.
    pub open spec fn step_taken(&self, after: &Self, io: Result<(), Error>, r: Result<bool, Error>) -> bool {
        &&& after.stream().stream() == self.stream().stream()
        &&& after.metrics().count(Counter::ConnectedTcpClients) == self.metrics().count(
            Counter::ConnectedTcpClients,
        )
        &&& after.metrics().count(Counter::DisconnectedTcpClients) == self.metrics().count(
            Counter::DisconnectedTcpClients,
        )
        &&& match io {
            Err(e) => {
                &&& r == Err::<bool, Error>(e)
                &&& after.phase() == self.phase()
                &&& after.do_close() == self.do_close()
                &&& after.metrics() == self.metrics()
                &&& after.stream() == self.stream()
            },
            Ok(()) => {
                &&& match r {
                    Ok(go) => {
                        &&& step_allowed(self.phase().kind(), after.phase().kind())
                        &&& go == (after.phase().kind() != self.phase().kind() || !after.waits())
                        &&& after.metrics().count(Counter::WriteResponseErrors)
                            == self.metrics().count(Counter::WriteResponseErrors)
                        &&& after.phase().kind() == self.phase().kind() ==> after.metrics()
                            == self.metrics() && after.do_close() == self.do_close()
                    },
                    Err(_) => {
                        &&& self.phase().kind() == PhaseKind::WriteResponse
                        &&& self.phase().failure() is None
                        &&& !self.writing_stalled()
                        &&& after.phase() == Phase::Closed
                        &&& after.do_close() == self.do_close()
                        &&& self.metrics().counted(after.metrics(), Counter::WriteResponseErrors)
                    },
                }
                &&& self.phase().kind() == PhaseKind::Closed ==> {
                    &&& after.do_close() == self.do_close()
                    &&& after.metrics() == self.metrics()
                    &&& after.stream() == self.stream()
                }
                &&& self.phase().kind() == PhaseKind::ReadRequestHead ==> {
                    &&& r is Ok
                    &&& self.head_step(after, self.head_outcome(), after.phase())
                    &&& self.head_read(after)
                }
                &&& self.phase().kind() == PhaseKind::HandleRequest ==> {
                    &&& r is Ok
                    &&& after.stream().spec_write_buf() == self.stream().spec_write_buf()
                    &&& exists|
                        handler: RequestHandlerInstance,
                        result: Result<Option<BoxReply>, Error>,
                        closed: bool,
                    | #[trigger] self.input_step(after, handler, result, closed, after.phase())
                }
                &&& self.phase() matches Phase::DispatchRequest(head) ==> {
                    &&& r is Ok
                    &&& after.stream() == self.stream()
                    &&& self.dispatch_step(after, head, after.phase())
                }
                &&& self.phase().kind() == PhaseKind::PollReply ==> {
                    &&& r is Ok
                    &&& after.stream() == self.stream()
                    &&& after.metrics() == self.metrics()
                    &&& exists|reply: BoxReply, polled: Option<ResEncoder>| #[trigger]
                        self.reply_step(after, reply, polled, after.phase())
                }
                &&& self.phase().kind() == PhaseKind::WriteResponse && !self.writing_stalled() ==> {
                    &&& after.stream().read_buf() == self.stream().read_buf()
                    &&& exists|
                        encoder: ResEncoder,
                        result: Result<(), Error>,
                        idle: bool,
                        stepped: Result<Phase, Error>,
                    |
                        {
                            &&& #[trigger] self.response_step(after, encoder, result, idle, stepped)
                            &&& encoder.failure() == self.phase().failure()
                            &&& match stepped {
                                Ok(next) => r is Ok && after.phase() == next,
                                Err(e) => r == Err::<bool, Error>(e) && after.phase() == Phase::Closed,
                            }
                        }
                }
                &&& self.phase().failure() is Some && !self.writing_stalled()
                    ==> self.failure_written(after) && r is Ok
                &&& self.writing_stalled() ==> {
                    &&& r == Ok::<bool, Error>(false)
                    &&& after.phase() == self.phase()
                    &&& after.stream() == self.stream()
                }
            },
        }
    }

    /// What follows a step with the result `stepped`, from the connection
    /// `self` to `after`: the turn `turn`.
    ///
    /// The connection is `Aborted` where the step has failed. Else it is
    /// `Ready` at its end. Else it goes on at once where the step says that
    /// it can, and is `NotReady` where it cannot. The end of the connection,
    /// aborted or not, is counted, and nothing else changes.
    pub open spec fn turn_taken(&self, after: &Self, stepped: Result<bool, Error>, turn: Turn) -> bool {
        &&& after.phase() == self.phase()
        &&& after.stream() == self.stream()
        &&& after.do_close() == self.do_close()
        &&& turn == match stepped {
            Err(_) => Turn::Aborted,
            Ok(go) => if self.spec_is_closed() {
                Turn::Ready
            } else if go {
                Turn::Again
            } else {
                Turn::NotReady
            },
        }
        &&& if turn == Turn::Ready || turn == Turn::Aborted {
            self.metrics().counted(after.metrics(), Counter::DisconnectedTcpClients)
        } else {
            after.metrics() == self.metrics()
        }
    }

    /// Takes one step, after I/O was executed on the stream with the result `io`.
    ///
    /// Returns whether the connection can go on at once: the phase has
    /// changed, or the connection does not have to wait for the stream.
    /// While the writing is stalled the writing of a response is suspended:
    /// nothing is encoded, and the connection waits as it is.
    ///
    /// # Errors
    ///
    /// A failure of the I/O is returned as it is, and the connection stays
    /// as it was. The failure of the encoder of a response is returned, and
    /// leaves the connection in the phase `Closed`.
    pub fn poll_once(&mut self, io: Result<(), Error>) -> (r: Result<bool, Error>)
        requires
            old(self).wf(),
            old(self).closes_after_failure(),
        ensures
            final(self).wf(),
            final(self).closes_after_failure(),
            final(self).same_setting(old(self)),
            old(self).step_taken(final(self), io, r),
    {
        if let Err(e) = io {
            return Err(e);
        }
        let before = self.phase.phase_kind();
        let ghost mut handled: (RequestHandlerInstance, Result<Option<BoxReply>, Error>, bool) =
            arbitrary();
        let ghost mut asked: (BoxReply, Option<ResEncoder>) = arbitrary();
        let ghost mut encoded: (ResEncoder, Result<(), Error>, bool, Result<Phase, Error>) =
            arbitrary();
        let next = match self.phase.take() {
            Phase::ReadRequestHead => self.read_request_head(),
            Phase::DispatchRequest(req) => self.dispatch_request(req),
            Phase::HandleRequest(handler) => {
                let ghost taken = *self;
                let next = self.handle_request(handler);
                proof {
                    let (after, result, closed) = choose|
                        after: RequestHandlerInstance,
                        result: Result<Option<BoxReply>, Error>,
                        closed: bool,
                    | #[trigger] taken.input_step(self, after, result, closed, next);
                    handled = (after, result, closed);
                }
                next
            },
            Phase::PollReply(reply) => {
                let ghost taken = *self;
                let next = self.poll_reply(reply);
                proof {
                    asked = choose|after: BoxReply, polled: Option<ResEncoder>| #[trigger]
                        taken.reply_step(self, after, polled, next);
                }
                next
            },
            Phase::WriteResponse(encoder) => {
                if self.stream.write_stalled() {
                    Phase::WriteResponse(encoder)
                } else {
                    let ghost taken = *self;
                    let stepped = self.write_response(encoder);
                    proof {
                        let (after, result, idle) = choose|
                            after: ResEncoder,
                            result: Result<(), Error>,
                            idle: bool,
                        |
                            {
                                &&& #[trigger] taken.response_step(self, after, result, idle, stepped)
                                &&& after.failure() == encoder.failure()
                            };
                        encoded = (after, result, idle, stepped);
                        assert(old(self).response_step(self, after, result, idle, stepped));
                    }
                    match stepped {
                        Err(e) => {
                            return Err(e);
                        },
                        Ok(next) => next,
                    }
                }
            },
            Phase::Closed => Phase::Closed,
        };
        self.phase = next;
        proof {
            if before == PhaseKind::HandleRequest {
                assert(old(self).input_step(self, handled.0, handled.1, handled.2, self.phase()));
            }
            if before == PhaseKind::PollReply {
                assert(old(self).reply_step(self, asked.0, asked.1, self.phase()));
            }
            if before == PhaseKind::WriteResponse && !old(self).writing_stalled() {
                assert(old(self).response_step(self, encoded.0, encoded.1, encoded.2, encoded.3));
            }
        }
        let now = self.phase.phase_kind();
        let changed = now != before;
        let stalled = now == PhaseKind::WriteResponse && self.stream.write_stalled();
        Ok(changed || !(self.stream.would_block() || stalled))
    }

    /// Counts the end of a connection that is found at its end before a turn.
    ///
    /// Returns `true` if the connection has come to its end, otherwise `false`.
    pub fn begin(&mut self) -> (ended: bool)
        ensures
            ended == old(self).spec_is_closed(),
            ended ==> old(self).metrics().counted(
                final(self).metrics(),
                Counter::DisconnectedTcpClients,
            ),
            !ended ==> final(self).metrics() == old(self).metrics(),
            final(self).phase() == old(self).phase(),
            final(self).do_close() == old(self).do_close(),
            final(self).stream() == old(self).stream(),
            final(self).same_setting(old(self)),
    {
        if self.is_closed() {
            self.metrics.increment(Counter::DisconnectedTcpClients);
            true
        } else {
            false
        }
    }

    /// Takes one turn, after I/O was executed on the stream with the result
    /// `io`: one step, and the decision on what follows it.
    ///
    /// The connection is `Aborted` where the step fails. Else it is `Ready`
    /// once it has come to its end. Else it goes on at once where the step
    /// says that it can, and is `NotReady` where it cannot. The end of the
    /// connection, aborted or not, is counted. A connection whose writing
    /// is stalled waits as it is.
    pub fn turn(&mut self, io: Result<(), Error>) -> (turn: Turn)
        requires
            old(self).wf(),
            old(self).closes_after_failure(),
        ensures
            final(self).wf(),
            final(self).closes_after_failure(),
            final(self).same_setting(old(self)),
            exists|stepped: Self, r: Result<bool, Error>|
                #![trigger old(self).step_taken(&stepped, io, r)]
                old(self).step_taken(&stepped, io, r) && stepped.turn_taken(final(self), r, turn),
            io is Err ==> turn == Turn::Aborted,
            turn == Turn::Aborted && io is Ok ==> {
                &&& old(self).phase().kind() == PhaseKind::WriteResponse
                &&& old(self).phase().failure() is None
                &&& final(self).phase() == Phase::Closed
            },
            turn != Turn::Aborted ==> step_allowed(
                old(self).phase().kind(),
                final(self).phase().kind(),
            ),
            io is Ok && old(self).writing_stalled() && !old(self).spec_is_closed() ==> {
                &&& turn == Turn::NotReady
                &&& final(self).phase() == old(self).phase()
                &&& final(self).stream() == old(self).stream()
            },
            turn != Turn::Aborted ==> turn == old(self).settled(final(self)),
            turn == Turn::NotReady ==> {
                &&& final(self).metrics() == old(self).metrics()
                &&& final(self).do_close() == old(self).do_close()
            },
            io is Ok && old(self).phase().kind() == PhaseKind::HandleRequest ==> {
                &&& turn != Turn::Aborted
                &&& final(self).stream().spec_write_buf() == old(self).stream().spec_write_buf()
            },
            final(self).stream().stream() == old(self).stream().stream(),
            turn == Turn::Ready ==> final(self).spec_is_closed(),
            turn == Turn::Again || turn == Turn::NotReady ==> !final(self).spec_is_closed(),
            turn == Turn::NotReady ==> final(self).phase().kind() == old(self).phase().kind()
                && final(self).waits(),
            turn == Turn::Again ==> final(self).phase().kind() != old(self).phase().kind()
                || !final(self).waits(),
            final(self).metrics().count(Counter::DisconnectedTcpClients) == (if turn == Turn::Ready
                || turn == Turn::Aborted {
                crate::metrics::next_count(
                    old(self).metrics().count(Counter::DisconnectedTcpClients),
                )
            } else {
                old(self).metrics().count(Counter::DisconnectedTcpClients)
            }),
    {
        let r = self.poll_once(io);
        let ghost taken = *self;
        let turn = self.stepped(r);
        proof {
            assert(old(self).step_taken(&taken, io, r) && taken.turn_taken(self, r, turn));
        }
        turn
    }

    /// The decision that follows a step with the result `stepped`.
    ///
    /// The connection is `Aborted` where the step has failed. Else it is
    /// `Ready` at its end. Else it goes on at once where the step says that
    /// it can, and is `NotReady` where it cannot. The end of the connection,
    /// aborted or not, is counted.
    pub fn stepped(&mut self, stepped: Result<bool, Error>) -> (turn: Turn)
        ensures
            final(self).same_setting(old(self)),
            final(self).head_begun() == old(self).head_begun(),
            final(self).head_decoder() == old(self).head_decoder(),
            old(self).turn_taken(final(self), stepped, turn),
    {
        match stepped {
            Err(_) => {
                self.metrics.increment(Counter::DisconnectedTcpClients);
                Turn::Aborted
            },
            Ok(go) => {
                if self.is_closed() {
                    self.metrics.increment(Counter::DisconnectedTcpClients);
                    Turn::Ready
                } else if go {
                    Turn::Again
                } else {
                    Turn::NotReady
                }
            },
        }
    }
}

} // verus!
