//! Request handlers, and the pipeline that runs one of them on one request.
use crate::dispatcher::share;
use crate::error::Error;
use crate::request::Req;
use crate::response::{Res, ResEncoder};
use bytecodec::io::ReadBuf;
use factory::DefaultFactory;
use std::marker::PhantomData;
use std::sync::Arc;
use vstd::prelude::*;

verus! {

/// `factory::DefaultFactory`: the factory that makes the default value of a type.
#[verifier::external_type_specification]
#[verifier::external_body]
#[verifier::reject_recursive_types(T)]
pub struct ExDefaultFactory<T>(DefaultFactory<T>);

/// `DefaultFactory::new`.
#[verifier::external_body]
fn default_factory<T: Default>() -> DefaultFactory<T> {
    DefaultFactory::new()
}

/// `HandleRequest` allows for handling HTTP requests.
pub trait HandleRequest: Sized + Send + Sync + 'static {
    /// The method that the handler can handle.
    const METHOD: &'static str;

    /// The request path that the handler can handle.
    ///
    /// `*` and `**` in the path have the special meanings as follows:
    /// - `*` matches any path segment (i.e., regarded as a wildcard)
    /// - `**` matches all remaining parts of a path
    const PATH: &'static str;

    /// The type of the request bodies.
    type ReqBody: Send + 'static;

    /// The type of the response bodies.
    type ResBody: Send + 'static;

    /// Request body decoder.
    type Decoder: Send + 'static;

    /// Response body encoder.
    type Encoder: Send + 'static;

    /// What stands for the reply to a request until the response is there.
    type Reply: Send + 'static;

    /// Handles the head part of a request.
    ///
    /// If a `Some(..)` value is returned, the invocation of `handle_request` method will be skipped.
    ///
    /// The default implementation always returns `None`.
    #[allow(unused_variables)]
    fn handle_request_head(&self, req: &Req<()>) -> Option<Res<Self::ResBody>> {
        None
    }

    /// Handles a request.
    fn handle_request(&self, req: Req<Self::ReqBody>) -> Self::Reply;

    /// Handles an error occurred while decoding the body of a request.
    ///
    /// The default implementation always returns `None`
    /// (i.e., the default error response will be returned to the HTTP client).
    #[allow(unused_variables)]
    fn handle_decoding_error(&self, req: Req<()>, error: &Error) -> Option<Res<Self::ResBody>> {
        None
    }
}

/// Options for a request handler.
pub struct HandlerOptions<H, D, E> {
    _handler: PhantomData<H>,
    decoder_factory: D,
    encoder_factory: E,
}

impl<H> HandlerOptions<H, (), ()> {
    /// Makes a new `HandlerOptions` instance.
    pub fn new() -> (options: Self)
        ensures
            options.spec_decoder_factory() == (),
            options.spec_encoder_factory() == (),
    {
        HandlerOptions { _handler: PhantomData, decoder_factory: (), encoder_factory: () }
    }
}

impl<H, D, E> HandlerOptions<H, D, E> {
    /// The factory of the decoders of the handler.
    pub closed spec fn spec_decoder_factory(&self) -> D {
        self.decoder_factory
    }

    /// The factory of the encoders of the handler.
    pub closed spec fn spec_encoder_factory(&self) -> E {
        self.encoder_factory
    }

    /// Specifies the decoder factory that the handler will use.
    pub fn decoder<F>(self, decoder_factory: F) -> (options: HandlerOptions<H, F, E>)
        ensures
            options.spec_decoder_factory() == decoder_factory,
            options.spec_encoder_factory() == self.spec_encoder_factory(),
    {
        HandlerOptions {
            _handler: PhantomData,
            decoder_factory,
            encoder_factory: self.encoder_factory,
        }
    }

    /// Specifies the encoder factory that the handler will use.
    pub fn encoder<F>(self, encoder_factory: F) -> (options: HandlerOptions<H, D, F>)
        ensures
            options.spec_decoder_factory() == self.spec_decoder_factory(),
            options.spec_encoder_factory() == encoder_factory,
    {
        HandlerOptions {
            _handler: PhantomData,
            decoder_factory: self.decoder_factory,
            encoder_factory,
        }
    }

    /// Returns the decoder factory.
    pub fn decoder_factory(&self) -> (factory: &D)
        ensures
            *factory == self.spec_decoder_factory(),
    {
        &self.decoder_factory
    }

    /// Returns the encoder factory.
    pub fn encoder_factory(&self) -> (factory: &E)
        ensures
            *factory == self.spec_encoder_factory(),
    {
        &self.encoder_factory
    }
}

impl<H: HandleRequest, D, E> HandlerOptions<H, D, E> {
    /// Specifies that the handler will use the default decoder factory.
    pub fn default_decoder(self) -> (options: HandlerOptions<H, DefaultFactory<H::Decoder>, E>)
        where H::Decoder: Default
        ensures
            options.spec_encoder_factory() == self.spec_encoder_factory(),
    {
        self.decoder(default_factory())
    }

    /// Specifies that the handler will use the default encoder factory.
    pub fn default_encoder(self) -> (options: HandlerOptions<H, D, DefaultFactory<H::Encoder>>)
        where H::Encoder: Default
        ensures
            options.spec_decoder_factory() == self.spec_decoder_factory(),
    {
        self.encoder(default_factory())
    }
}

impl<H> Default for HandlerOptions<H, DefaultFactory<H::Decoder>, DefaultFactory<H::Encoder>> where
    H: HandleRequest,
    H::Decoder: Default,
    H::Encoder: Default,
 {
    /// The options that name the default factories of both codecs.
    fn default() -> Self {
        HandlerOptions::new().default_decoder().default_encoder()
    }
}

/// What a connection asks of the handler of one request.
pub trait HandleInput: Send {
    /// Shows the handler the head of the request.
    fn init(&mut self, req: Req<()>) -> Result<(), Error>;

    /// Hands the handler the bytes that were read from the stream. Once the
    /// request is complete, the reply to it is returned.
    fn handle_input(&mut self, buf: &mut ReadBuf<Vec<u8>>) -> Result<Option<BoxReply>, Error>;

    /// Returns `true` if the connection is to be closed after the response.
    fn is_closed(&self) -> bool;
}

/// What stands for the reply to a request until the response is there.
pub trait PollReply: Send {
    /// Asks once for the response, without waiting for it.
    fn poll(&mut self) -> Option<ResEncoder>;
}

/// The reply to a request, which may not be there yet.
pub struct BoxReply(Box<dyn PollReply>);

impl BoxReply {
    /// Wraps a reply.
    pub fn new(inner: Box<dyn PollReply>) -> Self {
        BoxReply(inner)
    }

    /// Asks once for the response, without waiting for it.
    pub fn poll(&mut self) -> Option<ResEncoder> {
        self.0.poll()
    }
}

/// How the codecs and the reply of a handler are driven.
///
/// The pipeline of a handler knows no wire format and no executor: it asks
/// an implementation of this trait to make, prime and run the decoder of
/// the request body, and to turn the reply of the handler and its encoder
/// into a `BoxReply`.
pub trait Codec<H: HandleRequest, D, E>: Send + Sync + 'static {
    /// Makes the decoder of one request body.
    fn create_decoder(factory: &D) -> H::Decoder;

    /// Makes the encoder of one response body.
    fn create_encoder(factory: &E) -> H::Encoder;

    /// Primes `decoder` for the body that the head `req` announces.
    fn initialize(decoder: &mut H::Decoder, req: &Req<()>) -> Result<(), Error>;

    /// Hands the bytes of `buf` to `decoder`, which consumes those of the
    /// body. Once the body is complete, it is returned.
    fn decode(decoder: &mut H::Decoder, buf: &mut ReadBuf<Vec<u8>>) -> Result<
        Option<H::ReqBody>,
        Error,
    >;

    /// The reply that encodes with `encoder` the response that `reply` will give.
    fn reply(reply: H::Reply, encoder: H::Encoder) -> BoxReply;

    /// The reply that encodes `res` with `encoder`.
    fn respond(res: Res<H::ResBody>, encoder: H::Encoder) -> BoxReply;
}

/// What follows a step of the decoder of a request body.
pub enum BodyStep<B, E> {
    /// The body is incomplete: the pipeline goes on awaiting it.
    NeedMore,
    /// The body is complete: the request for the handler, and the encoder
    /// of the response to it.
    Complete(Req<B>, E),
    /// The decoder has failed: the head of the request and the failure,
    /// for the answer of the handler to it.
    Failed(Req<()>, Error),
}

/// How far the pipeline of a handler has come with its request.
#[derive(Debug, Clone, Copy, PartialEq, Eq, Structural)]
pub enum Stage {
    /// The head of the request has not been shown to the handler.
    Init,
    /// The handler has seen the head, and the body is being decoded.
    AwaitingBody,
    /// The handler has answered without the body; the response waits to be sent.
    Answered,
    /// The reply is handed out.
    Done,
}

/// The pipeline that runs the handler `H` on one request.
pub struct InputHandler<H: HandleRequest, D, E, C: Codec<H, D, E>> {
    req_handler: Arc<H>,
    req_head: Option<Req<()>>,
    res: Option<Res<H::ResBody>>,
    decoder: H::Decoder,
    encoder: Option<H::Encoder>,
    is_closed: bool,
    _codec: PhantomData<(D, E, C)>,
}

impl<H: HandleRequest, D, E, C: Codec<H, D, E>> InputHandler<H, D, E, C> {
    /// How far the pipeline has come.
    pub closed spec fn stage(&self) -> Stage {
        if self.encoder is None {
            Stage::Done
        } else if self.res is Some {
            Stage::Answered
        } else if self.req_head is Some {
            Stage::AwaitingBody
        } else {
            Stage::Init
        }
    }

    /// Whether the connection is to be closed after the response.
    pub closed spec fn spec_is_closed(&self) -> bool {
        self.is_closed
    }

    /// The handler that the pipeline runs.
    pub closed spec fn handler(&self) -> H {
        *self.req_handler
    }

    /// The encoder of the response body, until the reply is handed out.
    pub closed spec fn encoder(&self) -> Option<H::Encoder> {
        self.encoder
    }

    /// The head of the request whose body is being decoded.
    pub closed spec fn head(&self) -> Option<Req<()>> {
        self.req_head
    }

    /// The response that the handler gave without the body.
    pub closed spec fn answer(&self) -> Option<Res<H::ResBody>> {
        self.res
    }

    /// What the pipeline `self`, which has seen no head, has made of the
    /// head `req`, where the handler has given `answer` to the head: the
    /// pipeline `after` and the result `r`.
    ///
    /// The answer of the handler waits to be sent, and ends the connection.
    /// Without one the decoder was primed, and the pipeline awaits the body;
    /// or the priming has failed, and what the handler has answered to the
    /// failure waits to be sent and ends the connection; or it has failed
    /// with the error that `r` holds, to which the handler has had no answer.
    pub open spec fn head_shown(
        self,
        after: Self,
        req: Req<()>,
        answer: Option<Res<H::ResBody>>,
        r: Result<(), Error>,
    ) -> bool {
        match answer {
            Some(res) => {
                &&& r is Ok
                &&& after.stage() == Stage::Answered
                &&& after.answer() == Some(res)
                &&& after.spec_is_closed()
            },
            None => match r {
                Ok(()) => {
                    ||| {
                        &&& after.stage() == Stage::AwaitingBody
                        &&& after.head() == Some(req)
                        &&& after.spec_is_closed() == self.spec_is_closed()
                    }
                    ||| exists|error: Error, res: Res<H::ResBody>|
                        {
                            &&& #[trigger] call_ensures(
                                H::handle_decoding_error,
                                (&self.handler(), req, &error),
                                Some(res),
                            )
                            &&& after.stage() == Stage::Answered
                            &&& after.answer() == Some(res)
                            &&& after.spec_is_closed()
                        }
                },
                Err(error) => {
                    &&& call_ensures(
                        H::handle_decoding_error,
                        (&self.handler(), req, &error),
                        None::<Res<H::ResBody>>,
                    )
                    &&& after.stage() == Stage::Init
                    &&& after.head() is None
                    &&& after.spec_is_closed() == self.spec_is_closed()
                },
            },
        }
    }

    /// Makes the pipeline of one request.
    pub fn new(req_handler: Arc<H>, decoder: H::Decoder, encoder: H::Encoder) -> (handler: Self)
        ensures
            handler.stage() == Stage::Init,
            !handler.spec_is_closed(),
    {
        InputHandler {
            req_handler,
            req_head: None,
            res: None,
            decoder,
            encoder: Some(encoder),
            is_closed: false,
            _codec: PhantomData,
        }
    }

    /// The handler has answered with `res` without the body: the response
    /// waits to be sent, and ends the connection.
    pub fn answered(&mut self, res: Res<H::ResBody>)
        ensures
            final(self).stage() == (if old(self).stage() == Stage::Done {
                Stage::Done
            } else {
                Stage::Answered
            }),
            final(self).spec_is_closed(),
            final(self).answer() == Some(res),
            final(self).head() == old(self).head(),
            final(self).handler() == old(self).handler(),
            final(self).encoder() == old(self).encoder(),
    {
        self.res = Some(res);
        self.is_closed = true;
    }

    /// The decoder is primed for the body of the request with the head `req`.
    pub fn primed(&mut self, req: Req<()>)
        ensures
            final(self).stage() == (if old(self).stage() == Stage::Init {
                Stage::AwaitingBody
            } else {
                old(self).stage()
            }),
            final(self).spec_is_closed() == old(self).spec_is_closed(),
            final(self).head() == Some(req),
            final(self).answer() == old(self).answer(),
            final(self).handler() == old(self).handler(),
            final(self).encoder() == old(self).encoder(),
    {
        self.req_head = Some(req);
    }

    /// The decoder has failed with `error`, and the handler was asked for an
    /// answer to the failure: its answer waits to be sent, and ends the
    /// connection. Without an answer the failure stands.
    pub fn decoding_failed(&mut self, error: Error, answer: Option<Res<H::ResBody>>) -> (r: Result<
        (),
        Error,
    >)
        ensures
            match answer {
                Some(res) => {
                    &&& r is Ok
                    &&& final(self).stage() == (if old(self).stage() == Stage::Done {
                        Stage::Done
                    } else {
                        Stage::Answered
                    })
                    &&& final(self).spec_is_closed()
                    &&& final(self).answer() == Some(res)
                },
                None => {
                    &&& r == Err::<(), Error>(error)
                    &&& final(self).stage() == (if old(self).stage() == Stage::AwaitingBody {
                        Stage::Init
                    } else {
                        old(self).stage()
                    })
                    &&& final(self).spec_is_closed() == old(self).spec_is_closed()
                    &&& final(self).answer() == old(self).answer()
                },
            },
            final(self).head() is None,
            final(self).handler() == old(self).handler(),
            final(self).encoder() == old(self).encoder(),
    {
        self.req_head = None;
        match answer {
            Some(res) => {
                self.res = Some(res);
                self.is_closed = true;
                Ok(())
            },
            None => Err(error),
        }
    }

    /// The step that follows a step of the decoder of the request body
    /// with the given outcome.
    ///
    /// While the body is incomplete the pipeline stays as it is. A complete
    /// body makes, with the head that the pipeline has kept, the request for
    /// the handler; the encoder is handed out with it, and the pipeline is
    /// done. After a failure the head is handed out with it, for the answer
    /// of the handler.
    pub fn body_decoded(&mut self, outcome: Result<Option<H::ReqBody>, Error>) -> (step: BodyStep<
        H::ReqBody,
        H::Encoder,
    >)
        requires
            old(self).stage() == Stage::AwaitingBody,
        ensures
            final(self).handler() == old(self).handler(),
            final(self).spec_is_closed() == old(self).spec_is_closed(),
            final(self).answer() == old(self).answer(),
            match outcome {
                Ok(None) => {
                    &&& step is NeedMore
                    &&& final(self).stage() == Stage::AwaitingBody
                    &&& final(self).head() == old(self).head()
                    &&& final(self).encoder() == old(self).encoder()
                },
                Ok(Some(body)) => {
                    &&& step matches BodyStep::Complete(req, encoder)
                    &&& req.same_head(&old(self).head().unwrap())
                    &&& req.spec_body() == body
                    &&& Some(encoder) == old(self).encoder()
                    &&& final(self).stage() == Stage::Done
                    &&& final(self).head() is None
                },
                Err(error) => {
                    &&& step matches BodyStep::Failed(req, failure)
                    &&& Some(req) == old(self).head()
                    &&& failure == error
                    &&& final(self).stage() == Stage::Init
                    &&& final(self).head() is None
                    &&& final(self).encoder() == old(self).encoder()
                },
            },
    {
        match outcome {
            Ok(None) => BodyStep::NeedMore,
            Ok(Some(body)) => {
                let req = self.req_head.take().unwrap().with_body(body);
                let encoder = self.encoder.take().unwrap();
                BodyStep::Complete(req, encoder)
            },
            Err(error) => {
                let req = self.req_head.take().unwrap();
                BodyStep::Failed(req, error)
            },
        }
    }

    /// Hands out the response that waits to be sent as a reply: the one
    /// that the codec makes of it and the encoder.
    fn respond(&mut self) -> (reply: BoxReply)
        requires
            old(self).stage() == Stage::Answered,
        ensures
            final(self).stage() == Stage::Done,
            final(self).spec_is_closed() == old(self).spec_is_closed(),
            final(self).handler() == old(self).handler(),
            call_ensures(
                C::respond,
                (old(self).answer().unwrap(), old(self).encoder().unwrap()),
                reply,
            ),
    {
        let res = self.res.take().unwrap();
        let encoder = self.encoder.take().unwrap();
        C::respond(res, encoder)
    }

    /// What the pipeline `self`, which awaits the body, has made of a step
    /// of its decoder with the given outcome: the pipeline `after` and the
    /// result `r`.
    ///
    /// While the body is incomplete nothing is returned, and the pipeline
    /// stays as it is. A complete body goes with the kept head to the
    /// handler, and the reply that the codec makes of the handler's reply
    /// and the encoder is returned. After a failure the handler is asked
    /// for an answer to it: its answer is returned as a reply and ends the
    /// connection; without one the failure is returned.
    pub open spec fn input_taken(
        self,
        after: Self,
        outcome: Result<Option<H::ReqBody>, Error>,
        r: Result<Option<BoxReply>, Error>,
    ) -> bool {
        match outcome {
            Ok(None) => {
                &&& r matches Ok(None)
                &&& after.stage() == Stage::AwaitingBody
                &&& after.head() == self.head()
                &&& after.encoder() == self.encoder()
                &&& after.spec_is_closed() == self.spec_is_closed()
            },
            Ok(Some(body)) => {
                &&& r matches Ok(Some(boxed))
                &&& exists|req: Req<H::ReqBody>, reply: H::Reply|
                    {
                        &&& req.same_head(&self.head().unwrap())
                        &&& req.spec_body() == body
                        &&& #[trigger] call_ensures(H::handle_request, (&self.handler(), req), reply)
                        &&& call_ensures(C::reply, (reply, self.encoder().unwrap()), boxed)
                    }
                &&& after.stage() == Stage::Done
                &&& after.spec_is_closed() == self.spec_is_closed()
            },
            Err(error) => match r {
                Ok(Some(boxed)) => {
                    &&& exists|res: Res<H::ResBody>|
                        {
                            &&& #[trigger] call_ensures(
                                H::handle_decoding_error,
                                (&self.handler(), self.head().unwrap(), &error),
                                Some(res),
                            )
                            &&& call_ensures(C::respond, (res, self.encoder().unwrap()), boxed)
                        }
                    &&& after.stage() == Stage::Done
                    &&& after.spec_is_closed()
                },
                Ok(None) => false,
                Err(failure) => {
                    &&& failure == error
                    &&& call_ensures(
                        H::handle_decoding_error,
                        (&self.handler(), self.head().unwrap(), &error),
                        None::<Res<H::ResBody>>,
                    )
                    &&& after.stage() == Stage::Init
                    &&& after.spec_is_closed() == self.spec_is_closed()
                },
            },
        }
    }
}

impl<H: HandleRequest, D: Send, E: Send, C: Codec<H, D, E>> HandleInput for InputHandler<H, D, E, C> {
    /// Shows the handler the head of the request. Where it answers from the
    /// head alone, the response waits to be sent. Else the decoder is primed;
    /// where that fails, the handler may answer to the failure.
    ///
    /// # Errors
    ///
    /// The failure to prime the decoder is returned where the handler has no
    /// answer to it. An `ErrorKind::Other` error is returned where the
    /// pipeline has seen a head already.
    fn init(&mut self, req: Req<()>) -> (r: Result<(), Error>)
        ensures
            old(self).stage() != Stage::Init ==> r is Err,
            r is Ok ==> final(self).stage() == Stage::Answered || (final(self).stage()
                == Stage::AwaitingBody && final(self).head() == Some(req)),
            r is Err ==> final(self).stage() == old(self).stage(),
            final(self).spec_is_closed() == (old(self).spec_is_closed() || (old(self).stage()
                == Stage::Init && final(self).stage() == Stage::Answered)),
            final(self).handler() == old(self).handler(),
            old(self).stage() == Stage::Init ==> exists|answer: Option<Res<H::ResBody>>|
                {
                    &&& #[trigger] call_ensures(
                        H::handle_request_head,
                        (&old(self).handler(), &req),
                        answer,
                    )
                    &&& old(self).head_shown(*final(self), req, answer, r)
                },
    {
        let fresh = self.encoder.is_some() && self.res.is_none() && self.req_head.is_none();
        if !fresh {
            return Err(Error::other("the handler has seen the head of its request already"));
        }
        match self.req_handler.handle_request_head(&req) {
            Some(res) => {
                self.answered(res);
                Ok(())
            },
            None => match C::initialize(&mut self.decoder, &req) {
                Err(e) => {
                    let answer = self.req_handler.handle_decoding_error(req, &e);
                    self.decoding_failed(e, answer)
                },
                Ok(()) => {
                    self.primed(req);
                    Ok(())
                },
            },
        }
    }

    /// Hands the handler the bytes that were read from the stream.
    ///
    /// A response that waits to be sent is handed out at once. Else the
    /// decoder goes on with the body: while it is incomplete, `None` is
    /// returned; once it is complete, the handler gets the request and its
    /// reply is returned. Where the decoder fails, the handler may answer to
    /// the failure; the answer ends the connection.
    ///
    /// # Errors
    ///
    /// The failure of the decoder is returned where the handler has no
    /// answer to it. An `ErrorKind::Other` error is returned where the
    /// pipeline has not seen a head, or has handed out its reply.
    fn handle_input(&mut self, buf: &mut ReadBuf<Vec<u8>>) -> (r: Result<Option<BoxReply>, Error>)
        ensures
            old(self).stage() == Stage::Init || old(self).stage() == Stage::Done ==> r is Err
                && final(self).stage() == old(self).stage(),
            old(self).stage() == Stage::Answered ==> (r matches Ok(Some(reply)) && call_ensures(
                C::respond,
                (old(self).answer().unwrap(), old(self).encoder().unwrap()),
                reply,
            )),
            old(self).stage() != Stage::AwaitingBody ==> *final(buf) == *old(buf),
            r matches Ok(Some(_)) ==> final(self).stage() == Stage::Done,
            r matches Ok(None) ==> final(self).stage() == Stage::AwaitingBody && final(self).head()
                == old(self).head() && final(self).spec_is_closed() == old(self).spec_is_closed(),
            r is Err ==> final(self).stage() != Stage::AwaitingBody,
            old(self).spec_is_closed() ==> final(self).spec_is_closed(),
            final(self).handler() == old(self).handler(),
            old(self).stage() == Stage::AwaitingBody ==> exists|
                outcome: Result<Option<H::ReqBody>, Error>,
            | #[trigger] old(self).input_taken(*final(self), outcome, r),
    {
        if self.encoder.is_none() {
            return Err(Error::other("the handler has handed out its reply already"));
        }
        if self.res.is_some() {
            return Ok(Some(self.respond()));
        }
        if self.req_head.is_none() {
            return Err(Error::other("the handler has not seen the head of its request"));
        }
        let outcome = C::decode(&mut self.decoder, buf);
        let r = match self.body_decoded(outcome) {
            BodyStep::NeedMore => Ok(None),
            BodyStep::Complete(req, encoder) => {
                let reply = self.req_handler.handle_request(req);
                Ok(Some(C::reply(reply, encoder)))
            },
            BodyStep::Failed(req, error) => {
                let answer = self.req_handler.handle_decoding_error(req, &error);
                match self.decoding_failed(error, answer) {
                    Ok(()) => Ok(Some(self.respond())),
                    Err(e) => Err(e),
                }
            },
        };
        proof {
            assert(old(self).input_taken(*self, outcome, r));
        }
        r
    }

    fn is_closed(&self) -> (closed: bool)
        ensures
            closed == self.spec_is_closed(),
    {
        self.is_closed
    }
}

/// The handler of one request, whatever its type.
pub struct RequestHandlerInstance(Box<dyn HandleInput>);

impl RequestHandlerInstance {
    /// Wraps the handler of one request.
    pub fn new(inner: Box<dyn HandleInput>) -> Self {
        RequestHandlerInstance(inner)
    }

    /// Shows the handler the head of the request.
    pub fn init(&mut self, req: Req<()>) -> Result<(), Error> {
        self.0.init(req)
    }

    /// Hands the handler the bytes that were read from the stream.
    pub fn handle_input(&mut self, buf: &mut ReadBuf<Vec<u8>>) -> Result<Option<BoxReply>, Error> {
        self.0.handle_input(buf)
    }

    /// Returns `true` if the connection is to be closed after the response.
    pub fn is_closed(&self) -> bool {
        self.0.is_closed()
    }
}

/// What makes the handler of one request.
pub trait CreateHandler: Send + Sync {
    /// Makes the handler of one request.
    fn create(&self) -> RequestHandlerInstance;
}

/// The handler `H` with its options: it makes one pipeline for each request.
struct Template<H: HandleRequest, D, E, C: Codec<H, D, E>> {
    req_handler: Arc<H>,
    options: HandlerOptions<H, D, E>,
    _codec: PhantomData<C>,
}

impl<
    H: HandleRequest,
    D: Send + Sync + 'static,
    E: Send + Sync + 'static,
    C: Codec<H, D, E>,
> CreateHandler for Template<H, D, E, C> {
    fn create(&self) -> RequestHandlerInstance {
        let handler: InputHandler<H, D, E, C> = InputHandler::new(
            share(&self.req_handler),
            C::create_decoder(self.options.decoder_factory()),
            C::create_encoder(self.options.encoder_factory()),
        );
        RequestHandlerInstance::new(Box::new(handler))
    }
}

/// The factory of the handlers of the requests of one route.
pub struct RequestHandlerFactory {
    inner: Box<dyn CreateHandler>,
}

impl RequestHandlerFactory {
    /// Makes the factory of the pipelines that run `req_handler`, with the
    /// codecs that `options` name and `C` drives.
    pub fn new<H, D, E, C>(req_handler: H, options: HandlerOptions<H, D, E>) -> Self where
        H: HandleRequest,
        D: Send + Sync + 'static,
        E: Send + Sync + 'static,
        C: Codec<H, D, E>,
     {
        let template: Template<H, D, E, C> = Template {
            req_handler: Arc::new(req_handler),
            options,
            _codec: PhantomData,
        };
        RequestHandlerFactory { inner: Box::new(template) }
    }

    /// Wraps a factory of another kind.
    pub fn from_box(inner: Box<dyn CreateHandler>) -> Self {
        RequestHandlerFactory { inner }
    }

    /// Makes the handler of one request.
    pub fn create(&self) -> RequestHandlerInstance {
        self.inner.create()
    }
}

} // verus!
