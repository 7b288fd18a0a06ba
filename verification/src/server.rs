//! The settings of a server, and the registration of its handlers.
use crate::dispatcher::{Dispatcher, DispatcherBuilder, Matcher, Path, Routes};
use crate::error::{Error, ErrorKind};
use crate::handler::{Codec, HandleRequest, HandlerOptions, RequestHandlerFactory};
use factory::DefaultFactory;
use httpcodec::DecodeOptions;
use vstd::prelude::*;
use vstd::string::StringSliceAdditionalSpecFns;

verus! {

/// `httpcodec::DecodeOptions`: the limits of the decoder of request heads.
#[verifier::external_type_specification]
pub struct ExDecodeOptions(DecodeOptions);

/// `DecodeOptions::default`: a start line and a header may each take up to
/// `0xFFFF` bytes.
#[verifier::external_body]
fn default_decode_options() -> (options: DecodeOptions)
    ensures
        options.max_start_line_size == DEFAULT_MAX_SIZE,
        options.max_header_size == DEFAULT_MAX_SIZE,
{
    DecodeOptions::default()
}

/// The size of the buffers of a connection, unless another is asked for.
pub const DEFAULT_BUFFER_SIZE: usize = 8192;

/// The most bytes that a start line or a header may take, unless another
/// limit is asked for.
pub const DEFAULT_MAX_SIZE: usize = 0xFFFF;

/// The settings of the connections of a server.
#[derive(Debug)]
pub struct ServerOptions {
    /// The size of the read buffer of a connection, in bytes.
    pub read_buffer_size: usize,
    /// The size of the write buffer of a connection, in bytes.
    pub write_buffer_size: usize,
    /// The options of the decoder of request heads.
    pub decode_options: DecodeOptions,
}

/// HTTP server builder.
pub struct ServerBuilder {
    dispatcher: DispatcherBuilder<RequestHandlerFactory>,
    options: ServerOptions,
}

impl ServerBuilder {
    /// The invariant of the builder.
    pub closed spec fn wf(self) -> bool {
        self.dispatcher.wf()
    }

    /// The handlers that are registered.
    pub closed spec fn routes(self) -> Routes<RequestHandlerFactory> {
        self.dispatcher@
    }

    /// The settings.
    pub closed spec fn options(self) -> ServerOptions {
        self.options
    }

    /// Makes a new `ServerBuilder` instance: no handler is registered, the
    /// buffers take `8192` bytes each, and the decoder has its usual limits.
    pub fn new() -> (builder: Self)
        ensures
            builder.wf(),
            builder.routes().nodes == Set::<Seq<Matcher>>::empty().insert(Seq::empty()),
            builder.routes().handlers == Map::<(Seq<Matcher>, Seq<u8>), RequestHandlerFactory>::empty(),
            builder.options().read_buffer_size == DEFAULT_BUFFER_SIZE,
            builder.options().write_buffer_size == DEFAULT_BUFFER_SIZE,
            builder.options().decode_options.max_start_line_size == DEFAULT_MAX_SIZE,
            builder.options().decode_options.max_header_size == DEFAULT_MAX_SIZE,
    {
        ServerBuilder {
            dispatcher: DispatcherBuilder::new(),
            options: ServerOptions {
                read_buffer_size: DEFAULT_BUFFER_SIZE,
                write_buffer_size: DEFAULT_BUFFER_SIZE,
                decode_options: default_decode_options(),
            },
        }
    }

    /// Adds a HTTP request handler, with codecs that are made by default and
    /// driven by `C`.
    ///
    /// # Errors
    ///
    /// If the path and method of the handler conflicts with the already registered handlers,
    /// an `ErrorKind::InvalidInput` error will be returned.
    pub fn add_handler<H, C>(&mut self, handler: H) -> (r: Result<(), Error>) where
        H: HandleRequest,
        H::Decoder: Default,
        H::Encoder: Default,
        C: Codec<H, DefaultFactory<H::Decoder>, DefaultFactory<H::Encoder>>,

        requires
            old(self).wf(),
        ensures
            final(self).wf(),
            final(self).options() == old(self).options(),
            r is Ok <==> Path::is_pattern(H::PATH.spec_bytes()) && !old(self).routes().conflicts(
                Path::pattern_of(H::PATH.spec_bytes()),
                H::METHOD.spec_bytes(),
            ),
            r is Ok ==> final(self).routes().nodes == old(self).routes().insert(
                Path::pattern_of(H::PATH.spec_bytes()),
                H::METHOD.spec_bytes(),
                arbitrary(),
            ).nodes,
            r is Ok ==> final(self).routes().handlers.dom() == old(self).routes().handlers.dom().insert(
                (Path::pattern_of(H::PATH.spec_bytes()), H::METHOD.spec_bytes()),
            ),
            r is Err ==> final(self).routes() == old(self).routes(),
            r matches Err(e) ==> e.spec_kind() == ErrorKind::InvalidInput,
    {
        let options = HandlerOptions::default();
        self.add_handler_with_options::<H, DefaultFactory<H::Decoder>, DefaultFactory<H::Encoder>, C>(
            handler,
            options,
        )
    }

    /// Adds a HTTP request handler with the given options.
    ///
    /// # Errors
    ///
    /// If the path and method of the handler conflicts with the already registered handlers,
    /// an `ErrorKind::InvalidInput` error will be returned.
    pub fn add_handler_with_options<H, D, E, C>(
        &mut self,
        handler: H,
        options: HandlerOptions<H, D, E>,
    ) -> (r: Result<(), Error>) where
        H: HandleRequest,
        D: Send + Sync + 'static,
        E: Send + Sync + 'static,
        C: Codec<H, D, E>,

        requires
            old(self).wf(),
        ensures
            final(self).wf(),
            final(self).options() == old(self).options(),
            r is Ok <==> Path::is_pattern(H::PATH.spec_bytes()) && !old(self).routes().conflicts(
                Path::pattern_of(H::PATH.spec_bytes()),
                H::METHOD.spec_bytes(),
            ),
            r is Ok ==> final(self).routes().nodes == old(self).routes().insert(
                Path::pattern_of(H::PATH.spec_bytes()),
                H::METHOD.spec_bytes(),
                arbitrary(),
            ).nodes,
            r is Ok ==> final(self).routes().handlers.dom() == old(self).routes().handlers.dom().insert(
                (Path::pattern_of(H::PATH.spec_bytes()), H::METHOD.spec_bytes()),
            ),
            r is Err ==> final(self).routes() == old(self).routes(),
            r matches Err(e) ==> e.spec_kind() == ErrorKind::InvalidInput,
    {
        let factory = RequestHandlerFactory::new::<H, D, E, C>(handler, options);
        self.dispatcher.register_handler(H::METHOD, H::PATH, factory)
    }

    /// Sets the application level read buffer size of the server in bytes.
    ///
    /// The default value is `8192`.
    pub fn read_buffer_size(&mut self, n: usize)
        ensures
            final(self).options().read_buffer_size == n,
            final(self).options().write_buffer_size == old(self).options().write_buffer_size,
            final(self).options().decode_options == old(self).options().decode_options,
            final(self).routes() == old(self).routes(),
            final(self).wf() == old(self).wf(),
    {
        self.options.read_buffer_size = n;
    }

    /// Sets the application level write buffer size of the server in bytes.
    ///
    /// The default value is `8192`.
    pub fn write_buffer_size(&mut self, n: usize)
        ensures
            final(self).options().write_buffer_size == n,
            final(self).options().read_buffer_size == old(self).options().read_buffer_size,
            final(self).options().decode_options == old(self).options().decode_options,
            final(self).routes() == old(self).routes(),
            final(self).wf() == old(self).wf(),
    {
        self.options.write_buffer_size = n;
    }

    /// Sets the options of the request decoder of the server.
    pub fn decode_options(&mut self, options: DecodeOptions)
        ensures
            final(self).options().decode_options == options,
            final(self).options().read_buffer_size == old(self).options().read_buffer_size,
            final(self).options().write_buffer_size == old(self).options().write_buffer_size,
            final(self).routes() == old(self).routes(),
            final(self).wf() == old(self).wf(),
    {
        self.options.decode_options = options;
    }

    /// Ends the registration: returns the dispatcher and the settings that
    /// every connection of the server gets.
    pub fn finish(self) -> (r: (Dispatcher<RequestHandlerFactory>, ServerOptions))
        requires
            self.wf(),
        ensures
            r.0.wf(),
            r.0@ == self.routes(),
            r.1 == self.options(),
    {
        (self.dispatcher.finish(), self.options)
    }
}

} // verus!
