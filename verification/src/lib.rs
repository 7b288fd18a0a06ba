//! A tiny HTTP/1.1 server engine.
//!
//! The crate holds the parts of a server that decide: the routing trie, the
//! per-request handler pipeline, the per-connection phase machine and the
//! synthesis of error responses. Sockets, executors and the wire codecs are
//! driven from outside, and hand their outcomes to the functions of this crate.
//!
//! # How a server is put together
//!
//! - The handlers of a server implement [`HandleRequest`]. They are
//!   registered with a [`ServerBuilder`], which refuses the routes that
//!   conflict, and which ends in a [`dispatcher::Dispatcher`] and the
//!   settings of the connections.
//! - Each client gets a [`connection::Connection`]. Whoever owns the socket
//!   executes the I/O between the stream and the buffers of the connection,
//!   and then lets the connection take a turn, with the result of the I/O,
//!   until the turn says that the connection waits or has ended.
//! - The codecs of the bodies and the replies of the handlers are driven by
//!   an implementation of [`handler::Codec`].
//!
//! The bytes that a response is encoded to are stated in [`response`], and
//! that they tell the response again in [`wire`].
//!
//! The contracts of the functions are proved. What is taken on trust is
//! marked in the source: the declarations of the types of other crates, the
//! small functions that call into those crates, and the names of what such a
//! call returns.
pub mod bc;
pub mod bytes;
pub mod connection;
pub mod dispatcher;
pub mod error;
pub mod handler;
pub mod header;
pub mod metrics;
pub mod request;
pub mod response;
pub mod server;
pub mod status;
pub mod wire;

pub use error::{Error, ErrorKind};
pub use handler::{HandleRequest, HandlerOptions};
pub use request::Req;
pub use response::Res;
pub use server::ServerBuilder;
pub use status::Status;
