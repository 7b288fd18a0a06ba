//! The counters of a server.
use crate::response::Res;
use crate::status::Status;
use vstd::prelude::*;

verus! {

/// What a server counts.
#[derive(Debug, Clone, Copy, PartialEq, Eq, Hash, Structural)]
pub enum Counter {
    /// TCP clients that connected.
    ConnectedTcpClients,
    /// TCP clients that disconnected.
    DisconnectedTcpClients,
    /// Errors while reading the head part of requests.
    ReadRequestHeadErrors,
    /// Errors while parsing the path of requests.
    ParseRequestPathErrors,
    /// Errors while dispatching requests.
    DispatchRequestErrors,
    /// Errors while initializing request handlers.
    InitializeHandlerErrors,
    /// Errors while decoding the body part of requests.
    DecodeRequestBodyErrors,
    /// Errors while writing responses to sockets.
    WriteResponseErrors,
}

/// The namespace of the metrics of a server.
pub fn namespace() -> (name: &'static str)
    ensures
        name@ == "fibers_http_server"@,
{
    "fibers_http_server"
}

impl Counter {
    /// The name of the metric that the counter is exposed as.
    pub open spec fn spec_name(self) -> Seq<char> {
        match self {
            Counter::ConnectedTcpClients => "connected_tcp_clients_total"@,
            Counter::DisconnectedTcpClients => "disconnected_tcp_clients_total"@,
            _ => "errors_total"@,
        }
    }

    /// What the metric is said to count.
    pub open spec fn spec_help(self) -> Seq<char> {
        match self {
            Counter::ConnectedTcpClients => "Number of connected TCP clients"@,
            Counter::DisconnectedTcpClients => "Number of disconnected TCP clients"@,
            _ => "Number of errors"@,
        }
    }

    /// The phase that the errors of the counter occurred in: the value of
    /// the label `phase` of the metric.
    pub open spec fn spec_phase(self) -> Option<Seq<char>> {
        match self {
            Counter::ConnectedTcpClients => None,
            Counter::DisconnectedTcpClients => None,
            Counter::ReadRequestHeadErrors => Some("read_request_head"@),
            Counter::ParseRequestPathErrors => Some("parse_request_path"@),
            Counter::DispatchRequestErrors => Some("dispatch_request"@),
            Counter::InitializeHandlerErrors => Some("initialize_handler"@),
            Counter::DecodeRequestBodyErrors => Some("decode_request_body"@),
            Counter::WriteResponseErrors => Some("write_response"@),
        }
    }

    /// Returns the name of the metric that the counter is exposed as.
    pub fn name(self) -> (name: &'static str)
        ensures
            name@ == self.spec_name(),
    {
        match self {
            Counter::ConnectedTcpClients => "connected_tcp_clients_total",
            Counter::DisconnectedTcpClients => "disconnected_tcp_clients_total",
            _ => "errors_total",
        }
    }

    /// Returns what the metric is said to count.
    pub fn help(self) -> (help: &'static str)
        ensures
            help@ == self.spec_help(),
    {
        match self {
            Counter::ConnectedTcpClients => "Number of connected TCP clients",
            Counter::DisconnectedTcpClients => "Number of disconnected TCP clients",
            _ => "Number of errors",
        }
    }

    /// Returns the phase that the errors of the counter occurred in.
    pub fn phase(self) -> (phase: Option<&'static str>)
        ensures
            match phase {
                Some(text) => self.spec_phase() == Some(text@),
                None => self.spec_phase() is None,
            },
    {
        match self {
            Counter::ConnectedTcpClients => None,
            Counter::DisconnectedTcpClients => None,
            Counter::ReadRequestHeadErrors => Some("read_request_head"),
            Counter::ParseRequestPathErrors => Some("parse_request_path"),
            Counter::DispatchRequestErrors => Some("dispatch_request"),
            Counter::InitializeHandlerErrors => Some("initialize_handler"),
            Counter::DecodeRequestBodyErrors => Some("decode_request_body"),
            Counter::WriteResponseErrors => Some("write_response"),
        }
    }
}

/// HTTP server metrics.
#[derive(Debug, Clone, Copy)]
pub struct ServerMetrics {
    connected_tcp_clients: u64,
    disconnected_tcp_clients: u64,
    read_request_head_errors: u64,
    parse_request_path_errors: u64,
    dispatch_request_errors: u64,
    initialize_handler_errors: u64,
    decode_request_body_errors: u64,
    write_response_errors: u64,
}

/// `n + 1`, where the counter can hold it.
pub open spec fn next_count(n: u64) -> u64 {
    if n < u64::MAX {
        (n + 1) as u64
    } else {
        n
    }
}

impl ServerMetrics {
    /// The value of a counter.
    pub closed spec fn count(self, counter: Counter) -> u64 {
        match counter {
            Counter::ConnectedTcpClients => self.connected_tcp_clients,
            Counter::DisconnectedTcpClients => self.disconnected_tcp_clients,
            Counter::ReadRequestHeadErrors => self.read_request_head_errors,
            Counter::ParseRequestPathErrors => self.parse_request_path_errors,
            Counter::DispatchRequestErrors => self.dispatch_request_errors,
            Counter::InitializeHandlerErrors => self.initialize_handler_errors,
            Counter::DecodeRequestBodyErrors => self.decode_request_body_errors,
            Counter::WriteResponseErrors => self.write_response_errors,
        }
    }

    /// These metrics with `counter` incremented, and nothing else changed.
    pub open spec fn counted(self, after: Self, counter: Counter) -> bool {
        forall|c: Counter| #[trigger]
            after.count(c) == (if c == counter {
                next_count(self.count(c))
            } else {
                self.count(c)
            })
    }

    /// Whether two metrics have the same counts.
    pub open spec fn same(self, other: Self) -> bool {
        forall|c: Counter| #[trigger] self.count(c) == other.count(c)
    }

    /// Makes metrics whose counters are at zero.
    pub fn new() -> (metrics: Self)
        ensures
            forall|c: Counter| #[trigger] metrics.count(c) == 0,
    {
        ServerMetrics {
            connected_tcp_clients: 0,
            disconnected_tcp_clients: 0,
            read_request_head_errors: 0,
            parse_request_path_errors: 0,
            dispatch_request_errors: 0,
            initialize_handler_errors: 0,
            decode_request_body_errors: 0,
            write_response_errors: 0,
        }
    }

    /// Increments a counter. A counter that is full stays as it is.
    pub fn increment(&mut self, counter: Counter)
        ensures
            old(self).counted(*final(self), counter),
    {
        match counter {
            Counter::ConnectedTcpClients => {
                self.connected_tcp_clients = bump(self.connected_tcp_clients);
            },
            Counter::DisconnectedTcpClients => {
                self.disconnected_tcp_clients = bump(self.disconnected_tcp_clients);
            },
            Counter::ReadRequestHeadErrors => {
                self.read_request_head_errors = bump(self.read_request_head_errors);
            },
            Counter::ParseRequestPathErrors => {
                self.parse_request_path_errors = bump(self.parse_request_path_errors);
            },
            Counter::DispatchRequestErrors => {
                self.dispatch_request_errors = bump(self.dispatch_request_errors);
            },
            Counter::InitializeHandlerErrors => {
                self.initialize_handler_errors = bump(self.initialize_handler_errors);
            },
            Counter::DecodeRequestBodyErrors => {
                self.decode_request_body_errors = bump(self.decode_request_body_errors);
            },
            Counter::WriteResponseErrors => {
                self.write_response_errors = bump(self.write_response_errors);
            },
        }
    }

    /// Returns the value of a counter.
    pub fn get(&self, counter: Counter) -> (n: u64)
        ensures
            n == self.count(counter),
    {
        match counter {
            Counter::ConnectedTcpClients => self.connected_tcp_clients,
            Counter::DisconnectedTcpClients => self.disconnected_tcp_clients,
            Counter::ReadRequestHeadErrors => self.read_request_head_errors,
            Counter::ParseRequestPathErrors => self.parse_request_path_errors,
            Counter::DispatchRequestErrors => self.dispatch_request_errors,
            Counter::InitializeHandlerErrors => self.initialize_handler_errors,
            Counter::DecodeRequestBodyErrors => self.decode_request_body_errors,
            Counter::WriteResponseErrors => self.write_response_errors,
        }
    }

    /// Number of connected TCP clients.
    pub fn connected_tcp_clients(&self) -> (n: u64)
        ensures
            n == self.count(Counter::ConnectedTcpClients),
    {
        self.connected_tcp_clients
    }

    /// Number of disconnected TCP clients.
    pub fn disconnected_tcp_clients(&self) -> (n: u64)
        ensures
            n == self.count(Counter::DisconnectedTcpClients),
    {
        self.disconnected_tcp_clients
    }

    /// Number of errors occurred while reading the head part of requests.
    pub fn read_request_head_errors(&self) -> (n: u64)
        ensures
            n == self.count(Counter::ReadRequestHeadErrors),
    {
        self.read_request_head_errors
    }

    /// Number of errors occurred while parsing the path of requests.
    pub fn parse_request_path_errors(&self) -> (n: u64)
        ensures
            n == self.count(Counter::ParseRequestPathErrors),
    {
        self.parse_request_path_errors
    }

    /// Number of errors occurred while dispatching requests.
    pub fn dispatch_request_errors(&self) -> (n: u64)
        ensures
            n == self.count(Counter::DispatchRequestErrors),
    {
        self.dispatch_request_errors
    }

    /// Number of errors occurred while initializing request handlers.
    pub fn initialize_handler_errors(&self) -> (n: u64)
        ensures
            n == self.count(Counter::InitializeHandlerErrors),
    {
        self.initialize_handler_errors
    }

    /// Number of errors occurred while decoding the body part of requests.
    pub fn decode_request_body_errors(&self) -> (n: u64)
        ensures
            n == self.count(Counter::DecodeRequestBodyErrors),
    {
        self.decode_request_body_errors
    }

    /// Number of errors occurred while writing responses to sockets.
    pub fn write_response_errors(&self) -> (n: u64)
        ensures
            n == self.count(Counter::WriteResponseErrors),
    {
        self.write_response_errors
    }
}

/// `n + 1`, where the counter can hold it.
fn bump(n: u64) -> (r: u64)
    ensures
        r == next_count(n),
{
    if n < u64::MAX {
        n + 1
    } else {
        n
    }
}

/// A handler for exposing the metrics of the process: it answers `GET /metrics`.
#[derive(Debug)]
pub struct MetricsHandler;

impl MetricsHandler {
    /// The method that the handler handles.
    pub fn method() -> (method: &'static str)
        ensures
            method@ == "GET"@,
    {
        "GET"
    }

    /// The request path that the handler handles.
    pub fn path() -> (path: &'static str)
        ensures
            path@ == "/metrics"@,
    {
        "/metrics"
    }

    /// The response to a request: `OK` with the text of the metrics that
    /// were gathered, or `InternalServerError` with the words of what went
    /// wrong when they were.
    pub fn response(gathered: Result<String, String>) -> (res: Res<String>)
        ensures
            res.spec_version() == httpcodec::HttpVersion::V1_1,
            res.spec_header() == Seq::<(Seq<char>, Seq<char>)>::empty(),
            match gathered {
                Ok(text) => {
                    &&& res.spec_status_code() == Status::Okay.spec_code()
                    &&& res.spec_reason_phrase() == Status::Okay.spec_reason_phrase()
                    &&& res.spec_body() == text
                },
                Err(words) => {
                    &&& res.spec_status_code() == Status::InternalServerError.spec_code()
                    &&& res.spec_reason_phrase() == Status::InternalServerError.spec_reason_phrase()
                    &&& res.spec_body() == words
                },
            },
    {
        match gathered {
            Ok(text) => Res::new(Status::Okay, text),
            Err(words) => Res::new(Status::InternalServerError, words),
        }
    }
}

} // verus!
