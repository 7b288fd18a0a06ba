use fibers_http_server::error::CodecFailure;
use fibers_http_server::handler::{HandlerOptions, RequestHandlerFactory};
use fibers_http_server::metrics::{namespace, Counter, MetricsHandler, ServerMetrics};
use fibers_http_server::{Error, ErrorKind, ServerBuilder};
use httpcodec::{DecodeOptions, HttpVersion};

#[test]
fn error_has_kind_and_message() {
    let e = Error::new(ErrorKind::Other, "something");
    assert_eq!(e.kind(), ErrorKind::Other);
    assert_eq!(e.message(), "something");
    assert_eq!(Error::invalid_input("bad").kind(), ErrorKind::InvalidInput);
    assert_eq!(Error::invalid_input("bad").message(), "bad");
    assert_eq!(Error::other("worse").kind(), ErrorKind::Other);
    let copy = e.clone();
    assert_eq!(copy.kind(), ErrorKind::Other);
    assert_eq!(copy.message(), "something");
}

#[test]
fn error_of_a_codec_keeps_invalid_input_apart() {
    let e = Error::from_codec(CodecFailure::new(true, "bad byte".to_owned()));
    assert_eq!(e.kind(), ErrorKind::InvalidInput);
    assert_eq!(e.message(), "bad byte");
    let e = Error::from_codec(CodecFailure::new(false, "early end".to_owned()));
    assert_eq!(e.kind(), ErrorKind::Other);
    assert_eq!(e.message(), "early end");
}

#[test]
fn metrics_start_at_zero_and_count_one_by_one() {
    let mut metrics = ServerMetrics::new();
    assert_eq!(metrics.connected_tcp_clients(), 0);
    assert_eq!(metrics.write_response_errors(), 0);
    metrics.increment(Counter::ConnectedTcpClients);
    metrics.increment(Counter::ConnectedTcpClients);
    metrics.increment(Counter::DisconnectedTcpClients);
    metrics.increment(Counter::ReadRequestHeadErrors);
    metrics.increment(Counter::ParseRequestPathErrors);
    metrics.increment(Counter::DispatchRequestErrors);
    metrics.increment(Counter::InitializeHandlerErrors);
    metrics.increment(Counter::DecodeRequestBodyErrors);
    metrics.increment(Counter::WriteResponseErrors);
    metrics.increment(Counter::WriteResponseErrors);
    metrics.increment(Counter::WriteResponseErrors);
    assert_eq!(metrics.connected_tcp_clients(), 2);
    assert_eq!(metrics.disconnected_tcp_clients(), 1);
    assert_eq!(metrics.read_request_head_errors(), 1);
    assert_eq!(metrics.parse_request_path_errors(), 1);
    assert_eq!(metrics.dispatch_request_errors(), 1);
    assert_eq!(metrics.initialize_handler_errors(), 1);
    assert_eq!(metrics.decode_request_body_errors(), 1);
    assert_eq!(metrics.write_response_errors(), 3);
}

#[test]
fn metrics_handler_answers_with_the_gathered_text() {
    assert_eq!(MetricsHandler::method(), "GET");
    assert_eq!(MetricsHandler::path(), "/metrics");
    let res = MetricsHandler::response(Ok("a 1\nb 2\n".to_owned()));
    assert_eq!(res.status_code(), 200);
    assert_eq!(res.reason_phrase(), "OK");
    assert_eq!(res.version(), HttpVersion::V1_1);
    assert_eq!(res.body(), "a 1\nb 2\n");
    assert!(res.header().is_empty());
    let res = MetricsHandler::response(Err("poisoned".to_owned()));
    assert_eq!(res.status_code(), 500);
    assert_eq!(res.reason_phrase(), "Internal Server Error");
    assert_eq!(res.body(), "poisoned");
}

#[test]
fn handler_options_take_the_factories() {
    let options = HandlerOptions::<u8, (), ()>::new();
    assert_eq!(*options.decoder_factory(), ());
    let options = options.decoder(1u16).encoder("e");
    assert_eq!(*options.decoder_factory(), 1);
    assert_eq!(*options.encoder_factory(), "e");
    let options = options.decoder(2u32);
    assert_eq!(*options.decoder_factory(), 2);
    assert_eq!(*options.encoder_factory(), "e");
}

#[test]
fn server_builder_has_the_usual_settings() {
    let (dispatcher, options) = ServerBuilder::new().finish();
    assert_eq!(options.read_buffer_size, 8192);
    assert_eq!(options.write_buffer_size, 8192);
    assert_eq!(options.decode_options.max_start_line_size, 0xFFFF);
    assert_eq!(options.decode_options.max_header_size, 0xFFFF);
    assert_eq!(options.decode_options.max_header_size, DecodeOptions::default().max_header_size);
    assert!(dispatcher.dispatch("GET", "/").is_err());
}

#[test]
fn server_builder_takes_other_settings() {
    let mut builder = ServerBuilder::new();
    builder.read_buffer_size(10);
    builder.write_buffer_size(20);
    builder.decode_options(DecodeOptions { max_start_line_size: 30, max_header_size: 40 });
    let (_, options) = builder.finish();
    assert_eq!(options.read_buffer_size, 10);
    assert_eq!(options.write_buffer_size, 20);
    assert_eq!(options.decode_options.max_start_line_size, 30);
    assert_eq!(options.decode_options.max_header_size, 40);
}

#[test]
fn dispatcher_is_shared_by_its_clones() {
    let (dispatcher, _) = ServerBuilder::new().finish();
    let clone = dispatcher.clone();
    let found: Result<&RequestHandlerFactory, _> = clone.dispatch("GET", "/x");
    assert!(found.is_err());
}

#[test]
fn counters_are_exposed_under_their_names() {
    assert_eq!(namespace(), "fibers_http_server");
    assert_eq!(Counter::ConnectedTcpClients.name(), "connected_tcp_clients_total");
    assert_eq!(Counter::ConnectedTcpClients.help(), "Number of connected TCP clients");
    assert_eq!(Counter::ConnectedTcpClients.phase(), None);
    assert_eq!(Counter::DisconnectedTcpClients.name(), "disconnected_tcp_clients_total");
    assert_eq!(Counter::DisconnectedTcpClients.help(), "Number of disconnected TCP clients");
    assert_eq!(Counter::DisconnectedTcpClients.phase(), None);
    let errors = [
        (Counter::ReadRequestHeadErrors, "read_request_head"),
        (Counter::ParseRequestPathErrors, "parse_request_path"),
        (Counter::DispatchRequestErrors, "dispatch_request"),
        (Counter::InitializeHandlerErrors, "initialize_handler"),
        (Counter::DecodeRequestBodyErrors, "decode_request_body"),
        (Counter::WriteResponseErrors, "write_response"),
    ];
    for (counter, phase) in errors {
        assert_eq!(counter.name(), "errors_total");
        assert_eq!(counter.help(), "Number of errors");
        assert_eq!(counter.phase(), Some(phase));
    }
    let mut metrics = ServerMetrics::new();
    metrics.increment(Counter::DispatchRequestErrors);
    assert_eq!(metrics.get(Counter::DispatchRequestErrors), 1);
    assert_eq!(metrics.get(Counter::WriteResponseErrors), 0);
}
