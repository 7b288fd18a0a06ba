use fibers_http_server::header::HeaderField;
use fibers_http_server::{ErrorKind, Req};
use httpcodec::HttpVersion;
use url::Url;

fn base() -> Url {
    Url::parse("http://127.0.0.1:8080/").unwrap()
}

#[test]
fn req_new_resolves_the_target_against_the_base() {
    let header = vec![HeaderField::new("Host", "example"), HeaderField::new("Accept", "*/*")];
    let req = Req::new("GET", "/foo/bar?baz=1#frag", HttpVersion::V1_1, header, 7u8, &base()).unwrap();
    assert_eq!(req.method(), "GET");
    assert_eq!(req.target(), "/foo/bar?baz=1#frag");
    assert_eq!(req.version(), HttpVersion::V1_1);
    assert_eq!(req.url().as_str(), "http://127.0.0.1:8080/foo/bar?baz=1#frag");
    assert_eq!(req.url().query(), Some("baz=1"));
    assert_eq!(req.path(), "/foo/bar");
    assert_eq!(req.header().len(), 2);
    assert_eq!(req.header()[0].name(), "Host");
    assert_eq!(req.header()[1].value(), "*/*");
    assert_eq!(*req.body(), 7);
    assert_eq!(req.into_body(), 7);
}

#[test]
fn req_path_is_the_normalized_path() {
    let req = Req::new("GET", "/a/./b/../c d", HttpVersion::V1_0, Vec::new(), (), &base()).unwrap();
    assert_eq!(req.path(), "/a/c%20d");
    assert_eq!(req.version(), HttpVersion::V1_0);
    let root = Req::new("GET", "/", HttpVersion::V1_1, Vec::new(), (), &base()).unwrap();
    assert_eq!(root.path(), "/");
}

#[test]
fn req_new_refuses_a_target_that_is_no_path() {
    for target in ["", "foo", "http://example.com/", "*", "?x"] {
        let r = Req::new("GET", target, HttpVersion::V1_1, Vec::new(), (), &base());
        assert_eq!(r.err().map(|e| e.kind()), Some(ErrorKind::InvalidInput));
    }
}

#[test]
fn req_new_refuses_a_target_that_cannot_be_resolved() {
    // "//" makes what follows the host of the URL, and this is none
    let r = Req::new("GET", "//[", HttpVersion::V1_1, Vec::new(), (), &base());
    assert_eq!(r.err().map(|e| e.kind()), Some(ErrorKind::InvalidInput));
}

#[test]
fn take_body_and_with_body_keep_the_head() {
    let header = vec![HeaderField::new("Host", "example")];
    let req = Req::new("PUT", "/x", HttpVersion::V1_1, header, "body".to_owned(), &base()).unwrap();
    let (head, body) = req.take_body();
    assert_eq!(body, "body");
    assert_eq!(head.method(), "PUT");
    assert_eq!(head.target(), "/x");
    assert_eq!(head.path(), "/x");
    assert_eq!(head.header().len(), 1);
    let again = head.with_body(vec![1u8, 2]);
    assert_eq!(again.method(), "PUT");
    assert_eq!(again.url().as_str(), "http://127.0.0.1:8080/x");
    assert_eq!(again.header()[0].name(), "Host");
    assert_eq!(again.body(), &vec![1u8, 2]);
}
